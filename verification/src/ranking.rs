//! Stable ordering of list positions by a composite key.
//!
//! Listings are ordered by a key made of a number, two texts and finally the
//! position itself, compared lexicographically. Because the position takes
//! part in the key, the order is strict and total on distinct positions, which
//! makes it the order a stable sort produces.
use vstd::prelude::*;
use crate::text::{seq_less, precedes, lemma_seq_less_irreflexive, lemma_seq_less_trichotomy, lemma_seq_less_transitive};

verus! {

broadcast use vstd::seq_lib::group_to_multiset_ensures;

/// Composite ordering key of the list entry at `index`.
pub struct SortKey {
    pub major: u32,
    pub minor: Vec<char>,
    pub detail: Vec<char>,
    pub index: usize,
}

/// `a` comes before `b`: smaller `major`, then `minor`, then `detail` (by code
/// point), then smaller `index`.
pub open spec fn key_before(a: SortKey, b: SortKey) -> bool {
    ||| a.major < b.major
    ||| a.major == b.major && seq_less(a.minor@, b.minor@)
    ||| a.major == b.major && a.minor@ == b.minor@ && seq_less(a.detail@, b.detail@)
    ||| a.major == b.major && a.minor@ == b.minor@ && a.detail@ == b.detail@ && a.index < b.index
}

/// Every earlier element comes before every later one.
pub open spec fn keys_sorted(s: Seq<SortKey>) -> bool {
    forall|a: int, b: int| 0 <= a < b < s.len() ==> key_before(s[a], s[b])
}

/// No two elements share a position.
pub open spec fn distinct_indices(s: Seq<SortKey>) -> bool {
    forall|a: int, b: int| 0 <= a < b < s.len() ==> s[a].index != s[b].index
}

pub proof fn lemma_key_before_strict(a: SortKey, b: SortKey)
    ensures
        !(key_before(a, b) && key_before(b, a)),
        !key_before(a, a),
        a.index != b.index ==> key_before(a, b) || key_before(b, a),
{
    lemma_seq_less_trichotomy(a.minor@, b.minor@);
    lemma_seq_less_trichotomy(a.detail@, b.detail@);
    lemma_seq_less_irreflexive(a.minor@);
    lemma_seq_less_irreflexive(a.detail@);
}

pub proof fn lemma_key_before_transitive(a: SortKey, b: SortKey, c: SortKey)
    requires
        key_before(a, b),
        key_before(b, c),
    ensures
        key_before(a, c),
{
    if seq_less(a.minor@, b.minor@) && seq_less(b.minor@, c.minor@) {
        lemma_seq_less_transitive(a.minor@, b.minor@, c.minor@);
    }
    if seq_less(a.detail@, b.detail@) && seq_less(b.detail@, c.detail@) {
        lemma_seq_less_transitive(a.detail@, b.detail@, c.detail@);
    }
}

/// Whether `a` comes before `b`.
pub fn key_precedes(a: &SortKey, b: &SortKey) -> (r: bool)
    ensures
        r == key_before(*a, *b),
{
    if a.major != b.major {
        return a.major < b.major;
    }
    if precedes(&a.minor, &b.minor) {
        return true;
    }
    if precedes(&b.minor, &a.minor) {
        proof {
            lemma_seq_less_trichotomy(a.minor@, b.minor@);
        }
        return false;
    }
    proof {
        lemma_seq_less_trichotomy(a.minor@, b.minor@);
    }
    if precedes(&a.detail, &b.detail) {
        return true;
    }
    if precedes(&b.detail, &a.detail) {
        proof {
            lemma_seq_less_trichotomy(a.detail@, b.detail@);
        }
        return false;
    }
    proof {
        lemma_seq_less_trichotomy(a.detail@, b.detail@);
    }
    a.index < b.index
}

proof fn lemma_multiset_insert_at(s: Seq<SortKey>, pos: int, x: SortKey)
    requires
        0 <= pos <= s.len(),
    ensures
        s.insert(pos, x).to_multiset() =~= s.to_multiset().insert(x),
{
    let t = s.insert(pos, x);
    assert(t.remove(pos) =~= s);
    assert(t[pos] == x);
    assert(t.remove(pos).to_multiset() =~= t.to_multiset().remove(x));
    assert(t.contains(x));
}

/// The keys of `v` in key order.
pub fn sort_keys(v: Vec<SortKey>) -> (r: Vec<SortKey>)
    requires
        distinct_indices(v@),
    ensures
        r@.to_multiset() == v@.to_multiset(),
        keys_sorted(r@),
        r@.len() == v@.len(),
{
    let ghost orig = v@;
    let mut rest = v;
    let mut sorted: Vec<SortKey> = Vec::new();
    while rest.len() > 0
        invariant
            rest@ == orig.take(rest@.len() as int),
            rest@.len() <= orig.len(),
            distinct_indices(orig),
            sorted@.to_multiset().add(rest@.to_multiset()) == orig.to_multiset(),
            keys_sorted(sorted@),
            forall|i: int|
                0 <= i < sorted@.len() ==> exists|j: int|
                    rest@.len() <= j < orig.len() && #[trigger] sorted@[i] == orig[j],
        decreases rest@.len(),
    {
        let ghost old_rest = rest@;
        let x = rest.pop().unwrap();
        assert(old_rest =~= rest@.push(x));
        assert(rest@ =~= orig.take(rest@.len() as int));
        assert(x == orig[rest@.len() as int]);
        // x differs in position from everything already sorted
        assert forall|i: int| 0 <= i < sorted@.len() implies #[trigger] sorted@[i].index != x.index by {
            let j = choose|j: int| old_rest.len() <= j < orig.len() && sorted@[i] == orig[j];
            assert(rest@.len() < j);
        }
        let mut pos: usize = 0;
        while pos < sorted.len() && key_precedes(&sorted[pos], &x)
            invariant
                pos <= sorted@.len(),
                forall|i: int| 0 <= i < pos ==> key_before(#[trigger] sorted@[i], x),
            decreases sorted@.len() - pos,
        {
            pos += 1;
        }
        proof {
            if pos < sorted@.len() {
                lemma_key_before_strict(sorted@[pos as int], x);
                assert(key_before(x, sorted@[pos as int]));
                assert forall|k: int| pos <= k < sorted@.len() implies key_before(x, #[trigger] sorted@[k]) by {
                    if k > pos {
                        lemma_key_before_transitive(x, sorted@[pos as int], sorted@[k]);
                    }
                }
            }
            lemma_multiset_insert_at(sorted@, pos as int, x);
        }
        let ghost old_sorted = sorted@;
        sorted.insert(pos, x);
        assert(sorted@ =~= old_sorted.insert(pos as int, x));
        assert forall|a: int, b: int| 0 <= a < b < sorted@.len() implies key_before(sorted@[a], sorted@[b]) by {
            if b < pos {
            } else if b == pos {
            } else if a < pos {
                lemma_key_before_transitive(sorted@[a], x, sorted@[b]);
            } else if a == pos {
            } else {
            }
        }
        assert forall|i: int| 0 <= i < sorted@.len() implies exists|j: int|
            rest@.len() <= j < orig.len() && #[trigger] sorted@[i] == orig[j] by {
            if i < pos {
                assert(sorted@[i] == old_sorted[i]);
            } else if i == pos {
                assert(sorted@[i] == orig[rest@.len() as int]);
            } else {
                assert(sorted@[i] == old_sorted[i - 1]);
            }
        }
        assert(sorted@.to_multiset().add(rest@.to_multiset()) =~= orig.to_multiset());
    }
    assert(rest@ =~= Seq::<SortKey>::empty());
    assert(sorted@.to_multiset() =~= orig.to_multiset());
    assert(sorted@.to_multiset().len() == orig.to_multiset().len());
    sorted
}

/// Law: two sequences that hold the same elements once each, both ordered by
/// the same strict order, are equal.
pub proof fn lemma_sorted_unique(s1: Seq<int>, s2: Seq<int>, before: spec_fn(int, int) -> bool)
    requires
        s1.no_duplicates(),
        s2.no_duplicates(),
        forall|x: int| s1.contains(x) <==> s2.contains(x),
        forall|a: int, b: int| 0 <= a < b < s1.len() ==> before(s1[a], s1[b]),
        forall|a: int, b: int| 0 <= a < b < s2.len() ==> before(s2[a], s2[b]),
        forall|x: int, y: int| !(#[trigger] before(x, y) && #[trigger] before(y, x)),
    ensures
        s1 == s2,
    decreases s1.len(),
{
    if s1.len() == 0 {
        if s2.len() > 0 {
            assert(s2.contains(s2[0]));
        }
        assert(s1 =~= s2);
    } else {
        assert(s1.contains(s1[0]));
        let k = choose|k: int| 0 <= k < s2.len() && s2[k] == s1[0];
        assert(s2.contains(s2[0]));
        let m = choose|m: int| 0 <= m < s1.len() && s1[m] == s2[0];
        if k > 0 {
            assert(before(s2[0], s2[k]));
            assert(m != 0);
            assert(before(s1[0], s1[m]));
        }
        assert(k == 0);
        let t1 = s1.drop_first();
        let t2 = s2.drop_first();
        assert forall|x: int| t1.contains(x) <==> t2.contains(x) by {
            if t1.contains(x) {
                let i = choose|i: int| 0 <= i < t1.len() && t1[i] == x;
                assert(s1[i + 1] == x);
                assert(s2.contains(x));
                let j = choose|j: int| 0 <= j < s2.len() && s2[j] == x;
                assert(j != 0);
                assert(t2[j - 1] == x);
            }
            if t2.contains(x) {
                let i = choose|i: int| 0 <= i < t2.len() && t2[i] == x;
                assert(s2[i + 1] == x);
                assert(s1.contains(x));
                let j = choose|j: int| 0 <= j < s1.len() && s1[j] == x;
                assert(j != 0);
                assert(t1[j - 1] == x);
            }
        }
        lemma_sorted_unique(t1, t2, before);
        assert(s1 =~= seq![s1[0]] + t1);
        assert(s2 =~= seq![s2[0]] + t2);
    }
}

} // verus!
