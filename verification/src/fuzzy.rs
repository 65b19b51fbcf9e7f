//! Case-insensitive fuzzy matching of a query against a name.
//!
//! The query's characters are matched greedily, left to right, against the
//! name's characters. Each matched character scores 1, or 3 when it directly
//! follows the previous match; a match at the start of the name or after a
//! non-alphanumeric character scores 2 more.
use vstd::prelude::*;
use crate::text::{lower_char, lower_char_spec, is_alnum, alnum_spec, chars_of};

verus! {

/// Longest query whose score is certain to fit in `u32` (five points per character).
pub const MAX_QUERY_LEN: usize = 858_993_459;

/// Characters as the matcher compares them: each mapped to its lowercase form.
pub open spec fn lowered(s: Seq<char>) -> Seq<char> {
    s.map_values(|c: char| lower_char_spec(c))
}

/// First position `j >= from` of `t` holding `c`.
pub open spec fn next_match(t: Seq<char>, c: char, from: int) -> Option<int>
    decreases t.len() - from,
{
    if from >= t.len() {
        None
    } else if from >= 0 && t[from] == c {
        Some(from)
    } else {
        next_match(t, c, from + 1)
    }
}

/// Position in `t` of the `k`-th character of `q` under greedy left-to-right
/// matching, if the first `k + 1` characters of `q` all find a match.
pub open spec fn match_pos(q: Seq<char>, t: Seq<char>, k: nat) -> Option<int>
    decreases k,
{
    if k >= q.len() {
        None
    } else if k == 0 {
        next_match(t, q[0], 0)
    } else {
        match match_pos(q, t, (k - 1) as nat) {
            Some(p) => next_match(t, q[k as int], p + 1),
            None => None,
        }
    }
}

/// Points earned by the `k`-th matched character.
pub open spec fn match_bonus(q: Seq<char>, t: Seq<char>, k: nat) -> int {
    let p = match_pos(q, t, k)->0;
    let step: int = if k > 0 && match_pos(q, t, (k - 1) as nat) == Some(p - 1) {
        3
    } else {
        1
    };
    let word: int = if p == 0 || !alnum_spec(t[p - 1]) {
        2
    } else {
        0
    };
    step + word
}

/// Total points of the first `n` matched characters.
pub open spec fn match_score(q: Seq<char>, t: Seq<char>, n: nat) -> int
    decreases n,
{
    if n == 0 {
        0
    } else {
        match_score(q, t, (n - 1) as nat) + match_bonus(q, t, (n - 1) as nat)
    }
}

/// The score of `query` against `text`: `Some(0)` for an empty query, `None`
/// when some query character finds no match, else the points of all matches.
pub open spec fn fuzzy_spec(query: Seq<char>, text: Seq<char>) -> Option<int> {
    let q = lowered(query);
    let t = lowered(text);
    if q.len() == 0 {
        Some(0)
    } else if match_pos(q, t, (q.len() - 1) as nat) is Some {
        Some(match_score(q, t, q.len()))
    } else {
        None
    }
}

/// `q` is a subsequence of `t`: its characters occur in `t` in order.
pub open spec fn embeds(q: Seq<char>, t: Seq<char>) -> bool {
    exists|ix: Seq<int>| is_embedding(q, t, ix)
}

/// `ix` places each character of `q` at a strictly increasing position of `t`.
pub open spec fn is_embedding(q: Seq<char>, t: Seq<char>, ix: Seq<int>) -> bool {
    &&& ix.len() == q.len()
    &&& forall|k: int| 0 <= k < q.len() ==> 0 <= #[trigger] ix[k] < t.len() && t[ix[k]] == q[k]
    &&& forall|k: int| 0 <= k < q.len() - 1 ==> #[trigger] ix[k] < ix[k + 1]
}

// ---------------------------------------------------------------------
// Lemmas
// ---------------------------------------------------------------------
proof fn lemma_next_match_found(t: Seq<char>, c: char, from: int)
    requires
        0 <= from,
    ensures
        next_match(t, c, from) matches Some(j) ==> from <= j < t.len() && j >= 0 && t[j] == c
            && forall|x: int| from <= x < j ==> t[x] != c,
    decreases t.len() - from,
{
    if from < t.len() && !(from >= 0 && t[from] == c) {
        lemma_next_match_found(t, c, from + 1);
    }
}

proof fn lemma_next_match_at(t: Seq<char>, c: char, from: int, i: int)
    requires
        0 <= from <= i < t.len(),
        t[i] == c,
        forall|x: int| from <= x < i ==> t[x] != c,
    ensures
        next_match(t, c, from) == Some(i),
    decreases i - from,
{
    if from < i {
        lemma_next_match_at(t, c, from + 1, i);
    }
}

proof fn lemma_next_match_none(t: Seq<char>, c: char, from: int)
    requires
        0 <= from,
        forall|x: int| from <= x < t.len() ==> t[x] != c,
    ensures
        next_match(t, c, from) is None,
    decreases t.len() - from,
{
    if from < t.len() {
        lemma_next_match_none(t, c, from + 1);
    }
}

proof fn lemma_next_match_no_later(t: Seq<char>, c: char, from: int, r: int)
    requires
        0 <= from <= r < t.len(),
        t[r] == c,
    ensures
        next_match(t, c, from) matches Some(j) && j <= r,
    decreases r - from,
{
    if from < r && t[from] != c {
        lemma_next_match_no_later(t, c, from + 1, r);
    }
}

proof fn lemma_match_pos_facts(q: Seq<char>, t: Seq<char>, k: nat)
    ensures
        match_pos(q, t, k) matches Some(p) ==> {
            &&& k < q.len()
            &&& 0 <= p < t.len()
            &&& t[p] == q[k as int]
            &&& k > 0 ==> (match_pos(q, t, (k - 1) as nat) matches Some(p0) && p0 < p)
        },
    decreases k,
{
    if k < q.len() {
        if k == 0 {
            lemma_next_match_found(t, q[0], 0);
        } else {
            lemma_match_pos_facts(q, t, (k - 1) as nat);
            if let Some(p0) = match_pos(q, t, (k - 1) as nat) {
                lemma_next_match_found(t, q[k as int], p0 + 1);
            }
        }
    }
}

proof fn lemma_match_pos_prefix(q: Seq<char>, t: Seq<char>, k: nat, m: nat)
    requires
        k <= m,
        match_pos(q, t, m) is Some,
    ensures
        match_pos(q, t, k) is Some,
    decreases m - k,
{
    if k < m {
        lemma_match_pos_facts(q, t, m);
        lemma_match_pos_prefix(q, t, k, (m - 1) as nat);
    }
}

proof fn lemma_score_bounds(q: Seq<char>, t: Seq<char>, n: nat)
    ensures
        n <= match_score(q, t, n) <= 5 * n,
    decreases n,
{
    if n > 0 {
        lemma_score_bounds(q, t, (n - 1) as nat);
    }
}

proof fn lemma_greedy_no_later(q: Seq<char>, t: Seq<char>, ix: Seq<int>, k: nat)
    requires
        is_embedding(q, t, ix),
        k < q.len(),
    ensures
        match_pos(q, t, k) matches Some(p) && p <= ix[k as int],
    decreases k,
{
    if k == 0 {
        lemma_next_match_no_later(t, q[0], 0, ix[0]);
    } else {
        lemma_greedy_no_later(q, t, ix, (k - 1) as nat);
        let p0 = match_pos(q, t, (k - 1) as nat)->0;
        lemma_match_pos_facts(q, t, (k - 1) as nat);
        assert(ix[k - 1] < ix[k as int]);
        lemma_next_match_no_later(t, q[k as int], p0 + 1, ix[k as int]);
    }
}

/// Law: a query scores (is `Some`) exactly when its lowercased characters
/// occur, in order, among the lowercased characters of the text.
pub proof fn lemma_fuzzy_some_iff_subsequence(query: Seq<char>, text: Seq<char>)
    ensures
        fuzzy_spec(query, text) is Some <==> embeds(lowered(query), lowered(text)),
{
    let q = lowered(query);
    let t = lowered(text);
    if q.len() == 0 {
        let ix = Seq::<int>::empty();
        assert(is_embedding(q, t, ix));
    } else {
        if match_pos(q, t, (q.len() - 1) as nat) is Some {
            let ix = Seq::new(q.len(), |k: int| match_pos(q, t, k as nat)->0);
            assert forall|k: int| 0 <= k < q.len() implies 0 <= #[trigger] ix[k] < t.len() && t[ix[k]]
                == q[k] by {
                lemma_match_pos_prefix(q, t, k as nat, (q.len() - 1) as nat);
                lemma_match_pos_facts(q, t, k as nat);
            }
            assert forall|k: int| 0 <= k < q.len() - 1 implies #[trigger] ix[k] < ix[k + 1] by {
                lemma_match_pos_prefix(q, t, (k + 1) as nat, (q.len() - 1) as nat);
                lemma_match_pos_facts(q, t, (k + 1) as nat);
            }
            assert(is_embedding(q, t, ix));
        }
        if embeds(q, t) {
            let ix = choose|ix: Seq<int>| is_embedding(q, t, ix);
            lemma_greedy_no_later(q, t, ix, (q.len() - 1) as nat);
        }
    }
}

/// Law: the empty query matches every text with score 0.
pub proof fn lemma_fuzzy_empty_query(text: Seq<char>)
    ensures
        fuzzy_spec(Seq::empty(), text) == Some(0int),
{
}

/// Law: a matching query of `n` characters scores between `n` and `5 * n`.
pub proof fn lemma_fuzzy_score_range(query: Seq<char>, text: Seq<char>)
    ensures
        fuzzy_spec(query, text) matches Some(s) ==> query.len() <= s <= 5 * query.len(),
{
    lemma_score_bounds(lowered(query), lowered(text), query.len());
}

// ---------------------------------------------------------------------
// Executable matcher
// ---------------------------------------------------------------------
fn lowered_chars(s: &str) -> (v: Vec<char>)
    ensures
        v@ == lowered(s@),
{
    let raw = chars_of(s);
    let mut v: Vec<char> = Vec::new();
    let mut i: usize = 0;
    while i < raw.len()
        invariant
            raw@ == s@,
            i <= raw@.len(),
            v@ == lowered(s@).take(i as int),
        decreases raw.len() - i,
    {
        v.push(lower_char(raw[i]));
        assert(lowered(s@).take(i + 1) =~= lowered(s@).take(i as int).push(lower_char_spec(raw@[i as int])));
        i += 1;
    }
    assert(lowered(s@).take(raw@.len() as int) =~= lowered(s@));
    v
}

/// Score `query` against `text` as a case-insensitive fuzzy match: `Some(0)`
/// for an empty query, `Some(score)` when every query character occurs in the
/// text in order (consecutive and word-start hits score higher), else `None`.
pub fn fuzzy_score(query: &str, text: &str) -> (r: Option<u32>)
    requires
        query@.len() <= MAX_QUERY_LEN,
    ensures
        r matches Some(s) ==> fuzzy_spec(query@, text@) == Some(s as int),
        r is None ==> fuzzy_spec(query@, text@) is None,
{
    if query.is_empty() {
        return Some(0);
    }
    let q = lowered_chars(query);
    let t = lowered_chars(text);
    let ghost gq = q@;
    let ghost gt = t@;
    assert(q@.len() == query@.len());
    let mut qi: usize = 0;
    let mut score: u32 = 0;
    let mut last: Option<usize> = None;
    let mut i: usize = 0;
    while i < t.len() && qi < q.len()
        invariant
            gq == q@,
            gt == t@,
            gq.len() == query@.len() <= MAX_QUERY_LEN,
            gq.len() > 0,
            i <= gt.len(),
            qi <= gq.len(),
            qi == 0 ==> last is None,
            qi > 0 ==> (last matches Some(l) && l < i && match_pos(gq, gt, (qi - 1) as nat) == Some(
                l as int,
            )),
            score as int == match_score(gq, gt, qi as nat),
            qi < gq.len() ==> forall|x: int|
                (if qi == 0 {
                    0
                } else {
                    last->0 + 1
                }) <= x < i ==> gt[x] != gq[qi as int],
        decreases gt.len() - i,
    {
        if t[i] == q[qi] {
            proof {
                let start: int = if qi == 0 {
                    0
                } else {
                    last->0 + 1
                };
                lemma_next_match_at(gt, gq[qi as int], start, i as int);
                assert(match_pos(gq, gt, qi as nat) == Some(i as int));
                lemma_score_bounds(gq, gt, qi as nat);
            }
            let consecutive = match last {
                Some(l) => l + 1 == i,
                None => false,
            };
            let step: u32 = if consecutive {
                3
            } else {
                1
            };
            let word: u32 = if i == 0 || !is_alnum(t[i - 1]) {
                2
            } else {
                0
            };
            score = score + step + word;
            last = Some(i);
            qi += 1;
        }
        i += 1;
    }
    if qi == q.len() {
        Some(score)
    } else {
        proof {
            let start: int = if qi == 0 {
                0
            } else {
                last->0 + 1
            };
            lemma_next_match_none(gt, gq[qi as int], start);
            assert(match_pos(gq, gt, qi as nat) is None);
            if match_pos(gq, gt, (gq.len() - 1) as nat) is Some {
                lemma_match_pos_prefix(gq, gt, qi as nat, (gq.len() - 1) as nat);
            }
        }
        None
    }
}

} // verus!
