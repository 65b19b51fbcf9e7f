//! Rules of the local listing cache: which folder a cached object belongs to,
//! when a cached listing still matches the remote one, which rows go stale,
//! and how rows read back into listing entries.
//!
//! The store itself (an SQLite file) is driven by the caller.
use vstd::prelude::*;
use crate::app::ObjectInfo;
use crate::storage::StorageClass;
use crate::text::{chars_of, last_index_of, last_index_spec, string_from, same_text};
use crate::timefmt::{utc_seconds, utc_seconds_spec};

verus! {

broadcast use vstd::string::group_string_axioms, vstd::seq_lib::group_to_multiset_ensures;

/// The folder of an object's key: everything up to and including its last
/// `/`, or nothing when the key has none.
pub open spec fn object_prefix_spec(key: Seq<char>) -> Seq<char> {
    match last_index_spec(key, '/') {
        Some(i) => key.subrange(0, i + 1),
        None => Seq::empty(),
    }
}

/// What a listing comparison looks at: key, size, and modification time in
/// seconds (0 when unknown).
pub open spec fn listing_entry(o: ObjectInfo) -> (Seq<char>, Option<u64>, i64) {
    (o.key@, o.size, match o.last_modified {
        Some(t) => t,
        None => 0,
    })
}

/// What a listing comparison sees of each object, in order.
pub open spec fn entries(s: Seq<ObjectInfo>) -> Seq<(Seq<char>, Option<u64>, i64)> {
    s.map_values(|o: ObjectInfo| listing_entry(o))
}

/// Two listings match: they hold the same objects, each as many times, as far
/// as key, size and modification time go, whatever the order.
pub open spec fn listings_match_spec(local: Seq<ObjectInfo>, remote: Seq<ObjectInfo>) -> bool {
    entries(local).to_multiset() == entries(remote).to_multiset()
}

/// What a comparison sees of the objects of `local` at positions `idx`.
pub open spec fn picked(local: Seq<ObjectInfo>, idx: Seq<usize>) -> Seq<(Seq<char>, Option<u64>, i64)> {
    idx.map_values(|k: usize| listing_entry(local[k as int]))
}

/// Keys among `existing` that no object of `wanted` has, in order.
pub open spec fn stale_spec(existing: Seq<String>, wanted: Seq<ObjectInfo>) -> Seq<String>
    decreases existing.len(),
{
    if existing.len() == 0 {
        Seq::empty()
    } else {
        let prev = stale_spec(existing.drop_last(), wanted);
        let k = existing.last();
        if exists|i: int| 0 <= i < wanted.len() && (#[trigger] wanted[i]).key@ == k@ {
            prev
        } else {
            prev.push(k)
        }
    }
}

/// The storage class column of a row: empty for a folder, else the label.
pub open spec fn storage_column_spec(sc: StorageClass) -> Seq<char> {
    match sc {
        StorageClass::Folder => Seq::empty(),
        _ => sc.label_spec(),
    }
}

/// The folder of an object's key (see [`object_prefix_spec`]); the cache keys
/// rows by bucket, folder and key.
pub fn object_prefix(key: &str) -> (r: String)
    ensures
        r@ == object_prefix_spec(key@),
{
    let chars = chars_of(key);
    let n = chars.len();
    match last_index_of(&chars, '/') {
        Some(pos) => {
            assert(pos < n);
            string_from(&chars, 0, pos + 1)
        },
        None => String::new(),
    }
}

/// Whether two objects look the same to a listing comparison.
fn same_entry(a: &ObjectInfo, b: &ObjectInfo) -> (r: bool)
    ensures
        r == (listing_entry(*a) == listing_entry(*b)),
{
    let a_time: i64 = match a.last_modified {
        Some(t) => t,
        None => 0,
    };
    let b_time: i64 = match b.last_modified {
        Some(t) => t,
        None => 0,
    };
    same_text(a.key.as_str(), b.key.as_str()) && a.size == b.size && a_time == b_time
}

proof fn lemma_seq_remove_multiset<A>(t: Seq<A>, pos: int)
    requires
        0 <= pos < t.len(),
    ensures
        t.remove(pos).to_multiset() =~= t.to_multiset().remove(t[pos]),
        t.to_multiset().count(t[pos]) > 0,
{
    assert(t.contains(t[pos]));
}

/// True when a cached folder listing matches a remote one: they hold the
/// same objects, each as many times, by key, size and modification time, in
/// any order.
pub fn listings_match(local: &Vec<ObjectInfo>, remote: &Vec<ObjectInfo>) -> (r: bool)
    ensures
        r == listings_match_spec(local@, remote@),
{
    let n = local.len();
    if n != remote.len() {
        proof {
            entries(local@).to_multiset_ensures();
            entries(remote@).to_multiset_ensures();
        }
        return false;
    }
    // positions of `local` not matched yet
    let mut rest: Vec<usize> = Vec::new();
    let mut i: usize = 0;
    while i < n
        invariant
            i <= n == local@.len(),
            rest@.len() == i,
            forall|k: int| 0 <= k < i ==> #[trigger] rest@[k] == k,
        decreases n - i,
    {
        rest.push(i);
        i += 1;
    }
    assert(picked(local@, rest@) =~= entries(local@));
    assert(remote@.take(0) =~= Seq::<ObjectInfo>::empty());
    assert(entries(remote@.take(0)) =~= Seq::<(Seq<char>, Option<u64>, i64)>::empty());
    let mut j: usize = 0;
    while j < n
        invariant
            n == local@.len() == remote@.len(),
            j <= n,
            rest@.len() == n - j,
            forall|k: int| 0 <= k < rest@.len() ==> #[trigger] rest@[k] < n,
            picked(local@, rest@).to_multiset().add(entries(remote@.take(j as int)).to_multiset())
                == entries(local@).to_multiset(),
        decreases n - j,
    {
        let ghost x = listing_entry(remote@[j as int]);
        let mut k: usize = 0;
        while k < rest.len() && !same_entry(&local[rest[k]], &remote[j])
            invariant
                k <= rest@.len(),
                forall|m: int| 0 <= m < rest@.len() ==> #[trigger] rest@[m] < n,
                n == local@.len() == remote@.len(),
                j < n,
                x == listing_entry(remote@[j as int]),
                forall|m: int| 0 <= m < k ==> listing_entry(local@[(#[trigger] rest@[m]) as int]) != x,
            decreases rest@.len() - k,
        {
            k += 1;
        }
        let ghost old_rest = rest@;
        let ghost p = picked(local@, old_rest);
        assert(entries(remote@.take(j + 1)) =~= entries(remote@.take(j as int)).push(x));
        if k == rest.len() {
            proof {
                assert(!p.contains(x)) by {
                    if p.contains(x) {
                        let m = choose|m: int| 0 <= m < p.len() && p[m] == x;
                        assert(listing_entry(local@[old_rest[m] as int]) == x);
                    }
                }
                let e = entries(remote@);
                assert(e =~= entries(remote@.take(j + 1)) + e.skip(j + 1));
                vstd::seq_lib::lemma_multiset_commutative(entries(remote@.take(j + 1)), e.skip(j + 1));
                assert(p.to_multiset().count(x) == 0);
                assert(e.to_multiset().count(x) >= entries(remote@.take(j as int)).to_multiset().count(x) + 1);
                assert(entries(local@).to_multiset().count(x) == entries(remote@.take(j as int)).to_multiset().count(x));
            }
            return false;
        }
        proof {
            assert(p[k as int] == x);
            lemma_seq_remove_multiset(p, k as int);
            assert(picked(local@, old_rest.remove(k as int)) =~= p.remove(k as int));
        }
        rest.remove(k);
        assert(rest@ =~= old_rest.remove(k as int));
        assert(picked(local@, rest@).to_multiset().add(entries(remote@.take(j + 1)).to_multiset())
            =~= entries(local@).to_multiset());
        j += 1;
    }
    assert(remote@.take(n as int) =~= remote@);
    assert(picked(local@, rest@) =~= Seq::<(Seq<char>, Option<u64>, i64)>::empty());
    assert(entries(local@).to_multiset() =~= entries(remote@).to_multiset());
    true
}

/// Law: a remote listing with the same objects as the cached one, in any
/// order, matches it.
pub proof fn lemma_listings_match_reordered(local: Seq<ObjectInfo>, remote: Seq<ObjectInfo>)
    requires
        local.to_multiset() == remote.to_multiset(),
    ensures
        listings_match_spec(local, remote),
    decreases local.len(),
{
    local.to_multiset_ensures();
    remote.to_multiset_ensures();
    if local.len() == 0 {
        assert(remote.len() == 0);
        assert(entries(local) =~= entries(remote));
    } else {
        let x = local.last();
        let a = local.drop_last();
        assert(local =~= a.push(x));
        assert(remote.to_multiset().count(x) > 0);
        assert(remote.contains(x));
        let k = choose|k: int| 0 <= k < remote.len() && remote[k] == x;
        let b = remote.remove(k);
        lemma_seq_remove_multiset(remote, k);
        assert(a.to_multiset() =~= local.to_multiset().remove(x));
        lemma_listings_match_reordered(a, b);
        assert(entries(local) =~= entries(a).push(listing_entry(x)));
        assert(entries(b) =~= entries(remote).remove(k));
        assert(entries(remote)[k] == listing_entry(x));
        lemma_seq_remove_multiset(entries(remote), k);
        assert(entries(local).to_multiset() =~= entries(remote).to_multiset());
    }
}

/// Law: a listing with an object that looks like none of the cached objects
/// does not match the cached listing.
pub proof fn lemma_listings_differ(local: Seq<ObjectInfo>, remote: Seq<ObjectInfo>, j: int)
    requires
        0 <= j < remote.len(),
        forall|i: int| 0 <= i < local.len() ==> listing_entry(#[trigger] local[i]) != listing_entry(remote[j]),
    ensures
        !listings_match_spec(local, remote),
{
    let x = listing_entry(remote[j]);
    assert(entries(remote)[j] == x);
    assert(entries(remote).contains(x));
    assert(!entries(local).contains(x)) by {
        if entries(local).contains(x) {
            let i = choose|i: int| 0 <= i < entries(local).len() && entries(local)[i] == x;
            assert(listing_entry(local[i]) == x);
        }
    }
    assert(entries(remote).to_multiset().count(x) > 0);
    assert(entries(local).to_multiset().count(x) == 0);
}

/// Keys of cached rows that the fresh listing `wanted` no longer has.
pub fn stale_keys(existing: &Vec<String>, wanted: &Vec<ObjectInfo>) -> (r: Vec<String>)
    ensures
        r@ == stale_spec(existing@, wanted@),
{
    let mut out: Vec<String> = Vec::new();
    let mut i: usize = 0;
    while i < existing.len()
        invariant
            i <= existing@.len(),
            out@ == stale_spec(existing@.take(i as int), wanted@),
        decreases existing@.len() - i,
    {
        let k = &existing[i];
        let mut found = false;
        let mut j: usize = 0;
        while j < wanted.len()
            invariant
                j <= wanted@.len(),
                found == exists|m: int| 0 <= m < j && (#[trigger] wanted@[m]).key@ == k@,
            decreases wanted@.len() - j,
        {
            if same_text(wanted[j].key.as_str(), k.as_str()) {
                found = true;
            }
            j += 1;
        }
        assert(existing@.take(i + 1).drop_last() =~= existing@.take(i as int));
        assert(existing@.take(i + 1).last() == existing@[i as int]);
        if !found {
            out.push(k.clone());
        }
        i += 1;
    }
    assert(existing@.take(existing@.len() as int) =~= existing@);
    out
}

/// The storage class column of a row (see [`storage_column_spec`]).
pub fn storage_column(sc: &StorageClass) -> (r: String)
    ensures
        r@ == storage_column_spec(*sc),
{
    match sc {
        StorageClass::Folder => String::new(),
        _ => sc.label(),
    }
}

/// A listing entry read back from a cached row: a folder when the row says
/// so, else an object whose class is kept by name; the size read as
/// unsigned, and the time when `chrono` can hold it.
pub fn cached_object(
    key: String,
    size: Option<i64>,
    last_modified: Option<i64>,
    is_folder: bool,
    storage_class: String,
) -> (o: ObjectInfo)
    ensures
        o.key == key,
        o.size == match size {
            Some(v) => Some(v as u64),
            None => None::<u64>,
        },
        o.last_modified == match last_modified {
            Some(t) => utc_seconds_spec(t, 0),
            None => None::<i64>,
        },
        o.is_folder == is_folder,
        o.storage_class == if is_folder {
            StorageClass::Folder
        } else {
            StorageClass::Unknown(storage_class)
        },
{
    let storage_class = if is_folder {
        StorageClass::Folder
    } else {
        StorageClass::Unknown(storage_class)
    };
    ObjectInfo {
        key,
        size: match size {
            Some(v) => Some(v as u64),
            None => None,
        },
        last_modified: match last_modified {
            Some(t) => utc_seconds(t, 0),
            None => None,
        },
        is_folder,
        storage_class,
    }
}

/// A cached listing as the browser takes it: none when no rows were cached.
pub fn cached_listing(rows: Vec<ObjectInfo>) -> (r: Option<Vec<ObjectInfo>>)
    ensures
        rows@.len() == 0 ==> r is None,
        rows@.len() > 0 ==> r == Some(rows),
{
    if rows.len() == 0 {
        None
    } else {
        Some(rows)
    }
}

/// Whether a remote listing has to be written to the cache: unless the cache
/// already holds a listing that matches it.
pub fn needs_store(local: &Option<Vec<ObjectInfo>>, remote: &Vec<ObjectInfo>) -> (r: bool)
    ensures
        r == !(local matches Some(l) && listings_match_spec(l@, remote@)),
{
    match local {
        Some(l) => !listings_match(l, remote),
        None => true,
    }
}

/// Law: a remote listing holding an object whose key no cached object has
/// does not match the cached listing, so the cache is rewritten.
pub proof fn lemma_new_key_does_not_match(local: Seq<ObjectInfo>, remote: Seq<ObjectInfo>, j: int)
    requires
        0 <= j < remote.len(),
        forall|i: int| 0 <= i < local.len() ==> (#[trigger] local[i]).key@ != remote[j].key@,
    ensures
        !listings_match_spec(local, remote),
        forall|l: Vec<ObjectInfo>| l@ == local ==> !(Some(l) matches Some(c) && listings_match_spec(c@, remote)),
{
    assert forall|i: int| 0 <= i < local.len() implies listing_entry(#[trigger] local[i]) != listing_entry(remote[j]) by {
        assert(listing_entry(local[i]).0 == local[i].key@);
        assert(listing_entry(remote[j]).0 == remote[j].key@);
    }
    lemma_listings_differ(local, remote, j);
}

} // verus!
