//! Local file browser used to pick the files of an upload.
//!
//! The picker keeps an explicit `selection` of full paths, so files chosen in
//! different directories can be uploaded together. A fuzzy `filter` matches
//! entry names by subsequence and ranks the results by relevance. Reading a
//! directory is left to the caller, which hands the entries it found to
//! [`FilePicker::apply_listing`].
use vstd::prelude::*;
pub use crate::fuzzy::fuzzy_score;
use crate::fuzzy::{fuzzy_spec, MAX_QUERY_LEN};
use crate::ranking::{SortKey, key_before, distinct_indices, sort_keys, lemma_key_before_strict, lemma_sorted_unique};
use crate::text::{lower_str_spec, lower_str, parent_spec, path_parent, seq_less, chars_of, same_text, concat2, clear_string};

verus! {

broadcast use vstd::seq_lib::group_to_multiset_ensures;

/// A single filesystem entry shown in the picker.
#[derive(Debug)]
pub struct FileEntry {
    pub name: String,
    pub path: String,
    pub is_dir: bool,
    pub size: Option<u64>,
}

impl Clone for FileEntry {
    fn clone(&self) -> (r: Self)
        ensures
            r == *self,
    {
        FileEntry { name: self.name.clone(), path: self.path.clone(), is_dir: self.is_dir, size: self.size }
    }
}

/// What an entry shows: name, path, kind and size, with texts as characters.
pub open spec fn entry_view(e: FileEntry) -> (Seq<char>, Seq<char>, bool, Option<u64>) {
    (e.name@, e.path@, e.is_dir, e.size)
}

/// Paths as character sequences.
pub open spec fn paths_view(s: Seq<String>) -> Seq<Seq<char>> {
    s.map_values(|p: String| p@)
}

/// Positions as integers.
pub open spec fn positions(s: Seq<usize>) -> Seq<int> {
    s.map_values(|i: usize| i as int)
}

/// Directory listing order: directories first, then by lowercase name, then
/// by name, then by position in the listing as read.
pub open spec fn listing_before(listed: Seq<FileEntry>, i: int, j: int) -> bool {
    let a = listed[i];
    let b = listed[j];
    let la = lower_str_spec(a.name@);
    let lb = lower_str_spec(b.name@);
    ||| a.is_dir && !b.is_dir
    ||| a.is_dir == b.is_dir && seq_less(la, lb)
    ||| a.is_dir == b.is_dir && la == lb && seq_less(a.name@, b.name@)
    ||| a.is_dir == b.is_dir && la == lb && a.name@ == b.name@ && i < j
}

/// `ord` lists every position of `listed` once, in listing order.
pub open spec fn is_listing_order(listed: Seq<FileEntry>, ord: Seq<int>) -> bool {
    &&& ord.len() == listed.len()
    &&& ord.no_duplicates()
    &&& forall|k: int| 0 <= k < ord.len() ==> 0 <= #[trigger] ord[k] < listed.len()
    &&& forall|a: int, b: int| 0 <= a < b < ord.len() ==> listing_before(listed, ord[a], ord[b])
}

/// The entries of a directory listing put in listing order, as views.
pub open spec fn listing_sorted_view(
    listed: Seq<FileEntry>,
    out: Seq<(Seq<char>, Seq<char>, bool, Option<u64>)>,
) -> bool {
    exists|ord: Seq<int>|
        is_listing_order(listed, ord) && out == ord.map_values(|k: int| entry_view(listed[k]))
}

/// The `..` entry shown first when the directory has a parent.
pub open spec fn parent_marker_view(dir: Seq<char>) -> Seq<(Seq<char>, Seq<char>, bool, Option<u64>)> {
    match parent_spec(dir) {
        Some(p) => if p != dir {
            seq![(".."@, p, true, None::<u64>)]
        } else {
            Seq::empty()
        },
        None => Seq::empty(),
    }
}

/// Entry `i` of `entries` matches `filter`.
pub open spec fn entry_matches_in(entries: Seq<FileEntry>, filter: Seq<char>, i: int) -> bool {
    fuzzy_spec(filter, entries[i].name@) is Some
}

/// Relevance of entry `i` of `entries` for `filter`.
pub open spec fn entry_score_in(entries: Seq<FileEntry>, filter: Seq<char>, i: int) -> int {
    fuzzy_spec(filter, entries[i].name@)->0
}

/// Ranking under a filter: higher score first, then name, then position.
pub open spec fn ranks_before_in(entries: Seq<FileEntry>, filter: Seq<char>, i: int, j: int) -> bool {
    let si = entry_score_in(entries, filter, i);
    let sj = entry_score_in(entries, filter, j);
    let ni = entries[i].name@;
    let nj = entries[j].name@;
    ||| si > sj
    ||| si == sj && seq_less(ni, nj)
    ||| si == sj && ni == nj && i < j
}

/// `v` is the visible list of `entries` under `filter`: every entry in display
/// order when the filter is empty, else every matching entry once, best
/// ranked first.
pub open spec fn is_visible_order_in(entries: Seq<FileEntry>, filter: Seq<char>, v: Seq<int>) -> bool {
    if filter.len() == 0 {
        v == Seq::new(entries.len(), |i: int| i)
    } else {
        &&& v.no_duplicates()
        &&& forall|k: int|
            0 <= k < v.len() ==> 0 <= #[trigger] v[k] < entries.len() && entry_matches_in(
                entries,
                filter,
                v[k],
            )
        &&& forall|i: int|
            0 <= i < entries.len() && #[trigger] entry_matches_in(entries, filter, i) ==> v.contains(i)
        &&& forall|a: int, b: int| 0 <= a < b < v.len() ==> ranks_before_in(entries, filter, v[a], v[b])
    }
}

/// The visible list of `entries` under `filter`.
pub open spec fn visible_in(entries: Seq<FileEntry>, filter: Seq<char>) -> Seq<int> {
    choose|v: Seq<int>| is_visible_order_in(entries, filter, v)
}

/// Each element of `s` occurs once, and `x` is among `s.push(a)` exactly when
/// it is among `s` or is `a`.
pub proof fn lemma_contains_push<A>(s: Seq<A>, a: A, x: A)
    ensures
        s.push(a).contains(x) <==> (s.contains(x) || a == x),
{
    if s.push(a).contains(x) {
        let k = choose|k: int| 0 <= k < s.push(a).len() && s.push(a)[k] == x;
        if k < s.len() {
            assert(s[k] == x);
        }
    }
    if s.contains(x) {
        let k = choose|k: int| 0 <= k < s.len() && s[k] == x;
        assert(s.push(a)[k] == x);
    }
    if a == x {
        assert(s.push(a)[s.len() as int] == x);
    }
}

/// Popup file browser used to pick one or more local files to upload.
#[derive(Debug)]
pub struct FilePicker {
    /// Directory currently listed.
    pub dir: String,
    /// All entries of `dir` (including a `..` parent marker when available).
    pub entries: Vec<FileEntry>,
    /// Index into the filtered, "visible" list.
    pub selected_index: usize,
    pub scroll_offset: usize,
    /// Full paths of the files chosen for upload (in selection order).
    pub selection: Vec<String>,
    /// Fuzzy query. Empty shows every entry.
    pub filter: String,
    /// One-line status message (errors, etc.).
    pub hint: String,
}

impl FilePicker {
    /// The picker's invariant: the filter stays short enough to score, and no
    /// path is selected twice.
    pub open spec fn wf(&self) -> bool {
        &&& self.filter@.len() <= MAX_QUERY_LEN
        &&& paths_view(self.selection@).no_duplicates()
    }

    /// Entry `i` matches the filter.
    #[verifier::inline]
    pub open spec fn entry_matches(&self, i: int) -> bool {
        entry_matches_in(self.entries@, self.filter@, i)
    }

    /// Relevance of entry `i` for the filter.
    #[verifier::inline]
    pub open spec fn entry_score(&self, i: int) -> int {
        entry_score_in(self.entries@, self.filter@, i)
    }

    /// Ranking under a filter: higher score first, then name, then position.
    #[verifier::inline]
    pub open spec fn ranks_before(&self, i: int, j: int) -> bool {
        ranks_before_in(self.entries@, self.filter@, i, j)
    }

    /// `v` is the visible list: every entry in display order when the filter
    /// is empty, else every matching entry once, best ranked first.
    #[verifier::inline]
    pub open spec fn is_visible_order(&self, v: Seq<int>) -> bool {
        is_visible_order_in(self.entries@, self.filter@, v)
    }

    /// The visible list (positions into `entries`).
    #[verifier::inline]
    pub open spec fn visible(&self) -> Seq<int> {
        visible_in(self.entries@, self.filter@)
    }

    /// Position in `entries` of the highlighted entry: the cursor clamped to
    /// the visible list.
    pub open spec fn highlighted(&self) -> Option<int> {
        let v = self.visible();
        if v.len() == 0 {
            None
        } else if self.selected_index < v.len() {
            Some(v[self.selected_index as int])
        } else {
            Some(v[v.len() - 1])
        }
    }

    /// Picker state right before a directory is read: the listing and cursor
    /// are reset, everything else is kept.
    pub open spec fn awaiting_listing(&self, old: Self, dir: Seq<char>) -> bool {
        &&& *self == (FilePicker { dir: self.dir, entries: self.entries, selected_index: 0, scroll_offset: 0, ..old })
        &&& self.dir@ == dir
        &&& self.entries@.len() == 0
    }

    proof fn lemma_visible_unique(&self, v: Seq<int>)
        requires
            self.is_visible_order(v),
        ensures
            self.visible() == v,
    {
        let w = self.visible();
        assert(self.is_visible_order(w));
        if self.filter@.len() > 0 {
            assert forall|x: int, y: int| !(#[trigger] self.ranks_before(x, y) && #[trigger] self.ranks_before(y, x)) by {
                crate::text::lemma_seq_less_trichotomy(self.entries@[x].name@, self.entries@[y].name@);
            }
            assert forall|x: int| v.contains(x) <==> w.contains(x) by {
                if v.contains(x) {
                    let k = choose|k: int| 0 <= k < v.len() && v[k] == x;
                    assert(self.entry_matches(v[k]));
                }
                if w.contains(x) {
                    let k = choose|k: int| 0 <= k < w.len() && w[k] == x;
                    assert(self.entry_matches(w[k]));
                }
            }
            let before = |x: int, y: int| self.ranks_before(x, y);
            lemma_sorted_unique(v, w, before);
        }
    }

    /// A picker on `dir`, not yet listed: no entries, no selection, no filter.
    pub fn new_at(dir: String) -> (p: Self)
        ensures
            p.dir == dir,
            p.entries@.len() == 0,
            p.selected_index == 0,
            p.scroll_offset == 0,
            p.selection@.len() == 0,
            p.filter@.len() == 0,
            p.hint@.len() == 0,
            p.wf(),
    {
        let p = FilePicker {
            dir,
            entries: Vec::new(),
            selected_index: 0,
            scroll_offset: 0,
            selection: Vec::new(),
            filter: String::new(),
            hint: String::new(),
        };
        assert(paths_view(p.selection@) =~= Seq::<Seq<char>>::empty());
        p
    }

    /// Prepare a fresh session on `cwd`: no selection, no filter, no hint, and
    /// the listing reset until `cwd` is read.
    pub fn reset(&mut self, cwd: String)
        ensures
            final(self).dir == cwd,
            final(self).entries@.len() == 0,
            final(self).selected_index == 0,
            final(self).scroll_offset == 0,
            final(self).selection@.len() == 0,
            final(self).filter@.len() == 0,
            final(self).hint@.len() == 0,
            final(self).wf(),
    {
        self.dir = cwd;
        self.selection.clear();
        clear_string(&mut self.filter);
        clear_string(&mut self.hint);
        self.entries.clear();
        self.selected_index = 0;
        self.scroll_offset = 0;
        assert(paths_view(self.selection@) =~= Seq::<Seq<char>>::empty());
    }

    fn listing_keys(listed: &Vec<FileEntry>) -> (keys: Vec<SortKey>)
        ensures
            keys@.len() == listed@.len(),
            forall|k: int|
                0 <= k < keys@.len() ==> {
                    &&& #[trigger] keys@[k].index == k
                    &&& keys@[k].major == (if listed@[k].is_dir {
                        0u32
                    } else {
                        1u32
                    })
                    &&& keys@[k].minor@ == lower_str_spec(listed@[k].name@)
                    &&& keys@[k].detail@ == listed@[k].name@
                },
    {
        let mut keys: Vec<SortKey> = Vec::new();
        let mut i: usize = 0;
        while i < listed.len()
            invariant
                i <= listed@.len(),
                keys@.len() == i,
                forall|k: int|
                    0 <= k < i ==> {
                        &&& #[trigger] keys@[k].index == k
                        &&& keys@[k].major == (if listed@[k].is_dir {
                            0u32
                        } else {
                            1u32
                        })
                        &&& keys@[k].minor@ == lower_str_spec(listed@[k].name@)
                        &&& keys@[k].detail@ == listed@[k].name@
                    },
            decreases listed.len() - i,
        {
            let e = &listed[i];
            let lowered = lower_str(e.name.as_str());
            let key = SortKey {
                major: if e.is_dir {
                    0
                } else {
                    1
                },
                minor: chars_of(lowered.as_str()),
                detail: chars_of(e.name.as_str()),
                index: i,
            };
            keys.push(key);
            i += 1;
        }
        keys
    }

    /// The entries of a directory in listing order: directories first, then
    /// by lowercase name, then by name; equal entries keep their order.
    pub fn sort_listing(listed: &Vec<FileEntry>) -> (out: Vec<FileEntry>)
        ensures
            listing_sorted_view(listed@, out@.map_values(|e: FileEntry| entry_view(e))),
    {
        let keys = Self::listing_keys(listed);
        let ghost gk = keys@;
        let sorted = sort_keys(keys);
        let ghost ord = sorted@.map_values(|k: SortKey| k.index as int);
        let mut out: Vec<FileEntry> = Vec::new();
        let mut i: usize = 0;
        proof {
            assert forall|a: int| 0 <= a < sorted@.len() implies 0 <= #[trigger] sorted@[a].index < listed@.len()
                && gk[sorted@[a].index as int] == sorted@[a] by {
                assert(sorted@.to_multiset().count(sorted@[a]) > 0);
                assert(gk.contains(sorted@[a]));
                let j = choose|j: int| 0 <= j < gk.len() && gk[j] == sorted@[a];
            }
        }
        while i < sorted.len()
            invariant
                i <= sorted@.len(),
                sorted@.len() == listed@.len(),
                forall|a: int| 0 <= a < sorted@.len() ==> 0 <= #[trigger] sorted@[a].index < listed@.len(),
                out@.len() == i,
                forall|a: int| 0 <= a < i ==> #[trigger] out@[a] == listed@[sorted@[a].index as int],
            decreases sorted.len() - i,
        {
            let e = listed[sorted[i].index].clone();
            out.push(e);
            i += 1;
        }
        proof {
            assert forall|a: int, b: int| 0 <= a < b < ord.len() implies listing_before(listed@, ord[a], ord[b]) by {
                assert(key_before(sorted@[a], sorted@[b]));
            }
            assert forall|a: int, b: int| 0 <= a < ord.len() && 0 <= b < ord.len() && a != b implies ord[a]
                != ord[b] by {
                if a < b {
                    assert(key_before(sorted@[a], sorted@[b]));
                    if ord[a] == ord[b] {
                        lemma_key_before_strict(sorted@[a], sorted@[b]);
                        crate::text::lemma_seq_less_irreflexive(sorted@[a].minor@);
                        crate::text::lemma_seq_less_irreflexive(sorted@[a].detail@);
                    }
                } else {
                    assert(key_before(sorted@[b], sorted@[a]));
                    if ord[a] == ord[b] {
                        crate::text::lemma_seq_less_irreflexive(sorted@[a].minor@);
                        crate::text::lemma_seq_less_irreflexive(sorted@[a].detail@);
                    }
                }
            }
            assert(is_listing_order(listed@, ord));
            assert(out@.map_values(|e: FileEntry| entry_view(e)) =~= ord.map_values(
                |k: int| entry_view(listed@[k]),
            ));
        }
        out
    }

    /// Install the result of reading `dir`: the `..` marker when `dir` has a
    /// parent, then the entries read (in listing order), the cursor at the top,
    /// and the hint cleared or set to the reading error.
    pub fn apply_listing(&mut self, listed: Result<Vec<FileEntry>, String>)
        ensures
            *final(self) == (FilePicker {
                entries: final(self).entries,
                hint: final(self).hint,
                selected_index: 0,
                scroll_offset: 0,
                ..*old(self)
            }),
            ({
                let v = final(self).entries@.map_values(|e: FileEntry| entry_view(e));
                let m = parent_marker_view(old(self).dir@);
                &&& v.subrange(0, m.len() as int) == m
                &&& m.len() <= v.len()
                &&& match listed {
                    Ok(l) => listing_sorted_view(l@, v.subrange(m.len() as int, v.len() as int)),
                    Err(_) => v.len() == m.len(),
                }
            }),
            listed is Ok ==> final(self).hint@.len() == 0,
            listed matches Err(e) ==> final(self).hint@ == "Could not read directory: "@ + e@,
    {
        let mut entries: Vec<FileEntry> = Vec::new();
        match path_parent(self.dir.as_str()) {
            Some(parent) => {
                if !same_text(parent.as_str(), self.dir.as_str()) {
                    entries.push(
                        FileEntry { name: "..".to_string(), path: parent, is_dir: true, size: None },
                    );
                }
            },
            None => {},
        }
        let ghost m = parent_marker_view(self.dir@);
        assert(entries@.map_values(|e: FileEntry| entry_view(e)) =~= m);
        match listed {
            Ok(l) => {
                let sorted = Self::sort_listing(&l);
                let ghost before = entries@;
                let mut i: usize = 0;
                while i < sorted.len()
                    invariant
                        i <= sorted@.len(),
                        entries@ == before + sorted@.subrange(0, i as int),
                    decreases sorted.len() - i,
                {
                    entries.push(sorted[i].clone());
                    assert(sorted@.subrange(0, i + 1) =~= sorted@.subrange(0, i as int).push(sorted@[i as int]));
                    i += 1;
                }
                let ghost v = entries@.map_values(|e: FileEntry| entry_view(e));
                assert(v.subrange(0, m.len() as int) =~= m);
                assert(v.subrange(m.len() as int, v.len() as int) =~= sorted@.map_values(
                    |e: FileEntry| entry_view(e),
                ));
                clear_string(&mut self.hint);
            },
            Err(e) => {
                let ghost v = entries@.map_values(|e: FileEntry| entry_view(e));
                assert(v.subrange(0, m.len() as int) =~= m);
                self.hint = concat2("Could not read directory: ", e.as_str());
            },
        }
        self.entries = entries;
        self.selected_index = 0;
        self.scroll_offset = 0;
    }

    /// Positions (into `entries`) of the visible entries: all of them in
    /// display order when the filter is empty, else the entries matching the
    /// fuzzy filter, best matches first.
    pub fn visible_indices(&self) -> (r: Vec<usize>)
        requires
            self.filter@.len() <= MAX_QUERY_LEN,
        ensures
            self.is_visible_order(positions(r@)),
            positions(r@) == self.visible(),
    {
        if self.filter.as_str().is_empty() {
            let mut r: Vec<usize> = Vec::new();
            let mut i: usize = 0;
            while i < self.entries.len()
                invariant
                    i <= self.entries@.len(),
                    r@.len() == i,
                    forall|k: int| 0 <= k < i ==> r@[k] == k,
                decreases self.entries.len() - i,
            {
                r.push(i);
                i += 1;
            }
            assert(positions(r@) =~= Seq::new(self.entries@.len(), |k: int| k));
            assert(self.is_visible_order(positions(r@)));
            proof {
                self.lemma_visible_unique(positions(r@));
            }
            return r;
        }
        let mut keys: Vec<SortKey> = Vec::new();
        let mut i: usize = 0;
        while i < self.entries.len()
            invariant
                self.filter@.len() <= MAX_QUERY_LEN,
                i <= self.entries@.len(),
                forall|k: int|
                    0 <= k < keys@.len() ==> {
                        &&& 0 <= #[trigger] keys@[k].index < i
                        &&& self.entry_matches(keys@[k].index as int)
                        &&& keys@[k].major == u32::MAX - self.entry_score(keys@[k].index as int)
                        &&& keys@[k].minor@ == self.entries@[keys@[k].index as int].name@
                        &&& keys@[k].detail@.len() == 0
                    },
                forall|a: int, b: int| 0 <= a < b < keys@.len() ==> keys@[a].index < keys@[b].index,
                forall|j: int|
                    0 <= j < i && #[trigger] self.entry_matches(j) ==> exists|k: int|
                        0 <= k < keys@.len() && keys@[k].index == j,
            decreases self.entries.len() - i,
        {
            match fuzzy_score(self.filter.as_str(), self.entries[i].name.as_str()) {
                Some(s) => {
                    let key = SortKey {
                        major: u32::MAX - s,
                        minor: chars_of(self.entries[i].name.as_str()),
                        detail: Vec::new(),
                        index: i,
                    };
                    let ghost old_keys = keys@;
                    keys.push(key);
                    assert forall|j: int|
                        0 <= j < i + 1 && #[trigger] self.entry_matches(j) implies exists|k: int|
                        0 <= k < keys@.len() && keys@[k].index == j by {
                        if j < i {
                            let k = choose|k: int| 0 <= k < old_keys.len() && old_keys[k].index == j;
                            assert(keys@[k].index == j);
                        } else {
                            assert(keys@[keys@.len() - 1].index == j);
                        }
                    }
                },
                None => {},
            }
            i += 1;
        }
        let ghost gk = keys@;
        assert(distinct_indices(gk));
        let sorted = sort_keys(keys);
        proof {
            assert forall|a: int| 0 <= a < sorted@.len() implies gk.contains(#[trigger] sorted@[a]) by {
                assert(sorted@.to_multiset().count(sorted@[a]) > 0);
            }
        }
        let mut r: Vec<usize> = Vec::new();
        let mut k: usize = 0;
        while k < sorted.len()
            invariant
                k <= sorted@.len(),
                r@.len() == k,
                forall|a: int| 0 <= a < k ==> #[trigger] r@[a] == sorted@[a].index,
            decreases sorted.len() - k,
        {
            r.push(sorted[k].index);
            k += 1;
        }
        proof {
            let v = positions(r@);
            assert(v.len() == sorted@.len());
            assert forall|a: int| 0 <= a < v.len() implies #[trigger] v[a] == sorted@[a].index as int by {}
            assert forall|a: int| 0 <= a < sorted@.len() implies {
                &&& 0 <= #[trigger] sorted@[a].index < self.entries@.len()
                &&& self.entry_matches(sorted@[a].index as int)
                &&& sorted@[a].major == u32::MAX - self.entry_score(sorted@[a].index as int)
                &&& sorted@[a].minor@ == self.entries@[sorted@[a].index as int].name@
                &&& sorted@[a].detail@.len() == 0
            } by {
                assert(gk.contains(sorted@[a]));
                let j = choose|j: int| 0 <= j < gk.len() && gk[j] == sorted@[a];
            }
            assert forall|a: int, b: int| 0 <= a < b < v.len() implies self.ranks_before(v[a], v[b]) by {
                assert(key_before(sorted@[a], sorted@[b]));
                assert(sorted@[a].detail@ =~= sorted@[b].detail@);
                crate::text::lemma_seq_less_irreflexive(sorted@[a].detail@);
            }
            assert forall|a: int, b: int| 0 <= a < v.len() && 0 <= b < v.len() && a != b implies v[a]
                != v[b] by {
                let (x, y) = if a < b {
                    (a, b)
                } else {
                    (b, a)
                };
                assert(self.ranks_before(v[x], v[y]));
                if v[x] == v[y] {
                    crate::text::lemma_seq_less_irreflexive(self.entries@[v[x]].name@);
                }
            }
            assert forall|j: int|
                0 <= j < self.entries@.len() && #[trigger] self.entry_matches(j) implies v.contains(j) by {
                let kk = choose|kk: int| 0 <= kk < gk.len() && gk[kk].index == j;
                assert(gk.to_multiset().count(gk[kk]) > 0);
                assert(sorted@.contains(gk[kk]));
                let a = choose|a: int| 0 <= a < sorted@.len() && sorted@[a] == gk[kk];
                assert(v[a] == j);
            }
            assert(self.filter@.len() > 0);
            assert(v.no_duplicates());
            assert(forall|k: int|
                0 <= k < v.len() ==> 0 <= #[trigger] v[k] < self.entries@.len() && self.entry_matches(v[k]));
            assert(forall|i: int|
                0 <= i < self.entries@.len() && #[trigger] self.entry_matches(i) ==> v.contains(i));
            assert(forall|a: int, b: int| 0 <= a < b < v.len() ==> self.ranks_before(v[a], v[b]));
            assert(self.is_visible_order(v));
            self.lemma_visible_unique(v);
        }
        r
    }

    /// Number of visible entries.
    pub fn visible_count(&self) -> (n: usize)
        requires
            self.filter@.len() <= MAX_QUERY_LEN,
        ensures
            n == self.visible().len(),
            self.is_visible_order(self.visible()),
    {
        self.visible_indices().len()
    }

    fn clamp_index(&mut self)
        requires
            old(self).filter@.len() <= MAX_QUERY_LEN,
        ensures
            *final(self) == (FilePicker {
                selected_index: if old(self).selected_index < old(self).visible().len() {
                    old(self).selected_index
                } else if old(self).visible().len() == 0 {
                    0
                } else {
                    (old(self).visible().len() - 1) as usize
                },
                ..*old(self)
            }),
            old(self).is_visible_order(old(self).visible()),
    {
        let n = self.visible_count();
        let max = if n == 0 {
            0
        } else {
            n - 1
        };
        if self.selected_index > max {
            self.selected_index = max;
        }
    }

    /// The picker after moving the cursor down one visible entry.
    pub open spec fn after_select_next(self) -> FilePicker {
        let n = self.visible().len();
        let c = if self.selected_index < n {
            self.selected_index as int
        } else if n == 0 {
            0
        } else {
            n - 1
        };
        FilePicker {
            selected_index: (if c + 1 < n {
                c + 1
            } else {
                c
            }) as usize,
            ..self
        }
    }

    /// Move the cursor down one visible entry (after clamping it to the list).
    pub fn select_next(&mut self)
        requires
            old(self).filter@.len() <= MAX_QUERY_LEN,
        ensures
            *final(self) == old(self).after_select_next(),
            old(self).is_visible_order(old(self).visible()),
    {
        self.clamp_index();
        let n = self.visible_count();
        if self.selected_index < n && n - self.selected_index > 1 {
            self.selected_index += 1;
        }
    }

    /// The picker after moving the cursor up one entry.
    pub open spec fn after_select_prev(self) -> FilePicker {
        FilePicker {
            selected_index: if self.selected_index > 0 {
                (self.selected_index - 1) as usize
            } else {
                0
            },
            ..self
        }
    }

    /// Move the cursor up one entry.
    pub fn select_prev(&mut self)
        ensures
            *final(self) == old(self).after_select_prev(),
    {
        if self.selected_index > 0 {
            self.selected_index -= 1;
        }
    }

    /// The highlighted entry, taking the filter into account.
    pub fn selected_entry(&self) -> (r: Option<&FileEntry>)
        requires
            self.filter@.len() <= MAX_QUERY_LEN,
        ensures
            self.is_visible_order(self.visible()),
            match (r, self.highlighted()) {
                (Some(e), Some(i)) => 0 <= i < self.entries@.len() && *e == self.entries@[i],
                (None, None) => true,
                _ => false,
            },
    {
        let visible = self.visible_indices();
        if visible.len() == 0 {
            return None;
        }
        let pos = if self.selected_index < visible.len() {
            self.selected_index
        } else {
            visible.len() - 1
        };
        Some(&self.entries[visible[pos]])
    }

    /// Add the highlighted file to the selection, or remove it when already
    /// there; directories are ignored. Returns `true` if the entry is now
    /// selected.
    pub fn toggle_selected(&mut self) -> (r: bool)
        requires
            old(self).wf(),
        ensures
            final(self).wf(),
            *final(self) == (FilePicker { selection: final(self).selection, ..*old(self) }),
            old(self).is_visible_order(old(self).visible()),
            toggle_post(*old(self), *final(self), r),
    {
        let entry = match self.selected_entry() {
            Some(e) => e.clone(),
            None => {
                return false;
            },
        };
        if entry.is_dir {
            return false;
        }
        let ghost before = paths_view(self.selection@);
        let mut i: usize = 0;
        while i < self.selection.len()
            invariant
                *self == *old(self),
                old(self).wf(),
                old(self).is_visible_order(old(self).visible()),
                old(self).highlighted() matches Some(h) && entry == old(self).entries@[h],
                !entry.is_dir,
                i <= self.selection@.len(),
                before == paths_view(self.selection@),
                before.no_duplicates(),
                forall|k: int| 0 <= k < i ==> before[k] != entry.path@,
            decreases self.selection.len() - i,
        {
            if same_text(self.selection[i].as_str(), entry.path.as_str()) {
                proof {
                    assert(before[i as int] == entry.path@);
                    assert(before.contains(entry.path@));
                    assert(before.index_of_first(entry.path@) == Some(i as int)) by {
                        before.index_of_first_ensures(entry.path@);
                    }
                }
                let ghost old_sel = self.selection@;
                self.selection.remove(i);
                proof {
                    assert(paths_view(self.selection@) =~= before.remove(i as int));
                    assert(before.remove_value(entry.path@) == before.remove(i as int)) by {
                        before.index_of_first_ensures(entry.path@);
                    }
                    assert forall|a: int, b: int|
                        0 <= a < b < paths_view(self.selection@).len() implies paths_view(self.selection@)[a]
                        != paths_view(self.selection@)[b] by {
                        let pa = if a < i {
                            a
                        } else {
                            a + 1
                        };
                        let pb = if b < i {
                            b
                        } else {
                            b + 1
                        };
                        assert(before[pa] != before[pb]);
                    }
                }
                return false;
            }
            i += 1;
        }
        proof {
            if before.contains(entry.path@) {
                let k = choose|k: int| 0 <= k < before.len() && before[k] == entry.path@;
                assert(before[k] != entry.path@);
            }
        }
        self.selection.push(entry.path);
        proof {
            assert(paths_view(self.selection@) =~= before.push(entry.path@));
            assert forall|a: int, b: int|
                0 <= a < b < paths_view(self.selection@).len() implies paths_view(self.selection@)[a]
                != paths_view(self.selection@)[b] by {
                if b == before.len() {
                    assert(before[a] != entry.path@);
                }
            }
        }
        true
    }

    /// Add every visible non-directory entry to the selection, in visible
    /// order, skipping paths already selected.
    pub fn select_all_visible(&mut self)
        requires
            old(self).wf(),
        ensures
            final(self).wf(),
            *final(self) == (FilePicker { selection: final(self).selection, ..*old(self) }),
            old(self).is_visible_order(old(self).visible()),
            paths_view(final(self).selection@) == add_visible_paths(
                *old(self),
                paths_view(old(self).selection@),
                old(self).visible().len(),
            ),
    {
        let visible = self.visible_indices();
        let ghost start = paths_view(self.selection@);
        let ghost pk = *self;
        let mut k: usize = 0;
        while k < visible.len()
            invariant
                k <= visible@.len(),
                positions(visible@) == pk.visible(),
                pk.is_visible_order(pk.visible()),
                *self == (FilePicker { selection: self.selection, ..pk }),
                paths_view(self.selection@) == add_visible_paths(pk, start, k as nat),
                paths_view(self.selection@).no_duplicates(),
                pk.filter@.len() <= MAX_QUERY_LEN,
            decreases visible.len() - k,
        {
            let idx = visible[k];
            proof {
                assert(positions(visible@)[k as int] == idx as int);
                if pk.filter@.len() > 0 {
                    assert(0 <= pk.visible()[k as int] < pk.entries@.len());
                } else {
                    assert(pk.visible() == Seq::new(pk.entries@.len(), |i: int| i));
                    assert(pk.visible().len() == pk.entries@.len());
                    assert(pk.visible()[k as int] == k);
                }
                assert(self.entries == pk.entries);
            }
            let is_dir = self.entries[idx].is_dir;
            if !is_dir {
                let mut present = false;
                let mut j: usize = 0;
                while j < self.selection.len()
                    invariant
                        j <= self.selection@.len(),
                        idx < self.entries@.len(),
                        present == paths_view(self.selection@).subrange(0, j as int).contains(
                            self.entries@[idx as int].path@,
                        ),
                    decreases self.selection.len() - j,
                {
                    if same_text(self.selection[j].as_str(), self.entries[idx].path.as_str()) {
                        present = true;
                    }
                    proof {
                        let s = paths_view(self.selection@);
                        assert(s.subrange(0, j + 1) =~= s.subrange(0, j as int).push(s[j as int]));
                        lemma_contains_push(s.subrange(0, j as int), s[j as int], self.entries@[idx as int].path@);
                    }
                    j += 1;
                }
                proof {
                    assert(paths_view(self.selection@).subrange(0, j as int) =~= paths_view(
                        self.selection@,
                    ));
                }
                if !present {
                    let p = self.entries[idx].path.clone();
                    let ghost prev = paths_view(self.selection@);
                    self.selection.push(p);
                    proof {
                        assert(paths_view(self.selection@) =~= prev.push(p@));
                        lemma_contains_push(prev, p@, p@);
                        assert forall|a: int, b: int|
                            0 <= a < b < paths_view(self.selection@).len() implies paths_view(
                            self.selection@,
                        )[a] != paths_view(self.selection@)[b] by {
                            if b == prev.len() {
                                assert(prev.contains(prev[a]));
                            }
                        }
                    }
                }
            }
            k += 1;
        }
    }

    /// Drop the whole selection.
    pub fn clear_selection(&mut self)
        ensures
            *final(self) == (FilePicker { selection: final(self).selection, ..*old(self) }),
            final(self).selection@.len() == 0,
            final(self).wf() <== old(self).wf(),
    {
        self.selection.clear();
        assert(paths_view(self.selection@) =~= Seq::<Seq<char>>::empty());
    }

    /// Full paths of the files chosen for upload.
    pub fn selected_paths(&self) -> (r: Vec<String>)
        ensures
            r@ == self.selection@,
    {
        let r = self.selection.clone();
        assert(r@ =~= self.selection@);
        r
    }

    /// Number of selected files.
    pub fn selection_count(&self) -> (n: usize)
        ensures
            n == self.selection@.len(),
    {
        self.selection.len()
    }

    /// Enter the highlighted entry. When it is a directory (or the `..`
    /// marker of a directory with a parent), `dir` becomes that directory,
    /// the listing is reset until it is read, and `true` is returned.
    pub fn enter(&mut self) -> (r: bool)
        requires
            old(self).wf(),
        ensures
            final(self).wf(),
            old(self).is_visible_order(old(self).visible()),
            enter_post(*old(self), *final(self), r),
    {
        let entry = match self.selected_entry() {
            Some(e) => e.clone(),
            None => {
                return false;
            },
        };
        if !entry.is_dir {
            return false;
        }
        if same_text(entry.name.as_str(), "..") {
            self.go_up()
        } else {
            self.dir = entry.path;
            self.entries.clear();
            self.selected_index = 0;
            self.scroll_offset = 0;
            true
        }
    }

    /// Move up one level. Returns `false` (and changes nothing) when `dir` has
    /// no parent; else `dir` becomes the parent and the listing is reset until
    /// it is read.
    pub fn go_up(&mut self) -> (r: bool)
        ensures
            go_up_spec(*old(self), *final(self), r),
            final(self).wf() <== old(self).wf(),
    {
        let parent = match path_parent(self.dir.as_str()) {
            Some(p) => p,
            None => {
                return false;
            },
        };
        if same_text(parent.as_str(), self.dir.as_str()) {
            return false;
        }
        self.dir = parent;
        self.entries.clear();
        self.selected_index = 0;
        self.scroll_offset = 0;
        true
    }
}

/// Result of toggling the highlighted entry: files are added to the
/// selection, or removed when already selected; directories are ignored.
pub open spec fn toggle_post(old: FilePicker, new: FilePicker, r: bool) -> bool {
    let before = paths_view(old.selection@);
    let after = paths_view(new.selection@);
    &&& new == (FilePicker { selection: new.selection, ..old })
    &&& match old.highlighted() {
        Some(i) => {
            let e = old.entries@[i];
            if e.is_dir {
                after == before && !r
            } else if before.contains(e.path@) {
                after == before.remove_value(e.path@) && !r
            } else {
                after == before.push(e.path@) && r
            }
        },
        None => after == before && !r,
    }
}

/// Toggling `k` twice in a selection without duplicates gives back the same
/// elements, and the same sequence when `k` was not in it.
pub proof fn lemma_toggle_seq_twice(s: Seq<Seq<char>>, k: Seq<char>)
    requires
        s.no_duplicates(),
    ensures
        ({
            let t = if s.contains(k) { s.remove_value(k) } else { s.push(k) };
            let u = if t.contains(k) { t.remove_value(k) } else { t.push(k) };
            &&& u.to_set() == s.to_set()
            &&& !s.contains(k) ==> u == s
        }),
{
    if s.contains(k) {
        s.index_of_first_ensures(k);
        let i = s.index_of_first(k)->0;
        let t = s.remove(i);
        assert(!t.contains(k)) by {
            if t.contains(k) {
                let j = choose|j: int| 0 <= j < t.len() && t[j] == k;
                if j < i {
                    assert(t[j] == s[j]);
                } else {
                    assert(t[j] == s[j + 1]);
                }
            }
        }
        let u = t.push(k);
        assert forall|x: Seq<char>| u.contains(x) <==> s.contains(x) by {
            assert(u[t.len() as int] == k);
            if s.contains(x) && x != k {
                let j = choose|j: int| 0 <= j < s.len() && s[j] == x;
                if j < i {
                    assert(u[j] == x);
                } else {
                    assert(j != i);
                    assert(u[j - 1] == x);
                }
            }
            if u.contains(x) && x != k {
                let j = choose|j: int| 0 <= j < u.len() && u[j] == x;
                assert(j < t.len());
                assert(u[j] == t[j]);
                if j < i {
                    assert(s[j] == x);
                } else {
                    assert(s[j + 1] == x);
                }
            }
        }
        assert(u.to_set() =~= s.to_set());
    } else {
        let t = s.push(k);
        assert(t.contains(k)) by {
            assert(t[s.len() as int] == k);
        }
        t.index_of_first_ensures(k);
        let i = t.index_of_first(k)->0;
        assert(i == s.len()) by {
            if i < s.len() {
                assert(s[i] == k);
            }
        }
        assert(t.remove(i) =~= s);
    }
}

/// Law: toggling the highlighted entry twice gives back the same set of
/// selected paths (in the same order when it was not selected), and changes
/// nothing else.
pub proof fn lemma_toggle_selected_twice(p: FilePicker, mid: FilePicker, end: FilePicker, r1: bool, r2: bool)
    requires
        p.wf(),
        toggle_post(p, mid, r1),
        toggle_post(mid, end, r2),
    ensures
        end == (FilePicker { selection: end.selection, ..p }),
        paths_view(end.selection@).to_set() == paths_view(p.selection@).to_set(),
        r1 ==> paths_view(end.selection@) == paths_view(p.selection@) && !r2,
{
    assert(mid.highlighted() == p.highlighted());
    match p.highlighted() {
        Some(i) => {
            if !p.entries@[i].is_dir {
                lemma_toggle_seq_twice(paths_view(p.selection@), p.entries@[i].path@);
            }
        },
        None => {},
    }
}

/// Result of entering the highlighted entry: a directory (or the `..`
/// marker, going up) becomes the directory listed; a file changes nothing.
pub open spec fn enter_post(old: FilePicker, new: FilePicker, r: bool) -> bool {
    match old.highlighted() {
        Some(i) => {
            let e = old.entries@[i];
            if !e.is_dir {
                new == old && !r
            } else if e.name@ == ".."@ {
                go_up_spec(old, new, r)
            } else {
                r && new.awaiting_listing(old, e.path@)
            }
        },
        None => new == old && !r,
    }
}

/// Result of moving a picker up one level.
pub open spec fn go_up_spec(old: FilePicker, new: FilePicker, r: bool) -> bool {
    match parent_spec(old.dir@) {
        Some(p) => if p != old.dir@ {
            r && new.awaiting_listing(old, p)
        } else {
            new == old && !r
        },
        None => new == old && !r,
    }
}

/// `sel` extended with the paths of the non-directory entries among the first
/// `n` visible entries, each added once.
pub open spec fn add_visible_paths(p: FilePicker, sel: Seq<Seq<char>>, n: nat) -> Seq<Seq<char>>
    decreases n,
{
    if n == 0 {
        sel
    } else {
        let prev = add_visible_paths(p, sel, (n - 1) as nat);
        let e = p.entries@[p.visible()[n - 1]];
        if e.is_dir || prev.contains(e.path@) {
            prev
        } else {
            prev.push(e.path@)
        }
    }
}

} // verus!
