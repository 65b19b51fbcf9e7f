//! The text of the browser's panels: list rows, titles, the object info
//! panel and the status bar. Colours and layout are left to the caller.
use vstd::prelude::*;
use crate::app::{AppState, Panel, ObjectInfo, ObjectDetail, BucketInfo};
use crate::config::opt_view;
use crate::filepicker::{positions, paths_view, FilePicker, FileEntry};
use crate::fuzzy::MAX_QUERY_LEN;
use crate::storage::{StorageClass, Tint};
use crate::text::{
    decimal, decimal_string, concat2, concat3, concat4, concat5, copy_str, is_empty_str,
    same_text, strip_prefix_or_keep, strip_or_keep, trim_start_char, trim_start_spec, trim_end_char,
    trim_end_spec,
};
use crate::timefmt::{format_utc, utc_text};

verus! {

broadcast use vstd::string::group_string_axioms;

/// What `bytesize::ByteSize(n)` displays as.
pub uninterp spec fn byte_size_text(n: u64) -> Seq<char>;

/// Calls `bytesize::ByteSize(n).to_string()`. Below one KiB the crate writes
/// the plain byte count followed by ` B`; larger sizes are left to the name.
#[verifier::external_body]
fn byte_size_label(n: u64) -> (r: String)
    ensures
        r@ == byte_size_text(n),
        n < 1024 ==> r@ == decimal(n as nat) + " B"@,
{
    bytesize::ByteSize(n).to_string()
}

/// How a row stands out.
#[derive(Debug, Clone, Copy, PartialEq, Eq, Structural)]
pub enum Emphasis {
    /// Under the cursor of the active panel.
    Selected,
    /// The bucket being browsed.
    Current,
    /// A folder.
    Folder,
    Plain,
}

/// Text of one row of the object panel.
#[derive(Debug)]
pub struct ObjectRow {
    /// `▸` for a folder, `·` for an object.
    pub icon: String,
    /// Name below the folder, then the size when known.
    pub name: String,
    /// Storage class label (empty for folders).
    pub class_label: String,
    /// Colour family of the class label.
    pub class_tint: Tint,
    /// Modification time, when known.
    pub date: String,
    pub emphasis: Emphasis,
}

/// Text of one row of the bucket panel.
#[derive(Debug)]
pub struct BucketRow {
    pub name: String,
    pub date: String,
    pub emphasis: Emphasis,
}

// ---------------------------------------------------------------------
// Specifications
// ---------------------------------------------------------------------
/// Name of an entry below folder `prefix`, without leading or trailing `/`.
pub open spec fn display_name(key: Seq<char>, prefix: Seq<char>) -> Seq<char> {
    trim_end_spec(trim_start_spec(strip_or_keep(key, prefix), '/'), '/')
}

/// ` [size]` when the size is known.
pub open spec fn size_text(size: Option<u64>) -> Seq<char> {
    match size {
        Some(s) => " ["@ + byte_size_text(s) + "]"@,
        None => Seq::empty(),
    }
}

/// Two spaces and the date-time in `pattern`, when known.
pub open spec fn date_text(t: Option<i64>, pattern: Seq<char>) -> Seq<char> {
    match t {
        Some(secs) => match utc_text(secs, pattern) {
            Some(x) => "  "@ + x,
            None => Seq::empty(),
        },
        None => Seq::empty(),
    }
}

/// `  [CLASS]` for an object, nothing for a folder.
pub open spec fn class_text(o: ObjectInfo) -> Seq<char> {
    if o.is_folder {
        Seq::empty()
    } else {
        "  ["@ + o.storage_class.label_spec() + "]"@
    }
}

/// The row of `o` in folder `prefix`, under the cursor or not.
pub open spec fn object_row_spec(r: ObjectRow, o: ObjectInfo, prefix: Seq<char>, selected: bool) -> bool {
    &&& r.icon@ == if o.is_folder { "▸"@ } else { "·"@ }
    &&& r.name@ == display_name(o.key@, prefix) + size_text(o.size)
    &&& r.class_label@ == class_text(o)
    &&& r.class_tint == o.storage_class.tint_spec()
    &&& r.date@ == date_text(o.last_modified, "%Y-%m-%d %H:%M"@)
    &&& r.emphasis == if selected {
        Emphasis::Selected
    } else if o.is_folder {
        Emphasis::Folder
    } else {
        Emphasis::Plain
    }
}

/// Title of the object panel: the folder's location and the filter, when
/// a bucket is open.
pub open spec fn objects_title_spec(s: AppState) -> Seq<char> {
    match s.current_bucket {
        Some(b) => {
            let t = " s3://"@ + b@ + "/"@ + s.current_prefix@ + " "@;
            if s.filter@.len() == 0 {
                t
            } else {
                t + " [filter: '"@ + s.filter@ + "'] "@
            }
        },
        None => " Objects "@,
    }
}

/// The row of bucket `b` at position `i`.
pub open spec fn bucket_row_spec(r: BucketRow, s: AppState, b: BucketInfo, i: int) -> bool {
    &&& r.name@ == "  "@ + b.name@ + " "@
    &&& r.date@ == date_text(b.creation_date, "%Y-%m-%d"@)
    &&& r.emphasis == if s.current_panel == Panel::Buckets && i == s.selected_index {
        Emphasis::Selected
    } else if opt_view(s.current_bucket) == Some(b.name@) {
        Emphasis::Current
    } else {
        Emphasis::Plain
    }
}

/// A value of the info panel, `-` when unknown.
pub open spec fn or_dash(v: Option<Seq<char>>) -> Seq<char> {
    match v {
        Some(x) => x,
        None => "-"@,
    }
}

/// Size as the info panel shows it.
pub open spec fn size_value(s: Option<u64>) -> Option<Seq<char>> {
    match s {
        Some(n) => Some(byte_size_text(n)),
        None => None,
    }
}

/// Date-time as the info panel shows it.
pub open spec fn time_value(t: Option<i64>) -> Option<Seq<char>> {
    match t {
        Some(secs) => utc_text(secs, "%Y-%m-%d %H:%M:%S"@),
        None => None,
    }
}

/// The lines of the info panel: label and value.
pub open spec fn detail_lines_spec(d: ObjectDetail) -> Seq<(Seq<char>, Seq<char>)> {
    seq![
        ("Bucket:        "@, d.bucket@),
        ("Key:           "@, d.key@),
        ("Size:          "@, or_dash(size_value(d.size))),
        ("ContentLength: "@, or_dash(size_value(d.content_length))),
        ("LastModified:  "@, or_dash(time_value(d.last_modified))),
        ("StorageClass:  "@, d.storage_class.label_spec()),
        ("ETag:          "@, or_dash(opt_view(d.etag))),
        ("ContentType:   "@, or_dash(opt_view(d.content_type))),
    ]
}

/// The pairs as character sequences.
pub open spec fn pairs_view(v: Seq<(String, String)>) -> Seq<(Seq<char>, Seq<char>)> {
    v.map_values(|p: (String, String)| (p.0@, p.1@))
}

// ---------------------------------------------------------------------
// Operations
// ---------------------------------------------------------------------
fn size_suffix(size: Option<u64>) -> (r: String)
    ensures
        r@ == size_text(size),
{
    match size {
        Some(s) => {
            let label = byte_size_label(s);
            concat3(" [", label.as_str(), "]")
        },
        None => String::new(),
    }
}

fn date_suffix(t: Option<i64>, pattern: &str) -> (r: String)
    requires
        crate::timefmt::valid_date_pattern(pattern@),
    ensures
        r@ == date_text(t, pattern@),
{
    match t {
        Some(secs) => match format_utc(secs, pattern) {
            Some(x) => concat2("  ", x.as_str()),
            None => String::new(),
        },
        None => String::new(),
    }
}

/// The name of an entry below folder `prefix` (see [`display_name`]).
pub fn entry_name(key: &str, prefix: &str) -> (r: String)
    ensures
        r@ == display_name(key@, prefix@),
{
    let below = strip_prefix_or_keep(key, prefix);
    let lead = trim_start_char(below.as_str(), '/');
    trim_end_char(lead.as_str(), '/')
}

/// The row of `o` in folder `prefix`.
pub fn object_row(o: &ObjectInfo, prefix: &str, selected: bool) -> (r: ObjectRow)
    ensures
        object_row_spec(r, *o, prefix@, selected),
{
    let icon = if o.is_folder { "▸".to_string() } else { "·".to_string() };
    let name = entry_name(o.key.as_str(), prefix);
    let size = size_suffix(o.size);
    let class_label = if o.is_folder {
        String::new()
    } else {
        let l = o.storage_class.label();
        concat3("  [", l.as_str(), "]")
    };
    let date = date_suffix(o.last_modified, "%Y-%m-%d %H:%M");
    let emphasis = if selected {
        Emphasis::Selected
    } else if o.is_folder {
        Emphasis::Folder
    } else {
        Emphasis::Plain
    };
    ObjectRow {
        icon,
        name: concat2(name.as_str(), size.as_str()),
        class_label,
        class_tint: o.storage_class.tint(),
        date,
        emphasis,
    }
}

/// The lines of the info panel for `d` (see [`detail_lines_spec`]).
pub fn detail_lines(d: &ObjectDetail) -> (r: Vec<(String, String)>)
    ensures
        pairs_view(r@) == detail_lines_spec(*d),
{
    let size = match d.size {
        Some(n) => byte_size_label(n),
        None => "-".to_string(),
    };
    let content_length = match d.content_length {
        Some(n) => byte_size_label(n),
        None => "-".to_string(),
    };
    let modified = match d.last_modified {
        Some(secs) => match format_utc(secs, "%Y-%m-%d %H:%M:%S") {
            Some(x) => x,
            None => "-".to_string(),
        },
        None => "-".to_string(),
    };
    let etag = match &d.etag {
        Some(e) => copy_str(e.as_str()),
        None => "-".to_string(),
    };
    let content_type = match &d.content_type {
        Some(c) => copy_str(c.as_str()),
        None => "-".to_string(),
    };
    let r = vec![
        ("Bucket:        ".to_string(), copy_str(d.bucket.as_str())),
        ("Key:           ".to_string(), copy_str(d.key.as_str())),
        ("Size:          ".to_string(), size),
        ("ContentLength: ".to_string(), content_length),
        ("LastModified:  ".to_string(), modified),
        ("StorageClass:  ".to_string(), d.storage_class.label()),
        ("ETag:          ".to_string(), etag),
        ("ContentType:   ".to_string(), content_type),
    ];
    assert(pairs_view(r@) =~= detail_lines_spec(*d));
    r
}

impl AppState {
    /// Rows of the object panel, one per visible object, in visible order.
    pub fn object_rows(&self) -> (r: Vec<ObjectRow>)
        ensures
            r@.len() == self.visible_spec().len(),
            forall|p: int| 0 <= p < r@.len() ==> object_row_spec(
                #[trigger] r@[p],
                self.objects@[self.visible_spec()[p]],
                self.current_prefix@,
                self.current_panel == Panel::Objects && p == self.selected_index,
            ),
    {
        let visible = self.visible_indices();
        proof {
            self.lemma_visible_in_range();
        }
        let mut rows: Vec<ObjectRow> = Vec::new();
        let mut p: usize = 0;
        while p < visible.len()
            invariant
                p <= visible@.len(),
                positions(visible@) == self.visible_spec(),
                forall|k: int| 0 <= k < self.visible_spec().len() ==> 0 <= #[trigger] self.visible_spec()[k] < self.objects@.len(),
                rows@.len() == p,
                forall|q: int| 0 <= q < p ==> object_row_spec(
                    #[trigger] rows@[q],
                    self.objects@[self.visible_spec()[q]],
                    self.current_prefix@,
                    self.current_panel == Panel::Objects && q == self.selected_index,
                ),
            decreases visible@.len() - p,
        {
            let idx = visible[p];
            assert(self.visible_spec()[p as int] == idx as int);
            let selected = self.current_panel == Panel::Objects && p == self.selected_index;
            let row = object_row(&self.objects[idx], self.current_prefix.as_str(), selected);
            rows.push(row);
            p += 1;
        }
        rows
    }

    /// Title of the object panel (see [`objects_title_spec`]).
    pub fn objects_title(&self) -> (r: String)
        ensures
            r@ == objects_title_spec(*self),
    {
        match &self.current_bucket {
            Some(b) => {
                let t = concat5(" s3://", b.as_str(), "/", self.current_prefix.as_str(), " ");
                if is_empty_str(self.filter.as_str()) {
                    t
                } else {
                    concat4(t.as_str(), " [filter: '", self.filter.as_str(), "'] ")
                }
            },
            None => " Objects ".to_string(),
        }
    }

    /// Rows of the bucket panel, one per bucket, in order.
    pub fn bucket_rows(&self) -> (r: Vec<BucketRow>)
        ensures
            r@.len() == self.buckets@.len(),
            forall|i: int| 0 <= i < r@.len() ==> bucket_row_spec(#[trigger] r@[i], *self, self.buckets@[i], i),
    {
        let mut rows: Vec<BucketRow> = Vec::new();
        let mut i: usize = 0;
        while i < self.buckets.len()
            invariant
                i <= self.buckets@.len(),
                rows@.len() == i,
                forall|k: int| 0 <= k < i ==> bucket_row_spec(#[trigger] rows@[k], *self, self.buckets@[k], k),
            decreases self.buckets@.len() - i,
        {
            let b = &self.buckets[i];
            let is_current = match &self.current_bucket {
                Some(c) => same_text(c.as_str(), b.name.as_str()),
                None => false,
            };
            let emphasis = if self.current_panel == Panel::Buckets && i == self.selected_index {
                Emphasis::Selected
            } else if is_current {
                Emphasis::Current
            } else {
                Emphasis::Plain
            };
            let name = concat3("  ", b.name.as_str(), " ");
            let date = date_suffix(b.creation_date, "%Y-%m-%d");
            rows.push(BucketRow { name, date, emphasis });
            i += 1;
        }
        rows
    }

    /// Title of the bucket panel: ` Buckets (n) `.
    pub fn buckets_title(&self) -> (r: String)
        ensures
            r@ == " Buckets ("@ + decimal(self.buckets@.len()) + ") "@,
    {
        let n = decimal_string(self.buckets.len());
        concat3(" Buckets (", n.as_str(), ") ")
    }

    /// The two texts of the status bar: the message, and the loading state.
    pub fn status_texts(&self) -> (r: (String, String))
        ensures
            r.0@ == " "@ + self.status_message@ + " "@,
            r.1@ == " "@ + self.loading_state.text_spec(),
    {
        let loading = self.loading_state.text();
        (concat3(" ", self.status_message.as_str(), " "), concat2(" ", loading.as_str()))
    }
}

/// One row of the file picker.
#[derive(Debug)]
pub struct PickerRow {
    /// Marked for upload.
    pub marked: bool,
    /// The entry's name, with a trailing `/` for a directory.
    pub name: String,
    pub is_dir: bool,
}

/// The row of entry `e` when `selection` is marked.
pub open spec fn picker_row_spec(r: PickerRow, e: FileEntry, selection: Seq<Seq<char>>) -> bool {
    &&& r.is_dir == e.is_dir
    &&& r.name@ == if e.is_dir { e.name@ + "/"@ } else { e.name@ }
    &&& r.marked == selection.contains(e.path@)
}

fn selection_has(selection: &Vec<String>, path: &str) -> (r: bool)
    ensures
        r == paths_view(selection@).contains(path@),
{
    let mut i: usize = 0;
    while i < selection.len()
        invariant
            i <= selection@.len(),
            forall|k: int| 0 <= k < i ==> (#[trigger] selection@[k])@ != path@,
        decreases selection@.len() - i,
    {
        if same_text(selection[i].as_str(), path) {
            assert(paths_view(selection@)[i as int] == path@);
            return true;
        }
        i += 1;
    }
    proof {
        if paths_view(selection@).contains(path@) {
            let k = choose|k: int| 0 <= k < paths_view(selection@).len() && paths_view(selection@)[k] == path@;
            assert(selection@[k]@ == path@);
        }
    }
    false
}

impl FilePicker {
    /// Rows of the picker, one per visible entry, in visible order.
    pub fn rows(&self) -> (r: Vec<PickerRow>)
        requires
            self.filter@.len() <= MAX_QUERY_LEN,
        ensures
            r@.len() == self.visible().len(),
            forall|p: int| 0 <= p < r@.len() ==> picker_row_spec(
                #[trigger] r@[p],
                self.entries@[self.visible()[p]],
                paths_view(self.selection@),
            ),
    {
        let visible = self.visible_indices();
        let mut rows: Vec<PickerRow> = Vec::new();
        let mut p: usize = 0;
        while p < visible.len()
            invariant
                p <= visible@.len(),
                positions(visible@) == self.visible(),
                self.is_visible_order(positions(visible@)),
                rows@.len() == p,
                forall|q: int| 0 <= q < p ==> picker_row_spec(
                    #[trigger] rows@[q],
                    self.entries@[self.visible()[q]],
                    paths_view(self.selection@),
                ),
            decreases visible@.len() - p,
        {
            let idx = visible[p];
            assert(positions(visible@)[p as int] == idx as int);
            proof {
                let v = positions(visible@);
                assert(v.len() == visible@.len());
                if self.filter@.len() == 0 {
                    assert(v == Seq::new(self.entries@.len(), |i: int| i));
                    assert(v[p as int] == p as int);
                } else {
                    assert(0 <= v[p as int] < self.entries@.len());
                }
            }
            let e = &self.entries[idx];
            let marked = selection_has(&self.selection, e.path.as_str());
            let name = if e.is_dir { concat2(e.name.as_str(), "/") } else { copy_str(e.name.as_str()) };
            rows.push(PickerRow { marked, name, is_dir: e.is_dir });
            p += 1;
        }
        rows
    }
}

} // verus!
