//! Browser state: buckets, the listing of the current folder, the cursor, the
//! filter, the multi-selection and the input modes.
use vstd::prelude::*;
use crate::filepicker::{FilePicker, paths_view, positions, lemma_contains_push, lemma_toggle_seq_twice};
use crate::metadata::{MetadataEditor, MetadataField};
use crate::storage::StorageClass;
use crate::text::{
    lower_str, lower_str_spec, contains, contains_spec, strip_prefix_or_keep, strip_or_keep,
    copy_str, concat2, concat3, concat5, clear_string, is_empty_str, same_text, chars_of,
    last_index_of, last_index_spec, trim_end_char, trim_end_spec, string_from, occurs_at,
};

verus! {

broadcast use vstd::string::group_string_axioms;

/// Panel holding the cursor.
#[derive(Debug, Clone, Copy, PartialEq, Eq, Structural)]
pub enum Panel {
    Buckets,
    Objects,
    Preview,
}

/// Background work indicator shown in the status bar.
#[derive(Debug)]
pub enum LoadingState {
    Idle,
    Loading(String),
    Error(String),
}

impl LoadingState {
    /// Text shown for the state.
    pub open spec fn text_spec(self) -> Seq<char> {
        match self {
            LoadingState::Idle => Seq::empty(),
            LoadingState::Loading(m) => m@,
            LoadingState::Error(m) => "Error: "@ + m@,
        }
    }

    /// Text shown in the status bar for the state.
    pub fn text(&self) -> (r: String)
        ensures
            r@ == self.text_spec(),
    {
        match self {
            LoadingState::Idle => String::new(),
            LoadingState::Loading(m) => copy_str(m.as_str()),
            LoadingState::Error(m) => concat2("Error: ", m.as_str()),
        }
    }
}

/// A bucket of the account. `creation_date` is in seconds since the epoch.
#[derive(Debug)]
pub struct BucketInfo {
    pub name: String,
    pub creation_date: Option<i64>,
}

impl Clone for BucketInfo {
    fn clone(&self) -> (r: Self)
        ensures
            r == *self,
    {
        BucketInfo { name: self.name.clone(), creation_date: self.creation_date }
    }
}

/// An entry of a folder listing: an object, or a folder (common prefix).
/// `last_modified` is in seconds since the epoch.
#[derive(Debug)]
pub struct ObjectInfo {
    pub key: String,
    pub size: Option<u64>,
    pub last_modified: Option<i64>,
    pub is_folder: bool,
    pub storage_class: StorageClass,
}

impl Clone for ObjectInfo {
    fn clone(&self) -> (r: Self)
        ensures
            r == *self,
    {
        ObjectInfo {
            key: self.key.clone(),
            size: self.size,
            last_modified: self.last_modified,
            is_folder: self.is_folder,
            storage_class: self.storage_class.clone(),
        }
    }
}

/// What the keyboard currently drives.
#[derive(Debug, Clone, Copy, PartialEq, Eq, Structural)]
pub enum InputMode {
    Normal,
    Confirm,
    FilePicker,
    Metadata,
    Directory,
    Filter,
    StorageClass,
}

/// What the object info panel shows.
#[derive(Debug)]
pub struct ObjectDetail {
    pub bucket: String,
    pub key: String,
    pub size: Option<u64>,
    pub last_modified: Option<i64>,
    pub storage_class: StorageClass,
    pub etag: Option<String>,
    pub content_type: Option<String>,
    pub content_length: Option<u64>,
    pub metadata: Vec<(String, String)>,
}

/// Outcome of a batch download: keys downloaded, and (key, error) failures.
#[derive(Debug)]
pub struct DownloadReport {
    pub downloaded: Vec<String>,
    pub failures: Vec<(String, String)>,
}

impl Default for DownloadReport {
    fn default() -> (r: Self)
        ensures
            r.downloaded@.len() == 0,
            r.failures@.len() == 0,
    {
        DownloadReport { downloaded: Vec::new(), failures: Vec::new() }
    }
}

impl DownloadReport {
    /// Record the key of an object downloaded.
    pub fn record_success(&mut self, key: String)
        ensures
            final(self).downloaded@ == old(self).downloaded@.push(key),
            final(self).failures == old(self).failures,
    {
        self.downloaded.push(key);
    }

    /// Record an object that failed to download, with the error.
    pub fn record_failure(&mut self, key: String, error: String)
        ensures
            final(self).failures@ == old(self).failures@.push((key, error)),
            final(self).downloaded == old(self).downloaded,
    {
        self.failures.push((key, error));
    }
}

/// Outcome of a batch upload: `bucket/key` of each object written, and
/// (local path, error) failures.
#[derive(Debug)]
pub struct UploadReport {
    pub uploaded: Vec<String>,
    pub failures: Vec<(String, String)>,
}

impl Default for UploadReport {
    fn default() -> (r: Self)
        ensures
            r.uploaded@.len() == 0,
            r.failures@.len() == 0,
    {
        UploadReport { uploaded: Vec::new(), failures: Vec::new() }
    }
}

impl UploadReport {
    /// Record an object written to `bucket` under `key`, as `bucket/key`.
    pub fn record_success(&mut self, bucket: &str, key: &str)
        ensures
            final(self).uploaded@.len() == old(self).uploaded@.len() + 1,
            final(self).uploaded@.take(old(self).uploaded@.len() as int) == old(self).uploaded@,
            final(self).uploaded@.last()@ == bucket@ + "/"@ + key@,
            final(self).failures == old(self).failures,
    {
        let entry = concat3(bucket, "/", key);
        let ghost before = self.uploaded@;
        self.uploaded.push(entry);
        assert(self.uploaded@.take(before.len() as int) =~= before);
    }

    /// Record a local file that failed to upload, with the error.
    pub fn record_failure(&mut self, path: String, error: String)
        ensures
            final(self).failures@ == old(self).failures@.push((path, error)),
            final(self).uploaded == old(self).uploaded,
    {
        self.failures.push((path, error));
    }
}

/// An operation waiting for the user's confirmation or destination.
#[derive(Debug)]
pub enum PendingAction {
    Idle,
    DeleteObject { bucket: String, key: String },
    DeleteMany { bucket: String, keys: Vec<String> },
    Download { bucket: String, key: String },
    DownloadMany { bucket: String, keys: Vec<String> },
}

/// The result of background work, handed back to the state.
#[derive(Debug)]
#[allow(inconsistent_fields)]
pub enum TaskMessage {
    BucketsLoaded(Result<Vec<BucketInfo>, String>),
    ObjectsLoaded { bucket: String, prefix: String, result: Result<Vec<ObjectInfo>, String> },
    FilesUploaded { result: Result<UploadReport, String> },
    ObjectDownloaded { result: Result<String, String> },
    ObjectDeleted { result: Result<String, String> },
    ObjectsDeleted { result: Result<Vec<String>, String> },
    ObjectDetailLoaded(Result<ObjectDetail, String>),
    ObjectsDownloaded { result: Result<DownloadReport, String> },
}

/// Name of an object relative to the folder being listed: its key without the
/// folder prefix (the whole key when it does not start with it).
pub open spec fn relative_name(key: Seq<char>, prefix: Seq<char>) -> Seq<char> {
    strip_or_keep(key, prefix)
}

/// Whether an object passes the filter: the lowercased filter occurs in its
/// lowercased relative name or in its lowercased key.
pub open spec fn object_matches(o: ObjectInfo, prefix: Seq<char>, filter: Seq<char>) -> bool {
    let needle = lower_str_spec(filter);
    ||| contains_spec(lower_str_spec(relative_name(o.key@, prefix)), needle)
    ||| contains_spec(lower_str_spec(o.key@), needle)
}

/// Positions, in listing order, of the first `n` objects that pass the filter.
pub open spec fn matching_objects(objects: Seq<ObjectInfo>, prefix: Seq<char>, filter: Seq<char>, n: nat) -> Seq<int>
    decreases n,
{
    if n == 0 {
        Seq::empty()
    } else {
        let s = matching_objects(objects, prefix, filter, (n - 1) as nat);
        if object_matches(objects[n - 1], prefix, filter) {
            s.push(n - 1)
        } else {
            s
        }
    }
}

/// The prefix a folder view goes back to: everything up to and including the
/// last `/` once trailing slashes are dropped, or nothing.
pub open spec fn parent_prefix(prefix: Seq<char>) -> Seq<char> {
    let t = trim_end_spec(prefix, '/');
    match last_index_spec(t, '/') {
        Some(i) => t.subrange(0, i + 1),
        None => Seq::empty(),
    }
}

/// The status line shown while browsing a folder: `s3://bucket/prefix/`.
pub open spec fn folder_status(bucket: Option<String>, prefix: Seq<char>) -> Seq<char> {
    let b = match bucket {
        Some(b) => b@,
        None => Seq::empty(),
    };
    "s3://"@ + b + "/"@ + prefix + "/"@
}

proof fn lemma_last_index_skips(s: Seq<char>, t: Seq<char>, c: char)
    requires
        forall|i: int| 0 <= i < t.len() ==> t[i] != c,
    ensures
        last_index_spec(s + t, c) == last_index_spec(s, c),
    decreases t.len(),
{
    if t.len() > 0 {
        assert((s + t).drop_last() =~= s + t.drop_last());
        lemma_last_index_skips(s, t.drop_last(), c);
    } else {
        assert(s + t =~= s);
    }
}

/// Law: going back from a folder entered from the listing of `prefix` (a
/// folder key is the listed prefix, a name without `/`, and a `/`) returns to
/// `prefix`, and `prefix` is the folder listed next.
pub proof fn lemma_back_returns_to_parent(prefix: Seq<char>, name: Seq<char>)
    requires
        prefix.len() == 0 || prefix.last() == '/',
        name.len() > 0,
        forall|i: int| 0 <= i < name.len() ==> name[i] != '/',
    ensures
        parent_prefix(prefix + name + "/"@) == prefix,
{
    reveal_strlit("/");
    let p = prefix + name + "/"@;
    let t = prefix + name;
    assert(p.drop_last() =~= t);
    assert(t.last() == name.last());
    assert(trim_end_spec(t, '/') == t);
    assert(trim_end_spec(p, '/') == t);
    lemma_last_index_skips(prefix, name, '/');
    if prefix.len() > 0 {
        assert(last_index_spec(prefix, '/') == Some(prefix.len() - 1));
        assert(t.subrange(0, prefix.len() as int) =~= prefix);
    } else {
        assert(last_index_spec(prefix, '/') is None);
    }
}

/// Whole state of the browser.
#[derive(Debug)]
pub struct AppState {
    pub current_panel: Panel,
    pub buckets: Vec<BucketInfo>,
    pub objects: Vec<ObjectInfo>,
    pub current_bucket: Option<String>,
    pub current_prefix: String,
    pub selected_index: usize,
    pub scroll_offset: usize,
    pub loading_state: LoadingState,
    pub input_mode: InputMode,
    pub input_buffer: String,
    pub pending_action: PendingAction,
    pub status_message: String,
    pub should_quit: bool,
    pub filter: String,
    pub selected_object_detail: Option<ObjectDetail>,
    /// Keys of objects currently multi-selected for batch operations (each once).
    pub selected_keys: Vec<String>,
    /// Local file browser used by the multi-file upload flow.
    pub file_picker: FilePicker,
    /// Per-file metadata gathered right before the upload is started.
    pub metadata_editor: MetadataEditor,
    /// Whether the keyboard-shortcuts help panel is on screen.
    pub show_help: bool,
    /// Scroll offset used inside the help panel.
    pub help_scroll: usize,
}

impl AppState {
    /// The state's invariant: no key is selected twice, and the file picker
    /// keeps its own invariant.
    pub open spec fn wf(&self) -> bool {
        &&& paths_view(self.selected_keys@).no_duplicates()
        &&& self.file_picker.wf()
    }

    /// Positions (into `objects`) of the objects shown: all of them when the
    /// filter is empty, else those passing it, in listing order.
    pub open spec fn visible_spec(&self) -> Seq<int> {
        if self.filter@.len() == 0 {
            Seq::new(self.objects@.len(), |i: int| i)
        } else {
            matching_objects(self.objects@, self.current_prefix@, self.filter@, self.objects@.len())
        }
    }

    /// Position (into `objects`) of the object under the cursor, if any.
    pub open spec fn selected_spec(&self) -> Option<int> {
        let v = self.visible_spec();
        if self.selected_index < v.len() {
            Some(v[self.selected_index as int])
        } else {
            None
        }
    }

    /// Keys of the selected, visible, non-folder objects, in visible order.
    pub open spec fn marked_visible(&self, n: nat) -> Seq<String>
        decreases n,
    {
        if n == 0 {
            Seq::empty()
        } else {
            let s = self.marked_visible((n - 1) as nat);
            let o = self.objects@[self.visible_spec()[n - 1]];
            if !o.is_folder && paths_view(self.selected_keys@).contains(o.key@) {
                s.push(o.key)
            } else {
                s
            }
        }
    }

    /// `keys` extended with the keys of the non-folder objects among the first
    /// `n` visible objects, each added once.
    pub open spec fn add_visible_keys(&self, keys: Seq<Seq<char>>, n: nat) -> Seq<Seq<char>>
        decreases n,
    {
        if n == 0 {
            keys
        } else {
            let prev = self.add_visible_keys(keys, (n - 1) as nat);
            let o = self.objects@[self.visible_spec()[n - 1]];
            if o.is_folder || prev.contains(o.key@) {
                prev
            } else {
                prev.push(o.key@)
            }
        }
    }

    proof fn lemma_matching_in_range(&self, n: nat)
        requires
            n <= self.objects@.len(),
        ensures
            forall|k: int|
                0 <= k < matching_objects(self.objects@, self.current_prefix@, self.filter@, n).len()
                    ==> 0 <= #[trigger] matching_objects(self.objects@, self.current_prefix@, self.filter@, n)[k] < n,
        decreases n,
    {
        if n > 0 {
            self.lemma_matching_in_range((n - 1) as nat);
            let prev = matching_objects(self.objects@, self.current_prefix@, self.filter@, (n - 1) as nat);
            let cur = matching_objects(self.objects@, self.current_prefix@, self.filter@, n);
            assert forall|k: int| 0 <= k < cur.len() implies 0 <= #[trigger] cur[k] < n by {
                if k < prev.len() {
                    assert(cur[k] == prev[k]);
                }
            }
        }
    }

    /// Every visible position is a position of `objects`.
    pub proof fn lemma_visible_in_range(&self)
        ensures
            forall|k: int| 0 <= k < self.visible_spec().len() ==> 0 <= #[trigger] self.visible_spec()[k] < self.objects@.len(),
    {
        if self.filter@.len() > 0 {
            self.lemma_matching_in_range(self.objects@.len());
        }
    }

    /// A fresh state on the bucket list, waiting for the buckets to load.
    pub fn new() -> (s: Self)
        ensures
            s.wf(),
            s.current_panel == Panel::Buckets,
            s.buckets@.len() == 0,
            s.objects@.len() == 0,
            s.current_bucket is None,
            s.current_prefix@.len() == 0,
            s.selected_index == 0,
            s.scroll_offset == 0,
            s.loading_state is Idle,
            s.input_mode == InputMode::Normal,
            s.input_buffer@.len() == 0,
            s.pending_action is Idle,
            s.status_message@ == "Presioná ? para la ayuda"@,
            !s.should_quit,
            s.filter@.len() == 0,
            s.selected_object_detail is None,
            s.selected_keys@.len() == 0,
            s.file_picker.entries@.len() == 0,
            s.file_picker.selection@.len() == 0,
            s.file_picker.filter@.len() == 0,
            s.file_picker.dir@.len() == 0,
            s.file_picker.selected_index == 0,
            s.file_picker.scroll_offset == 0,
            s.file_picker.hint@.len() == 0,
            s.metadata_editor.files@.len() == 0,
            s.metadata_editor.selected == 0,
            s.metadata_editor.row == 0,
            s.metadata_editor.field == MetadataField::Key,
            s.metadata_editor.storage_class == StorageClass::Standard,
            s.metadata_editor.storage_class_index == 0,
            !s.show_help,
            s.help_scroll == 0,
    {
        let s = AppState {
            current_panel: Panel::Buckets,
            buckets: Vec::new(),
            objects: Vec::new(),
            current_bucket: None,
            current_prefix: String::new(),
            selected_index: 0,
            scroll_offset: 0,
            loading_state: LoadingState::Idle,
            input_mode: InputMode::Normal,
            input_buffer: String::new(),
            pending_action: PendingAction::Idle,
            status_message: "Presioná ? para la ayuda".to_string(),
            should_quit: false,
            filter: String::new(),
            selected_object_detail: None,
            selected_keys: Vec::new(),
            file_picker: FilePicker::new_at(String::new()),
            metadata_editor: MetadataEditor::default(),
            show_help: false,
            help_scroll: 0,
        };
        assert(paths_view(s.selected_keys@) =~= Seq::<Seq<char>>::empty());
        s
    }

    /// Positions (into `objects`) of the objects matching the current filter.
    pub fn visible_indices(&self) -> (r: Vec<usize>)
        ensures
            positions(r@) == self.visible_spec(),
    {
        let mut r: Vec<usize> = Vec::new();
        if is_empty_str(self.filter.as_str()) {
            let mut i: usize = 0;
            while i < self.objects.len()
                invariant
                    i <= self.objects@.len(),
                    r@.len() == i,
                    forall|k: int| 0 <= k < i ==> r@[k] == k,
                decreases self.objects.len() - i,
            {
                r.push(i);
                i += 1;
            }
            assert(positions(r@) =~= self.visible_spec());
            return r;
        }
        let needle = lower_str(self.filter.as_str());
        let mut i: usize = 0;
        while i < self.objects.len()
            invariant
                i <= self.objects@.len(),
                needle@ == lower_str_spec(self.filter@),
                positions(r@) == matching_objects(self.objects@, self.current_prefix@, self.filter@, i as nat),
            decreases self.objects.len() - i,
        {
            let o = &self.objects[i];
            let name = strip_prefix_or_keep(o.key.as_str(), self.current_prefix.as_str());
            let lname = lower_str(name.as_str());
            let lkey = lower_str(o.key.as_str());
            let ghost before = r@;
            if contains(lname.as_str(), needle.as_str()) || contains(lkey.as_str(), needle.as_str()) {
                r.push(i);
                assert(positions(r@) =~= positions(before).push(i as int));
            }
            i += 1;
        }
        r
    }

    /// Number of objects matching the current filter.
    pub fn visible_count(&self) -> (n: usize)
        ensures
            n == self.visible_spec().len(),
    {
        self.visible_indices().len()
    }

    /// The object under the cursor, taking the filter into account.
    pub fn selected_object(&self) -> (r: Option<&ObjectInfo>)
        ensures
            match (r, self.selected_spec()) {
                (Some(o), Some(i)) => 0 <= i < self.objects@.len() && *o == self.objects@[i],
                (None, None) => true,
                _ => false,
            },
    {
        let visible = self.visible_indices();
        proof {
            self.lemma_visible_in_range();
        }
        if self.selected_index < visible.len() {
            let i = visible[self.selected_index];
            assert(positions(visible@)[self.selected_index as int] == i as int);
            Some(&self.objects[i])
        } else {
            None
        }
    }

    /// The state after moving the cursor down.
    pub open spec fn after_select_next(self) -> AppState {
        (AppState {
            selected_index: match self.current_panel {
                Panel::Buckets => if self.selected_index + 1 < self.buckets@.len() {
                    (self.selected_index + 1) as usize
                } else {
                    self.selected_index
                },
                Panel::Objects => if self.selected_index + 1 < self.visible_spec().len() {
                    (self.selected_index + 1) as usize
                } else {
                    self.selected_index
                },
                Panel::Preview => self.selected_index,
            },
            ..self
        })
    }

    /// Move the cursor down in the bucket or object list (not past the end).
    pub fn select_next(&mut self)
        ensures
            *final(self) == old(self).after_select_next(),
    {
        match self.current_panel {
            Panel::Buckets => {
                let n = self.buckets.len();
                if n > 0 && self.selected_index < n - 1 {
                    self.selected_index += 1;
                }
            },
            Panel::Objects => {
                let count = self.visible_count();
                if count > 0 && self.selected_index < count - 1 {
                    self.selected_index += 1;
                }
            },
            _ => {},
        }
    }

    /// The state after moving the cursor up.
    pub open spec fn after_select_prev(self) -> AppState {
        (AppState {
            selected_index: if self.current_panel != Panel::Preview && self.selected_index > 0 {
                (self.selected_index - 1) as usize
            } else {
                self.selected_index
            },
            ..self
        })
    }

    /// Move the cursor up in the bucket or object list (not past the top).
    pub fn select_prev(&mut self)
        ensures
            *final(self) == old(self).after_select_prev(),
    {
        match self.current_panel {
            Panel::Buckets => {
                if self.selected_index > 0 {
                    self.selected_index -= 1;
                }
            },
            Panel::Objects => {
                if self.selected_index > 0 {
                    self.selected_index -= 1;
                }
            },
            _ => {},
        }
    }

    /// Open the bucket under the cursor: its root listing (empty until
    /// loaded) on the object panel. Returns the bucket's name.
    pub fn enter_bucket(&mut self) -> (r: Option<String>)
        requires
            old(self).wf(),
        ensures
            final(self).wf(),
            enter_bucket_post(*old(self), *final(self), r),
    {
        if self.current_panel == Panel::Buckets && self.selected_index < self.buckets.len() {
            let name = self.buckets[self.selected_index].name.clone();
            self.current_bucket = Some(name.clone());
            clear_string(&mut self.current_prefix);
            self.objects.clear();
            self.selected_index = 0;
            self.selected_keys.clear();
            self.current_panel = Panel::Objects;
            self.status_message = concat3("Viendo s3://", name.as_str(), "/");
            assert(paths_view(self.selected_keys@) =~= Seq::<Seq<char>>::empty());
            return Some(name);
        }
        None
    }

    /// Open the folder under the cursor: its listing (empty until loaded).
    /// Returns the folder's key, which becomes the current prefix.
    pub fn enter_folder(&mut self) -> (r: Option<String>)
        requires
            old(self).wf(),
        ensures
            final(self).wf(),
            enter_folder_post(*old(self), *final(self), r),
    {
        if self.current_panel == Panel::Objects {
            let (key, is_folder) = match self.selected_object() {
                Some(o) => (o.key.clone(), o.is_folder),
                None => {
                    return None;
                },
            };
            if is_folder {
                self.current_prefix = key.clone();
                self.objects.clear();
                self.selected_index = 0;
                self.selected_keys.clear();
                let b = match &self.current_bucket {
                    Some(b) => copy_str(b.as_str()),
                    None => String::new(),
                };
                self.status_message = concat5("s3://", b.as_str(), "/", self.current_prefix.as_str(), "/");
                assert(paths_view(self.selected_keys@) =~= Seq::<Seq<char>>::empty());
                return Some(key);
            }
        }
        None
    }

    /// Go back: from a folder to its parent folder (returning the bucket and
    /// the parent folder, so it can be listed), from the bucket root to
    /// the bucket list, from the info panel to the object list.
    pub fn go_back(&mut self) -> (r: Option<(String, String)>)
        requires
            old(self).wf(),
        ensures
            final(self).wf(),
            go_back_post(*old(self), *final(self), r),
    {
        match self.current_panel {
            Panel::Objects => {
                if is_empty_str(self.current_prefix.as_str()) {
                    self.current_panel = Panel::Buckets;
                    self.current_bucket = None;
                    self.objects.clear();
                    self.selected_index = 0;
                    self.selected_keys.clear();
                    self.status_message = "Presioná ? para la ayuda".to_string();
                    assert(paths_view(self.selected_keys@) =~= Seq::<Seq<char>>::empty());
                    None
                } else {
                    let trimmed = trim_end_char(self.current_prefix.as_str(), '/');
                    let t = chars_of(trimmed.as_str());
                    self.current_prefix = match last_index_of(&t, '/') {
                        Some(i) => {
                            let tl = t.len();
                            assert(i < tl);
                            string_from(&t, 0, i + 1)
                        },
                        None => String::new(),
                    };
                    self.objects.clear();
                    self.selected_index = 0;
                    self.selected_keys.clear();
                    let b = match &self.current_bucket {
                        Some(b) => copy_str(b.as_str()),
                        None => String::new(),
                    };
                    self.status_message = concat5("s3://", b.as_str(), "/", self.current_prefix.as_str(), "/");
                    assert(paths_view(self.selected_keys@) =~= Seq::<Seq<char>>::empty());
                    let parent = copy_str(self.current_prefix.as_str());
                    Some((b, parent))
                }
            },
            Panel::Preview => {
                self.current_panel = Panel::Objects;
                None
            },
            _ => None,
        }
    }

    /// Enter `mode` with `initial` in the input buffer.
    pub fn start_input(&mut self, mode: InputMode, initial: &str)
        ensures
            *final(self) == (AppState { input_mode: mode, input_buffer: final(self).input_buffer, ..*old(self) }),
            final(self).input_buffer@ == initial@,
    {
        self.input_mode = mode;
        self.input_buffer = copy_str(initial);
    }

    /// Leave the input mode: empty buffer, nothing pending.
    pub fn cancel_input(&mut self)
        ensures
            *final(self) == (AppState {
                input_mode: InputMode::Normal,
                input_buffer: final(self).input_buffer,
                pending_action: PendingAction::Idle,
                ..*old(self)
            }),
            final(self).input_buffer@.len() == 0,
    {
        self.input_mode = InputMode::Normal;
        clear_string(&mut self.input_buffer);
        self.pending_action = PendingAction::Idle;
    }

    /// Move the marked files from the picker into the metadata editor.
    pub fn start_metadata(&mut self, paths: Vec<String>)
        ensures
            *final(self) == (AppState {
                metadata_editor: final(self).metadata_editor,
                input_mode: InputMode::Metadata,
                input_buffer: final(self).input_buffer,
                pending_action: PendingAction::Idle,
                ..*old(self)
            }),
            final(self).input_buffer@.len() == 0,
            final(self).metadata_editor.files_v() == paths@.map_values(
                |p: String| (p@, Seq::<(Seq<char>, Seq<char>)>::empty()),
            ),
            final(self).metadata_editor.selected == 0,
            final(self).metadata_editor.row == 0,
            final(self).metadata_editor.field == crate::metadata::MetadataField::Key,
            final(self).metadata_editor.storage_class == StorageClass::Standard,
            final(self).metadata_editor.storage_class_index == 0,
    {
        self.metadata_editor = MetadataEditor::from_paths(paths);
        self.input_mode = InputMode::Metadata;
        clear_string(&mut self.input_buffer);
        self.pending_action = PendingAction::Idle;
    }

    /// Toggle multi-selection of the object under the cursor (files only).
    pub fn toggle_select_current(&mut self)
        requires
            old(self).wf(),
        ensures
            final(self).wf(),
            toggle_select_post(*old(self), *final(self)),
    {
        if self.current_panel != Panel::Objects {
            return;
        }
        let key = match self.selected_object() {
            Some(o) => {
                if o.is_folder {
                    return;
                }
                o.key.clone()
            },
            None => {
                return;
            },
        };
        let ghost before = paths_view(self.selected_keys@);
        let mut i: usize = 0;
        while i < self.selected_keys.len()
            invariant
                *self == *old(self),
                old(self).wf(),
                old(self).current_panel == Panel::Objects,
                old(self).selected_spec() matches Some(j) && key == old(self).objects@[j].key
                    && !old(self).objects@[j].is_folder,
                i <= self.selected_keys@.len(),
                before == paths_view(self.selected_keys@),
                before.no_duplicates(),
                forall|k: int| 0 <= k < i ==> before[k] != key@,
            decreases self.selected_keys.len() - i,
        {
            if same_text(self.selected_keys[i].as_str(), key.as_str()) {
                proof {
                    assert(before[i as int] == key@);
                    assert(before.contains(key@));
                    before.index_of_first_ensures(key@);
                    assert(before.index_of_first(key@) == Some(i as int));
                    assert(before.remove_value(key@) == before.remove(i as int));
                }
                self.selected_keys.remove(i);
                proof {
                    assert(paths_view(self.selected_keys@) =~= before.remove(i as int));
                    assert forall|a: int, b: int|
                        0 <= a < b < paths_view(self.selected_keys@).len() implies paths_view(self.selected_keys@)[a]
                        != paths_view(self.selected_keys@)[b] by {
                        let pa = if a < i {
                            a
                        } else {
                            a + 1
                        };
                        let pb = if b < i {
                            b
                        } else {
                            b + 1
                        };
                        assert(before[pa] != before[pb]);
                    }
                }
                return;
            }
            i += 1;
        }
        proof {
            if before.contains(key@) {
                let k = choose|k: int| 0 <= k < before.len() && before[k] == key@;
                assert(before[k] != key@);
            }
        }
        let ghost k = key@;
        self.selected_keys.push(key);
        proof {
            assert(paths_view(self.selected_keys@) =~= before.push(k));
            assert forall|a: int, b: int|
                0 <= a < b < paths_view(self.selected_keys@).len() implies paths_view(self.selected_keys@)[a]
                != paths_view(self.selected_keys@)[b] by {
                if b == before.len() {
                    assert(before[a] != k);
                }
            }
        }
    }

    /// Select every visible non-folder object (on the object panel).
    pub fn select_all_visible(&mut self)
        requires
            old(self).wf(),
        ensures
            final(self).wf(),
            select_all_post(*old(self), *final(self)),
    {
        if self.current_panel != Panel::Objects {
            return;
        }
        let visible = self.visible_indices();
        proof {
            self.lemma_visible_in_range();
        }
        let ghost start = paths_view(self.selected_keys@);
        let ghost s0 = *self;
        let mut k: usize = 0;
        while k < visible.len()
            invariant
                k <= visible@.len(),
                positions(visible@) == s0.visible_spec(),
                forall|j: int| 0 <= j < s0.visible_spec().len() ==> 0 <= #[trigger] s0.visible_spec()[j] < s0.objects@.len(),
                *self == (AppState { selected_keys: self.selected_keys, ..s0 }),
                paths_view(self.selected_keys@) == s0.add_visible_keys(start, k as nat),
                paths_view(self.selected_keys@).no_duplicates(),
                s0.wf(),
            decreases visible.len() - k,
        {
            let idx = visible[k];
            assert(positions(visible@)[k as int] == idx as int);
            if !self.objects[idx].is_folder {
                let mut present = false;
                let mut j: usize = 0;
                while j < self.selected_keys.len()
                    invariant
                        j <= self.selected_keys@.len(),
                        idx < self.objects@.len(),
                        present == paths_view(self.selected_keys@).subrange(0, j as int).contains(
                            self.objects@[idx as int].key@,
                        ),
                    decreases self.selected_keys.len() - j,
                {
                    if same_text(self.selected_keys[j].as_str(), self.objects[idx].key.as_str()) {
                        present = true;
                    }
                    proof {
                        let s = paths_view(self.selected_keys@);
                        assert(s.subrange(0, j + 1) =~= s.subrange(0, j as int).push(s[j as int]));
                        lemma_contains_push(s.subrange(0, j as int), s[j as int], self.objects@[idx as int].key@);
                    }
                    j += 1;
                }
                proof {
                    assert(paths_view(self.selected_keys@).subrange(0, j as int) =~= paths_view(self.selected_keys@));
                }
                if !present {
                    let key = self.objects[idx].key.clone();
                    let ghost prev = paths_view(self.selected_keys@);
                    self.selected_keys.push(key);
                    proof {
                        assert(paths_view(self.selected_keys@) =~= prev.push(key@));
                        assert forall|a: int, b: int|
                            0 <= a < b < paths_view(self.selected_keys@).len() implies paths_view(self.selected_keys@)[a]
                            != paths_view(self.selected_keys@)[b] by {
                            if b == prev.len() {
                                assert(prev.contains(prev[a]));
                            }
                        }
                    }
                }
            }
            k += 1;
        }
    }

    /// Keys of the visible objects marked for a batch operation, in visible order.
    pub fn selected_keys_in_visible(&self) -> (r: Vec<String>)
        ensures
            r@ == self.marked_visible(self.visible_spec().len()),
    {
        let visible = self.visible_indices();
        proof {
            self.lemma_visible_in_range();
        }
        let mut r: Vec<String> = Vec::new();
        let mut k: usize = 0;
        while k < visible.len()
            invariant
                k <= visible@.len(),
                positions(visible@) == self.visible_spec(),
                forall|j: int| 0 <= j < self.visible_spec().len() ==> 0 <= #[trigger] self.visible_spec()[j] < self.objects@.len(),
                r@ == self.marked_visible(k as nat),
            decreases visible.len() - k,
        {
            let idx = visible[k];
            assert(positions(visible@)[k as int] == idx as int);
            let o = &self.objects[idx];
            if !o.is_folder {
                let mut present = false;
                let mut j: usize = 0;
                while j < self.selected_keys.len()
                    invariant
                        j <= self.selected_keys@.len(),
                        present == paths_view(self.selected_keys@).subrange(0, j as int).contains(o.key@),
                    decreases self.selected_keys.len() - j,
                {
                    if same_text(self.selected_keys[j].as_str(), o.key.as_str()) {
                        present = true;
                    }
                    proof {
                        let s = paths_view(self.selected_keys@);
                        assert(s.subrange(0, j + 1) =~= s.subrange(0, j as int).push(s[j as int]));
                        lemma_contains_push(s.subrange(0, j as int), s[j as int], o.key@);
                    }
                    j += 1;
                }
                proof {
                    assert(paths_view(self.selected_keys@).subrange(0, j as int) =~= paths_view(self.selected_keys@));
                }
                if present {
                    r.push(o.key.clone());
                }
            }
            k += 1;
        }
        r
    }

    /// Drop the whole multi-selection.
    pub fn clear_selection(&mut self)
        ensures
            *final(self) == (AppState { selected_keys: final(self).selected_keys, ..*old(self) }),
            final(self).selected_keys@.len() == 0,
            old(self).wf() ==> final(self).wf(),
    {
        self.selected_keys.clear();
        assert(paths_view(self.selected_keys@) =~= Seq::<Seq<char>>::empty());
    }
}

/// Result of opening the bucket under the cursor.
pub open spec fn enter_bucket_post(old: AppState, new: AppState, r: Option<String>) -> bool {
            if old.current_panel == Panel::Buckets && old.selected_index < old.buckets@.len() {
                let name = old.buckets@[old.selected_index as int].name;
                &&& r == Some(name)
                &&& new == (AppState {
                    current_bucket: Some(name),
                    current_prefix: new.current_prefix,
                    objects: new.objects,
                    selected_index: 0,
                    selected_keys: new.selected_keys,
                    current_panel: Panel::Objects,
                    status_message: new.status_message,
                    ..old
                })
                &&& new.current_prefix@.len() == 0
                &&& new.objects@.len() == 0
                &&& new.selected_keys@.len() == 0
                &&& new.status_message@ == "Viendo s3://"@ + name@ + "/"@
            } else {
                r is None && new == old
            }
}

/// Result of opening the folder under the cursor.
pub open spec fn enter_folder_post(old: AppState, new: AppState, r: Option<String>) -> bool {
            ({
                let s = old;
                if s.current_panel == Panel::Objects && s.selected_spec() is Some && s.objects@[s.selected_spec()->0].is_folder {
                    let key = s.objects@[s.selected_spec()->0].key;
                    &&& r == Some(key)
                    &&& new == (AppState {
                        current_prefix: key,
                        objects: new.objects,
                        selected_index: 0,
                        selected_keys: new.selected_keys,
                        status_message: new.status_message,
                        ..s
                    })
                    &&& new.objects@.len() == 0
                    &&& new.selected_keys@.len() == 0
                    &&& new.status_message@ == folder_status(s.current_bucket, key@)
                } else {
                    r is None && new == s
                }
            })
}

/// Result of going back one level.
pub open spec fn go_back_post(old: AppState, new: AppState, r: Option<(String, String)>) -> bool {
            ({
                let s = old;
                match s.current_panel {
                    Panel::Objects => if s.current_prefix@.len() == 0 {
                        &&& r is None
                        &&& new == (AppState {
                            current_panel: Panel::Buckets,
                            current_bucket: None,
                            objects: new.objects,
                            selected_index: 0,
                            selected_keys: new.selected_keys,
                            status_message: new.status_message,
                            ..s
                        })
                        &&& new.objects@.len() == 0
                        &&& new.selected_keys@.len() == 0
                        &&& new.status_message@ == "Presioná ? para la ayuda"@
                    } else {
                        let p = parent_prefix(s.current_prefix@);
                        &&& r matches Some((b, parent)) && parent@ == p && b@
                            == match s.current_bucket {
                            Some(b) => b@,
                            None => Seq::<char>::empty(),
                        }
                        &&& new == (AppState {
                            current_prefix: new.current_prefix,
                            objects: new.objects,
                            selected_index: 0,
                            selected_keys: new.selected_keys,
                            status_message: new.status_message,
                            ..s
                        })
                        &&& new.current_prefix@ == p
                        &&& new.objects@.len() == 0
                        &&& new.selected_keys@.len() == 0
                        &&& new.status_message@ == folder_status(s.current_bucket, p)
                    },
                    Panel::Preview => r is None && new == (AppState { current_panel: Panel::Objects, ..s }),
                    Panel::Buckets => r is None && new == s,
                }
            })
}

/// Result of toggling the object under the cursor in the multi-selection.
pub open spec fn toggle_select_post(old: AppState, new: AppState) -> bool {
            &&& new == (AppState { selected_keys: new.selected_keys, ..old })
            &&& ({
                let s = old;
                let before = paths_view(s.selected_keys@);
                let after = paths_view(new.selected_keys@);
                if s.current_panel == Panel::Objects && s.selected_spec() is Some && !s.objects@[s.selected_spec()->0].is_folder {
                    let k = s.objects@[s.selected_spec()->0].key@;
                    if before.contains(k) {
                        after == before.remove_value(k)
                    } else {
                        after == before.push(k)
                    }
                } else {
                    after == before
                }
            })
}

/// Result of selecting every visible non-folder object.
pub open spec fn select_all_post(old: AppState, new: AppState) -> bool {
            &&& new == (AppState { selected_keys: new.selected_keys, ..old })
            &&& old.current_panel == Panel::Objects ==> paths_view(new.selected_keys@)
                == old.add_visible_keys(paths_view(old.selected_keys@), old.visible_spec().len())
            &&& old.current_panel != Panel::Objects ==> new.selected_keys == old.selected_keys
}

/// Law: toggling the object under the cursor twice gives back the same set of
/// selected keys (in the same order when it was not selected), and changes
/// nothing else.
pub proof fn lemma_toggle_select_twice(s: AppState, mid: AppState, end: AppState)
    requires
        s.wf(),
        toggle_select_post(s, mid),
        toggle_select_post(mid, end),
    ensures
        end == (AppState { selected_keys: end.selected_keys, ..s }),
        paths_view(end.selected_keys@).to_set() == paths_view(s.selected_keys@).to_set(),
        s.current_panel == Panel::Objects && s.selected_spec() is Some && !s.objects@[s.selected_spec()->0].is_folder
            && !paths_view(s.selected_keys@).contains(s.objects@[s.selected_spec()->0].key@)
            ==> paths_view(end.selected_keys@) == paths_view(s.selected_keys@),
{
    assert(mid.visible_spec() == s.visible_spec());
    assert(mid.selected_spec() == s.selected_spec());
    if s.current_panel == Panel::Objects && s.selected_spec() is Some && !s.objects@[s.selected_spec()->0].is_folder {
        lemma_toggle_seq_twice(paths_view(s.selected_keys@), s.objects@[s.selected_spec()->0].key@);
    }
}

proof fn lemma_matching_contains(objects: Seq<ObjectInfo>, prefix: Seq<char>, filter: Seq<char>, n: nat, i: int)
    requires
        0 <= i < n <= objects.len(),
        object_matches(objects[i], prefix, filter),
    ensures
        matching_objects(objects, prefix, filter, n).contains(i),
    decreases n,
{
    let prev = matching_objects(objects, prefix, filter, (n - 1) as nat);
    if i == n - 1 {
        assert(matching_objects(objects, prefix, filter, n) == prev.push(i));
        assert(prev.push(i)[prev.len() as int] == i);
    } else {
        lemma_matching_contains(objects, prefix, filter, (n - 1) as nat, i);
        let k = choose|k: int| 0 <= k < prev.len() && prev[k] == i;
        lemma_contains_push(prev, n - 1, i);
    }
}

/// Law: the filter shows every object whose lowercased name below the folder,
/// or whose lowercased key, holds the lowercased filter text anywhere.
pub proof fn lemma_filter_shows_containing(s: AppState, i: int)
    requires
        0 <= i < s.objects@.len(),
        (exists|k: int| occurs_at(lower_str_spec(strip_or_keep(s.objects@[i].key@, s.current_prefix@)), lower_str_spec(s.filter@), k))
            || (exists|k: int| occurs_at(lower_str_spec(s.objects@[i].key@), lower_str_spec(s.filter@), k)),
    ensures
        s.visible_spec().contains(i),
{
    if s.filter@.len() == 0 {
        assert(s.visible_spec()[i] == i);
    } else {
        lemma_matching_contains(s.objects@, s.current_prefix@, s.filter@, s.objects@.len(), i);
    }
}

impl Default for AppState {
    fn default() -> (s: Self)
        ensures
            s.wf(),
            s.current_panel == Panel::Buckets,
            s.status_message@ == "Presioná ? para la ayuda"@,
    {
        Self::new()
    }
}

} // verus!
