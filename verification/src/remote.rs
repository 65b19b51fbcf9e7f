//! What the S3 service answers, turned into the browser's listings, bucket
//! list and object details, and where transfers read and write.
//!
//! The service calls themselves are made by the caller; it hands over the
//! plain fields of each answer (timestamps as seconds and nanoseconds, storage
//! classes by their S3 name).
use vstd::prelude::*;
use crate::app::{BucketInfo, ObjectInfo, ObjectDetail};
use crate::storage::StorageClass;
use crate::text::{
    chars_of, copy_str, copy_opt, is_empty_str, concat2, concat3, same_text, strip_prefix_or_keep, strip_or_keep,
    trim_end_char, trim_end_spec, path_file_name, file_name_spec, precedes, seq_less,
    lemma_seq_less_trichotomy, lemma_seq_less_transitive, lemma_seq_less_irreflexive,
};
use crate::timefmt::{stamp, stamp_spec};
use crate::cli::ResolvedSettings;
use crate::config::{StaticCredentials, opt_view, non_empty};

verus! {

broadcast use vstd::string::group_string_axioms, vstd::seq_lib::group_to_multiset_ensures;

/// A bucket as the service lists it.
#[derive(Debug)]
pub struct RemoteBucket {
    pub name: Option<String>,
    /// Seconds and nanoseconds since the epoch.
    pub creation_date: Option<(i64, u32)>,
}

/// An object as the service lists it.
#[derive(Debug)]
pub struct RemoteObject {
    pub key: Option<String>,
    pub size: Option<i64>,
    /// Seconds and nanoseconds since the epoch.
    pub last_modified: Option<(i64, u32)>,
    /// The S3 name of the storage class.
    pub storage_class: Option<String>,
}

/// What the service answers about one object.
#[derive(Debug)]
pub struct HeadInfo {
    pub content_length: Option<i64>,
    /// Seconds and nanoseconds since the epoch.
    pub last_modified: Option<(i64, u32)>,
    /// The S3 name of the storage class.
    pub storage_class: Option<String>,
    pub etag: Option<String>,
    pub content_type: Option<String>,
    /// User metadata, in any order.
    pub metadata: Vec<(String, String)>,
}

// ---------------------------------------------------------------------
// Specifications
// ---------------------------------------------------------------------
/// The prefix a folder is listed with: empty, or ending in `/`.
pub open spec fn full_prefix_spec(p: Seq<char>) -> Seq<char> {
    if p.len() == 0 || p.last() == '/' {
        p
    } else {
        p + "/"@
    }
}

/// The storage class with S3 name `name`, or an unknown class of that name.
pub open spec fn class_named(name: String) -> StorageClass {
    let n = name@;
    if n == "STANDARD"@ {
        StorageClass::Standard
    } else if n == "REDUCED_REDUNDANCY"@ {
        StorageClass::ReducedRedundancy
    } else if n == "INTELLIGENT_TIERING"@ {
        StorageClass::IntelligentTiering
    } else if n == "GLACIER"@ {
        StorageClass::Glacier
    } else if n == "GLACIER_IR"@ {
        StorageClass::GlacierIr
    } else if n == "STANDARD_IA"@ {
        StorageClass::StandardIa
    } else if n == "ONEZONE_IA"@ {
        StorageClass::OneZoneIa
    } else if n == "EXPRESS_ONEZONE"@ {
        StorageClass::ExpressOnezone
    } else if n == "OUTPOSTS"@ {
        StorageClass::Outposts
    } else if n == "DEEP_ARCHIVE"@ {
        StorageClass::DeepArchive
    } else if n == "SNOW"@ {
        StorageClass::Snow
    } else {
        StorageClass::Unknown(name)
    }
}

/// The class of an answer: its named class, `STANDARD` when none is given.
pub open spec fn class_or_standard(name: Option<String>) -> StorageClass {
    match name {
        Some(n) => class_named(n),
        None => StorageClass::Standard,
    }
}

/// A listed size, read as unsigned.
pub open spec fn size_spec(s: Option<i64>) -> Option<u64> {
    match s {
        Some(v) => Some(v as u64),
        None => None,
    }
}

/// The folder entry for a common prefix `path`.
pub open spec fn folder_object(path: String) -> ObjectInfo {
    ObjectInfo { key: path, size: None, last_modified: None, is_folder: true, storage_class: StorageClass::Folder }
}

/// The file entry for a listed object with key `key`.
pub open spec fn file_object(o: RemoteObject, key: String) -> ObjectInfo {
    ObjectInfo {
        key,
        size: size_spec(o.size),
        last_modified: stamp_spec(o.last_modified),
        is_folder: false,
        storage_class: class_or_standard(o.storage_class),
    }
}

/// Folder entries of a listing under `full`: each common prefix whose name
/// below `full` is not empty once trailing slashes are dropped, in order.
pub open spec fn folder_entries(full: Seq<char>, paths: Seq<Option<String>>) -> Seq<ObjectInfo>
    decreases paths.len(),
{
    if paths.len() == 0 {
        Seq::empty()
    } else {
        let prev = folder_entries(full, paths.drop_last());
        match paths.last() {
            Some(p) => if trim_end_spec(strip_or_keep(p@, full), '/').len() > 0 {
                prev.push(folder_object(p))
            } else {
                prev
            },
            None => prev,
        }
    }
}

/// File entries of a listing under `full`: each object with a key other than
/// `full` itself whose name below `full` is not empty, in order.
pub open spec fn file_entries(full: Seq<char>, objects: Seq<RemoteObject>) -> Seq<ObjectInfo>
    decreases objects.len(),
{
    if objects.len() == 0 {
        Seq::empty()
    } else {
        let prev = file_entries(full, objects.drop_last());
        let o = objects.last();
        match o.key {
            Some(k) => if k@ != full && strip_or_keep(k@, full).len() > 0 {
                prev.push(file_object(o, k))
            } else {
                prev
            },
            None => prev,
        }
    }
}

/// Metadata ordered by key (code point order); equal keys in any order.
pub open spec fn metadata_sorted(m: Seq<(String, String)>) -> bool {
    forall|a: int, b: int| 0 <= a < b < m.len() ==> !seq_less(#[trigger] m[b].0@, #[trigger] m[a].0@)
}

/// The name an upload takes in the bucket: the local file's name, or `upload`
/// when the path has none.
pub open spec fn upload_name(local: Seq<char>) -> Seq<char> {
    match file_name_spec(local) {
        Some(n) => n,
        None => "upload"@,
    }
}

/// Where a download of `key` into `dest_dir` is written: the directory without
/// trailing slashes, `/`, and the key's file name (`download` when it has none).
pub open spec fn download_path(dest_dir: Seq<char>, key: Seq<char>) -> Seq<char> {
    let name = match file_name_spec(key) {
        Some(n) => n,
        None => "download"@,
    };
    trim_end_spec(dest_dir, '/') + "/"@ + name
}

// ---------------------------------------------------------------------
// Operations
// ---------------------------------------------------------------------
/// The prefix a folder is listed with: `prefix`, with a `/` added unless it is
/// empty or already ends with one.
pub fn full_prefix(prefix: &str) -> (r: String)
    ensures
        r@ == full_prefix_spec(prefix@),
{
    let chars = chars_of(prefix);
    if chars.len() == 0 || chars[chars.len() - 1] == '/' {
        copy_str(prefix)
    } else {
        concat2(prefix, "/")
    }
}

/// The storage class with S3 name `name`.
pub fn storage_class_named(name: String) -> (r: StorageClass)
    ensures
        r == class_named(name),
{
    let s = name.as_str();
    if same_text(s, "STANDARD") {
        StorageClass::Standard
    } else if same_text(s, "REDUCED_REDUNDANCY") {
        StorageClass::ReducedRedundancy
    } else if same_text(s, "INTELLIGENT_TIERING") {
        StorageClass::IntelligentTiering
    } else if same_text(s, "GLACIER") {
        StorageClass::Glacier
    } else if same_text(s, "GLACIER_IR") {
        StorageClass::GlacierIr
    } else if same_text(s, "STANDARD_IA") {
        StorageClass::StandardIa
    } else if same_text(s, "ONEZONE_IA") {
        StorageClass::OneZoneIa
    } else if same_text(s, "EXPRESS_ONEZONE") {
        StorageClass::ExpressOnezone
    } else if same_text(s, "OUTPOSTS") {
        StorageClass::Outposts
    } else if same_text(s, "DEEP_ARCHIVE") {
        StorageClass::DeepArchive
    } else if same_text(s, "SNOW") {
        StorageClass::Snow
    } else {
        StorageClass::Unknown(name)
    }
}

fn class_or_default(name: Option<String>) -> (r: StorageClass)
    ensures
        r == class_or_standard(name),
{
    match name {
        Some(n) => storage_class_named(n),
        None => StorageClass::Standard,
    }
}

fn listed_size(s: Option<i64>) -> (r: Option<u64>)
    ensures
        r == size_spec(s),
{
    match s {
        Some(v) => Some(v as u64),
        None => None,
    }
}

/// The listing of folder `prefix`: first its sub-folders (common prefixes),
/// then its objects, each in the order the service gave them; entries with an
/// empty name below the folder, and the folder's own marker object, are left
/// out. Objects without a class are `STANDARD`.
pub fn build_listing(prefix: &str, folders: Vec<Option<String>>, objects: Vec<RemoteObject>) -> (r: Vec<ObjectInfo>)
    ensures
        r@ == folder_entries(full_prefix_spec(prefix@), folders@) + file_entries(full_prefix_spec(prefix@), objects@),
{
    let full = full_prefix(prefix);
    let ghost fp = full@;
    let mut out: Vec<ObjectInfo> = Vec::new();
    let ghost fs = folders@;
    let mut i: usize = 0;
    while i < folders.len()
        invariant
            i <= fs.len(),
            folders@ == fs,
            out@ == folder_entries(fp, fs.take(i as int)),
            full@ == fp,
        decreases fs.len() - i,
    {
        assert(fs.take(i + 1).drop_last() =~= fs.take(i as int));
        match &folders[i] {
            Some(p) => {
                let path = p.clone();
                let below = strip_prefix_or_keep(path.as_str(), full.as_str());
                let name = trim_end_char(below.as_str(), '/');
                if !is_empty_str(name.as_str()) {
                    out.push(ObjectInfo {
                        key: path,
                        size: None,
                        last_modified: None,
                        is_folder: true,
                        storage_class: StorageClass::Folder,
                    });
                }
            },
            None => {},
        }
        i += 1;
    }
    assert(fs.take(fs.len() as int) =~= fs);
    let ghost os = objects@;
    let mut files: Vec<ObjectInfo> = Vec::new();
    let mut j: usize = 0;
    while j < objects.len()
        invariant
            j <= os.len(),
            objects@ == os,
            files@ == file_entries(fp, os.take(j as int)),
            full@ == fp,
        decreases os.len() - j,
    {
        assert(os.take(j + 1).drop_last() =~= os.take(j as int));
        let o = &objects[j];
        match &o.key {
            Some(k) => {
                let key = k.clone();
                let at_marker = same_text(key.as_str(), full.as_str());
                let below = strip_prefix_or_keep(key.as_str(), full.as_str());
                if !at_marker && !is_empty_str(below.as_str()) {
                    let entry = ObjectInfo {
                        key,
                        size: listed_size(o.size),
                        last_modified: stamp(o.last_modified),
                        is_folder: false,
                        storage_class: class_or_default(copy_opt(&o.storage_class)),
                    };
                    files.push(entry);
                }
            },
            None => {},
        }
        j += 1;
    }
    assert(os.take(os.len() as int) =~= os);
    out.append(&mut files);
    out
}

/// The bucket list: each bucket's name (`unknown` when it has none) and its
/// creation date when `chrono` can hold it, in the order given.
pub fn bucket_infos(buckets: Vec<RemoteBucket>) -> (r: Vec<BucketInfo>)
    ensures
        r@.len() == buckets@.len(),
        forall|i: int| 0 <= i < r@.len() ==> {
            &&& (#[trigger] r@[i]).name@ == match buckets@[i].name {
                Some(n) => n@,
                None => "unknown"@,
            }
            &&& r@[i].creation_date == stamp_spec(buckets@[i].creation_date)
        },
{
    let ghost bs = buckets@;
    let mut out: Vec<BucketInfo> = Vec::new();
    let mut i: usize = 0;
    while i < buckets.len()
        invariant
            i <= bs.len(),
            buckets@ == bs,
            out@.len() == i,
            forall|k: int| 0 <= k < i ==> {
                &&& (#[trigger] out@[k]).name@ == match bs[k].name {
                    Some(n) => n@,
                    None => "unknown"@,
                }
                &&& out@[k].creation_date == stamp_spec(bs[k].creation_date)
            },
        decreases bs.len() - i,
    {
        let name = match &buckets[i].name {
            Some(n) => n.clone(),
            None => "unknown".to_string(),
        };
        let creation_date = stamp(buckets[i].creation_date);
        out.push(BucketInfo { name, creation_date });
        i += 1;
    }
    out
}

/// `m` ordered by key.
pub fn sort_metadata(m: Vec<(String, String)>) -> (r: Vec<(String, String)>)
    ensures
        r@.to_multiset() == m@.to_multiset(),
        metadata_sorted(r@),
{
    let ghost orig = m@;
    let mut rest = m;
    let mut sorted: Vec<(String, String)> = Vec::new();
    while rest.len() > 0
        invariant
            rest@ == orig.take(rest@.len() as int),
            rest@.len() <= orig.len(),
            sorted@.to_multiset().add(rest@.to_multiset()) == orig.to_multiset(),
            metadata_sorted(sorted@),
        decreases rest@.len(),
    {
        let ghost old_rest = rest@;
        let x = rest.pop().unwrap();
        assert(old_rest =~= rest@.push(x));
        assert(rest@ =~= orig.take(rest@.len() as int));
        let xk = chars_of(x.0.as_str());
        let mut pos: usize = 0;
        while pos < sorted.len() && !precedes(&xk, &chars_of(sorted[pos].0.as_str()))
            invariant
                pos <= sorted@.len(),
                xk@ == x.0@,
                forall|i: int| 0 <= i < pos ==> !seq_less(x.0@, #[trigger] sorted@[i].0@),
            decreases sorted@.len() - pos,
        {
            pos += 1;
        }
        proof {
            if pos < sorted@.len() {
                assert(seq_less(x.0@, sorted@[pos as int].0@));
                assert forall|k: int| pos <= k < sorted@.len() implies !seq_less(#[trigger] sorted@[k].0@, x.0@) by {
                    lemma_seq_less_trichotomy(x.0@, sorted@[k].0@);
                    if k > pos {
                        assert(!seq_less(sorted@[k].0@, sorted@[pos as int].0@));
                        lemma_seq_less_trichotomy(sorted@[k].0@, sorted@[pos as int].0@);
                        if sorted@[k].0@ != sorted@[pos as int].0@ {
                            lemma_seq_less_transitive(x.0@, sorted@[pos as int].0@, sorted@[k].0@);
                        }
                    }
                }
            }
            lemma_pairs_insert_at(sorted@, pos as int, x);
        }
        let ghost old_sorted = sorted@;
        sorted.insert(pos, x);
        assert(sorted@ =~= old_sorted.insert(pos as int, x));
        assert forall|a: int, b: int| 0 <= a < b < sorted@.len() implies !seq_less(#[trigger] sorted@[b].0@, #[trigger] sorted@[a].0@) by {
            if b < pos {
                assert(sorted@[a] == old_sorted[a] && sorted@[b] == old_sorted[b]);
            } else if b == pos {
                assert(sorted@[a] == old_sorted[a]);
                lemma_seq_less_trichotomy(x.0@, sorted@[a].0@);
                lemma_seq_less_irreflexive(x.0@);
            } else if a < pos {
                assert(sorted@[a] == old_sorted[a] && sorted@[b] == old_sorted[b - 1]);
                lemma_seq_less_trichotomy(sorted@[b].0@, x.0@);
                lemma_seq_less_trichotomy(x.0@, sorted@[a].0@);
                if seq_less(sorted@[b].0@, sorted@[a].0@) {
                    if sorted@[b].0@ == x.0@ {
                    } else {
                        if x.0@ == sorted@[a].0@ {
                        } else {
                            lemma_seq_less_transitive(x.0@, sorted@[b].0@, sorted@[a].0@);
                        }
                    }
                }
            } else if a == pos {
                assert(sorted@[b] == old_sorted[b - 1]);
            } else {
                assert(sorted@[a] == old_sorted[a - 1] && sorted@[b] == old_sorted[b - 1]);
            }
        }
        assert(sorted@.to_multiset().add(rest@.to_multiset()) =~= orig.to_multiset());
    }
    assert(rest@ =~= Seq::<(String, String)>::empty());
    assert(sorted@.to_multiset() =~= orig.to_multiset());
    sorted
}

proof fn lemma_pairs_insert_at(s: Seq<(String, String)>, pos: int, x: (String, String))
    requires
        0 <= pos <= s.len(),
    ensures
        s.insert(pos, x).to_multiset() =~= s.to_multiset().insert(x),
{
    let t = s.insert(pos, x);
    assert(t.remove(pos) =~= s);
    assert(t[pos] == x);
    assert(t.remove(pos).to_multiset() =~= t.to_multiset().remove(x));
    assert(t.contains(x));
}

/// The details of object `key` of `bucket` from the service's answer: sizes
/// read as unsigned, the date when `chrono` can hold it, `STANDARD` when no
/// class is given, and the metadata ordered by key.
pub fn object_detail(bucket: &str, key: &str, head: HeadInfo) -> (d: ObjectDetail)
    ensures
        d.bucket@ == bucket@,
        d.key@ == key@,
        d.size == size_spec(head.content_length),
        d.content_length == size_spec(head.content_length),
        d.last_modified == stamp_spec(head.last_modified),
        d.storage_class == class_or_standard(head.storage_class),
        d.etag == head.etag,
        d.content_type == head.content_type,
        d.metadata@.to_multiset() == head.metadata@.to_multiset(),
        metadata_sorted(d.metadata@),
{
    let HeadInfo { content_length, last_modified, storage_class, etag, content_type, metadata } = head;
    ObjectDetail {
        bucket: copy_str(bucket),
        key: copy_str(key),
        size: listed_size(content_length),
        last_modified: stamp(last_modified),
        storage_class: class_or_default(storage_class),
        etag,
        content_type,
        content_length: listed_size(content_length),
        metadata: sort_metadata(metadata),
    }
}

/// The key an upload of `local` into folder `prefix` is written under: the
/// prefix followed by the file's name (`upload` when the path has none).
pub fn upload_key(prefix: &str, local: &str) -> (r: String)
    ensures
        r@ == prefix@ + upload_name(local@),
{
    match path_file_name(local) {
        Some(n) => concat2(prefix, n.as_str()),
        None => concat2(prefix, "upload"),
    }
}

/// Where a download of `key` into `dest_dir` is written (see [`download_path`]).
pub fn download_destination(dest_dir: &str, key: &str) -> (r: String)
    ensures
        r@ == download_path(dest_dir@, key@),
{
    let base = trim_end_char(dest_dir, '/');
    let name = match path_file_name(key) {
        Some(n) => n,
        None => "download".to_string(),
    };
    concat3(base.as_str(), "/", name.as_str())
}

/// How the S3 client is set up from resolved settings.
#[derive(Debug)]
pub struct ClientPlan {
    pub region: String,
    /// Named profile replacing the default credential chain's profile.
    pub profile: Option<String>,
    /// Endpoint URL of an S3-compatible service.
    pub endpoint: Option<String>,
    /// Path-style addressing, set only together with an endpoint.
    pub force_path_style: Option<bool>,
    /// Static access key, secret key and session token.
    pub credentials: Option<(String, String, Option<String>)>,
}

/// The static credentials the client is given: both keys when both are
/// present (whatever they hold), with the session token.
pub open spec fn plan_credentials(c: Option<StaticCredentials>) -> Option<(String, String, Option<String>)> {
    match c {
        Some(c) => match (c.access_key_id, c.secret_access_key) {
            (Some(a), Some(k)) => Some((a, k, c.session_token)),
            _ => None,
        },
        None => None,
    }
}

/// How the S3 client is set up: the region; the profile and the endpoint
/// unless empty; path-style addressing only with an endpoint; static
/// credentials when both keys are there.
pub fn client_plan(s: &ResolvedSettings) -> (p: ClientPlan)
    ensures
        p.region@ == s.region@,
        opt_view(p.profile) == non_empty(opt_view(s.profile)),
        opt_view(p.endpoint) == non_empty(opt_view(s.endpoint)),
        p.force_path_style == if p.endpoint is Some { Some(s.force_path_style) } else { None },
        p.credentials == plan_credentials(s.credentials),
{
    let profile = match &s.profile {
        Some(x) => if is_empty_str(x.as_str()) { None } else { Some(x.clone()) },
        None => None,
    };
    let endpoint = match &s.endpoint {
        Some(x) => if is_empty_str(x.as_str()) { None } else { Some(x.clone()) },
        None => None,
    };
    let force_path_style = match &endpoint {
        Some(_) => Some(s.force_path_style),
        None => None,
    };
    let credentials = match &s.credentials {
        Some(c) => match (&c.access_key_id, &c.secret_access_key) {
            (Some(a), Some(k)) => Some((a.clone(), k.clone(), copy_opt(&c.session_token))),
            _ => None,
        },
        None => None,
    };
    ClientPlan { region: copy_str(s.region.as_str()), profile, endpoint, force_path_style, credentials }
}

/// Local files of a batch upload into `bucket`/`prefix` that the report
/// lists as written, each with its key, in the order given.
pub open spec fn uploaded_spec(bucket: Seq<char>, prefix: Seq<char>, paths: Seq<String>, uploaded: Seq<String>) -> Seq<(Seq<char>, Seq<char>)>
    decreases paths.len(),
{
    if paths.len() == 0 {
        Seq::empty()
    } else {
        let prev = uploaded_spec(bucket, prefix, paths.drop_last(), uploaded);
        let p = paths.last()@;
        let key = prefix + upload_name(p);
        if exists|i: int| 0 <= i < uploaded.len() && (#[trigger] uploaded[i])@ == bucket + "/"@ + key {
            prev.push((p, key))
        } else {
            prev
        }
    }
}

/// The files of a batch upload that were written, with their keys, so the
/// cache can record them until the next listing.
pub fn uploaded_files(bucket: &str, prefix: &str, paths: &Vec<String>, uploaded: &Vec<String>) -> (r: Vec<(String, String)>)
    ensures
        r@.map_values(|e: (String, String)| (e.0@, e.1@)) == uploaded_spec(bucket@, prefix@, paths@, uploaded@),
{
    let mut out: Vec<(String, String)> = Vec::new();
    let mut i: usize = 0;
    while i < paths.len()
        invariant
            i <= paths@.len(),
            out@.map_values(|e: (String, String)| (e.0@, e.1@)) == uploaded_spec(bucket@, prefix@, paths@.take(i as int), uploaded@),
        decreases paths@.len() - i,
    {
        let key = upload_key(prefix, paths[i].as_str());
        let full = concat3(bucket, "/", key.as_str());
        let mut found = false;
        let mut j: usize = 0;
        while j < uploaded.len()
            invariant
                j <= uploaded@.len(),
                found == exists|m: int| 0 <= m < j && (#[trigger] uploaded@[m])@ == full@,
            decreases uploaded@.len() - j,
        {
            if same_text(uploaded[j].as_str(), full.as_str()) {
                found = true;
            }
            j += 1;
        }
        assert(paths@.take(i + 1).drop_last() =~= paths@.take(i as int));
        assert(paths@.take(i + 1).last() == paths@[i as int]);
        if found {
            let ghost before = out@;
            out.push((paths[i].clone(), key));
            assert(out@.map_values(|e: (String, String)| (e.0@, e.1@)) =~= before.map_values(
                |e: (String, String)| (e.0@, e.1@),
            ).push((paths@[i as int]@, prefix@ + upload_name(paths@[i as int]@))));
        }
        i += 1;
    }
    assert(paths@.take(paths@.len() as int) =~= paths@);
    out
}

/// Law: every listed object other than the folder's own marker, with a
/// non-empty name below the folder, is among the file entries under its key,
/// whatever its size or class.
pub proof fn lemma_listed_object_kept(full: Seq<char>, objects: Seq<RemoteObject>, j: int)
    requires
        0 <= j < objects.len(),
        objects[j].key is Some,
        objects[j].key->0@ != full,
        strip_or_keep(objects[j].key->0@, full).len() > 0,
    ensures
        exists|i: int|
            0 <= i < file_entries(full, objects).len() && (#[trigger] file_entries(full, objects)[i]).key
                == objects[j].key->0 && !file_entries(full, objects)[i].is_folder,
    decreases objects.len(),
{
    let prev = file_entries(full, objects.drop_last());
    let cur = file_entries(full, objects);
    if j == objects.len() - 1 {
        assert(cur == prev.push(file_object(objects[j], objects[j].key->0)));
        assert(cur[prev.len() as int].key == objects[j].key->0);
    } else {
        assert(objects.drop_last()[j] == objects[j]);
        lemma_listed_object_kept(full, objects.drop_last(), j);
        let i = choose|i: int|
            0 <= i < prev.len() && (#[trigger] prev[i]).key == objects[j].key->0 && !prev[i].is_folder;
        assert(cur[i] == prev[i]);
    }
}

/// Law: every file entry of a listing is an object the service listed, under
/// its key, other than the folder marker and with a non-empty name below it.
pub proof fn lemma_file_entry_listed(full: Seq<char>, objects: Seq<RemoteObject>, i: int)
    requires
        0 <= i < file_entries(full, objects).len(),
    ensures
        exists|j: int|
            0 <= j < objects.len() && (#[trigger] objects[j]).key == Some(file_entries(full, objects)[i].key)
                && objects[j].key->0@ != full && strip_or_keep(objects[j].key->0@, full).len() > 0,
    decreases objects.len(),
{
    let prev = file_entries(full, objects.drop_last());
    let cur = file_entries(full, objects);
    if i < prev.len() {
        assert(cur[i] == prev[i]);
        lemma_file_entry_listed(full, objects.drop_last(), i);
        let j = choose|j: int|
            0 <= j < objects.drop_last().len() && (#[trigger] objects.drop_last()[j]).key == Some(prev[i].key)
                && objects.drop_last()[j].key->0@ != full && strip_or_keep(objects.drop_last()[j].key->0@, full).len() > 0;
        assert(objects[j] == objects.drop_last()[j]);
    } else {
        let j = objects.len() - 1;
        assert(objects[j] == objects.last());
    }
}

} // verus!
