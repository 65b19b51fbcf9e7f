use s3_tui::app::ObjectInfo;
use s3_tui::cache::{cached_listing, cached_object, listings_match, needs_store, object_prefix, stale_keys, storage_column};
use s3_tui::storage::StorageClass;

fn object(key: &str, size: Option<u64>, modified: bool) -> ObjectInfo {
    ObjectInfo {
        key: key.to_string(),
        size,
        // 2026-01-02 03:04:05 UTC
        last_modified: if modified { Some(1_767_323_045) } else { None },
        is_folder: false,
        storage_class: StorageClass::Standard,
    }
}

#[test]
fn listings_match_is_order_and_content_aware() {
    let a = vec![object("x", Some(1), true), object("y", Some(2), true)];
    let b = vec![object("y", Some(2), true), object("x", Some(1), true)];
    assert!(listings_match(&a, &b));
    let mut changed = b.clone();
    changed[0].size = Some(99);
    assert!(!listings_match(&a, &changed));
}

#[test]
fn listings_of_different_length_or_time_differ() {
    let a = vec![object("x", Some(1), true)];
    assert!(!listings_match(&a, &vec![]));
    assert!(!listings_match(&a, &vec![object("x", Some(1), false)]));
    assert!(listings_match(&vec![], &vec![]));
}

#[test]
fn listings_match_counts_repeated_objects() {
    let x = object("x", Some(1), true);
    let y = object("y", Some(2), true);
    assert!(!listings_match(&vec![x.clone(), y.clone()], &vec![x.clone(), x.clone()]));
    assert!(!listings_match(&vec![x.clone(), x.clone()], &vec![x.clone(), y.clone()]));
    assert!(listings_match(&vec![x.clone(), y.clone(), x.clone()], &vec![y, x.clone(), x]));
}

#[test]
fn object_prefix_is_the_folder_of_the_key() {
    assert_eq!(object_prefix("dir/file.log"), "dir/");
    assert_eq!(object_prefix("a/b/c.txt"), "a/b/");
    assert_eq!(object_prefix("top.txt"), "");
    assert_eq!(object_prefix("folder/"), "folder/");
}

#[test]
fn stale_rows_are_those_missing_remotely() {
    let existing = vec!["a.txt".to_string(), "b.txt".to_string(), "c.txt".to_string()];
    let wanted = vec![object("b.txt", Some(2), false)];
    assert_eq!(stale_keys(&existing, &wanted), vec!["a.txt".to_string(), "c.txt".to_string()]);
    assert!(stale_keys(&existing, &vec![object("a.txt", None, false), object("b.txt", None, false), object("c.txt", None, false)]).is_empty());
}

#[test]
fn rows_read_back_into_entries() {
    let folder = cached_object("dir/".to_string(), None, None, true, String::new());
    assert!(folder.is_folder);
    assert_eq!(folder.storage_class, StorageClass::Folder);
    let file = cached_object("dir/f".to_string(), Some(10), Some(1_767_323_045), false, "STANDARD".to_string());
    assert_eq!(file.size, Some(10));
    assert_eq!(file.last_modified, Some(1_767_323_045));
    assert_eq!(file.storage_class, StorageClass::Unknown("STANDARD".to_string()));
    let far = cached_object("x".to_string(), None, Some(i64::MAX), false, String::new());
    assert_eq!(far.last_modified, None, "out of chrono's range");
}

#[test]
fn storage_column_is_empty_for_folders() {
    assert_eq!(storage_column(&StorageClass::Folder), "");
    assert_eq!(storage_column(&StorageClass::GlacierIr), "GLACIER_IR");
    assert_eq!(storage_column(&StorageClass::Unknown("X".to_string())), "X");
}

#[test]
fn empty_cached_listing_is_none_and_sync_skips_identical() {
    assert!(cached_listing(vec![]).is_none());
    let rows = vec![object("a.txt", Some(1), true)];
    assert_eq!(cached_listing(rows.clone()).unwrap().len(), 1);
    assert!(!needs_store(&Some(rows.clone()), &rows));
    assert!(needs_store(&Some(rows.clone()), &vec![object("b.txt", Some(2), true)]));
    assert!(needs_store(&None, &rows));
}
