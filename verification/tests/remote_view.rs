use s3_tui::app::{AppState, BucketInfo, ObjectDetail, ObjectInfo, Panel};
use s3_tui::remote::{
    bucket_infos, build_listing, download_destination, full_prefix, object_detail, sort_metadata,
    storage_class_named, upload_key, HeadInfo, RemoteBucket, RemoteObject,
};
use s3_tui::storage::{StorageClass, Tint};
use s3_tui::timefmt::stamp;
use s3_tui::view::{detail_lines, entry_name, object_row, Emphasis};

fn remote(key: &str, size: i64, class: Option<&str>) -> RemoteObject {
    RemoteObject {
        key: Some(key.to_string()),
        size: Some(size),
        last_modified: Some((1_767_323_045, 500)),
        storage_class: class.map(str::to_string),
    }
}

#[test]
fn full_prefix_adds_one_slash() {
    assert_eq!(full_prefix(""), "");
    assert_eq!(full_prefix("docs"), "docs/");
    assert_eq!(full_prefix("docs/"), "docs/");
}

#[test]
fn listing_puts_folders_first_and_skips_the_marker() {
    let folders = vec![Some("docs/sub/".to_string()), None, Some("docs/".to_string())];
    let objects = vec![
        remote("docs/", 0, None),
        remote("docs/a.txt", 3, Some("GLACIER")),
        RemoteObject { key: None, size: None, last_modified: None, storage_class: None },
        remote("docs/b.bin", 7, Some("WEIRD_CLASS")),
    ];
    let listing = build_listing("docs", folders, objects);
    let keys: Vec<&str> = listing.iter().map(|o| o.key.as_str()).collect();
    assert_eq!(keys, vec!["docs/sub/", "docs/a.txt", "docs/b.bin"]);
    assert!(listing[0].is_folder);
    assert_eq!(listing[0].storage_class, StorageClass::Folder);
    assert_eq!(listing[1].storage_class, StorageClass::Glacier);
    assert_eq!(listing[1].size, Some(3));
    assert_eq!(listing[1].last_modified, Some(1_767_323_045));
    assert_eq!(listing[2].storage_class, StorageClass::Unknown("WEIRD_CLASS".to_string()));
}

#[test]
fn objects_without_class_are_standard() {
    let listing = build_listing("", vec![], vec![remote("x", 1, None)]);
    assert_eq!(listing[0].storage_class, StorageClass::Standard);
}

#[test]
fn storage_class_names_map_to_classes() {
    assert_eq!(storage_class_named("STANDARD_IA".to_string()), StorageClass::StandardIa);
    assert_eq!(storage_class_named("ONEZONE_IA".to_string()), StorageClass::OneZoneIa);
    assert_eq!(storage_class_named("DEEP_ARCHIVE".to_string()), StorageClass::DeepArchive);
    assert_eq!(storage_class_named("FOLDER".to_string()), StorageClass::Unknown("FOLDER".to_string()));
}

#[test]
fn bucket_list_names_and_dates() {
    let buckets = bucket_infos(vec![
        RemoteBucket { name: Some("logs".to_string()), creation_date: Some((86_400, 0)) },
        RemoteBucket { name: None, creation_date: Some((i64::MAX, 0)) },
    ]);
    assert_eq!(buckets[0].name, "logs");
    assert_eq!(buckets[0].creation_date, Some(86_400));
    assert_eq!(buckets[1].name, "unknown");
    assert_eq!(buckets[1].creation_date, None);
}

#[test]
fn timestamps_round_trip_within_range() {
    assert_eq!(stamp(Some((0, 0))), Some(0));
    assert_eq!(stamp(Some((-1, 0))), Some(-1));
    assert_eq!(stamp(Some((0, 2_000_000_000))), None, "invalid nanoseconds");
    assert_eq!(stamp(None), None);
    assert_eq!(stamp(Some((59, 1_500_000_000))), Some(59), "leap second");
}

#[test]
fn object_details_sort_metadata() {
    let d = object_detail(
        "bk",
        "k",
        HeadInfo {
            content_length: Some(2048),
            last_modified: Some((0, 0)),
            storage_class: None,
            etag: Some("\"abc\"".to_string()),
            content_type: None,
            metadata: vec![
                ("team".to_string(), "infra".to_string()),
                ("env".to_string(), "prod".to_string()),
                ("Zed".to_string(), "1".to_string()),
            ],
        },
    );
    assert_eq!(d.size, Some(2048));
    assert_eq!(d.content_length, Some(2048));
    assert_eq!(d.storage_class, StorageClass::Standard);
    let keys: Vec<&str> = d.metadata.iter().map(|(k, _)| k.as_str()).collect();
    assert_eq!(keys, vec!["Zed", "env", "team"]);
    let sorted = sort_metadata(vec![("b".to_string(), "2".to_string()), ("a".to_string(), "1".to_string())]);
    assert_eq!(sorted, vec![("a".to_string(), "1".to_string()), ("b".to_string(), "2".to_string())]);
}

#[test]
fn transfer_paths() {
    assert_eq!(upload_key("docs/", "/home/me/one.txt"), "docs/one.txt");
    assert_eq!(upload_key("", "/"), "upload");
    assert_eq!(download_destination("./out//", "a/b/c.txt"), "./out/c.txt");
    assert_eq!(download_destination("/tmp", "x/"), "/tmp/x");
}

#[test]
fn rows_show_name_size_class_and_date() {
    let o = ObjectInfo {
        key: "docs/a.txt".to_string(),
        size: Some(512),
        last_modified: Some(1_767_323_045),
        is_folder: false,
        storage_class: StorageClass::Glacier,
    };
    let r = object_row(&o, "docs/", true);
    assert_eq!(r.icon, "·");
    assert_eq!(r.name, "a.txt [512 B]");
    assert_eq!(r.class_label, "  [GLACIER]");
    assert_eq!(r.class_tint, Tint::Magenta);
    assert_eq!(r.date, "  2026-01-02 03:04");
    assert_eq!(r.emphasis, Emphasis::Selected);

    let f = ObjectInfo {
        key: "docs/sub/".to_string(),
        size: None,
        last_modified: None,
        is_folder: true,
        storage_class: StorageClass::Folder,
    };
    let r = object_row(&f, "docs/", false);
    assert_eq!(r.icon, "▸");
    assert_eq!(r.name, "sub");
    assert_eq!(r.class_label, "");
    assert_eq!(r.date, "");
    assert_eq!(r.emphasis, Emphasis::Folder);
    assert_eq!(entry_name("other/x", "docs/"), "other/x");
}

#[test]
fn panels_titles_and_status() {
    let mut s = AppState::new();
    assert_eq!(s.objects_title(), " Objects ");
    s.buckets = vec![
        BucketInfo { name: "a".to_string(), creation_date: Some(0) },
        BucketInfo { name: "b".to_string(), creation_date: None },
    ];
    s.current_bucket = Some("b".to_string());
    s.current_prefix = "x/".to_string();
    assert_eq!(s.buckets_title(), " Buckets (2) ");
    let rows = s.bucket_rows();
    assert_eq!(rows[0].name, "  a ");
    assert_eq!(rows[0].date, "  1970-01-01");
    assert_eq!(rows[0].emphasis, Emphasis::Selected);
    assert_eq!(rows[1].emphasis, Emphasis::Current);
    s.filter = "q".to_string();
    assert_eq!(s.objects_title(), " s3://b/x/  [filter: 'q'] ");
    s.current_panel = Panel::Objects;
    let (msg, loading) = s.status_texts();
    assert_eq!(msg, " Presioná ? para la ayuda ");
    assert_eq!(loading, " ");
}

#[test]
fn detail_panel_lines() {
    let d = ObjectDetail {
        bucket: "bk".to_string(),
        key: "k".to_string(),
        size: Some(2048),
        last_modified: Some(0),
        storage_class: StorageClass::StandardIa,
        etag: None,
        content_type: Some("text/plain".to_string()),
        content_length: None,
        metadata: vec![],
    };
    let lines = detail_lines(&d);
    assert_eq!(lines.len(), 8);
    assert_eq!(lines[2], ("Size:          ".to_string(), "2.0 KiB".to_string()));
    assert_eq!(lines[3].1, "-");
    assert_eq!(lines[4].1, "1970-01-01 00:00:00");
    assert_eq!(lines[5].1, "STANDARD_IA");
    assert_eq!(lines[6].1, "-");
    assert_eq!(lines[7].1, "text/plain");
}
