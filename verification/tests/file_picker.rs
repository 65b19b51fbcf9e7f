use s3_tui::filepicker::{fuzzy_score, FileEntry, FilePicker};

fn file(dir: &str, name: &str) -> FileEntry {
    FileEntry { name: name.to_string(), path: format!("{dir}/{name}"), is_dir: false, size: Some(1) }
}

fn folder(dir: &str, name: &str) -> FileEntry {
    FileEntry { name: name.to_string(), path: format!("{dir}/{name}"), is_dir: true, size: None }
}

fn listed(dir: &str, entries: Vec<FileEntry>) -> FilePicker {
    let mut picker = FilePicker::new_at(dir.to_string());
    picker.apply_listing(Ok(entries));
    picker
}

#[test]
fn fuzzy_matches_subsequence_case_insensitive() {
    assert!(fuzzy_score("mk", "Makefile.txt").is_some());
    assert!(fuzzy_score("cargo", "src/Cargo.toml").is_some());
    assert_eq!(fuzzy_score("xyz", "Makefile.txt"), None);
    assert_eq!(fuzzy_score("", "anything"), Some(0));
}

#[test]
fn fuzzy_prefers_consecutive_matches() {
    let consecutive = fuzzy_score("mk", "mk.txt").unwrap();
    let spread = fuzzy_score("mk", "myk.txt").unwrap();
    assert!(consecutive > spread);
}

#[test]
fn fuzzy_needs_every_query_character_in_order() {
    assert_eq!(fuzzy_score("km", "mk.txt"), None);
    assert_eq!(fuzzy_score("mkk", "mk.txt"), None);
    assert!(fuzzy_score("MK", "mk.txt").is_some());
}

#[test]
fn lists_dirs_first_with_parent_marker() {
    let dir = "/tmp/list";
    let picker = listed(dir, vec![file(dir, "appa.txt"), folder(dir, "sub"), file(dir, "alpha.log")]);
    assert_eq!(picker.entries[0].name, "..");
    let names: Vec<&str> = picker.entries.iter().map(|e| e.name.as_str()).collect();
    assert_eq!(names, vec!["..", "sub", "alpha.log", "appa.txt"]);
    assert!(picker.entries[0].is_dir);
    assert_eq!(picker.entries[0].path, "/tmp");
    assert_eq!(picker.visible_count(), 4);
}

#[test]
fn listing_order_ignores_case_then_breaks_ties_by_name() {
    let dir = "/tmp/case";
    let picker = listed(dir, vec![file(dir, "b.txt"), file(dir, "B.txt"), file(dir, "A.txt")]);
    let names: Vec<&str> = picker.entries.iter().map(|e| e.name.as_str()).collect();
    assert_eq!(names, vec!["..", "A.txt", "B.txt", "b.txt"]);
}

#[test]
fn root_has_no_parent_marker() {
    let picker = listed("/", vec![folder("", "etc")]);
    let names: Vec<&str> = picker.entries.iter().map(|e| e.name.as_str()).collect();
    assert_eq!(names, vec!["etc"]);
}

#[test]
fn filter_reranks_visible() {
    let dir = "/tmp/filter";
    let mut picker = listed(dir, vec![file(dir, "mk.txt"), file(dir, "myk.txt"), file(dir, "nomatch.txt")]);
    picker.filter = "mk".to_string();
    let visible = picker.visible_indices();
    let first: Vec<&str> = visible.iter().map(|&i| picker.entries[i].name.as_str()).collect();
    assert_eq!(first.len(), 2);
    assert_eq!(first[0], "mk.txt", "best match first");
    assert!(first.contains(&"myk.txt"));
}

#[test]
fn toggling_adds_removes_and_dedupes() {
    let dir = "/tmp/toggle";
    let mut picker = listed(dir, vec![file(dir, "a.txt"), file(dir, "b.log")]);
    picker.selected_index = 1; // a.txt (idx 0 is "..")

    assert!(picker.toggle_selected(), "added");
    assert_eq!(picker.selection_count(), 1);
    assert!(!picker.toggle_selected(), "removed");
    assert_eq!(picker.selection_count(), 0);

    picker.toggle_selected();
    picker.select_all_visible();
    assert_eq!(picker.selection_count(), 2);
    assert_eq!(picker.selected_paths(), vec!["/tmp/toggle/a.txt".to_string(), "/tmp/toggle/b.log".to_string()]);
    picker.clear_selection();
    assert_eq!(picker.selection_count(), 0);
}

#[test]
fn directories_cannot_be_marked() {
    let dir = "/tmp/dirs";
    let mut picker = listed(dir, vec![folder(dir, "docs"), file(dir, "x.txt")]);
    picker.selected_index = 1;
    assert_eq!(picker.selected_entry().unwrap().name, "docs");
    assert!(!picker.toggle_selected());
    assert_eq!(picker.selection_count(), 0);
    picker.select_all_visible();
    assert_eq!(picker.selected_paths(), vec!["/tmp/dirs/x.txt".to_string()]);
}

#[test]
fn enter_navigates_into_subdirectory_and_up() {
    let dir = "/tmp/nav";
    let mut picker = listed(dir, vec![folder(dir, "sub"), file(dir, "top.txt")]);
    picker.selected_index = 1; // "sub"
    assert!(picker.enter());
    assert_eq!(picker.dir, "/tmp/nav/sub");
    picker.apply_listing(Ok(vec![file("/tmp/nav/sub", "file.txt"), folder("/tmp/nav/sub", "inner")]));
    assert!(picker.entries.iter().any(|e| e.name == "file.txt"));

    assert!(picker.go_up());
    assert_eq!(picker.dir, "/tmp/nav");
    picker.apply_listing(Ok(vec![folder(dir, "sub")]));
    assert!(picker.entries.iter().any(|e| e.name == ".."));
}

#[test]
fn entering_a_file_does_nothing() {
    let dir = "/tmp/files";
    let mut picker = listed(dir, vec![file(dir, "a.txt")]);
    picker.selected_index = 1;
    assert!(!picker.enter());
    assert_eq!(picker.dir, dir);
    assert_eq!(picker.entries.len(), 2);
}

#[test]
fn load_failure_sets_hint() {
    let mut picker = FilePicker::new_at("/tmp/missing/nope".to_string());
    picker.apply_listing(Err("No such file or directory (os error 2)".to_string()));
    assert_eq!(picker.entries.len(), 1);
    assert_eq!(picker.entries[0].name, "..");
    assert!(!picker.hint.is_empty());
    assert_eq!(picker.hint, "Could not read directory: No such file or directory (os error 2)");
}

#[test]
fn cursor_moves_within_visible_entries() {
    let dir = "/tmp/cursor";
    let mut picker = listed(dir, vec![file(dir, "a"), file(dir, "b")]);
    picker.select_prev();
    assert_eq!(picker.selected_index, 0);
    picker.select_next();
    picker.select_next();
    picker.select_next();
    assert_eq!(picker.selected_index, 2);
    assert_eq!(picker.selected_entry().unwrap().name, "b");
}

#[test]
fn picker_rows_mark_selected_files_and_slash_directories() {
    let dir = "/tmp/rows";
    let mut picker = listed(dir, vec![folder(dir, "docs"), file(dir, "x.txt")]);
    picker.selected_index = 2;
    picker.toggle_selected();
    let rows = picker.rows();
    let names: Vec<&str> = rows.iter().map(|r| r.name.as_str()).collect();
    assert_eq!(names, vec!["../", "docs/", "x.txt"]);
    let marks: Vec<bool> = rows.iter().map(|r| r.marked).collect();
    assert_eq!(marks, vec![false, false, true]);
    assert!(rows[1].is_dir && !rows[2].is_dir);
}
