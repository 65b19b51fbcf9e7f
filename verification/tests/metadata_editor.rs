use s3_tui::metadata::{MetadataEditor, MetadataField};
use s3_tui::storage::StorageClass;

fn editor() -> MetadataEditor {
    MetadataEditor::from_paths(vec!["/tmp/a.txt".to_string()])
}

#[test]
fn metadata_editor_chains_multiple_rows() {
    let mut ed = editor();
    ed.add_row();
    assert_eq!(ed.entries_len(), 1);
    assert!(ed.cursor_row_is_empty());

    ed.commit_cell("env");
    ed.toggle_field();
    ed.commit_cell("prod");
    ed.advance_after_value();

    assert_eq!(ed.entries_len(), 2, "a fresh row opens after the value");
    assert_eq!(ed.row, 1);
    assert!(ed.cursor_row_is_empty());
    assert_eq!(ed.to_upload()[0].1, vec![("env".to_string(), "prod".to_string())]);

    ed.commit_cell("team");
    ed.toggle_field();
    ed.commit_cell("infra");
    ed.advance_after_value();

    assert_eq!(ed.entries_len(), 3);
    assert_eq!(
        ed.to_upload()[0].1,
        vec![
            ("env".to_string(), "prod".to_string()),
            ("team".to_string(), "infra".to_string()),
        ]
    );
}

#[test]
fn metadata_editor_does_not_grow_on_empty_commit() {
    let mut ed = editor();
    ed.add_row();
    ed.commit_cell("env");
    ed.toggle_field();
    ed.commit_cell("prod");
    ed.advance_after_value();
    let rows = ed.entries_len();

    ed.advance_after_value();
    assert_eq!(ed.entries_len(), rows, "empty row does not create another");
    assert!(ed.cursor_row_is_empty());
}

#[test]
fn metadata_editor_defaults_to_standard_storage_class() {
    let ed = editor();
    assert_eq!(ed.storage_class, StorageClass::Standard, "uploads start on STANDARD");
    assert_eq!(ed.storage_class_index, 0);
    assert!(
        StorageClass::uploadable().iter().any(|sc| *sc == ed.storage_class),
        "default class is in the picker list"
    );
}

#[test]
fn toggling_the_field_twice_changes_nothing() {
    let mut ed = editor();
    assert_eq!(ed.field, MetadataField::Key);
    ed.toggle_field();
    assert_eq!(ed.field, MetadataField::Value);
    ed.toggle_field();
    assert_eq!(ed.field, MetadataField::Key);
}

#[test]
fn rows_without_key_are_not_uploaded() {
    let mut ed = editor();
    ed.add_row();
    ed.toggle_field();
    ed.commit_cell("orphan value");
    ed.add_row();
    ed.commit_cell("k");
    assert_eq!(ed.entries_len(), 2);
    assert_eq!(ed.to_upload()[0].1, vec![("k".to_string(), String::new())]);
    assert_eq!(ed.to_upload()[0].0, "/tmp/a.txt");
}

#[test]
fn empty_buffer_commits_nothing() {
    let mut ed = editor();
    ed.add_row();
    ed.commit_cell("");
    assert!(ed.cursor_row_is_empty());
}

#[test]
fn deleting_rows_and_moving_the_cursor() {
    let mut ed = editor();
    assert!(!ed.delete_row(), "nothing to delete");
    ed.add_row();
    ed.commit_cell("a");
    ed.add_row();
    ed.commit_cell("b");
    assert_eq!(ed.row, 1);
    ed.move_row(-5);
    assert_eq!(ed.row, 0, "clamped at the first row");
    ed.move_row(7);
    assert_eq!(ed.row, 1, "clamped at the last row");
    assert!(ed.delete_row());
    assert_eq!(ed.entries_len(), 1);
    assert_eq!(ed.to_upload()[0].1, vec![("a".to_string(), String::new())]);
}

#[test]
fn file_cursor_stays_in_range() {
    let mut ed = MetadataEditor::from_paths(vec!["/a".to_string(), "/b".to_string()]);
    assert_eq!(ed.len(), 2);
    assert!(!ed.is_empty());
    ed.select_prev();
    assert_eq!(ed.selected, 0);
    ed.select_next();
    ed.select_next();
    assert_eq!(ed.selected, 1);
    assert_eq!(ed.selected_file().unwrap().0, "/b");
    assert!(MetadataEditor::from_paths(Vec::new()).is_empty());
}
