use s3_tui::app::{AppState, BucketInfo, DownloadReport, InputMode, LoadingState, ObjectDetail, ObjectInfo, Panel, PendingAction, TaskMessage, UploadReport};
use s3_tui::events::{Effect, Key};
use s3_tui::filepicker::{FileEntry, FilePicker};
use s3_tui::metadata::MetadataEditor;
use s3_tui::storage::StorageClass;

fn obj(key: &str, folder: bool) -> ObjectInfo {
    ObjectInfo {
        key: key.to_string(),
        size: if folder { None } else { Some(5) },
        last_modified: None,
        is_folder: folder,
        storage_class: if folder { StorageClass::Folder } else { StorageClass::Standard },
    }
}

fn browsing(bucket: &str, prefix: &str, objects: Vec<ObjectInfo>) -> AppState {
    let mut s = AppState::new();
    s.current_panel = Panel::Objects;
    s.current_bucket = Some(bucket.to_string());
    s.current_prefix = prefix.to_string();
    s.objects = objects;
    s
}

fn loading_text(s: &AppState) -> Option<String> {
    match &s.loading_state {
        LoadingState::Loading(m) => Some(m.clone()),
        _ => None,
    }
}

fn type_text(s: &mut AppState, text: &str) {
    for c in text.chars() {
        s.handle_key(Key::Char(c));
    }
}

#[test]
fn storage_class_picker_opens_and_applies() {
    let mut state = AppState::new();
    state.input_mode = InputMode::Metadata;
    state.metadata_editor = MetadataEditor::from_paths(vec!["/tmp/a.txt".to_string()]);

    state.handle_input_key(Key::Char('C'));
    assert_eq!(state.input_mode, InputMode::StorageClass, "C opens the storage class picker");
    assert_eq!(state.metadata_editor.storage_class, StorageClass::Standard);

    for _ in 0..4 {
        state.handle_input_key(Key::Down);
    }
    state.handle_input_key(Key::Enter);
    assert_eq!(state.input_mode, InputMode::Metadata, "Enter returns to the metadata editor");
    assert_eq!(state.metadata_editor.storage_class, StorageClass::Glacier, "scrolling 4 options reaches GLACIER");
}

#[test]
fn marking_files_then_uploading_with_metadata() {
    let mut state = browsing("sm-picker-flow", "docs/", vec![]);
    assert!(matches!(state.handle_key(Key::Char('u')), Effect::ResetPicker));
    assert_eq!(state.input_mode, InputMode::FilePicker);
    let dir = "/tmp/flow";
    state.file_picker = FilePicker::new_at(dir.to_string());
    state.file_picker.apply_listing(Ok(vec![
        FileEntry { name: "one.txt".to_string(), path: format!("{dir}/one.txt"), is_dir: false, size: Some(1) },
        FileEntry { name: "two.txt".to_string(), path: format!("{dir}/two.txt"), is_dir: false, size: Some(1) },
    ]));

    state.file_picker.selected_index = 1;
    state.handle_input_key(Key::Char(' '));
    state.file_picker.selected_index = 2;
    state.handle_input_key(Key::Char(' '));
    assert_eq!(state.file_picker.selection_count(), 2, "space marks two files");

    state.handle_input_key(Key::Char('u'));
    assert_eq!(state.input_mode, InputMode::Metadata, "u enters the metadata editor");
    assert_eq!(state.metadata_editor.len(), 2, "both marked files listed");

    state.handle_input_key(Key::Char('A'));
    type_text(&mut state, "env");
    state.handle_input_key(Key::Enter);
    type_text(&mut state, "prod");
    state.handle_input_key(Key::Enter);
    assert_eq!(
        state.metadata_editor.to_upload()[0].1,
        vec![("env".to_string(), "prod".to_string())],
        "metadata captured per file"
    );

    match state.handle_input_key(Key::Char('U')) {
        Effect::Upload { bucket, prefix, files, storage_class } => {
            assert_eq!(bucket, "sm-picker-flow");
            assert_eq!(prefix, "docs/");
            assert_eq!(files.len(), 2);
            assert_eq!(files[0].0, "/tmp/flow/one.txt");
            assert_eq!(files[0].1, vec![("env".to_string(), "prod".to_string())]);
            assert!(files[1].1.is_empty());
            assert_eq!(storage_class, StorageClass::Standard);
        }
        other => panic!("expected an upload, got {other:?}"),
    }
    assert_eq!(state.input_mode, InputMode::Normal, "editor closed after upload");
    assert_eq!(loading_text(&state).as_deref(), Some("Subiendo 2 archivo(s)..."));
}

#[test]
fn entering_buckets_and_folders_asks_the_cache_first() {
    let mut state = AppState::new();
    state.buckets = vec![BucketInfo { name: "b1".to_string(), creation_date: None }];
    match state.handle_key(Key::Enter) {
        Effect::LookupCache { bucket, prefix, loading } => {
            assert_eq!(bucket, "b1");
            assert_eq!(prefix, "");
            assert_eq!(loading, "Cargando b1...");
        }
        other => panic!("expected a cache lookup, got {other:?}"),
    }
    assert_eq!(state.current_panel, Panel::Objects);
    assert_eq!(state.status_message, "Viendo s3://b1/");

    // Nothing cached: list remotely.
    let eff = state.apply_cached_listing("b1".to_string(), String::new(), "Cargando b1...".to_string(), None);
    assert!(matches!(eff, Effect::ListObjects { .. }));
    assert_eq!(loading_text(&state).as_deref(), Some("Cargando b1..."));

    // Cached listing: shown at once.
    let eff = state.apply_cached_listing(
        "b1".to_string(),
        String::new(),
        "Cargando b1...".to_string(),
        Some(vec![obj("dir/", true), obj("a.txt", false)]),
    );
    assert!(matches!(eff, Effect::Nothing));
    assert_eq!(state.objects.len(), 2);
    assert_eq!(state.status_message, "s3://b1/ - desde cache local");

    match state.handle_key(Key::Enter) {
        Effect::LookupCache { bucket, prefix, .. } => {
            assert_eq!(bucket, "b1");
            assert_eq!(prefix, "dir/");
        }
        other => panic!("expected a cache lookup, got {other:?}"),
    }
    assert_eq!(state.current_prefix, "dir/");

    // Back to the parent folder, which is listed next.
    match state.handle_key(Key::Left) {
        Effect::ListObjects { bucket, prefix } => {
            assert_eq!(bucket, "b1");
            assert_eq!(prefix, "");
        }
        other => panic!("expected a listing, got {other:?}"),
    }
    assert_eq!(state.current_prefix, "");
}

#[test]
fn objects_loaded_and_failures_are_reported() {
    let mut state = AppState::new();
    let eff = state.handle_task_message(TaskMessage::BucketsLoaded(Ok(vec![
        BucketInfo { name: "a".to_string(), creation_date: None },
        BucketInfo { name: "b".to_string(), creation_date: None },
    ])));
    assert!(matches!(eff, Effect::Nothing));
    assert_eq!(state.status_message, "Cargados 2 bucket(s)");

    state.handle_task_message(TaskMessage::BucketsLoaded(Err("denied".to_string())));
    assert_eq!(state.status_message, "Error al cargar buckets: denied");
    assert!(matches!(&state.loading_state, LoadingState::Error(e) if e.as_str() == "denied"));

    state.handle_task_message(TaskMessage::ObjectsLoaded {
        bucket: "a".to_string(),
        prefix: "x/".to_string(),
        result: Ok(vec![obj("x/1", false), obj("x/2", false), obj("x/3", false)]),
    });
    assert_eq!(state.status_message, "s3://a/x/ - 3 elemento(s)");
    assert_eq!(state.current_bucket.as_deref(), Some("a"));
    assert_eq!(state.current_prefix, "x/");
    assert!(matches!(state.loading_state, LoadingState::Idle));

    state.handle_task_message(TaskMessage::ObjectsLoaded {
        bucket: "a".to_string(),
        prefix: "y/".to_string(),
        result: Err("timeout".to_string()),
    });
    assert_eq!(state.status_message, "Error al cargar objetos: timeout");
    assert_eq!(state.current_prefix, "x/", "a failed listing keeps the folder");
    assert!(matches!(state.loading_state, LoadingState::Idle));
}

#[test]
fn uploads_and_deletes_refresh_the_folder() {
    let mut state = browsing("bk", "p/", vec![]);
    let mut report = UploadReport::default();
    report.record_success("bk", "p/a.txt");
    report.record_failure("/tmp/b.txt".to_string(), "denied".to_string());
    report.record_failure("/tmp/c.txt".to_string(), "denied".to_string());
    assert_eq!(report.uploaded, vec!["bk/p/a.txt".to_string()]);
    match state.handle_task_message(TaskMessage::FilesUploaded { result: Ok(report) }) {
        Effect::ListObjects { bucket, prefix } => {
            assert_eq!(bucket, "bk");
            assert_eq!(prefix, "p/");
        }
        other => panic!("expected a refresh, got {other:?}"),
    }
    assert_eq!(state.status_message, "Subidos 1, fallaron 2: /tmp/b.txt, /tmp/c.txt");
    assert_eq!(loading_text(&state).as_deref(), Some("Actualizando..."));

    state.handle_task_message(TaskMessage::FilesUploaded { result: Ok(UploadReport::default()) });
    assert_eq!(state.status_message, "Subidos 0 archivo(s)");

    state.handle_task_message(TaskMessage::ObjectDeleted { result: Ok("bk/p/a.txt".to_string()) });
    assert_eq!(state.status_message, "Eliminado s3://bk/p/a.txt");

    state.selected_keys = vec!["p/x".to_string()];
    let eff = state.handle_task_message(TaskMessage::ObjectsDeleted { result: Ok(vec!["p/x".to_string()]) });
    assert!(matches!(eff, Effect::ListObjects { .. }));
    assert_eq!(state.status_message, "Eliminados 1 objeto(s)");
    assert!(state.selected_keys.is_empty());

    let mut idle = AppState::new();
    let eff = idle.handle_task_message(TaskMessage::ObjectDeleted { result: Err("gone".to_string()) });
    assert!(matches!(eff, Effect::Nothing));
    assert_eq!(idle.status_message, "Error al borrar: gone");
    assert!(matches!(idle.loading_state, LoadingState::Idle));
}

#[test]
fn downloads_and_details_are_reported() {
    let mut state = browsing("bk", "", vec![]);
    state.handle_task_message(TaskMessage::ObjectDownloaded { result: Ok("./a.txt".to_string()) });
    assert_eq!(state.status_message, "Descargado en ./a.txt");

    state.selected_keys = vec!["a".to_string(), "b".to_string()];
    let mut report = DownloadReport::default();
    report.record_success("a".to_string());
    report.record_failure("b".to_string(), "denied".to_string());
    let eff = state.handle_task_message(TaskMessage::ObjectsDownloaded { result: Ok(report) });
    assert!(matches!(eff, Effect::Nothing));
    assert_eq!(state.status_message, "Descargados 1, fallaron 1: b");
    assert!(state.selected_keys.is_empty());

    let detail = ObjectDetail {
        bucket: "bk".to_string(),
        key: "a".to_string(),
        size: Some(3),
        last_modified: None,
        storage_class: StorageClass::Standard,
        etag: None,
        content_type: None,
        content_length: Some(3),
        metadata: vec![],
    };
    state.handle_task_message(TaskMessage::ObjectDetailLoaded(Ok(detail)));
    assert_eq!(state.current_panel, Panel::Preview);
    assert_eq!(state.status_message, "Presioná i para cerrar la info");
    assert!(state.selected_object_detail.is_some());

    state.handle_task_message(TaskMessage::ObjectDetailLoaded(Err("nope".to_string())));
    assert_eq!(state.status_message, "Error al cargar la información del objeto: nope");
}

#[test]
fn select_all_then_batch_delete_asks_for_confirmation() {
    let mut state = browsing("bk", "", vec![obj("dir/", true), obj("a", false), obj("b", false)]);
    state.handle_key(Key::Char('a'));
    assert_eq!(state.selected_keys, vec!["a".to_string(), "b".to_string()]);
    assert_eq!(state.status_message, "Seleccionados 2 objeto(s)");
    state.handle_key(Key::Char('d'));
    assert_eq!(state.input_mode, InputMode::Confirm);
    assert_eq!(state.status_message, "¿Borrar 2 objeto(s) seleccionados? Presioná y para confirmar");
    match &state.pending_action {
        PendingAction::DeleteMany { bucket, keys } => {
            assert_eq!(bucket, "bk");
            assert_eq!(keys.len(), 2);
        }
        other => panic!("expected a batch delete, got {other:?}"),
    }
    match state.handle_key(Key::Char('y')) {
        Effect::DeleteMany { bucket, keys } => {
            assert_eq!(bucket, "bk");
            assert_eq!(keys, vec!["a".to_string(), "b".to_string()]);
        }
        other => panic!("expected a batch delete, got {other:?}"),
    }
    assert_eq!(state.input_mode, InputMode::Normal);
}

#[test]
fn toggling_twice_and_filtering() {
    let mut state = browsing("bk", "p/", vec![obj("p/alpha.txt", false), obj("p/beta.txt", false)]);
    state.handle_key(Key::Char(' '));
    assert_eq!(state.selected_keys, vec!["p/alpha.txt".to_string()]);
    state.handle_key(Key::Char(' '));
    assert!(state.selected_keys.is_empty());

    state.handle_key(Key::Char('/'));
    assert_eq!(state.input_mode, InputMode::Filter);
    type_text(&mut state, "BETA");
    assert_eq!(state.visible_count(), 1);
    assert_eq!(state.selected_object().unwrap().key, "p/beta.txt");
    state.handle_key(Key::Esc);
    assert_eq!(state.visible_count(), 2);
}

#[test]
fn download_prompt_builds_the_destination() {
    let mut state = browsing("bk", "p/", vec![obj("p/report.csv", false)]);
    state.handle_key(Key::Char('g'));
    assert_eq!(state.input_mode, InputMode::Directory);
    assert_eq!(state.input_buffer, "./");
    state.handle_key(Key::Backspace);
    state.handle_key(Key::Backspace);
    type_text(&mut state, "  /tmp/out//  ");
    match state.handle_key(Key::Enter) {
        Effect::Download { bucket, key, dest_path } => {
            assert_eq!(bucket, "bk");
            assert_eq!(key, "p/report.csv");
            assert_eq!(dest_path, "/tmp/out/report.csv");
        }
        other => panic!("expected a download, got {other:?}"),
    }
}

#[test]
fn help_panel_and_quit() {
    let mut state = AppState::new();
    state.handle_key(Key::Char('?'));
    assert!(state.show_help);
    state.handle_key(Key::Down);
    state.handle_key(Key::Down);
    assert_eq!(state.help_scroll, 2);
    state.handle_key(Key::Up);
    assert_eq!(state.help_scroll, 1);
    state.handle_key(Key::Esc);
    assert!(!state.show_help);
    assert_eq!(state.help_scroll, 0);
    state.handle_key(Key::Char('q'));
    assert!(state.should_quit);
}

#[test]
fn going_back_lists_the_parent_folder() {
    let mut state = browsing("b", "a/b/", vec![obj("a/b/x", false)]);
    match state.handle_key(Key::Left) {
        Effect::ListObjects { bucket, prefix } => {
            assert_eq!(bucket, "b");
            assert_eq!(prefix, "a/");
        }
        other => panic!("expected a listing, got {other:?}"),
    }
    assert_eq!(state.current_prefix, "a/");
    assert!(state.objects.is_empty());
    assert_eq!(loading_text(&state).as_deref(), Some("Cargando..."));
    assert_eq!(state.status_message, "s3://b/a//");
}

#[test]
fn a_new_state_starts_on_the_bucket_list_with_fresh_editors() {
    let s = AppState::new();
    assert_eq!(s.current_panel, Panel::Buckets);
    assert_eq!(s.metadata_editor.storage_class, StorageClass::Standard);
    assert_eq!(s.metadata_editor.storage_class_index, 0);
    assert_eq!(s.metadata_editor.row, 0);
    assert!(s.metadata_editor.is_empty());
    assert_eq!(s.file_picker.dir, "");
    assert_eq!(s.file_picker.selection_count(), 0);
}
