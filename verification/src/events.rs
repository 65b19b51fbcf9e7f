//! Keyboard input and background results, turned into state changes and
//! requests for outside work.
//!
//! Each handler takes the state and one event (a key press, or the outcome of
//! some background work) and returns the next state together with the
//! [`Effect`] the caller has to carry out: reading the cache, listing a
//! folder, reading a directory, uploading, downloading, deleting. The caller
//! reports the outcome of that work back as a [`TaskMessage`], or through
//! [`AppState::apply_cached_listing`] for a cache lookup.
use vstd::prelude::*;
use crate::app::{
    AppState, Panel, InputMode, PendingAction, LoadingState, TaskMessage, ObjectInfo,
    enter_bucket_post, enter_folder_post, go_back_post, toggle_select_post, select_all_post,
};
use crate::filepicker::{FilePicker, toggle_post, enter_post, go_up_spec, add_visible_paths, paths_view};
use crate::fuzzy::MAX_QUERY_LEN;
use crate::metadata::{MetadataEditor, MetadataField, commit_post, delete_row_post, files_view, kept_rows};
use crate::storage::StorageClass;
use crate::remote::{download_path, download_destination};
use crate::text::{
    decimal, decimal_string, concat2, concat3, concat4, concat5, copy_str, clear_string, push_char,
    pop_char, is_empty_str, trim_str, trim_spec,
};

verus! {

broadcast use vstd::string::group_string_axioms;

/// A key press, as far as the browser tells keys apart.
#[derive(Debug, Clone, Copy, PartialEq, Eq, Structural)]
pub enum Key {
    Char(char),
    Up,
    Down,
    Left,
    Right,
    Enter,
    Esc,
    Tab,
    BackTab,
    Backspace,
    Delete,
    Other,
}

/// Outside work requested by a state change.
#[derive(Debug)]
pub enum Effect {
    /// Nothing to do.
    Nothing,
    /// Look the listing of `bucket`/`prefix` up in the local cache and hand
    /// the answer to [`AppState::apply_cached_listing`] with `loading`.
    LookupCache { bucket: String, prefix: String, loading: String },
    /// List `bucket`/`prefix` remotely, refresh the cache, and report
    /// [`TaskMessage::ObjectsLoaded`].
    ListObjects { bucket: String, prefix: String },
    /// Reset the file picker on the working directory and read it.
    ResetPicker,
    /// Read the file picker's directory and hand it to `apply_listing`.
    ReloadPicker,
    /// Upload `files` (path, metadata) into `bucket`/`prefix`.
    Upload { bucket: String, prefix: String, files: Vec<(String, Vec<(String, String)>)>, storage_class: StorageClass },
    /// Download one object to `dest_path`.
    Download { bucket: String, key: String, dest_path: String },
    /// Download several objects into `dest_dir`.
    DownloadMany { bucket: String, keys: Vec<String>, dest_dir: String },
    /// Delete one object.
    DeleteObject { bucket: String, key: String },
    /// Delete several objects.
    DeleteMany { bucket: String, keys: Vec<String> },
    /// Fetch the details of one object.
    GetObjectInfo { bucket: String, key: String },
}

// ---------------------------------------------------------------------
// Specifications of the handlers
// ---------------------------------------------------------------------
/// Text of a loading indicator, when it shows work in progress.
pub open spec fn loading_text(l: LoadingState) -> Option<Seq<char>> {
    match l {
        LoadingState::Loading(m) => Some(m@),
        _ => None,
    }
}

/// `new` is `old` with the status message set to `msg`.
pub open spec fn status_set(old: AppState, new: AppState, msg: Seq<char>) -> bool {
    new == (AppState { status_message: new.status_message, ..old }) && new.status_message@ == msg
}

/// `new` is `old` out of input mode: empty buffer, nothing pending.
pub open spec fn input_closed(old: AppState, new: AppState) -> AppState {
    AppState {
        input_mode: InputMode::Normal,
        input_buffer: new.input_buffer,
        pending_action: PendingAction::Idle,
        ..old
    }
}

/// Cursor position of a storage class in the upload picker (0 when absent).
pub open spec fn class_position(sc: StorageClass) -> usize {
    match sc {
        StorageClass::Standard => 0,
        StorageClass::StandardIa => 1,
        StorageClass::IntelligentTiering => 2,
        StorageClass::OneZoneIa => 3,
        StorageClass::Glacier => 4,
        StorageClass::GlacierIr => 5,
        StorageClass::DeepArchive => 6,
        StorageClass::ReducedRedundancy => 7,
        _ => 0,
    }
}

/// The help panel: closing, scrolling.
pub open spec fn help_post(old: AppState, key: Key, new: AppState, eff: Effect) -> bool {
    &&& eff is Nothing
    &&& match key {
        Key::Char('?') | Key::Esc | Key::Char('q') | Key::Char('Q') => new == (AppState {
            show_help: false,
            help_scroll: 0,
            ..old
        }),
        Key::Down | Key::Char('j') => new == (AppState {
            help_scroll: if old.help_scroll < usize::MAX {
                (old.help_scroll + 1) as usize
            } else {
                old.help_scroll
            },
            ..old
        }),
        Key::Up | Key::Char('k') => new == (AppState {
            help_scroll: if old.help_scroll > 0 {
                (old.help_scroll - 1) as usize
            } else {
                0
            },
            ..old
        }),
        _ => new == old,
    }
}

/// The confirmation prompt: `y` runs the pending deletion, `n`/`Esc` cancels.
pub open spec fn confirm_post(old: AppState, key: Key, new: AppState, eff: Effect) -> bool {
    match key {
        Key::Char('y') | Key::Char('Y') => {
            &&& new.input_buffer@.len() == 0
            &&& match old.pending_action {
                PendingAction::DeleteObject { bucket, key } => {
                    &&& new == (AppState { loading_state: new.loading_state, ..input_closed(old, new) })
                    &&& loading_text(new.loading_state) == Some("Borrando "@ + key@ + "..."@)
                    &&& eff == (Effect::DeleteObject { bucket, key })
                },
                PendingAction::DeleteMany { bucket, keys } => {
                    &&& new == (AppState {
                        loading_state: new.loading_state,
                        selected_keys: new.selected_keys,
                        ..input_closed(old, new)
                    })
                    &&& new.selected_keys@.len() == 0
                    &&& loading_text(new.loading_state) == Some(
                        "Borrando "@ + decimal(keys@.len()) + " objeto(s)..."@,
                    )
                    &&& eff == (Effect::DeleteMany { bucket, keys })
                },
                _ => new == input_closed(old, new) && eff is Nothing,
            }
        },
        Key::Char('n') | Key::Char('N') | Key::Esc => {
            &&& new == (AppState { status_message: new.status_message, ..input_closed(old, new) })
            &&& new.input_buffer@.len() == 0
            &&& new.status_message@ == "Acción cancelada"@
            &&& eff is Nothing
        },
        _ => new == old && eff is Nothing,
    }
}

/// The download destination prompt.
pub open spec fn directory_post(old: AppState, key: Key, new: AppState, eff: Effect) -> bool {
    match key {
        Key::Char(c) => {
            &&& new == (AppState { input_buffer: new.input_buffer, ..old })
            &&& new.input_buffer@ == old.input_buffer@.push(c)
            &&& eff is Nothing
        },
        Key::Backspace => {
            &&& new == (AppState { input_buffer: new.input_buffer, ..old })
            &&& new.input_buffer@ == if old.input_buffer@.len() > 0 {
                old.input_buffer@.drop_last()
            } else {
                old.input_buffer@
            }
            &&& eff is Nothing
        },
        Key::Enter => {
            let dest = trim_spec(old.input_buffer@);
            &&& new.input_buffer@.len() == 0
            &&& match old.pending_action {
                PendingAction::Download { bucket, key } => {
                    &&& new == (AppState { loading_state: new.loading_state, ..input_closed(old, new) })
                    &&& loading_text(new.loading_state) == Some("Descargando "@ + key@ + "..."@)
                    &&& eff matches Effect::Download { bucket: b, key: k, dest_path: d } && b == bucket && k
                        == key && d@ == download_path(dest, key@)
                },
                PendingAction::DownloadMany { bucket, keys } => {
                    &&& new == (AppState { loading_state: new.loading_state, ..input_closed(old, new) })
                    &&& loading_text(new.loading_state) == Some(
                        "Descargando "@ + decimal(keys@.len()) + " objeto(s) a "@ + dest,
                    )
                    &&& eff matches Effect::DownloadMany { bucket: b, keys: ks, dest_dir: d } && b == bucket
                        && ks == keys && d@ == dest
                },
                _ => new == input_closed(old, new) && eff is Nothing,
            }
        },
        Key::Esc => {
            &&& new == (AppState { status_message: new.status_message, ..input_closed(old, new) })
            &&& new.input_buffer@.len() == 0
            &&& new.status_message@ == "Descarga cancelada"@
            &&& eff is Nothing
        },
        _ => new == old && eff is Nothing,
    }
}

/// The object filter prompt: typing filters as you go.
pub open spec fn filter_post(old: AppState, key: Key, new: AppState, eff: Effect) -> bool {
    &&& eff is Nothing
    &&& match key {
        Key::Char(c) => {
            &&& new == (AppState {
                input_buffer: new.input_buffer,
                filter: new.filter,
                selected_index: 0,
                ..old
            })
            &&& new.input_buffer@ == old.input_buffer@.push(c)
            &&& new.filter@ == new.input_buffer@
        },
        Key::Backspace => {
            &&& new == (AppState {
                input_buffer: new.input_buffer,
                filter: new.filter,
                selected_index: 0,
                ..old
            })
            &&& new.input_buffer@ == if old.input_buffer@.len() > 0 {
                old.input_buffer@.drop_last()
            } else {
                old.input_buffer@
            }
            &&& new.filter@ == new.input_buffer@
        },
        Key::Enter => {
            &&& new == (AppState { status_message: new.status_message, ..input_closed(old, new) })
            &&& new.input_buffer@.len() == 0
            &&& new.status_message@ == "Filtro aplicado: '"@ + old.filter@ + "' - "@ + decimal(
                old.visible_spec().len(),
            ) + " coincidencia(s)"@
        },
        Key::Esc => {
            &&& new == (AppState {
                filter: new.filter,
                selected_index: 0,
                status_message: new.status_message,
                ..input_closed(old, new)
            })
            &&& new.input_buffer@.len() == 0
            &&& new.filter@.len() == 0
            &&& new.status_message@ == "Filtro limpiado"@
        },
        _ => new == old,
    }
}

/// The storage class picker of the upload.
pub open spec fn storage_class_post(old: AppState, key: Key, new: AppState, eff: Effect) -> bool {
    let ed = old.metadata_editor;
    let i = ed.storage_class_index;
    &&& eff is Nothing
    &&& match key {
        Key::Up | Key::Char('k') => new == (AppState {
            metadata_editor: MetadataEditor {
                storage_class_index: if i > 0 {
                    (i - 1) as usize
                } else {
                    0
                },
                ..ed
            },
            ..old
        }),
        Key::Down | Key::Char('j') => new == (AppState {
            metadata_editor: MetadataEditor {
                storage_class_index: if i + 1 < 8 {
                    (i + 1) as usize
                } else {
                    i
                },
                ..ed
            },
            ..old
        }),
        Key::Enter => {
            let sc = if i < 8 {
                StorageClass::uploadable_spec()[i as int]
            } else {
                ed.storage_class
            };
            &&& new == (AppState {
                metadata_editor: MetadataEditor { storage_class: sc, ..ed },
                input_mode: InputMode::Metadata,
                status_message: new.status_message,
                ..old
            })
            &&& new.status_message@ == "Clase de almacenamiento: "@ + sc.label_spec()
        },
        Key::Esc => {
            &&& new == (AppState {
                input_mode: InputMode::Metadata,
                status_message: new.status_message,
                ..old
            })
            &&& new.status_message@ == "Clase sin cambios"@
        },
        _ => new == old,
    }
}

/// `new` is `old` with the editor and the (now empty) input buffer replaced.
pub open spec fn editor_replaced(old: AppState, new: AppState) -> bool {
    &&& new == (AppState { metadata_editor: new.metadata_editor, input_buffer: new.input_buffer, ..old })
    &&& new.input_buffer@.len() == 0
}

/// The metadata editor: cells are committed from the input buffer, rows and
/// files are navigated, and `U` starts the upload.
pub open spec fn metadata_post(old: AppState, key: Key, new: AppState, eff: Effect) -> bool {
    let ed = old.metadata_editor;
    let buf = old.input_buffer@;
    match key {
        Key::Down => eff is Nothing && editor_replaced(old, new) && exists|e1: MetadataEditor|
            #[trigger] commit_post(ed, buf, e1) && new.metadata_editor == e1.move_row_spec(1),
        Key::Up => eff is Nothing && editor_replaced(old, new) && exists|e1: MetadataEditor|
            #[trigger] commit_post(ed, buf, e1) && new.metadata_editor == e1.move_row_spec(-1),
        Key::Tab => eff is Nothing && editor_replaced(old, new) && exists|e1: MetadataEditor|
            #[trigger] commit_post(ed, buf, e1) && new.metadata_editor == (MetadataEditor {
                field: match e1.field {
                    MetadataField::Key => MetadataField::Value,
                    MetadataField::Value => MetadataField::Key,
                },
                ..e1
            }),
        Key::Enter => eff is Nothing && editor_replaced(old, new) && exists|e1: MetadataEditor|
            #[trigger] commit_post(ed, buf, e1) && if e1.field == MetadataField::Key {
                new.metadata_editor == (MetadataEditor { field: MetadataField::Value, ..e1 })
            } else {
                e1.advance_spec(new.metadata_editor)
            },
        Key::Char('A') => {
            &&& eff is Nothing
            &&& new == (AppState {
                metadata_editor: new.metadata_editor,
                input_buffer: new.input_buffer,
                status_message: new.status_message,
                ..old
            })
            &&& ed.add_row_spec(new.metadata_editor)
            &&& new.input_buffer@.len() == 0
            &&& new.status_message@ == "Fila nueva - escribí la clave, Enter, y luego el valor"@
        },
        Key::Char('D') | Key::Delete => {
            &&& eff is Nothing
            &&& exists|r: bool| #[trigger] delete_row_post(ed, new.metadata_editor, r)
            &&& if ed.cursor_row() is Some {
                &&& new == (AppState {
                    metadata_editor: new.metadata_editor,
                    input_buffer: new.input_buffer,
                    status_message: new.status_message,
                    ..old
                })
                &&& new.input_buffer@.len() == 0
                &&& new.status_message@ == "Fila eliminada"@
            } else {
                &&& new == (AppState { metadata_editor: new.metadata_editor, status_message: new.status_message, ..old })
                &&& new.status_message@ == "No hay nada para borrar - usá A para agregar una fila"@
            }
        },
        Key::Char('N') | Key::BackTab => eff is Nothing && editor_replaced(old, new) && exists|e1: MetadataEditor|
            #[trigger] commit_post(ed, buf, e1) && new.metadata_editor == e1.after_select_next(),
        Key::Char('P') => eff is Nothing && editor_replaced(old, new) && exists|e1: MetadataEditor|
            #[trigger] commit_post(ed, buf, e1) && new.metadata_editor == e1.after_select_prev(),
        Key::Char('U') => {
            &&& new.input_buffer@.len() == 0
            &&& commit_post(ed, buf, new.metadata_editor)
            &&& if new.metadata_editor.files@.len() == 0 {
                &&& new == (AppState {
                    metadata_editor: new.metadata_editor,
                    input_buffer: new.input_buffer,
                    status_message: new.status_message,
                    ..old
                })
                &&& new.status_message@ == "No marcaste archivos para subir"@
                &&& eff is Nothing
            } else if old.current_bucket is Some {
                &&& new == (AppState {
                    metadata_editor: new.metadata_editor,
                    loading_state: new.loading_state,
                    ..input_closed(old, new)
                })
                &&& loading_text(new.loading_state) == Some(
                    "Subiendo "@ + decimal(new.metadata_editor.files@.len()) + " archivo(s)..."@,
                )
                &&& eff matches Effect::Upload { bucket, prefix, files, storage_class } && Some(bucket)
                    == old.current_bucket && prefix@ == old.current_prefix@ && storage_class
                    == new.metadata_editor.storage_class && files_view(files@)
                    == new.metadata_editor.files_v().map_values(
                    |f: (Seq<char>, Seq<(Seq<char>, Seq<char>)>)| (f.0, kept_rows(f.1)),
                )
            } else {
                &&& new == (AppState {
                    metadata_editor: new.metadata_editor,
                    input_buffer: new.input_buffer,
                    status_message: new.status_message,
                    ..old
                })
                &&& new.status_message@ == "Seleccioná un bucket primero"@
                &&& eff is Nothing
            }
        },
        Key::Char('C') => {
            &&& eff is Nothing
            &&& new == (AppState {
                metadata_editor: new.metadata_editor,
                input_buffer: new.input_buffer,
                input_mode: InputMode::StorageClass,
                status_message: new.status_message,
                ..old
            })
            &&& new.input_buffer@.len() == 0
            &&& exists|e1: MetadataEditor|
                #[trigger] commit_post(ed, buf, e1) && new.metadata_editor == (MetadataEditor {
                    storage_class_index: class_position(e1.storage_class),
                    ..e1
                })
            &&& new.status_message@ == "Elegí la clase de almacenamiento (actual: "@
                + new.metadata_editor.storage_class.label_spec()
                + ") · ↑↓:elegir · Enter:confirmar · Esc:cancelar"@
        },
        Key::Esc => {
            &&& eff is Nothing
            &&& if buf.len() > 0 {
                new == (AppState { input_buffer: new.input_buffer, ..old }) && new.input_buffer@.len() == 0
            } else {
                &&& new == (AppState {
                    input_mode: InputMode::FilePicker,
                    input_buffer: new.input_buffer,
                    pending_action: PendingAction::Idle,
                    status_message: new.status_message,
                    ..old
                })
                &&& new.input_buffer@.len() == 0
                &&& new.status_message@ == "Volviste al selector de archivos - presioná u para metadatos"@
            }
        },
        Key::Char(c) => {
            &&& eff is Nothing
            &&& new == (AppState { input_buffer: new.input_buffer, ..old })
            &&& new.input_buffer@ == buf.push(c)
        },
        Key::Backspace => {
            &&& eff is Nothing
            &&& new == (AppState { input_buffer: new.input_buffer, ..old })
            &&& new.input_buffer@ == if buf.len() > 0 {
                buf.drop_last()
            } else {
                buf
            }
        },
        _ => new == old && eff is Nothing,
    }
}

/// `new` is `old` with only the file picker changed.
pub open spec fn picker_replaced(old: AppState, new: AppState) -> bool {
    new == (AppState { file_picker: new.file_picker, ..old })
}

/// The message shown after Space in the file picker, from the selection
/// counts before and after.
pub open spec fn mark_message(before: nat, after: nat) -> Seq<char> {
    if after > before {
        "Marcado ("@ + decimal(after) + " seleccionados) - presioná u para subir"@
    } else if after < before {
        "Desmarcado ("@ + decimal(after) + " seleccionados)"@
    } else {
        decimal(after) + " seleccionados (las carpetas abren con Enter)"@
    }
}

/// The file picker: navigating directories, marking files, filtering by
/// typing, and `u` to go on to the metadata editor.
pub open spec fn picker_post(old: AppState, key: Key, new: AppState, eff: Effect) -> bool {
    let fp = old.file_picker;
    match key {
        Key::Up | Key::Char('k') => eff is Nothing && new == (AppState {
            file_picker: fp.after_select_prev(),
            ..old
        }),
        Key::Down | Key::Char('j') => eff is Nothing && new == (AppState {
            file_picker: fp.after_select_next(),
            ..old
        }),
        Key::Enter | Key::Right => {
            &&& picker_replaced(old, new)
            &&& exists|f1: FilePicker, r1: bool|
                #[trigger] enter_post(fp, f1, r1) && if r1 {
                    new.file_picker == f1 && eff is ReloadPicker
                } else {
                    eff is Nothing && exists|r2: bool| #[trigger] toggle_post(f1, new.file_picker, r2)
                }
        },
        Key::Left | Key::Backspace => if fp.filter@.len() == 0 {
            &&& picker_replaced(old, new)
            &&& exists|r: bool|
                #[trigger] go_up_spec(fp, new.file_picker, r) && if r {
                    eff is ReloadPicker
                } else {
                    eff is Nothing
                }
        } else {
            &&& eff is Nothing
            &&& picker_replaced(old, new)
            &&& new.file_picker == (FilePicker { filter: new.file_picker.filter, selected_index: 0, ..fp })
            &&& new.file_picker.filter@ == fp.filter@.drop_last()
        },
        Key::Char(' ') => {
            &&& eff is Nothing
            &&& new == (AppState { file_picker: new.file_picker, status_message: new.status_message, ..old })
            &&& exists|r: bool| #[trigger] toggle_post(fp, new.file_picker, r)
            &&& new.status_message@ == mark_message(
                fp.selection@.len(),
                new.file_picker.selection@.len(),
            )
        },
        Key::Char('a') | Key::Char('A') => {
            &&& eff is Nothing
            &&& new == (AppState { file_picker: new.file_picker, status_message: new.status_message, ..old })
            &&& new.file_picker == (FilePicker { selection: new.file_picker.selection, ..fp })
            &&& paths_view(new.file_picker.selection@) == add_visible_paths(
                fp,
                paths_view(fp.selection@),
                fp.visible().len(),
            )
            &&& new.status_message@ == "Seleccionados "@ + decimal(new.file_picker.selection@.len())
                + " elemento(s)"@
        },
        Key::Char('c') | Key::Char('C') => {
            &&& eff is Nothing
            &&& new == (AppState { file_picker: new.file_picker, status_message: new.status_message, ..old })
            &&& new.file_picker == (FilePicker { selection: new.file_picker.selection, ..fp })
            &&& new.file_picker.selection@.len() == 0
            &&& new.status_message@ == "Selección limpiada"@
        },
        Key::Char('u') | Key::Char('U') => {
            &&& eff is Nothing
            &&& if fp.selection@.len() == 0 {
                status_set(
                    old,
                    new,
                    "No marcaste nada - presioná Espacio sobre un archivo o carpeta"@,
                )
            } else {
                &&& new == (AppState {
                    metadata_editor: new.metadata_editor,
                    input_mode: InputMode::Metadata,
                    input_buffer: new.input_buffer,
                    pending_action: PendingAction::Idle,
                    status_message: new.status_message,
                    ..old
                })
                &&& new.input_buffer@.len() == 0
                &&& new.metadata_editor.files_v() == fp.selection@.map_values(
                    |p: String| (p@, Seq::<(Seq<char>, Seq<char>)>::empty()),
                )
                &&& new.metadata_editor.selected == 0
                &&& new.metadata_editor.row == 0
                &&& new.metadata_editor.field == MetadataField::Key
                &&& new.metadata_editor.storage_class == StorageClass::Standard
                &&& new.metadata_editor.storage_class_index == 0
                &&& new.status_message@ == "Agregá metadatos en la tabla (A:fila nueva · Tab:cambia campo)"@
            }
        },
        Key::Esc => {
            &&& eff is Nothing
            &&& if fp.filter@.len() == 0 {
                &&& new == (AppState { status_message: new.status_message, ..input_closed(old, new) })
                &&& new.input_buffer@.len() == 0
                &&& new.status_message@ == "Subida cancelada"@
            } else {
                &&& new == (AppState { file_picker: new.file_picker, status_message: new.status_message, ..old })
                &&& new.file_picker == (FilePicker { filter: new.file_picker.filter, selected_index: 0, ..fp })
                &&& new.file_picker.filter@.len() == 0
                &&& new.status_message@ == "Filtro limpiado"@
            }
        },
        Key::Char(c) => {
            &&& eff is Nothing
            &&& if fp.filter@.len() < MAX_QUERY_LEN {
                &&& picker_replaced(old, new)
                &&& new.file_picker == (FilePicker { filter: new.file_picker.filter, selected_index: 0, ..fp })
                &&& new.file_picker.filter@ == fp.filter@.push(c)
            } else {
                new == old
            }
        },
        _ => new == old && eff is Nothing,
    }
}

/// Dispatch of a key press in an input mode.
pub open spec fn input_post(old: AppState, key: Key, new: AppState, eff: Effect) -> bool {
    match old.input_mode {
        InputMode::Confirm => confirm_post(old, key, new, eff),
        InputMode::FilePicker => picker_post(old, key, new, eff),
        InputMode::Metadata => metadata_post(old, key, new, eff),
        InputMode::StorageClass => storage_class_post(old, key, new, eff),
        InputMode::Directory => directory_post(old, key, new, eff),
        InputMode::Filter => filter_post(old, key, new, eff),
        InputMode::Normal => new == old && eff is Nothing,
    }
}


/// A key press on the bucket or object panels.
pub open spec fn main_post(old: AppState, key: Key, new: AppState, eff: Effect) -> bool {
    let sel = old.selected_spec();
    match key {
        Key::Char('q') | Key::Char('Q') => eff is Nothing && new == (AppState { should_quit: true, ..old }),
        Key::Char('?') => {
            &&& eff is Nothing
            &&& new == (AppState { show_help: true, help_scroll: 0, status_message: new.status_message, ..old })
            &&& new.status_message@ == "?:cierra la ayuda · ↑↓/jk:desplazar"@
        },
        Key::Up | Key::Char('k') => eff is Nothing && new == old.after_select_prev(),
        Key::Down | Key::Char('j') => eff is Nothing && new == old.after_select_next(),
        Key::Enter => match old.current_panel {
            Panel::Buckets => exists|r: Option<String>|
                #[trigger] enter_bucket_post(old, new, r) && match r {
                    Some(b) => eff matches Effect::LookupCache { bucket, prefix, loading } && bucket == b
                        && prefix@.len() == 0 && loading@ == "Cargando "@ + b@ + "..."@,
                    None => eff is Nothing,
                },
            Panel::Objects => exists|r: Option<String>|
                #[trigger] enter_folder_post(old, new, r) && match (r, old.current_bucket) {
                    (Some(p), Some(b)) => eff matches Effect::LookupCache { bucket, prefix, loading }
                        && bucket == b && prefix == p && loading@ == "Cargando "@ + p@ + "..."@,
                    _ => eff is Nothing,
                },
            Panel::Preview => eff is Nothing && new == old,
        },
        Key::Left | Key::Char('h') => exists|mid: AppState, r: Option<(String, String)>|
            #[trigger] go_back_post(old, mid, r) && match r {
                Some((b, p)) => {
                    &&& new == (AppState { loading_state: new.loading_state, ..mid })
                    &&& loading_text(new.loading_state) == Some("Cargando..."@)
                    &&& eff == (Effect::ListObjects { bucket: b, prefix: p })
                },
                None => new == mid && eff is Nothing,
            },
        Key::Char('u') | Key::Char('U') => if old.current_bucket is None {
            eff is Nothing && status_set(old, new, "Seleccioná un bucket primero (Enter) para subir archivos"@)
        } else {
            &&& eff is ResetPicker
            &&& new == (AppState {
                input_mode: InputMode::FilePicker,
                input_buffer: new.input_buffer,
                pending_action: PendingAction::Idle,
                status_message: new.status_message,
                ..old
            })
            &&& new.input_buffer@.len() == 0
            &&& new.status_message@ == "Elegí los archivos a subir (Espacio marca, u sube)"@
        },
        Key::Char('g') | Key::Char('G') => {
            let keys = old.marked_visible(old.visible_spec().len());
            &&& eff is Nothing
            &&& if old.current_panel == Panel::Objects && old.current_bucket is Some && keys.len() > 0 {
                &&& new == (AppState {
                    input_mode: InputMode::Directory,
                    input_buffer: new.input_buffer,
                    pending_action: new.pending_action,
                    ..old
                })
                &&& new.input_buffer@ == "./"@
                &&& new.pending_action matches PendingAction::DownloadMany { bucket, keys: ks } && Some(bucket)
                    == old.current_bucket && ks@ == keys
            } else if old.current_panel == Panel::Objects && old.current_bucket is Some && sel is Some
                && !old.objects@[sel->0].is_folder {
                &&& new == (AppState {
                    input_mode: InputMode::Directory,
                    input_buffer: new.input_buffer,
                    pending_action: new.pending_action,
                    ..old
                })
                &&& new.input_buffer@ == "./"@
                &&& new.pending_action matches PendingAction::Download { bucket, key } && Some(bucket)
                    == old.current_bucket && key == old.objects@[sel->0].key
            } else {
                new == old
            }
        },
        Key::Char(' ') => eff is Nothing && toggle_select_post(old, new),
        Key::Char('a') | Key::Char('A') => {
            &&& eff is Nothing
            &&& if old.current_panel == Panel::Objects {
                exists|mid: AppState|
                    #[trigger] select_all_post(old, mid) && status_set(
                        mid,
                        new,
                        "Seleccionados "@ + decimal(mid.marked_visible(mid.visible_spec().len()).len())
                            + " objeto(s)"@,
                    )
            } else {
                new == old
            }
        },
        Key::Char('c') | Key::Char('C') => {
            &&& eff is Nothing
            &&& if old.selected_keys@.len() > 0 {
                &&& new == (AppState {
                    selected_keys: new.selected_keys,
                    status_message: new.status_message,
                    ..old
                })
                &&& new.selected_keys@.len() == 0
                &&& new.status_message@ == "Selección limpiada"@
            } else {
                new == old
            }
        },
        Key::Char('r') | Key::Char('R') => if old.current_panel == Panel::Objects && old.current_bucket is Some {
            &&& new == (AppState { loading_state: new.loading_state, ..old })
            &&& loading_text(new.loading_state) == Some("Sincronizando desde S3..."@)
            &&& eff matches Effect::ListObjects { bucket, prefix } && Some(bucket) == old.current_bucket
                && prefix@ == old.current_prefix@
        } else {
            new == old && eff is Nothing
        },
        Key::Char('d') => {
            let keys = old.marked_visible(old.visible_spec().len());
            &&& eff is Nothing
            &&& if old.current_panel == Panel::Objects && old.current_bucket is Some && keys.len() > 0 {
                &&& new == (AppState {
                    input_mode: InputMode::Confirm,
                    input_buffer: new.input_buffer,
                    pending_action: new.pending_action,
                    status_message: new.status_message,
                    ..old
                })
                &&& new.input_buffer@.len() == 0
                &&& new.status_message@ == "¿Borrar "@ + decimal(keys.len())
                    + " objeto(s) seleccionados? Presioná y para confirmar"@
                &&& new.pending_action matches PendingAction::DeleteMany { bucket, keys: ks } && Some(bucket)
                    == old.current_bucket && ks@ == keys
            } else if old.current_panel == Panel::Objects && old.current_bucket is Some && sel is Some
                && !old.objects@[sel->0].is_folder {
                &&& new == (AppState {
                    input_mode: InputMode::Confirm,
                    input_buffer: new.input_buffer,
                    pending_action: new.pending_action,
                    ..old
                })
                &&& new.input_buffer@.len() == 0
                &&& new.pending_action matches PendingAction::DeleteObject { bucket, key } && Some(bucket)
                    == old.current_bucket && key == old.objects@[sel->0].key
            } else {
                new == old
            }
        },
        Key::Char('i') | Key::Char('I') => match old.current_panel {
            Panel::Objects => if old.current_bucket is Some && sel is Some && !old.objects@[sel->0].is_folder {
                &&& new == (AppState { loading_state: new.loading_state, ..old })
                &&& loading_text(new.loading_state) == Some("Cargando información del objeto..."@)
                &&& eff matches Effect::GetObjectInfo { bucket, key } && Some(bucket) == old.current_bucket
                    && key == old.objects@[sel->0].key
            } else {
                new == old && eff is Nothing
            },
            Panel::Preview => eff is Nothing && new == (AppState { current_panel: Panel::Objects, ..old }),
            Panel::Buckets => eff is Nothing && new == old,
        },
        Key::Char('/') => {
            &&& eff is Nothing
            &&& if old.current_panel == Panel::Objects {
                &&& new == (AppState {
                    input_mode: InputMode::Filter,
                    input_buffer: new.input_buffer,
                    status_message: new.status_message,
                    ..old
                })
                &&& new.input_buffer@.len() == 0
                &&& new.status_message@ == "Filtro: escribí para buscar, Enter aplica, Esc limpia"@
            } else {
                new == old
            }
        },
        _ => new == old && eff is Nothing,
    }
}

/// A key press in any state: the help panel first, then the active input
/// mode, then the panels.
pub open spec fn key_post(old: AppState, key: Key, new: AppState, eff: Effect) -> bool {
    if old.show_help {
        help_post(old, key, new, eff)
    } else if old.input_mode != InputMode::Normal {
        input_post(old, key, new, eff)
    } else {
        main_post(old, key, new, eff)
    }
}

// ---------------------------------------------------------------------
// Handlers
// ---------------------------------------------------------------------
impl AppState {
    fn take_pending(&mut self) -> (a: PendingAction)
        ensures
            a == old(self).pending_action,
            *final(self) == (AppState { pending_action: PendingAction::Idle, ..*old(self) }),
    {
        let mut a = PendingAction::Idle;
        std::mem::swap(&mut a, &mut self.pending_action);
        a
    }

    fn handle_help_key(&mut self, key: Key) -> (eff: Effect)
        ensures
            help_post(*old(self), key, *final(self), eff),
    {
        match key {
            Key::Char('?') | Key::Esc | Key::Char('q') | Key::Char('Q') => {
                self.show_help = false;
                self.help_scroll = 0;
            },
            Key::Down | Key::Char('j') => {
                self.help_scroll = self.help_scroll.saturating_add(1);
            },
            Key::Up | Key::Char('k') => {
                self.help_scroll = self.help_scroll.saturating_sub(1);
            },
            _ => {},
        }
        Effect::Nothing
    }

    fn handle_confirm_key(&mut self, key: Key) -> (eff: Effect)
        requires
            old(self).wf(),
        ensures
            final(self).wf(),
            confirm_post(*old(self), key, *final(self), eff),
    {
        match key {
            Key::Char('y') | Key::Char('Y') => {
                let action = self.take_pending();
                self.cancel_input();
                match action {
                    PendingAction::DeleteObject { bucket, key } => {
                        self.loading_state = LoadingState::Loading(concat3("Borrando ", key.as_str(), "..."));
                        Effect::DeleteObject { bucket, key }
                    },
                    PendingAction::DeleteMany { bucket, keys } => {
                        let n = decimal_string(keys.len());
                        self.clear_selection();
                        self.loading_state = LoadingState::Loading(concat3("Borrando ", n.as_str(), " objeto(s)..."));
                        Effect::DeleteMany { bucket, keys }
                    },
                    _ => Effect::Nothing,
                }
            },
            Key::Char('n') | Key::Char('N') | Key::Esc => {
                self.cancel_input();
                self.status_message = "Acción cancelada".to_string();
                Effect::Nothing
            },
            _ => Effect::Nothing,
        }
    }

    fn handle_directory_key(&mut self, key: Key) -> (eff: Effect)
        requires
            old(self).wf(),
        ensures
            final(self).wf(),
            directory_post(*old(self), key, *final(self), eff),
    {
        match key {
            Key::Char(c) => {
                push_char(&mut self.input_buffer, c);
                Effect::Nothing
            },
            Key::Backspace => {
                pop_char(&mut self.input_buffer);
                Effect::Nothing
            },
            Key::Enter => {
                let action = self.take_pending();
                let dest_dir = trim_str(self.input_buffer.as_str());
                self.cancel_input();
                match action {
                    PendingAction::Download { bucket, key } => {
                        let dest_path = download_destination(dest_dir.as_str(), key.as_str());
                        self.loading_state = LoadingState::Loading(concat3("Descargando ", key.as_str(), "..."));
                        Effect::Download { bucket, key, dest_path }
                    },
                    PendingAction::DownloadMany { bucket, keys } => {
                        let n = decimal_string(keys.len());
                        self.loading_state = LoadingState::Loading(
                            concat4("Descargando ", n.as_str(), " objeto(s) a ", dest_dir.as_str()),
                        );
                        Effect::DownloadMany { bucket, keys, dest_dir }
                    },
                    _ => Effect::Nothing,
                }
            },
            Key::Esc => {
                self.cancel_input();
                self.status_message = "Descarga cancelada".to_string();
                Effect::Nothing
            },
            _ => Effect::Nothing,
        }
    }

    fn handle_filter_key(&mut self, key: Key) -> (eff: Effect)
        requires
            old(self).wf(),
        ensures
            final(self).wf(),
            filter_post(*old(self), key, *final(self), eff),
    {
        match key {
            Key::Char(c) => {
                push_char(&mut self.input_buffer, c);
                self.filter = self.input_buffer.clone();
                self.selected_index = 0;
            },
            Key::Backspace => {
                pop_char(&mut self.input_buffer);
                self.filter = self.input_buffer.clone();
                self.selected_index = 0;
            },
            Key::Enter => {
                let count = self.visible_count();
                self.cancel_input();
                let n = decimal_string(count);
                self.status_message = concat5(
                    "Filtro aplicado: '",
                    self.filter.as_str(),
                    "' - ",
                    n.as_str(),
                    " coincidencia(s)",
                );
            },
            Key::Esc => {
                self.cancel_input();
                clear_string(&mut self.filter);
                self.selected_index = 0;
                self.status_message = "Filtro limpiado".to_string();
            },
            _ => {},
        }
        Effect::Nothing
    }

    fn handle_storage_class_key(&mut self, key: Key) -> (eff: Effect)
        requires
            old(self).wf(),
        ensures
            final(self).wf(),
            storage_class_post(*old(self), key, *final(self), eff),
    {
        match key {
            Key::Up | Key::Char('k') => {
                if self.metadata_editor.storage_class_index > 0 {
                    self.metadata_editor.storage_class_index -= 1;
                }
            },
            Key::Down | Key::Char('j') => {
                let opts = StorageClass::uploadable();
                if self.metadata_editor.storage_class_index < opts.len() - 1 {
                    self.metadata_editor.storage_class_index += 1;
                }
            },
            Key::Enter => {
                let opts = StorageClass::uploadable();
                if self.metadata_editor.storage_class_index < opts.len() {
                    self.metadata_editor.storage_class = opts[self.metadata_editor.storage_class_index].clone();
                }
                self.input_mode = InputMode::Metadata;
                let label = self.metadata_editor.storage_class.label();
                self.status_message = concat2("Clase de almacenamiento: ", label.as_str());
            },
            Key::Esc => {
                self.input_mode = InputMode::Metadata;
                self.status_message = "Clase sin cambios".to_string();
            },
            _ => {},
        }
        Effect::Nothing
    }

    fn commit_buffer(&mut self) -> (e1: Ghost<MetadataEditor>)
        ensures
            *final(self) == (AppState {
                metadata_editor: final(self).metadata_editor,
                input_buffer: final(self).input_buffer,
                ..*old(self)
            }),
            final(self).input_buffer@.len() == 0,
            commit_post(old(self).metadata_editor, old(self).input_buffer@, final(self).metadata_editor),
            e1@ == final(self).metadata_editor,
    {
        self.metadata_editor.commit_cell(self.input_buffer.as_str());
        clear_string(&mut self.input_buffer);
        Ghost(self.metadata_editor)
    }

    fn class_index(sc: &StorageClass) -> (i: usize)
        ensures
            i == class_position(*sc),
    {
        match sc {
            StorageClass::Standard => 0,
            StorageClass::StandardIa => 1,
            StorageClass::IntelligentTiering => 2,
            StorageClass::OneZoneIa => 3,
            StorageClass::Glacier => 4,
            StorageClass::GlacierIr => 5,
            StorageClass::DeepArchive => 6,
            StorageClass::ReducedRedundancy => 7,
            _ => 0,
        }
    }

    fn handle_metadata_key(&mut self, key: Key) -> (eff: Effect)
        requires
            old(self).wf(),
        ensures
            final(self).wf(),
            metadata_post(*old(self), key, *final(self), eff),
    {
        match key {
            Key::Down => {
                let e1 = self.commit_buffer();
                self.metadata_editor.move_row(1);
                assert(commit_post(old(self).metadata_editor, old(self).input_buffer@, e1@));
                Effect::Nothing
            },
            Key::Up => {
                let e1 = self.commit_buffer();
                self.metadata_editor.move_row(-1);
                assert(commit_post(old(self).metadata_editor, old(self).input_buffer@, e1@));
                Effect::Nothing
            },
            Key::Tab => {
                let e1 = self.commit_buffer();
                self.metadata_editor.toggle_field();
                assert(commit_post(old(self).metadata_editor, old(self).input_buffer@, e1@));
                Effect::Nothing
            },
            Key::Enter => {
                let e1 = self.commit_buffer();
                if self.metadata_editor.field == MetadataField::Key {
                    self.metadata_editor.field = MetadataField::Value;
                } else {
                    self.metadata_editor.advance_after_value();
                }
                assert(commit_post(old(self).metadata_editor, old(self).input_buffer@, e1@));
                Effect::Nothing
            },
            Key::Char('A') => {
                self.metadata_editor.add_row();
                clear_string(&mut self.input_buffer);
                self.status_message = "Fila nueva - escribí la clave, Enter, y luego el valor".to_string();
                Effect::Nothing
            },
            Key::Char('D') | Key::Delete => {
                let removed = self.metadata_editor.delete_row();
                assert(delete_row_post(old(self).metadata_editor, self.metadata_editor, removed));
                if removed {
                    clear_string(&mut self.input_buffer);
                    self.status_message = "Fila eliminada".to_string();
                } else {
                    self.status_message = "No hay nada para borrar - usá A para agregar una fila".to_string();
                }
                Effect::Nothing
            },
            Key::Char('N') | Key::BackTab => {
                let e1 = self.commit_buffer();
                self.metadata_editor.select_next();
                assert(commit_post(old(self).metadata_editor, old(self).input_buffer@, e1@));
                Effect::Nothing
            },
            Key::Char('P') => {
                let e1 = self.commit_buffer();
                self.metadata_editor.select_prev();
                assert(commit_post(old(self).metadata_editor, old(self).input_buffer@, e1@));
                Effect::Nothing
            },
            Key::Char('U') => {
                self.commit_buffer();
                let files = self.metadata_editor.to_upload();
                assert(files_view(files@).len() == files@.len());
                assert(self.metadata_editor.files_v().len() == self.metadata_editor.files@.len());
                if files.len() == 0 {
                    self.status_message = "No marcaste archivos para subir".to_string();
                    Effect::Nothing
                } else {
                    match &self.current_bucket {
                        Some(b) => {
                            let bucket = b.clone();
                            let prefix = copy_str(self.current_prefix.as_str());
                            let storage_class = self.metadata_editor.storage_class.clone();
                            let n = decimal_string(files.len());
                            self.cancel_input();
                            self.loading_state = LoadingState::Loading(concat3("Subiendo ", n.as_str(), " archivo(s)..."));
                            Effect::Upload { bucket, prefix, files, storage_class }
                        },
                        None => {
                            self.status_message = "Seleccioná un bucket primero".to_string();
                            Effect::Nothing
                        },
                    }
                }
            },
            Key::Char('C') => {
                let e1 = self.commit_buffer();
                self.metadata_editor.storage_class_index = Self::class_index(&self.metadata_editor.storage_class);
                self.input_mode = InputMode::StorageClass;
                let label = self.metadata_editor.storage_class.label();
                self.status_message = concat3(
                    "Elegí la clase de almacenamiento (actual: ",
                    label.as_str(),
                    ") · ↑↓:elegir · Enter:confirmar · Esc:cancelar",
                );
                assert(commit_post(old(self).metadata_editor, old(self).input_buffer@, e1@));
                Effect::Nothing
            },
            Key::Esc => {
                if !is_empty_str(self.input_buffer.as_str()) {
                    clear_string(&mut self.input_buffer);
                } else {
                    self.input_mode = InputMode::FilePicker;
                    clear_string(&mut self.input_buffer);
                    self.pending_action = PendingAction::Idle;
                    self.status_message = "Volviste al selector de archivos - presioná u para metadatos".to_string();
                }
                Effect::Nothing
            },
            Key::Char(c) => {
                push_char(&mut self.input_buffer, c);
                Effect::Nothing
            },
            Key::Backspace => {
                pop_char(&mut self.input_buffer);
                Effect::Nothing
            },
            _ => Effect::Nothing,
        }
    }

    fn handle_picker_key(&mut self, key: Key) -> (eff: Effect)
        requires
            old(self).wf(),
        ensures
            final(self).wf(),
            picker_post(*old(self), key, *final(self), eff),
    {
        match key {
            Key::Up | Key::Char('k') => {
                self.file_picker.select_prev();
                Effect::Nothing
            },
            Key::Down | Key::Char('j') => {
                self.file_picker.select_next();
                Effect::Nothing
            },
            Key::Enter | Key::Right => {
                let entered = self.file_picker.enter();
                let ghost f1 = self.file_picker;
                if entered {
                    assert(enter_post(old(self).file_picker, f1, entered));
                    Effect::ReloadPicker
                } else {
                    let t = self.file_picker.toggle_selected();
                    assert(toggle_post(f1, self.file_picker, t));
                    assert(enter_post(old(self).file_picker, f1, entered));
                    Effect::Nothing
                }
            },
            Key::Left | Key::Backspace => {
                if is_empty_str(self.file_picker.filter.as_str()) {
                    let up = self.file_picker.go_up();
                    assert(go_up_spec(old(self).file_picker, self.file_picker, up));
                    if up {
                        Effect::ReloadPicker
                    } else {
                        Effect::Nothing
                    }
                } else {
                    pop_char(&mut self.file_picker.filter);
                    self.file_picker.selected_index = 0;
                    Effect::Nothing
                }
            },
            Key::Char(' ') => {
                let before = self.file_picker.selection_count();
                let t = self.file_picker.toggle_selected();
                assert(toggle_post(old(self).file_picker, self.file_picker, t));
                let after = self.file_picker.selection_count();
                let n = decimal_string(after);
                self.status_message = if after > before {
                    concat3("Marcado (", n.as_str(), " seleccionados) - presioná u para subir")
                } else if after < before {
                    concat3("Desmarcado (", n.as_str(), " seleccionados)")
                } else {
                    concat2(n.as_str(), " seleccionados (las carpetas abren con Enter)")
                };
                Effect::Nothing
            },
            Key::Char('a') | Key::Char('A') => {
                self.file_picker.select_all_visible();
                let n = decimal_string(self.file_picker.selection_count());
                self.status_message = concat3("Seleccionados ", n.as_str(), " elemento(s)");
                Effect::Nothing
            },
            Key::Char('c') | Key::Char('C') => {
                self.file_picker.clear_selection();
                self.status_message = "Selección limpiada".to_string();
                Effect::Nothing
            },
            Key::Char('u') | Key::Char('U') => {
                if self.file_picker.selection_count() == 0 {
                    self.status_message = "No marcaste nada - presioná Espacio sobre un archivo o carpeta".to_string();
                } else {
                    let paths = self.file_picker.selected_paths();
                    self.start_metadata(paths);
                    self.status_message = "Agregá metadatos en la tabla (A:fila nueva · Tab:cambia campo)".to_string();
                }
                Effect::Nothing
            },
            Key::Esc => {
                if is_empty_str(self.file_picker.filter.as_str()) {
                    self.cancel_input();
                    self.status_message = "Subida cancelada".to_string();
                } else {
                    clear_string(&mut self.file_picker.filter);
                    self.file_picker.selected_index = 0;
                    self.status_message = "Filtro limpiado".to_string();
                }
                Effect::Nothing
            },
            Key::Char(c) => {
                let fl = crate::text::chars_of(self.file_picker.filter.as_str()).len();
                if fl < MAX_QUERY_LEN {
                    push_char(&mut self.file_picker.filter, c);
                    self.file_picker.selected_index = 0;
                }
                Effect::Nothing
            },
            _ => Effect::Nothing,
        }
    }

    fn main_enter(&mut self) -> (eff: Effect)
        requires
            old(self).wf(),
        ensures
            final(self).wf(),
            main_post(*old(self), Key::Enter, *final(self), eff),
    {
        match self.current_panel {
            Panel::Buckets => {
                let r = self.enter_bucket();
                assert(enter_bucket_post(*old(self), *self, r));
                match r {
                    Some(bucket) => {
                        let loading = concat3("Cargando ", bucket.as_str(), "...");
                        Effect::LookupCache { bucket, prefix: String::new(), loading }
                    },
                    None => Effect::Nothing,
                }
            },
            Panel::Objects => {
                let r = self.enter_folder();
                assert(enter_folder_post(*old(self), *self, r));
                match r {
                    Some(prefix) => match &self.current_bucket {
                        Some(b) => {
                            let bucket = b.clone();
                            let loading = concat3("Cargando ", prefix.as_str(), "...");
                            Effect::LookupCache { bucket, prefix, loading }
                        },
                        None => Effect::Nothing,
                    },
                    None => Effect::Nothing,
                }
            },
            Panel::Preview => Effect::Nothing,
        }
    }

    fn main_back(&mut self) -> (eff: Effect)
        requires
            old(self).wf(),
        ensures
            final(self).wf(),
            main_post(*old(self), Key::Left, *final(self), eff),
    {
        let r = self.go_back();
        let ghost mid = *self;
        assert(go_back_post(*old(self), mid, r));
        match r {
            Some((bucket, prefix)) => {
                self.loading_state = LoadingState::Loading("Cargando...".to_string());
                Effect::ListObjects { bucket, prefix }
            },
            None => Effect::Nothing,
        }
    }

    fn main_transfer_prompt(&mut self, delete: bool) -> (eff: Effect)
        requires
            old(self).wf(),
        ensures
            final(self).wf(),
            delete ==> main_post(*old(self), Key::Char('d'), *final(self), eff),
            !delete ==> main_post(*old(self), Key::Char('g'), *final(self), eff),
    {
        if self.current_panel != Panel::Objects {
            return Effect::Nothing;
        }
        let bucket = match &self.current_bucket {
            Some(b) => b.clone(),
            None => {
                return Effect::Nothing;
            },
        };
        let keys = self.selected_keys_in_visible();
        if keys.len() > 0 {
            if delete {
                let n = decimal_string(keys.len());
                self.input_mode = InputMode::Confirm;
                clear_string(&mut self.input_buffer);
                self.status_message = concat3("¿Borrar ", n.as_str(), " objeto(s) seleccionados? Presioná y para confirmar");
                self.pending_action = PendingAction::DeleteMany { bucket, keys };
            } else {
                self.start_input(InputMode::Directory, "./");
                self.pending_action = PendingAction::DownloadMany { bucket, keys };
            }
            return Effect::Nothing;
        }
        let single = match self.selected_object() {
            Some(o) => {
                if o.is_folder {
                    return Effect::Nothing;
                }
                o.key.clone()
            },
            None => {
                return Effect::Nothing;
            },
        };
        if delete {
            self.input_mode = InputMode::Confirm;
            clear_string(&mut self.input_buffer);
            self.pending_action = PendingAction::DeleteObject { bucket, key: single };
        } else {
            self.start_input(InputMode::Directory, "./");
            self.pending_action = PendingAction::Download { bucket, key: single };
        }
        Effect::Nothing
    }

    fn main_info(&mut self) -> (eff: Effect)
        requires
            old(self).wf(),
        ensures
            final(self).wf(),
            main_post(*old(self), Key::Char('i'), *final(self), eff),
    {
        match self.current_panel {
            Panel::Objects => {
                let bucket = match &self.current_bucket {
                    Some(b) => b.clone(),
                    None => {
                        return Effect::Nothing;
                    },
                };
                match self.selected_object() {
                    Some(o) => {
                        if o.is_folder {
                            return Effect::Nothing;
                        }
                        let key = o.key.clone();
                        self.loading_state = LoadingState::Loading("Cargando información del objeto...".to_string());
                        Effect::GetObjectInfo { bucket, key }
                    },
                    None => Effect::Nothing,
                }
            },
            Panel::Preview => {
                self.current_panel = Panel::Objects;
                Effect::Nothing
            },
            Panel::Buckets => Effect::Nothing,
        }
    }

    fn main_select_all(&mut self) -> (eff: Effect)
        requires
            old(self).wf(),
        ensures
            final(self).wf(),
            main_post(*old(self), Key::Char('a'), *final(self), eff),
    {
        if self.current_panel == Panel::Objects {
            self.select_all_visible();
            let ghost mid = *self;
            assert(select_all_post(*old(self), mid));
            let n = decimal_string(self.selected_keys_in_visible().len());
            self.status_message = concat3("Seleccionados ", n.as_str(), " objeto(s)");
        }
        Effect::Nothing
    }

    fn main_key(&mut self, key: Key) -> (eff: Effect)
        requires
            old(self).wf(),
        ensures
            final(self).wf(),
            main_post(*old(self), key, *final(self), eff),
    {
        match key {
            Key::Char('q') | Key::Char('Q') => {
                self.should_quit = true;
                Effect::Nothing
            },
            Key::Char('?') => {
                self.show_help = true;
                self.help_scroll = 0;
                self.status_message = "?:cierra la ayuda · ↑↓/jk:desplazar".to_string();
                Effect::Nothing
            },
            Key::Up | Key::Char('k') => {
                self.select_prev();
                Effect::Nothing
            },
            Key::Down | Key::Char('j') => {
                self.select_next();
                Effect::Nothing
            },
            Key::Enter => self.main_enter(),
            Key::Left | Key::Char('h') => self.main_back(),
            Key::Char('u') | Key::Char('U') => {
                if self.current_bucket.is_none() {
                    self.status_message = "Seleccioná un bucket primero (Enter) para subir archivos".to_string();
                    Effect::Nothing
                } else {
                    self.input_mode = InputMode::FilePicker;
                    clear_string(&mut self.input_buffer);
                    self.pending_action = PendingAction::Idle;
                    self.status_message = "Elegí los archivos a subir (Espacio marca, u sube)".to_string();
                    Effect::ResetPicker
                }
            },
            Key::Char('g') | Key::Char('G') => self.main_transfer_prompt(false),
            Key::Char(' ') => {
                self.toggle_select_current();
                Effect::Nothing
            },
            Key::Char('a') | Key::Char('A') => self.main_select_all(),
            Key::Char('c') | Key::Char('C') => {
                if self.selected_keys.len() > 0 {
                    self.clear_selection();
                    self.status_message = "Selección limpiada".to_string();
                }
                Effect::Nothing
            },
            Key::Char('r') | Key::Char('R') => {
                if self.current_panel == Panel::Objects {
                    match &self.current_bucket {
                        Some(b) => {
                            let bucket = b.clone();
                            let prefix = copy_str(self.current_prefix.as_str());
                            self.loading_state = LoadingState::Loading("Sincronizando desde S3...".to_string());
                            return Effect::ListObjects { bucket, prefix };
                        },
                        None => {},
                    }
                }
                Effect::Nothing
            },
            Key::Char('d') => self.main_transfer_prompt(true),
            Key::Char('i') | Key::Char('I') => self.main_info(),
            Key::Char('/') => {
                if self.current_panel == Panel::Objects {
                    self.input_mode = InputMode::Filter;
                    clear_string(&mut self.input_buffer);
                    self.status_message = "Filtro: escribí para buscar, Enter aplica, Esc limpia".to_string();
                }
                Effect::Nothing
            },
            _ => Effect::Nothing,
        }
    }

    /// Handle a key press in an input mode.
    pub fn handle_input_key(&mut self, key: Key) -> (eff: Effect)
        requires
            old(self).wf(),
        ensures
            final(self).wf(),
            input_post(*old(self), key, *final(self), eff),
    {
        match self.input_mode {
            InputMode::Confirm => self.handle_confirm_key(key),
            InputMode::FilePicker => self.handle_picker_key(key),
            InputMode::Metadata => self.handle_metadata_key(key),
            InputMode::StorageClass => self.handle_storage_class_key(key),
            InputMode::Directory => self.handle_directory_key(key),
            InputMode::Filter => self.handle_filter_key(key),
            InputMode::Normal => Effect::Nothing,
        }
    }

    /// Handle a key press: the help panel first, then the active input mode,
    /// then the panels. Returns the outside work to carry out.
    pub fn handle_key(&mut self, key: Key) -> (eff: Effect)
        requires
            old(self).wf(),
        ensures
            final(self).wf(),
            key_post(*old(self), key, *final(self), eff),
    {
        if self.show_help {
            return self.handle_help_key(key);
        }
        if self.input_mode != InputMode::Normal {
            return self.handle_input_key(key);
        }
        self.main_key(key)
    }
}


// ---------------------------------------------------------------------
// Results of outside work
// ---------------------------------------------------------------------
/// The first components (local paths or keys) of a batch's failures, joined
/// by `", "`.
pub open spec fn joined_failures(f: Seq<(String, String)>) -> Seq<char>
    decreases f.len(),
{
    if f.len() == 0 {
        Seq::empty()
    } else if f.len() == 1 {
        f[0].0@
    } else {
        joined_failures(f.drop_last()) + ", "@ + f.last().0@
    }
}

/// Status line after a batch of `ok` successes and `failures`: `verb` and the
/// count with `unit` when nothing failed, else both counts and the names that
/// failed.
pub open spec fn batch_message(verb: Seq<char>, ok: nat, failures: Seq<(String, String)>, unit: Seq<char>) -> Seq<char> {
    if failures.len() == 0 {
        verb + " "@ + decimal(ok) + unit
    } else {
        verb + " "@ + decimal(ok) + ", fallaron "@ + decimal(failures.len()) + ": "@ + joined_failures(failures)
    }
}

/// After work that changed the current folder: list it again when a bucket is
/// open (showing `Actualizando...`), else go idle.
pub open spec fn refresh_effect(bucket: Option<String>, prefix: String, loading: LoadingState, eff: Effect) -> bool {
    match bucket {
        Some(b) => {
            &&& loading_text(loading) == Some("Actualizando..."@)
            &&& eff matches Effect::ListObjects { bucket, prefix: p } && bucket == b && p@ == prefix@
        },
        None => loading is Idle && eff is Nothing,
    }
}

/// `new` is `old` with a new status message `msg` and loading state
/// `loading`, and nothing else changed.
pub open spec fn status_and_loading(old: AppState, new: AppState, msg: Seq<char>) -> bool {
    &&& new == (AppState { status_message: new.status_message, loading_state: new.loading_state, ..old })
    &&& new.status_message@ == msg
}

/// The state and the outside work after the result `msg` comes back.
pub open spec fn task_post(old: AppState, msg: TaskMessage, new: AppState, eff: Effect) -> bool {
    match msg {
        TaskMessage::BucketsLoaded(result) => {
            &&& eff is Nothing
            &&& match result {
                Ok(b) => {
                    &&& new == (AppState { buckets: b, status_message: new.status_message, ..old })
                    &&& new.status_message@ == "Cargados "@ + decimal(b@.len()) + " bucket(s)"@
                },
                Err(e) => {
                    &&& status_and_loading(old, new, "Error al cargar buckets: "@ + e@)
                    &&& new.loading_state == LoadingState::Error(e)
                },
            }
        },
        TaskMessage::ObjectsLoaded { bucket, prefix, result } => {
            &&& eff is Nothing
            &&& new.loading_state is Idle
            &&& match result {
                Ok(objects) => {
                    &&& new == (AppState {
                        objects,
                        current_bucket: Some(bucket),
                        current_prefix: prefix,
                        loading_state: new.loading_state,
                        status_message: new.status_message,
                        ..old
                    })
                    &&& new.status_message@ == "s3://"@ + bucket@ + "/"@ + prefix@ + " - "@ + decimal(objects@.len()) + " elemento(s)"@
                },
                Err(e) => status_and_loading(old, new, "Error al cargar objetos: "@ + e@),
            }
        },
        TaskMessage::FilesUploaded { result } => {
            &&& status_and_loading(old, new, match result {
                Ok(r) => batch_message("Subidos"@, r.uploaded@.len(), r.failures@, " archivo(s)"@),
                Err(e) => "Error al subir: "@ + e@,
            })
            &&& refresh_effect(old.current_bucket, old.current_prefix, new.loading_state, eff)
        },
        TaskMessage::ObjectDownloaded { result } => {
            &&& eff is Nothing
            &&& new.loading_state is Idle
            &&& status_and_loading(old, new, match result {
                Ok(path) => "Descargado en "@ + path@,
                Err(e) => "Error al descargar: "@ + e@,
            })
        },
        TaskMessage::ObjectDeleted { result } => {
            &&& status_and_loading(old, new, match result {
                Ok(key) => "Eliminado s3://"@ + key@,
                Err(e) => "Error al borrar: "@ + e@,
            })
            &&& refresh_effect(old.current_bucket, old.current_prefix, new.loading_state, eff)
        },
        TaskMessage::ObjectsDeleted { result } => {
            &&& new == (AppState {
                status_message: new.status_message,
                loading_state: new.loading_state,
                selected_keys: new.selected_keys,
                ..old
            })
            &&& new.selected_keys@.len() == 0
            &&& new.status_message@ == match result {
                Ok(keys) => "Eliminados "@ + decimal(keys@.len()) + " objeto(s)"@,
                Err(e) => "Error en el borrado por lotes: "@ + e@,
            }
            &&& refresh_effect(old.current_bucket, old.current_prefix, new.loading_state, eff)
        },
        TaskMessage::ObjectDetailLoaded(result) => {
            &&& eff is Nothing
            &&& new.loading_state is Idle
            &&& match result {
                Ok(d) => {
                    &&& new == (AppState {
                        selected_object_detail: Some(d),
                        current_panel: Panel::Preview,
                        loading_state: new.loading_state,
                        status_message: new.status_message,
                        ..old
                    })
                    &&& new.status_message@ == "Presioná i para cerrar la info"@
                },
                Err(e) => status_and_loading(old, new, "Error al cargar la información del objeto: "@ + e@),
            }
        },
        TaskMessage::ObjectsDownloaded { result } => {
            &&& eff is Nothing
            &&& new.loading_state is Idle
            &&& new == (AppState {
                status_message: new.status_message,
                loading_state: new.loading_state,
                selected_keys: new.selected_keys,
                ..old
            })
            &&& new.selected_keys@.len() == 0
            &&& new.status_message@ == match result {
                Ok(r) => batch_message("Descargados"@, r.downloaded@.len(), r.failures@, " objeto(s)"@),
                Err(e) => "Error en la descarga por lotes: "@ + e@,
            }
        },
    }
}

/// The state and the outside work after a cache lookup for `bucket`/`prefix`
/// answered `cached`.
pub open spec fn cache_post(
    old: AppState,
    bucket: String,
    prefix: String,
    loading: String,
    cached: Option<Vec<ObjectInfo>>,
    new: AppState,
    eff: Effect,
) -> bool {
    match cached {
        Some(objects) => {
            &&& eff is Nothing
            &&& new == (AppState { objects, status_message: new.status_message, ..old })
            &&& new.status_message@ == "s3://"@ + bucket@ + "/"@ + prefix@ + " - desde cache local"@
        },
        None => {
            &&& new == (AppState { loading_state: LoadingState::Loading(loading), ..old })
            &&& eff == (Effect::ListObjects { bucket, prefix })
        },
    }
}

/// The failures' first components joined by `", "`.
fn join_failures(failures: &Vec<(String, String)>) -> (r: String)
    ensures
        r@ == joined_failures(failures@),
{
    let mut out = String::new();
    let mut i: usize = 0;
    while i < failures.len()
        invariant
            i <= failures.len(),
            out@ == joined_failures(failures@.take(i as int)),
        decreases failures.len() - i,
    {
        if i == 0 {
            out = copy_str(failures[i].0.as_str());
        } else {
            out = concat3(out.as_str(), ", ", failures[i].0.as_str());
        }
        proof {
            assert(failures@.take(i + 1).drop_last() =~= failures@.take(i as int));
        }
        i = i + 1;
    }
    proof {
        assert(failures@.take(failures.len() as int) =~= failures@);
    }
    out
}

/// Status line of a finished batch (see [`batch_message`]).
fn batch_text(verb: &str, ok: usize, failures: &Vec<(String, String)>, unit: &str) -> (r: String)
    ensures
        r@ == batch_message(verb@, ok as nat, failures@, unit@),
{
    let n = decimal_string(ok);
    if failures.len() == 0 {
        concat4(verb, " ", n.as_str(), unit)
    } else {
        let f = decimal_string(failures.len());
        let names = join_failures(failures);
        let head = concat4(verb, " ", n.as_str(), ", fallaron ");
        concat4(head.as_str(), f.as_str(), ": ", names.as_str())
    }
}

impl AppState {
    /// List the current folder again when a bucket is open, else go idle.
    fn refresh(&mut self) -> (eff: Effect)
        ensures
            *final(self) == (AppState { loading_state: final(self).loading_state, ..*old(self) }),
            refresh_effect(old(self).current_bucket, old(self).current_prefix, final(self).loading_state, eff),
    {
        match &self.current_bucket {
            Some(b) => {
                let bucket = b.clone();
                let prefix = copy_str(self.current_prefix.as_str());
                self.loading_state = LoadingState::Loading("Actualizando...".to_string());
                Effect::ListObjects { bucket, prefix }
            },
            None => {
                self.loading_state = LoadingState::Idle;
                Effect::Nothing
            },
        }
    }

    /// Take in the result of background work. Returns the outside work that
    /// follows from it (listing the current folder again after a change).
    pub fn handle_task_message(&mut self, msg: TaskMessage) -> (eff: Effect)
        requires
            old(self).wf(),
        ensures
            final(self).wf(),
            task_post(*old(self), msg, *final(self), eff),
    {
        match msg {
            TaskMessage::BucketsLoaded(result) => {
                match result {
                    Ok(buckets) => {
                        let n = decimal_string(buckets.len());
                        self.buckets = buckets;
                        self.status_message = concat3("Cargados ", n.as_str(), " bucket(s)");
                    },
                    Err(e) => {
                        self.status_message = concat2("Error al cargar buckets: ", e.as_str());
                        self.loading_state = LoadingState::Error(e);
                    },
                }
                Effect::Nothing
            },
            TaskMessage::ObjectsLoaded { bucket, prefix, result } => {
                match result {
                    Ok(objects) => {
                        let n = decimal_string(objects.len());
                        let head = concat5("s3://", bucket.as_str(), "/", prefix.as_str(), " - ");
                        self.status_message = concat3(head.as_str(), n.as_str(), " elemento(s)");
                        self.objects = objects;
                        self.current_bucket = Some(bucket);
                        self.current_prefix = prefix;
                    },
                    Err(e) => {
                        self.status_message = concat2("Error al cargar objetos: ", e.as_str());
                    },
                }
                self.loading_state = LoadingState::Idle;
                Effect::Nothing
            },
            TaskMessage::FilesUploaded { result } => {
                self.status_message = match &result {
                    Ok(r) => batch_text("Subidos", r.uploaded.len(), &r.failures, " archivo(s)"),
                    Err(e) => concat2("Error al subir: ", e.as_str()),
                };
                self.refresh()
            },
            TaskMessage::ObjectDownloaded { result } => {
                self.status_message = match &result {
                    Ok(path) => concat2("Descargado en ", path.as_str()),
                    Err(e) => concat2("Error al descargar: ", e.as_str()),
                };
                self.loading_state = LoadingState::Idle;
                Effect::Nothing
            },
            TaskMessage::ObjectDeleted { result } => {
                self.status_message = match &result {
                    Ok(key) => concat2("Eliminado s3://", key.as_str()),
                    Err(e) => concat2("Error al borrar: ", e.as_str()),
                };
                self.refresh()
            },
            TaskMessage::ObjectsDeleted { result } => {
                self.status_message = match &result {
                    Ok(keys) => {
                        let n = decimal_string(keys.len());
                        concat3("Eliminados ", n.as_str(), " objeto(s)")
                    },
                    Err(e) => concat2("Error en el borrado por lotes: ", e.as_str()),
                };
                self.clear_selection();
                self.refresh()
            },
            TaskMessage::ObjectDetailLoaded(result) => {
                match result {
                    Ok(detail) => {
                        self.selected_object_detail = Some(detail);
                        self.current_panel = Panel::Preview;
                        self.status_message = "Presioná i para cerrar la info".to_string();
                    },
                    Err(e) => {
                        self.status_message = concat2("Error al cargar la información del objeto: ", e.as_str());
                    },
                }
                self.loading_state = LoadingState::Idle;
                Effect::Nothing
            },
            TaskMessage::ObjectsDownloaded { result } => {
                self.status_message = match &result {
                    Ok(r) => batch_text("Descargados", r.downloaded.len(), &r.failures, " objeto(s)"),
                    Err(e) => concat2("Error en la descarga por lotes: ", e.as_str()),
                };
                self.clear_selection();
                self.loading_state = LoadingState::Idle;
                Effect::Nothing
            },
        }
    }

    /// Take in the answer of a cache lookup for `bucket`/`prefix`: show the
    /// cached listing when there is one, else ask for a remote listing with
    /// `loading` on screen.
    pub fn apply_cached_listing(
        &mut self,
        bucket: String,
        prefix: String,
        loading: String,
        cached: Option<Vec<ObjectInfo>>,
    ) -> (eff: Effect)
        requires
            old(self).wf(),
        ensures
            final(self).wf(),
            cache_post(*old(self), bucket, prefix, loading, cached, *final(self), eff),
    {
        match cached {
            Some(objects) => {
                self.objects = objects;
                let head = concat5("s3://", bucket.as_str(), "/", prefix.as_str(), " - desde cache local");
                self.status_message = head;
                Effect::Nothing
            },
            None => {
                self.loading_state = LoadingState::Loading(loading);
                Effect::ListObjects { bucket, prefix }
            },
        }
    }
}

/// Law: on the object panel with a bucket open, the refresh key asks for a
/// listing of exactly the open bucket and the open folder, and leaves the
/// folder where it is.
pub proof fn lemma_refresh_lists_open_folder(old: AppState, new: AppState, eff: Effect)
    requires
        !old.show_help,
        old.input_mode == InputMode::Normal,
        old.current_panel == Panel::Objects,
        old.current_bucket is Some,
        key_post(old, Key::Char('r'), new, eff),
    ensures
        eff matches Effect::ListObjects { bucket, prefix } && Some(bucket) == old.current_bucket
            && prefix@ == old.current_prefix@,
        new.current_bucket == old.current_bucket,
        new.current_prefix == old.current_prefix,
        new.objects == old.objects,
{
}

} // verus!
