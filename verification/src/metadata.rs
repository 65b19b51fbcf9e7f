//! Per-file upload metadata editor: each marked file owns a small table of
//! `key`/`value` rows that is edited cell by cell before the upload runs.
use vstd::prelude::*;
use crate::storage::StorageClass;
use crate::text::{copy_str, is_empty_str};

verus! {

broadcast use vstd::string::group_string_axioms;

/// Which cell of a row is being edited.
#[derive(Debug, Clone, Copy, PartialEq, Eq, Structural)]
pub enum MetadataField {
    Key,
    Value,
}

impl Default for MetadataField {
    fn default() -> (r: Self)
        ensures
            r == MetadataField::Key,
    {
        MetadataField::Key
    }
}

/// A metadata row as characters.
pub open spec fn row_view(e: (String, String)) -> (Seq<char>, Seq<char>) {
    (e.0@, e.1@)
}

/// The rows of a table as characters.
pub open spec fn rows_view(v: Vec<(String, String)>) -> Seq<(Seq<char>, Seq<char>)> {
    v@.map_values(|e: (String, String)| row_view(e))
}

/// Files and their tables as characters.
pub open spec fn files_view(v: Seq<(String, Vec<(String, String)>)>) -> Seq<(Seq<char>, Seq<(Seq<char>, Seq<char>)>)> {
    v.map_values(|f: (String, Vec<(String, String)>)| (f.0@, rows_view(f.1)))
}

/// The rows kept for upload: those with a non-empty key.
pub open spec fn kept_rows(rows: Seq<(Seq<char>, Seq<char>)>) -> Seq<(Seq<char>, Seq<char>)> {
    rows.filter(|e: (Seq<char>, Seq<char>)| e.0.len() > 0)
}

/// Per-file upload metadata editor.
#[derive(Debug)]
pub struct MetadataEditor {
    pub files: Vec<(String, Vec<(String, String)>)>,
    pub selected: usize,
    pub row: usize,
    pub field: MetadataField,
    /// Storage class applied to every object of the batch upload.
    pub storage_class: StorageClass,
    /// Cursor index inside the storage-class picker popup.
    pub storage_class_index: usize,
}

impl MetadataEditor {
    /// The files and their tables as characters.
    pub open spec fn files_v(&self) -> Seq<(Seq<char>, Seq<(Seq<char>, Seq<char>)>)> {
        files_view(self.files@)
    }

    /// Number of rows of the selected file's table (0 when no file is selected).
    pub open spec fn rows_len(&self) -> nat {
        if self.selected < self.files@.len() {
            self.files@[self.selected as int].1@.len()
        } else {
            0
        }
    }

    /// The row under the cursor, when there is one.
    pub open spec fn cursor_row(&self) -> Option<(Seq<char>, Seq<char>)> {
        if self.selected < self.files@.len() && self.row < self.files@[self.selected as int].1@.len() {
            Some(row_view(self.files@[self.selected as int].1@[self.row as int]))
        } else {
            None
        }
    }

    /// The row under the cursor has no committed key or value (or there is none).
    pub open spec fn cursor_row_empty_spec(&self) -> bool {
        match self.cursor_row() {
            Some(e) => e.0.len() == 0 && e.1.len() == 0,
            None => true,
        }
    }

    /// The editor after `add_row`.
    pub open spec fn add_row_spec(self, new: Self) -> bool {
        if self.selected < self.files@.len() {
            let f = self.files_v()[self.selected as int];
            &&& new == (MetadataEditor {
                files: new.files,
                row: f.1.len() as usize,
                field: MetadataField::Key,
                ..self
            })
            &&& new.files_v() == self.files_v().update(
                self.selected as int,
                (f.0, f.1.push((Seq::<char>::empty(), Seq::<char>::empty()))),
            )
        } else {
            new == self
        }
    }

    /// The editor after `move_row(delta)`.
    pub open spec fn move_row_spec(self, delta: int) -> Self {
        let len = self.rows_len();
        if len == 0 {
            self
        } else {
            let t = self.row + delta;
            let c = if t < 0 {
                0
            } else if t > len - 1 {
                len - 1
            } else {
                t
            };
            MetadataEditor { row: c as usize, ..self }
        }
    }

    /// The editor after `advance_after_value`.
    pub open spec fn advance_spec(self, new: Self) -> bool {
        let s = MetadataEditor { field: MetadataField::Key, ..self };
        if s.rows_len() == 0 {
            new == s
        } else if !s.cursor_row_empty_spec() && s.row == s.rows_len() - 1 {
            s.add_row_spec(new)
        } else {
            new == s.move_row_spec(1)
        }
    }

    /// An editor for `paths`, each with an empty table; uploads start on STANDARD.
    pub fn from_paths(paths: Vec<String>) -> (r: Self)
        ensures
            r.files_v() == paths@.map_values(|p: String| (p@, Seq::<(Seq<char>, Seq<char>)>::empty())),
            r.selected == 0,
            r.row == 0,
            r.field == MetadataField::Key,
            r.storage_class == StorageClass::Standard,
            r.storage_class_index == 0,
    {
        let mut files: Vec<(String, Vec<(String, String)>)> = Vec::new();
        let mut i: usize = 0;
        while i < paths.len()
            invariant
                i <= paths@.len(),
                files_view(files@) == paths@.take(i as int).map_values(
                    |p: String| (p@, Seq::<(Seq<char>, Seq<char>)>::empty()),
                ),
            decreases paths.len() - i,
        {
            let rows: Vec<(String, String)> = Vec::new();
            assert(rows_view(rows) =~= Seq::<(Seq<char>, Seq<char>)>::empty());
            let ghost old_files = files@;
            let p = paths[i].clone();
            files.push((p, rows));
            assert(files@ =~= old_files.push((p, rows)));
            assert(files_view(files@) =~= files_view(old_files).push((p@, rows_view(rows))));
            assert(paths@.take(i + 1) =~= paths@.take(i as int).push(paths@[i as int]));
            assert(files_view(files@) =~= paths@.take(i + 1).map_values(
                |p: String| (p@, Seq::<(Seq<char>, Seq<char>)>::empty()),
            ));
            i += 1;
        }
        assert(paths@.take(paths@.len() as int) =~= paths@);
        MetadataEditor {
            files,
            selected: 0,
            row: 0,
            field: MetadataField::Key,
            storage_class: StorageClass::Standard,
            storage_class_index: 0,
        }
    }

    /// Whether the editor has no file.
    pub fn is_empty(&self) -> (r: bool)
        ensures
            r == (self.files@.len() == 0),
    {
        self.files.len() == 0
    }

    /// Number of files.
    pub fn len(&self) -> (n: usize)
        ensures
            n == self.files@.len(),
    {
        self.files.len()
    }

    /// The file under the cursor with its table.
    pub fn selected_file(&self) -> (r: Option<&(String, Vec<(String, String)>)>)
        ensures
            r matches Some(f) ==> self.selected < self.files@.len() && *f == self.files@[self.selected as int],
            r is None ==> self.selected >= self.files@.len(),
    {
        if self.selected < self.files.len() {
            Some(&self.files[self.selected])
        } else {
            None
        }
    }

    /// Number of rows of the selected file's table (0 when no file is selected).
    pub fn entries_len(&self) -> (n: usize)
        ensures
            n == self.rows_len(),
    {
        if self.selected < self.files.len() {
            self.files[self.selected].1.len()
        } else {
            0
        }
    }

    /// The editor after moving onto the next file.
    pub open spec fn after_select_next(self) -> MetadataEditor {
        (MetadataEditor {
            selected: if self.selected + 1 < self.files@.len() {
                (self.selected + 1) as usize
            } else {
                self.selected
            },
            row: 0,
            field: MetadataField::Key,
            ..self
        })
    }

    /// Move the cursor onto the next marked file (staying on the last one),
    /// back to the first row's key.
    pub fn select_next(&mut self)
        ensures
            *final(self) == old(self).after_select_next(),
    {
        if self.files.len() > 0 && self.selected < self.files.len() - 1 {
            self.selected += 1;
        }
        self.row = 0;
        self.field = MetadataField::Key;
    }

    /// The editor after moving onto the previous file.
    pub open spec fn after_select_prev(self) -> MetadataEditor {
        (MetadataEditor {
            selected: if self.selected > 0 {
                (self.selected - 1) as usize
            } else {
                0
            },
            row: 0,
            field: MetadataField::Key,
            ..self
        })
    }

    /// Move the cursor onto the previous marked file (staying on the first),
    /// back to the first row's key.
    pub fn select_prev(&mut self)
        ensures
            *final(self) == old(self).after_select_prev(),
    {
        if self.selected > 0 {
            self.selected -= 1;
        }
        self.row = 0;
        self.field = MetadataField::Key;
    }

    /// Write `buffer` into the active cell. An empty buffer, or a cursor on no
    /// row, leaves the table untouched.
    pub fn commit_cell(&mut self, buffer: &str)
        ensures
            commit_post(*old(self), buffer@, *final(self)),
    {
        if is_empty_str(buffer) {
            return;
        }
        if self.selected < self.files.len() && self.row < self.files[self.selected].1.len() {
            let sel = self.selected;
            let row = self.row;
            let ghost before = self.files@;
            let mut entry = self.files.remove(sel);
            let mut cell = entry.1.remove(row);
            let value = copy_str(buffer);
            match self.field {
                MetadataField::Key => cell.0 = value,
                MetadataField::Value => cell.1 = value,
            }
            let ghost rows_before = entry.1@;
            entry.1.insert(row, cell);
            self.files.insert(sel, entry);
            proof {
                let f = files_view(before)[sel as int];
                assert(rows_view(entry.1) =~= f.1.update(row as int, row_view(cell)));
                assert(files_view(self.files@) =~= files_view(before).update(
                    sel as int,
                    (f.0, rows_view(entry.1)),
                ));
            }
        }
    }

    /// Switch between the key and the value cell.
    pub fn toggle_field(&mut self)
        ensures
            *final(self) == (MetadataEditor {
                field: match old(self).field {
                    MetadataField::Key => MetadataField::Value,
                    MetadataField::Value => MetadataField::Key,
                },
                ..*old(self)
            }),
    {
        self.field = match self.field {
            MetadataField::Key => MetadataField::Value,
            MetadataField::Value => MetadataField::Key,
        };
    }

    /// Move the row cursor by `delta` rows, clamped to the table, keeping the
    /// active field. Nothing moves when the table is empty.
    pub fn move_row(&mut self, delta: isize)
        ensures
            *final(self) == old(self).move_row_spec(delta as int),
    {
        let len = self.entries_len();
        if len == 0 {
            return;
        }
        let t: i128 = self.row as i128 + delta as i128;
        let next: usize = if t < 0 {
            0
        } else if t > (len - 1) as i128 {
            len - 1
        } else {
            t as usize
        };
        self.row = next;
    }

    /// Append a fresh empty row to the selected file's table and move the
    /// cursor onto its key.
    pub fn add_row(&mut self)
        ensures
            old(self).add_row_spec(*final(self)),
    {
        if self.selected < self.files.len() {
            let sel = self.selected;
            let ghost before = self.files@;
            let mut entry = self.files.remove(sel);
            entry.1.push((String::new(), String::new()));
            let n = entry.1.len();
            self.files.insert(sel, entry);
            self.row = n - 1;
            self.field = MetadataField::Key;
            proof {
                let f = files_view(before)[sel as int];
                assert(rows_view(entry.1) =~= f.1.push((Seq::<char>::empty(), Seq::<char>::empty())));
                assert(files_view(self.files@) =~= files_view(before).update(
                    sel as int,
                    (f.0, rows_view(entry.1)),
                ));
            }
        }
    }

    /// True when the row under the cursor has no committed key or value.
    pub fn cursor_row_is_empty(&self) -> (r: bool)
        ensures
            r == self.cursor_row_empty_spec(),
    {
        if self.selected < self.files.len() && self.row < self.files[self.selected].1.len() {
            let e = &self.files[self.selected].1[self.row];
            is_empty_str(e.0.as_str()) && is_empty_str(e.1.as_str())
        } else {
            true
        }
    }

    /// After committing a value, move onto the next row; a fresh empty row is
    /// appended when the committed row was the last one and already holds
    /// content, so several metadata can be typed in sequence.
    pub fn advance_after_value(&mut self)
        ensures
            old(self).advance_spec(*final(self)),
    {
        self.field = MetadataField::Key;
        let len = self.entries_len();
        if len == 0 {
            return;
        }
        if !self.cursor_row_is_empty() && self.row == len - 1 {
            self.add_row();
        } else {
            self.move_row(1);
        }
    }

    /// Remove the row under the cursor, keeping the cursor inside the table.
    /// Returns `false` (changing nothing) when there is nothing to remove.
    pub fn delete_row(&mut self) -> (r: bool)
        ensures
            delete_row_post(*old(self), *final(self), r),
    {
        if self.selected >= self.files.len() {
            return false;
        }
        if self.row >= self.files[self.selected].1.len() {
            return false;
        }
        let sel = self.selected;
        let ghost before = self.files@;
        let mut entry = self.files.remove(sel);
        entry.1.remove(self.row);
        let n = entry.1.len();
        let ghost rows_after = entry.1@;
        self.files.insert(sel, entry);
        if self.row >= n && n > 0 {
            self.row = n - 1;
        }
        self.field = MetadataField::Key;
        proof {
            let f = files_view(before)[sel as int];
            assert(rows_view(entry.1) =~= f.1.remove(old(self).row as int));
            assert(files_view(self.files@) =~= files_view(before).update(
                sel as int,
                (f.0, rows_view(entry.1)),
            ));
        }
        true
    }

    /// The (path, metadata) pairs to hand to the uploader. Rows with an empty
    /// key are skipped (S3 rejects them).
    pub fn to_upload(&self) -> (r: Vec<(String, Vec<(String, String)>)>)
        ensures
            files_view(r@) == self.files_v().map_values(
                |f: (Seq<char>, Seq<(Seq<char>, Seq<char>)>)| (f.0, kept_rows(f.1)),
            ),
    {
        let mut out: Vec<(String, Vec<(String, String)>)> = Vec::new();
        let mut i: usize = 0;
        while i < self.files.len()
            invariant
                i <= self.files@.len(),
                files_view(out@) == self.files_v().take(i as int).map_values(
                    |f: (Seq<char>, Seq<(Seq<char>, Seq<char>)>)| (f.0, kept_rows(f.1)),
                ),
            decreases self.files.len() - i,
        {
            let (path, rows) = &self.files[i];
            let mut kept: Vec<(String, String)> = Vec::new();
            let mut j: usize = 0;
            while j < rows.len()
                invariant
                    j <= rows@.len(),
                    rows_view(kept) == kept_rows(rows_view(*rows).take(j as int)),
                decreases rows.len() - j,
            {
                let (k, v) = &rows[j];
                proof {
                    let rv = rows_view(*rows);
                    assert(rv.take(j + 1) =~= rv.take(j as int).push(rv[j as int]));
                    reveal_with_fuel(Seq::filter, 1);
                    assert(rv.take(j + 1).drop_last() =~= rv.take(j as int));
                }
                if !is_empty_str(k.as_str()) {
                    kept.push((copy_str(k.as_str()), copy_str(v.as_str())));
                    proof {
                        let rv = rows_view(*rows);
                        assert(rows_view(kept) =~= kept_rows(rv.take(j as int)).push(rv[j as int]));
                    }
                } else {
                    proof {
                        let rv = rows_view(*rows);
                        assert(kept_rows(rv.take(j + 1)) =~= kept_rows(rv.take(j as int)));
                    }
                }
                j += 1;
            }
            proof {
                assert(rows_view(*rows).take(rows@.len() as int) =~= rows_view(*rows));
            }
            let ghost old_out = out@;
            let pc = path.clone();
            out.push((pc, kept));
            proof {
                assert(out@ =~= old_out.push((pc, kept)));
                assert(files_view(out@) =~= files_view(old_out).push((pc@, rows_view(kept))));
                assert(self.files_v().take(i + 1) =~= self.files_v().take(i as int).push(self.files_v()[i as int]));
                assert(files_view(out@) =~= self.files_v().take(i + 1).map_values(
                    |f: (Seq<char>, Seq<(Seq<char>, Seq<char>)>)| (f.0, kept_rows(f.1)),
                ));
            }
            i += 1;
        }
        proof {
            assert(self.files_v().take(self.files@.len() as int) =~= self.files_v());
        }
        out
    }
}

/// Result of committing `buffer` into the active cell.
pub open spec fn commit_post(old: MetadataEditor, buffer: Seq<char>, new: MetadataEditor) -> bool {
    &&& new == (MetadataEditor { files: new.files, ..old })
    &&& ({
                let s = old;
                if buffer.len() > 0 && s.cursor_row() is Some {
                    let f = s.files_v()[s.selected as int];
                    let e = f.1[s.row as int];
                    let e2 = match s.field {
                        MetadataField::Key => (buffer, e.1),
                        MetadataField::Value => (e.0, buffer),
                    };
                    new.files_v() == s.files_v().update(
                        s.selected as int,
                        (f.0, f.1.update(s.row as int, e2)),
                    )
                } else {
                    new == s
                }
            })
}

/// Result of removing the row under the cursor.
pub open spec fn delete_row_post(old: MetadataEditor, new: MetadataEditor, r: bool) -> bool {
            ({
                let s = old;
                if s.cursor_row() is Some {
                    let f = s.files_v()[s.selected as int];
                    let rows = f.1.remove(s.row as int);
                    &&& r
                    &&& new == (MetadataEditor {
                        files: new.files,
                        row: if s.row >= rows.len() && rows.len() > 0 {
                            (rows.len() - 1) as usize
                        } else {
                            s.row
                        },
                        field: MetadataField::Key,
                        ..s
                    })
                    &&& new.files_v() == s.files_v().update(s.selected as int, (f.0, rows))
                } else {
                    !r && new == s
                }
            })
}

impl Default for MetadataEditor {
    fn default() -> (r: Self)
        ensures
            r.files@.len() == 0,
            r.selected == 0,
            r.row == 0,
            r.field == MetadataField::Key,
            r.storage_class == StorageClass::Standard,
            r.storage_class_index == 0,
    {
        MetadataEditor {
            files: Vec::new(),
            selected: 0,
            row: 0,
            field: MetadataField::Key,
            storage_class: StorageClass::Standard,
            storage_class_index: 0,
        }
    }
}

/// Law: committing a value on the last row, when that row holds something,
/// opens a fresh empty row after it and puts the cursor on its key.
pub proof fn lemma_value_on_last_row_opens_row(e: MetadataEditor, new: MetadataEditor)
    requires
        e.selected < e.files@.len(),
        0 < e.rows_len() < usize::MAX,
        e.row == e.rows_len() - 1,
        !e.cursor_row_empty_spec(),
        e.advance_spec(new),
    ensures
        new.rows_len() == e.rows_len() + 1,
        new.row == e.rows_len(),
        new.field == MetadataField::Key,
        new.cursor_row_empty_spec(),
        new.selected == e.selected,
{
    let s = MetadataEditor { field: MetadataField::Key, ..e };
    assert(s.files_v() == e.files_v());
    let sel = e.selected as int;
    assert(new.selected == e.selected);
    assert(new.files_v().len() == e.files_v().len());
    assert(new.files@.len() == e.files@.len());
    assert(new.files_v()[sel] == (new.files@[sel].0@, rows_view(new.files@[sel].1)));
    assert(e.files_v()[sel] == (e.files@[sel].0@, rows_view(e.files@[sel].1)));
    assert(rows_view(new.files@[sel].1).len() == new.files@[sel].1@.len());
    assert(rows_view(e.files@[sel].1).len() == e.files@[sel].1@.len());
    assert(new.files_v()[sel].1.len() == e.files_v()[sel].1.len() + 1);
    assert(rows_view(new.files@[sel].1)[new.row as int] == row_view(new.files@[sel].1@[new.row as int]));
    assert(new.files_v()[sel].1[new.row as int] == (Seq::<char>::empty(), Seq::<char>::empty()));
}

/// Law: moving on from a row that holds nothing never adds a row.
pub proof fn lemma_empty_row_does_not_grow(e: MetadataEditor, new: MetadataEditor)
    requires
        e.cursor_row_empty_spec(),
        e.advance_spec(new),
    ensures
        new.files == e.files,
        new.rows_len() == e.rows_len(),
        new.field == MetadataField::Key,
{
}

/// Law: switching the edited cell twice gives back the editor.
pub proof fn lemma_toggle_field_twice(e: MetadataEditor)
    ensures
        (MetadataEditor {
            field: match (MetadataEditor {
                field: match e.field {
                    MetadataField::Key => MetadataField::Value,
                    MetadataField::Value => MetadataField::Key,
                },
                ..e
            }).field {
                MetadataField::Key => MetadataField::Value,
                MetadataField::Value => MetadataField::Key,
            },
            ..e
        }) == e,
{
}

/// Law: a new editor's storage class, `STANDARD`, is one the upload picker
/// offers, at its first position.
pub proof fn lemma_default_class_offered()
    ensures
        StorageClass::uploadable_spec()[0] == StorageClass::Standard,
        StorageClass::uploadable_spec().contains(StorageClass::Standard),
{
    assert(StorageClass::uploadable_spec()[0] == StorageClass::Standard);
}

/// Law: deleting a row removes exactly the row under the cursor from the
/// selected file's table; the other files and their tables are unchanged.
pub proof fn lemma_delete_removes_cursor_row(old: MetadataEditor, new: MetadataEditor)
    requires
        delete_row_post(old, new, true),
    ensures
        old.selected < old.files@.len(),
        old.row < old.files@[old.selected as int].1@.len(),
        new.files@.len() == old.files@.len(),
        new.files@[old.selected as int].0@ == old.files@[old.selected as int].0@,
        rows_view(new.files@[old.selected as int].1) == rows_view(old.files@[old.selected as int].1).remove(
            old.row as int,
        ),
        forall|j: int|
            0 <= j < old.files@.len() && j != old.selected ==> (#[trigger] new.files@[j]).0@ == old.files@[j].0@
                && rows_view(new.files@[j].1) == rows_view(old.files@[j].1),
{
    let sel = old.selected as int;
    assert(old.cursor_row() is Some);
    assert(new.files_v().len() == old.files_v().len());
    assert(new.files_v()[sel] == (new.files@[sel].0@, rows_view(new.files@[sel].1)));
    assert(old.files_v()[sel] == (old.files@[sel].0@, rows_view(old.files@[sel].1)));
    assert forall|j: int| 0 <= j < old.files@.len() && j != old.selected implies (#[trigger] new.files@[j]).0@
        == old.files@[j].0@ && rows_view(new.files@[j].1) == rows_view(old.files@[j].1) by {
        assert(new.files_v()[j] == (new.files@[j].0@, rows_view(new.files@[j].1)));
        assert(old.files_v()[j] == (old.files@[j].0@, rows_view(old.files@[j].1)));
    }
}

} // verus!
