//! The editor core: text buffer, cursor, selection, undo history and viewport.

pub mod lines;
pub mod rope;
pub mod buffer;
pub mod cursor;
pub mod selection;
pub mod viewport;
pub mod history;
pub mod hit_test;


use vstd::prelude::*;
use std::path::PathBuf;
use crate::editor::buffer::{Buffer, BufferError, spliced_in, spliced_out};
use crate::editor::cursor::{Cursor, lemma_valid_offset, lemma_offset_mono};
use crate::editor::history::{History, HistoryView, OpView, EditOperation};
use crate::editor::lines::{
    line_count, line_start, line_len, line_content_len,
    lemma_last_line, lemma_line_start_bounds, lemma_inner_line_has_break, lemma_line_end,
    cr_free, lemma_cr_free_insert, lemma_cr_free_delete,
    lemma_content_len_bounds,
};
use crate::editor::rope::text_fits;
use crate::editor::selection::Selection;
use crate::editor::viewport::Viewport;
use crate::text::push_char;

verus! {

#[verifier::external_type_specification]
#[verifier::external_body]
pub struct ExPathBuf(PathBuf);

/// Returns the crate version.
pub fn version() -> (v: &'static str)
    ensures
        v@ == "0.1.0"@,
{
    "0.1.0"
}

/// The main editor struct tying buffer, cursor, selection, and history together.
#[derive(Debug, Clone)]
pub struct Editor {
    /// The text buffer.
    pub buffer: Buffer,
    /// The cursor position.
    pub cursor: Cursor,
    /// The current selection.
    pub selection: Selection,
    /// The undo/redo history.
    pub history: History,
    /// The file path this editor is associated with.
    pub file_path: Option<PathBuf>,
    /// Whether the buffer has been modified since last save.
    pub modified: bool,
    /// The viewport (scroll offset and visible lines).
    pub viewport: Viewport,
}

/// Deleting the selection of an editor whose text is `s`: the text, the cursor,
/// and the deletion recorded, if any.  A collapsed selection changes nothing;
/// otherwise the cursor goes to the earlier end (clamped to the new text) and,
/// when that end's offset is below the other's, the chars between go.
pub open spec fn selection_cut(s: Seq<char>, cursor: Cursor, sel: Selection) -> (
    Seq<char>,
    Cursor,
    Option<OpView>,
) {
    if sel.anchor == sel.cursor {
        (s, cursor, None)
    } else {
        let (start, end) = sel.spec_ordered();
        let a = start.offset(s);
        let b = end.offset(s);
        if a < b {
            let t = spliced_out(s, a, b);
            (t, start.clamped(t), Some(OpView { insert: false, pos: a, text: s.subrange(a, b) }))
        } else {
            (s, start.clamped(s), None)
        }
    }
}

/// The history after a selection cut that recorded `op`, if any: the deletion
/// is a group of its own and grouping is on again.
pub open spec fn history_after_cut(h: HistoryView, op: Option<OpView>) -> HistoryView {
    match op {
        Some(o) => h.with_break().pushed(o).with_break().with_grouping(),
        None => h,
    }
}

/// The line the cursor lands on for char offset `o`: from line `l` on, the
/// first line that `o` falls before the end of, or the last line.
pub open spec fn offset_line_from(s: Seq<char>, o: int, l: nat) -> nat
    decreases line_count(s) - l,
{
    if l + 1 >= line_count(s) || o - line_start(s, l) <= line_len(s, l) - 1 {
        l
    } else {
        offset_line_from(s, o, l + 1)
    }
}

/// Where the cursor lands for char offset `offset` (clamped to the text): on
/// `offset_line_from(s, o, 0)`, at the offset's column, kept before the line
/// break of a line that is not the last.
pub open spec fn cursor_at_offset(s: Seq<char>, offset: int) -> Cursor {
    let o = if offset > s.len() {
        s.len() as int
    } else {
        offset
    };
    let l = offset_line_from(s, o, 0);
    let room = if l + 1 < line_count(s) {
        line_len(s, l) - 1
    } else {
        line_len(s, l)
    };
    Cursor {
        line: l as usize,
        col: (if o - line_start(s, l) <= room {
            o - line_start(s, l)
        } else {
            room
        }) as usize,
    }
}


impl Editor {
    /// Whether the buffer has been modified since last save.
    pub open spec fn modified(&self) -> bool {
        self.modified
    }

    /// The file path this editor is associated with.
    pub open spec fn path(&self) -> Option<PathBuf> {
        self.file_path
    }

    /// The editor's invariant: the text's counts fit in `usize`, the cursor and both ends of the selection are valid
    /// positions of the text, every recorded operation fits, and the viewport's
    /// last line is a `usize`.
    pub open spec fn wf(&self) -> bool {
        &&& text_fits(self.buffer@)
        &&& self.cursor.valid(self.buffer@)
        &&& self.selection.anchor.valid(self.buffer@)
        &&& self.selection.cursor.valid(self.buffer@)
        &&& self.history@.wf()
        &&& self.viewport.scroll_offset + self.viewport.visible_lines <= usize::MAX
    }

    /// Whether the viewport of `self` is that of `old` scrolled to show the cursor.
    pub open spec fn scrolled_from(&self, old: Viewport) -> bool {
        &&& self.viewport.visible_lines == old.visible_lines
        &&& self.viewport.scroll_offset == old.scrolled_to(self.cursor.line as int)
    }

    /// Create a new editor with an empty buffer.
    pub fn new() -> (e: Self)
        ensures
            e.wf(),
            e.buffer@ == Seq::<char>::empty(),
            e.cursor == (Cursor { line: 0, col: 0 }),
            e.selection == Selection::collapsed_at(e.cursor),
            e.history@ == HistoryView::fresh(),
            e.path() is None,
            !e.modified(),
            e.viewport == Viewport::initial(),
    {
        let e = Self {
            buffer: Buffer::new(),
            cursor: Cursor::default(),
            selection: Selection::default(),
            history: History::new(),
            file_path: None,
            modified: false,
            viewport: Viewport::new(),
        };
        proof {
            lemma_start_valid(e.buffer@);
        }
        e
    }

    /// Create an editor from a string.
    pub fn from_text(text: &str) -> (e: Self)
        ensures
            e.wf(),
            e.buffer@ == text@,
            e.cursor == (Cursor { line: 0, col: 0 }),
            e.selection == Selection::collapsed_at(e.cursor),
            e.history@ == HistoryView::fresh(),
            e.path() is None,
            !e.modified(),
            e.viewport == Viewport::initial(),
    {
        let e = Self {
            buffer: Buffer::from_text(text),
            cursor: Cursor::default(),
            selection: Selection::default(),
            history: History::new(),
            file_path: None,
            modified: false,
            viewport: Viewport::new(),
        };
        proof {
            lemma_start_valid(e.buffer@);
        }
        e
    }

    /// Create an editor from a string that was read from `path`.
    pub fn from_text_at(text: &str, path: PathBuf) -> (e: Self)
        ensures
            e.wf(),
            e.buffer@ == text@,
            e.cursor == (Cursor { line: 0, col: 0 }),
            e.selection == Selection::collapsed_at(e.cursor),
            e.history@ == HistoryView::fresh(),
            e.path() == Some(path),
            !e.modified(),
            e.viewport == Viewport::initial(),
    {
        let mut e = Self::from_text(text);
        e.file_path = Some(path);
        e
    }

    /// Set cursor to the beginning of a specific line (0-indexed), clamping to valid range.
    pub fn set_cursor_line(&mut self, line: usize)
        requires
            old(self).wf(),
        ensures
            final(self).wf(),
            final(self).cursor == (Cursor {
                line: if line < line_count(old(self).buffer@) {
                    line
                } else {
                    (line_count(old(self).buffer@) - 1) as usize
                },
                col: 0,
            }),
            final(self).selection == Selection::collapsed_at(final(self).cursor),
            final(self).buffer@ == old(self).buffer@,
            final(self).history@ == old(self).history@,
            final(self).viewport == old(self).viewport,
            final(self).modified() == old(self).modified(),
            final(self).path() == old(self).path(),
    {
        let max_line = self.buffer.line_count().saturating_sub(1);
        self.cursor = Cursor::new(
            if line < max_line {
                line
            } else {
                max_line
            },
            0,
        );
        self.selection = Selection::collapsed(self.cursor);
        proof {
            lemma_content_len_nonneg(self.buffer@, self.cursor.line as nat);
        }
    }

    /// The file path this editor is associated with, if any.
    pub fn file_path(&self) -> (r: Option<&PathBuf>)
        ensures
            match self.path() {
                Some(p) => r is Some && *r->Some_0 == p,
                None => r is None,
            },
    {
        match &self.file_path {
            Some(p) => Some(p),
            None => None,
        }
    }

    /// Associate the editor with a file path (its text was just written there).
    pub fn set_file_path(&mut self, path: PathBuf)
        ensures
            final(self).path() == Some(path),
            final(self).modified() == old(self).modified(),
            final(self).buffer@ == old(self).buffer@,
            final(self).cursor == old(self).cursor,
            final(self).selection == old(self).selection,
            final(self).history@ == old(self).history@,
            final(self).viewport == old(self).viewport,
    {
        self.file_path = Some(path);
    }

    /// Record that the text was just saved: it is no longer modified.
    pub fn mark_saved(&mut self)
        ensures
            !final(self).modified(),
            final(self).path() == old(self).path(),
            final(self).buffer@ == old(self).buffer@,
            final(self).cursor == old(self).cursor,
            final(self).selection == old(self).selection,
            final(self).history@ == old(self).history@,
            final(self).viewport == old(self).viewport,
    {
        self.modified = false;
    }

    /// Returns whether the buffer has been modified since last save.
    pub fn is_modified(&self) -> (r: bool)
        ensures
            r == self.modified(),
    {
        self.modified
    }

    /// Insert a character at the cursor position, replacing the selection if any.
    pub fn insert_char(&mut self, ch: char) -> (r: Result<(), BufferError>)
        requires
            old(self).wf(),
        ensures
            r is Ok,
            ({
                let (s1, c1, op1) = selection_cut(
                    old(self).buffer@,
                    old(self).cursor,
                    old(self).selection,
                );
                let pos = c1.offset(s1);
                let s2 = spliced_in(s1, pos, seq![ch]);
                &&& final(self).buffer@ == s2
                &&& final(self).cursor == c1.right_of(s2)
                &&& final(self).history@ == history_after_cut(old(self).history@, op1).pushed(
                    OpView { insert: true, pos, text: seq![ch] },
                )
            }),
            final(self).selection == Selection::collapsed_at(final(self).cursor),
            final(self).modified(),
            final(self).scrolled_from(old(self).viewport),
            final(self).path() == old(self).path(),
            text_fits(final(self).buffer@),
            final(self).history@.wf(),
            final(self).viewport.scroll_offset + final(self).viewport.visible_lines <= usize::MAX,
            final(self).wf(),
            cr_free(old(self).buffer@) && ch != '\r' ==> cr_free(final(self).buffer@),
    {
        proof {
            lemma_cut_cr_free(old(self).buffer@, old(self).cursor, old(self).selection);
        }
        self.delete_selection_if_any()?;
        let ghost s1 = self.buffer@;
        let ghost c1 = self.cursor;
        let pos = self.cursor.to_char_offset(&self.buffer);
        let mut text = String::new();
        push_char(&mut text, ch);
        proof {
            lemma_valid_offset(self.cursor, self.buffer@);
            assert(text@ == seq![ch]);
            lemma_insert_fits(self.buffer@, pos as int, text@);
        }
        self.buffer.insert(pos, text.as_str())?;
        proof {
            crate::editor::lines::lemma_insert_char_keeps_position(
                s1,
                c1.line as nat,
                c1.col as int,
                ch,
            );
            if cr_free(s1) && ch != '\r' {
                lemma_cr_free_insert(s1, pos as int, seq![ch]);
            }
        }
        self.history.push(EditOperation::Insert { pos, text });
        self.cursor.move_right(&self.buffer);
        self.collapse_selection();
        self.modified = true;
        self.viewport.ensure_cursor_visible(self.cursor.line);
        Ok(())
    }

    /// Delete the character after the cursor (like the Delete key); with a
    /// selection, delete the selection instead.
    pub fn delete_char(&mut self) -> (r: Result<(), BufferError>)
        requires
            old(self).wf(),
        ensures
            r is Ok,
            final(self).wf(),
            final(self).path() == old(self).path(),
            ({
                let s = old(self).buffer@;
                let (s1, c1, op1) = selection_cut(s, old(self).cursor, old(self).selection);
                let pos = old(self).cursor.offset(s);
                if old(self).selection.anchor != old(self).selection.cursor {
                    &&& final(self).buffer@ == s1
                    &&& final(self).cursor == c1
                    &&& final(self).selection == Selection::collapsed_at(c1)
                    &&& final(self).history@ == history_after_cut(old(self).history@, op1)
                    &&& final(self).modified() == (old(self).modified() || op1 is Some)
                    &&& final(self).viewport == old(self).viewport
                } else if pos >= s.len() {
                    &&& final(self).buffer@ == s
                    &&& final(self).cursor == old(self).cursor
                    &&& final(self).selection == old(self).selection
                    &&& final(self).history@ == old(self).history@
                    &&& final(self).modified() == old(self).modified()
                    &&& final(self).viewport == old(self).viewport
                } else {
                    let t = spliced_out(s, pos, pos + 1);
                    &&& final(self).buffer@ == t
                    &&& final(self).cursor == old(self).cursor.clamped(t)
                    &&& final(self).selection == Selection::collapsed_at(final(self).cursor)
                    &&& final(self).history@ == old(self).history@.pushed(
                        OpView { insert: false, pos, text: s.subrange(pos, pos + 1) },
                    )
                    &&& final(self).modified()
                    &&& final(self).scrolled_from(old(self).viewport)
                }
            }),
    {
        if !self.selection.is_empty() {
            return self.delete_selection_if_any();
        }
        let pos = self.cursor.to_char_offset(&self.buffer);
        proof {
            lemma_valid_offset(self.cursor, self.buffer@);
        }
        if pos >= self.buffer.char_count() {
            return Ok(());
        }
        let deleted = self.buffer.delete(pos..pos + 1)?;
        self.history.push(EditOperation::Delete { pos, text: deleted });
        self.cursor.clamp_to_buffer(&self.buffer);
        self.collapse_selection();
        self.modified = true;
        proof {
            lemma_line_below_max(self.cursor, self.buffer@);
        }
        self.viewport.ensure_cursor_visible(self.cursor.line);
        Ok(())
    }

    /// Delete the character before the cursor (backspace); with a selection,
    /// delete the selection instead.
    pub fn backspace(&mut self) -> (r: Result<(), BufferError>)
        requires
            old(self).wf(),
        ensures
            final(self).wf(),
            final(self).path() == old(self).path(),
            ({
                let s = old(self).buffer@;
                let (s1, c1, op1) = selection_cut(s, old(self).cursor, old(self).selection);
                let pos = old(self).cursor.offset(s);
                let left = old(self).cursor.left_of(s);
                let new_pos = left.offset(s);
                if old(self).selection.anchor != old(self).selection.cursor {
                    &&& r is Ok
                    &&& final(self).buffer@ == s1
                    &&& final(self).cursor == c1
                    &&& final(self).selection == Selection::collapsed_at(c1)
                    &&& final(self).history@ == history_after_cut(old(self).history@, op1)
                    &&& final(self).modified() == (old(self).modified() || op1 is Some)
                    &&& final(self).viewport == old(self).viewport
                } else if pos == 0 {
                    &&& r is Ok
                    &&& final(self).buffer@ == s
                    &&& final(self).cursor == old(self).cursor
                    &&& final(self).selection == old(self).selection
                    &&& final(self).history@ == old(self).history@
                    &&& final(self).modified() == old(self).modified()
                    &&& final(self).viewport == old(self).viewport
                } else {
                    let t = spliced_out(s, new_pos, new_pos + 1);
                    &&& r is Ok
                    &&& final(self).buffer@ == t
                    &&& final(self).cursor == left.clamped(t)
                    &&& final(self).selection == Selection::collapsed_at(final(self).cursor)
                    &&& final(self).history@ == old(self).history@.pushed(
                        OpView { insert: false, pos: new_pos, text: s.subrange(new_pos, new_pos + 1) },
                    )
                    &&& final(self).modified()
                    &&& final(self).scrolled_from(old(self).viewport)
                }
            }),
    {
        if !self.selection.is_empty() {
            return self.delete_selection_if_any();
        }
        let pos = self.cursor.to_char_offset(&self.buffer);
        proof {
            lemma_valid_offset(self.cursor, self.buffer@);
        }
        if pos == 0 {
            return Ok(());
        }
        self.cursor.move_left(&self.buffer);
        proof {
            lemma_left_offset(old(self).cursor, self.buffer@);
            lemma_valid_offset(self.cursor, self.buffer@);
        }
        let new_pos = self.cursor.to_char_offset(&self.buffer);
        let deleted = self.buffer.delete(new_pos..new_pos + 1)?;
        self.history.push(EditOperation::Delete { pos: new_pos, text: deleted });
        self.cursor.clamp_to_buffer(&self.buffer);
        self.collapse_selection();
        self.modified = true;
        proof {
            lemma_line_below_max(self.cursor, self.buffer@);
        }
        self.viewport.ensure_cursor_visible(self.cursor.line);
        Ok(())
    }

    /// Insert a newline at the cursor position, replacing the selection if any;
    /// the cursor goes to the start of the next line.
    pub fn newline(&mut self) -> (r: Result<(), BufferError>)
        requires
            old(self).wf(),
        ensures
            r is Ok,
            ({
                let (s1, c1, op1) = selection_cut(
                    old(self).buffer@,
                    old(self).cursor,
                    old(self).selection,
                );
                let pos = c1.offset(s1);
                &&& final(self).buffer@ == spliced_in(s1, pos, seq!['\n'])
                &&& final(self).cursor == (Cursor { line: (c1.line + 1) as usize, col: 0 })
                &&& final(self).history@ == history_after_cut(old(self).history@, op1).pushed(
                    OpView { insert: true, pos, text: seq!['\n'] },
                ).with_break().with_grouping()
                &&& !(pos > 0 && s1[pos - 1] == '\r') ==> final(self).wf()
            }),
            final(self).selection == Selection::collapsed_at(final(self).cursor),
            final(self).modified(),
            final(self).scrolled_from(old(self).viewport),
            final(self).path() == old(self).path(),
            text_fits(final(self).buffer@),
            final(self).history@.wf(),
            final(self).cursor.line < usize::MAX ==> final(self).viewport.scroll_offset
                + final(self).viewport.visible_lines <= usize::MAX,
            cr_free(old(self).buffer@) ==> final(self).wf() && cr_free(final(self).buffer@),
    {
        proof {
            lemma_cut_cr_free(old(self).buffer@, old(self).cursor, old(self).selection);
        }
        self.delete_selection_if_any()?;
        let ghost s1 = self.buffer@;
        let ghost c1 = self.cursor;
        let pos = self.cursor.to_char_offset(&self.buffer);
        let mut text = String::new();
        push_char(&mut text, '\n');
        proof {
            lemma_valid_offset(self.cursor, self.buffer@);
            assert(text@ == seq!['\n']);
            lemma_insert_fits(self.buffer@, pos as int, text@);
        }
        self.buffer.insert(pos, text.as_str())?;
        proof {
            if !(pos > 0 && s1[pos - 1] == '\r') {
                crate::editor::lines::lemma_insert_lf_line_count(s1, pos as int);
                lemma_content_len_nonneg(self.buffer@, (c1.line + 1) as nat);
            }
            if cr_free(s1) {
                lemma_cr_free_insert(s1, pos as int, seq!['\n']);
            }
        }
        self.history.push(EditOperation::Insert { pos, text });
        self.history.break_group();
        self.history.enable_grouping();
        self.cursor.line += 1;
        self.cursor.col = 0;
        self.collapse_selection();
        self.modified = true;
        self.viewport.ensure_cursor_visible(self.cursor.line);
        Ok(())
    }

    /// Undo the last group of edits; the cursor is then clamped to the text.
    pub fn undo(&mut self) -> (r: Result<bool, BufferError>)
        requires
            old(self).wf(),
        ensures
            final(self).history@.wf(),
            final(self).path() == old(self).path(),
            final(self).modified() == old(self).modified(),
            ({
                let groups = old(self).history@.undo;
                if groups.len() == 0 {
                    &&& r == Ok::<bool, BufferError>(false)
                    &&& final(self).buffer@ == old(self).buffer@
                    &&& final(self).history@ == old(self).history@
                } else {
                    let (t, e) = crate::editor::history::undo_run(
                        old(self).buffer@,
                        groups.last(),
                    );
                    &&& final(self).buffer@ == t
                    &&& final(self).history@.undo == groups.drop_last()
                    &&& match e {
                        None => r == Ok::<bool, BufferError>(true) && final(self).history@.redo
                            == old(self).history@.redo.push(groups.last()) && final(self).history@
                            == crate::editor::history::undone(old(self).history@),
                        Some(err) => r == Err::<bool, BufferError>(err) && final(self).history@.redo
                            == old(self).history@.redo,
                    }
                }
            }),
            r is Ok ==> final(self).cursor == old(self).cursor.clamped(final(self).buffer@)
                && final(self).selection == Selection::collapsed_at(final(self).cursor)
                && final(self).scrolled_from(old(self).viewport) && final(self).wf(),
            r is Err ==> final(self).cursor == old(self).cursor && final(self).selection == old(
                self,
            ).selection && final(self).viewport == old(self).viewport,
    {
        let result = match self.history.undo(&mut self.buffer) {
            Ok(b) => b,
            Err(e) => {
                return Err(e);
            },
        };
        self.cursor.clamp_to_buffer(&self.buffer);
        self.collapse_selection();
        proof {
            lemma_line_below_max(self.cursor, self.buffer@);
        }
        self.viewport.ensure_cursor_visible(self.cursor.line);
        Ok(result)
    }

    /// Redo the last undone group of edits; the cursor is then clamped to the text.
    pub fn redo(&mut self) -> (r: Result<bool, BufferError>)
        requires
            old(self).wf(),
        ensures
            final(self).history@.wf(),
            final(self).path() == old(self).path(),
            final(self).modified() == old(self).modified(),
            ({
                let groups = old(self).history@.redo;
                if groups.len() == 0 {
                    &&& r == Ok::<bool, BufferError>(false)
                    &&& final(self).buffer@ == old(self).buffer@
                    &&& final(self).history@ == old(self).history@
                } else {
                    let (t, e) = crate::editor::history::redo_run(
                        old(self).buffer@,
                        groups.last(),
                    );
                    &&& final(self).buffer@ == t
                    &&& final(self).history@.redo == groups.drop_last()
                    &&& match e {
                        None => r == Ok::<bool, BufferError>(true) && final(self).history@.undo
                            == old(self).history@.undo.push(groups.last()) && final(self).history@
                            == crate::editor::history::redone(old(self).history@),
                        Some(err) => r == Err::<bool, BufferError>(err) && final(self).history@.undo
                            == old(self).history@.undo,
                    }
                }
            }),
            r is Ok ==> final(self).cursor == old(self).cursor.clamped(final(self).buffer@)
                && final(self).selection == Selection::collapsed_at(final(self).cursor)
                && final(self).scrolled_from(old(self).viewport) && final(self).wf(),
            r is Err ==> final(self).cursor == old(self).cursor && final(self).selection == old(
                self,
            ).selection && final(self).viewport == old(self).viewport,
    {
        let result = match self.history.redo(&mut self.buffer) {
            Ok(b) => b,
            Err(e) => {
                return Err(e);
            },
        };
        self.cursor.clamp_to_buffer(&self.buffer);
        self.collapse_selection();
        proof {
            lemma_line_below_max(self.cursor, self.buffer@);
        }
        self.viewport.ensure_cursor_visible(self.cursor.line);
        Ok(result)
    }

    /// Select all text in the buffer; the cursor goes to the end of the text.
    pub fn select_all(&mut self)
        requires
            old(self).wf(),
        ensures
            final(self).wf(),
            final(self).selection.anchor == (Cursor { line: 0, col: 0 }),
            final(self).selection.cursor == (Cursor {
                line: (line_count(old(self).buffer@) - 1) as usize,
                col: line_len(old(self).buffer@, (line_count(old(self).buffer@) - 1) as nat) as usize,
            }),
            final(self).cursor == final(self).selection.cursor,
            final(self).buffer@ == old(self).buffer@,
            final(self).history@ == old(self).history@,
            final(self).viewport == old(self).viewport,
            final(self).modified() == old(self).modified(),
            final(self).path() == old(self).path(),
    {
        self.selection.anchor = Cursor::new(0, 0);
        let last_line = self.buffer.line_count().saturating_sub(1);
        let last_col = self.buffer.line_len_chars(last_line);
        self.selection.cursor = Cursor::new(last_line, last_col);
        self.cursor = self.selection.cursor;
        proof {
            lemma_last_line(self.buffer@);
            lemma_start_valid(self.buffer@);
        }
    }

    /// Copy the selected text; `None` if no text is selected.
    pub fn copy(&self) -> (r: Option<String>)
        requires
            self.wf(),
        ensures
            ({
                let (start, end) = self.selection.spec_ordered();
                if self.selection.anchor == self.selection.cursor {
                    r is None
                } else {
                    r is Some && r->Some_0@ == self.buffer@.subrange(
                        start.offset(self.buffer@),
                        end.offset(self.buffer@),
                    )
                }
            }),
    {
        proof {
            lemma_selection_offsets(self.buffer@, self.selection);
        }
        self.selection.selected_text(&self.buffer)
    }

    /// Paste text at the cursor position, replacing the selection if any; the
    /// cursor goes to the end of the pasted text.
    pub fn paste(&mut self, text: &str) -> (r: Result<(), BufferError>)
        requires
            old(self).wf(),
        ensures
            r is Ok,
            ({
                let (s1, c1, op1) = selection_cut(
                    old(self).buffer@,
                    old(self).cursor,
                    old(self).selection,
                );
                let pos = c1.offset(s1);
                let s2 = spliced_in(s1, pos, text@);
                &&& final(self).buffer@ == s2
                &&& final(self).cursor == cursor_at_offset(s2, pos + text@.len())
                &&& final(self).history@ == history_after_cut(
                    old(self).history@,
                    op1,
                ).with_break().pushed(OpView { insert: true, pos, text: text@ }).with_break().with_grouping()
                &&& !(text@.len() > 0 && text@.last() == '\r' && pos < s1.len() && s1[pos] == '\n')
                    ==> final(self).wf()
            }),
            final(self).selection == Selection::collapsed_at(final(self).cursor),
            final(self).modified(),
            final(self).scrolled_from(old(self).viewport),
            final(self).path() == old(self).path(),
            text_fits(final(self).buffer@),
            final(self).history@.wf(),
            final(self).cursor.line < line_count(final(self).buffer@),
            final(self).viewport.scroll_offset + final(self).viewport.visible_lines <= usize::MAX,
            cr_free(old(self).buffer@) && cr_free(text@) ==> final(self).wf() && cr_free(
                final(self).buffer@,
            ),
    {
        proof {
            lemma_cut_cr_free(old(self).buffer@, old(self).cursor, old(self).selection);
        }
        self.delete_selection_if_any()?;
        let ghost s1 = self.buffer@;
        let ghost c1 = self.cursor;
        let pos = self.cursor.to_char_offset(&self.buffer);
        proof {
            lemma_valid_offset(self.cursor, self.buffer@);
            lemma_insert_fits(self.buffer@, pos as int, text@);
            crate::editor::lines::lemma_position_outside_crlf(s1, c1.line as nat, c1.col as int);
        }
        self.buffer.insert(pos, text)?;
        self.history.break_group();
        self.history.push(EditOperation::Insert { pos, text: text.to_owned() });
        self.history.break_group();
        self.history.enable_grouping();
        let new_offset = pos + text.unicode_len();
        proof {
            let s2 = self.buffer@;
            if cr_free(s1) && cr_free(text@) {
                lemma_cr_free_insert(s1, pos as int, text@);
            }
            if !(text@.len() > 0 && text@.last() == '\r' && pos < s1.len() && s1[pos as int] == '\n') {
                if text@.len() == 0 {
                    assert(s2 =~= s1);
                } else if new_offset < s2.len() {
                    assert(s2[new_offset - 1] == text@.last());
                    assert(s2[new_offset as int] == s1[pos as int]);
                }
                lemma_cursor_at_offset_valid(s2, new_offset as int);
            }
        }
        self.set_cursor_from_offset(new_offset);
        self.collapse_selection();
        self.modified = true;
        self.viewport.ensure_cursor_visible(self.cursor.line);
        Ok(())
    }

    /// Cut the selected text: the text copied, and the selection deleted;
    /// `None` (and no change) if no text is selected.
    pub fn cut(&mut self) -> (r: Result<Option<String>, BufferError>)
        requires
            old(self).wf(),
        ensures
            final(self).wf(),
            r is Ok,
            ({
                let s = old(self).buffer@;
                let (start, end) = old(self).selection.spec_ordered();
                let (s1, c1, op1) = selection_cut(s, old(self).cursor, old(self).selection);
                if old(self).selection.anchor == old(self).selection.cursor {
                    &&& r->Ok_0 is None
                    &&& final(self).buffer@ == s
                    &&& final(self).cursor == old(self).cursor
                    &&& final(self).selection == old(self).selection
                    &&& final(self).history@ == old(self).history@
                    &&& final(self).modified() == old(self).modified()
                } else {
                    &&& r->Ok_0 is Some
                    &&& r->Ok_0->Some_0@ == s.subrange(start.offset(s), end.offset(s))
                    &&& final(self).buffer@ == s1
                    &&& final(self).cursor == c1
                    &&& final(self).selection == Selection::collapsed_at(c1)
                    &&& final(self).history@ == history_after_cut(old(self).history@, op1)
                    &&& final(self).modified() == (old(self).modified() || op1 is Some)
                }
            }),
            final(self).viewport == old(self).viewport,
            final(self).path() == old(self).path(),
    {
        let text = self.copy();
        if text.is_some() {
            self.delete_selection_if_any()?;
        }
        Ok(text)
    }

    /// Move cursor left by one character, collapsing the selection.
    pub fn cursor_left(&mut self)
        requires
            old(self).wf(),
        ensures
            final(self).wf(),
            final(self).cursor == old(self).cursor.left_of(old(self).buffer@),
            final(self).selection == Selection::collapsed_at(final(self).cursor),
            final(self).scrolled_from(old(self).viewport),
            final(self).buffer@ == old(self).buffer@,
            final(self).history@ == old(self).history@,
            final(self).modified() == old(self).modified(),
            final(self).path() == old(self).path(),
    {
        self.cursor.move_left(&self.buffer);
        self.collapse_selection();
        proof {
            lemma_line_below_max(self.cursor, self.buffer@);
        }
        self.viewport.ensure_cursor_visible(self.cursor.line);
    }

    /// Move cursor right by one character, collapsing the selection.
    pub fn cursor_right(&mut self)
        requires
            old(self).wf(),
        ensures
            final(self).wf(),
            final(self).cursor == old(self).cursor.right_of(old(self).buffer@),
            final(self).selection == Selection::collapsed_at(final(self).cursor),
            final(self).scrolled_from(old(self).viewport),
            final(self).buffer@ == old(self).buffer@,
            final(self).history@ == old(self).history@,
            final(self).modified() == old(self).modified(),
            final(self).path() == old(self).path(),
    {
        proof {
            lemma_line_below_max(self.cursor, self.buffer@);
        }
        self.cursor.move_right(&self.buffer);
        self.collapse_selection();
        proof {
            lemma_line_below_max(self.cursor, self.buffer@);
        }
        self.viewport.ensure_cursor_visible(self.cursor.line);
    }

    /// Move cursor up by one line, collapsing the selection.
    pub fn cursor_up(&mut self)
        requires
            old(self).wf(),
        ensures
            final(self).wf(),
            final(self).cursor == old(self).cursor.up_of(old(self).buffer@),
            final(self).selection == Selection::collapsed_at(final(self).cursor),
            final(self).scrolled_from(old(self).viewport),
            final(self).buffer@ == old(self).buffer@,
            final(self).history@ == old(self).history@,
            final(self).modified() == old(self).modified(),
            final(self).path() == old(self).path(),
    {
        self.cursor.move_up(&self.buffer);
        self.collapse_selection();
        proof {
            lemma_line_below_max(self.cursor, self.buffer@);
        }
        self.viewport.ensure_cursor_visible(self.cursor.line);
    }

    /// Move cursor down by one line, collapsing the selection.
    pub fn cursor_down(&mut self)
        requires
            old(self).wf(),
        ensures
            final(self).wf(),
            final(self).cursor == old(self).cursor.down_of(old(self).buffer@),
            final(self).selection == Selection::collapsed_at(final(self).cursor),
            final(self).scrolled_from(old(self).viewport),
            final(self).buffer@ == old(self).buffer@,
            final(self).history@ == old(self).history@,
            final(self).modified() == old(self).modified(),
            final(self).path() == old(self).path(),
    {
        proof {
            lemma_line_below_max(self.cursor, self.buffer@);
        }
        self.cursor.move_down(&self.buffer);
        self.collapse_selection();
        proof {
            lemma_line_below_max(self.cursor, self.buffer@);
        }
        self.viewport.ensure_cursor_visible(self.cursor.line);
    }

    /// Move cursor to the start of the current line, collapsing the selection.
    pub fn move_to_line_start(&mut self)
        requires
            old(self).wf(),
        ensures
            final(self).wf(),
            final(self).cursor == (Cursor { line: old(self).cursor.line, col: 0 }),
            final(self).selection == Selection::collapsed_at(final(self).cursor),
            final(self).scrolled_from(old(self).viewport),
            final(self).buffer@ == old(self).buffer@,
            final(self).history@ == old(self).history@,
            final(self).modified() == old(self).modified(),
            final(self).path() == old(self).path(),
    {
        self.cursor.move_to_line_start();
        self.collapse_selection();
        proof {
            lemma_content_len_nonneg(self.buffer@, self.cursor.line as nat);
            lemma_line_below_max(self.cursor, self.buffer@);
        }
        self.viewport.ensure_cursor_visible(self.cursor.line);
    }

    /// Move cursor to the end of the current line, collapsing the selection.
    pub fn move_to_line_end(&mut self)
        requires
            old(self).wf(),
        ensures
            final(self).wf(),
            final(self).cursor == (Cursor {
                line: old(self).cursor.line,
                col: line_content_len(old(self).buffer@, old(self).cursor.line as nat) as usize,
            }),
            final(self).selection == Selection::collapsed_at(final(self).cursor),
            final(self).scrolled_from(old(self).viewport),
            final(self).buffer@ == old(self).buffer@,
            final(self).history@ == old(self).history@,
            final(self).modified() == old(self).modified(),
            final(self).path() == old(self).path(),
    {
        self.cursor.move_to_line_end(&self.buffer);
        self.collapse_selection();
        proof {
            lemma_line_below_max(self.cursor, self.buffer@);
        }
        self.viewport.ensure_cursor_visible(self.cursor.line);
    }

    /// Move cursor to the given line and column, clamping to buffer bounds.
    ///
    /// This collapses any active selection.
    pub fn move_cursor_to(&mut self, line: usize, col: usize)
        requires
            old(self).wf(),
        ensures
            final(self).wf(),
            final(self).cursor == (Cursor { line, col }).clamped(old(self).buffer@),
            final(self).selection == Selection::collapsed_at(final(self).cursor),
            final(self).buffer@ == old(self).buffer@,
            final(self).history@ == old(self).history@,
            final(self).viewport == old(self).viewport,
            final(self).modified() == old(self).modified(),
            final(self).path() == old(self).path(),
    {
        self.cursor = Cursor::new(line, col);
        self.cursor.clamp_to_buffer(&self.buffer);
        self.collapse_selection();
    }

    /// Move cursor left, extending the selection (its anchor is the cursor if it was empty).
    pub fn select_left(&mut self)
        requires
            old(self).wf(),
        ensures
            final(self).wf(),
            final(self).cursor == old(self).cursor.left_of(old(self).buffer@),
            final(self).selection == old(self).extended_to(final(self).cursor),
            final(self).buffer@ == old(self).buffer@,
            final(self).history@ == old(self).history@,
            final(self).viewport == old(self).viewport,
            final(self).modified() == old(self).modified(),
            final(self).path() == old(self).path(),
    {
        if self.selection.is_empty() {
            self.selection.anchor = self.cursor;
        }
        self.cursor.move_left(&self.buffer);
        self.selection.cursor = self.cursor;
    }

    /// Move cursor right, extending the selection (its anchor is the cursor if it was empty).
    pub fn select_right(&mut self)
        requires
            old(self).wf(),
        ensures
            final(self).wf(),
            final(self).cursor == old(self).cursor.right_of(old(self).buffer@),
            final(self).selection == old(self).extended_to(final(self).cursor),
            final(self).buffer@ == old(self).buffer@,
            final(self).history@ == old(self).history@,
            final(self).viewport == old(self).viewport,
            final(self).modified() == old(self).modified(),
            final(self).path() == old(self).path(),
    {
        if self.selection.is_empty() {
            self.selection.anchor = self.cursor;
        }
        proof {
            lemma_line_below_max(self.cursor, self.buffer@);
        }
        self.cursor.move_right(&self.buffer);
        self.selection.cursor = self.cursor;
    }

    /// Move cursor up, extending the selection (its anchor is the cursor if it was empty).
    pub fn select_up(&mut self)
        requires
            old(self).wf(),
        ensures
            final(self).wf(),
            final(self).cursor == old(self).cursor.up_of(old(self).buffer@),
            final(self).selection == old(self).extended_to(final(self).cursor),
            final(self).buffer@ == old(self).buffer@,
            final(self).history@ == old(self).history@,
            final(self).viewport == old(self).viewport,
            final(self).modified() == old(self).modified(),
            final(self).path() == old(self).path(),
    {
        if self.selection.is_empty() {
            self.selection.anchor = self.cursor;
        }
        self.cursor.move_up(&self.buffer);
        self.selection.cursor = self.cursor;
    }

    /// Move cursor down, extending the selection (its anchor is the cursor if it was empty).
    pub fn select_down(&mut self)
        requires
            old(self).wf(),
        ensures
            final(self).wf(),
            final(self).cursor == old(self).cursor.down_of(old(self).buffer@),
            final(self).selection == old(self).extended_to(final(self).cursor),
            final(self).buffer@ == old(self).buffer@,
            final(self).history@ == old(self).history@,
            final(self).viewport == old(self).viewport,
            final(self).modified() == old(self).modified(),
            final(self).path() == old(self).path(),
    {
        if self.selection.is_empty() {
            self.selection.anchor = self.cursor;
        }
        proof {
            lemma_line_below_max(self.cursor, self.buffer@);
        }
        self.cursor.move_down(&self.buffer);
        self.selection.cursor = self.cursor;
    }

    /// Select from cursor to line start (Shift+Home).
    pub fn select_to_line_start(&mut self)
        requires
            old(self).wf(),
        ensures
            final(self).wf(),
            final(self).cursor == (Cursor { line: old(self).cursor.line, col: 0 }),
            final(self).selection == old(self).extended_to(final(self).cursor),
            final(self).buffer@ == old(self).buffer@,
            final(self).history@ == old(self).history@,
            final(self).viewport == old(self).viewport,
            final(self).modified() == old(self).modified(),
            final(self).path() == old(self).path(),
    {
        if self.selection.is_empty() {
            self.selection.anchor = self.cursor;
        }
        self.cursor.move_to_line_start();
        self.selection.cursor = self.cursor;
        proof {
            lemma_content_len_nonneg(self.buffer@, self.cursor.line as nat);
        }
    }

    /// Select from cursor to line end (Shift+End).
    pub fn select_to_line_end(&mut self)
        requires
            old(self).wf(),
        ensures
            final(self).wf(),
            final(self).cursor == (Cursor {
                line: old(self).cursor.line,
                col: line_content_len(old(self).buffer@, old(self).cursor.line as nat) as usize,
            }),
            final(self).selection == old(self).extended_to(final(self).cursor),
            final(self).buffer@ == old(self).buffer@,
            final(self).history@ == old(self).history@,
            final(self).viewport == old(self).viewport,
            final(self).modified() == old(self).modified(),
            final(self).path() == old(self).path(),
    {
        if self.selection.is_empty() {
            self.selection.anchor = self.cursor;
        }
        self.cursor.move_to_line_end(&self.buffer);
        self.selection.cursor = self.cursor;
    }

    /// The selection after moving the cursor to `c` while selecting: its anchor
    /// stays, or becomes the old cursor when the selection was empty.
    pub open spec fn extended_to(&self, c: Cursor) -> Selection {
        Selection {
            anchor: if self.selection.anchor == self.selection.cursor {
                self.cursor
            } else {
                self.selection.anchor
            },
            cursor: c,
        }
    }

    /// Helper: delete the current selection if any.
    fn delete_selection_if_any(&mut self) -> (r: Result<(), BufferError>)
        requires
            text_fits(old(self).buffer@),
            old(self).cursor.valid(old(self).buffer@),
            old(self).selection.anchor.valid(old(self).buffer@),
            old(self).selection.cursor.valid(old(self).buffer@),
            old(self).history@.wf(),
        ensures
            ({
                let (s1, c1, op1) = selection_cut(
                    old(self).buffer@,
                    old(self).cursor,
                    old(self).selection,
                );
                &&& r is Ok
                &&& final(self).buffer@ == s1
                &&& final(self).cursor == c1
                &&& final(self).history@ == history_after_cut(old(self).history@, op1)
                &&& final(self).modified() == (old(self).modified() || op1 is Some)
                &&& if old(self).selection.anchor == old(self).selection.cursor {
                    final(self).selection == old(self).selection
                } else {
                    final(self).selection == Selection::collapsed_at(c1)
                }
            }),
            text_fits(final(self).buffer@),
            final(self).buffer@.len() <= old(self).buffer@.len(),
            final(self).cursor.valid(final(self).buffer@),
            final(self).selection.anchor.valid(final(self).buffer@),
            final(self).selection.cursor.valid(final(self).buffer@),
            final(self).history@.wf(),
            final(self).viewport == old(self).viewport,
            final(self).path() == old(self).path(),
    {
        if self.selection.is_empty() {
            return Ok(());
        }
        let (start, end) = self.selection.ordered();
        proof {
            lemma_selection_offsets(self.buffer@, self.selection);
            lemma_valid_offset(start, self.buffer@);
            lemma_valid_offset(end, self.buffer@);
        }
        let start_offset = start.to_char_offset(&self.buffer);
        let end_offset = end.to_char_offset(&self.buffer);
        if start_offset < end_offset {
            let deleted = self.buffer.delete(start_offset..end_offset)?;
            self.history.break_group();
            self.history.push(EditOperation::Delete { pos: start_offset, text: deleted });
            self.history.break_group();
            self.history.enable_grouping();
            self.modified = true;
        }
        self.cursor = start;
        self.cursor.clamp_to_buffer(&self.buffer);
        self.collapse_selection();
        Ok(())
    }

    /// Collapse the selection to the cursor position.
    pub fn collapse_selection(&mut self)
        ensures
            final(self).selection == Selection::collapsed_at(old(self).cursor),
            final(self).cursor == old(self).cursor,
            final(self).buffer@ == old(self).buffer@,
            final(self).history@ == old(self).history@,
            final(self).viewport == old(self).viewport,
            final(self).modified() == old(self).modified(),
            final(self).path() == old(self).path(),
    {
        self.selection = Selection::collapsed(self.cursor);
    }

    /// Set the cursor position from a character offset.
    fn set_cursor_from_offset(&mut self, offset: usize)
        requires
            text_fits(old(self).buffer@),
        ensures
            final(self).cursor == cursor_at_offset(old(self).buffer@, offset as int),
            final(self).cursor.line < line_count(old(self).buffer@),
            final(self).buffer@ == old(self).buffer@,
            final(self).selection == old(self).selection,
            final(self).history@ == old(self).history@,
            final(self).viewport == old(self).viewport,
            final(self).modified() == old(self).modified(),
            final(self).path() == old(self).path(),
    {
        self.cursor = cursor_for_offset(&self.buffer, offset);
    }
}

/// The cursor position for a character offset of the buffer's text, found line by line.
fn cursor_for_offset(buffer: &Buffer, offset: usize) -> (c: Cursor)
    requires
        text_fits(buffer@),
    ensures
        c == cursor_at_offset(buffer@, offset as int),
        c.line < line_count(buffer@),
{
    let ghost s = buffer@;
    let total = buffer.char_count();
    let o = if offset < total {
        offset
    } else {
        total
    };
    let mut remaining = o;
    let count = buffer.line_count();
    let mut line_idx: usize = 0;
    while line_idx < count
        invariant
            s == buffer@,
            count == line_count(s),
            text_fits(s),
            o <= s.len(),
            o == if offset > s.len() {
                s.len() as int
            } else {
                offset as int
            },
            line_idx < count,
            line_start(s, line_idx as nat) <= o,
            remaining == o - line_start(s, line_idx as nat),
            offset_line_from(s, o as int, 0) == offset_line_from(s, o as int, line_idx as nat),
        decreases count - line_idx,
    {
        let line_len = buffer.line_len_chars(line_idx);
        proof {
            lemma_line_start_bounds(s, line_idx as nat);
            lemma_line_end(s, line_idx as nat);
        }
        if remaining <= line_len.saturating_sub(1) || line_idx == count - 1 {
            let content_len = if line_idx < count - 1 {
                line_len.saturating_sub(1)
            } else {
                line_len
            };
            let col = if remaining < content_len {
                remaining
            } else {
                content_len
            };
            proof {
                assert(offset_line_from(s, o as int, line_idx as nat) == line_idx as nat);
            }
            return Cursor { line: line_idx, col };
        }
        remaining = remaining.saturating_sub(line_len);
        line_idx += 1;
    }
    Cursor { line: 0, col: 0 }
}

impl Default for Editor {
    fn default() -> (e: Self)
        ensures
            e.wf(),
            e.buffer@ == Seq::<char>::empty(),
            e.cursor == (Cursor { line: 0, col: 0 }),
            e.selection == Selection::collapsed_at(e.cursor),
            e.history@ == HistoryView::fresh(),
            e.path() is None,
            !e.modified(),
            e.viewport == Viewport::initial(),
    {
        Self::new()
    }
}

/// The start of the text is a valid position.
proof fn lemma_start_valid(s: Seq<char>)
    ensures
        (Cursor { line: 0, col: 0 }).valid(s),
{
    lemma_content_len_nonneg(s, 0);
}

/// A line's content length is never negative.
proof fn lemma_content_len_nonneg(s: Seq<char>, l: nat)
    ensures
        line_content_len(s, l) >= 0,
{
    crate::editor::lines::lemma_content_len_bounds(s, l);
}

/// A valid cursor's line is below `usize::MAX` when the line count fits.
proof fn lemma_line_below_max(c: Cursor, s: Seq<char>)
    requires
        c.valid(s),
        text_fits(s),
    ensures
        c.line < usize::MAX,
{
}

/// Moving left from a valid cursor that is not at the start lowers its offset.
proof fn lemma_left_offset(c: Cursor, s: Seq<char>)
    requires
        c.valid(s),
        c.offset(s) > 0,
    ensures
        c.left_of(s).valid(s),
        c.left_of(s).offset(s) < c.offset(s),
{
    lemma_content_len_nonneg(s, c.line as nat);
    if c.col == 0 {
        let p = (c.line - 1) as nat;
        lemma_inner_line_has_break(s, p);
        lemma_content_len_nonneg(s, p);
    }
}

/// For valid selection ends, the earlier one has the smaller offset, and both lie in the text.
proof fn lemma_selection_offsets(s: Seq<char>, sel: Selection)
    requires
        text_fits(s),
        sel.anchor.valid(s),
        sel.cursor.valid(s),
    ensures
        sel.spec_ordered().0.offset(s) <= sel.spec_ordered().1.offset(s),
        sel.spec_ordered().1.offset(s) <= s.len(),
        sel.addressable(s),
{
    lemma_valid_offset(sel.anchor, s);
    lemma_valid_offset(sel.cursor, s);
    lemma_offset_mono(sel.spec_ordered().0, sel.spec_ordered().1, s);
}

/// Text inserted at `p` ends within the new text.
proof fn lemma_insert_fits(s: Seq<char>, p: int, t: Seq<char>)
    requires
        0 <= p <= s.len(),
    ensures
        spliced_in(s, p, t).len() == s.len() + t.len(),
        p + t.len() <= spliced_in(s, p, t).len(),
{
}

/// Cutting the selection out of CR-free text leaves CR-free text.
proof fn lemma_cut_cr_free(s: Seq<char>, cursor: Cursor, sel: Selection)
    requires
        text_fits(s),
        sel.anchor.valid(s),
        sel.cursor.valid(s),
    ensures
        cr_free(s) ==> cr_free(selection_cut(s, cursor, sel).0),
{
    if cr_free(s) && sel.anchor != sel.cursor {
        lemma_selection_offsets(s, sel);
        let (start, end) = sel.spec_ordered();
        lemma_valid_offset(start, s);
        if start.offset(s) < end.offset(s) {
            lemma_cr_free_delete(s, start.offset(s), end.offset(s));
        }
    }
}

/// From line `l` on, the line an offset lands on starts at or before it, is a
/// line of the text, and is the last line or holds the offset before its last char.
proof fn lemma_offset_line(s: Seq<char>, o: int, l: nat)
    requires
        l < line_count(s),
        line_start(s, l) <= o <= s.len(),
    ensures
        offset_line_from(s, o, l) < line_count(s),
        line_start(s, offset_line_from(s, o, l)) <= o,
        ({
            let k = offset_line_from(s, o, l);
            k + 1 >= line_count(s) || o - line_start(s, k) <= line_len(s, k) - 1
        }),
    decreases line_count(s) - l,
{
    if !(l + 1 >= line_count(s) || o - line_start(s, l) <= line_len(s, l) - 1) {
        lemma_offset_line(s, o, l + 1);
    }
}

/// Whether offset `o` of `s` falls between the CR and the LF of a CRLF pair.
pub open spec fn splits_crlf(s: Seq<char>, o: int) -> bool {
    0 < o < s.len() && s[o - 1] == '\r' && s[o] == '\n'
}

/// The cursor for an offset is a valid position, unless the offset falls
/// between the CR and the LF of a CRLF pair.
proof fn lemma_cursor_at_offset_valid(s: Seq<char>, offset: int)
    requires
        text_fits(s),
        offset >= 0,
        !splits_crlf(s, offset),
    ensures
        cursor_at_offset(s, offset).valid(s),
{
    let o = if offset > s.len() {
        s.len() as int
    } else {
        offset
    };
    lemma_offset_line(s, o, 0);
    let l = offset_line_from(s, o, 0);
    lemma_content_len_bounds(s, l);
    lemma_line_start_bounds(s, l);
    lemma_line_end(s, l);
    if l + 1 == line_count(s) {
        lemma_last_line(s);
    }
}


/// The text, cursor and history of a fresh editor (`Editor::new`) after
/// `insert_char` of each char of `t` in turn, with nothing selected, as
/// `insert_char` states each step.
pub open spec fn typed(t: Seq<char>) -> (Seq<char>, Cursor, HistoryView)
    decreases t.len(),
{
    if t.len() == 0 {
        (Seq::empty(), Cursor { line: 0, col: 0 }, HistoryView::fresh())
    } else {
        let (s, c, h) = typed(t.drop_last());
        let pos = c.offset(s);
        let s2 = spliced_in(s, pos, seq![t.last()]);
        (s2, c.right_of(s2), h.pushed(OpView { insert: true, pos, text: seq![t.last()] }))
    }
}

/// The insertions that typing `t` records: char `i` of `t` at position `i`.
pub open spec fn typed_ops(t: Seq<char>) -> Seq<OpView> {
    Seq::new(t.len(), |i: int| OpView { insert: true, pos: i, text: seq![t[i]] })
}

/// Whether `t` holds no LF.
pub open spec fn lf_free(t: Seq<char>) -> bool {
    forall|i: int| 0 <= i < t.len() ==> #[trigger] t[i] != '\n'
}

/// Law: typing a text without LF into a fresh editor gives that text, with the
/// cursor at its end and one undo group holding one insertion per char;
/// undoing that group empties the text, and redoing it then brings the typed
/// text back.
pub proof fn law_typing_undo_redo(t: Seq<char>)
    requires
        lf_free(t),
        t.len() <= usize::MAX,
        line_count(t) <= usize::MAX,
    ensures
        typed(t).0 == t,
        typed(t).1.valid(t),
        typed(t).1.offset(t) == t.len(),
        t.len() > 0 ==> typed(t).2 == (HistoryView {
            undo: seq![typed_ops(t)],
            redo: Seq::empty(),
            grouping: true,
            force_new_group: false,
        }),
        crate::editor::history::undo_run(t, typed_ops(t)) == (
            Seq::<char>::empty(),
            None::<BufferError>,
        ),
        crate::editor::history::redo_run(
            crate::editor::history::undo_run(t, typed_ops(t)).0,
            typed_ops(t),
        ) == (t, None::<BufferError>),
    decreases t.len(),
{
    if t.len() == 0 {
        assert(typed_ops(t) =~= Seq::<OpView>::empty());
        lemma_start_valid(t);
    } else {
        let p = t.drop_last();
        let n = t.len() - 1;
        let ch = t.last();
        assert(spliced_in(p, n, seq![ch]) =~= t);
        assert(p + seq![ch] =~= t);
        crate::editor::lines::lemma_insert_char_line_count(p, n, ch);
        law_typing_undo_redo(p);
        let c = typed(p).1;
        crate::editor::lines::lemma_append_at_end(p, c.line as nat, c.col as int, ch);
        lemma_content_len_bounds(t, c.line as nat + 1);
        lemma_content_len_bounds(t, c.line as nat);
        assert(typed(t).1 == c.right_of(t));
        if crate::editor::lines::is_line_break_char(ch) {
            assert(c.right_of(t) == Cursor { line: (c.line + 1) as usize, col: 0 });
            assert(c.right_of(t).offset(t) == line_start(t, c.line as nat + 1));
        } else {
            lemma_line_start_bounds(p, c.line as nat);
            assert(c.col + 1 <= t.len());
            assert(c.right_of(t) == Cursor { line: c.line, col: (c.col + 1) as usize });
            assert(c.right_of(t).offset(t) == line_start(t, c.line as nat) + c.col + 1);
        }
        assert(typed_ops(t).drop_last() =~= typed_ops(p));
        assert(typed_ops(t).last() == (OpView { insert: true, pos: n, text: seq![ch] }));
        if n > 0 {
            assert(typed_ops(p).last().text.last() == t[n - 1]);
            assert(typed_ops(p).push(typed_ops(t).last()) =~= typed_ops(t));
            assert(seq![typed_ops(p)].drop_last().push(typed_ops(p).push(typed_ops(t).last()))
                =~= seq![typed_ops(t)]);
        } else {
            assert(seq![typed_ops(t).last()] =~= typed_ops(t));
            assert(Seq::<Seq<OpView>>::empty().push(seq![typed_ops(t).last()]) =~= seq![typed_ops(t)]);
        }
        assert(spliced_out(t, n, n + 1) =~= p);
    }
}

/// The earlier of the offsets of a selection's two ends in `s`.
pub open spec fn sel_from(s: Seq<char>, sel: Selection) -> int {
    let x = sel.anchor.offset(s);
    let y = sel.cursor.offset(s);
    if x <= y {
        x
    } else {
        y
    }
}

/// The later of the offsets of a selection's two ends in `s`.
pub open spec fn sel_to(s: Seq<char>, sel: Selection) -> int {
    let x = sel.anchor.offset(s);
    let y = sel.cursor.offset(s);
    if x <= y {
        y
    } else {
        x
    }
}

/// Whether removing the selected chars would join a CR just before them and
/// an LF just after them into one CRLF line break.
pub open spec fn cut_joins_crlf(s: Seq<char>, sel: Selection) -> bool {
    let a = sel_from(s, sel);
    let b = sel_to(s, sel);
    a > 0 && s[a - 1] == '\r' && b < s.len() && s[b] == '\n'
}

/// Law: cutting a selection with two distinct valid ends removes exactly the
/// chars between the offsets of its ends, records that removal (when it
/// removed anything), and leaves a valid cursor at the earlier offset, where
/// the removed text began; unless the cut joins a CR and an LF into one break.
pub proof fn law_cut_leaves_cursor_at_start(s: Seq<char>, cursor: Cursor, sel: Selection)
    requires
        text_fits(s),
        sel.anchor.valid(s),
        sel.cursor.valid(s),
        sel.anchor != sel.cursor,
        !cut_joins_crlf(s, sel),
    ensures
        ({
            let (t, c, op) = selection_cut(s, cursor, sel);
            let a = sel_from(s, sel);
            let b = sel_to(s, sel);
            &&& 0 <= a <= b <= s.len()
            &&& t == s.take(a) + s.skip(b)
            &&& c.valid(t)
            &&& c.offset(t) == a
            &&& op == if a < b {
                Some(OpView { insert: false, pos: a, text: s.subrange(a, b) })
            } else {
                None::<OpView>
            }
        }),
{
    lemma_selection_offsets(s, sel);
    let (start, end) = sel.spec_ordered();
    let a = sel_from(s, sel);
    let b = sel_to(s, sel);
    assert(start.offset(s) == a && end.offset(s) == b);
    lemma_valid_offset(start, s);
    lemma_valid_offset(end, s);
    crate::editor::lines::lemma_cut_keeps_position(s, start.line as nat, start.col as int, b);
    let t = s.take(a) + s.skip(b);
    lemma_content_len_bounds(t, start.line as nat);
    if a == b {
        assert(t =~= s);
    }
    assert(start.clamped(t) == start);
}

/// Law: typing or pasting `text` over a selection with two distinct valid ends
/// replaces the selected chars with `text`, which goes where the selection
/// began; unless the cut joins a CR and an LF into one break.
pub proof fn law_replace_selection(s: Seq<char>, cursor: Cursor, sel: Selection, text: Seq<char>)
    requires
        text_fits(s),
        sel.anchor.valid(s),
        sel.cursor.valid(s),
        sel.anchor != sel.cursor,
        !cut_joins_crlf(s, sel),
    ensures
        ({
            let (t, c, op) = selection_cut(s, cursor, sel);
            let a = sel_from(s, sel);
            let b = sel_to(s, sel);
            &&& c.offset(t) == a
            &&& spliced_in(t, c.offset(t), text) == s.take(a) + text + s.skip(b)
            &&& c.offset(t) + text.len() == a + text.len()
        }),
{
    law_cut_leaves_cursor_at_start(s, cursor, sel);
    let a = sel_from(s, sel);
    let b = sel_to(s, sel);
    let t = s.take(a) + s.skip(b);
    assert(t.take(a) =~= s.take(a));
    assert(t.skip(a) =~= s.skip(b));
}

} // verus!
