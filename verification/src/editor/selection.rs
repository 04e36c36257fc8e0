//! Text selection model.

use vstd::prelude::*;
use crate::editor::buffer::Buffer;
use crate::editor::cursor::{Cursor, lemma_valid_offset, lemma_offset_mono};
use crate::editor::lines::line_count;

verus! {

/// A text selection defined by an anchor and a cursor.
///
/// The anchor is where the selection started, and the cursor is where it ends.
/// The anchor may be after the cursor (reverse selection).
#[derive(Debug, Clone, Copy, PartialEq, Eq, Structural)]
pub struct Selection {
    /// The starting point of the selection.
    pub anchor: Cursor,
    /// The current end of the selection (where the cursor is).
    pub cursor: Cursor,
}

impl Selection {
    /// The collapsed selection at `c`.
    pub open spec fn collapsed_at(c: Cursor) -> Selection {
        Selection { anchor: c, cursor: c }
    }

    /// The two ends of the selection, earlier one first.
    pub open spec fn spec_ordered(self) -> (Cursor, Cursor) {
        if self.anchor.le(self.cursor) {
            (self.anchor, self.cursor)
        } else {
            (self.cursor, self.anchor)
        }
    }

    /// Whether both ends can be turned into char offsets of `s` without failing.
    pub open spec fn addressable(self, s: Seq<char>) -> bool {
        &&& self.anchor.line <= line_count(s)
        &&& self.cursor.line <= line_count(s)
        &&& self.anchor.offset(s) <= usize::MAX
        &&& self.cursor.offset(s) <= usize::MAX
    }

    /// Create a new selection.
    pub fn new(anchor: Cursor, cursor: Cursor) -> (s: Self)
        ensures
            s.anchor == anchor,
            s.cursor == cursor,
    {
        Selection { anchor, cursor }
    }

    /// Create a collapsed selection (no text selected) at the given cursor.
    pub fn collapsed(cursor: Cursor) -> (s: Self)
        ensures
            s.anchor == cursor,
            s.cursor == cursor,
    {
        Selection { anchor: cursor, cursor }
    }

    /// Returns true if no text is selected (anchor == cursor).
    pub fn is_empty(&self) -> (r: bool)
        ensures
            r == (self.anchor == self.cursor),
    {
        self.anchor == self.cursor
    }

    /// Returns (start, end) positions regardless of selection direction.
    pub fn ordered(&self) -> (r: (Cursor, Cursor))
        ensures
            r == self.spec_ordered(),
            r.0.le(r.1),
            (r.0 == self.anchor && r.1 == self.cursor) || (r.0 == self.cursor && r.1
                == self.anchor),
    {
        if self.anchor.line < self.cursor.line || (self.anchor.line == self.cursor.line
            && self.anchor.col <= self.cursor.col) {
            (self.anchor, self.cursor)
        } else {
            (self.cursor, self.anchor)
        }
    }

    /// Extract the selected text from the buffer.
    /// Returns `None` if the selection is empty or positions are invalid.
    pub fn selected_text(&self, buffer: &Buffer) -> (r: Option<String>)
        ensures
            ({
                let (start, end) = self.spec_ordered();
                if self.anchor == self.cursor || !self.anchor.valid(buffer@) || !self.cursor.valid(
                    buffer@,
                ) {
                    r is None
                } else {
                    r is Some && r->Some_0@ == buffer@.subrange(
                        start.offset(buffer@),
                        end.offset(buffer@),
                    )
                }
            }),
    {
        if self.is_empty() || !position_in(&self.anchor, buffer) || !position_in(&self.cursor, buffer) {
            return None;
        }
        let (start, end) = self.ordered();
        let total: usize = buffer.char_count();
        proof {
            lemma_valid_offset(start, buffer@);
            lemma_valid_offset(end, buffer@);
            lemma_offset_mono(start, end, buffer@);
            assert(end.offset(buffer@) <= total);
        }
        let start_offset = start.to_char_offset(buffer);
        let end_offset = end.to_char_offset(buffer);
        match buffer.slice(start_offset..end_offset) {
            Ok(s) => Some(s),
            Err(_) => None,
        }
    }
}

/// Whether `c` is a valid position of the buffer: an existing line, and a
/// column within that line's content.
fn position_in(c: &Cursor, buffer: &Buffer) -> (r: bool)
    ensures
        r == c.valid(buffer@),
{
    c.line < buffer.line_count() && c.col <= buffer.line_content_len(c.line)
}

impl Default for Selection {
    fn default() -> (s: Self)
        ensures
            s.anchor == (Cursor { line: 0, col: 0 }),
            s.cursor == (Cursor { line: 0, col: 0 }),
    {
        Self::collapsed(Cursor::default())
    }
}

} // verus!
