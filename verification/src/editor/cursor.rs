//! Cursor position model.

use vstd::prelude::*;
use crate::editor::buffer::Buffer;
use crate::editor::lines::{
    line_count, line_start, line_content_len, lemma_content_len_bounds, lemma_line_start_mono, lemma_line_start_bounds,
};

verus! {

/// A cursor position in the buffer, represented by line and column.
///
/// Cursors are ordered by line, then by column.
#[derive(Debug, Clone, Copy, PartialEq, Eq, Structural, PartialOrd, Ord)]
pub struct Cursor {
    /// 0-indexed line number.
    pub line: usize,
    /// 0-indexed column (character offset within the line).
    pub col: usize,
}

/// The content length of line `l` (without its line break), or 0 past the last line.
pub open spec fn content_len_at(s: Seq<char>, l: int) -> int {
    if 0 <= l < line_count(s) {
        line_content_len(s, l as nat)
    } else {
        0
    }
}

impl Cursor {
    /// Whether the cursor lies on a line of `s`, within that line's content or at its end.
    pub open spec fn valid(self, s: Seq<char>) -> bool {
        self.line < line_count(s) && self.col <= line_content_len(s, self.line as nat)
    }

    /// The char offset of the cursor in `s`.
    pub open spec fn offset(self, s: Seq<char>) -> int {
        line_start(s, self.line as nat) + self.col
    }

    /// Whether `self` comes no later than `other`: by line, then by column.
    pub open spec fn le(self, other: Cursor) -> bool {
        self.line < other.line || (self.line == other.line && self.col <= other.col)
    }

    /// Where `move_left` puts a cursor.
    pub open spec fn left_of(self, s: Seq<char>) -> Cursor {
        if self.col > 0 {
            Cursor { line: self.line, col: (self.col - 1) as usize }
        } else if self.line > 0 {
            Cursor {
                line: (self.line - 1) as usize,
                col: content_len_at(s, self.line - 1) as usize,
            }
        } else {
            self
        }
    }

    /// Where `move_right` puts a cursor.
    pub open spec fn right_of(self, s: Seq<char>) -> Cursor {
        if self.col < content_len_at(s, self.line as int) {
            Cursor { line: self.line, col: (self.col + 1) as usize }
        } else if self.line + 1 < line_count(s) {
            Cursor { line: (self.line + 1) as usize, col: 0 }
        } else {
            self
        }
    }

    /// Where `move_up` puts a cursor.
    pub open spec fn up_of(self, s: Seq<char>) -> Cursor {
        if self.line > 0 {
            let len = content_len_at(s, self.line - 1);
            Cursor {
                line: (self.line - 1) as usize,
                col: if self.col > len {
                    len as usize
                } else {
                    self.col
                },
            }
        } else {
            self
        }
    }

    /// Where `move_down` puts a cursor.
    pub open spec fn down_of(self, s: Seq<char>) -> Cursor {
        if self.line + 1 < line_count(s) {
            let len = content_len_at(s, self.line + 1);
            Cursor {
                line: (self.line + 1) as usize,
                col: if self.col > len {
                    len as usize
                } else {
                    self.col
                },
            }
        } else {
            self
        }
    }

    /// Where `clamp_to_buffer` puts a cursor.
    pub open spec fn clamped(self, s: Seq<char>) -> Cursor {
        let line = if self.line > line_count(s) - 1 {
            (line_count(s) - 1) as usize
        } else {
            self.line
        };
        let len = content_len_at(s, line as int);
        Cursor {
            line,
            col: if self.col > len {
                len as usize
            } else {
                self.col
            },
        }
    }

    /// Create a new cursor at the given position.
    pub fn new(line: usize, col: usize) -> (c: Self)
        ensures
            c.line == line,
            c.col == col,
    {
        Cursor { line, col }
    }

    /// Move cursor left by one character. Wraps to end of previous line if at column 0.
    pub fn move_left(&mut self, buffer: &Buffer)
        ensures
            *final(self) == old(self).left_of(buffer@),
            old(self).valid(buffer@) ==> final(self).valid(buffer@),
    {
        if self.col > 0 {
            self.col -= 1;
        } else if self.line > 0 {
            self.line -= 1;
            self.col = buffer.line_content_len(self.line);
        }
        proof {
            if old(self).valid(buffer@) && self.line < old(self).line {
                lemma_content_len_bounds(buffer@, self.line as nat);
            }
        }
    }

    /// Move cursor right by one character. Wraps to start of next line if at end.
    pub fn move_right(&mut self, buffer: &Buffer)
        requires
            old(self).line < usize::MAX,
        ensures
            *final(self) == old(self).right_of(buffer@),
            old(self).valid(buffer@) ==> final(self).valid(buffer@),
    {
        let line_len = buffer.line_content_len(self.line);
        if self.col < line_len {
            self.col += 1;
        } else if self.line + 1 < buffer.line_count() {
            self.line += 1;
            self.col = 0;
        }
        proof {
            lemma_content_len_bounds(buffer@, self.line as nat);
        }
    }

    /// Move cursor up by one line.
    pub fn move_up(&mut self, buffer: &Buffer)
        ensures
            *final(self) == old(self).up_of(buffer@),
            old(self).valid(buffer@) ==> final(self).valid(buffer@),
    {
        if self.line > 0 {
            self.line -= 1;
            let line_len = buffer.line_content_len(self.line);
            if self.col > line_len {
                self.col = line_len;
            }
        }
    }

    /// Move cursor down by one line.
    pub fn move_down(&mut self, buffer: &Buffer)
        requires
            old(self).line < usize::MAX,
        ensures
            *final(self) == old(self).down_of(buffer@),
            old(self).valid(buffer@) ==> final(self).valid(buffer@),
    {
        if self.line + 1 < buffer.line_count() {
            self.line += 1;
            let line_len = buffer.line_content_len(self.line);
            if self.col > line_len {
                self.col = line_len;
            }
        }
    }

    /// Move cursor to the start of the current line.
    pub fn move_to_line_start(&mut self)
        ensures
            final(self).line == old(self).line,
            final(self).col == 0,
    {
        self.col = 0;
    }

    /// Move cursor to the end of the current line.
    pub fn move_to_line_end(&mut self, buffer: &Buffer)
        ensures
            final(self).line == old(self).line,
            final(self).col == content_len_at(buffer@, old(self).line as int),
            old(self).valid(buffer@) ==> final(self).valid(buffer@),
    {
        self.col = buffer.line_content_len(self.line);
    }

    /// Clamp cursor to valid buffer bounds.
    pub fn clamp_to_buffer(&mut self, buffer: &Buffer)
        ensures
            *final(self) == old(self).clamped(buffer@),
            final(self).valid(buffer@),
    {
        let max_line = if buffer.line_count() == 0 {
            0
        } else {
            buffer.line_count() - 1
        };
        if self.line > max_line {
            self.line = max_line;
        }
        let line_len = buffer.line_content_len(self.line);
        if self.col > line_len {
            self.col = line_len;
        }
        proof {
            lemma_content_len_bounds(buffer@, self.line as nat);
        }
    }

    /// Convert this cursor position to a character offset in the buffer.
    pub fn to_char_offset(&self, buffer: &Buffer) -> (n: usize)
        requires
            self.line <= line_count(buffer@),
            self.offset(buffer@) <= usize::MAX,
        ensures
            n == self.offset(buffer@),
    {
        let line_start = buffer.line_to_char(self.line);
        line_start + self.col
    }
}

/// A valid cursor's offset lies within the text.
pub proof fn lemma_valid_offset(c: Cursor, s: Seq<char>)
    requires
        c.valid(s),
    ensures
        0 <= c.offset(s) <= s.len(),
        c.offset(s) <= line_start(s, c.line as nat + 1),
{
    lemma_content_len_bounds(s, c.line as nat);
    lemma_line_start_bounds(s, c.line as nat);
}

/// Law: every cursor move keeps a valid cursor valid (left, right, up, down,
/// to the line's start and to its end), and a valid cursor's offset lies
/// within the text.
pub proof fn law_moves_keep_valid(c: Cursor, s: Seq<char>)
    requires
        c.valid(s),
        crate::editor::rope::text_fits(s),
    ensures
        c.left_of(s).valid(s),
        c.right_of(s).valid(s),
        c.up_of(s).valid(s),
        c.down_of(s).valid(s),
        (Cursor { line: c.line, col: 0 }).valid(s),
        (Cursor { line: c.line, col: content_len_at(s, c.line as int) as usize }).valid(s),
        0 <= c.offset(s) <= s.len(),
{
    lemma_valid_offset(c, s);
    lemma_content_len_bounds(s, c.line as nat);
    if c.line > 0 {
        lemma_content_len_bounds(s, (c.line - 1) as nat);
    }
    lemma_content_len_bounds(s, c.line as nat + 1);
}

/// Between valid cursors, offsets are ordered like the cursors.
pub proof fn lemma_offset_mono(a: Cursor, b: Cursor, s: Seq<char>)
    requires
        a.valid(s),
        b.valid(s),
        a.le(b),
    ensures
        a.offset(s) <= b.offset(s),
{
    lemma_valid_offset(a, s);
    if a.line < b.line {
        lemma_line_start_mono(s, a.line as nat + 1, b.line as nat);
    }
}

impl Default for Cursor {
    fn default() -> (c: Self)
        ensures
            c.line == 0,
            c.col == 0,
    {
        Cursor { line: 0, col: 0 }
    }
}

} // verus!
