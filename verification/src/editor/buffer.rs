//! Text buffer backed by a rope.

use vstd::prelude::*;
use std::ops::Range;
use ropey::Rope;
use crate::editor::lines::{is_line_break_char, line_count, line_start, line_len, line_text, line_content_len, utf8_len, lemma_line_start_bounds};
use crate::editor::rope::{rope_text, text_fits, rope_new, rope_from_str, rope_clone, rope_len_chars, rope_len_bytes, rope_len_lines, rope_line_to_char, rope_char, rope_line_len_chars, rope_line_string, rope_slice_string, rope_to_string, rope_insert, rope_remove};
use crate::text::{decimal, push_decimal, push_str};

verus! {

/// A text buffer; its view is the sequence of chars it holds.
#[derive(Debug)]
pub struct Buffer {
    rope: Rope,
}

impl View for Buffer {
    type V = Seq<char>;

    closed spec fn view(&self) -> Seq<char> {
        rope_text(self.rope)
    }
}

/// Errors that can occur during buffer operations.
#[derive(Debug, Clone, Copy, PartialEq, Eq, Structural)]
pub enum BufferError {
    /// A position was out of bounds.
    OutOfBounds {
        /// The position that was out of bounds.
        pos: usize,
        /// The length of the buffer.
        len: usize,
    },
    /// An invalid range was specified.
    InvalidRange {
        /// Start of the range.
        start: usize,
        /// End of the range.
        end: usize,
    },
}

/// The text of `s` with `t` inserted at char index `pos`.
pub open spec fn spliced_in(s: Seq<char>, pos: int, t: Seq<char>) -> Seq<char> {
    s.take(pos) + t + s.skip(pos)
}

/// The text of `s` without the chars in `start..end`.
pub open spec fn spliced_out(s: Seq<char>, start: int, end: int) -> Seq<char> {
    s.take(start) + s.skip(end)
}

/// What `Buffer::insert` does to a text: `Ok` with the new text, or the error.
pub open spec fn insert_result(s: Seq<char>, pos: int, t: Seq<char>) -> Result<
    Seq<char>,
    BufferError,
> {
    if pos > s.len() {
        Err(BufferError::OutOfBounds { pos: pos as usize, len: s.len() as usize })
    } else {
        Ok(spliced_in(s, pos, t))
    }
}

/// What `Buffer::delete` does to a text: `Ok` with the new text, or the error.
pub open spec fn delete_result(s: Seq<char>, start: int, end: int) -> Result<
    Seq<char>,
    BufferError,
> {
    if end > s.len() {
        Err(BufferError::OutOfBounds { pos: end as usize, len: s.len() as usize })
    } else if start > end {
        Err(BufferError::InvalidRange { start: start as usize, end: end as usize })
    } else {
        Ok(spliced_out(s, start, end))
    }
}

impl BufferError {
    /// A description of the error.
    pub fn to_string(&self) -> (r: String)
        ensures
            r@ == match *self {
                BufferError::OutOfBounds { pos, len } => "position "@ + decimal(pos as nat)
                    + " out of bounds (buffer length: "@ + decimal(len as nat) + ")"@,
                BufferError::InvalidRange { start, end } => "invalid range "@ + decimal(
                    start as nat,
                ) + ".."@ + decimal(end as nat),
            },
    {
        let mut r = String::new();
        match *self {
            BufferError::OutOfBounds { pos, len } => {
                push_str(&mut r, "position ");
                push_decimal(&mut r, pos);
                push_str(&mut r, " out of bounds (buffer length: ");
                push_decimal(&mut r, len);
                push_str(&mut r, ")");
            },
            BufferError::InvalidRange { start, end } => {
                push_str(&mut r, "invalid range ");
                push_decimal(&mut r, start);
                push_str(&mut r, "..");
                push_decimal(&mut r, end);
            },
        }
        r
    }
}

impl Buffer {
    /// Create an empty buffer.
    pub fn new() -> (b: Self)
        ensures
            b@ == Seq::<char>::empty(),
            text_fits(b@),
    {
        Buffer { rope: rope_new() }
    }

    /// Create a buffer from a string.
    pub fn from_text(text: &str) -> (b: Self)
        ensures
            b@ == text@,
            text_fits(b@),
    {
        Buffer { rope: rope_from_str(text) }
    }

    /// Insert text at a character position; an error if `pos` is past the end.
    pub fn insert(&mut self, pos: usize, text: &str) -> (r: Result<(), BufferError>)
        ensures
            match insert_result(old(self)@, pos as int, text@) {
                Ok(t) => r is Ok && final(self)@ == t,
                Err(e) => r == Err::<(), BufferError>(e) && final(self)@ == old(self)@,
            },
            text_fits(old(self)@) ==> text_fits(final(self)@),
    {
        let len = rope_len_chars(&self.rope);
        if pos > len {
            return Err(BufferError::OutOfBounds { pos, len });
        }
        rope_insert(&mut self.rope, pos, text);
        Ok(())
    }

    /// Delete a character range, returning the deleted text; an error if the
    /// range ends past the end or is reversed.
    pub fn delete(&mut self, range: Range<usize>) -> (r: Result<String, BufferError>)
        ensures
            match delete_result(old(self)@, range.start as int, range.end as int) {
                Ok(t) => r is Ok && final(self)@ == t && r->Ok_0@ == old(self)@.subrange(
                    range.start as int,
                    range.end as int,
                ),
                Err(e) => r is Err && r->Err_0 == e && final(self)@ == old(self)@,
            },
            text_fits(old(self)@) ==> text_fits(final(self)@),
    {
        let len = rope_len_chars(&self.rope);
        if range.end > len {
            return Err(BufferError::OutOfBounds { pos: range.end, len });
        }
        if range.start > range.end {
            return Err(BufferError::InvalidRange { start: range.start, end: range.end });
        }
        let deleted = rope_slice_string(&self.rope, range.start, range.end);
        rope_remove(&mut self.rope, range.start, range.end);
        Ok(deleted)
    }

    /// The nth line (0-indexed), line break included; `None` past the last line.
    pub fn line(&self, n: usize) -> (r: Option<String>)
        ensures
            n < line_count(self@) ==> r is Some && r->Some_0@ == line_text(self@, n as nat),
            n >= line_count(self@) ==> r is None,
    {
        if n >= rope_len_lines(&self.rope) {
            return None;
        }
        Some(rope_line_string(&self.rope, n))
    }

    /// Total number of lines.
    pub fn line_count(&self) -> (n: usize)
        ensures
            n == line_count(self@),
    {
        rope_len_lines(&self.rope)
    }

    /// Total number of characters.
    pub fn char_count(&self) -> (n: usize)
        ensures
            n == self@.len(),
    {
        rope_len_chars(&self.rope)
    }

    /// Total number of bytes of the UTF-8 text.
    pub fn byte_len(&self) -> (n: usize)
        ensures
            n == utf8_len(self@),
    {
        rope_len_bytes(&self.rope)
    }

    /// The character offset of the start of a line; the length of the text
    /// for the line just past the last.
    pub fn line_to_char(&self, line: usize) -> (n: usize)
        requires
            line <= line_count(self@),
        ensures
            n == line_start(self@, line as nat),
    {
        rope_line_to_char(&self.rope, line)
    }

    /// The length of a line in characters, its line break included; 0 past the last line.
    pub fn line_len_chars(&self, line: usize) -> (n: usize)
        ensures
            line < line_count(self@) ==> n == line_len(self@, line as nat),
            line >= line_count(self@) ==> n == 0,
    {
        if line >= self.line_count() {
            return 0;
        }
        rope_line_len_chars(&self.rope, line)
    }

    /// The length of a line in characters without its line break; 0 past the last line.
    pub fn line_content_len(&self, line: usize) -> (n: usize)
        ensures
            line < line_count(self@) ==> n == line_content_len(self@, line as nat),
            line >= line_count(self@) ==> n == 0,
    {
        if line >= self.line_count() {
            return 0;
        }
        let start = rope_line_to_char(&self.rope, line);
        let end = rope_line_to_char(&self.rope, line + 1);
        proof {
            lemma_line_start_bounds(self@, line as nat);
        }
        let len = end - start;
        if len == 0 {
            return 0;
        }
        let last = rope_char(&self.rope, end - 1);
        let total = rope_len_chars(&self.rope);
        let ends_break = is_break_char(last) && !(last == '\r' && end < total && rope_char(
            &self.rope,
            end,
        ) == '\n');
        if !ends_break {
            return len;
        }
        if last == '\n' && len >= 2 && rope_char(&self.rope, end - 2) == '\r' {
            len - 2
        } else {
            len - 1
        }
    }

    /// A slice of the text; an error if the range ends past the end.
    pub fn slice(&self, range: Range<usize>) -> (r: Result<String, BufferError>)
        requires
            range.end > self@.len() || range.start <= range.end,
        ensures
            range.end > self@.len() ==> r == Err::<String, BufferError>(
                BufferError::OutOfBounds { pos: range.end, len: self@.len() as usize },
            ),
            range.end <= self@.len() ==> r is Ok && r->Ok_0@ == self@.subrange(
                range.start as int,
                range.end as int,
            ),
    {
        let len = rope_len_chars(&self.rope);
        if range.end > len {
            return Err(BufferError::OutOfBounds { pos: range.end, len });
        }
        Ok(rope_slice_string(&self.rope, range.start, range.end))
    }

    /// The full content as a String.
    pub fn content(&self) -> (s: String)
        ensures
            s@ == self@,
    {
        rope_to_string(&self.rope)
    }

    /// The full content as a String.
    pub fn to_string(&self) -> (s: String)
        ensures
            s@ == self@,
    {
        rope_to_string(&self.rope)
    }
}

/// Whether a char is a line-break char.
pub fn is_break_char(c: char) -> (r: bool)
    ensures
        r == is_line_break_char(c),
{
    c == '\n' || c == '\u{0B}' || c == '\u{0C}' || c == '\r' || c == '\u{85}' || c == '\u{2028}'
        || c == '\u{2029}'
}

impl Clone for Buffer {
    fn clone(&self) -> (b: Self)
        ensures
            b@ == self@,
            text_fits(self@) ==> text_fits(b@),
    {
        Buffer { rope: rope_clone(&self.rope) }
    }
}

impl Default for Buffer {
    fn default() -> (b: Self)
        ensures
            b@ == Seq::<char>::empty(),
            text_fits(b@),
    {
        Buffer::new()
    }
}

/// Deleting the chars just inserted gives the text back: an insertion of `t`
/// at `pos` succeeds on every position up to the length, and deleting
/// `pos..pos + |t|` from the result then succeeds with the text it started from,
/// the deleted chars being `t`.
pub proof fn law_delete_undoes_insert(s: Seq<char>, pos: int, t: Seq<char>)
    requires
        0 <= pos <= s.len(),
        pos + t.len() <= usize::MAX,
    ensures
        insert_result(s, pos, t) == Ok::<Seq<char>, BufferError>(spliced_in(s, pos, t)),
        delete_result(spliced_in(s, pos, t), pos, pos + t.len()) == Ok::<Seq<char>, BufferError>(s),
        spliced_in(s, pos, t).subrange(pos, pos + t.len()) == t,
{
    let u = spliced_in(s, pos, t);
    assert(u.take(pos) + u.skip(pos + t.len()) =~= s);
    assert(u.subrange(pos, pos + t.len()) =~= t);
}

} // verus!
