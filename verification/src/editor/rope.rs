//! The calls into `ropey::Rope` that the text buffer makes.
//!
//! A rope is opaque; `rope_text` names the chars it holds, and every call
//! below is stated over that name, as ropey's documentation describes it.

use vstd::prelude::*;
use ropey::Rope;
use crate::editor::lines::{line_count, line_start, line_len, line_text, utf8_len};

verus! {

#[verifier::external_type_specification]
#[verifier::external_body]
pub struct ExRope(Rope);

/// The chars that a rope holds, in order.
pub uninterp spec fn rope_text(r: Rope) -> Seq<char>;

/// Whether the char, byte and line counts of a text fit in a `usize`, as they
/// do for every rope, whose counts are `usize` values.
pub open spec fn text_fits(s: Seq<char>) -> bool {
    s.len() <= usize::MAX && utf8_len(s) <= usize::MAX && line_count(s) <= usize::MAX
}

/// `Rope::new`: an empty rope.
#[verifier::external_body]
pub(crate) fn rope_new() -> (r: Rope)
    ensures
        rope_text(r) == Seq::<char>::empty(),
        text_fits(rope_text(r)),
{
    Rope::new()
}

/// `Rope::from_str`: a rope holding the chars of `text`.
#[verifier::external_body]
pub(crate) fn rope_from_str(text: &str) -> (r: Rope)
    ensures
        rope_text(r) == text@,
        text_fits(rope_text(r)),
{
    Rope::from_str(text)
}

/// `Rope::clone`: a rope holding the same chars.
#[verifier::external_body]
pub(crate) fn rope_clone(r: &Rope) -> (c: Rope)
    ensures
        rope_text(c) == rope_text(*r),
        text_fits(rope_text(c)),
{
    r.clone()
}

/// `Rope::len_chars`: the number of chars.
#[verifier::external_body]
pub(crate) fn rope_len_chars(r: &Rope) -> (n: usize)
    ensures
        n == rope_text(*r).len(),
{
    r.len_chars()
}

/// `Rope::len_bytes`: the number of bytes of the text's UTF-8 encoding.
#[verifier::external_body]
pub(crate) fn rope_len_bytes(r: &Rope) -> (n: usize)
    ensures
        n == utf8_len(rope_text(*r)),
{
    r.len_bytes()
}

/// `Rope::len_lines`: one more than the number of line breaks.
#[verifier::external_body]
pub(crate) fn rope_len_lines(r: &Rope) -> (n: usize)
    ensures
        n == line_count(rope_text(*r)),
{
    r.len_lines()
}

/// `Rope::line_to_char`: the char index where a line starts; one past the
/// last line gives the length (ropey panics beyond that).
#[verifier::external_body]
pub(crate) fn rope_line_to_char(r: &Rope, line: usize) -> (n: usize)
    requires
        line <= line_count(rope_text(*r)),
    ensures
        n == line_start(rope_text(*r), line as nat),
{
    r.line_to_char(line)
}

/// `Rope::char`: the char at an index (ropey panics past the end).
#[verifier::external_body]
pub(crate) fn rope_char(r: &Rope, idx: usize) -> (c: char)
    requires
        idx < rope_text(*r).len(),
    ensures
        c == rope_text(*r)[idx as int],
{
    r.char(idx)
}

/// `Rope::line` then `RopeSlice::len_chars`: the number of chars of a line,
/// its line break included (ropey panics past the last line).
#[verifier::external_body]
pub(crate) fn rope_line_len_chars(r: &Rope, line: usize) -> (n: usize)
    requires
        line < line_count(rope_text(*r)),
    ensures
        n == line_len(rope_text(*r), line as nat),
{
    r.line(line).len_chars()
}

/// `Rope::line` then `to_string`: the chars of a line, its line break included.
#[verifier::external_body]
pub(crate) fn rope_line_string(r: &Rope, line: usize) -> (s: String)
    requires
        line < line_count(rope_text(*r)),
    ensures
        s@ == line_text(rope_text(*r), line as nat),
{
    r.line(line).to_string()
}

/// `Rope::slice` then `to_string`: the chars between two char indices (ropey
/// panics on a reversed range or one past the end).
#[verifier::external_body]
pub(crate) fn rope_slice_string(r: &Rope, start: usize, end: usize) -> (s: String)
    requires
        start <= end <= rope_text(*r).len(),
    ensures
        s@ == rope_text(*r).subrange(start as int, end as int),
{
    r.slice(start..end).to_string()
}

/// `Rope::to_string`: all the chars.
#[verifier::external_body]
pub(crate) fn rope_to_string(r: &Rope) -> (s: String)
    ensures
        s@ == rope_text(*r),
{
    r.to_string()
}

/// `Rope::insert`: `text` inserted at a char index (ropey panics past the end).
#[verifier::external_body]
pub(crate) fn rope_insert(r: &mut Rope, idx: usize, text: &str)
    requires
        idx <= rope_text(*old(r)).len(),
    ensures
        rope_text(*final(r)) == rope_text(*old(r)).take(idx as int) + text@ + rope_text(
            *old(r),
        ).skip(idx as int),
        text_fits(rope_text(*final(r))),
{
    r.insert(idx, text)
}

/// `Rope::remove`: the chars of a range removed (ropey panics on a reversed
/// range or one past the end).
#[verifier::external_body]
pub(crate) fn rope_remove(r: &mut Rope, start: usize, end: usize)
    requires
        start <= end <= rope_text(*old(r)).len(),
    ensures
        rope_text(*final(r)) == rope_text(*old(r)).take(start as int) + rope_text(
            *old(r),
        ).skip(end as int),
        text_fits(rope_text(*final(r))),
{
    r.remove(start..end)
}

} // verus!
