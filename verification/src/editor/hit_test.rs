//! Hit testing: turn a position on the screen, in whole lines and half
//! cells, into a position in the text.
//!
//! A wide char (Korean, CJK) takes two cells and an ASCII char one; clicking
//! the first half of a char's cells places the cursor before it, clicking the
//! second half places it after.  Measured in half cells, the click at
//! `half` lands before char `i` exactly when `half < 2 * start + width`,
//! where `start` is the number of cells before char `i` and `width` is its
//! number of cells.

use vstd::prelude::*;
use unicode_width::UnicodeWidthChar;
use crate::editor::buffer::Buffer;
use crate::editor::lines::{line_count, line_text};
use crate::text::str_chars;

verus! {

/// Result of a hit test: a position in the text.
#[derive(Debug, Clone, Copy, PartialEq, Eq, Structural)]
pub struct HitTestResult {
    /// 0-indexed line number in the buffer.
    pub line: usize,
    /// 0-indexed column (character offset within the line).
    pub col: usize,
}

/// The number of cells `UnicodeWidthChar::width` gives a char; `None` for a control char.
pub uninterp spec fn char_display_width(c: char) -> Option<usize>;

/// `UnicodeWidthChar::width`: the number of cells a char takes.  Its tables
/// are named by `char_display_width`; the source shows that chars below
/// U+0020 and from U+007F to U+009F are control chars (no width), that the
/// other ASCII chars take one cell, and that every char from U+00A0 on has a
/// width below 256.
#[verifier::external_body]
fn char_width(c: char) -> (w: Option<usize>)
    ensures
        w == char_display_width(c),
        (c as u32) < 0x20 || (0x7F <= (c as u32) && (c as u32) < 0xA0) ==> w is None,
        0x20 <= (c as u32) && (c as u32) < 0x7F ==> w == Some(1usize),
        (c as u32) >= 0xA0 ==> w is Some && w->0 < 256,
{
    UnicodeWidthChar::width(c)
}

/// The cells a char takes on screen: its display width, or one for a control char.
pub open spec fn cell_width(c: char) -> nat {
    match char_display_width(c) {
        Some(w) => w as nat,
        None => 1,
    }
}

/// The char index that a click `half` half cells into a run of chars with
/// the given cell widths lands before: the first char whose middle lies
/// beyond the click, or the number of chars.
pub open spec fn index_at_half_cell(widths: Seq<nat>, half: int) -> nat
    decreases widths.len(),
{
    if widths.len() == 0 {
        0
    } else if half < widths[0] {
        0
    } else {
        1 + index_at_half_cell(widths.drop_first(), half - 2 * widths[0])
    }
}

/// The cell widths of the chars of `s`.
pub open spec fn cell_widths(s: Seq<char>) -> Seq<nat> {
    s.map_values(|c: char| cell_width(c))
}

/// The line a click on screen line `v` (counted from the top of the text)
/// lands on: that line, or the last line below the text.
pub open spec fn hit_line(s: Seq<char>, v: int) -> int {
    if v < line_count(s) {
        v
    } else {
        line_count(s) - 1
    }
}

/// `s` without the LFs at its end.
pub open spec fn without_trailing_lf(s: Seq<char>) -> Seq<char>
    decreases s.len(),
{
    if s.len() > 0 && s.last() == '\n' {
        without_trailing_lf(s.drop_last())
    } else {
        s
    }
}

/// The char index for a click `half` half cells into a run of chars whose
/// cell widths are `widths`.
pub fn half_cell_to_index(widths: &[usize], half: u64) -> (r: usize)
    requires
        widths@.len() < usize::MAX,
        forall|i: int| 0 <= i < widths@.len() ==> widths@[i] < 256,
    ensures
        r == index_at_half_cell(widths@.map_values(|w: usize| w as nat), half as int),
{
    let ghost ws = widths@.map_values(|w: usize| w as nat);
    let n = widths.len();
    let mut acc: u128 = 0;
    let mut i: usize = 0;
    assert(ws.skip(0) == ws);
    while i < n
        invariant
            n == widths@.len(),
            n < usize::MAX,
            forall|k: int| 0 <= k < n ==> widths@[k] < 256,
            ws == widths@.map_values(|w: usize| w as nat),
            i <= n,
            acc <= 256 * i,
            index_at_half_cell(ws, half as int) == i + index_at_half_cell(
                ws.skip(i as int),
                half - 2 * acc,
            ),
        decreases n - i,
    {
        let w = widths[i] as u128;
        proof {
            assert(ws.skip(i as int)[0] == w);
            assert(ws.skip(i as int).drop_first() == ws.skip(i + 1));
        }
        if (half as u128) < 2 * acc + w {
            return i;
        }
        acc = acc + w;
        i += 1;
    }
    n
}

/// Convert a click `half` half cells into the text `text` to a char index.
pub fn cell_col_to_char_index(text: &str, half: u64) -> (r: usize)
    requires
        text@.len() < usize::MAX,
    ensures
        r == index_at_half_cell(cell_widths(text@), half as int),
{
    let chars = str_chars(text);
    let mut widths: Vec<usize> = Vec::new();
    let n = chars.len();
    for i in 0..n
        invariant
            n == chars@.len(),
            chars@ == text@,
            widths@.len() == i,
            forall|k: int| 0 <= k < i ==> #[trigger] widths@[k] == cell_width(chars@[k]),
            forall|k: int| 0 <= k < i ==> widths@[k] < 256,
    {
        let w = match char_width(chars[i]) {
            Some(w) => w,
            None => 1,
        };
        widths.push(w);
    }
    assert(widths@.map_values(|w: usize| w as nat) =~= cell_widths(text@));
    half_cell_to_index(widths.as_slice(), half)
}

/// Hit-test a click on the text of `buffer`: `visual_line` lines below the
/// top of the content, scrolled by `scroll_offset` lines, `half` half cells
/// right of the content's left edge.  The line is clamped to the last line;
/// the column is found among the chars of that line, its LFs left out.
pub fn hit_test(buffer: &Buffer, visual_line: usize, scroll_offset: usize, half: u64) -> (r:
    HitTestResult)
    requires
        visual_line + scroll_offset <= usize::MAX,
        buffer@.len() < usize::MAX,
    ensures
        r.line == hit_line(buffer@, visual_line + scroll_offset),
        r.col == index_at_half_cell(
            cell_widths(without_trailing_lf(line_text(buffer@, r.line as nat))),
            half as int,
        ),
        r.line < line_count(buffer@),
        r.col <= without_trailing_lf(line_text(buffer@, r.line as nat)).len(),
{
    let line_count = buffer.line_count();
    let buffer_line = visual_line + scroll_offset;
    let line = if line_count == 0 {
        0
    } else if buffer_line < line_count - 1 {
        buffer_line
    } else {
        line_count - 1
    };
    let col = match buffer.line(line) {
        Some(line_text) => {
            let text = trim_end_lf(line_text.as_str());
            proof {
                crate::editor::lines::lemma_line_start_bounds(buffer@, line as nat);
                lemma_without_lf_len(line_text@);
                lemma_index_at_most_len(cell_widths(without_trailing_lf(line_text@)), half as int);
            }
            cell_col_to_char_index(text, half)
        },
        None => 0,
    };
    HitTestResult { line, col }
}

/// `s` without the LFs at its end (`trim_end_matches('\n')`).
fn trim_end_lf(s: &str) -> (r: &str)
    ensures
        r@ == without_trailing_lf(s@),
{
    let n = s.unicode_len();
    let mut b = n;
    assert(s@.subrange(0, n as int) == s@);
    while b > 0 && s.get_char(b - 1) == '\n'
        invariant
            n == s@.len(),
            b <= n,
            without_trailing_lf(s@) == without_trailing_lf(s@.subrange(0, b as int)),
        decreases b,
    {
        assert(s@.subrange(0, b as int).drop_last() == s@.subrange(0, b - 1));
        b -= 1;
    }
    s.substring_char(0, b)
}

/// Leaving out LFs never makes a text longer.
proof fn lemma_without_lf_len(s: Seq<char>)
    ensures
        without_trailing_lf(s).len() <= s.len(),
    decreases s.len(),
{
    if s.len() > 0 && s.last() == '\n' {
        lemma_without_lf_len(s.drop_last());
    }
}

/// A click lands at most after the last char, and further right never lands
/// further left.
pub proof fn law_index_bounded_and_monotone(widths: Seq<nat>, h1: int, h2: int)
    requires
        h1 <= h2,
    ensures
        index_at_half_cell(widths, h1) <= widths.len(),
        index_at_half_cell(widths, h1) <= index_at_half_cell(widths, h2),
    decreases widths.len(),
{
    if widths.len() > 0 && h1 >= widths[0] {
        law_index_bounded_and_monotone(widths.drop_first(), h1 - 2 * widths[0], h2 - 2 * widths[0]);
    }
}

/// Law: a click lower down never lands on an earlier line, and every click
/// lands on a line of the text.
pub proof fn law_hit_line_monotone(s: Seq<char>, v1: int, v2: int)
    requires
        0 <= v1 <= v2,
    ensures
        0 <= hit_line(s, v1) <= hit_line(s, v2) < line_count(s),
{
}

/// A click lands at most after the last char.
proof fn lemma_index_at_most_len(widths: Seq<nat>, h: int)
    ensures
        index_at_half_cell(widths, h) <= widths.len(),
{
    law_index_bounded_and_monotone(widths, h, h);
}

} // verus!
