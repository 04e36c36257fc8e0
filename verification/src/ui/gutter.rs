//! Line numbers for the gutter beside the editor: right-aligned in a
//! fixed-width column, the current line told apart from the others.

use vstd::prelude::*;
use crate::text::{decimal, push_char, push_decimal};

verus! {

/// The numbering of the line number gutter: how many lines the buffer has,
/// the current (cursor) line, and the first visible line.
#[derive(Debug, Clone)]
pub struct LineNumberGutter {
    total_lines: usize,
    current_line: usize,
    scroll_offset: usize,
}

impl View for LineNumberGutter {
    /// The total number of lines, the current line, and the scroll offset.
    type V = (usize, usize, usize);

    closed spec fn view(&self) -> (usize, usize, usize) {
        (self.total_lines, self.current_line, self.scroll_offset)
    }
}

/// The number of decimal digits of `n`.
pub open spec fn digits_of(n: nat) -> nat {
    decimal(n).len()
}

/// `k` spaces.
pub open spec fn spaces(k: nat) -> Seq<char>
    decreases k,
{
    if k == 0 {
        Seq::empty()
    } else {
        spaces((k - 1) as nat).push(' ')
    }
}

/// The label of line number `n` in a column `width` digits wide: the number
/// right-aligned, then one space.
pub open spec fn line_label(n: nat, width: nat) -> Seq<char> {
    spaces((width - digits_of(n)) as nat) + decimal(n) + seq![' ']
}

/// The decimal notation of a number is one digit longer than that of its tenth.
proof fn lemma_digits_step(n: nat)
    ensures
        n < 10 ==> digits_of(n) == 1,
        n >= 10 ==> digits_of(n) == digits_of(n / 10) + 1,
{
}

/// A number below another has no more digits.
proof fn lemma_digits_mono(a: nat, b: nat)
    requires
        a <= b,
    ensures
        digits_of(a) <= digits_of(b),
    decreases b,
{
    lemma_digits_step(a);
    lemma_digits_step(b);
    if a >= 10 {
        lemma_digits_mono(a / 10, b / 10);
    }
}

/// A `usize` has at most 20 decimal digits.
proof fn lemma_digits_bound(n: usize)
    ensures
        1 <= digits_of(n as nat) <= 20,
{
    lemma_digits_mono(n as nat, 18446744073709551615nat);
    lemma_digits_step(n as nat);
    lemma_digits_ge_one(n as nat);
    assert(digits_of(18446744073709551615nat) == 20) by {
        reveal_with_fuel(decimal, 21);
    }
}

/// Every number has at least one digit.
proof fn lemma_digits_ge_one(n: nat)
    ensures
        digits_of(n) >= 1,
    decreases n,
{
    if n >= 10 {
        lemma_digits_ge_one(n / 10);
    }
}

/// Returns the number of decimal digits needed to represent `n`.
fn digit_count(n: usize) -> (r: usize)
    ensures
        r == digits_of(n as nat),
{
    if n == 0 {
        return 1;
    }
    let mut count: usize = 0;
    let mut val = n;
    proof {
        lemma_digits_bound(n);
    }
    while val > 0
        invariant
            val > 0 ==> count + digits_of(val as nat) == digits_of(n as nat),
            val == 0 ==> count == digits_of(n as nat),
            count <= 20,
            val > 0 ==> count + digits_of(val as nat) <= 20,
        decreases val,
    {
        proof {
            lemma_digits_step(val as nat);
            lemma_digits_ge_one((val / 10) as nat);
            lemma_digits_bound(n);
        }
        count += 1;
        val /= 10;
    }
    count
}

impl Default for LineNumberGutter {
    fn default() -> (g: Self)
        ensures
            g@ == (1usize, 0usize, 0usize),
    {
        LineNumberGutter { total_lines: 1, current_line: 0, scroll_offset: 0 }
    }
}

impl LineNumberGutter {
    /// Creates a gutter for one line, the first current and visible.
    pub fn new() -> (g: Self)
        ensures
            g@ == (1usize, 0usize, 0usize),
    {
        Self::default()
    }

    /// Sets the total number of lines in the buffer (at least one).
    pub fn total_lines(self, total: usize) -> (g: Self)
        ensures
            g@ == (if total > 1 {
                total
            } else {
                1
            }, self@.1, self@.2),
    {
        let mut g = self;
        g.total_lines = if total > 1 {
            total
        } else {
            1
        };
        g
    }

    /// Sets the current (cursor) line index (0-based).
    pub fn current_line(self, line: usize) -> (g: Self)
        ensures
            g@ == (self@.0, line, self@.2),
    {
        let mut g = self;
        g.current_line = line;
        g
    }

    /// Sets the scroll offset (0-based index of the first visible line).
    pub fn scroll_offset(self, offset: usize) -> (g: Self)
        ensures
            g@ == (self@.0, self@.1, offset),
    {
        let mut g = self;
        g.scroll_offset = offset;
        g
    }

    /// The width the numbers need: the digits of the largest line number,
    /// plus one for padding on the right.
    pub fn required_width(&self) -> (w: u16)
        ensures
            w == digits_of(self@.0 as nat) + 1,
    {
        proof {
            lemma_digits_bound(self.total_lines);
        }
        let digits = digit_count(self.total_lines);
        (digits + 1) as u16
    }

    /// The label of the `row`-th visible row and whether it is the current
    /// line; `None` once the rows are past the last line.
    pub fn row_label(&self, row: usize) -> (r: Option<(String, bool)>)
        requires
            self@.2 + row <= usize::MAX,
        ensures
            self@.2 + row >= self@.0 ==> r is None,
            self@.2 + row < self@.0 ==> (r matches Some((text, current)) && text@ == line_label(
                (self@.2 + row + 1) as nat,
                digits_of(self@.0 as nat),
            ) && current == (self@.2 + row == self@.1)),
    {
        let line_index = self.scroll_offset + row;
        if line_index >= self.total_lines {
            return None;
        }
        let digits = digit_count(self.total_lines);
        let line_number = line_index + 1;
        let is_current = line_index == self.current_line;
        proof {
            lemma_digits_mono(line_number as nat, self.total_lines as nat);
        }
        let width = digit_count(line_number);
        let mut text = String::new();
        let mut k: usize = 0;
        while k < digits - width
            invariant
                width <= digits,
                k <= digits - width,
                text@ == spaces(k as nat),
            decreases digits - width - k,
        {
            push_char(&mut text, ' ');
            k += 1;
        }
        push_decimal(&mut text, line_number);
        push_char(&mut text, ' ');
        Some((text, is_current))
    }
}

} // verus!
