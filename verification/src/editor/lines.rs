//! The line structure of a text, as a rope sees it.
//!
//! A line break is one of LF, VT, FF, CR, NEL, LINE SEPARATOR and
//! PARAGRAPH SEPARATOR; a CR directly followed by an LF forms a single
//! break (CRLF).  A line runs from the start of the text, or from just after
//! a break, up to and including the next break.  A text with `n` breaks has
//! `n + 1` lines; the last one holds no break and may be empty.

use vstd::prelude::*;

verus! {

/// Whether `c` is one of the line-break characters.
pub open spec fn is_line_break_char(c: char) -> bool {
    c == '\n' || c == '\u{0B}' || c == '\u{0C}' || c == '\r' || c == '\u{85}' || c == '\u{2028}'
        || c == '\u{2029}'
}

/// Whether a line break ends at index `i` of `s` (the CR of a CRLF pair does not end one).
pub open spec fn ends_line_break(s: Seq<char>, i: int) -> bool {
    &&& 0 <= i < s.len()
    &&& is_line_break_char(s[i])
    &&& !(s[i] == '\r' && i + 1 < s.len() && s[i + 1] == '\n')
}

/// The first index at or after `p` where a line break ends, or `s.len()` if there is none.
pub open spec fn next_break(s: Seq<char>, p: int) -> int
    decreases s.len() - p,
{
    if p >= s.len() {
        s.len() as int
    } else if ends_line_break(s, p) {
        p
    } else {
        next_break(s, p + 1)
    }
}

/// The number of line breaks that end at or after index `p`.
pub open spec fn breaks_from(s: Seq<char>, p: int) -> nat
    decreases s.len() - p,
{
    if p >= s.len() {
        0
    } else {
        breaks_from(s, p + 1) + if ends_line_break(s, p) {
            1nat
        } else {
            0nat
        }
    }
}

/// The number of lines of `s`: one more than its number of line breaks.
pub open spec fn line_count(s: Seq<char>) -> nat {
    breaks_from(s, 0) + 1
}

/// The index where line `l` starts; `s.len()` for every line past the last.
pub open spec fn line_start(s: Seq<char>, l: nat) -> int
    decreases l,
{
    if l == 0 {
        0
    } else {
        let b = next_break(s, line_start(s, (l - 1) as nat));
        if b < s.len() {
            b + 1
        } else {
            s.len() as int
        }
    }
}

/// The number of chars of line `l`, its line break included.
pub open spec fn line_len(s: Seq<char>, l: nat) -> int {
    line_start(s, l + 1) - line_start(s, l)
}

/// The chars of line `l`, its line break included.
pub open spec fn line_text(s: Seq<char>, l: nat) -> Seq<char> {
    s.subrange(line_start(s, l), line_start(s, l + 1))
}

/// The number of chars of the line break that ends line `l` (0, 1, or 2 for CRLF).
pub open spec fn trailing_break_len(s: Seq<char>, l: nat) -> int {
    let a = line_start(s, l);
    let b = line_start(s, l + 1);
    if b > a && ends_line_break(s, b - 1) {
        if s[b - 1] == '\n' && b - 2 >= a && s[b - 2] == '\r' {
            2
        } else {
            1
        }
    } else {
        0
    }
}

/// The number of chars of line `l` without its line break.
pub open spec fn line_content_len(s: Seq<char>, l: nat) -> int {
    line_len(s, l) - trailing_break_len(s, l)
}

/// The number of bytes of the UTF-8 encoding of `s`.
pub open spec fn utf8_len(s: Seq<char>) -> nat {
    vstd::utf8::encode_utf8(s).len()
}

/// `next_break` lies between `p` and the end of the text, and no break ends before it.
pub proof fn lemma_next_break_bounds(s: Seq<char>, p: int)
    requires
        0 <= p,
    ensures
        p <= next_break(s, p) || (p > s.len() && next_break(s, p) == s.len()),
        next_break(s, p) <= s.len(),
        next_break(s, p) < s.len() ==> ends_line_break(s, next_break(s, p)),
        forall|i: int| p <= i < next_break(s, p) ==> !ends_line_break(s, i),
    decreases s.len() - p,
{
    if p < s.len() && !ends_line_break(s, p) {
        lemma_next_break_bounds(s, p + 1);
    }
}

/// Line starts never decrease and never pass the end of the text.
pub proof fn lemma_line_start_bounds(s: Seq<char>, l: nat)
    ensures
        0 <= line_start(s, l) <= line_start(s, l + 1) <= s.len(),
    decreases l,
{
    if l > 0 {
        lemma_line_start_bounds(s, (l - 1) as nat);
    }
    lemma_next_break_bounds(s, line_start(s, l));
}

/// Line starts are ordered like the line numbers.
pub proof fn lemma_line_start_mono(s: Seq<char>, l1: nat, l2: nat)
    requires
        l1 <= l2,
    ensures
        line_start(s, l1) <= line_start(s, l2),
    decreases l2 - l1,
{
    if l1 < l2 {
        lemma_line_start_bounds(s, l1);
        lemma_line_start_mono(s, l1 + 1, l2);
    }
}

/// A line's content, then its break, fit between its start and the next line's start.
pub proof fn lemma_content_len_bounds(s: Seq<char>, l: nat)
    ensures
        0 <= line_content_len(s, l) <= line_len(s, l),
        line_start(s, l) + line_content_len(s, l) <= line_start(s, l + 1) <= s.len(),
{
    lemma_line_start_bounds(s, l);
}

/// Counting breaks from `p`: none exactly when `next_break` finds none; otherwise one
/// more than the breaks after the first.
pub proof fn lemma_breaks_from_next(s: Seq<char>, p: int)
    requires
        0 <= p,
    ensures
        next_break(s, p) >= s.len() ==> breaks_from(s, p) == 0,
        next_break(s, p) < s.len() ==> breaks_from(s, p) == 1 + breaks_from(
            s,
            next_break(s, p) + 1,
        ),
    decreases s.len() - p,
{
    if p < s.len() && !ends_line_break(s, p) {
        lemma_breaks_from_next(s, p + 1);
    }
}

/// The breaks after the start of line `l` are those of the lines after it.
pub proof fn lemma_breaks_after_line_start(s: Seq<char>, l: nat)
    requires
        l < line_count(s),
    ensures
        breaks_from(s, line_start(s, l)) == line_count(s) - 1 - l,
    decreases l,
{
    if l > 0 {
        let prev = (l - 1) as nat;
        lemma_breaks_after_line_start(s, prev);
        lemma_line_start_bounds(s, prev);
        lemma_breaks_from_next(s, line_start(s, prev));
        lemma_next_break_bounds(s, line_start(s, prev));
    }
}

/// Every line but the last ends with a line break, and the last one runs to the end.
pub proof fn lemma_line_end(s: Seq<char>, l: nat)
    requires
        l < line_count(s),
    ensures
        l + 1 < line_count(s) ==> ends_line_break(s, line_start(s, l + 1) - 1)
            && line_start(s, l) < line_start(s, l + 1),
        l + 1 == line_count(s) ==> line_start(s, l + 1) == s.len(),
        forall|i: int|
            line_start(s, l) <= i < line_start(s, l + 1) - 1 ==> !ends_line_break(s, i),
{
    lemma_breaks_after_line_start(s, l);
    lemma_line_start_bounds(s, l);
    lemma_breaks_from_next(s, line_start(s, l));
    lemma_next_break_bounds(s, line_start(s, l));
}

/// A line that is not the last has room for at least its break after its content.
pub proof fn lemma_inner_line_has_break(s: Seq<char>, l: nat)
    requires
        l + 1 < line_count(s),
    ensures
        trailing_break_len(s, l) >= 1,
        line_start(s, l) + line_content_len(s, l) < line_start(s, l + 1),
{
    lemma_line_end(s, l);
}

/// The last line holds no line break.
pub proof fn lemma_last_line(s: Seq<char>)
    ensures
        line_start(s, line_count(s)) == s.len(),
        trailing_break_len(s, (line_count(s) - 1) as nat) == 0,
{
    let l = (line_count(s) - 1) as nat;
    lemma_line_end(s, l);
    let a = line_start(s, l);
    let b = line_start(s, l + 1);
    lemma_line_start_bounds(s, l);
    lemma_breaks_after_line_start(s, l);
    lemma_breaks_from_next(s, a);
    lemma_next_break_bounds(s, a);
    assert(!(b > a && ends_line_break(s, b - 1)));
}

/// Whether the text holds no CR: then every line break is a single char.
pub open spec fn cr_free(s: Seq<char>) -> bool {
    forall|i: int| 0 <= i < s.len() ==> s[i] != '\r'
}

/// The number of line-break chars in `s`.
pub open spec fn break_chars(s: Seq<char>) -> nat
    decreases s.len(),
{
    if s.len() == 0 {
        0
    } else {
        (if is_line_break_char(s[0]) {
            1nat
        } else {
            0nat
        }) + break_chars(s.drop_first())
    }
}

/// Without CRs, the breaks from `p` on are the break chars from `p` on.
proof fn lemma_breaks_from_cr_free(s: Seq<char>, p: int)
    requires
        cr_free(s),
        0 <= p <= s.len(),
    ensures
        breaks_from(s, p) == break_chars(s.skip(p)),
    decreases s.len() - p,
{
    if p < s.len() {
        lemma_breaks_from_cr_free(s, p + 1);
        assert(s.skip(p).drop_first() == s.skip(p + 1));
        assert(s.skip(p)[0] == s[p]);
    } else {
        assert(s.skip(p).len() == 0);
    }
}

/// The break chars of two texts put together are those of each.
proof fn lemma_break_chars_concat(a: Seq<char>, b: Seq<char>)
    ensures
        break_chars(a + b) == break_chars(a) + break_chars(b),
    decreases a.len(),
{
    if a.len() == 0 {
        assert(a + b == b);
    } else {
        assert((a + b).drop_first() == a.drop_first() + b);
        assert((a + b)[0] == a[0]);
        lemma_break_chars_concat(a.drop_first(), b);
    }
}

/// Without CRs, a text has one line more than it has break chars.
pub proof fn lemma_cr_free_line_count(s: Seq<char>)
    requires
        cr_free(s),
    ensures
        line_count(s) == break_chars(s) + 1,
{
    lemma_breaks_from_cr_free(s, 0);
    assert(s.skip(0) == s);
}

/// Inserting CR-free text into CR-free text gives CR-free text with one more
/// line per inserted break char.
pub proof fn lemma_cr_free_insert(s: Seq<char>, p: int, t: Seq<char>)
    requires
        cr_free(s),
        cr_free(t),
        0 <= p <= s.len(),
    ensures
        cr_free(s.take(p) + t + s.skip(p)),
        line_count(s.take(p) + t + s.skip(p)) == line_count(s) + break_chars(t),
        forall|i: int| 0 <= i < p ==> (s.take(p) + t + s.skip(p))[i] == s[i],
{
    let u = s.take(p) + t + s.skip(p);
    assert forall|i: int| 0 <= i < u.len() implies u[i] != '\r' by {
        if i < p {
            assert(u[i] == s[i]);
        } else if i < p + t.len() {
            assert(u[i] == t[i - p]);
        } else {
            assert(u[i] == s[i - t.len()]);
        }
    }
    lemma_cr_free_line_count(u);
    lemma_cr_free_line_count(s);
    lemma_break_chars_concat(s.take(p) + t, s.skip(p));
    lemma_break_chars_concat(s.take(p), t);
    lemma_break_chars_concat(s.take(p), s.skip(p));
    assert(s.take(p) + s.skip(p) == s);
}

/// Deleting chars from CR-free text leaves it CR-free.
pub proof fn lemma_cr_free_delete(s: Seq<char>, a: int, b: int)
    requires
        cr_free(s),
        0 <= a <= b <= s.len(),
    ensures
        cr_free(s.take(a) + s.skip(b)),
{
    let u = s.take(a) + s.skip(b);
    assert forall|i: int| 0 <= i < u.len() implies u[i] != '\r' by {
        if i < a {
            assert(u[i] == s[i]);
        } else {
            assert(u[i] == s[i - a + b]);
        }
    }
}



/// After one char is inserted at `p`, the breaks from index `i > p` on are
/// those of the old text from `i - 1` on.
proof fn lemma_insert_suffix_breaks(s: Seq<char>, p: int, ch: char, i: int)
    requires
        0 <= p <= s.len(),
        p + 1 <= i <= s.len() + 1,
    ensures
        breaks_from(s.take(p) + seq![ch] + s.skip(p), i) == breaks_from(s, i - 1),
    decreases s.len() + 1 - i,
{
    let u = s.take(p) + seq![ch] + s.skip(p);
    if i < u.len() {
        lemma_insert_suffix_breaks(s, p, ch, i + 1);
        assert(u[i] == s[i - 1]);
        if i + 1 < u.len() {
            assert(u[i + 1] == s[i]);
        }
        assert(ends_line_break(u, i) == ends_line_break(s, i - 1));
    }
}

/// Before the insertion point less one, the breaks of the new and old text
/// differ by what they differ at that point.
proof fn lemma_insert_prefix_breaks(s: Seq<char>, p: int, ch: char, i: int)
    requires
        1 <= p <= s.len(),
        0 <= i <= p - 1,
    ensures
        breaks_from(s.take(p) + seq![ch] + s.skip(p), i) - breaks_from(s, i) == breaks_from(
            s.take(p) + seq![ch] + s.skip(p),
            p - 1,
        ) - breaks_from(s, p - 1),
    decreases p - 1 - i,
{
    let u = s.take(p) + seq![ch] + s.skip(p);
    if i < p - 1 {
        lemma_insert_prefix_breaks(s, p, ch, i + 1);
        assert(u[i] == s[i]);
        assert(u[i + 1] == s[i + 1]);
        assert(ends_line_break(u, i) == ends_line_break(s, i));
    }
}

/// Inserting one char never lowers the number of lines.
pub proof fn lemma_insert_char_line_count(s: Seq<char>, p: int, ch: char)
    requires
        0 <= p <= s.len(),
    ensures
        line_count(s.take(p) + seq![ch] + s.skip(p)) >= line_count(s),
{
    let u = s.take(p) + seq![ch] + s.skip(p);
    assert(u.len() == s.len() + 1);
    lemma_insert_suffix_breaks(s, p, ch, p + 1);
    assert(u[p] == ch);
    assert(breaks_from(u, p) == breaks_from(s, p) + if ends_line_break(u, p) {
        1nat
    } else {
        0nat
    });
    if p > 0 {
        lemma_insert_prefix_breaks(s, p, ch, 0);
        assert(u[p - 1] == s[p - 1]);
        assert(breaks_from(u, p - 1) == breaks_from(u, p) + if ends_line_break(u, p - 1) {
            1nat
        } else {
            0nat
        });
        assert(breaks_from(s, p - 1) == breaks_from(s, p) + if ends_line_break(s, p - 1) {
            1nat
        } else {
            0nat
        });
        if ends_line_break(s, p - 1) && !ends_line_break(u, p - 1) {
            assert(ch == '\n');
            assert(ends_line_break(u, p));
        }
    }
}

/// Two texts whose breaks end at the same indices before `pos` find the same
/// next break from `q`, when it lies before `pos`.
proof fn lemma_next_break_agree_ends(a: Seq<char>, b: Seq<char>, q: int, pos: int)
    requires
        0 <= q,
        pos <= a.len(),
        pos <= b.len(),
        forall|i: int| 0 <= i < pos ==> ends_line_break(a, i) == ends_line_break(b, i),
        next_break(a, q) < pos,
    ensures
        next_break(b, q) == next_break(a, q),
    decreases a.len() - q,
{
    lemma_next_break_bounds(a, q);
    if q < a.len() && !ends_line_break(a, q) {
        lemma_next_break_agree_ends(a, b, q + 1, pos);
    }
}

/// Two texts whose breaks end at the same indices before `pos` have the same
/// lines up to the one that starts at or before `pos`.
proof fn lemma_line_start_agree_ends(a: Seq<char>, b: Seq<char>, l: nat, pos: int)
    requires
        pos <= a.len(),
        pos <= b.len(),
        forall|i: int| 0 <= i < pos ==> ends_line_break(a, i) == ends_line_break(b, i),
        l < line_count(a),
        line_start(a, l) <= pos,
    ensures
        line_start(b, l) == line_start(a, l),
    decreases l,
{
    if l > 0 {
        let k = (l - 1) as nat;
        lemma_line_start_bounds(a, k);
        lemma_line_start_agree_ends(a, b, k, pos);
        lemma_line_end(a, k);
        lemma_next_break_bounds(a, line_start(a, k));
        lemma_next_break_agree_ends(a, b, line_start(a, k), pos);
    }
}

/// No break ends inside a line's content.
proof fn lemma_no_break_in_content(s: Seq<char>, l: nat, i: int)
    requires
        l < line_count(s),
        line_start(s, l) <= i < line_start(s, l) + line_content_len(s, l),
    ensures
        !ends_line_break(s, i),
{
    lemma_line_end(s, l);
    lemma_line_start_bounds(s, l);
    if l + 1 == line_count(s) {
        lemma_last_line(s);
    }
}

/// Inserting one char at a position of a line keeps the position valid: the
/// line is still there and still has that many chars of content.
pub proof fn lemma_insert_char_keeps_position(s: Seq<char>, l: nat, col: int, ch: char)
    requires
        l < line_count(s),
        0 <= col <= line_content_len(s, l),
    ensures
        ({
            let p = line_start(s, l) + col;
            let u = s.take(p) + seq![ch] + s.skip(p);
            &&& l < line_count(u)
            &&& col <= line_content_len(u, l)
        }),
{
    let ls = line_start(s, l);
    let p = ls + col;
    let u = s.take(p) + seq![ch] + s.skip(p);
    lemma_content_len_bounds(s, l);
    lemma_line_start_bounds(s, l);
    lemma_insert_char_line_count(s, p, ch);
    lemma_content_len_bounds(u, l);
    if col > 0 {
        lemma_no_break_in_content(s, l, p - 1);
        assert(!is_line_break_char(s[p - 1])) by {
            if is_line_break_char(s[p - 1]) {
                assert(s[p - 1] == '\r' && p < s.len() && s[p] == '\n');
                lemma_line_end(s, l);
                lemma_next_break_bounds(s, ls);
                if l + 1 == line_count(s) {
                    lemma_last_line(s);
                }
                assert(ends_line_break(s, p));
            }
        }
        assert forall|i: int| 0 <= i < p implies ends_line_break(s, i) == ends_line_break(u, i) by {
            assert(u[i] == s[i]);
            if i + 1 < p {
                assert(u[i + 1] == s[i + 1]);
            }
        }
        lemma_line_start_agree_ends(s, u, l, p);
        lemma_line_end(u, l);
        lemma_line_start_bounds(u, l);
        lemma_next_break_bounds(u, ls);
        assert forall|i: int| ls <= i < p implies !ends_line_break(u, i) by {
            lemma_no_break_in_content(s, l, i);
        }
        if l + 1 == line_count(u) {
            lemma_last_line(u);
        }
    } else {
        crate::editor::lines::lemma_content_len_bounds(u, l);
    }
}


/// Inserting a LF where no CR comes just before adds exactly one line.
pub proof fn lemma_insert_lf_line_count(s: Seq<char>, p: int)
    requires
        0 <= p <= s.len(),
        !(p > 0 && s[p - 1] == '\r'),
    ensures
        line_count(s.take(p) + seq!['\n'] + s.skip(p)) == line_count(s) + 1,
{
    let u = s.take(p) + seq!['\n'] + s.skip(p);
    assert(u.len() == s.len() + 1);
    lemma_insert_suffix_breaks(s, p, '\n', p + 1);
    assert(u[p] == '\n');
    assert(ends_line_break(u, p));
    assert(breaks_from(u, p) == breaks_from(s, p) + 1);
    if p > 0 {
        lemma_insert_prefix_breaks(s, p, '\n', 0);
        assert(u[p - 1] == s[p - 1]);
        assert(ends_line_break(u, p - 1) == ends_line_break(s, p - 1));
        assert(breaks_from(u, p - 1) == breaks_from(u, p) + if ends_line_break(u, p - 1) {
            1nat
        } else {
            0nat
        });
        assert(breaks_from(s, p - 1) == breaks_from(s, p) + if ends_line_break(s, p - 1) {
            1nat
        } else {
            0nat
        });
    }
}

/// A position of a line, no further than the end of its content, never falls
/// between the CR and the LF of a CRLF pair.
pub proof fn lemma_position_outside_crlf(s: Seq<char>, l: nat, col: int)
    requires
        l < line_count(s),
        0 <= col <= line_content_len(s, l),
    ensures
        ({
            let p = line_start(s, l) + col;
            !(0 < p < s.len() && s[p - 1] == '\r' && s[p] == '\n')
        }),
{
    let ls = line_start(s, l);
    let p = ls + col;
    lemma_content_len_bounds(s, l);
    lemma_line_start_bounds(s, l);
    if 0 < p < s.len() && s[p - 1] == '\r' && s[p] == '\n' {
        assert(ends_line_break(s, p));
        assert(!ends_line_break(s, p - 1));
        if col == 0 {
            lemma_line_end(s, (l - 1) as nat);
        } else if p < ls + line_content_len(s, l) {
            lemma_no_break_in_content(s, l, p);
        } else {
            lemma_line_end(s, l);
            lemma_next_break_bounds(s, ls);
            let nb = next_break(s, ls);
            if nb < p {
                lemma_no_break_in_content(s, l, nb);
            }
            assert(nb == p);
            assert(line_start(s, l + 1) == p + 1);
            assert(trailing_break_len(s, l) == 2);
        }
    }
}


/// Appending a char other than LF keeps every break of the text where it was,
/// and adds one when the new char is a line-break char.
proof fn lemma_append_breaks(s: Seq<char>, ch: char, i: int)
    requires
        ch != '\n',
        0 <= i <= s.len(),
    ensures
        breaks_from(s + seq![ch], i) == breaks_from(s, i) + if is_line_break_char(ch) {
            1nat
        } else {
            0nat
        },
    decreases s.len() - i,
{
    let u = s + seq![ch];
    if i < s.len() {
        lemma_append_breaks(s, ch, i + 1);
        assert(u[i] == s[i]);
        if i + 1 < s.len() {
            assert(u[i + 1] == s[i + 1]);
        } else {
            assert(u[i + 1] == ch);
        }
        assert(ends_line_break(u, i) == ends_line_break(s, i));
    } else {
        assert(u[i] == ch);
        assert(ends_line_break(u, i) == is_line_break_char(ch));
        assert(breaks_from(u, i + 1) == 0);
        assert(breaks_from(s, i) == 0);
    }
}

/// A position at the very end of the text, after a char other than LF is
/// appended there: a line-break char ends its line, whose content stays as it
/// was, and opens an empty last line; any other char lengthens the last line's
/// content by one.
pub proof fn lemma_append_at_end(s: Seq<char>, l: nat, col: int, ch: char)
    requires
        ch != '\n',
        l < line_count(s),
        0 <= col <= line_content_len(s, l),
        line_start(s, l) + col == s.len(),
    ensures
        line_start(s + seq![ch], l) == line_start(s, l),
        is_line_break_char(ch) ==> {
            &&& line_count(s + seq![ch]) == l + 2
            &&& line_start(s + seq![ch], l + 1) == s.len() + 1
            &&& line_content_len(s + seq![ch], l) == col
        },
        !is_line_break_char(ch) ==> {
            &&& line_count(s + seq![ch]) == l + 1
            &&& line_content_len(s + seq![ch], l) == col + 1
        },
{
    let u = s + seq![ch];
    let ls = line_start(s, l);
    lemma_content_len_bounds(s, l);
    lemma_line_start_bounds(s, l);
    if l + 1 < line_count(s) {
        lemma_inner_line_has_break(s, l);
    }
    assert(l + 1 == line_count(s));
    lemma_last_line(s);
    lemma_line_end(s, l);
    lemma_append_breaks(s, ch, 0);
    assert forall|i: int| 0 <= i < s.len() implies ends_line_break(s, i) == ends_line_break(u, i) by {
        assert(u[i] == s[i]);
        if i + 1 < s.len() {
            assert(u[i + 1] == s[i + 1]);
        } else {
            assert(u[i + 1] == ch);
        }
    }
    lemma_line_start_agree_ends(s, u, l, s.len() as int);
    assert forall|i: int| ls <= i < s.len() implies !ends_line_break(u, i) by {
        if i == s.len() - 1 {
            assert(!ends_line_break(s, i));
        }
    }
    assert(u[s.len() as int] == ch);
    lemma_line_start_bounds(u, l);
    if is_line_break_char(ch) {
        assert(ends_line_break(u, s.len() as int));
        lemma_next_break_bounds(u, ls);
        let nb = next_break(u, ls);
        assert(nb == s.len());
        assert(line_start(u, l + 1) == s.len() + 1);
        assert(trailing_break_len(u, l) == 1);
    } else {
        lemma_last_line(u);
        assert(trailing_break_len(u, l) == 0);
    }
}


/// Removing the chars `p..b` right after a position `p` of line `l` keeps
/// that position: the line is still there, starts where it did, and still
/// has at least that much content, unless the removal joins a CR before it
/// and an LF after it.
pub proof fn lemma_cut_keeps_position(s: Seq<char>, l: nat, col: int, b: int)
    requires
        l < line_count(s),
        0 <= col <= line_content_len(s, l),
        line_start(s, l) + col <= b <= s.len(),
        !(line_start(s, l) + col > 0 && s[line_start(s, l) + col - 1] == '\r' && b < s.len()
            && s[b] == '\n'),
    ensures
        ({
            let p = line_start(s, l) + col;
            let t = s.take(p) + s.skip(b);
            &&& l < line_count(t)
            &&& line_start(t, l) == line_start(s, l)
            &&& col <= line_content_len(t, l)
        }),
{
    let a = line_start(s, l);
    let p = a + col;
    let t = s.take(p) + s.skip(b);
    lemma_content_len_bounds(s, l);
    lemma_line_start_bounds(s, l);
    lemma_position_outside_crlf(s, l, col);
    assert(t.len() == p + s.len() - b);
    assert forall|i: int| 0 <= i < p implies ends_line_break(s, i) == ends_line_break(t, i) by {
        assert(t[i] == s[i]);
        if i + 1 < p {
            assert(t[i + 1] == s[i + 1]);
        } else if b < s.len() {
            assert(t[i + 1] == s[b]);
        }
    }
    lemma_line_start_agree_ends(s, t, l, p);
    // The line is still there.
    if l >= line_count(t) {
        lemma_last_line(t);
        let ct = line_count(t);
        lemma_line_start_mono(t, ct, l);
        lemma_line_start_bounds(t, l);
        assert(l >= 1);
        let k = (l - 1) as nat;
        lemma_line_end(s, k);
        lemma_line_start_bounds(s, k);
        lemma_line_start_agree_ends(s, t, k, p);
        if k >= ct {
            lemma_line_start_mono(t, ct, k);
            lemma_line_start_bounds(t, k);
            assert(false);
        } else {
            assert(ends_line_break(t, p - 1));
            assert(trailing_break_len(t, k) >= 1);
            assert(false);
        }
    }
    // Its content still reaches the position.
    lemma_line_end(t, l);
    lemma_line_start_bounds(t, l);
    assert forall|i: int| a <= i < p implies !ends_line_break(t, i) by {
        lemma_no_break_in_content(s, l, i);
    }
    if l + 1 == line_count(t) {
        lemma_last_line(t);
    } else {
        let e = line_start(t, l + 1) - 1;
        assert(ends_line_break(t, e));
        assert(e >= p);
        if e == p && trailing_break_len(t, l) == 2 {
            assert(t[p - 1] == s[p - 1]);
            if b < s.len() {
                assert(t[p] == s[b]);
            }
            assert(false);
        }
    }
}

} // verus!
