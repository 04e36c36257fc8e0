//! The `file[:line]` argument of the command line.

use vstd::prelude::*;
use std::path::PathBuf;
use crate::text::{str_chars, parse_unsigned, unsigned_value};

verus! {

/// The path `PathBuf::from` makes of a string.
pub uninterp spec fn path_of(s: Seq<char>) -> PathBuf;

/// `PathBuf::from`: the path spelled by `s`, named by `path_of`.
#[verifier::external_body]
fn path_from(s: &str) -> (p: PathBuf)
    ensures
        p == path_of(s@),
{
    PathBuf::from(s)
}

/// The index of the last `c` in `s`, if any.
pub open spec fn last_index_of(s: Seq<char>, c: char) -> Option<int>
    decreases s.len(),
{
    if s.len() == 0 {
        None
    } else if s.last() == c {
        Some(s.len() - 1)
    } else {
        last_index_of(s.drop_last(), c)
    }
}

/// How a `file[:line]` argument splits: at its last colon, when the part
/// before is not empty and the part after is a line number that fits a
/// `usize`; otherwise the whole argument is the path, with no line.
pub open spec fn file_arg_parts(s: Seq<char>) -> (Seq<char>, Option<usize>) {
    match last_index_of(s, ':') {
        Some(p) => {
            let path = s.take(p);
            match unsigned_value(s.skip(p + 1)) {
                Some(v) => if path.len() > 0 && v <= usize::MAX {
                    (path, Some(v as usize))
                } else {
                    (s, None)
                },
                None => (s, None),
            }
        },
        None => (s, None),
    }
}

/// Split a `file[:line]` argument into the path's text and the line number, if any.
pub fn split_file_arg(arg: &str) -> (r: (String, Option<usize>))
    ensures
        (r.0@, r.1) == file_arg_parts(arg@),
{
    let chars = str_chars(arg);
    let n = chars.len();
    let mut k: usize = n;
    assert(chars@.take(n as int) == chars@);
    while k > 0 && chars[k - 1] != ':'
        invariant
            chars@ == arg@,
            n == chars@.len(),
            k <= n,
            last_index_of(arg@, ':') == last_index_of(chars@.take(k as int), ':'),
        decreases k,
    {
        assert(chars@.take(k as int).drop_last() == chars@.take(k - 1));
        k -= 1;
    }
    if k > 0 {
        let pos = k - 1;
        assert(chars@.take(k as int).last() == ':');
        let path_part = arg.substring_char(0, pos);
        let line_str = arg.substring_char(pos + 1, n);
        assert(path_part@ == arg@.take(pos as int));
        assert(line_str@ == arg@.skip(pos + 1));
        if path_part.unicode_len() > 0 {
            if let Some(line) = parse_unsigned(line_str, usize::MAX) {
                return (path_part.to_owned(), Some(line));
            }
        }
    }
    (arg.to_owned(), None)
}

/// Parse a `file[:line]` argument into a path and optional line number; the
/// line number is as written (1-based).  The path may hold colons of its
/// own: only a last colon followed by a number splits off a line.
pub fn parse_file_arg(arg: &str) -> (r: (PathBuf, Option<usize>))
    ensures
        r.0 == path_of(file_arg_parts(arg@).0),
        r.1 == file_arg_parts(arg@).1,
{
    let (path, line) = split_file_arg(arg);
    (path_from(path.as_str()), line)
}

} // verus!
