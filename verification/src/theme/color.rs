//! Color type with hex parsing and display.

use vstd::prelude::*;
use crate::text::{push_char, push_str, push_decimal, decimal, str_chars, trim, trimmed, trim_start, trim_end, is_white_space};

verus! {

/// An RGBA color with 8 bits per channel.
#[derive(Debug, Clone, Copy, PartialEq, Eq, Structural, Hash)]
pub struct Color {
    pub r: u8,
    pub g: u8,
    pub b: u8,
    pub a: u8,
}

/// Error type for color parsing.
#[derive(Debug, Clone, PartialEq, Eq, Structural)]
pub enum ColorParseError {
    Empty,
    InvalidChar,
    InvalidLength(usize),
    InvalidHex,
}

/// Whether `c` is an ASCII hexadecimal digit.
pub open spec fn is_hex_digit(c: char) -> bool {
    let v = c as u32;
    ||| 0x30 <= v <= 0x39
    ||| 0x41 <= v <= 0x46
    ||| 0x61 <= v <= 0x66
}

/// The value of a hexadecimal digit.
pub open spec fn hex_value(c: char) -> nat {
    let v = c as u32;
    if 0x30 <= v <= 0x39 {
        (v - 0x30) as nat
    } else if 0x41 <= v <= 0x46 {
        (v - 0x41 + 10) as nat
    } else {
        (v - 0x61 + 10) as nat
    }
}

/// The uppercase hexadecimal digit of a value below 16.
pub open spec fn hex_digit_char(d: nat) -> char {
    if d < 10 {
        (0x30 + d) as char
    } else {
        (0x41 + d - 10) as char
    }
}

/// Two uppercase hexadecimal digits for a byte.
pub open spec fn hex_byte_text(v: u8) -> Seq<char> {
    seq![hex_digit_char((v / 16) as nat), hex_digit_char((v % 16) as nat)]
}

/// The display text of a color: `#RRGGBB`, or `#RRGGBBAA` when it is not fully opaque.
pub open spec fn color_text(c: Color) -> Seq<char> {
    seq!['#'] + hex_byte_text(c.r) + hex_byte_text(c.g) + hex_byte_text(c.b) + if c.a == 255 {
        Seq::<char>::empty()
    } else {
        hex_byte_text(c.a)
    }
}

/// The digits of a hex color text: trimmed, without one leading `#`.
pub open spec fn hex_digits_of(s: Seq<char>) -> Seq<char> {
    let t = trimmed(s);
    if t.len() > 0 && t[0] == '#' {
        t.drop_first()
    } else {
        t
    }
}

/// Whether every char of `h` is a hexadecimal digit.
pub open spec fn all_hex(h: Seq<char>) -> bool {
    forall|i: int| 0 <= i < h.len() ==> is_hex_digit(#[trigger] h[i])
}

/// A channel written with one digit: the digit repeated.
pub open spec fn short_channel(c: char) -> u8 {
    (hex_value(c) * 17) as u8
}

/// A channel written with two digits.
pub open spec fn long_channel(hi: char, lo: char) -> u8 {
    (hex_value(hi) * 16 + hex_value(lo)) as u8
}

/// The color a hex text stands for: `#RGB`, `#RGBA`, `#RRGGBB` or
/// `#RRGGBBAA`, the `#` optional, whitespace around ignored.
pub open spec fn color_from_hex(s: Seq<char>) -> Result<Color, ColorParseError> {
    let h = hex_digits_of(s);
    if h.len() == 0 {
        Err(ColorParseError::Empty)
    } else if !all_hex(h) {
        Err(ColorParseError::InvalidChar)
    } else if h.len() == 3 {
        Ok(Color { r: short_channel(h[0]), g: short_channel(h[1]), b: short_channel(h[2]), a: 255 })
    } else if h.len() == 4 {
        Ok(
            Color {
                r: short_channel(h[0]),
                g: short_channel(h[1]),
                b: short_channel(h[2]),
                a: short_channel(h[3]),
            },
        )
    } else if h.len() == 6 {
        Ok(
            Color {
                r: long_channel(h[0], h[1]),
                g: long_channel(h[2], h[3]),
                b: long_channel(h[4], h[5]),
                a: 255,
            },
        )
    } else if h.len() == 8 {
        Ok(
            Color {
                r: long_channel(h[0], h[1]),
                g: long_channel(h[2], h[3]),
                b: long_channel(h[4], h[5]),
                a: long_channel(h[6], h[7]),
            },
        )
    } else {
        Err(ColorParseError::InvalidLength(h.len() as usize))
    }
}

/// The value of an ASCII hexadecimal digit byte.
fn parse_hex_digit(byte: u8) -> (r: Result<u8, ColorParseError>)
    ensures
        match r {
            Ok(v) => is_hex_digit(byte as char) && v == hex_value(byte as char),
            Err(e) => !is_hex_digit(byte as char) && e == ColorParseError::InvalidHex,
        },
{
    if 0x30 <= byte && byte <= 0x39 {
        Ok(byte - 0x30)
    } else if 0x61 <= byte && byte <= 0x66 {
        Ok(byte - 0x61 + 10)
    } else if 0x41 <= byte && byte <= 0x46 {
        Ok(byte - 0x41 + 10)
    } else {
        Err(ColorParseError::InvalidHex)
    }
}

/// The value of two hexadecimal digit chars.
fn parse_hex_byte(hi: char, lo: char) -> (r: Result<u8, ColorParseError>)
    ensures
        match r {
            Ok(v) => is_hex_digit(hi) && is_hex_digit(lo) && v == long_channel(hi, lo),
            Err(e) => !(is_hex_digit(hi) && is_hex_digit(lo)) && e == ColorParseError::InvalidHex,
        },
{
    if (hi as u32) >= 128 || (lo as u32) >= 128 {
        return Err(ColorParseError::InvalidHex);
    }
    let h = match parse_hex_digit(hi as u8) {
        Ok(v) => v,
        Err(e) => {
            return Err(e);
        },
    };
    let l = match parse_hex_digit(lo as u8) {
        Ok(v) => v,
        Err(e) => {
            return Err(e);
        },
    };
    Ok(h * 16 + l)
}

/// The value of one hexadecimal digit char, repeated to fill a byte.
fn parse_short_channel(c: char) -> (r: Result<u8, ColorParseError>)
    ensures
        match r {
            Ok(v) => is_hex_digit(c) && v == short_channel(c),
            Err(e) => !is_hex_digit(c) && e == ColorParseError::InvalidHex,
        },
{
    if (c as u32) >= 128 {
        return Err(ColorParseError::InvalidHex);
    }
    let d = match parse_hex_digit(c as u8) {
        Ok(v) => v,
        Err(e) => {
            return Err(e);
        },
    };
    assert((d << 4u8) | d == d * 17) by (bit_vector)
        requires
            d < 16,
    ;
    Ok(d << 4 | d)
}

/// The uppercase hexadecimal digit of a value below 16.
fn hex_digit_to_char(d: u8) -> (c: char)
    requires
        d < 16,
    ensures
        c == hex_digit_char(d as nat),
{
    if d < 10 {
        (0x30u8 + d) as char
    } else {
        (0x41u8 + d - 10) as char
    }
}

/// Appends two uppercase hexadecimal digits for `v`.
fn push_hex_byte(s: &mut String, v: u8)
    ensures
        final(s)@ == old(s)@ + hex_byte_text(v),
{
    push_char(s, hex_digit_to_char(v / 16));
    push_char(s, hex_digit_to_char(v % 16));
}

impl Color {
    /// Create a new color with full opacity.
    pub fn rgb(r: u8, g: u8, b: u8) -> (c: Self)
        ensures
            c == (Color { r, g, b, a: 255 }),
    {
        Color { r, g, b, a: 255 }
    }

    /// Create a new color with explicit alpha.
    pub fn rgba(r: u8, g: u8, b: u8, a: u8) -> (c: Self)
        ensures
            c == (Color { r, g, b, a }),
    {
        Color { r, g, b, a }
    }

    /// Parse a hex color string: `#RGB`, `#RGBA`, `#RRGGBB` or `#RRGGBBAA`
    /// (4-bit channels are expanded to 8 bits); the `#` prefix is optional.
    pub fn from_hex(s: &str) -> (r: Result<Self, ColorParseError>)
        ensures
            r == color_from_hex(s@),
    {
        let t = trim(s);
        let chars = str_chars(t);
        let start: usize = if chars.len() > 0 && chars[0] == '#' {
            1
        } else {
            0
        };
        let ghost h = hex_digits_of(s@);
        assert(h == chars@.subrange(start as int, chars@.len() as int));
        let n = chars.len() - start;
        if n == 0 {
            return Err(ColorParseError::Empty);
        }
        let mut i: usize = start;
        while i < chars.len()
            invariant
                start <= i <= chars@.len(),
                h == chars@.subrange(start as int, chars@.len() as int),
                h == hex_digits_of(s@),
                forall|j: int| start <= j < i ==> is_hex_digit(#[trigger] chars@[j]),
            decreases chars@.len() - i,
        {
            let c = chars[i];
            let v = c as u32;
            if !((0x30 <= v && v <= 0x39) || (0x41 <= v && v <= 0x46) || (0x61 <= v && v <= 0x66)) {
                assert(h[i - start] == c);
                assert(!is_hex_digit(h[i - start]));
                return Err(ColorParseError::InvalidChar);
            }
            i += 1;
        }
        assert(all_hex(h)) by {
            assert forall|j: int| 0 <= j < h.len() implies is_hex_digit(#[trigger] h[j]) by {
                assert(h[j] == chars@[start + j]);
            }
        }
        let hx = &chars;
        let k = start;
        if n == 3 {
            let r = parse_short_channel(hx[k])?;
            let g = parse_short_channel(hx[k + 1])?;
            let b = parse_short_channel(hx[k + 2])?;
            Ok(Color::rgb(r, g, b))
        } else if n == 4 {
            let r = parse_short_channel(hx[k])?;
            let g = parse_short_channel(hx[k + 1])?;
            let b = parse_short_channel(hx[k + 2])?;
            let a = parse_short_channel(hx[k + 3])?;
            Ok(Color::rgba(r, g, b, a))
        } else if n == 6 {
            let r = parse_hex_byte(hx[k], hx[k + 1])?;
            let g = parse_hex_byte(hx[k + 2], hx[k + 3])?;
            let b = parse_hex_byte(hx[k + 4], hx[k + 5])?;
            Ok(Color::rgb(r, g, b))
        } else if n == 8 {
            let r = parse_hex_byte(hx[k], hx[k + 1])?;
            let g = parse_hex_byte(hx[k + 2], hx[k + 3])?;
            let b = parse_hex_byte(hx[k + 4], hx[k + 5])?;
            let a = parse_hex_byte(hx[k + 6], hx[k + 7])?;
            Ok(Color::rgba(r, g, b, a))
        } else {
            Err(ColorParseError::InvalidLength(n))
        }
    }

    /// White color (the default).
    pub fn white() -> (c: Self)
        ensures
            c == (Color { r: 255, g: 255, b: 255, a: 255 }),
    {
        Color::rgb(255, 255, 255)
    }

    /// Black color.
    pub fn black() -> (c: Self)
        ensures
            c == (Color { r: 0, g: 0, b: 0, a: 255 }),
    {
        Color::rgb(0, 0, 0)
    }

    /// Transparent color.
    pub fn transparent() -> (c: Self)
        ensures
            c == (Color { r: 0, g: 0, b: 0, a: 0 }),
    {
        Color::rgba(0, 0, 0, 0)
    }

    /// The color as `#RRGGBB`, or `#RRGGBBAA` when it is not fully opaque,
    /// in uppercase digits (`to_string` of the color).
    pub fn to_string(&self) -> (s: String)
        ensures
            s@ == color_text(*self),
    {
        let mut s = String::new();
        push_char(&mut s, '#');
        push_hex_byte(&mut s, self.r);
        push_hex_byte(&mut s, self.g);
        push_hex_byte(&mut s, self.b);
        if self.a != 255 {
            push_hex_byte(&mut s, self.a);
        }
        assert(s@ =~= color_text(*self));
        s
    }
}

impl Default for Color {
    fn default() -> (c: Self)
        ensures
            c == (Color { r: 255, g: 255, b: 255, a: 255 }),
    {
        Color::white()
    }
}

impl ColorParseError {
    /// The error's message (`to_string` of the error).
    pub fn to_string(&self) -> (s: String)
        ensures
            s@ == match *self {
                ColorParseError::Empty => "empty color string"@,
                ColorParseError::InvalidChar => "invalid hex character"@,
                ColorParseError::InvalidLength(n) => "invalid hex color length: "@ + decimal(
                    n as nat,
                ) + " (expected 3, 4, 6, or 8)"@,
                ColorParseError::InvalidHex => "invalid hex value"@,
            },
    {
        let mut s = String::new();
        match *self {
            ColorParseError::Empty => push_str(&mut s, "empty color string"),
            ColorParseError::InvalidChar => push_str(&mut s, "invalid hex character"),
            ColorParseError::InvalidLength(n) => {
                push_str(&mut s, "invalid hex color length: ");
                push_decimal(&mut s, n);
                push_str(&mut s, " (expected 3, 4, 6, or 8)");
            },
            ColorParseError::InvalidHex => push_str(&mut s, "invalid hex value"),
        }
        assert(s@ =~= Seq::<char>::empty() + s@);
        s
    }
}

/// A hexadecimal digit written for a value below 16 is read back as that value.
proof fn lemma_hex_digit_roundtrip(d: nat)
    requires
        d < 16,
    ensures
        is_hex_digit(hex_digit_char(d)),
        hex_value(hex_digit_char(d)) == d,
        !is_white_space(hex_digit_char(d)),
{
}

/// Two hexadecimal digits written for a byte are read back as that byte.
proof fn lemma_hex_byte_roundtrip(v: u8)
    ensures
        long_channel(hex_byte_text(v)[0], hex_byte_text(v)[1]) == v,
        is_hex_digit(hex_byte_text(v)[0]),
        is_hex_digit(hex_byte_text(v)[1]),
{
    lemma_hex_digit_roundtrip((v / 16) as nat);
    lemma_hex_digit_roundtrip((v % 16) as nat);
}

/// Reading a color's display text gives the color back: `from_hex` of
/// `to_string` is the color itself.
pub proof fn law_color_text_roundtrip(c: Color)
    ensures
        color_from_hex(color_text(c)) == Ok::<Color, ColorParseError>(c),
{
    let s = color_text(c);
    lemma_hex_byte_roundtrip(c.r);
    lemma_hex_byte_roundtrip(c.g);
    lemma_hex_byte_roundtrip(c.b);
    lemma_hex_byte_roundtrip(c.a);
    lemma_hex_digit_roundtrip((c.b % 16) as nat);
    lemma_hex_digit_roundtrip((c.a % 16) as nat);
    assert(!is_white_space(s[0]));
    assert(trim_start(s) == s);
    assert(!is_white_space(s.last()));
    assert(trim_end(s) == s);
    let h = hex_digits_of(s);
    assert(h == s.drop_first());
    assert(all_hex(h)) by {
        assert forall|i: int| 0 <= i < h.len() implies is_hex_digit(#[trigger] h[i]) by {
            if i < 2 {
                assert(h[i] == hex_byte_text(c.r)[i]);
            } else if i < 4 {
                assert(h[i] == hex_byte_text(c.g)[i - 2]);
            } else if i < 6 {
                assert(h[i] == hex_byte_text(c.b)[i - 4]);
            } else {
                assert(h[i] == hex_byte_text(c.a)[i - 6]);
            }
        }
    }
}

} // verus!
