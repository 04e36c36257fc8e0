//! Terminal colors and their RGB values.

use vstd::prelude::*;

verus! {

/// A terminal cell color: the default, one of the sixteen named colors, an
/// RGB triple, or an index into the 256-color palette.
#[derive(Debug, Clone, Copy, PartialEq, Eq, Structural)]
pub enum TermColor {
    Reset,
    Black,
    Red,
    Green,
    Yellow,
    Blue,
    Magenta,
    Cyan,
    Gray,
    DarkGray,
    LightRed,
    LightGreen,
    LightYellow,
    LightBlue,
    LightMagenta,
    LightCyan,
    White,
    Rgb(u8, u8, u8),
    Indexed(u8),
}

/// The level of a color cube coordinate (0 to 5).
pub open spec fn cube_level(v: int) -> int {
    if v == 0 {
        0
    } else {
        55 + 40 * v
    }
}

/// The RGB value of an index into the 256-color palette: the sixteen system
/// colors, a 6x6x6 color cube, then a ramp of 24 grays.
pub open spec fn ansi256_rgb(idx: u8) -> (u8, u8, u8) {
    if idx == 0 {
        (0, 0, 0)
    } else if idx == 1 {
        (128, 0, 0)
    } else if idx == 2 {
        (0, 128, 0)
    } else if idx == 3 {
        (128, 128, 0)
    } else if idx == 4 {
        (0, 0, 128)
    } else if idx == 5 {
        (128, 0, 128)
    } else if idx == 6 {
        (0, 128, 128)
    } else if idx == 7 {
        (192, 192, 192)
    } else if idx == 8 {
        (128, 128, 128)
    } else if idx == 9 {
        (255, 0, 0)
    } else if idx == 10 {
        (0, 255, 0)
    } else if idx == 11 {
        (255, 255, 0)
    } else if idx == 12 {
        (0, 0, 255)
    } else if idx == 13 {
        (255, 0, 255)
    } else if idx == 14 {
        (0, 255, 255)
    } else if idx == 15 {
        (255, 255, 255)
    } else if idx <= 231 {
        let i = idx - 16;
        (
            cube_level((i / 36) % 6) as u8,
            cube_level((i / 6) % 6) as u8,
            cube_level(i % 6) as u8,
        )
    } else {
        let v = 8 + 10 * (idx - 232);
        (v as u8, v as u8, v as u8)
    }
}

/// The RGB value of a cell color; the default is light gray for text and
/// nearly black for backgrounds.
pub open spec fn term_color_rgb(color: TermColor, is_fg: bool) -> (u8, u8, u8) {
    match color {
        TermColor::Reset => if is_fg {
            (220, 220, 220)
        } else {
            (30, 30, 30)
        },
        TermColor::Black => (0, 0, 0),
        TermColor::Red => (204, 0, 0),
        TermColor::Green => (78, 154, 6),
        TermColor::Yellow => (196, 160, 0),
        TermColor::Blue => (52, 101, 164),
        TermColor::Magenta => (117, 80, 123),
        TermColor::Cyan => (6, 152, 154),
        TermColor::Gray => (211, 215, 207),
        TermColor::DarkGray => (85, 87, 83),
        TermColor::LightRed => (239, 41, 41),
        TermColor::LightGreen => (138, 226, 52),
        TermColor::LightYellow => (252, 233, 79),
        TermColor::LightBlue => (114, 159, 207),
        TermColor::LightMagenta => (173, 127, 168),
        TermColor::LightCyan => (52, 226, 226),
        TermColor::White => (255, 255, 255),
        TermColor::Rgb(r, g, b) => (r, g, b),
        TermColor::Indexed(idx) => ansi256_rgb(idx),
    }
}

/// Convert a cell color to an (r, g, b) tuple; `is_fg` picks the default's
/// value: light gray for text, dark for backgrounds.
pub fn color_to_rgb(color: TermColor, is_fg: bool) -> (r: (u8, u8, u8))
    ensures
        r == term_color_rgb(color, is_fg),
{
    match color {
        TermColor::Reset => {
            if is_fg {
                (220, 220, 220)
            } else {
                (30, 30, 30)
            }
        },
        TermColor::Black => (0, 0, 0),
        TermColor::Red => (204, 0, 0),
        TermColor::Green => (78, 154, 6),
        TermColor::Yellow => (196, 160, 0),
        TermColor::Blue => (52, 101, 164),
        TermColor::Magenta => (117, 80, 123),
        TermColor::Cyan => (6, 152, 154),
        TermColor::Gray => (211, 215, 207),
        TermColor::DarkGray => (85, 87, 83),
        TermColor::LightRed => (239, 41, 41),
        TermColor::LightGreen => (138, 226, 52),
        TermColor::LightYellow => (252, 233, 79),
        TermColor::LightBlue => (114, 159, 207),
        TermColor::LightMagenta => (173, 127, 168),
        TermColor::LightCyan => (52, 226, 226),
        TermColor::White => (255, 255, 255),
        TermColor::Rgb(r, g, b) => (r, g, b),
        TermColor::Indexed(idx) => ansi256_to_rgb(idx),
    }
}

/// The level of a color cube coordinate below 6.
fn cube_value(v: u8) -> (r: u8)
    requires
        v < 6,
    ensures
        r == cube_level(v as int),
{
    if v == 0 {
        0
    } else {
        55 + 40 * v
    }
}

/// Convert an ANSI 256-color index to RGB.
pub fn ansi256_to_rgb(idx: u8) -> (r: (u8, u8, u8))
    ensures
        r == ansi256_rgb(idx),
{
    match idx {
        0 => (0, 0, 0),
        1 => (128, 0, 0),
        2 => (0, 128, 0),
        3 => (128, 128, 0),
        4 => (0, 0, 128),
        5 => (128, 0, 128),
        6 => (0, 128, 128),
        7 => (192, 192, 192),
        8 => (128, 128, 128),
        9 => (255, 0, 0),
        10 => (0, 255, 0),
        11 => (255, 255, 0),
        12 => (0, 0, 255),
        13 => (255, 0, 255),
        14 => (0, 255, 255),
        15 => (255, 255, 255),
        16..=231 => {
            let i = idx - 16;
            let r = (i / 36) % 6;
            let g = (i / 6) % 6;
            let b = i % 6;
            (cube_value(r), cube_value(g), cube_value(b))
        },
        232..=255 => {
            let v = 8 + 10 * (idx - 232);
            (v, v, v)
        },
    }
}

/// The sum of the three channels of a color: its overall brightness.
pub open spec fn brightness(c: (u8, u8, u8)) -> int {
    c.0 + c.1 + c.2
}

/// Law: the named colors take the Tango palette's values, for text and
/// background alike, and the default is light gray for text and nearly black
/// for backgrounds.
pub proof fn law_named_color_table(is_fg: bool)
    ensures
        term_color_rgb(TermColor::Black, is_fg) == (0u8, 0u8, 0u8),
        term_color_rgb(TermColor::Red, is_fg) == (204u8, 0u8, 0u8),
        term_color_rgb(TermColor::Green, is_fg) == (78u8, 154u8, 6u8),
        term_color_rgb(TermColor::Yellow, is_fg) == (196u8, 160u8, 0u8),
        term_color_rgb(TermColor::Blue, is_fg) == (52u8, 101u8, 164u8),
        term_color_rgb(TermColor::Magenta, is_fg) == (117u8, 80u8, 123u8),
        term_color_rgb(TermColor::Cyan, is_fg) == (6u8, 152u8, 154u8),
        term_color_rgb(TermColor::Gray, is_fg) == (211u8, 215u8, 207u8),
        term_color_rgb(TermColor::DarkGray, is_fg) == (85u8, 87u8, 83u8),
        term_color_rgb(TermColor::LightRed, is_fg) == (239u8, 41u8, 41u8),
        term_color_rgb(TermColor::LightGreen, is_fg) == (138u8, 226u8, 52u8),
        term_color_rgb(TermColor::LightYellow, is_fg) == (252u8, 233u8, 79u8),
        term_color_rgb(TermColor::LightBlue, is_fg) == (114u8, 159u8, 207u8),
        term_color_rgb(TermColor::LightMagenta, is_fg) == (173u8, 127u8, 168u8),
        term_color_rgb(TermColor::LightCyan, is_fg) == (52u8, 226u8, 226u8),
        term_color_rgb(TermColor::White, is_fg) == (255u8, 255u8, 255u8),
        term_color_rgb(TermColor::Reset, true) == (220u8, 220u8, 220u8),
        term_color_rgb(TermColor::Reset, false) == (30u8, 30u8, 30u8),
{
}

/// Law: each named color looks like its name.  Red, green and blue are led
/// by their own channel; yellow, magenta and cyan by the two channels that
/// mix to them; black is dark and white full; and each light variant is
/// brighter than its plain color, as gray is brighter than dark gray.
pub proof fn law_named_color_hues(is_fg: bool)
    ensures
        ({
            let c = term_color_rgb(TermColor::Red, is_fg);
            c.0 > c.1 && c.0 > c.2
        }),
        ({
            let c = term_color_rgb(TermColor::LightRed, is_fg);
            c.0 > c.1 && c.0 > c.2
        }),
        ({
            let c = term_color_rgb(TermColor::Green, is_fg);
            c.1 > c.0 && c.1 > c.2
        }),
        ({
            let c = term_color_rgb(TermColor::LightGreen, is_fg);
            c.1 > c.0 && c.1 > c.2
        }),
        ({
            let c = term_color_rgb(TermColor::Blue, is_fg);
            c.2 > c.0 && c.2 > c.1
        }),
        ({
            let c = term_color_rgb(TermColor::LightBlue, is_fg);
            c.2 > c.0 && c.2 > c.1
        }),
        ({
            let c = term_color_rgb(TermColor::Yellow, is_fg);
            c.0 > c.2 && c.1 > c.2
        }),
        ({
            let c = term_color_rgb(TermColor::LightYellow, is_fg);
            c.0 > c.2 && c.1 > c.2
        }),
        ({
            let c = term_color_rgb(TermColor::Magenta, is_fg);
            c.0 > c.1 && c.2 > c.1
        }),
        ({
            let c = term_color_rgb(TermColor::LightMagenta, is_fg);
            c.0 > c.1 && c.2 > c.1
        }),
        ({
            let c = term_color_rgb(TermColor::Cyan, is_fg);
            c.1 > c.0 && c.2 > c.0
        }),
        ({
            let c = term_color_rgb(TermColor::LightCyan, is_fg);
            c.1 > c.0 && c.2 > c.0
        }),
        term_color_rgb(TermColor::Black, is_fg) == (0u8, 0u8, 0u8),
        term_color_rgb(TermColor::White, is_fg) == (255u8, 255u8, 255u8),
        brightness(term_color_rgb(TermColor::LightRed, is_fg)) > brightness(term_color_rgb(TermColor::Red, is_fg)),
        brightness(term_color_rgb(TermColor::LightGreen, is_fg)) > brightness(term_color_rgb(TermColor::Green, is_fg)),
        brightness(term_color_rgb(TermColor::LightBlue, is_fg)) > brightness(term_color_rgb(TermColor::Blue, is_fg)),
        brightness(term_color_rgb(TermColor::LightYellow, is_fg)) > brightness(term_color_rgb(TermColor::Yellow, is_fg)),
        brightness(term_color_rgb(TermColor::LightMagenta, is_fg)) > brightness(term_color_rgb(TermColor::Magenta, is_fg)),
        brightness(term_color_rgb(TermColor::LightCyan, is_fg)) > brightness(term_color_rgb(TermColor::Cyan, is_fg)),
        brightness(term_color_rgb(TermColor::Gray, is_fg)) > brightness(term_color_rgb(TermColor::DarkGray, is_fg)),
{
}

/// The six levels of a color cube coordinate.
pub open spec fn cube_levels() -> Seq<u8> {
    seq![0u8, 95u8, 135u8, 175u8, 215u8, 255u8]
}

/// Law: the 256-color palette holds the sixteen standard system colors, then
/// for each red, green and blue coordinate below six the cube color with
/// those levels at `16 + 36 * red + 6 * green + blue`, then 24 grays from
/// 8 up in steps of 10.
pub proof fn law_ansi256_palette(r: int, g: int, b: int, k: int)
    ensures
        ansi256_rgb(0u8) == (0u8, 0u8, 0u8),
        ansi256_rgb(1u8) == (128u8, 0u8, 0u8),
        ansi256_rgb(2u8) == (0u8, 128u8, 0u8),
        ansi256_rgb(3u8) == (128u8, 128u8, 0u8),
        ansi256_rgb(4u8) == (0u8, 0u8, 128u8),
        ansi256_rgb(5u8) == (128u8, 0u8, 128u8),
        ansi256_rgb(6u8) == (0u8, 128u8, 128u8),
        ansi256_rgb(7u8) == (192u8, 192u8, 192u8),
        ansi256_rgb(8u8) == (128u8, 128u8, 128u8),
        ansi256_rgb(9u8) == (255u8, 0u8, 0u8),
        ansi256_rgb(10u8) == (0u8, 255u8, 0u8),
        ansi256_rgb(11u8) == (255u8, 255u8, 0u8),
        ansi256_rgb(12u8) == (0u8, 0u8, 255u8),
        ansi256_rgb(13u8) == (255u8, 0u8, 255u8),
        ansi256_rgb(14u8) == (0u8, 255u8, 255u8),
        ansi256_rgb(15u8) == (255u8, 255u8, 255u8),
        0 <= r < 6 && 0 <= g < 6 && 0 <= b < 6 ==> ansi256_rgb((16 + 36 * r + 6 * g + b) as u8) == (
            cube_levels()[r],
            cube_levels()[g],
            cube_levels()[b],
        ),
        0 <= k < 24 ==> ansi256_rgb((232 + k) as u8) == (
            (8 + 10 * k) as u8,
            (8 + 10 * k) as u8,
            (8 + 10 * k) as u8,
        ),
{
    if 0 <= r < 6 && 0 <= g < 6 && 0 <= b < 6 {
        let i = 36 * r + 6 * g + b;
        assert(i / 36 == r && (i / 6) % 6 == g && i % 6 == b) by (nonlinear_arith)
            requires
                i == 36 * r + 6 * g + b,
                0 <= r < 6,
                0 <= g < 6,
                0 <= b < 6,
        ;
        assert((16 + i) as u8 == 16 + i);
        assert(((16 + i) as u8) - 16 == i);
    }
}

} // verus!
