//! The title bar's background: a solid band across the top of the RGBA
//! pixel buffer, its bottom row a border of a lighter grey.

use vstd::prelude::*;

verus! {

/// The title bar's background grey.
pub const TITLE_BAR_BG: u8 = 45;

/// The grey of the title bar's bottom border.
pub const TITLE_BAR_BORDER: u8 = 60;

/// The byte `c` (0 red, 1 green, 2 blue, 3 alpha) of a title-bar pixel: the
/// border grey on the bottom row, the background grey elsewhere, always opaque.
pub open spec fn title_bar_byte(border: bool, c: int) -> u8 {
    if c == 3 {
        255
    } else if border {
        TITLE_BAR_BORDER
    } else {
        TITLE_BAR_BG
    }
}

/// The number of pixels the title bar covers in a buffer of `len` bytes: its
/// `height * width` pixels, as far as whole pixels of the buffer reach.
pub open spec fn title_bar_pixels(len: int, width: int, height: int) -> int {
    if height * width < len / 4 {
        height * width
    } else {
        len / 4
    }
}

/// Paint the title bar's background into `pixels`, an RGBA buffer `width`
/// pixels wide, over its first `height` rows: every pixel gets the background
/// grey, the pixels of row `height - 1` the border grey, all opaque.  Pixels
/// whose four bytes do not all lie in the buffer are left as they are, and so
/// is every byte after the title bar.
pub fn fill_title_bar(pixels: &mut Vec<u8>, width: u32, height: u32)
    ensures
        final(pixels)@.len() == old(pixels)@.len(),
        ({
            let n = title_bar_pixels(old(pixels)@.len() as int, width as int, height as int);
            &&& forall|p: int, c: int|
                0 <= p < n && 0 <= c < 4 ==> #[trigger] final(pixels)@[4 * p + c] == title_bar_byte(
                    p >= (height - 1) * width,
                    c,
                )
            &&& forall|i: int|
                4 * n <= i < old(pixels)@.len() ==> #[trigger] final(pixels)@[i] == old(pixels)@[i]
        }),
{
    let len = pixels.len();
    let room: usize = len / 4;
    assert((height as u64) * (width as u64) <= u64::MAX) by (nonlinear_arith);
    let total: u64 = (height as u64) * (width as u64);
    let n: usize = if total < room as u64 {
        total as usize
    } else {
        room
    };
    let border_from: u64 = if height > 0 {
        assert(((height - 1) as u64) * (width as u64) <= total) by (nonlinear_arith)
            requires
                total == (height as u64) * (width as u64),
                height > 0,
        ;
        ((height - 1) as u64) * (width as u64)
    } else {
        0
    };
    assert(n == title_bar_pixels(len as int, width as int, height as int));
    assert(height > 0 ==> border_from == (height - 1) * width);
    assert(height == 0 ==> total == 0) by (nonlinear_arith)
        requires
            total == (height as u64) * (width as u64),
    ;
    let mut p: usize = 0;
    while p < n
        invariant
            n <= room,
            room == len / 4,
            len == old(pixels)@.len(),
            pixels@.len() == len,
            p <= n,
            height > 0 ==> border_from == (height - 1) * width,
            height == 0 ==> n == 0,
            forall|q: int, c: int|
                0 <= q < p && 0 <= c < 4 ==> #[trigger] pixels@[4 * q + c] == title_bar_byte(
                    q >= (height - 1) * width,
                    c,
                ),
            forall|i: int| 4 * p <= i < len ==> #[trigger] pixels@[i] == old(pixels)@[i],
        decreases n - p,
    {
        let grey: u8 = if (p as u64) >= border_from {
            TITLE_BAR_BORDER
        } else {
            TITLE_BAR_BG
        };
        let idx: usize = 4 * p;
        pixels.set(idx, grey);
        pixels.set(idx + 1, grey);
        pixels.set(idx + 2, grey);
        pixels.set(idx + 3, 255);
        proof {
            assert forall|q: int, c: int|
                0 <= q < p + 1 && 0 <= c < 4 implies #[trigger] pixels@[4 * q + c]
                == title_bar_byte(q >= (height - 1) * width, c) by {
                if q == p {
                    assert(4 * q + c == idx + c);
                }
            }
        }
        p += 1;
    }
}

} // verus!
