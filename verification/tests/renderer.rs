use rira::renderer::palette::{ansi256_to_rgb, color_to_rgb, TermColor};
use rira::renderer::title_bar::fill_title_bar;

#[test]
fn test_color_to_rgb_reset_fg() {
    let (r, g, b) = color_to_rgb(TermColor::Reset, true);
    assert_eq!((r, g, b), (220, 220, 220));
}

#[test]
fn test_color_to_rgb_reset_bg() {
    let (r, g, b) = color_to_rgb(TermColor::Reset, false);
    assert_eq!((r, g, b), (30, 30, 30));
}

#[test]
fn test_color_to_rgb_named() {
    assert_eq!(color_to_rgb(TermColor::Red, true), (204, 0, 0));
    assert_eq!(color_to_rgb(TermColor::White, true), (255, 255, 255));
    assert_eq!(color_to_rgb(TermColor::Black, true), (0, 0, 0));
}

#[test]
fn test_color_to_rgb_direct() {
    assert_eq!(color_to_rgb(TermColor::Rgb(100, 200, 50), true), (100, 200, 50));
}

#[test]
fn test_ansi256_standard_colors() {
    assert_eq!(ansi256_to_rgb(0), (0, 0, 0));
    assert_eq!(ansi256_to_rgb(15), (255, 255, 255));
}

#[test]
fn test_ansi256_cube() {
    // Index 16 = r:0 g:0 b:0
    assert_eq!(ansi256_to_rgb(16), (0, 0, 0));
    // Index 196 = r:5 g:0 b:0 -> (255, 0, 0) ... 196 = 16 + 180 = 16 + 5*36
    assert_eq!(ansi256_to_rgb(196), (255, 0, 0));
}

#[test]
fn test_ansi256_grayscale() {
    assert_eq!(ansi256_to_rgb(232), (8, 8, 8));
    assert_eq!(ansi256_to_rgb(255), (238, 238, 238));
}

#[test]
fn ansi256_cube_mixed_levels() {
    // 16 + 36 * 1 + 6 * 2 + 3 = 67: levels 95, 135, 175
    assert_eq!(ansi256_to_rgb(67), (95, 135, 175));
    assert_eq!(ansi256_to_rgb(231), (255, 255, 255));
    assert_eq!(color_to_rgb(TermColor::Indexed(9), false), (255, 0, 0));
    assert_eq!(color_to_rgb(TermColor::DarkGray, true), (85, 87, 83));
}

#[test]
fn title_bar_fill_paints_band_and_border() {
    // 3 pixels wide, 5 rows of buffer, title bar 2 rows tall.
    let mut px = vec![7u8; 3 * 5 * 4];
    fill_title_bar(&mut px, 3, 2);
    for p in 0..3 {
        assert_eq!(&px[p * 4..p * 4 + 4], &[45, 45, 45, 255]);
    }
    for p in 3..6 {
        assert_eq!(&px[p * 4..p * 4 + 4], &[60, 60, 60, 255]);
    }
    assert!(px[24..].iter().all(|&b| b == 7));
}

#[test]
fn title_bar_fill_stops_at_buffer_end() {
    let mut px = vec![1u8; 10];
    fill_title_bar(&mut px, 4, 4);
    assert_eq!(&px[0..8], &[45, 45, 45, 255, 45, 45, 45, 255]);
    assert_eq!(&px[8..], &[1, 1]);
    let mut none = vec![9u8; 8];
    fill_title_bar(&mut none, 2, 0);
    assert!(none.iter().all(|&b| b == 9));
}
