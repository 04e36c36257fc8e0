use rira::editor::viewport::Viewport;

#[test]
fn test_new_defaults() {
    let vp = Viewport::new();
    assert_eq!(vp.scroll_offset, 0);
    assert_eq!(vp.visible_lines, 24);
}

#[test]
fn test_scroll_up() {
    let mut vp = Viewport::new();
    vp.scroll_offset = 10;
    vp.scroll_up(3);
    assert_eq!(vp.scroll_offset, 7);
}

#[test]
fn test_scroll_up_clamped_to_zero() {
    let mut vp = Viewport::new();
    vp.scroll_offset = 2;
    vp.scroll_up(5);
    assert_eq!(vp.scroll_offset, 0);
}

#[test]
fn test_scroll_up_from_zero() {
    let mut vp = Viewport::new();
    vp.scroll_up(1);
    assert_eq!(vp.scroll_offset, 0);
}

#[test]
fn test_scroll_down() {
    let mut vp = Viewport::new();
    vp.visible_lines = 10;
    vp.scroll_down(3, 100);
    assert_eq!(vp.scroll_offset, 3);
}

#[test]
fn test_scroll_down_clamped_to_max() {
    let mut vp = Viewport::new();
    vp.visible_lines = 10;
    vp.scroll_offset = 85;
    vp.scroll_down(20, 100);
    assert_eq!(vp.scroll_offset, 90); // max_lines(100) - visible_lines(10)
}

#[test]
fn test_scroll_down_when_content_fits() {
    let mut vp = Viewport::new();
    vp.visible_lines = 10;
    vp.scroll_down(5, 5); // content fits entirely
    assert_eq!(vp.scroll_offset, 0);
}

#[test]
fn test_ensure_cursor_visible_cursor_above() {
    let mut vp = Viewport::new();
    vp.scroll_offset = 10;
    vp.visible_lines = 5;
    vp.ensure_cursor_visible(7);
    assert_eq!(vp.scroll_offset, 7);
}

#[test]
fn test_ensure_cursor_visible_cursor_below() {
    let mut vp = Viewport::new();
    vp.scroll_offset = 0;
    vp.visible_lines = 5;
    vp.ensure_cursor_visible(7);
    assert_eq!(vp.scroll_offset, 3); // 7 - (5-1) = 3
}

#[test]
fn test_ensure_cursor_visible_cursor_already_visible() {
    let mut vp = Viewport::new();
    vp.scroll_offset = 5;
    vp.visible_lines = 10;
    vp.ensure_cursor_visible(8);
    assert_eq!(vp.scroll_offset, 5); // no change
}

#[test]
fn test_ensure_cursor_visible_at_boundary() {
    let mut vp = Viewport::new();
    vp.scroll_offset = 5;
    vp.visible_lines = 5;
    // cursor at first visible line
    vp.ensure_cursor_visible(5);
    assert_eq!(vp.scroll_offset, 5);
    // cursor at last visible line
    vp.ensure_cursor_visible(9);
    assert_eq!(vp.scroll_offset, 5);
}

#[test]
fn test_is_line_visible() {
    let mut vp = Viewport::new();
    vp.scroll_offset = 5;
    vp.visible_lines = 10;
    assert!(!vp.is_line_visible(4));
    assert!(vp.is_line_visible(5));
    assert!(vp.is_line_visible(14));
    assert!(!vp.is_line_visible(15));
}

#[test]
fn test_first_and_last_visible_line() {
    let mut vp = Viewport::new();
    vp.scroll_offset = 5;
    vp.visible_lines = 10;
    assert_eq!(vp.first_visible_line(), 5);
    assert_eq!(vp.last_visible_line(), 14);
}

#[test]
fn test_first_and_last_visible_line_at_zero() {
    let vp = Viewport::new();
    assert_eq!(vp.first_visible_line(), 0);
    assert_eq!(vp.last_visible_line(), 23);
}

#[test]
fn test_default_is_same_as_new() {
    let vp1 = Viewport::new();
    let vp2 = Viewport::default();
    assert_eq!(vp1.scroll_offset, vp2.scroll_offset);
    assert_eq!(vp1.visible_lines, vp2.visible_lines);
}

#[test]
fn test_scroll_down_zero_lines() {
    let mut vp = Viewport::new();
    vp.scroll_down(0, 100);
    assert_eq!(vp.scroll_offset, 0);
}

#[test]
fn test_scroll_up_zero_lines() {
    let mut vp = Viewport::new();
    vp.scroll_offset = 5;
    vp.scroll_up(0);
    assert_eq!(vp.scroll_offset, 5);
}

#[test]
fn test_ensure_cursor_visible_at_line_zero() {
    let mut vp = Viewport::new();
    vp.scroll_offset = 10;
    vp.ensure_cursor_visible(0);
    assert_eq!(vp.scroll_offset, 0);
}

#[test]
fn test_visible_lines_one() {
    let mut vp = Viewport::new();
    vp.visible_lines = 1;
    vp.scroll_offset = 0;
    vp.ensure_cursor_visible(5);
    assert_eq!(vp.scroll_offset, 5);
    assert!(vp.is_line_visible(5));
    assert!(!vp.is_line_visible(4));
    assert!(!vp.is_line_visible(6));
}
