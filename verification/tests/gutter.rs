use rira::ui::gutter::LineNumberGutter;

#[test]
fn test_gutter_width_auto_calculates() {
    // <10 lines → 1 digit + 1 space = 2
    let g = LineNumberGutter::new().total_lines(9);
    assert_eq!(g.required_width(), 2);

    // 10..99 lines → 2 digits + 1 space = 3
    let g = LineNumberGutter::new().total_lines(50);
    assert_eq!(g.required_width(), 3);

    // 100..999 lines → 3 digits + 1 space = 4
    let g = LineNumberGutter::new().total_lines(500);
    assert_eq!(g.required_width(), 4);

    // 1000..9999 lines → 4 digits + 1 space = 5
    let g = LineNumberGutter::new().total_lines(5000);
    assert_eq!(g.required_width(), 5);
}

#[test]
fn gutter_labels_right_aligned() {
    let g = LineNumberGutter::new().total_lines(20).current_line(7).scroll_offset(5);
    assert_eq!(g.row_label(0), Some((" 6 ".to_string(), false)));
    assert_eq!(g.row_label(2), Some((" 8 ".to_string(), true)));
    assert_eq!(g.row_label(4), Some(("10 ".to_string(), false)));
    assert_eq!(g.row_label(15), None);
}

#[test]
fn gutter_total_lines_at_least_one() {
    let g = LineNumberGutter::new().total_lines(0);
    assert_eq!(g.required_width(), 2);
    assert_eq!(g.row_label(0), Some(("1 ".to_string(), true)));
    assert_eq!(g.row_label(1), None);
    let big = LineNumberGutter::new().total_lines(usize::MAX);
    assert_eq!(big.required_width(), 21);
}
