use rira::editor::buffer::Buffer;
use rira::editor::cursor::Cursor;
use rira::editor::selection::Selection;

#[test]
fn test_collapsed_selection() {
    let sel = Selection::collapsed(Cursor::new(0, 0));
    assert!(sel.is_empty());
}

#[test]
fn test_non_empty_selection() {
    let sel = Selection::new(Cursor::new(0, 0), Cursor::new(0, 5));
    assert!(!sel.is_empty());
}

#[test]
fn test_ordered_forward() {
    let sel = Selection::new(Cursor::new(0, 0), Cursor::new(0, 5));
    let (start, end) = sel.ordered();
    assert_eq!(start, Cursor::new(0, 0));
    assert_eq!(end, Cursor::new(0, 5));
}

#[test]
fn test_ordered_reverse() {
    let sel = Selection::new(Cursor::new(0, 5), Cursor::new(0, 0));
    let (start, end) = sel.ordered();
    assert_eq!(start, Cursor::new(0, 0));
    assert_eq!(end, Cursor::new(0, 5));
}

#[test]
fn test_selected_text() {
    let buf = Buffer::from_text("hello world");
    let sel = Selection::new(Cursor::new(0, 0), Cursor::new(0, 5));
    assert_eq!(sel.selected_text(&buf), Some("hello".to_string()));
}

#[test]
fn test_selected_text_empty() {
    let buf = Buffer::from_text("hello");
    let sel = Selection::collapsed(Cursor::new(0, 0));
    assert_eq!(sel.selected_text(&buf), None);
}

#[test]
fn test_selected_text_multiline() {
    let buf = Buffer::from_text("hello\nworld");
    let sel = Selection::new(Cursor::new(0, 3), Cursor::new(1, 2));
    // offset 3 to offset 8 ("lo\nwo")
    assert_eq!(sel.selected_text(&buf), Some("lo\nwo".to_string()));
}

#[test]
fn selection_test_default() {
    let sel = Selection::default();
    assert!(sel.is_empty());
    assert_eq!(sel.cursor, Cursor::new(0, 0));
}

#[test]
fn test_selected_text_column_past_line_end_is_invalid() {
    let buf = Buffer::from_text("hello\nworld");
    let sel = Selection::new(Cursor::new(0, 0), Cursor::new(0, 7));
    assert_eq!(sel.selected_text(&buf), None);
}

#[test]
fn test_selected_text_missing_line_is_invalid() {
    let buf = Buffer::from_text("hello\nworld");
    let sel = Selection::new(Cursor::new(5, 0), Cursor::new(0, 1));
    assert_eq!(sel.selected_text(&buf), None);
}

#[test]
fn test_selected_text_reversed() {
    let buf = Buffer::from_text("hello\nworld");
    let sel = Selection::new(Cursor::new(1, 2), Cursor::new(0, 3));
    assert_eq!(sel.selected_text(&buf), Some("lo\nwo".to_string()));
}
