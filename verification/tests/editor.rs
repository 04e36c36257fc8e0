use rira::editor::cursor::Cursor;
use rira::editor::selection::Selection;
use rira::editor::Editor;

#[test]
fn test_editor_new() {
    let ed = Editor::new();
    assert_eq!(ed.buffer.char_count(), 0);
    assert_eq!(ed.cursor, Cursor::new(0, 0));
}

#[test]
fn test_insert_char() {
    let mut ed = Editor::new();
    ed.insert_char('h').expect("insert should succeed");
    ed.insert_char('i').expect("insert should succeed");
    assert_eq!(ed.buffer.to_string(), "hi");
    assert_eq!(ed.cursor, Cursor::new(0, 2));
}

#[test]
fn test_delete_char() {
    let mut ed = Editor::from_text("hello");
    ed.cursor = Cursor::new(0, 0);
    ed.delete_char().expect("delete should succeed");
    assert_eq!(ed.buffer.to_string(), "ello");
}

#[test]
fn test_backspace() {
    let mut ed = Editor::from_text("hello");
    ed.cursor = Cursor::new(0, 5);
    ed.collapse_selection();
    ed.backspace().expect("backspace should succeed");
    assert_eq!(ed.buffer.to_string(), "hell");
    assert_eq!(ed.cursor, Cursor::new(0, 4));
}

#[test]
fn test_backspace_at_start() {
    let mut ed = Editor::from_text("hello");
    ed.cursor = Cursor::new(0, 0);
    ed.collapse_selection();
    ed.backspace().expect("backspace should succeed");
    assert_eq!(ed.buffer.to_string(), "hello");
}

#[test]
fn test_newline() {
    let mut ed = Editor::from_text("hello");
    ed.cursor = Cursor::new(0, 5);
    ed.collapse_selection();
    ed.newline().expect("newline should succeed");
    assert_eq!(ed.buffer.to_string(), "hello\n");
    assert_eq!(ed.cursor, Cursor::new(1, 0));
}

#[test]
fn test_undo_redo() {
    let mut ed = Editor::new();
    ed.insert_char('a').expect("insert should succeed");
    ed.insert_char('b').expect("insert should succeed");
    ed.insert_char('c').expect("insert should succeed");
    assert_eq!(ed.buffer.to_string(), "abc");

    ed.undo().expect("undo should succeed");
    assert_eq!(ed.buffer.to_string(), "");

    ed.redo().expect("redo should succeed");
    assert_eq!(ed.buffer.to_string(), "abc");
}

#[test]
fn test_select_all() {
    let mut ed = Editor::from_text("hello\nworld");
    ed.select_all();
    assert_eq!(ed.copy(), Some("hello\nworld".to_string()));
}

#[test]
fn test_copy_no_selection() {
    let ed = Editor::from_text("hello");
    assert_eq!(ed.copy(), None);
}

#[test]
fn test_paste() {
    let mut ed = Editor::from_text("hd");
    ed.cursor = Cursor::new(0, 1);
    ed.collapse_selection();
    ed.paste("ello worl").expect("paste should succeed");
    assert_eq!(ed.buffer.to_string(), "hello world");
}

#[test]
fn test_paste_replaces_selection() {
    let mut ed = Editor::from_text("hello world");
    ed.selection = Selection::new(Cursor::new(0, 5), Cursor::new(0, 11));
    ed.cursor = Cursor::new(0, 11);
    ed.paste("!").expect("paste should succeed");
    assert_eq!(ed.buffer.to_string(), "hello!");
}

#[test]
fn test_delete_with_selection() {
    let mut ed = Editor::from_text("hello world");
    ed.selection = Selection::new(Cursor::new(0, 5), Cursor::new(0, 11));
    ed.cursor = Cursor::new(0, 11);
    ed.delete_char().expect("delete should succeed");
    assert_eq!(ed.buffer.to_string(), "hello");
}

#[test]
fn test_backspace_with_selection() {
    let mut ed = Editor::from_text("hello world");
    ed.selection = Selection::new(Cursor::new(0, 0), Cursor::new(0, 5));
    ed.cursor = Cursor::new(0, 5);
    ed.backspace().expect("backspace should succeed");
    assert_eq!(ed.buffer.to_string(), " world");
}

#[test]
fn test_insert_char_replaces_selection() {
    let mut ed = Editor::from_text("hello");
    ed.selection = Selection::new(Cursor::new(0, 0), Cursor::new(0, 5));
    ed.cursor = Cursor::new(0, 5);
    ed.insert_char('!').expect("insert should succeed");
    assert_eq!(ed.buffer.to_string(), "!");
}

#[test]
fn test_newline_in_middle() {
    let mut ed = Editor::from_text("helloworld");
    ed.cursor = Cursor::new(0, 5);
    ed.collapse_selection();
    ed.newline().expect("newline should succeed");
    assert_eq!(ed.buffer.to_string(), "hello\nworld");
    assert_eq!(ed.cursor, Cursor::new(1, 0));
}

#[test]
fn test_undo_paste() {
    let mut ed = Editor::new();
    ed.paste("hello world").expect("paste should succeed");
    assert_eq!(ed.buffer.to_string(), "hello world");
    ed.undo().expect("undo should succeed");
    assert_eq!(ed.buffer.to_string(), "");
}

#[test]
fn test_delete_at_end() {
    let mut ed = Editor::from_text("hi");
    ed.cursor = Cursor::new(0, 2);
    ed.collapse_selection();
    ed.delete_char().expect("delete should succeed");
    assert_eq!(ed.buffer.to_string(), "hi");
}

#[test]
fn test_editor_default() {
    let ed = Editor::default();
    assert_eq!(ed.buffer.char_count(), 0);
}

#[test]
fn test_insert_char_updates_buffer() {
    let mut ed = Editor::new();
    ed.insert_char('a').expect("insert should succeed");
    assert_eq!(ed.buffer.to_string(), "a");
    ed.insert_char('b').expect("insert should succeed");
    assert_eq!(ed.buffer.to_string(), "ab");
    ed.insert_char('c').expect("insert should succeed");
    assert_eq!(ed.buffer.to_string(), "abc");
    assert_eq!(ed.buffer.char_count(), 3);
}

#[test]
fn test_backspace_removes_char() {
    let mut ed = Editor::new();
    ed.insert_char('a').expect("insert should succeed");
    ed.insert_char('b').expect("insert should succeed");
    ed.insert_char('c').expect("insert should succeed");
    assert_eq!(ed.buffer.to_string(), "abc");

    ed.backspace().expect("backspace should succeed");
    assert_eq!(ed.buffer.to_string(), "ab");

    ed.backspace().expect("backspace should succeed");
    assert_eq!(ed.buffer.to_string(), "a");
}

#[test]
fn test_enter_inserts_newline() {
    let mut ed = Editor::new();
    ed.insert_char('a').expect("insert should succeed");
    ed.newline().expect("newline should succeed");
    ed.insert_char('b').expect("insert should succeed");
    assert_eq!(ed.buffer.to_string(), "a\nb");
    assert_eq!(ed.buffer.line_count(), 2);
    assert_eq!(ed.cursor.line, 1);
    assert_eq!(ed.cursor.col, 1);
}

#[test]
fn test_delete_removes_char_after_cursor() {
    let mut ed = Editor::from_text("abc");
    ed.cursor = Cursor::new(0, 0);
    ed.collapse_selection();
    ed.delete_char().expect("delete should succeed");
    assert_eq!(ed.buffer.to_string(), "bc");

    ed.delete_char().expect("delete should succeed");
    assert_eq!(ed.buffer.to_string(), "c");

    ed.delete_char().expect("delete should succeed");
    assert_eq!(ed.buffer.to_string(), "");
}

#[test]
fn test_sequential_typing() {
    let mut ed = Editor::new();
    let text = "Hello, world!";
    for ch in text.chars() {
        ed.insert_char(ch).expect("insert should succeed");
    }
    assert_eq!(ed.buffer.to_string(), "Hello, world!");
    assert_eq!(ed.cursor, Cursor::new(0, 13));
}

#[test]
fn test_editor_cursor_left() {
    let mut ed = Editor::from_text("hello");
    ed.cursor = Cursor::new(0, 3);
    ed.collapse_selection();
    ed.cursor_left();
    assert_eq!(ed.cursor, Cursor::new(0, 2));
    assert!(ed.selection.is_empty());
}

#[test]
fn test_editor_cursor_right() {
    let mut ed = Editor::from_text("hello");
    ed.cursor = Cursor::new(0, 3);
    ed.collapse_selection();
    ed.cursor_right();
    assert_eq!(ed.cursor, Cursor::new(0, 4));
    assert!(ed.selection.is_empty());
}

#[test]
fn test_editor_cursor_up() {
    let mut ed = Editor::from_text("hello\nworld");
    ed.cursor = Cursor::new(1, 3);
    ed.collapse_selection();
    ed.cursor_up();
    assert_eq!(ed.cursor, Cursor::new(0, 3));
}

#[test]
fn test_editor_cursor_down() {
    let mut ed = Editor::from_text("hello\nworld");
    ed.cursor = Cursor::new(0, 3);
    ed.collapse_selection();
    ed.cursor_down();
    assert_eq!(ed.cursor, Cursor::new(1, 3));
}

#[test]
fn test_editor_move_to_line_start() {
    let mut ed = Editor::from_text("hello");
    ed.cursor = Cursor::new(0, 4);
    ed.collapse_selection();
    ed.move_to_line_start();
    assert_eq!(ed.cursor, Cursor::new(0, 0));
}

#[test]
fn test_editor_move_to_line_end() {
    let mut ed = Editor::from_text("hello\nworld");
    ed.cursor = Cursor::new(0, 0);
    ed.collapse_selection();
    ed.move_to_line_end();
    assert_eq!(ed.cursor, Cursor::new(0, 5));
}

#[test]
fn test_set_cursor_line() {
    let mut ed = Editor::from_text("line0\nline1\nline2\nline3");
    ed.set_cursor_line(2);
    assert_eq!(ed.cursor, Cursor::new(2, 0));
    assert!(ed.selection.is_empty());
}

#[test]
fn test_move_cursor_to() {
    let mut ed = Editor::from_text("hello\nworld\nfoo");
    ed.move_cursor_to(1, 3);
    assert_eq!(ed.cursor, Cursor::new(1, 3));
    assert!(ed.selection.is_empty());
}

#[test]
fn test_set_cursor_line_clamps() {
    let mut ed = Editor::from_text("line0\nline1");
    ed.set_cursor_line(100);
    assert_eq!(ed.cursor, Cursor::new(1, 0));
    assert!(ed.selection.is_empty());
}

#[test]
fn test_set_cursor_line_zero() {
    let mut ed = Editor::from_text("line0\nline1");
    ed.set_cursor_line(0);
    assert_eq!(ed.cursor, Cursor::new(0, 0));
    assert!(ed.selection.is_empty());
}

#[test]
fn test_set_cursor_line_initializes_selection() {
    let mut ed = Editor::from_text("aaa\nbbb\nccc");
    // Set a non-trivial selection first
    ed.selection = Selection::new(Cursor::new(0, 0), Cursor::new(1, 3));
    ed.set_cursor_line(2);
    // Selection should be collapsed to the new cursor position
    assert_eq!(ed.selection, Selection::collapsed(Cursor::new(2, 0)));
}

#[test]
fn test_cut_with_selection() {
    let mut ed = Editor::from_text("hello world");
    ed.selection = Selection::new(Cursor::new(0, 0), Cursor::new(0, 5));
    ed.cursor = Cursor::new(0, 5);
    let result = ed.cut().expect("cut should succeed");
    assert_eq!(result, Some("hello".to_string()));
    assert_eq!(ed.buffer.to_string(), " world");
    assert!(ed.selection.is_empty());
}

#[test]
fn test_cut_no_selection() {
    let mut ed = Editor::from_text("hello");
    let result = ed.cut().expect("cut should succeed");
    assert_eq!(result, None);
    assert_eq!(ed.buffer.to_string(), "hello");
}

#[test]
fn test_cut_multiline_selection() {
    let mut ed = Editor::from_text("hello\nworld");
    ed.selection = Selection::new(Cursor::new(0, 3), Cursor::new(1, 2));
    ed.cursor = Cursor::new(1, 2);
    let result = ed.cut().expect("cut should succeed");
    assert_eq!(result, Some("lo\nwo".to_string()));
    assert_eq!(ed.buffer.to_string(), "helrld");
}

#[test]
fn test_cut_all_text() {
    let mut ed = Editor::from_text("hello");
    ed.select_all();
    let result = ed.cut().expect("cut should succeed");
    assert_eq!(result, Some("hello".to_string()));
    assert_eq!(ed.buffer.to_string(), "");
    assert_eq!(ed.cursor, Cursor::new(0, 0));
}

#[test]
fn test_move_cursor_to_clamps_line() {
    let mut ed = Editor::from_text("hello\nworld");
    ed.move_cursor_to(100, 0);
    assert_eq!(ed.cursor, Cursor::new(1, 0));
}

#[test]
fn test_move_cursor_to_clamps_col() {
    let mut ed = Editor::from_text("hi\nworld");
    ed.move_cursor_to(0, 100);
    assert_eq!(ed.cursor, Cursor::new(0, 2));
}

#[test]
fn test_move_cursor_to_collapses_selection() {
    let mut ed = Editor::from_text("hello\nworld");
    ed.selection = Selection::new(Cursor::new(0, 0), Cursor::new(0, 5));
    ed.move_cursor_to(1, 2);
    assert!(ed.selection.is_empty());
    assert_eq!(ed.cursor, Cursor::new(1, 2));
}

#[test]
fn test_move_cursor_to_empty_buffer() {
    let mut ed = Editor::new();
    ed.move_cursor_to(5, 5);
    assert_eq!(ed.cursor, Cursor::new(0, 0));
}

#[test]
fn test_editor_cursor_movement_collapses_selection() {
    let mut ed = Editor::from_text("hello\nworld");
    ed.selection = Selection::new(Cursor::new(0, 0), Cursor::new(0, 5));
    ed.cursor = Cursor::new(0, 5);
    ed.cursor_right();
    assert!(ed.selection.is_empty());
}

#[test]
fn test_is_modified_after_delete() {
    let mut ed = Editor::from_text("hello");
    assert!(!ed.is_modified());

    ed.cursor = Cursor::new(0, 0);
    ed.collapse_selection();
    ed.delete_char().expect("delete should succeed");
    assert!(ed.is_modified());
}

#[test]
fn test_is_modified_after_paste() {
    let mut ed = Editor::new();
    assert!(!ed.is_modified());

    ed.paste("hello").expect("paste should succeed");
    assert!(ed.is_modified());
}

#[test]
fn test_select_left_from_middle() {
    let mut ed = Editor::from_text("hello");
    ed.cursor = Cursor::new(0, 3);
    ed.collapse_selection();
    ed.select_left();
    assert_eq!(ed.cursor, Cursor::new(0, 2));
    assert_eq!(ed.selection.anchor, Cursor::new(0, 3));
    assert_eq!(ed.selection.cursor, Cursor::new(0, 2));
    assert!(!ed.selection.is_empty());
}

#[test]
fn test_select_right_from_middle() {
    let mut ed = Editor::from_text("hello");
    ed.cursor = Cursor::new(0, 2);
    ed.collapse_selection();
    ed.select_right();
    assert_eq!(ed.cursor, Cursor::new(0, 3));
    assert_eq!(ed.selection.anchor, Cursor::new(0, 2));
    assert_eq!(ed.selection.cursor, Cursor::new(0, 3));
}

#[test]
fn test_select_left_wraps_to_previous_line() {
    let mut ed = Editor::from_text("hello\nworld");
    ed.cursor = Cursor::new(1, 0);
    ed.collapse_selection();
    ed.select_left();
    assert_eq!(ed.cursor, Cursor::new(0, 5));
    assert_eq!(ed.selection.anchor, Cursor::new(1, 0));
    assert_eq!(ed.selection.cursor, Cursor::new(0, 5));
}

#[test]
fn test_select_right_wraps_to_next_line() {
    let mut ed = Editor::from_text("hello\nworld");
    ed.cursor = Cursor::new(0, 5);
    ed.collapse_selection();
    ed.select_right();
    assert_eq!(ed.cursor, Cursor::new(1, 0));
    assert_eq!(ed.selection.anchor, Cursor::new(0, 5));
    assert_eq!(ed.selection.cursor, Cursor::new(1, 0));
}

#[test]
fn test_select_up_preserves_column() {
    let mut ed = Editor::from_text("hello\nworld");
    ed.cursor = Cursor::new(1, 3);
    ed.collapse_selection();
    ed.select_up();
    assert_eq!(ed.cursor, Cursor::new(0, 3));
    assert_eq!(ed.selection.anchor, Cursor::new(1, 3));
}

#[test]
fn test_select_down_preserves_column() {
    let mut ed = Editor::from_text("hello\nworld");
    ed.cursor = Cursor::new(0, 3);
    ed.collapse_selection();
    ed.select_down();
    assert_eq!(ed.cursor, Cursor::new(1, 3));
    assert_eq!(ed.selection.anchor, Cursor::new(0, 3));
}

#[test]
fn test_select_to_line_start() {
    let mut ed = Editor::from_text("hello");
    ed.cursor = Cursor::new(0, 3);
    ed.collapse_selection();
    ed.select_to_line_start();
    assert_eq!(ed.cursor, Cursor::new(0, 0));
    assert_eq!(ed.selection.anchor, Cursor::new(0, 3));
    assert_eq!(ed.selection.cursor, Cursor::new(0, 0));
}

#[test]
fn test_select_to_line_end() {
    let mut ed = Editor::from_text("hello\nworld");
    ed.cursor = Cursor::new(0, 2);
    ed.collapse_selection();
    ed.select_to_line_end();
    assert_eq!(ed.cursor, Cursor::new(0, 5));
    assert_eq!(ed.selection.anchor, Cursor::new(0, 2));
    assert_eq!(ed.selection.cursor, Cursor::new(0, 5));
}

#[test]
fn test_multiple_select_operations_accumulate() {
    let mut ed = Editor::from_text("hello");
    ed.cursor = Cursor::new(0, 2);
    ed.collapse_selection();
    ed.select_right();
    ed.select_right();
    ed.select_right();
    // Anchor stays at original position, cursor moves
    assert_eq!(ed.selection.anchor, Cursor::new(0, 2));
    assert_eq!(ed.selection.cursor, Cursor::new(0, 5));
    assert_eq!(ed.cursor, Cursor::new(0, 5));
    assert_eq!(
        ed.selection.selected_text(&ed.buffer),
        Some("llo".to_string())
    );
}

#[test]
fn test_select_then_regular_move_collapses() {
    let mut ed = Editor::from_text("hello");
    ed.cursor = Cursor::new(0, 2);
    ed.collapse_selection();
    ed.select_right();
    ed.select_right();
    assert!(!ed.selection.is_empty());
    // Regular move collapses selection
    ed.cursor_right();
    assert!(ed.selection.is_empty());
}

#[test]
fn test_newline_in_crlf_text() {
    let mut ed = Editor::from_text("ab\r\ncd");
    ed.cursor = Cursor::new(1, 1);
    ed.newline().expect("newline should succeed");
    assert_eq!(ed.buffer.to_string(), "ab\r\nc\nd");
    assert_eq!(ed.cursor, Cursor::new(2, 0));
    assert_eq!(ed.buffer.line_count(), 3);
}

#[test]
fn test_paste_into_crlf_text() {
    let mut ed = Editor::from_text("ab\r\ncd");
    ed.cursor = Cursor::new(1, 0);
    ed.paste("x\r\ny").expect("paste should succeed");
    assert_eq!(ed.buffer.to_string(), "ab\r\nx\r\nycd");
    assert_eq!(ed.cursor, Cursor::new(2, 1));
}
