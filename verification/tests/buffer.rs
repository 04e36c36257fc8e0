use rira::editor::buffer::Buffer;

#[test]
fn test_new_buffer_is_empty() {
    let buf = Buffer::new();
    assert_eq!(buf.char_count(), 0);
    assert_eq!(buf.to_string(), "");
}

#[test]
fn test_from_str() {
    let buf = Buffer::from_text("hello\nworld");
    assert_eq!(buf.char_count(), 11);
    assert_eq!(buf.line_count(), 2);
}

#[test]
fn test_insert() {
    let mut buf = Buffer::from_text("hllo");
    buf.insert(1, "e").expect("insert should succeed");
    assert_eq!(buf.to_string(), "hello");
}

#[test]
fn test_insert_out_of_bounds() {
    let mut buf = Buffer::from_text("hi");
    let result = buf.insert(100, "x");
    assert!(result.is_err());
}

#[test]
fn test_delete() {
    let mut buf = Buffer::from_text("hello world");
    let deleted = buf.delete(5..11).expect("delete should succeed");
    assert_eq!(deleted, " world");
    assert_eq!(buf.to_string(), "hello");
}

#[test]
fn test_delete_out_of_bounds() {
    let mut buf = Buffer::from_text("hi");
    let result = buf.delete(0..100);
    assert!(result.is_err());
}

#[test]
fn test_line() {
    let buf = Buffer::from_text("line1\nline2\nline3");
    assert_eq!(buf.line(0).expect("line 0 should exist"), "line1\n");
    assert_eq!(buf.line(2).expect("line 2 should exist"), "line3");
    assert!(buf.line(3).is_none());
}

#[test]
fn test_line_count() {
    let buf = Buffer::from_text("a\nb\nc");
    assert_eq!(buf.line_count(), 3);
}

#[test]
fn test_byte_len() {
    let buf = Buffer::from_text("hello");
    assert_eq!(buf.byte_len(), 5);
}

#[test]
fn test_unicode() {
    let buf = Buffer::from_text("한글");
    assert_eq!(buf.char_count(), 2);
    assert_eq!(buf.byte_len(), 6); // each Korean char is 3 bytes
}

#[test]
fn buffer_test_default() {
    let buf = Buffer::default();
    assert_eq!(buf.char_count(), 0);
}

#[test]
fn test_slice() {
    let buf = Buffer::from_text("hello world");
    assert_eq!(buf.slice(0..5).expect("slice should succeed"), "hello");
}
