use rira::editor::buffer::Buffer;
use rira::editor::history::{EditOperation, History};

#[test]
fn test_undo_insert() {
    let mut buf = Buffer::from_text("hello");
    let mut history = History::new();

    buf.insert(5, " world").expect("insert should succeed");
    history.push(EditOperation::Insert {
        pos: 5,
        text: " world".to_string(),
    });

    assert_eq!(buf.to_string(), "hello world");
    history.undo(&mut buf).expect("undo should succeed");
    assert_eq!(buf.to_string(), "hello");
}

#[test]
fn test_undo_delete() {
    let mut buf = Buffer::from_text("hello world");
    let mut history = History::new();

    buf.delete(5..11).expect("delete should succeed");
    history.push(EditOperation::Delete {
        pos: 5,
        text: " world".to_string(),
    });

    assert_eq!(buf.to_string(), "hello");
    history.undo(&mut buf).expect("undo should succeed");
    assert_eq!(buf.to_string(), "hello world");
}

#[test]
fn test_redo() {
    let mut buf = Buffer::from_text("hello");
    let mut history = History::new();

    buf.insert(5, " world").expect("insert should succeed");
    history.push(EditOperation::Insert {
        pos: 5,
        text: " world".to_string(),
    });

    history.undo(&mut buf).expect("undo should succeed");
    assert_eq!(buf.to_string(), "hello");

    history.redo(&mut buf).expect("redo should succeed");
    assert_eq!(buf.to_string(), "hello world");
}

#[test]
fn test_undo_clears_on_new_edit() {
    let mut buf = Buffer::from_text("hello");
    let mut history = History::new();

    buf.insert(5, " world").expect("insert should succeed");
    history.push(EditOperation::Insert {
        pos: 5,
        text: " world".to_string(),
    });

    history.undo(&mut buf).expect("undo should succeed");

    // New edit should clear redo
    buf.insert(5, "!").expect("insert should succeed");
    history.push(EditOperation::Insert {
        pos: 5,
        text: "!".to_string(),
    });

    assert!(!history.can_redo());
}

#[test]
fn test_grouping_consecutive_inserts() {
    let mut buf = Buffer::from_text("");
    let mut history = History::new();

    // Simulate typing "abc"
    for (i, ch) in "abc".chars().enumerate() {
        buf.insert(i, &ch.to_string())
            .expect("insert should succeed");
        history.push(EditOperation::Insert {
            pos: i,
            text: ch.to_string(),
        });
    }

    assert_eq!(buf.to_string(), "abc");
    // All three should be in one group
    history.undo(&mut buf).expect("undo should succeed");
    assert_eq!(buf.to_string(), "");
}

#[test]
fn test_break_group() {
    let mut buf = Buffer::from_text("");
    let mut history = History::new();

    buf.insert(0, "a").expect("insert should succeed");
    history.push(EditOperation::Insert {
        pos: 0,
        text: "a".to_string(),
    });

    history.break_group();
    history.enable_grouping();

    buf.insert(1, "b").expect("insert should succeed");
    history.push(EditOperation::Insert {
        pos: 1,
        text: "b".to_string(),
    });

    assert_eq!(buf.to_string(), "ab");
    // Undo should only remove "b"
    history.undo(&mut buf).expect("undo should succeed");
    assert_eq!(buf.to_string(), "a");
}

#[test]
fn test_undo_empty() {
    let mut buf = Buffer::new();
    let mut history = History::new();
    let result = history.undo(&mut buf).expect("undo should succeed");
    assert!(!result);
}

#[test]
fn test_redo_empty() {
    let mut buf = Buffer::new();
    let mut history = History::new();
    let result = history.redo(&mut buf).expect("redo should succeed");
    assert!(!result);
}

#[test]
fn test_can_undo_redo() {
    let history = History::new();
    assert!(!history.can_undo());
    assert!(!history.can_redo());
}

#[test]
fn test_clear() {
    let mut history = History::new();
    history.push(EditOperation::Insert {
        pos: 0,
        text: "x".to_string(),
    });
    history.clear();
    assert!(!history.can_undo());
}

#[test]
fn test_undo_wide_char_insert_counts_chars() {
    let mut buf = Buffer::from_text("한글");
    let mut history = History::new();
    history.push(EditOperation::Insert {
        pos: 0,
        text: "한".to_string(),
    });
    assert_eq!(history.undo(&mut buf), Ok(true));
    assert_eq!(buf.to_string(), "글");
    assert_eq!(history.redo(&mut buf), Ok(true));
    assert_eq!(buf.to_string(), "한글");
}

#[test]
fn test_wide_char_typing_groups() {
    let mut buf = Buffer::from_text("");
    let mut history = History::new();
    buf.insert(0, "한").unwrap();
    history.push(EditOperation::Insert { pos: 0, text: "한".to_string() });
    buf.insert(1, "글").unwrap();
    history.push(EditOperation::Insert { pos: 1, text: "글".to_string() });
    assert_eq!(history.undo(&mut buf), Ok(true));
    assert_eq!(buf.to_string(), "");
    assert!(!history.can_undo());
}
