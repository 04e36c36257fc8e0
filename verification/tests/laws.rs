use rira::cli::split_file_arg;
use rira::editor::buffer::{Buffer, BufferError};
use rira::editor::cursor::Cursor;
use rira::editor::hit_test::{cell_col_to_char_index, half_cell_to_index, hit_test, HitTestResult};
use rira::editor::Editor;
use rira::keymap::action::{Action, ParseActionError};
use rira::keymap::keymap::{Conflict, Keymap};
use rira::keymap::types::{Key, KeyBinding, Modifiers, Platform};
use rira::text::{is_blank, parse_unsigned, trim};
use rira::theme::color::{Color, ColorParseError};

#[test]
fn action_names_round_trip_every_action() {
    for action in Action::all() {
        assert_eq!(Action::from_name(action.as_str()), Ok(*action));
        assert_eq!(action.to_string(), action.as_str());
    }
    assert_eq!(Action::all().len(), 30);
}

#[test]
fn action_error_message() {
    let err = Action::from_name("edit.nothing").expect_err("unknown");
    assert_eq!(err, ParseActionError { input: "edit.nothing".to_string() });
    assert_eq!(err.to_string(), "unknown action: 'edit.nothing'");
}

#[test]
fn color_text_round_trip() {
    for c in [
        Color::rgb(0, 0, 0),
        Color::rgb(255, 255, 255),
        Color::rgba(0x12, 0xAB, 0xEF, 0x00),
        Color::rgba(1, 2, 3, 254),
    ] {
        assert_eq!(Color::from_hex(&c.to_string()), Ok(c));
    }
    assert_eq!(Color::rgba(0x12, 0xAB, 0xEF, 0x00).to_string(), "#12ABEF00");
}

#[test]
fn color_parse_edges() {
    assert_eq!(Color::from_hex("  #abc \n"), Ok(Color::rgb(0xAA, 0xBB, 0xCC)));
    assert_eq!(Color::from_hex("##abc"), Err(ColorParseError::InvalidChar));
    assert_eq!(Color::from_hex("   "), Err(ColorParseError::Empty));
    assert_eq!(Color::from_hex("#12345"), Err(ColorParseError::InvalidLength(5)));
    assert_eq!(Color::from_hex("#ééé"), Err(ColorParseError::InvalidChar));
    assert_eq!(ColorParseError::InvalidLength(9).to_string(), "invalid hex color length: 9 (expected 3, 4, 6, or 8)");
    assert_eq!(ColorParseError::Empty.to_string(), "empty color string");
    assert_eq!(ColorParseError::InvalidChar.to_string(), "invalid hex character");
    assert_eq!(ColorParseError::InvalidHex.to_string(), "invalid hex value");
}

#[test]
fn keymap_insert_then_lookup() {
    let mut km = Keymap::empty();
    let b = KeyBinding::new(Modifiers::CTRL(), Key::Char('q'));
    assert_eq!(km.insert(b, Action::FileClose), None);
    assert_eq!(km.lookup(&b), Some(Action::FileClose));
    assert_eq!(km.insert(b, Action::FileNew), Some(Action::FileClose));
    assert_eq!(km.lookup(&b), Some(Action::FileNew));
    assert_eq!(km.len(), 1);
    assert_eq!(km.entries(), vec![(b, Action::FileNew)]);
}

#[test]
fn keymap_merge_reports_each_conflict_once() {
    let s = KeyBinding::new(Modifiers::CTRL(), Key::Char('s'));
    let z = KeyBinding::new(Modifiers::CTRL(), Key::Char('z'));
    let y = KeyBinding::new(Modifiers::CTRL(), Key::Char('y'));
    let mut base = Keymap::empty();
    base.insert(s, Action::FileSave);
    base.insert(z, Action::Undo);
    let mut over = Keymap::empty();
    over.insert(s, Action::FileOpen);
    over.insert(z, Action::Undo);
    over.insert(y, Action::Redo);
    let conflicts = base.merge(&over);
    assert_eq!(
        conflicts,
        vec![Conflict { binding: s, old_action: Action::FileSave, new_action: Action::FileOpen }]
    );
    assert_eq!(base.lookup(&s), Some(Action::FileOpen));
    assert_eq!(base.lookup(&z), Some(Action::Undo));
    assert_eq!(base.lookup(&y), Some(Action::Redo));
    assert_eq!(base.len(), 3);
}

#[test]
fn keymap_from_entries_warnings() {
    let entries = vec![
        ("ctrl+s".to_string(), "file.save".to_string()),
        ("invalid_key_here".to_string(), "file.save".to_string()),
        ("ctrl+z".to_string(), "bogus.action".to_string()),
        ("Ctrl+S".to_string(), "file.open".to_string()),
        ("ctrl+s".to_string(), "file.open".to_string()),
    ];
    let (km, warnings) = Keymap::from_entries(&entries, Platform::Other);
    assert_eq!(km.len(), 1);
    assert_eq!(
        km.lookup(&KeyBinding::new(Modifiers::CTRL(), Key::Char('s'))),
        Some(Action::FileOpen)
    );
    assert_eq!(
        warnings,
        vec![
            "invalid key binding: 'invalid_key_here'".to_string(),
            "unknown action: 'bogus.action'".to_string(),
            "duplicate binding 'Ctrl+S': 'file.save' replaced by 'file.open'".to_string(),
        ]
    );
}

#[test]
fn default_bindings_by_platform() {
    let other = Keymap::default_bindings(Platform::Other);
    let mac = Keymap::default_bindings(Platform::MacOs);
    assert_eq!(other.len(), 21);
    assert_eq!(mac.len(), 21);
    let ctrl_f = KeyBinding::new(Modifiers::CTRL(), Key::Char('f'));
    assert_eq!(other.lookup(&ctrl_f), Some(Action::Find));
    let ctrl_s = KeyBinding::new(Modifiers::CTRL(), Key::Char('s'));
    let cmd_s = KeyBinding::new(Modifiers::CMD(), Key::Char('s'));
    assert_eq!(other.lookup(&ctrl_s), Some(Action::FileSave));
    assert_eq!(mac.lookup(&cmd_s), Some(Action::FileSave));
    assert_eq!(mac.lookup(&ctrl_s), None);
    let ctrl_g = KeyBinding::new(Modifiers::CTRL(), Key::Char('g'));
    assert_eq!(mac.lookup(&ctrl_g), Some(Action::GoToLine));
    assert_eq!(other.iter().count(), 21);
}

#[test]
fn key_and_binding_parse_edges() {
    assert_eq!(Key::parse("f"), Some(Key::Char('f')));
    assert_eq!(Key::parse("fx"), None);
    assert_eq!(Key::parse("F+5"), Some(Key::F(5)));
    assert_eq!(Key::parse("f007"), Some(Key::F(7)));
    assert_eq!(Key::parse("f300"), None);
    assert_eq!(Key::parse("PageDown"), Some(Key::PageDown));
    assert_eq!(Key::parse("é"), Some(Key::Char('é')));
    let kb = KeyBinding::parse("  Shift + Alt +  x ", Platform::Other).expect("parses");
    assert_eq!(kb.modifiers, Modifiers::SHIFT().union(Modifiers::ALT()));
    assert_eq!(kb.key, Key::Char('x'));
    assert_eq!(KeyBinding::parse("ctrl++", Platform::Other), None);
    assert_eq!(KeyBinding::parse("+", Platform::Other), None);
    assert_eq!(
        KeyBinding::new(Modifiers::CMD().union(Modifiers::ALT()), Key::F(12)).to_string(),
        "cmd+alt+f12"
    );
    assert_eq!(Modifiers::NONE().to_string(), "");
    assert_eq!(Modifiers::SHIFT().union(Modifiers::CTRL()).to_string(), "ctrl+shift");
}

#[test]
fn text_helpers() {
    assert_eq!(trim("\u{3000} a b \t"), "a b");
    assert!(is_blank(" \n\t"));
    assert!(!is_blank(" x "));
    assert_eq!(parse_unsigned("+42", 100), Some(42));
    assert_eq!(parse_unsigned("101", 100), None);
    assert_eq!(parse_unsigned("-1", 100), None);
    assert_eq!(parse_unsigned("", 100), None);
    assert_eq!(parse_unsigned("+", 100), None);
    assert_eq!(parse_unsigned("18446744073709551616", usize::MAX), None);
}

#[test]
fn file_arg_splits_at_last_colon() {
    assert_eq!(split_file_arg("C:\\dir\\a.rs:12"), ("C:\\dir\\a.rs".to_string(), Some(12)));
    assert_eq!(split_file_arg(":12"), (":12".to_string(), None));
    assert_eq!(split_file_arg("a.rs:+3"), ("a.rs".to_string(), Some(3)));
    assert_eq!(split_file_arg("a.rs:-3"), ("a.rs:-3".to_string(), None));
}

#[test]
fn hit_test_in_half_cells() {
    assert_eq!(cell_col_to_char_index("hello", 0), 0);
    assert_eq!(cell_col_to_char_index("hello", 1), 1);
    assert_eq!(cell_col_to_char_index("hello", 5), 3);
    assert_eq!(cell_col_to_char_index("hello", 20), 5);
    assert_eq!(cell_col_to_char_index("한글", 1), 0);
    assert_eq!(cell_col_to_char_index("한글", 2), 1);
    assert_eq!(cell_col_to_char_index("한글", 4), 1);
    assert_eq!(cell_col_to_char_index("한글", 6), 2);
    assert_eq!(cell_col_to_char_index("a한b", 3), 1);
    assert_eq!(cell_col_to_char_index("a한b", 4), 2);
    assert_eq!(cell_col_to_char_index("", 9), 0);
    assert_eq!(half_cell_to_index(&[1, 2, 1], 7), 3);
    let buf = Buffer::from_text("hello\nworld");
    assert_eq!(hit_test(&buf, 1, 0, 4), HitTestResult { line: 1, col: 2 });
    assert_eq!(hit_test(&buf, 0, 10, 0), HitTestResult { line: 1, col: 0 });
    assert_eq!(hit_test(&buf, 0, 0, 100), HitTestResult { line: 0, col: 5 });
}

#[test]
fn buffer_errors() {
    let mut buf = Buffer::from_text("hi");
    assert_eq!(buf.insert(3, "x"), Err(BufferError::OutOfBounds { pos: 3, len: 2 }));
    assert_eq!(buf.delete(1..5), Err(BufferError::OutOfBounds { pos: 5, len: 2 }));
    #[allow(clippy::reversed_empty_ranges)]
    let bad = 2..1;
    assert_eq!(buf.delete(bad), Err(BufferError::InvalidRange { start: 2, end: 1 }));
    assert_eq!(BufferError::OutOfBounds { pos: 5, len: 2 }.to_string(), "position 5 out of bounds (buffer length: 2)");
    assert_eq!(BufferError::InvalidRange { start: 2, end: 1 }.to_string(), "invalid range 2..1");
    assert_eq!(buf.to_string(), "hi");
}

#[test]
fn undo_restores_text_after_edits() {
    let mut ed = Editor::from_text("abc\ndef");
    ed.move_cursor_to(1, 1);
    ed.insert_char('X').expect("insert");
    ed.newline().expect("newline");
    ed.paste("yz").expect("paste");
    assert_eq!(ed.buffer.to_string(), "abc\ndX\nyzef");
    while ed.undo().expect("undo") {}
    assert_eq!(ed.buffer.to_string(), "abc\ndef");
    while ed.redo().expect("redo") {}
    assert_eq!(ed.buffer.to_string(), "abc\ndX\nyzef");
}

#[test]
fn newline_after_lone_cr_joins_the_break() {
    // A CR followed by the new LF forms one CRLF break, so the line count stays.
    let mut ed = Editor::from_text("a\r");
    ed.move_cursor_to(1, 0);
    ed.newline().expect("newline");
    assert_eq!(ed.buffer.to_string(), "a\r\n");
    assert_eq!(ed.buffer.line_count(), 2);
    assert_eq!(ed.cursor, Cursor::new(2, 0));
}

#[test]
fn cursor_moves_over_crlf() {
    let buf = Buffer::from_text("ab\r\ncd");
    let mut c = Cursor::new(0, 0);
    c.move_to_line_end(&buf);
    assert_eq!(c, Cursor::new(0, 2));
    c.move_right(&buf);
    assert_eq!(c, Cursor::new(1, 0));
    assert_eq!(buf.line_content_len(0), 2);
}

#[test]
fn paste_cr_before_lf_lands_inside_the_break() {
    // The pasted CR joins the LF after it into one CRLF break; the cursor,
    // placed by offset, then sits between the two.
    let mut ed = Editor::from_text("a\n");
    ed.move_cursor_to(0, 1);
    ed.paste("\r").expect("paste");
    assert_eq!(ed.buffer.to_string(), "a\r\n");
    assert_eq!(ed.cursor, Cursor::new(0, 2));
    assert_eq!(ed.buffer.line_content_len(0), 1);
}

#[test]
fn insert_char_keeps_cursor_on_text() {
    let mut ed = Editor::from_text("a\rb");
    ed.move_cursor_to(1, 0);
    ed.insert_char('\n').expect("insert");
    assert_eq!(ed.buffer.to_string(), "a\r\nb");
    assert_eq!(ed.buffer.line_count(), 2);
    assert!(ed.cursor.line < ed.buffer.line_count());
    assert!(ed.cursor.col <= ed.buffer.line_content_len(ed.cursor.line));
}

#[test]
fn delete_of_inserted_text_restores_buffer() {
    let mut buf = Buffer::from_text("héllo\nwörld");
    buf.insert(3, "日本\n").expect("insert");
    assert_eq!(buf.to_string(), "hél日本\nlo\nwörld");
    let deleted = buf.delete(3..6).expect("delete");
    assert_eq!(deleted, "日本\n");
    assert_eq!(buf.to_string(), "héllo\nwörld");
}

#[test]
fn typing_then_undo_then_redo() {
    let mut ed = Editor::new();
    for ch in "HelloWorld".chars() {
        ed.insert_char(ch).expect("insert");
    }
    assert_eq!(ed.buffer.to_string(), "HelloWorld");
    assert_eq!(ed.cursor, Cursor::new(0, 10));
    assert_eq!(ed.undo(), Ok(true));
    assert_eq!(ed.buffer.to_string(), "");
    assert_eq!(ed.undo(), Ok(false));
    assert_eq!(ed.redo(), Ok(true));
    assert_eq!(ed.buffer.to_string(), "HelloWorld");
}

#[test]
fn redo_available_while_undos_outnumber_redos() {
    let mut ed = Editor::new();
    ed.insert_char('a').expect("insert");
    ed.newline().expect("newline");
    ed.insert_char('b').expect("insert");
    assert!(!ed.history.can_redo());
    assert_eq!(ed.undo(), Ok(true));
    assert_eq!(ed.undo(), Ok(true));
    assert!(ed.history.can_redo());
    assert_eq!(ed.redo(), Ok(true));
    assert!(ed.history.can_redo());
    assert_eq!(ed.redo(), Ok(true));
    assert!(!ed.history.can_redo());
    assert_eq!(ed.undo(), Ok(true));
    ed.insert_char('c').expect("insert");
    assert!(!ed.history.can_redo());
}

#[test]
fn ascii_key_names_parse_in_any_case() {
    assert_eq!(Key::parse("ESCAPE"), Some(Key::Escape));
    assert_eq!(Key::parse("F"), Some(Key::Char('f')));
    assert_eq!(Modifiers::parse("CTRL", Platform::Other), Some(Modifiers::CTRL()));
    assert_eq!(
        KeyBinding::parse("Cmd+S", Platform::Other),
        Some(KeyBinding::new(Modifiers::CTRL(), Key::Char('s')))
    );
}

#[test]
fn typing_with_other_breaks_then_undo_then_redo() {
    let mut ed = Editor::new();
    for ch in "a\rb\u{0B}c".chars() {
        ed.insert_char(ch).expect("insert");
    }
    assert_eq!(ed.buffer.to_string(), "a\rb\u{0B}c");
    assert_eq!(ed.cursor, Cursor::new(2, 1));
    assert_eq!(ed.undo(), Ok(true));
    assert_eq!(ed.buffer.to_string(), "");
    assert_eq!(ed.redo(), Ok(true));
    assert_eq!(ed.buffer.to_string(), "a\rb\u{0B}c");
}

#[test]
fn hit_test_lines_clamp_and_keep_order() {
    let buf = Buffer::from_text("ab\ncd");
    assert_eq!(hit_test(&buf, 0, 0, 0).line, 0);
    assert_eq!(hit_test(&buf, 1, 0, 0).line, 1);
    assert_eq!(hit_test(&buf, 5, 0, 0).line, 1);
    assert_eq!(hit_test(&buf, 1, 3, 0).line, 1);
    assert!(hit_test(&buf, 0, 0, 1).col <= hit_test(&buf, 0, 0, 3).col);
}

#[test]
fn default_command_palette_by_platform() {
    let other = Keymap::default_bindings(Platform::Other);
    let mac = Keymap::default_bindings(Platform::MacOs);
    let ctrl_shift_p = KeyBinding::new(Modifiers::CTRL().union(Modifiers::SHIFT()), Key::Char('p'));
    let cmd_shift_p = KeyBinding::new(Modifiers::CMD().union(Modifiers::SHIFT()), Key::Char('p'));
    assert_eq!(other.lookup(&ctrl_shift_p), Some(Action::OpenCommandPalette));
    assert_eq!(mac.lookup(&cmd_shift_p), Some(Action::OpenCommandPalette));
    let cmd_f = KeyBinding::new(Modifiers::CMD(), Key::Char('f'));
    assert_eq!(mac.lookup(&cmd_f), Some(Action::Find));
}

#[test]
fn action_names_are_category_dot_word() {
    for a in Action::all() {
        let name = a.as_str();
        let (cat, word) = name.split_once('.').expect("a dot");
        assert!(["file", "edit", "view", "navigate"].contains(&cat));
        assert!(!word.is_empty());
        assert!(word.chars().all(|c| c.is_ascii_lowercase() || c == '_'));
    }
    assert_eq!(Action::FileSave.as_str(), "file.save");
    assert_eq!(Action::OpenCommandPalette.as_str(), "view.open_command_palette");
}

#[test]
fn keymap_iter_yields_each_binding_once() {
    let mut km = Keymap::empty();
    let a = KeyBinding::new(Modifiers::CTRL(), Key::Char('a'));
    let b = KeyBinding::new(Modifiers::CTRL(), Key::Char('b'));
    km.insert(a, Action::SelectAll);
    km.insert(b, Action::ToggleSidebar);
    km.insert(a, Action::Copy);
    assert_eq!(km.iter().count(), km.len());
    assert_eq!(km.len(), 2);
    for (binding, action) in km.iter() {
        assert_eq!(km.lookup(binding), Some(*action));
    }
    assert_eq!(km.entries().len(), 2);
}

#[test]
fn cursor_stays_valid_under_moves() {
    let buf = Buffer::from_text("ab\r\ncd\n\nxyz");
    let mut c = Cursor::new(0, 0);
    let valid = |c: &Cursor| c.line < buf.line_count() && c.col <= buf.line_content_len(c.line);
    for step in 0..40 {
        match step % 6 {
            0 | 1 => c.move_right(&buf),
            2 => c.move_down(&buf),
            3 => c.move_left(&buf),
            4 => c.move_to_line_end(&buf),
            _ => c.move_up(&buf),
        }
        assert!(valid(&c));
        assert!(c.to_char_offset(&buf) <= buf.char_count());
    }
}
