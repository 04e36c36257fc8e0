use rira::keymap::action::Action;

#[test]
fn test_action_from_str() {
    assert_eq!("file.save".parse::<Action>(), Ok(Action::FileSave));
    assert_eq!("file.open".parse::<Action>(), Ok(Action::FileOpen));
    assert_eq!("edit.undo".parse::<Action>(), Ok(Action::Undo));
    assert_eq!("edit.redo".parse::<Action>(), Ok(Action::Redo));
    assert_eq!("edit.copy".parse::<Action>(), Ok(Action::Copy));
    assert_eq!("edit.paste".parse::<Action>(), Ok(Action::Paste));
    assert_eq!("edit.cut".parse::<Action>(), Ok(Action::Cut));
    assert_eq!("edit.select_all".parse::<Action>(), Ok(Action::SelectAll));
    assert_eq!(
        "edit.add_cursor_to_next_match".parse::<Action>(),
        Ok(Action::AddCursorToNextMatch)
    );
    assert_eq!(
        "view.toggle_sidebar".parse::<Action>(),
        Ok(Action::ToggleSidebar)
    );
    assert_eq!(
        "view.toggle_terminal".parse::<Action>(),
        Ok(Action::ToggleTerminal)
    );
    assert_eq!(
        "view.open_command_palette".parse::<Action>(),
        Ok(Action::OpenCommandPalette)
    );
    assert_eq!(
        "view.open_file_finder".parse::<Action>(),
        Ok(Action::OpenFileFinder)
    );
}

#[test]
fn test_action_from_str_invalid() {
    let err = "bogus.action".parse::<Action>().expect_err("should fail");
    assert_eq!(err.input, "bogus.action");
}

#[test]
fn test_action_display() {
    assert_eq!(Action::FileSave.to_string(), "file.save");
    assert_eq!(
        Action::OpenCommandPalette.to_string(),
        "view.open_command_palette"
    );
}

#[test]
fn test_all_actions_roundtrip() {
    for action in Action::all() {
        let s = action.as_str();
        let parsed: Action = s.parse().expect("all actions should roundtrip");
        assert_eq!(*action, parsed);
    }
}
