use rira::keymap::action::Action;
use rira::keymap::keymap::Keymap;
use rira::keymap::types::{Key, KeyBinding, Modifiers, Platform};

#[test]
fn test_default_bindings_not_empty() {
    let km = Keymap::default_bindings(Platform::Other);
    assert!(!km.is_empty());
}

#[test]
fn test_default_bindings_lookup() {
    let km = Keymap::default_bindings(Platform::Other);

    // cmd+s should map to FileSave
    // On macOS cmd = Cmd, on Linux cmd = Ctrl, but the binding was parsed via cmd
    let binding = KeyBinding::parse("cmd+s", Platform::Other).expect("should parse cmd+s");
    assert_eq!(km.lookup(&binding), Some(Action::FileSave));
}

#[test]
fn test_default_bindings_cmd_shift() {
    let km = Keymap::default_bindings(Platform::Other);
    let binding = KeyBinding::parse("cmd+shift+p", Platform::Other).expect("should parse");
    assert_eq!(km.lookup(&binding), Some(Action::OpenCommandPalette));
}

#[test]
fn test_merge_no_conflicts() {
    let mut base = Keymap::empty();
    base.insert(
        KeyBinding::new(Modifiers::CTRL(), Key::Char('s')),
        Action::FileSave,
    );

    let mut overrides = Keymap::empty();
    overrides.insert(
        KeyBinding::new(Modifiers::CTRL(), Key::Char('z')),
        Action::Undo,
    );

    let conflicts = base.merge(&overrides);
    assert!(conflicts.is_empty());
    assert_eq!(base.len(), 2);
}

#[test]
fn test_merge_with_conflicts() {
    let mut base = Keymap::empty();
    base.insert(
        KeyBinding::new(Modifiers::CTRL(), Key::Char('s')),
        Action::FileSave,
    );

    let mut overrides = Keymap::empty();
    overrides.insert(
        KeyBinding::new(Modifiers::CTRL(), Key::Char('s')),
        Action::FileOpen,
    );

    let conflicts = base.merge(&overrides);
    assert_eq!(conflicts.len(), 1);
    assert_eq!(conflicts[0].old_action, Action::FileSave);
    assert_eq!(conflicts[0].new_action, Action::FileOpen);

    // Override should win
    let binding = KeyBinding::new(Modifiers::CTRL(), Key::Char('s'));
    assert_eq!(base.lookup(&binding), Some(Action::FileOpen));
}

#[test]
fn test_merge_same_action_no_conflict() {
    let mut base = Keymap::empty();
    base.insert(
        KeyBinding::new(Modifiers::CTRL(), Key::Char('s')),
        Action::FileSave,
    );

    let mut overrides = Keymap::empty();
    overrides.insert(
        KeyBinding::new(Modifiers::CTRL(), Key::Char('s')),
        Action::FileSave,
    );

    let conflicts = base.merge(&overrides);
    assert!(conflicts.is_empty());
}

#[test]
fn test_lookup_missing() {
    let km = Keymap::empty();
    let binding = KeyBinding::new(Modifiers::CTRL(), Key::Char('q'));
    assert_eq!(km.lookup(&binding), None);
}

#[test]
fn test_iter() {
    let mut km = Keymap::empty();
    km.insert(
        KeyBinding::new(Modifiers::CTRL(), Key::Char('s')),
        Action::FileSave,
    );
    km.insert(
        KeyBinding::new(Modifiers::CTRL(), Key::Char('z')),
        Action::Undo,
    );
    assert_eq!(km.iter().count(), 2);
}
