use rira::keymap::types::{Key, KeyBinding, Modifiers, Platform};

#[test]
fn test_key_parse_char() {
    assert_eq!(Key::parse("s"), Some(Key::Char('s')));
    assert_eq!(Key::parse("S"), Some(Key::Char('s')));
    assert_eq!(Key::parse("a"), Some(Key::Char('a')));
}

#[test]
fn test_key_parse_special() {
    assert_eq!(Key::parse("enter"), Some(Key::Enter));
    assert_eq!(Key::parse("Enter"), Some(Key::Enter));
    assert_eq!(Key::parse("return"), Some(Key::Enter));
    assert_eq!(Key::parse("escape"), Some(Key::Escape));
    assert_eq!(Key::parse("esc"), Some(Key::Escape));
    assert_eq!(Key::parse("tab"), Some(Key::Tab));
    assert_eq!(Key::parse("backspace"), Some(Key::Backspace));
    assert_eq!(Key::parse("delete"), Some(Key::Delete));
    assert_eq!(Key::parse("del"), Some(Key::Delete));
}

#[test]
fn test_key_parse_arrows() {
    assert_eq!(Key::parse("up"), Some(Key::Up));
    assert_eq!(Key::parse("down"), Some(Key::Down));
    assert_eq!(Key::parse("left"), Some(Key::Left));
    assert_eq!(Key::parse("right"), Some(Key::Right));
}

#[test]
fn test_key_parse_function() {
    assert_eq!(Key::parse("f1"), Some(Key::F(1)));
    assert_eq!(Key::parse("F12"), Some(Key::F(12)));
    assert_eq!(Key::parse("f24"), Some(Key::F(24)));
    assert_eq!(Key::parse("f0"), None);
    assert_eq!(Key::parse("f25"), None);
}

#[test]
fn test_key_parse_invalid() {
    assert_eq!(Key::parse(""), None);
    assert_eq!(Key::parse("abc"), None);
}

#[test]
fn test_modifiers_basic() {
    assert!(Modifiers::NONE().is_empty());
    assert!(!Modifiers::CMD().is_empty());
    assert!(Modifiers::CMD().contains(Modifiers::CMD()));
    assert!(!Modifiers::CMD().contains(Modifiers::CTRL()));
}

#[test]
fn test_modifiers_union() {
    let mods = Modifiers::CMD().union(Modifiers::SHIFT());
    assert!(mods.contains(Modifiers::CMD()));
    assert!(mods.contains(Modifiers::SHIFT()));
    assert!(!mods.contains(Modifiers::ALT()));
}

#[test]
fn test_modifiers_parse() {
    assert_eq!(Modifiers::parse("ctrl", Platform::Other), Some(Modifiers::CTRL()));
    assert_eq!(Modifiers::parse("Ctrl", Platform::Other), Some(Modifiers::CTRL()));
    assert_eq!(Modifiers::parse("shift", Platform::Other), Some(Modifiers::SHIFT()));
    assert_eq!(Modifiers::parse("alt", Platform::Other), Some(Modifiers::ALT()));
    assert_eq!(Modifiers::parse("option", Platform::Other), Some(Modifiers::ALT()));
    assert_eq!(Modifiers::parse("bogus", Platform::Other), None);
}

#[test]
fn test_cmd_maps_to_cmd_on_macos() {
    assert_eq!(Modifiers::parse("cmd", Platform::MacOs), Some(Modifiers::CMD()));
}

#[test]
fn test_cmd_maps_to_ctrl_on_other() {
    assert_eq!(Modifiers::parse("cmd", Platform::Other), Some(Modifiers::CTRL()));
}

#[test]
fn test_keybinding_parse_simple() {
    let kb = KeyBinding::parse("escape", Platform::Other).expect("should parse");
    assert_eq!(kb.modifiers, Modifiers::NONE());
    assert_eq!(kb.key, Key::Escape);
}

#[test]
fn test_keybinding_parse_with_modifier() {
    let kb = KeyBinding::parse("ctrl+s", Platform::Other).expect("should parse");
    assert!(kb.modifiers.contains(Modifiers::CTRL()));
    assert_eq!(kb.key, Key::Char('s'));
}

#[test]
fn test_keybinding_parse_multiple_modifiers() {
    let kb = KeyBinding::parse("ctrl+shift+p", Platform::Other).expect("should parse");
    assert!(kb.modifiers.contains(Modifiers::CTRL()));
    assert!(kb.modifiers.contains(Modifiers::SHIFT()));
    assert_eq!(kb.key, Key::Char('p'));
}

#[test]
fn test_keybinding_parse_invalid() {
    assert!(KeyBinding::parse("", Platform::Other).is_none());
    assert!(KeyBinding::parse("bogus+bogus", Platform::Other).is_none());
}

#[test]
fn test_keybinding_display() {
    let kb = KeyBinding::new(Modifiers::CTRL().union(Modifiers::SHIFT()), Key::Char('p'));
    let s = kb.to_string();
    assert!(s.contains("ctrl"));
    assert!(s.contains("shift"));
    assert!(s.contains('p'));
}

#[test]
fn test_keybinding_display_no_modifiers() {
    let kb = KeyBinding::new(Modifiers::NONE(), Key::Escape);
    assert_eq!(kb.to_string(), "escape");
}

#[test]
fn test_key_display() {
    assert_eq!(Key::F(5).to_string(), "f5");
    assert_eq!(Key::Char('a').to_string(), "a");
    assert_eq!(Key::Enter.to_string(), "enter");
}
