use rira::theme::color::Color;
use rira::theme::theme::{EditorColors, SyntaxColors, Theme, UiColors};

#[test]
fn test_default_theme() {
    let theme = Theme::default();
    assert_eq!(theme.name, "Rira Dark");
    assert_eq!(theme.editor.background, Color::rgb(0x28, 0x2A, 0x36));
    assert_eq!(theme.editor.foreground, Color::rgb(0xF8, 0xF8, 0xF2));
    assert_eq!(theme.syntax.keyword, Color::rgb(0xFF, 0x79, 0xC6));
}

#[test]
fn test_syntax_colors_default() {
    let sc = SyntaxColors::default();
    // All colors should be non-default (not white)
    assert_ne!(sc.keyword, Color::white());
    assert_ne!(sc.comment, Color::white());
}

#[test]
fn test_ui_colors_default() {
    let uc = UiColors::default();
    // diff colors should have alpha
    assert_ne!(uc.diff_added.a, 255);
    assert_ne!(uc.diff_removed.a, 255);
}

#[test]
fn test_editor_colors_default() {
    let ec = EditorColors::default();
    assert_ne!(ec.background, ec.foreground);
    assert_ne!(ec.selection.a, 255); // selection has alpha
}
