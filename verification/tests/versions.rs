#[test]
fn lib_test_version() {
    assert_eq!(rira::editor::version(), "0.1.0");
    assert_eq!(rira::keymap::version(), "0.1.0");
    assert_eq!(rira::renderer::version(), "0.1.0");
    assert_eq!(rira::theme::version(), "0.1.0");
    assert_eq!(rira::ui::version(), "0.1.0");
}
