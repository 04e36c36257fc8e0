use rira::cli::parse_file_arg;
use std::path::PathBuf;

#[test]
fn parse_filename_only() {
    let (path, line) = parse_file_arg("file.rs");
    assert_eq!(path, PathBuf::from("file.rs"));
    assert_eq!(line, None);
}

#[test]
fn parse_filename_with_line() {
    let (path, line) = parse_file_arg("file.rs:42");
    assert_eq!(path, PathBuf::from("file.rs"));
    assert_eq!(line, Some(42));
}

#[test]
fn parse_relative_path_with_line() {
    let (path, line) = parse_file_arg("path/to/file.rs:1");
    assert_eq!(path, PathBuf::from("path/to/file.rs"));
    assert_eq!(line, Some(1));
}

#[test]
fn parse_line_zero() {
    let (path, line) = parse_file_arg("file.rs:0");
    assert_eq!(path, PathBuf::from("file.rs"));
    assert_eq!(line, Some(0));
}

#[test]
fn parse_invalid_line_number() {
    let (path, line) = parse_file_arg("file.rs:abc");
    assert_eq!(path, PathBuf::from("file.rs:abc"));
    assert_eq!(line, None);
}

#[test]
fn parse_absolute_path_with_line() {
    let (path, line) = parse_file_arg("/absolute/path.rs:10");
    assert_eq!(path, PathBuf::from("/absolute/path.rs"));
    assert_eq!(line, Some(10));
}

#[test]
fn parse_file_with_spaces() {
    let (path, line) = parse_file_arg("file with spaces.rs:5");
    assert_eq!(path, PathBuf::from("file with spaces.rs"));
    assert_eq!(line, Some(5));
}

#[test]
fn parse_file_with_spaces_no_line() {
    let (path, line) = parse_file_arg("file with spaces.rs");
    assert_eq!(path, PathBuf::from("file with spaces.rs"));
    assert_eq!(line, None);
}

#[test]
fn parse_trailing_colon() {
    // "file.rs:" — empty line part, not a valid number
    let (path, line) = parse_file_arg("file.rs:");
    assert_eq!(path, PathBuf::from("file.rs:"));
    assert_eq!(line, None);
}
