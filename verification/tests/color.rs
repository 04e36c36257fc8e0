use rira::theme::color::{Color, ColorParseError};

#[test]
fn test_from_hex_6_digit() {
    let c = Color::from_hex("#FF79C6").expect("should parse");
    assert_eq!(c.r, 0xFF);
    assert_eq!(c.g, 0x79);
    assert_eq!(c.b, 0xC6);
    assert_eq!(c.a, 255);
}

#[test]
fn test_from_hex_8_digit() {
    let c = Color::from_hex("#FF79C680").expect("should parse");
    assert_eq!(c.r, 0xFF);
    assert_eq!(c.g, 0x79);
    assert_eq!(c.b, 0xC6);
    assert_eq!(c.a, 0x80);
}

#[test]
fn test_from_hex_3_digit() {
    let c = Color::from_hex("#FFF").expect("should parse");
    assert_eq!(c, Color::rgb(255, 255, 255));

    let c = Color::from_hex("#000").expect("should parse");
    assert_eq!(c, Color::rgb(0, 0, 0));

    let c = Color::from_hex("#F0A").expect("should parse");
    assert_eq!(c.r, 0xFF);
    assert_eq!(c.g, 0x00);
    assert_eq!(c.b, 0xAA);
}

#[test]
fn test_from_hex_4_digit() {
    let c = Color::from_hex("#FFFA").expect("should parse");
    assert_eq!(c.r, 255);
    assert_eq!(c.g, 255);
    assert_eq!(c.b, 255);
    assert_eq!(c.a, 0xAA);
}

#[test]
fn test_from_hex_no_hash() {
    let c = Color::from_hex("FF79C6").expect("should parse");
    assert_eq!(c.r, 0xFF);
    assert_eq!(c.g, 0x79);
    assert_eq!(c.b, 0xC6);
}

#[test]
fn test_from_hex_lowercase() {
    let c = Color::from_hex("#ff79c6").expect("should parse");
    assert_eq!(c.r, 0xFF);
    assert_eq!(c.g, 0x79);
    assert_eq!(c.b, 0xC6);
}

#[test]
fn test_from_hex_invalid_empty() {
    assert_eq!(Color::from_hex(""), Err(ColorParseError::Empty));
    assert_eq!(Color::from_hex("#"), Err(ColorParseError::Empty));
}

#[test]
fn test_from_hex_invalid_chars() {
    assert_eq!(
        Color::from_hex("#GGHHII"),
        Err(ColorParseError::InvalidChar)
    );
    assert_eq!(Color::from_hex("#XYZ"), Err(ColorParseError::InvalidChar));
}

#[test]
fn test_from_hex_invalid_length() {
    assert_eq!(
        Color::from_hex("#FF"),
        Err(ColorParseError::InvalidLength(2))
    );
    assert_eq!(
        Color::from_hex("#FF79C6FF0"),
        Err(ColorParseError::InvalidLength(9))
    );
}

#[test]
fn test_default_is_white() {
    assert_eq!(Color::default(), Color::rgb(255, 255, 255));
}

#[test]
fn test_display_rgb() {
    let c = Color::rgb(255, 121, 198);
    assert_eq!(c.to_string(), "#FF79C6");
}

#[test]
fn test_display_rgba() {
    let c = Color::rgba(255, 121, 198, 128);
    assert_eq!(c.to_string(), "#FF79C680");
}

#[test]
fn test_display_roundtrip() {
    let original = Color::rgb(0x28, 0x2A, 0x36);
    let hex = original.to_string();
    let parsed = Color::from_hex(&hex).expect("roundtrip should work");
    assert_eq!(original, parsed);
}

#[test]
fn test_display_roundtrip_with_alpha() {
    let original = Color::rgba(0x28, 0x2A, 0x36, 0x80);
    let hex = original.to_string();
    let parsed = Color::from_hex(&hex).expect("roundtrip should work");
    assert_eq!(original, parsed);
}

#[test]
fn test_constants() {
    assert_eq!(Color::white(), Color::rgb(255, 255, 255));
    assert_eq!(Color::black(), Color::rgb(0, 0, 0));
    assert_eq!(Color::transparent(), Color::rgba(0, 0, 0, 0));
}
