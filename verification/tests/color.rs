use sol_ui::color::{hex_rgba, parse_hex_rgba};

#[test]
fn hex_long_forms() {
    assert_eq!(parse_hex_rgba("#ff0000"), Some([255, 0, 0, 255]));
    assert_eq!(parse_hex_rgba("00ff0080"), Some([0, 255, 0, 128]));
    assert_eq!(parse_hex_rgba("#1A2b3C"), Some([0x1a, 0x2b, 0x3c, 255]));
}

#[test]
fn hex_short_forms() {
    assert_eq!(parse_hex_rgba("#f00"), Some([255, 0, 0, 255]));
    assert_eq!(parse_hex_rgba("#0f08"), Some([0, 255, 0, 136]));
    assert_eq!(parse_hex_rgba("abc"), parse_hex_rgba("aabbcc"));
}

#[test]
fn hex_invalid() {
    assert_eq!(parse_hex_rgba(""), None);
    assert_eq!(parse_hex_rgba("#"), None);
    assert_eq!(parse_hex_rgba("#12345"), None);
    assert_eq!(parse_hex_rgba("#gg0000"), None);
    assert_eq!(parse_hex_rgba("##ff0000"), None);
    assert_eq!(parse_hex_rgba("#+f0"), None);
}

#[test]
fn hex_plus_sign_in_a_pair() {
    // unsigned number parsing accepts a leading plus sign in a pair
    assert_eq!(parse_hex_rgba("+f+f+f"), Some([15, 15, 15, 255]));
}

#[test]
fn hex_known_good() {
    assert_eq!(hex_rgba("#336699"), [0x33, 0x66, 0x99, 255]);
}
