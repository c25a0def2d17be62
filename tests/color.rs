use macos_wallpaper::color::{nscolor_from_hex, nscolor_from_rgb, Color};

fn rgb(red: u8, green: u8, blue: u8) -> Color {
    Color { red, green, blue, alpha: 255 }
}

#[test]
fn hex_with_hash() {
    assert_eq!(nscolor_from_hex("#bcc6b2"), Some(rgb(188, 198, 178)));
}

#[test]
fn hex_without_hash_upper_case() {
    assert_eq!(nscolor_from_hex("BCC6B2"), Some(rgb(188, 198, 178)));
}

#[test]
fn hex_shorthand_expands() {
    assert_eq!(nscolor_from_hex("abc"), Some(rgb(170, 187, 204)));
    assert_eq!(nscolor_from_hex("#abc"), Some(rgb(170, 187, 204)));
}

#[test]
fn hex_invalid_digits() {
    assert_eq!(nscolor_from_hex("zzz"), None);
    assert_eq!(nscolor_from_hex("#12345g"), None);
}

#[test]
fn hex_wrong_length() {
    assert_eq!(nscolor_from_hex(""), None);
    assert_eq!(nscolor_from_hex("#"), None);
    assert_eq!(nscolor_from_hex("1234"), None);
    assert_eq!(nscolor_from_hex("12345"), None);
    assert_eq!(nscolor_from_hex("1234567"), None);
    assert_eq!(nscolor_from_hex("##abc"), None);
}

#[test]
fn hex_black_and_white() {
    assert_eq!(nscolor_from_hex("#000000"), Some(rgb(0, 0, 0)));
    assert_eq!(nscolor_from_hex("fff"), Some(rgb(255, 255, 255)));
}

#[test]
fn rgb_is_opaque() {
    assert_eq!(nscolor_from_rgb(1, 2, 3), Some(rgb(1, 2, 3)));
}
