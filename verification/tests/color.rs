use fed::color::{hex_to_rgb, ParseColorError, Rgb};

#[test]
fn a_colour_is_read_from_six_digits() {
    assert_eq!(hex_to_rgb("#ff8000"), Ok([255, 128, 0]));
    assert_eq!(hex_to_rgb("#000000"), Ok([0, 0, 0]));
    assert_eq!(hex_to_rgb("#FfFfFf"), Ok([255, 255, 255]));
    assert_eq!(hex_to_rgb("#1a2B3c"), Ok([0x1a, 0x2b, 0x3c]));
    assert_eq!(hex_to_rgb("#09af90"), Ok([0x09, 0xaf, 0x90]));
    assert_eq!(Rgb::from_hex("#102030"), Ok(Rgb { r: 16, g: 32, b: 48 }));
}

#[test]
fn the_hash_may_be_missing_or_doubled() {
    assert_eq!(hex_to_rgb("ff8000"), Ok([255, 128, 0]));
    assert_eq!(hex_to_rgb("##ff8000"), Ok([255, 128, 0]));
}

#[test]
fn what_follows_the_six_digits_is_not_looked_at() {
    assert_eq!(hex_to_rgb("#ff8000aa"), Ok([255, 128, 0]));
    assert_eq!(hex_to_rgb("#ff8000zz"), Ok([255, 128, 0]));
}

#[test]
fn too_few_characters_are_an_error() {
    assert_eq!(hex_to_rgb(""), Err(ParseColorError::TooShort));
    assert_eq!(hex_to_rgb("#"), Err(ParseColorError::TooShort));
    assert_eq!(hex_to_rgb("#fff"), Err(ParseColorError::TooShort));
    assert_eq!(hex_to_rgb("#ff800"), Err(ParseColorError::TooShort));
    assert_eq!(hex_to_rgb("#zz"), Err(ParseColorError::TooShort));
}

#[test]
fn other_characters_than_digits_are_an_error() {
    assert_eq!(hex_to_rgb("#gg0000"), Err(ParseColorError::InvalidDigit));
    assert_eq!(hex_to_rgb("#00000g"), Err(ParseColorError::InvalidDigit));
    assert_eq!(hex_to_rgb("#+f+f+f"), Err(ParseColorError::InvalidDigit));
    assert_eq!(hex_to_rgb("#ff 000"), Err(ParseColorError::InvalidDigit));
    assert_eq!(hex_to_rgb("#ff#000"), Err(ParseColorError::InvalidDigit));
    assert_eq!(hex_to_rgb("äöüäöü"), Err(ParseColorError::InvalidDigit));
    assert_eq!(Rgb::from_hex("#12345x"), Err(ParseColorError::InvalidDigit));
}
