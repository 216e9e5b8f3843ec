use bitmap_rs::{hex_digit_to_u8, hex_digits_to_u8, hex_to_rgb, Error, Pixel24Bit};

#[test]
fn hex_parses_six_digit_color() {
    let pixel = hex_to_rgb("#4CAF50").unwrap();
    assert_eq!(pixel.red, 76);
    assert_eq!(pixel.green, 175);
    assert_eq!(pixel.blue, 80);
}

#[test]
fn hex_accepts_lower_and_upper_case() {
    let lower = hex_to_rgb("#ff00aa").unwrap();
    let upper = hex_to_rgb("#FF00AA").unwrap();
    assert_eq!(lower, upper);
    assert_eq!(lower.red, 255);
    assert_eq!(lower.green, 0);
    assert_eq!(lower.blue, 170);
}

#[test]
fn hex_rejects_short_form() {
    assert!(matches!(hex_to_rgb("#abc"), Err(Error::IllegalParameter(_))));
}

#[test]
fn hex_rejects_missing_hash_and_bad_digits() {
    assert!(matches!(hex_to_rgb("4CAF50A"), Err(Error::IllegalParameter(_))));
    assert!(matches!(hex_to_rgb("#4CAF5G"), Err(Error::IllegalParameter(_))));
    assert!(matches!(hex_to_rgb(""), Err(Error::IllegalParameter(_))));
    assert!(matches!(hex_to_rgb("#4CAF500"), Err(Error::IllegalParameter(_))));
}

#[test]
fn hex_digit_values() {
    assert_eq!(hex_digit_to_u8(b'0'), Some(0));
    assert_eq!(hex_digit_to_u8(b'9'), Some(9));
    assert_eq!(hex_digit_to_u8(b'a'), Some(10));
    assert_eq!(hex_digit_to_u8(b'F'), Some(15));
    assert_eq!(hex_digit_to_u8(b'g'), None);
    assert_eq!(hex_digits_to_u8(b'4', b'C'), Some(0x4C));
    assert_eq!(hex_digits_to_u8(b'x', b'0'), None);
}

#[test]
fn pixel_from_bytes_needs_exactly_three() {
    let pixel = Pixel24Bit::new_from_bytes(&[7, 8, 9]).unwrap();
    assert_eq!(pixel.red, 7);
    assert_eq!(pixel.green, 8);
    assert_eq!(pixel.blue, 9);
    assert!(matches!(
        Pixel24Bit::new_from_bytes(&[7, 8]),
        Err(Error::IllegalParameter(_))
    ));
    assert!(matches!(
        Pixel24Bit::new_from_bytes(&[7, 8, 9, 10]),
        Err(Error::IllegalParameter(_))
    ));
}

#[test]
fn pixel_serializes_in_rgb_order() {
    let pixel = Pixel24Bit { red: 1, green: 2, blue: 3 };
    assert_eq!(pixel.to_bytes(), vec![1, 2, 3]);
}

#[test]
fn pixel_black_and_white_predicates() {
    assert!(Pixel24Bit { red: 0, green: 0, blue: 0 }.is_black());
    assert!(!Pixel24Bit { red: 0, green: 1, blue: 0 }.is_black());
    assert!(Pixel24Bit { red: 255, green: 255, blue: 255 }.is_white());
    assert!(!Pixel24Bit { red: 255, green: 254, blue: 255 }.is_white());
}

#[test]
fn pixel_distance_is_squared_euclidean() {
    let a = Pixel24Bit { red: 0, green: 0, blue: 0 };
    let b = Pixel24Bit { red: 3, green: 4, blue: 12 };
    assert_eq!(a.distance_squared(&b), 9 + 16 + 144);
    assert_eq!(b.distance_squared(&a), 169);
    assert_eq!(a.distance_squared(&a), 0);
}

#[test]
fn pixel_constants() {
    assert_eq!(Pixel24Bit::bits_per_pixel(), 24);
    assert_eq!(Pixel24Bit::pixels_per_meter(), 2835);
}
