use bitmap_rs::{Bitmap, Error, Pixel24Bit};

fn rgb(red: u8, green: u8, blue: u8) -> Pixel24Bit {
    Pixel24Bit { red, green, blue }
}

fn sample_pixels(count: usize) -> Vec<Pixel24Bit> {
    let mut pixels = Vec::new();
    let mut i = 0usize;
    while i < count {
        pixels.push(rgb(i as u8, (i * 2) as u8, (i * 3) as u8));
        i += 1;
    }
    pixels
}

#[test]
fn round_trip_preserves_pixels_and_headers() {
    let pixels = sample_pixels(6);
    let image = Bitmap::new_from_pixels(3, 2, pixels.clone()).unwrap();
    let encoded = image.to_bytes();
    let decoded = Bitmap::new_from_bytes(encoded).unwrap();

    assert_eq!(decoded.pixels.len(), 6);
    for i in 0..6 {
        assert_eq!(decoded.pixels[i].red, pixels[i].red);
        assert_eq!(decoded.pixels[i].green, pixels[i].green);
        assert_eq!(decoded.pixels[i].blue, pixels[i].blue);
    }
    assert_eq!(decoded.header, image.header);
    assert_eq!(decoded.information_header, image.information_header);
}

#[test]
fn round_trip_preserves_negative_height() {
    let pixels = sample_pixels(4);
    let image = Bitmap::new_from_pixels(2, -2, pixels).unwrap();
    assert_eq!(image.get_raw_height(), -2);
    assert_eq!(image.get_height(), 2);

    let decoded = Bitmap::new_from_bytes(image.to_bytes()).unwrap();
    assert_eq!(decoded.get_raw_height(), -2);
    assert_eq!(decoded.get_height(), 2);
    assert_eq!(decoded.get_raw_width(), 2);
}

#[test]
fn padding_three_wide_rows_pad_to_twelve() {
    // width=3, height=2, 24bpp: bytesPerRow=9, paddingPerRow=3.
    let image = Bitmap::new_from_pixels(3, 2, sample_pixels(6)).unwrap();
    let bytes = image.to_bytes();
    assert_eq!(bytes.len(), 54 + (9 + 3) * 2);
    assert_eq!(image.header.size, 54 + 24);
    // The three padding bytes of each row are zero.
    for row in 0..2 {
        for pad in 0..3 {
            assert_eq!(bytes[54 + row * 12 + 9 + pad], 0);
        }
    }
}

#[test]
fn padding_four_wide_rows_need_none() {
    // width=4, height=2, 24bpp: bytesPerRow=12, paddingPerRow=0.
    let image = Bitmap::new_from_pixels(4, 2, sample_pixels(8)).unwrap();
    let bytes = image.to_bytes();
    assert_eq!(bytes.len(), 54 + 12 * 2);
    assert_eq!(image.header.size, 54 + 24);
}

#[test]
fn decode_rejects_bad_magic() {
    let mut bytes = Bitmap::new_from_pixels(2, 2, sample_pixels(4)).unwrap().to_bytes();
    bytes[0] = 0x41;
    let result = Bitmap::new_from_bytes(bytes);
    assert!(matches!(result, Err(Error::IllegalParameter(_))));
}

#[test]
fn decode_rejects_unsupported_bit_depth() {
    let mut bytes = Bitmap::new_from_pixels(2, 2, sample_pixels(4)).unwrap().to_bytes();
    // The bits-per-pixel field sits at offset 28 (14 + 14), little-endian.
    bytes[28] = 1;
    bytes[29] = 0;
    let result = Bitmap::new_from_bytes(bytes);
    assert!(matches!(result, Err(Error::Unsupported(_))));
}

#[test]
fn decode_rejects_bad_information_header_size() {
    let mut bytes = Bitmap::new_from_pixels(2, 2, sample_pixels(4)).unwrap().to_bytes();
    // The information header size field sits at offset 14.
    bytes[14] = 38;
    let result = Bitmap::new_from_bytes(bytes);
    assert!(matches!(result, Err(Error::IllegalParameter(_))));
}

#[test]
fn decode_rejects_unknown_compression() {
    let mut bytes = Bitmap::new_from_pixels(2, 2, sample_pixels(4)).unwrap().to_bytes();
    // The compression identifier sits at offset 30 (14 + 16).
    bytes[30] = 1;
    let result = Bitmap::new_from_bytes(bytes);
    assert!(matches!(result, Err(Error::IllegalParameter(_))));
}

#[test]
fn decode_rejects_bad_color_plane_count() {
    let mut bytes = Bitmap::new_from_pixels(2, 2, sample_pixels(4)).unwrap().to_bytes();
    // The color plane count sits at offset 26 (14 + 12).
    bytes[26] = 2;
    let result = Bitmap::new_from_bytes(bytes);
    assert!(matches!(result, Err(Error::IllegalParameter(_))));
}

#[test]
fn decode_rejects_truncated_buffers() {
    let bytes = Bitmap::new_from_pixels(2, 2, sample_pixels(4)).unwrap().to_bytes();

    // Too short for the headers.
    let short = bytes[..40].to_vec();
    assert!(matches!(
        Bitmap::new_from_bytes(short),
        Err(Error::IllegalParameter(_))
    ));

    // Headers intact but part of the pixel payload missing.
    let clipped = bytes[..bytes.len() - 1].to_vec();
    assert!(matches!(
        Bitmap::new_from_bytes(clipped),
        Err(Error::IllegalParameter(_))
    ));
}

#[test]
fn decode_ignores_padding_contents() {
    let pixels = sample_pixels(6);
    let mut bytes = Bitmap::new_from_pixels(3, 2, pixels.clone()).unwrap().to_bytes();
    // Scribble over the padding suffix of the first row (bytes 9..12 of the
    // payload); the decoded pixels must not change.
    bytes[54 + 9] = 0xAA;
    bytes[54 + 10] = 0xBB;
    bytes[54 + 11] = 0xCC;
    let decoded = Bitmap::new_from_bytes(bytes).unwrap();
    assert_eq!(decoded.pixels.len(), 6);
    for i in 0..6 {
        assert_eq!(decoded.pixels[i].blue, pixels[i].blue);
    }
}

#[test]
fn construct_rejects_pixel_count_mismatch() {
    // width=2, height=2 but only 3 pixels.
    let result = Bitmap::new_from_pixels(2, 2, sample_pixels(3));
    assert!(matches!(result, Err(Error::IllegalParameter(_))));
}

#[test]
fn construct_derives_headers() {
    let image = Bitmap::new_from_pixels(3, 2, sample_pixels(6)).unwrap();
    assert_eq!(image.header.offset, 54);
    assert_eq!(image.header.reserved_1, 0);
    assert_eq!(image.header.reserved_2, 0);
    assert_eq!(image.information_header.size, 40);
    assert_eq!(image.information_header.width, 3);
    assert_eq!(image.information_header.height, 2);
    assert_eq!(image.information_header.color_plane_count, 1);
    assert_eq!(image.information_header.bits_per_pixel, 24);
    assert_eq!(image.information_header.compression_method.get_identifier(), 0);
    assert_eq!(image.information_header.raw_image_size, 0);
    assert_eq!(image.information_header.horizontal_resolution, 2835);
    assert_eq!(image.information_header.vertical_resolution, 2835);
    assert_eq!(image.information_header.color_palette_count, 0);
    assert_eq!(image.information_header.important_color_count, 0);
}

#[test]
fn pixel_lookup_is_row_major() {
    let image = Bitmap::new_from_pixels(3, 2, sample_pixels(6)).unwrap();
    let p = image.get_pixel_at(2, 1).unwrap();
    // Row-major: pixel (x=2, y=1) is index 1*3+2 = 5.
    assert_eq!(p.red, 5);
    assert_eq!(p.green, 10);
    assert_eq!(p.blue, 15);
}

#[test]
fn pixel_lookup_out_of_bounds_returns_none() {
    let image = Bitmap::new_from_pixels(2, 2, sample_pixels(4)).unwrap();
    let width = image.get_width();
    let height = image.get_height();
    assert!(image.get_pixel_at(width, 0).is_none());
    assert!(image.get_pixel_at(0, height).is_none());
    assert!(image.get_pixel_at(0, 0).is_some());
}

#[test]
fn nearest_match_finds_closest_pixel() {
    // Palette: (0,0,0) at (0,0) and (255,255,255) at (1,0).
    let palette = Bitmap::new_from_pixels(2, 1, vec![rgb(0, 0, 0), rgb(255, 255, 255)]).unwrap();
    let target = rgb(10, 10, 10);
    let location = palette.find_pixel_by_closest_match(&target).unwrap();
    assert_eq!(location, (0, 0));
    let matched = palette.get_pixel_at(location.0, location.1).unwrap();
    assert!(matched.is_black());
}

#[test]
fn nearest_match_ties_keep_first_location() {
    // Two identical pixels: the first in row-major order wins.
    let palette = Bitmap::new_from_pixels(2, 2, vec![
        rgb(9, 9, 9),
        rgb(5, 5, 5),
        rgb(5, 5, 5),
        rgb(200, 200, 200),
    ])
    .unwrap();
    let location = palette.find_pixel_by_closest_match(&rgb(5, 5, 5)).unwrap();
    assert_eq!(location, (1, 0));
}

#[test]
fn round_trip_of_zero_width_image() {
    // A zero-width image stores rows of no bytes at all: the encoded file
    // is just the two headers.
    let image = Bitmap::new_from_pixels(0, 5, Vec::new()).unwrap();
    let bytes = image.to_bytes();
    assert_eq!(bytes.len(), 54);
    let decoded = Bitmap::new_from_bytes(bytes).unwrap();
    assert_eq!(decoded.pixels.len(), 0);
    assert_eq!(decoded.get_height(), 5);
    assert_eq!(decoded.get_width(), 0);
}

#[test]
fn decode_honors_declared_pixel_data_offset() {
    // Insert a 4-byte gap between the headers and the payload and declare
    // it through the offset field: the pixels must decode unchanged.
    let pixels = sample_pixels(4);
    let encoded = Bitmap::new_from_pixels(2, 2, pixels.clone()).unwrap().to_bytes();
    let mut padded_file = encoded[..54].to_vec();
    padded_file.extend_from_slice(&[9, 9, 9, 9]);
    padded_file.extend_from_slice(&encoded[54..]);
    padded_file[10] = 58;
    let decoded = Bitmap::new_from_bytes(padded_file).unwrap();
    assert_eq!(decoded.header.offset, 58);
    assert_eq!(decoded.pixels.len(), 4);
    for i in 0..4 {
        assert_eq!(decoded.pixels[i].red, pixels[i].red);
        assert_eq!(decoded.pixels[i].green, pixels[i].green);
        assert_eq!(decoded.pixels[i].blue, pixels[i].blue);
    }
}

#[test]
fn nearest_match_on_empty_image_returns_none() {
    let empty = Bitmap::new_from_pixels(0, 0, Vec::new()).unwrap();
    assert!(empty.find_pixel_by_closest_match(&rgb(1, 2, 3)).is_none());
}
