use bitmap_rs::{
    BitmapIdentifier, CompressionMethod, Error, Header, InformationHeader,
};

#[test]
fn identifier_recognizes_magic() {
    assert!(matches!(
        BitmapIdentifier::from_bytes([0x42, 0x4D]),
        Ok(BitmapIdentifier::BM)
    ));
    assert!(matches!(
        BitmapIdentifier::from_bytes([0x42, 0x4E]),
        Err(Error::IllegalParameter(_))
    ));
    assert_eq!(BitmapIdentifier::BM.to_bytes(), [0x42, 0x4D]);
}

#[test]
fn compression_identifier_round_trip() {
    assert!(matches!(
        CompressionMethod::from_identifier(0),
        Ok(CompressionMethod::BiRgb)
    ));
    assert!(matches!(
        CompressionMethod::from_identifier(3),
        Err(Error::IllegalParameter(_))
    ));
    assert_eq!(CompressionMethod::BiRgb.get_identifier(), 0);
}

#[test]
fn header_serializes_little_endian() {
    let header = Header::new(0x01020304, 54);
    let bytes = header.to_bytes();
    assert_eq!(bytes.len(), 14);
    assert_eq!(&bytes[0..2], &[0x42, 0x4D]);
    assert_eq!(&bytes[2..6], &[0x04, 0x03, 0x02, 0x01]);
    assert_eq!(&bytes[6..10], &[0, 0, 0, 0]);
    assert_eq!(&bytes[10..14], &[54, 0, 0, 0]);
}

#[test]
fn header_parses_its_own_bytes() {
    let header = Header::new(1000, 54);
    let parsed = Header::new_from_bytes(&header.to_bytes()).unwrap();
    assert_eq!(parsed, header);
}

#[test]
fn header_rejects_short_buffer_and_bad_magic() {
    assert!(matches!(
        Header::new_from_bytes(&[0x42, 0x4D, 0, 0]),
        Err(Error::IllegalParameter(_))
    ));
    let mut bytes = Header::new(100, 54).to_bytes();
    bytes[1] = 0x00;
    assert!(matches!(
        Header::new_from_bytes(&bytes),
        Err(Error::IllegalParameter(_))
    ));
}

#[test]
fn information_header_serializes_all_fields() {
    let header = InformationHeader::new(-7, 5);
    let bytes = header.to_bytes();
    assert_eq!(bytes.len(), 40);
    assert_eq!(&bytes[0..4], &[40, 0, 0, 0]);
    // Width -7 in little-endian two's complement.
    assert_eq!(&bytes[4..8], &[0xF9, 0xFF, 0xFF, 0xFF]);
    assert_eq!(&bytes[8..12], &[5, 0, 0, 0]);
    assert_eq!(&bytes[12..14], &[1, 0]);
    assert_eq!(&bytes[14..16], &[24, 0]);
    assert_eq!(&bytes[16..20], &[0, 0, 0, 0]);
    // 2835 = 0x0B13 pixels per meter, in both directions.
    assert_eq!(&bytes[24..28], &[0x13, 0x0B, 0, 0]);
    assert_eq!(&bytes[28..32], &[0x13, 0x0B, 0, 0]);
}

#[test]
fn information_header_parses_its_own_bytes() {
    let header = InformationHeader::new(3, -2);
    let parsed = InformationHeader::new_from_bytes(&header.to_bytes()).unwrap();
    assert_eq!(parsed, header);
}

#[test]
fn information_header_error_kinds() {
    let good = InformationHeader::new(1, 1).to_bytes();

    let mut bad_size = good.clone();
    bad_size[0] = 38;
    assert!(matches!(
        InformationHeader::new_from_bytes(&bad_size),
        Err(Error::IllegalParameter(_))
    ));

    let mut bad_depth = good.clone();
    bad_depth[14] = 1;
    assert!(matches!(
        InformationHeader::new_from_bytes(&bad_depth),
        Err(Error::Unsupported(_))
    ));

    let mut bad_planes = good.clone();
    bad_planes[12] = 0;
    assert!(matches!(
        InformationHeader::new_from_bytes(&bad_planes),
        Err(Error::IllegalParameter(_))
    ));

    let mut bad_compression = good.clone();
    bad_compression[16] = 2;
    assert!(matches!(
        InformationHeader::new_from_bytes(&bad_compression),
        Err(Error::IllegalParameter(_))
    ));

    assert!(matches!(
        InformationHeader::new_from_bytes(&good[..20]),
        Err(Error::IllegalParameter(_))
    ));
}

#[test]
fn error_message_carries_description() {
    let error = Error::Unsupported("only 24bpp bitmaps are supported");
    assert_eq!(error.message(), "only 24bpp bitmaps are supported");
    let error = Error::IllegalParameter("unknown identifier");
    assert_eq!(error.message(), "unknown identifier");
}
