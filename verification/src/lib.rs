//! A codec for a subset of the Windows bitmap (BMP) file format.
//!
//! The crate parses a raw byte buffer into a structured, validated in-memory
//! image, serializes an image back into a byte-exact, correctly padded BMP
//! stream, and offers a linear nearest-color search over an image's pixels.
//! Only uncompressed 24-bit RGB bitmaps with the 40-byte information header
//! are supported.

pub mod bitmap;
pub mod color;
pub mod error;
pub mod header;
pub mod helpers;
pub mod info;

pub use bitmap::{
    lemma_encode_decode_roundtrip, lemma_size_field_matches_encoding, Bitmap, HEADERS_SIZE,
};
pub use color::{hex_digit_to_u8, hex_digits_to_u8, hex_to_rgb, Pixel24Bit};
pub use error::Error;
pub use header::{BitmapIdentifier, Header, HEADER_SIZE};
pub use info::{CompressionMethod, InformationHeader, INFO_HEADER_SIZE};
