//! The 40-byte bitmap information header (the Windows `BITMAPINFOHEADER`):
//! pixel format, dimensions, orientation and compression, all stored
//! little-endian.

use vstd::prelude::*;
use vstd::bytes::{
    lemma_auto_spec_u16_to_from_le_bytes, lemma_auto_spec_u32_to_from_le_bytes,
    spec_u16_from_le_bytes, spec_u16_to_le_bytes, spec_u32_from_le_bytes, spec_u32_to_le_bytes,
    u16_to_le_bytes, u32_to_le_bytes,
};
use crate::color::Pixel24Bit;
use crate::error::Error;
use crate::helpers::{
    read_i32_le, read_u16_le, read_u32_le, spec_i32_of_u32, spec_u32_of_i32, u32_of_i32,
    lemma_i32_u32_roundtrip,
};

verus! {

broadcast use vstd::slice::group_slice_axioms;

/// The size of the information header in bytes.
pub const INFO_HEADER_SIZE: usize = 40;

/// The set of supported bitmap compression methods.
#[derive(Clone, Copy, Debug, PartialEq, Eq, Structural)]
pub enum CompressionMethod {
    /// No compression.
    BiRgb,
}

impl CompressionMethod {
    /// Get the 32-bit identifier for the compression method.
    ///
    /// This can be used directly as the [`InformationHeader::compression_method`].
    pub fn get_identifier(&self) -> (r: u32)
        ensures
            r == 0,
    {
        match self {
            CompressionMethod::BiRgb => 0,
        }
    }

    /// The compression method denoted by a 32-bit identifier.
    ///
    /// Only the uncompressed identifier 0 is recognized; any other value
    /// fails with `IllegalParameter`.
    pub fn from_identifier(identifier: u32) -> (r: Result<Self, Error>)
        ensures
            identifier == 0 <==> r == Ok::<Self, Error>(CompressionMethod::BiRgb),
            identifier != 0 <==> (r matches Err(Error::IllegalParameter(_))),
    {
        match identifier {
            0 => Ok(CompressionMethod::BiRgb),
            _ => Err(Error::IllegalParameter("unknown identifier")),
        }
    }
}

/// The DIB header (bitmap information header).
#[derive(Debug, PartialEq, Eq, Structural)]
pub struct InformationHeader {
    /// The size of this header in bytes (40 bytes).
    pub size: u32,

    /// The width of the image in pixels.
    pub width: i32,

    /// The height of the image in pixels.
    ///
    /// Negative for top-to-bottom pixel order, positive for bottom-to-top
    /// pixel order.
    pub height: i32,

    /// The number of color planes (must be 1).
    pub color_plane_count: u16,

    /// The number of bits per pixel (only 24 is supported).
    pub bits_per_pixel: u16,

    /// The compression method in use.
    pub compression_method: CompressionMethod,

    /// This can be set to 0 for [`CompressionMethod::BiRgb`].
    pub raw_image_size: u32,

    /// Horizontal resolution of the image in pixels per meter.
    pub horizontal_resolution: i32,

    /// Vertical resolution of the image in pixels per meter.
    pub vertical_resolution: i32,

    /// The number of colors in the color palette, or 0 to default to 2^n.
    pub color_palette_count: u32,

    /// The number of important colors in the color palette, or 0 if all are
    /// important.
    pub important_color_count: u32,
}

/// The exact 40-byte little-endian serialization of an information header.
pub open spec fn spec_info_bytes(h: InformationHeader) -> Seq<u8> {
    spec_u32_to_le_bytes(h.size) + spec_u32_to_le_bytes(spec_u32_of_i32(h.width))
        + spec_u32_to_le_bytes(spec_u32_of_i32(h.height)) + spec_u16_to_le_bytes(
        h.color_plane_count,
    ) + spec_u16_to_le_bytes(h.bits_per_pixel) + spec_u32_to_le_bytes(0) + spec_u32_to_le_bytes(
        h.raw_image_size,
    ) + spec_u32_to_le_bytes(spec_u32_of_i32(h.horizontal_resolution)) + spec_u32_to_le_bytes(
        spec_u32_of_i32(h.vertical_resolution),
    ) + spec_u32_to_le_bytes(h.color_palette_count) + spec_u32_to_le_bytes(h.important_color_count)
}

/// The declared header size stored at the start of the 40-byte block.
pub open spec fn spec_info_size(b: Seq<u8>) -> int {
    spec_u32_from_le_bytes(b.subrange(0, 4)) as int
}

/// The signed width stored in the 40-byte block.
pub open spec fn spec_info_width(b: Seq<u8>) -> i32 {
    spec_i32_of_u32(spec_u32_from_le_bytes(b.subrange(4, 8)))
}

/// The signed height stored in the 40-byte block.
pub open spec fn spec_info_height(b: Seq<u8>) -> i32 {
    spec_i32_of_u32(spec_u32_from_le_bytes(b.subrange(8, 12)))
}

/// The color plane count stored in the 40-byte block.
pub open spec fn spec_info_planes(b: Seq<u8>) -> int {
    spec_u16_from_le_bytes(b.subrange(12, 14)) as int
}

/// The bit depth stored in the 40-byte block.
pub open spec fn spec_info_bpp(b: Seq<u8>) -> int {
    spec_u16_from_le_bytes(b.subrange(14, 16)) as int
}

/// The compression identifier stored in the 40-byte block.
pub open spec fn spec_info_compression(b: Seq<u8>) -> int {
    spec_u32_from_le_bytes(b.subrange(16, 20)) as int
}

/// Whether the first 40 bytes of `b` form an information header this codec
/// accepts: a 40-byte header, uncompressed, 24 bits per pixel, one color
/// plane.
pub open spec fn spec_info_ok(b: Seq<u8>) -> bool {
    b.len() >= 40 && spec_info_compression(b) == 0 && spec_info_size(b) == 40 && spec_info_bpp(b)
        == 24 && spec_info_planes(b) == 1
}

/// Whether the first 40 bytes of `b` are structurally valid but describe a
/// bit depth this codec does not implement.
pub open spec fn spec_info_unsupported(b: Seq<u8>) -> bool {
    b.len() >= 40 && spec_info_compression(b) == 0 && spec_info_size(b) == 40 && spec_info_bpp(b)
        != 24
}

/// The information header whose fields are stored in the first 40 bytes of
/// `b`, assuming the validity checks passed.
pub open spec fn spec_parse_info(b: Seq<u8>) -> InformationHeader {
    InformationHeader {
        size: spec_u32_from_le_bytes(b.subrange(0, 4)),
        width: spec_info_width(b),
        height: spec_info_height(b),
        color_plane_count: spec_u16_from_le_bytes(b.subrange(12, 14)),
        bits_per_pixel: spec_u16_from_le_bytes(b.subrange(14, 16)),
        compression_method: CompressionMethod::BiRgb,
        raw_image_size: spec_u32_from_le_bytes(b.subrange(20, 24)),
        horizontal_resolution: spec_i32_of_u32(spec_u32_from_le_bytes(b.subrange(24, 28))),
        vertical_resolution: spec_i32_of_u32(spec_u32_from_le_bytes(b.subrange(28, 32))),
        color_palette_count: spec_u32_from_le_bytes(b.subrange(32, 36)),
        important_color_count: spec_u32_from_le_bytes(b.subrange(36, 40)),
    }
}

impl InformationHeader {
    /// A fresh information header for an uncompressed 24-bit image of the
    /// given dimensions, with the resolution fixed to the pixel type's
    /// pixels-per-meter value.
    pub fn new(width: i32, height: i32) -> (r: Self)
        ensures
            r == (InformationHeader {
                size: 40,
                width,
                height,
                color_plane_count: 1,
                bits_per_pixel: 24,
                compression_method: CompressionMethod::BiRgb,
                raw_image_size: 0,
                horizontal_resolution: 2835,
                vertical_resolution: 2835,
                color_palette_count: 0,
                important_color_count: 0,
            }),
    {
        Self {
            size: 40,
            width,
            height,
            color_plane_count: 1,
            bits_per_pixel: Pixel24Bit::bits_per_pixel(),
            compression_method: CompressionMethod::BiRgb,
            raw_image_size: 0,
            horizontal_resolution: Pixel24Bit::pixels_per_meter(),
            vertical_resolution: Pixel24Bit::pixels_per_meter(),
            color_palette_count: 0,
            important_color_count: 0,
        }
    }

    /// Decode an information header from the first 40 bytes of `bytes`.
    ///
    /// Fails with `IllegalParameter` if the buffer is too short, the
    /// declared header size is not 40, the compression identifier is not
    /// the uncompressed value, or the color plane count is not 1; fails
    /// with `Unsupported` if the bit depth is not 24.
    pub fn new_from_bytes(bytes: &[u8]) -> (r: Result<InformationHeader, Error>)
        ensures
            spec_info_ok(bytes@) <==> r == Ok::<InformationHeader, Error>(spec_parse_info(bytes@)),
            spec_info_unsupported(bytes@) <==> (r matches Err(Error::Unsupported(_))),
            !(spec_info_ok(bytes@) || spec_info_unsupported(bytes@)) <==> (r matches Err(
                Error::IllegalParameter(_),
            )),
    {
        if bytes.len() < INFO_HEADER_SIZE {
            return Err(Error::IllegalParameter("buffer too short for an information header"));
        }
        let size = read_u32_le(bytes, 0);
        let width = read_i32_le(bytes, 4);
        let height = read_i32_le(bytes, 8);
        let color_plane_count = read_u16_le(bytes, 12);
        let bits_per_pixel = read_u16_le(bytes, 14);
        let compression_method = match CompressionMethod::from_identifier(read_u32_le(bytes, 16)) {
            Ok(c) => c,
            Err(e) => {
                return Err(e);
            },
        };
        let raw_image_size = read_u32_le(bytes, 20);
        let horizontal_resolution = read_i32_le(bytes, 24);
        let vertical_resolution = read_i32_le(bytes, 28);
        let color_palette_count = read_u32_le(bytes, 32);
        let important_color_count = read_u32_le(bytes, 36);

        if size != 40 {
            return Err(Error::IllegalParameter("unexpected bitmap information header size"));
        }
        if bits_per_pixel != 24 {
            return Err(Error::Unsupported("only 24bpp bitmaps are supported"));
        }
        if color_plane_count != 1 {
            return Err(Error::IllegalParameter("color plane count must be 1"));
        }

        Ok(Self {
            size,
            width,
            height,
            color_plane_count,
            bits_per_pixel,
            compression_method,
            raw_image_size,
            horizontal_resolution,
            vertical_resolution,
            color_palette_count,
            important_color_count,
        })
    }

    /// Serialize the header into its exact 40-byte form.
    pub fn to_bytes(&self) -> (r: Vec<u8>)
        ensures
            r@ == spec_info_bytes(*self),
    {
        proof {
            lemma_auto_spec_u16_to_from_le_bytes();
            lemma_auto_spec_u32_to_from_le_bytes();
        }
        let mut r: Vec<u8> = Vec::new();
        let mut part = u32_to_le_bytes(self.size);
        r.append(&mut part);
        let mut part = u32_to_le_bytes(u32_of_i32(self.width));
        r.append(&mut part);
        let mut part = u32_to_le_bytes(u32_of_i32(self.height));
        r.append(&mut part);
        let mut part = u16_to_le_bytes(self.color_plane_count);
        r.append(&mut part);
        let mut part = u16_to_le_bytes(self.bits_per_pixel);
        r.append(&mut part);
        let mut part = u32_to_le_bytes(self.compression_method.get_identifier());
        r.append(&mut part);
        let mut part = u32_to_le_bytes(self.raw_image_size);
        r.append(&mut part);
        let mut part = u32_to_le_bytes(u32_of_i32(self.horizontal_resolution));
        r.append(&mut part);
        let mut part = u32_to_le_bytes(u32_of_i32(self.vertical_resolution));
        r.append(&mut part);
        let mut part = u32_to_le_bytes(self.color_palette_count);
        r.append(&mut part);
        let mut part = u32_to_le_bytes(self.important_color_count);
        r.append(&mut part);
        proof {
            assert(r@ =~= spec_info_bytes(*self));
        }
        r
    }
}

/// Parsing the serialized form of an information header gives the header
/// back, provided its stored fields satisfy the codec's checks.
pub proof fn lemma_info_roundtrip(h: InformationHeader)
    requires
        h.size == 40,
        h.bits_per_pixel == 24,
        h.color_plane_count == 1,
    ensures
        spec_info_bytes(h).len() == 40,
        spec_info_ok(spec_info_bytes(h)),
        spec_parse_info(spec_info_bytes(h)) == h,
{
    lemma_auto_spec_u16_to_from_le_bytes();
    lemma_auto_spec_u32_to_from_le_bytes();
    lemma_i32_u32_roundtrip();
    let b = spec_info_bytes(h);
    assert(b.subrange(0, 4) =~= spec_u32_to_le_bytes(h.size));
    assert(b.subrange(4, 8) =~= spec_u32_to_le_bytes(spec_u32_of_i32(h.width)));
    assert(b.subrange(8, 12) =~= spec_u32_to_le_bytes(spec_u32_of_i32(h.height)));
    assert(b.subrange(12, 14) =~= spec_u16_to_le_bytes(h.color_plane_count));
    assert(b.subrange(14, 16) =~= spec_u16_to_le_bytes(h.bits_per_pixel));
    assert(b.subrange(16, 20) =~= spec_u32_to_le_bytes(0));
    assert(b.subrange(20, 24) =~= spec_u32_to_le_bytes(h.raw_image_size));
    assert(b.subrange(24, 28) =~= spec_u32_to_le_bytes(spec_u32_of_i32(h.horizontal_resolution)));
    assert(b.subrange(28, 32) =~= spec_u32_to_le_bytes(spec_u32_of_i32(h.vertical_resolution)));
    assert(b.subrange(32, 36) =~= spec_u32_to_le_bytes(h.color_palette_count));
    assert(b.subrange(36, 40) =~= spec_u32_to_le_bytes(h.important_color_count));
}

} // verus!
