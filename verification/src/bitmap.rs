//! The bitmap image itself: the full pixel grid together with its two
//! headers, row-padding arithmetic, full decode and encode, pixel indexing
//! and the nearest-match search.

use vstd::prelude::*;
use vstd::arithmetic::div_mod::{
    lemma_fundamental_div_mod, lemma_fundamental_div_mod_converse, lemma_div_multiples_vanish,
    lemma_multiply_divide_lt, lemma_mod_bound,
};
use vstd::arithmetic::mul::lemma_mul_upper_bound;
use vstd::math::abs;
use vstd::slice::slice_subrange;
use crate::color::{spec_distance_squared, Pixel24Bit};
use crate::error::Error;
use crate::header::{
    spec_header_bytes, spec_magic_ok, spec_parse_header, BitmapIdentifier, Header, HEADER_SIZE,
};
use crate::helpers::abs_of_i32;
use crate::info::{
    spec_info_bytes, spec_info_ok, spec_info_unsupported, spec_parse_info, InformationHeader,
};

verus! {

broadcast use vstd::slice::group_slice_axioms;

/// The combined size of the file header and the information header; a
/// freshly constructed image stores its pixel data right after them.
pub const HEADERS_SIZE: usize = 54;

/// The number of zero bytes appended to each stored pixel row so that the
/// row occupies a multiple of 4 bytes.  `pixel_count` and `height` are the
/// values the padding is recomputed from every time.
pub open spec fn spec_padding_per_row(pixel_count: int, height: int) -> int
    recommends
        height > 0,
{
    let bytes_per_row = (3 * pixel_count) / height;
    if bytes_per_row % 4 == 0 {
        0
    } else {
        4 - bytes_per_row % 4
    }
}

/// The total byte length of the padded pixel payload.
pub open spec fn spec_padded_bytes_per_image(pixel_count: int, height: int) -> int
    recommends
        height > 0,
{
    ((3 * pixel_count) / height + spec_padding_per_row(pixel_count, height)) * height
}

/// The padded payload length, extended to the degenerate zero-height image
/// (which stores no rows at all).
pub open spec fn spec_padded_size(pixel_count: int, height: int) -> int {
    if height == 0 {
        0
    } else {
        spec_padded_bytes_per_image(pixel_count, height)
    }
}

/// The unsigned width stored in a bitmap file's information header.
pub open spec fn spec_file_width(bytes: Seq<u8>) -> int {
    abs(crate::info::spec_info_width(bytes.subrange(14, 54)) as int) as int
}

/// The unsigned height stored in a bitmap file's information header.
pub open spec fn spec_file_height(bytes: Seq<u8>) -> int {
    abs(crate::info::spec_info_height(bytes.subrange(14, 54)) as int) as int
}

/// The number of pixels a bitmap file declares.
pub open spec fn spec_file_pixel_count(bytes: Seq<u8>) -> int {
    spec_file_width(bytes) * spec_file_height(bytes)
}

/// The byte length of one stored row of a bitmap file, padding included.
pub open spec fn spec_file_row_size(bytes: Seq<u8>) -> int {
    3 * spec_file_width(bytes) + spec_padding_per_row(
        spec_file_pixel_count(bytes),
        spec_file_height(bytes),
    )
}

/// The number of bytes a bitmap file must hold so that every declared
/// pixel row can be read starting at the declared pixel data offset.
pub open spec fn spec_file_needed(bytes: Seq<u8>) -> int {
    spec_parse_header(bytes).offset + spec_padded_size(
        spec_file_pixel_count(bytes),
        spec_file_height(bytes),
    )
}

/// Whether a byte buffer decodes to an image: both headers are present and
/// valid, the format variant is the supported one, the declared dimensions
/// fit the codec's 32-bit size arithmetic, and the buffer holds every
/// declared pixel row.
pub open spec fn spec_can_decode(bytes: Seq<u8>) -> bool {
    &&& bytes.len() >= 54
    &&& spec_magic_ok(bytes)
    &&& spec_info_ok(bytes.subrange(14, 54))
    &&& 54 + 3 * spec_file_pixel_count(bytes) + 3 * spec_file_height(bytes) <= u32::MAX
    &&& spec_file_needed(bytes) <= bytes.len()
}

/// Whether a byte buffer is a structurally valid bitmap file whose bit
/// depth this codec does not implement.
pub open spec fn spec_decode_unsupported(bytes: Seq<u8>) -> bool {
    &&& bytes.len() >= 54
    &&& spec_magic_ok(bytes)
    &&& spec_info_unsupported(bytes.subrange(14, 54))
}

/// The pixel stored at row-major position `k` of a bitmap file's payload.
/// Row `k / width` of the file is read from the declared offset in strides
/// of the padded row size, and the pixel's 3 bytes sit `3 * (k % width)`
/// bytes into that row.
pub open spec fn spec_file_pixel(bytes: Seq<u8>, k: int) -> Pixel24Bit
    recommends
        0 <= k < spec_file_pixel_count(bytes),
{
    let base = spec_parse_header(bytes).offset + (k / spec_file_width(bytes))
        * spec_file_row_size(bytes) + 3 * (k % spec_file_width(bytes));
    Pixel24Bit { red: bytes[base], green: bytes[base + 1], blue: bytes[base + 2] }
}

/// The full pixel sequence stored in a bitmap file's payload, row-major.
pub open spec fn spec_file_pixels(bytes: Seq<u8>) -> Seq<Pixel24Bit> {
    Seq::new(spec_file_pixel_count(bytes) as nat, |k: int| spec_file_pixel(bytes, k))
}

/// For a pixel grid of exactly `width * height` pixels, the row length
/// that the padding algorithm recovers by dividing the image bytes by the
/// height is exactly 3 bytes per pixel of one row.
pub proof fn lemma_row_bytes(width: int, height: int)
    requires
        width >= 0,
        height > 0,
    ensures
        (3 * (width * height)) / height == 3 * width,
        spec_padded_bytes_per_image(width * height, height) == (3 * width + spec_padding_per_row(
            width * height,
            height,
        )) * height,
{
    assert(3 * (width * height) == height * (3 * width)) by (nonlinear_arith);
    lemma_div_multiples_vanish(3 * width, height);
}

/// Unfolds the payload byte stored at offset `j` of row `row`: a pixel
/// channel inside the first `3 * width` bytes of the row, a zero padding
/// byte after them.
proof fn lemma_payload_byte_unfold(b: Bitmap, row: int, j: int)
    requires
        0 <= row,
        0 <= j < b.spec_row_size(),
    ensures
        b.spec_payload_byte(54 + row * b.spec_row_size() + j) == ({
            let w = b.spec_width();
            if j < 3 * w {
                let p = b.pixels@[row * w + j / 3];
                if j % 3 == 0 {
                    p.red
                } else if j % 3 == 1 {
                    p.green
                } else {
                    p.blue
                }
            } else {
                0u8
            }
        }),
{
    let rs = b.spec_row_size();
    lemma_fundamental_div_mod_converse(row * rs + j, rs, row, j);
}

/// Size law: an image whose stored total-size field holds the combined
/// header size plus the padded payload size — as every image built by
/// [`Bitmap::new_from_pixels`] does — declares exactly the length of its
/// own encoding.
pub proof fn lemma_size_field_matches_encoding(b: Bitmap)
    requires
        b.valid(),
        b.header.size == 54 + spec_padded_size(b.spec_pixel_count(), b.spec_height()),
    ensures
        b.header.size == b.spec_total_size(),
{
    if b.spec_height() > 0 {
        lemma_row_bytes(b.spec_width(), b.spec_height());
    }
}

/// Round-trip law: the encoded form of any structurally valid image whose
/// pixel data starts right after the two headers decodes successfully, and
/// decoding it recovers the same file header, the same information header
/// and the identical pixel sequence.
///
/// Together with the contracts of [`Bitmap::to_bytes`] (which returns
/// exactly `spec_encode`) and [`Bitmap::new_from_bytes`] (whose result is
/// pinned by `spec_parse_header`, `spec_parse_info` and
/// `spec_file_pixels`), this says that decode inverts encode.
pub proof fn lemma_encode_decode_roundtrip(b: Bitmap)
    requires
        b.valid(),
        b.header.offset == 54,
    ensures
        spec_can_decode(b.spec_encode()),
        spec_parse_header(b.spec_encode()) == b.header,
        spec_parse_info(b.spec_encode().subrange(14, 54)) == b.information_header,
        spec_file_pixels(b.spec_encode()) == b.pixels@,
{
    let enc = b.spec_encode();
    let w = b.spec_width();
    let h = b.spec_height();
    let rs = b.spec_row_size();
    let pc = b.spec_pixel_count();

    crate::header::lemma_header_roundtrip(b.header);
    crate::info::lemma_info_roundtrip(b.information_header);

    // The encoded buffer is at least as long as the two headers.
    assert(pc >= 0 && (h > 0 ==> rs >= 0 && rs * h >= 0 && 3 * w <= rs)) by {
        assert(w * h >= 0) by (nonlinear_arith)
            requires
                w >= 0,
                h >= 0,
        ;
        if h > 0 {
            let bpr = (3 * pc) / h;
            lemma_row_bytes(w, h);
            assert(rs * h >= 0) by (nonlinear_arith)
                requires
                    rs >= 0,
                    h >= 0,
            ;
        }
    }
    assert(enc.len() == b.spec_total_size());
    assert(enc.len() >= 54);

    // The first 14 bytes are exactly the serialized file header.
    assert(enc.subrange(0, 14) =~= spec_header_bytes(b.header));
    assert(enc.subrange(2, 6) =~= spec_header_bytes(b.header).subrange(2, 6));
    assert(enc.subrange(6, 8) =~= spec_header_bytes(b.header).subrange(6, 8));
    assert(enc.subrange(8, 10) =~= spec_header_bytes(b.header).subrange(8, 10));
    assert(enc.subrange(10, 14) =~= spec_header_bytes(b.header).subrange(10, 14));
    assert(spec_magic_ok(enc));
    assert(spec_parse_header(enc) == b.header);

    // The next 40 bytes are exactly the serialized information header.
    assert(enc.subrange(14, 54) =~= spec_info_bytes(b.information_header));
    assert(spec_info_ok(enc.subrange(14, 54)));
    assert(spec_parse_info(enc.subrange(14, 54)) == b.information_header);
    assert(spec_file_width(enc) == w);
    assert(spec_file_height(enc) == h);
    assert(spec_file_pixel_count(enc) == pc);

    // The buffer holds every declared pixel row and nothing less.
    if h > 0 {
        lemma_row_bytes(w, h);
        assert(spec_file_row_size(enc) == rs);
        assert(h * rs == rs * h) by (nonlinear_arith);
        assert(spec_file_needed(enc) == enc.len());
    } else {
        assert(spec_file_needed(enc) == 54);
    }
    assert(spec_can_decode(enc));

    // Every pixel read back from the payload is the pixel that was
    // serialized into it.
    assert forall|k: int| 0 <= k < pc implies spec_file_pixel(enc, k) == b.pixels@[k] by {
        assert(w > 0 && h > 0) by {
            if w == 0 || h == 0 {
                assert(pc == 0) by (nonlinear_arith)
                    requires
                        pc == w * h,
                        w == 0 || h == 0,
                ;
            }
        }
        lemma_fundamental_div_mod(k, w);
        lemma_mod_bound(k, w);
        lemma_multiply_divide_lt(k, w, h);
        let yy = k / w;
        let xx = k % w;
        assert(yy * w == w * yy) by (nonlinear_arith);
        assert(yy * w + xx == k);
        assert(yy * rs >= 0) by (nonlinear_arith)
            requires
                yy >= 0,
                rs >= 0,
        ;
        assert((yy + 1) * rs == yy * rs + rs) by (nonlinear_arith);
        assert((yy + 1) * rs <= h * rs) by (nonlinear_arith)
            requires
                yy + 1 <= h,
                rs >= 0,
        ;
        assert(h * rs == rs * h) by (nonlinear_arith);
        let base = 54 + yy * rs + 3 * xx;
        lemma_payload_byte_unfold(b, yy, 3 * xx);
        lemma_payload_byte_unfold(b, yy, 3 * xx + 1);
        lemma_payload_byte_unfold(b, yy, 3 * xx + 2);
        lemma_fundamental_div_mod_converse(3 * xx, 3, xx, 0);
        lemma_fundamental_div_mod_converse(3 * xx + 1, 3, xx, 1);
        lemma_fundamental_div_mod_converse(3 * xx + 2, 3, xx, 2);
        assert(enc[base] == b.spec_payload_byte(base));
        assert(enc[base + 1] == b.spec_payload_byte(base + 1));
        assert(enc[base + 2] == b.spec_payload_byte(base + 2));
    }
    assert(spec_file_pixels(enc) =~= b.pixels@);
}

/// Represents a bitmap image.
#[derive(Debug)]
pub struct Bitmap {
    pub header: Header,
    pub information_header: InformationHeader,
    pub pixels: Vec<Pixel24Bit>,
}

impl Bitmap {
    /// The width of the image in pixels: the unsigned magnitude of the
    /// signed stored field.
    pub open spec fn spec_width(&self) -> int {
        abs(self.information_header.width as int) as int
    }

    /// The height of the image in pixels: the unsigned magnitude of the
    /// signed stored field.
    pub open spec fn spec_height(&self) -> int {
        abs(self.information_header.height as int) as int
    }

    /// The number of pixels the image must hold.
    pub open spec fn spec_pixel_count(&self) -> int {
        self.spec_width() * self.spec_height()
    }

    /// Structural validity: the headers describe the one supported format
    /// variant, the pixel grid matches the stored dimensions, and the
    /// padded payload cannot overflow the 32-bit size field.
    pub open spec fn valid(&self) -> bool {
        &&& self.information_header.size == 40
        &&& self.information_header.bits_per_pixel == 24
        &&& self.information_header.color_plane_count == 1
        &&& self.pixels@.len() == self.spec_pixel_count()
        &&& 54 + 3 * self.spec_pixel_count() + 3 * self.spec_height() <= u32::MAX
    }

    /// The byte length of one stored pixel row, padding included.
    pub open spec fn spec_row_size(&self) -> int {
        3 * self.spec_width() + spec_padding_per_row(self.spec_pixel_count(), self.spec_height())
    }

    /// The byte length of the whole encoded file: both headers followed by
    /// the padded pixel payload.
    pub open spec fn spec_total_size(&self) -> int {
        54 + if self.spec_height() == 0 {
            0
        } else {
            self.spec_row_size() * self.spec_height()
        }
    }

    /// The byte stored at position `i` of the encoded pixel payload.
    pub open spec fn spec_payload_byte(&self, i: int) -> u8
        recommends
            54 <= i < self.spec_total_size(),
    {
        let rs = self.spec_row_size();
        let w = self.spec_width();
        let rel = i - 54;
        let row = rel / rs;
        let j = rel % rs;
        if j < 3 * w {
            let p = self.pixels@[row * w + j / 3];
            if j % 3 == 0 {
                p.red
            } else if j % 3 == 1 {
                p.green
            } else {
                p.blue
            }
        } else {
            0
        }
    }

    /// The byte stored at position `i` of the encoded file.
    pub open spec fn spec_encoded_byte(&self, i: int) -> u8
        recommends
            0 <= i < self.spec_total_size(),
    {
        if i < 14 {
            spec_header_bytes(self.header)[i]
        } else if i < 54 {
            spec_info_bytes(self.information_header)[i - 14]
        } else {
            self.spec_payload_byte(i)
        }
    }

    /// The exact byte-for-byte encoding of this image.
    pub open spec fn spec_encode(&self) -> Seq<u8> {
        Seq::new(self.spec_total_size() as nat, |i: int| self.spec_encoded_byte(i))
    }

    /// Recompute the row padding from the live pixel count and height.
    ///
    /// Returns the number of padding bytes per row and the total padded
    /// payload length.
    fn compute_padding(pixel_count: u32, unsigned_abs_height: u32) -> (r: (u32, u32))
        requires
            unsigned_abs_height > 0,
            3 * pixel_count + 3 * unsigned_abs_height <= u32::MAX,
        ensures
            r.0 == spec_padding_per_row(pixel_count as int, unsigned_abs_height as int),
            r.1 == spec_padded_bytes_per_image(pixel_count as int, unsigned_abs_height as int),
            r.0 <= 3,
            r.1 <= 3 * pixel_count + 3 * unsigned_abs_height,
    {
        // Each row must begin at a memory address that is a multiple of four.
        let bits = Pixel24Bit::bits_per_pixel() as u32;
        let bytes_per_pixel = (bits + 7) / 8;
        let bytes_per_image = pixel_count * bytes_per_pixel;
        proof {
            let bpi = bytes_per_image as int;
            let h = unsigned_abs_height as int;
            lemma_fundamental_div_mod(bpi, h);
            lemma_mod_bound(bpi, h);
            assert(bpi / h >= 0 && h * (bpi / h) <= bpi ==> bpi / h <= bpi) by (nonlinear_arith)
                requires
                    h >= 1,
            ;
            assert(bpi / h >= 0);
        }
        let bytes_per_row = bytes_per_image / unsigned_abs_height;

        // The padding is the amount needed to ensure the number of bytes per
        // row is divisible by 4.
        let row_remainder = bytes_per_row % 4;
        let padding_bytes_per_row = if row_remainder != 0 {
            4 - row_remainder
        } else {
            0
        };

        proof {
            let bpi = bytes_per_image as int;
            let h = unsigned_abs_height as int;
            let q = bpi / h;
            let pad = padding_bytes_per_row as int;
            lemma_fundamental_div_mod(bpi, h);
            lemma_mod_bound(bpi, h);
            assert((q + pad) * h <= bpi + 3 * h) by (nonlinear_arith)
                requires
                    h >= 1,
                    q >= 0,
                    0 <= pad <= 3,
                    h * q <= bpi,
            ;
            assert((q + pad) * h >= 0) by (nonlinear_arith)
                requires
                    h >= 1,
                    q >= 0,
                    pad >= 0,
            ;
        }

        // Re-compute the row and image with the padding applied.
        let bytes_per_padded_row = bytes_per_row + padding_bytes_per_row;
        let bytes_per_padded_image = bytes_per_padded_row * unsigned_abs_height;
        (padding_bytes_per_row, bytes_per_padded_image)
    }

    /// Construct a new [`Bitmap`] from the given dimensions and pixel array.
    ///
    /// The pixels are row-major; a positive height means the rows are
    /// interpreted bottom-to-top by renderers, a negative height
    /// top-to-bottom.  Fails with `IllegalParameter` if and only if the
    /// pixel count does not equal `|width| * |height|`.
    pub fn new_from_pixels(width: i32, height: i32, pixels: Vec<Pixel24Bit>) -> (r: Result<
        Self,
        Error,
    >)
        requires
            54 + 3 * (abs(width as int) * abs(height as int)) + 3 * abs(height as int)
                <= u32::MAX,
        ensures
            r is Ok <==> pixels@.len() == abs(width as int) * abs(height as int),
            r is Err ==> (r matches Err(Error::IllegalParameter(_))),
            r matches Ok(b) ==> {
                &&& b.valid()
                &&& b.pixels@ == pixels@
                &&& b.information_header == InformationHeader {
                    size: 40,
                    width,
                    height,
                    color_plane_count: 1,
                    bits_per_pixel: 24,
                    compression_method: crate::info::CompressionMethod::BiRgb,
                    raw_image_size: 0,
                    horizontal_resolution: 2835,
                    vertical_resolution: 2835,
                    color_palette_count: 0,
                    important_color_count: 0,
                }
                &&& b.header == Header {
                    identifier: BitmapIdentifier::BM,
                    size: (54 + spec_padded_size(pixels@.len() as int, abs(height as int) as int))
                        as u32,
                    reserved_1: 0,
                    reserved_2: 0,
                    offset: 54,
                }
            },
    {
        let unsigned_abs_width = abs_of_i32(width);
        let unsigned_abs_height = abs_of_i32(height);
        proof {
            lemma_mul_upper_bound(
                unsigned_abs_width as int,
                u32::MAX as int,
                unsigned_abs_height as int,
                u32::MAX as int,
            );
        }
        let pixel_count: u64 = unsigned_abs_width as u64 * unsigned_abs_height as u64;
        if pixels.len() as u64 != pixel_count {
            return Err(Error::IllegalParameter("pixel length is not equal to width * height"));
        }

        let information_header = InformationHeader::new(width, height);
        let headers_size: u32 = (HEADER_SIZE as u32) + information_header.size;

        let padded_bytes_per_image: u32 = if unsigned_abs_height == 0 {
            0
        } else {
            Self::compute_padding(pixels.len() as u32, unsigned_abs_height).1
        };

        Ok(Self {
            header: Header::new(headers_size + padded_bytes_per_image, headers_size),
            information_header,
            pixels,
        })
    }

    /// Construct a new [`Bitmap`] from the given bitmap file bytes.
    ///
    /// Succeeds if and only if both headers are present and valid, the
    /// format variant is supported, the declared dimensions fit the 32-bit
    /// size arithmetic, and the buffer holds every declared pixel row.
    /// A structurally valid file with an unsupported bit depth fails with
    /// `Unsupported`; every other rejection is an `IllegalParameter`.
    pub fn new_from_bytes(bytes: Vec<u8>) -> (r: Result<Bitmap, Error>)
        ensures
            spec_can_decode(bytes@) <==> r is Ok,
            r matches Ok(b) ==> {
                &&& b.valid()
                &&& b.header == spec_parse_header(bytes@)
                &&& b.information_header == spec_parse_info(bytes@.subrange(14, 54))
                &&& b.pixels@ == spec_file_pixels(bytes@)
            },
            (r matches Err(Error::Unsupported(_))) <==> spec_decode_unsupported(bytes@),
            !(spec_can_decode(bytes@) || spec_decode_unsupported(bytes@)) <==> (r matches Err(
                Error::IllegalParameter(_),
            )),
    {
        if bytes.len() < HEADERS_SIZE {
            return Err(Error::IllegalParameter("buffer too short for a bitmap file"));
        }
        let header = match Header::new_from_bytes(bytes.as_slice()) {
            Ok(h) => h,
            Err(e) => {
                return Err(e);
            },
        };
        let information_header = match InformationHeader::new_from_bytes(
            slice_subrange(bytes.as_slice(), HEADER_SIZE, HEADERS_SIZE),
        ) {
            Ok(h) => h,
            Err(e) => {
                return Err(e);
            },
        };

        let bytes_per_pixel: u32 = ((information_header.bits_per_pixel as u32) + 7) / 8;
        proof {
            assert(information_header.bits_per_pixel == 24);
            assert(bytes_per_pixel == 3);
        }
        let unsigned_abs_width = abs_of_i32(information_header.width);
        let unsigned_abs_height = abs_of_i32(information_header.height);
        proof {
            lemma_mul_upper_bound(
                unsigned_abs_width as int,
                0x8000_0000,
                unsigned_abs_height as int,
                0x8000_0000,
            );
        }
        let pixel_count: u64 = unsigned_abs_width as u64 * unsigned_abs_height as u64;

        if 54 + 3 * pixel_count + 3 * (unsigned_abs_height as u64) > 0xFFFF_FFFFu64 {
            return Err(Error::IllegalParameter("bitmap dimensions are too large"));
        }

        let (padding_bytes_per_row, padded_bytes_per_image) = if unsigned_abs_height == 0 {
            (0u32, 0u32)
        } else {
            Self::compute_padding(pixel_count as u32, unsigned_abs_height)
        };

        let needed: u64 = header.offset as u64 + if unsigned_abs_height == 0 {
            0
        } else {
            padded_bytes_per_image as u64
        };
        if needed > bytes.len() as u64 {
            return Err(Error::IllegalParameter("buffer too short for the bitmap pixel data"));
        }

        let mut pixels: Vec<Pixel24Bit> = Vec::new();
        let mut has_bad_pixel = false;
        let offset = header.offset;

        if unsigned_abs_height > 0 {
            proof {
                lemma_row_bytes(unsigned_abs_width as int, unsigned_abs_height as int);
            }
            proof {
                assert((unsigned_abs_width as int) * (bytes_per_pixel as int) == 3 * (
                unsigned_abs_width as int)) by (nonlinear_arith)
                    requires
                        bytes_per_pixel == 3,
                ;
            }
            let bytes_per_row: u64 = unsigned_abs_width as u64 * bytes_per_pixel as u64;
            let bytes_per_padded_row: u64 = bytes_per_row + padding_bytes_per_row as u64;
            proof {
                let h = spec_file_height(bytes@);
                let rs = spec_file_row_size(bytes@);
                assert(h * rs == rs * h) by (nonlinear_arith);
            }

            let mut y: u32 = 0;
            while y < unsigned_abs_height
                invariant
                    y <= unsigned_abs_height,
                    unsigned_abs_height > 0,
                    unsigned_abs_width == spec_file_width(bytes@),
                    unsigned_abs_height == spec_file_height(bytes@),
                    bytes_per_padded_row == spec_file_row_size(bytes@),
                    bytes_per_padded_row <= u32::MAX,
                    offset == spec_parse_header(bytes@).offset,
                    offset + spec_file_height(bytes@) * spec_file_row_size(bytes@) <= bytes@.len(),
                    bytes@.len() <= usize::MAX,
                    pixels@.len() == y * spec_file_width(bytes@),
                    forall|k: int|
                        0 <= k < pixels@.len() ==> pixels@[k] == spec_file_pixel(bytes@, k),
                    has_bad_pixel == false,
                decreases unsigned_abs_height - y,
            {
                let mut x: u32 = 0;
                while x < unsigned_abs_width
                    invariant
                        x <= unsigned_abs_width,
                        y < unsigned_abs_height,
                        unsigned_abs_width == spec_file_width(bytes@),
                        unsigned_abs_height == spec_file_height(bytes@),
                        bytes_per_padded_row == spec_file_row_size(bytes@),
                        bytes_per_padded_row <= u32::MAX,
                        offset == spec_parse_header(bytes@).offset,
                        offset + spec_file_height(bytes@) * spec_file_row_size(bytes@)
                            <= bytes@.len(),
                        bytes@.len() <= usize::MAX,
                        pixels@.len() == y * spec_file_width(bytes@) + x,
                        forall|k: int|
                            0 <= k < pixels@.len() ==> pixels@[k] == spec_file_pixel(bytes@, k),
                        has_bad_pixel == false,
                    decreases unsigned_abs_width - x,
                {
                    let ghost w = spec_file_width(bytes@);
                    let ghost h = spec_file_height(bytes@);
                    let ghost rs = spec_file_row_size(bytes@);
                    proof {
                        assert(((y as int) + 1) * rs == (y as int) * rs + rs) by (nonlinear_arith);
                        assert(((y as int) + 1) * rs <= h * rs) by (nonlinear_arith)
                            requires
                                (y as int) + 1 <= h,
                                rs >= 0,
                        ;
                        assert((y as int) * rs >= 0) by (nonlinear_arith)
                            requires
                                y as int >= 0,
                                rs >= 0,
                        ;
                        assert((y as int) * rs <= h * rs) by (nonlinear_arith)
                            requires
                                0 <= y as int <= h,
                                rs >= 0,
                        ;
                        lemma_fundamental_div_mod_converse(
                            (y as int) * w + (x as int),
                            w,
                            y as int,
                            x as int,
                        );
                    }
                    let base: u64 = offset as u64 + y as u64 * bytes_per_padded_row + 3 * (
                    x as u64);
                    let pixel_slice = slice_subrange(
                        bytes.as_slice(),
                        base as usize,
                        base as usize + 3,
                    );
                    match Pixel24Bit::new_from_bytes(pixel_slice) {
                        Ok(p) => pixels.push(p),
                        Err(_) => {
                            has_bad_pixel = true;
                        },
                    }
                    x += 1;
                }
                proof {
                    let w = spec_file_width(bytes@);
                    assert(((y as int) + 1) * w == (y as int) * w + w) by (nonlinear_arith);
                }
                y += 1;
            }
        }

        if has_bad_pixel {
            return Err(Error::IllegalParameter("bad pixel data"));
        }

        proof {
            assert((unsigned_abs_height as int) * (unsigned_abs_width as int) == (
            unsigned_abs_width as int) * (unsigned_abs_height as int)) by (nonlinear_arith);
            assert(pixels@ =~= spec_file_pixels(bytes@));
        }
        Ok(Bitmap { header, information_header, pixels })
    }

    /// Get the width of the image, in pixels.
    pub fn get_width(&self) -> (r: u32)
        ensures
            r == self.spec_width(),
    {
        abs_of_i32(self.get_raw_width())
    }

    /// Get the height of the image, in pixels.
    pub fn get_height(&self) -> (r: u32)
        ensures
            r == self.spec_height(),
    {
        abs_of_i32(self.get_raw_height())
    }

    /// Get the raw signed width of the image.
    pub fn get_raw_width(&self) -> (r: i32)
        ensures
            r == self.information_header.width,
    {
        self.information_header.width
    }

    /// Get the raw signed height of the image.
    ///
    /// Positive means the image is drawn bottom-to-top, negative means the
    /// image is drawn top-to-bottom.
    pub fn get_raw_height(&self) -> (r: i32)
        ensures
            r == self.information_header.height,
    {
        self.information_header.height
    }

    /// Get the pixel at the given coordinates, or no value if the
    /// coordinate is out of bounds.
    pub fn get_pixel_at(&self, x: u32, y: u32) -> (r: Option<Pixel24Bit>)
        requires
            self.valid(),
        ensures
            r is Some <==> (x < self.spec_width() && y < self.spec_height()),
            r matches Some(p) ==> p == self.pixels@[y * self.spec_width() + x],
    {
        let width = self.get_width();
        let height = self.get_height();

        // Return none if the given coordinate is out-of-bounds.
        if x >= width || y >= height {
            return None;
        }

        proof {
            assert((y as int) * (width as int) + (x as int) < (height as int) * (width as int))
                by (nonlinear_arith)
                requires
                    x < width,
                    y < height,
            ;
            assert((width as int) * (height as int) == (height as int) * (width as int))
                by (nonlinear_arith);
        }
        let index: u64 = y as u64 * width as u64 + x as u64;
        Some(self.pixels[index as usize])
    }

    /// Find the location of the pixel in this bitmap closest to `other`
    /// under the Euclidean RGB distance.
    ///
    /// Every pixel is scanned in row-major order and the minimum distance
    /// seen so far is tracked with a strict less-than comparison, so a tie
    /// keeps the first-encountered location.  Returns no value only if the
    /// image holds zero pixels.
    pub fn find_pixel_by_closest_match(&self, other: &Pixel24Bit) -> (r: Option<(u32, u32)>)
        requires
            self.valid(),
        ensures
            r is None <==> self.pixels@.len() == 0,
            r matches Some(loc) ==> {
                &&& loc.0 < self.spec_width()
                &&& loc.1 < self.spec_height()
                &&& loc.1 * self.spec_width() + loc.0 < self.pixels@.len()
                &&& forall|j: int|
                    0 <= j < self.pixels@.len() ==> spec_distance_squared(
                        #[trigger] self.pixels@[j],
                        *other,
                    ) >= spec_distance_squared(
                        self.pixels@[loc.1 * self.spec_width() + loc.0],
                        *other,
                    )
                &&& forall|j: int|
                    0 <= j < loc.1 * self.spec_width() + loc.0 ==> spec_distance_squared(
                        #[trigger] self.pixels@[j],
                        *other,
                    ) > spec_distance_squared(
                        self.pixels@[loc.1 * self.spec_width() + loc.0],
                        *other,
                    )
            },
    {
        let width = self.get_width();
        let len = self.pixels.len();
        if len == 0 {
            return None;
        }
        // A non-empty pixel grid forces a non-zero width, since the grid
        // holds exactly width * height pixels.
        proof {
            if width == 0 {
                assert(self.spec_pixel_count() == 0) by (nonlinear_arith)
                    requires
                        self.spec_width() == 0,
                        self.spec_pixel_count() == self.spec_width() * self.spec_height(),
                ;
            }
        }

        let mut best_match_difference: u32 = self.pixels[0].distance_squared(other);
        let mut best_match_index: usize = 0;
        let mut i: usize = 1;
        while i < len
            invariant
                self.valid(),
                1 <= i <= len,
                len == self.pixels@.len(),
                best_match_index < i,
                best_match_difference == spec_distance_squared(
                    self.pixels@[best_match_index as int],
                    *other,
                ),
                forall|j: int|
                    0 <= j < i ==> spec_distance_squared(#[trigger] self.pixels@[j], *other)
                        >= best_match_difference,
                forall|j: int|
                    0 <= j < best_match_index ==> spec_distance_squared(
                        #[trigger] self.pixels@[j],
                        *other,
                    ) > best_match_difference,
            decreases len - i,
        {
            let new_difference = self.pixels[i].distance_squared(other);
            if new_difference < best_match_difference {
                best_match_difference = new_difference;
                best_match_index = i;
            }
            i += 1;
        }

        proof {
            let w = width as int;
            let bi = best_match_index as int;
            lemma_fundamental_div_mod(bi, w);
            lemma_mod_bound(bi, w);
            lemma_multiply_divide_lt(bi, w, self.spec_height());
            assert(w * self.spec_height() == self.spec_height() * w) by (nonlinear_arith);
            assert((bi / w) * w == w * (bi / w)) by (nonlinear_arith);
        }
        let x = (best_match_index % width as usize) as u32;
        let y = (best_match_index / width as usize) as u32;
        Some((x, y))
    }

    /// Serialize the image into its exact byte form: the file header, the
    /// information header, then each pixel row followed by its zero
    /// padding, rows in the same row-major order used by decode and by
    /// [`Bitmap::get_pixel_at`].
    pub fn to_bytes(&self) -> (r: Vec<u8>)
        requires
            self.valid(),
        ensures
            r@ == self.spec_encode(),
            r@.len() == self.spec_total_size(),
    {
        proof {
            crate::header::lemma_header_roundtrip(self.header);
            crate::info::lemma_info_roundtrip(self.information_header);
        }
        let mut bytes: Vec<u8> = Vec::new();

        // Apply the headers.
        let header_bytes = self.header.to_bytes();
        let mut i: usize = 0;
        while i < 14
            invariant
                i <= 14,
                bytes@.len() == i,
                header_bytes@ == spec_header_bytes(self.header),
                header_bytes@.len() == 14,
                forall|k: int| 0 <= k < i ==> bytes@[k] == spec_header_bytes(self.header)[k],
            decreases 14 - i,
        {
            bytes.push(header_bytes[i]);
            i += 1;
        }
        let mut information_header_bytes = self.information_header.to_bytes();
        bytes.append(&mut information_header_bytes);

        assert(forall|k: int| 0 <= k < 54 ==> bytes@[k] == self.spec_encoded_byte(k));

        // Emit the padded pixel payload, one row of pixels at a time.
        let unsigned_abs_width = self.get_width();
        let unsigned_abs_height = self.get_height();
        if unsigned_abs_height > 0 {
            proof {
                assert(self.spec_width() <= self.spec_width() * self.spec_height())
                    by (nonlinear_arith)
                    requires
                        self.spec_width() >= 0,
                        self.spec_height() >= 1,
                ;
            }
            let (padding_per_row, _) = Self::compute_padding(
                self.pixels.len() as u32,
                unsigned_abs_height,
            );
            let row_size: u32 = 3 * unsigned_abs_width + padding_per_row;

            let mut y: u32 = 0;
            while y < unsigned_abs_height
                invariant
                    self.valid(),
                    y <= unsigned_abs_height,
                    unsigned_abs_width == self.spec_width(),
                    unsigned_abs_height == self.spec_height(),
                    unsigned_abs_height > 0,
                    row_size == self.spec_row_size(),
                    padding_per_row == spec_padding_per_row(
                        self.spec_pixel_count(),
                        self.spec_height(),
                    ),
                    padding_per_row <= 3,
                    bytes@.len() == 54 + y * self.spec_row_size(),
                    bytes@.len() <= 54 + self.spec_height() * self.spec_row_size(),
                    forall|k: int| 0 <= k < bytes@.len() ==> bytes@[k] == self.spec_encoded_byte(k),
                decreases unsigned_abs_height - y,
            {
                let ghost row_start = bytes@.len() as int;
                let mut x: u32 = 0;
                while x < unsigned_abs_width
                    invariant
                        self.valid(),
                        y < unsigned_abs_height,
                        x <= unsigned_abs_width,
                        unsigned_abs_width == self.spec_width(),
                        unsigned_abs_height == self.spec_height(),
                        row_size == self.spec_row_size(),
                        bytes@.len() == 54 + y * self.spec_row_size() + 3 * x,
                        forall|k: int|
                            0 <= k < bytes@.len() ==> bytes@[k] == self.spec_encoded_byte(k),
                    decreases unsigned_abs_width - x,
                {
                    proof {
                        assert((y as int) * (unsigned_abs_width as int) + (x as int) < (
                        unsigned_abs_height as int) * (unsigned_abs_width as int))
                            by (nonlinear_arith)
                            requires
                                x < unsigned_abs_width,
                                y < unsigned_abs_height,
                        ;
                        assert((unsigned_abs_width as int) * (unsigned_abs_height as int) == (
                        unsigned_abs_height as int) * (unsigned_abs_width as int))
                            by (nonlinear_arith);
                    }
                    let index: u64 = y as u64 * unsigned_abs_width as u64 + x as u64;
                    let p = self.pixels[index as usize];
                    proof {
                        let w = self.spec_width();
                        let j = 3 * (x as int);
                        lemma_payload_byte_unfold(*self, y as int, j);
                        lemma_payload_byte_unfold(*self, y as int, j + 1);
                        lemma_payload_byte_unfold(*self, y as int, j + 2);
                        lemma_fundamental_div_mod_converse(j, 3, x as int, 0);
                        lemma_fundamental_div_mod_converse(j + 1, 3, x as int, 1);
                        lemma_fundamental_div_mod_converse(j + 2, 3, x as int, 2);
                    }
                    bytes.push(p.red);
                    bytes.push(p.green);
                    bytes.push(p.blue);
                    x += 1;
                }

                let mut pad_i: u32 = 0;
                while pad_i < padding_per_row
                    invariant
                        self.valid(),
                        y < unsigned_abs_height,
                        pad_i <= padding_per_row,
                        unsigned_abs_width == self.spec_width(),
                        unsigned_abs_height == self.spec_height(),
                        row_size == self.spec_row_size(),
                        padding_per_row == spec_padding_per_row(
                            self.spec_pixel_count(),
                            self.spec_height(),
                        ),
                        bytes@.len() == 54 + y * self.spec_row_size() + 3 * self.spec_width()
                            + pad_i,
                        forall|k: int|
                            0 <= k < bytes@.len() ==> bytes@[k] == self.spec_encoded_byte(k),
                    decreases padding_per_row - pad_i,
                {
                    proof {
                        lemma_payload_byte_unfold(
                            *self,
                            y as int,
                            3 * self.spec_width() + pad_i as int,
                        );
                    }
                    bytes.push(0u8);
                    pad_i += 1;
                }

                proof {
                    assert(((y as int) + 1) * self.spec_row_size() == (y as int)
                        * self.spec_row_size() + self.spec_row_size()) by (nonlinear_arith);
                    assert(((y as int) + 1) * self.spec_row_size() <= self.spec_height()
                        * self.spec_row_size()) by (nonlinear_arith)
                        requires
                            (y as int) + 1 <= self.spec_height(),
                            self.spec_row_size() >= 0,
                    ;
                }
                y += 1;
            }
        }

        proof {
            assert(self.spec_height() * self.spec_row_size() == self.spec_row_size()
                * self.spec_height()) by (nonlinear_arith);
            assert(bytes@ =~= self.spec_encode());
        }
        bytes
    }
}

} // verus!
