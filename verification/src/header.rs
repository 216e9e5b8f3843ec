//! The 14-byte bitmap file header: the magic identifier, the total file
//! size, two reserved fields and the offset of the pixel data, all stored
//! little-endian.

use vstd::prelude::*;
use vstd::bytes::{
    lemma_auto_spec_u16_to_from_le_bytes, lemma_auto_spec_u32_to_from_le_bytes,
    spec_u16_from_le_bytes, spec_u16_to_le_bytes, spec_u32_from_le_bytes, spec_u32_to_le_bytes,
    u16_to_le_bytes, u32_to_le_bytes,
};
use crate::error::Error;
use crate::helpers::{read_u16_le, read_u32_le};

verus! {

broadcast use vstd::slice::group_slice_axioms;

/// The size of the file header in bytes.
pub const HEADER_SIZE: usize = 14;

/// The set of supported bitmap type identifiers.
#[derive(Clone, Copy, Debug, PartialEq, Eq, Structural)]
pub enum BitmapIdentifier {
    /// Windows 3.x, 95, NT, etc.
    BM,
}

/// Whether the first two bytes of `bytes` are the magic that identifies a
/// supported bitmap file.
pub open spec fn spec_magic_ok(bytes: Seq<u8>) -> bool {
    bytes[0] == 0x42 && bytes[1] == 0x4D
}

impl BitmapIdentifier {
    /// Recognize the two magic bytes of a supported bitmap file.
    pub fn from_bytes(bytes: [u8; 2]) -> (r: Result<Self, Error>)
        ensures
            spec_magic_ok(bytes@) <==> r == Ok::<Self, Error>(BitmapIdentifier::BM),
            !spec_magic_ok(bytes@) <==> (r matches Err(Error::IllegalParameter(_))),
    {
        if bytes[0] == 0x42 && bytes[1] == 0x4D {
            Ok(BitmapIdentifier::BM)
        } else {
            Err(Error::IllegalParameter("unsupported bitmap identifier"))
        }
    }

    /// The two magic bytes of this identifier.
    pub fn to_bytes(&self) -> (r: [u8; 2])
        ensures
            r@ == seq![0x42u8, 0x4Du8],
            spec_magic_ok(r@),
    {
        let r = [0x42u8, 0x4Du8];
        proof {
            assert(r@ =~= seq![0x42u8, 0x4Du8]);
        }
        r
    }
}

/// The bitmap file header.
#[derive(Debug, PartialEq, Eq, Structural)]
pub struct Header {
    /// The identifier that indicates the type of BMP file.
    pub identifier: BitmapIdentifier,

    /// The size of the entire bitmap file, in bytes.
    pub size: u32,

    /// Reserved for application - set to 0.
    pub reserved_1: u16,

    /// Reserved for application - set to 0.
    pub reserved_2: u16,

    /// Starting address for the bitmap image data.
    pub offset: u32,
}

/// The exact 14-byte little-endian serialization of a file header.
pub open spec fn spec_header_bytes(h: Header) -> Seq<u8> {
    seq![0x42u8, 0x4Du8] + spec_u32_to_le_bytes(h.size) + spec_u16_to_le_bytes(h.reserved_1)
        + spec_u16_to_le_bytes(h.reserved_2) + spec_u32_to_le_bytes(h.offset)
}

/// The file header whose fields are stored at the start of `bytes`,
/// assuming the magic matched.
pub open spec fn spec_parse_header(bytes: Seq<u8>) -> Header {
    Header {
        identifier: BitmapIdentifier::BM,
        size: spec_u32_from_le_bytes(bytes.subrange(2, 6)),
        reserved_1: spec_u16_from_le_bytes(bytes.subrange(6, 8)),
        reserved_2: spec_u16_from_le_bytes(bytes.subrange(8, 10)),
        offset: spec_u32_from_le_bytes(bytes.subrange(10, 14)),
    }
}

impl Header {
    /// A fresh header for a file of `size` bytes whose pixel data starts at
    /// `offset`, with the reserved fields zeroed.
    pub fn new(size: u32, offset: u32) -> (r: Self)
        ensures
            r == (Header {
                identifier: BitmapIdentifier::BM,
                size,
                reserved_1: 0,
                reserved_2: 0,
                offset,
            }),
    {
        Self {
            identifier: BitmapIdentifier::BM,
            size,
            reserved_1: 0,
            reserved_2: 0,
            offset,
        }
    }

    /// Decode a file header from the first 14 bytes of `bytes`.
    ///
    /// Fails with `IllegalParameter` if the buffer is too short or the magic
    /// does not match.
    pub fn new_from_bytes(bytes: &[u8]) -> (r: Result<Self, Error>)
        ensures
            (bytes@.len() >= 14 && spec_magic_ok(bytes@)) <==> r == Ok::<Self, Error>(
                spec_parse_header(bytes@),
            ),
            !(bytes@.len() >= 14 && spec_magic_ok(bytes@)) <==> (r matches Err(
                Error::IllegalParameter(_),
            )),
    {
        if bytes.len() < HEADER_SIZE {
            return Err(Error::IllegalParameter("buffer too short for a bitmap file header"));
        }
        let identifier = match BitmapIdentifier::from_bytes([bytes[0], bytes[1]]) {
            Ok(id) => id,
            Err(e) => {
                return Err(e);
            },
        };
        let size = read_u32_le(bytes, 2);
        let reserved_1 = read_u16_le(bytes, 6);
        let reserved_2 = read_u16_le(bytes, 8);
        let offset = read_u32_le(bytes, 10);
        proof {
            assert(seq![bytes@[0], bytes@[1]][0] == bytes@[0]);
            assert(seq![bytes@[0], bytes@[1]][1] == bytes@[1]);
        }
        Ok(Self { identifier, size, reserved_1, reserved_2, offset })
    }

    /// Serialize the header into its exact 14-byte form.
    pub fn to_bytes(&self) -> (r: [u8; 14])
        ensures
            r@ == spec_header_bytes(*self),
    {
        proof {
            lemma_auto_spec_u16_to_from_le_bytes();
            lemma_auto_spec_u32_to_from_le_bytes();
        }
        let s = u32_to_le_bytes(self.size);
        let r1 = u16_to_le_bytes(self.reserved_1);
        let r2 = u16_to_le_bytes(self.reserved_2);
        let o = u32_to_le_bytes(self.offset);
        let r = [
            0x42u8, 0x4Du8, s[0], s[1], s[2], s[3], r1[0], r1[1], r2[0], r2[1], o[0], o[1], o[2],
            o[3],
        ];
        proof {
            assert(r@ =~= spec_header_bytes(*self));
        }
        r
    }
}

/// Parsing the serialized form of a header gives the header back.
pub proof fn lemma_header_roundtrip(h: Header)
    ensures
        spec_header_bytes(h).len() == 14,
        spec_magic_ok(spec_header_bytes(h)),
        spec_parse_header(spec_header_bytes(h)) == h,
{
    lemma_auto_spec_u16_to_from_le_bytes();
    lemma_auto_spec_u32_to_from_le_bytes();
    let b = spec_header_bytes(h);
    assert(b.subrange(2, 6) =~= spec_u32_to_le_bytes(h.size));
    assert(b.subrange(6, 8) =~= spec_u16_to_le_bytes(h.reserved_1));
    assert(b.subrange(8, 10) =~= spec_u16_to_le_bytes(h.reserved_2));
    assert(b.subrange(10, 14) =~= spec_u32_to_le_bytes(h.offset));
}

} // verus!
