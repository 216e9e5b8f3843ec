//! Conversions between the signed header fields and their unsigned
//! little-endian wire representation, plus readers for multi-byte
//! little-endian fields inside a larger buffer.

use vstd::prelude::*;
use vstd::bytes::{
    spec_u16_from_le_bytes, spec_u32_from_le_bytes, u16_from_le_bytes, u32_from_le_bytes,
};
use vstd::slice::slice_subrange;

verus! {

broadcast use vstd::slice::group_slice_axioms;

/// The two's-complement unsigned reading of a signed 32-bit value.
pub open spec fn spec_u32_of_i32(x: i32) -> u32 {
    if x >= 0 {
        x as u32
    } else {
        (x + 0x1_0000_0000) as u32
    }
}

/// The signed reading of an unsigned 32-bit value, inverse of
/// [`spec_u32_of_i32`].
pub open spec fn spec_i32_of_u32(x: u32) -> i32 {
    if x < 0x8000_0000 {
        x as i32
    } else {
        (x - 0x1_0000_0000) as i32
    }
}

/// The two conversions between signed and unsigned 32-bit values invert
/// each other.
pub proof fn lemma_i32_u32_roundtrip()
    ensures
        forall|x: i32| #[trigger] spec_i32_of_u32(spec_u32_of_i32(x)) == x,
        forall|x: u32| #[trigger] spec_u32_of_i32(spec_i32_of_u32(x)) == x,
{
}

/// Reinterpret a signed 32-bit value as its two's-complement unsigned form.
pub fn u32_of_i32(x: i32) -> (r: u32)
    ensures
        r == spec_u32_of_i32(x),
{
    if x >= 0 {
        x as u32
    } else {
        ((x as i64) + 0x1_0000_0000) as u32
    }
}

/// Reinterpret an unsigned 32-bit value as its two's-complement signed form.
pub fn i32_of_u32(x: u32) -> (r: i32)
    ensures
        r == spec_i32_of_u32(x),
{
    if x < 0x8000_0000 {
        x as i32
    } else {
        ((x as i64) - 0x1_0000_0000) as i32
    }
}

/// The unsigned magnitude of a signed 32-bit value.
pub fn abs_of_i32(x: i32) -> (r: u32)
    ensures
        r == vstd::math::abs(x as int),
{
    if x >= 0 {
        x as u32
    } else {
        (-(x as i64)) as u32
    }
}

/// Read the little-endian `u16` stored at `off` in `bytes`.
pub fn read_u16_le(bytes: &[u8], off: usize) -> (r: u16)
    requires
        off + 2 <= bytes@.len(),
    ensures
        r == spec_u16_from_le_bytes(bytes@.subrange(off as int, off + 2)),
{
    proof {
        vstd::slice::axiom_spec_len(bytes);
    }
    u16_from_le_bytes(slice_subrange(bytes, off, off + 2))
}

/// Read the little-endian `u32` stored at `off` in `bytes`.
pub fn read_u32_le(bytes: &[u8], off: usize) -> (r: u32)
    requires
        off + 4 <= bytes@.len(),
    ensures
        r == spec_u32_from_le_bytes(bytes@.subrange(off as int, off + 4)),
{
    proof {
        vstd::slice::axiom_spec_len(bytes);
    }
    u32_from_le_bytes(slice_subrange(bytes, off, off + 4))
}

/// Read the little-endian two's-complement `i32` stored at `off` in `bytes`.
pub fn read_i32_le(bytes: &[u8], off: usize) -> (r: i32)
    requires
        off + 4 <= bytes@.len(),
    ensures
        r == spec_i32_of_u32(spec_u32_from_le_bytes(bytes@.subrange(off as int, off + 4))),
{
    i32_of_u32(read_u32_le(bytes, off))
}

} // verus!
