//! The 24-bit RGB pixel: constructors from raw bytes and from a hex string,
//! black/white predicates, serialization, and the squared Euclidean
//! distance used by the nearest-match search.

use vstd::prelude::*;
use vstd::string::StringSliceAdditionalSpecFns;
use crate::error::Error;

verus! {

broadcast use vstd::slice::group_slice_axioms;

/// A pixel with one byte per channel, stored in R, G, B order.
#[derive(Clone, Copy, Debug, PartialEq, Eq, Structural)]
pub struct Pixel24Bit {
    pub red: u8,
    pub green: u8,
    pub blue: u8,
}

/// The 3-byte serialization of a pixel, in R, G, B order.
pub open spec fn spec_pixel_bytes(p: Pixel24Bit) -> Seq<u8> {
    seq![p.red, p.green, p.blue]
}

/// The squared Euclidean distance between two pixels over the channel
/// deltas.  The square root taken by a renderer is strictly monotone, so
/// comparing squared distances orders pixel pairs exactly as comparing the
/// Euclidean distances themselves does.
pub open spec fn spec_distance_squared(p: Pixel24Bit, q: Pixel24Bit) -> int {
    (p.red - q.red) * (p.red - q.red) + (p.green - q.green) * (p.green - q.green) + (p.blue
        - q.blue) * (p.blue - q.blue)
}

impl Pixel24Bit {
    /// The number of bits used to represent each pixel.
    pub fn bits_per_pixel() -> (r: u16)
        ensures
            r == 24,
    {
        24
    }

    /// The number of pixels per meter recorded in headers when an image is
    /// physically printed.
    pub fn pixels_per_meter() -> (r: i32)
        ensures
            r == 2835,
    {
        2835
    }

    /// Create a new pixel from exactly 3 bytes, in R, G, B order.
    pub fn new_from_bytes(bytes: &[u8]) -> (r: Result<Self, Error>)
        ensures
            bytes@.len() == 3 <==> r == Ok::<Self, Error>(Pixel24Bit {
                red: bytes@[0],
                green: bytes@[1],
                blue: bytes@[2],
            }),
            bytes@.len() != 3 <==> (r matches Err(Error::IllegalParameter(_))),
    {
        if bytes.len() != 3 {
            return Err(Error::IllegalParameter("expected exactly 3 bytes for a pixel"));
        }
        Ok(Self { red: bytes[0], green: bytes[1], blue: bytes[2] })
    }

    /// Returns true if the pixel represents pure black.
    pub fn is_black(&self) -> (r: bool)
        ensures
            r <==> (self.red == 0 && self.green == 0 && self.blue == 0),
    {
        self.red == 0 && self.green == 0 && self.blue == 0
    }

    /// Returns true if the pixel represents pure white.
    pub fn is_white(&self) -> (r: bool)
        ensures
            r <==> (self.red == 255 && self.green == 255 && self.blue == 255),
    {
        self.red == 255 && self.green == 255 && self.blue == 255
    }

    /// Serialize the pixel to its 3 bytes.
    pub fn to_bytes(&self) -> (r: Vec<u8>)
        ensures
            r@ == spec_pixel_bytes(*self),
    {
        let mut r: Vec<u8> = Vec::new();
        r.push(self.red);
        r.push(self.green);
        r.push(self.blue);
        proof {
            assert(r@ =~= spec_pixel_bytes(*self));
        }
        r
    }

    /// The squared Euclidean distance between this pixel and `other`.
    ///
    /// The result is used for relative comparison only, so the square root
    /// is never taken; it orders pixel pairs identically.
    pub fn distance_squared(&self, other: &Self) -> (r: u32)
        ensures
            r == spec_distance_squared(*self, *other),
    {
        let dr: i32 = self.red as i32 - other.red as i32;
        let dg: i32 = self.green as i32 - other.green as i32;
        let db: i32 = self.blue as i32 - other.blue as i32;
        proof {
            assert(dr * dr <= 65025 && dr * dr >= 0) by (nonlinear_arith)
                requires
                    -255 <= dr <= 255,
            ;
            assert(dg * dg <= 65025 && dg * dg >= 0) by (nonlinear_arith)
                requires
                    -255 <= dg <= 255,
            ;
            assert(db * db <= 65025 && db * db >= 0) by (nonlinear_arith)
                requires
                    -255 <= db <= 255,
            ;
        }
        (dr * dr + dg * dg + db * db) as u32
    }
}

/// Whether `d` is the ASCII code of a hexadecimal digit.
pub open spec fn spec_is_hex_digit(d: u8) -> bool {
    (0x30 <= d && d <= 0x39) || (0x41 <= d && d <= 0x46) || (0x61 <= d && d <= 0x66)
}

/// The value of the hexadecimal digit with ASCII code `d`.
pub open spec fn spec_hex_val(d: u8) -> u8
    recommends
        spec_is_hex_digit(d),
{
    if d <= 0x39 {
        (d - 0x30) as u8
    } else if d <= 0x46 {
        (d - 0x37) as u8
    } else {
        (d - 0x57) as u8
    }
}

/// The value of the ASCII hexadecimal digit `digit`, or no value if it is
/// not a hexadecimal digit.
pub fn hex_digit_to_u8(digit: u8) -> (r: Option<u8>)
    ensures
        spec_is_hex_digit(digit) <==> r == Some(spec_hex_val(digit)),
        !spec_is_hex_digit(digit) <==> r is None,
        r is Some ==> r->0 < 16,
{
    match digit {
        0x30 => Some(0),
        0x31 => Some(1),
        0x32 => Some(2),
        0x33 => Some(3),
        0x34 => Some(4),
        0x35 => Some(5),
        0x36 => Some(6),
        0x37 => Some(7),
        0x38 => Some(8),
        0x39 => Some(9),
        0x41 | 0x61 => Some(10),
        0x42 | 0x62 => Some(11),
        0x43 | 0x63 => Some(12),
        0x44 | 0x64 => Some(13),
        0x45 | 0x65 => Some(14),
        0x46 | 0x66 => Some(15),
        _ => None,
    }
}

/// The byte whose most significant nibble is the hexadecimal digit `msn`
/// and whose least significant nibble is `lsn`, or no value if either is
/// not a hexadecimal digit.
pub fn hex_digits_to_u8(msn: u8, lsn: u8) -> (r: Option<u8>)
    ensures
        (spec_is_hex_digit(msn) && spec_is_hex_digit(lsn)) <==> r == Some(
            (16 * spec_hex_val(msn) + spec_hex_val(lsn)) as u8,
        ),
        !(spec_is_hex_digit(msn) && spec_is_hex_digit(lsn)) <==> r is None,
    {
    match (hex_digit_to_u8(msn), hex_digit_to_u8(lsn)) {
        (Some(h), Some(l)) => Some(16 * h + l),
        _ => None,
    }
}

/// Whether `b` is the byte form of a well-formed `#RRGGBB` color string.
pub open spec fn spec_hex_ok(b: Seq<u8>) -> bool {
    b.len() == 7 && b[0] == 0x23 && spec_is_hex_digit(b[1]) && spec_is_hex_digit(b[2])
        && spec_is_hex_digit(b[3]) && spec_is_hex_digit(b[4]) && spec_is_hex_digit(b[5])
        && spec_is_hex_digit(b[6])
}

/// The pixel denoted by the well-formed `#RRGGBB` color string `b`.
pub open spec fn spec_hex_pixel(b: Seq<u8>) -> Pixel24Bit
    recommends
        spec_hex_ok(b),
{
    Pixel24Bit {
        red: (16 * spec_hex_val(b[1]) + spec_hex_val(b[2])) as u8,
        green: (16 * spec_hex_val(b[3]) + spec_hex_val(b[4])) as u8,
        blue: (16 * spec_hex_val(b[5]) + spec_hex_val(b[6])) as u8,
    }
}

/// Parse a 7-character `#RRGGBB` color string into a pixel.
///
/// Any other length, a missing `#`, or a non-hexadecimal digit fails with
/// `IllegalParameter`.
pub fn hex_to_rgb(hex: &str) -> (r: Result<Pixel24Bit, Error>)
    ensures
        spec_hex_ok(hex.spec_bytes()) <==> r == Ok::<Pixel24Bit, Error>(
            spec_hex_pixel(hex.spec_bytes()),
        ),
        !spec_hex_ok(hex.spec_bytes()) <==> (r matches Err(Error::IllegalParameter(_))),
{
    let as_bytes = hex.as_bytes();
    if as_bytes.len() != 7 || as_bytes[0] != 0x23 {
        return Err(Error::IllegalParameter("expected '#AAAAAA' where A is a hexadecimal digit."));
    }
    let red = hex_digits_to_u8(as_bytes[1], as_bytes[2]);
    let green = hex_digits_to_u8(as_bytes[3], as_bytes[4]);
    let blue = hex_digits_to_u8(as_bytes[5], as_bytes[6]);
    match (red, green, blue) {
        (Some(red), Some(green), Some(blue)) => Ok(Pixel24Bit { red, green, blue }),
        _ => Err(Error::IllegalParameter("expected '#AAAAAA' where A is a hexadecimal digit.")),
    }
}

} // verus!
