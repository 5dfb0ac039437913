//! The RGBA color value that the decoder tracks, and its cache hash.

use vstd::prelude::*;

verus! {

/// One decoded color: four 8-bit channels.
///
/// Channel arithmetic in the QOI format is modular (wraps at 256); equality
/// is exact comparison of all four channels.
#[derive(Clone, Copy, Debug, PartialEq, Eq, Structural)]
pub struct QoiColor {
    pub r: u8,
    pub g: u8,
    pub b: u8,
    pub a: u8,
}

/// The QOI color-cache slot of a color: `(r*3 + g*5 + b*7 + a*11) mod 64`.
///
/// The format computes the weighted sum with 8-bit wraparound arithmetic and
/// then reduces mod 64; since 64 divides 256, that equals reducing the exact
/// sum mod 64, which is the form stated here.
pub open spec fn spec_hash(c: QoiColor) -> int {
    (c.r * 3 + c.g * 5 + c.b * 7 + c.a * 11) % 64
}

impl QoiColor {
    /// Cache slot index of this color; always below 64.
    pub fn hash(&self) -> (h: usize)
        ensures
            h == spec_hash(*self),
            h < 64,
    {
        (((self.r as u32) * 3 + (self.g as u32) * 5 + (self.b as u32) * 7 + (self.a as u32) * 11)
            % 64) as usize
    }

    /// Unpacks a `0xRRGGBBAA` word into its four channels.
    pub fn from_u32(color: u32) -> (c: QoiColor)
        ensures
            c.r == (color >> 24) & 0xff,
            c.g == (color >> 16) & 0xff,
            c.b == (color >> 8) & 0xff,
            c.a == color & 0xff,
    {
        let r: u32 = (color & 0xff000000) >> 24;
        let g: u32 = (color & 0x00ff0000) >> 16;
        let b: u32 = (color & 0x0000ff00) >> 8;
        let a: u32 = color & 0x000000ff;
        proof {
            assert((color & 0xff000000) >> 24 == (color >> 24) & 0xff) by (bit_vector);
            assert((color & 0x00ff0000) >> 16 == (color >> 16) & 0xff) by (bit_vector);
            assert((color & 0x0000ff00) >> 8 == (color >> 8) & 0xff) by (bit_vector);
            assert((color >> 24) & 0xff < 256 && (color >> 16) & 0xff < 256 && (color >> 8) & 0xff
                < 256 && color & 0xff < 256) by (bit_vector);
        }
        QoiColor { r: r as u8, g: g as u8, b: b as u8, a: a as u8 }
    }
}

} // verus!
