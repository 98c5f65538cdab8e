//! 8-bit RGB colors.

use vstd::prelude::*;
use crate::fixed::{Fixed, wide_product, div_floor};

verus! {

/// `v` brought into the range of a color channel.
pub open spec fn clamp_channel(v: int) -> u8 {
    if v < 0 {
        0u8
    } else if v > 255 {
        255u8
    } else {
        v as u8
    }
}

/// Brings a wide integer into the range of a color channel.
pub fn clamp_to_channel(v: i128) -> (r: u8)
    ensures
        r == clamp_channel(v as int),
{
    if v < 0 {
        0
    } else if v > 255 {
        255
    } else {
        v as u8
    }
}

/// An RGB color, one byte per channel.
#[derive(Clone, Copy, Debug, PartialEq, Eq, Structural)]
pub struct Color {
    pub r: u8,
    pub g: u8,
    pub b: u8,
}

impl Color {
    /// The packed value `0xRRGGBB`.
    pub open spec fn spec_to_hex(self) -> u32 {
        (self.r * 65536 + self.g * 256 + self.b) as u32
    }

    /// The color packed in the low 24 bits of `hex`.
    pub open spec fn spec_from_hex(hex: u32) -> Color {
        Color {
            r: ((hex as int / 65536) % 256) as u8,
            g: ((hex as int / 256) % 256) as u8,
            b: (hex as int % 256) as u8,
        }
    }

    /// Every channel times `f`, rounded down and clamped.
    pub open spec fn spec_scale(self, f: Fixed) -> Color {
        Color {
            r: clamp_channel((self.r * f.raw) / 65536),
            g: clamp_channel((self.g * f.raw) / 65536),
            b: clamp_channel((self.b * f.raw) / 65536),
        }
    }

    /// The channel-wise sum, clamped.
    pub open spec fn spec_add(self, other: Color) -> Color {
        Color {
            r: clamp_channel(self.r + other.r),
            g: clamp_channel(self.g + other.g),
            b: clamp_channel(self.b + other.b),
        }
    }

    /// The color whose channels are the whole parts of three numbers, clamped.
    pub open spec fn spec_from_fixed(r: Fixed, g: Fixed, b: Fixed) -> Color {
        Color {
            r: clamp_channel(r.spec_floor()),
            g: clamp_channel(g.spec_floor()),
            b: clamp_channel(b.spec_floor()),
        }
    }

    /// The color with the given channels.
    pub fn new(r: u8, g: u8, b: u8) -> (c: Color)
        ensures
            c == (Color { r, g, b }),
    {
        Color { r, g, b }
    }

    /// Black.
    pub fn black() -> (c: Color)
        ensures
            c == (Color { r: 0, g: 0, b: 0 }),
    {
        Color { r: 0, g: 0, b: 0 }
    }

    /// The color packed in the low 24 bits of `hex` as `0xRRGGBB`.
    #[verifier::when_used_as_spec(spec_from_hex)]
    pub fn from_hex(hex: u32) -> (c: Color)
        ensures
            c == Color::spec_from_hex(hex),
    {
        Color {
            r: ((hex / 65536) % 256) as u8,
            g: ((hex / 256) % 256) as u8,
            b: (hex % 256) as u8,
        }
    }

    /// The color packed as `0xRRGGBB`.
    #[verifier::when_used_as_spec(spec_to_hex)]
    pub fn to_hex(self) -> (hex: u32)
        ensures
            hex == self.spec_to_hex(),
            hex <= 0xff_ffff,
    {
        (self.r as u32) * 65536 + (self.g as u32) * 256 + (self.b as u32)
    }

    /// The color whose channels are the whole parts of three numbers, clamped.
    #[verifier::when_used_as_spec(spec_from_fixed)]
    pub fn from_fixed(r: Fixed, g: Fixed, b: Fixed) -> (c: Color)
        ensures
            c == Color::spec_from_fixed(r, g, b),
    {
        Color {
            r: clamp_to_channel(r.floor() as i128),
            g: clamp_to_channel(g.floor() as i128),
            b: clamp_to_channel(b.floor() as i128),
        }
    }

    /// The color dimmed or brightened by `f`.
    #[verifier::when_used_as_spec(spec_scale)]
    pub fn scale(self, f: Fixed) -> (c: Color)
        ensures
            c == self.spec_scale(f),
    {
        Color {
            r: clamp_to_channel(div_floor(wide_product(self.r as i32, f.raw), 65536)),
            g: clamp_to_channel(div_floor(wide_product(self.g as i32, f.raw), 65536)),
            b: clamp_to_channel(div_floor(wide_product(self.b as i32, f.raw), 65536)),
        }
    }

    /// The channel-wise sum, clamped at 255.
    #[verifier::when_used_as_spec(spec_add)]
    pub fn add(self, other: Color) -> (c: Color)
        ensures
            c == self.spec_add(other),
    {
        Color {
            r: clamp_to_channel(self.r as i128 + other.r as i128),
            g: clamp_to_channel(self.g as i128 + other.g as i128),
            b: clamp_to_channel(self.b as i128 + other.b as i128),
        }
    }
}

/// Packing a color and unpacking it gives the color back.
pub proof fn lemma_hex_round_trip(c: Color)
    ensures
        Color::spec_from_hex(c.spec_to_hex()) == c,
{
    let h = c.r * 65536 + c.g * 256 + c.b;
    assert(h / 65536 == c.r as int && h % 256 == c.b as int && (h / 256) % 256 == c.g as int)
        by (nonlinear_arith)
        requires
            h == c.r * 65536 + c.g * 256 + c.b,
            0 <= c.r < 256,
            0 <= c.g < 256,
            0 <= c.b < 256,
    ;
}

/// Scaling by one changes nothing, and scaling by zero gives black.
pub proof fn lemma_scale_unit(c: Color)
    ensures
        c.spec_scale(Fixed { raw: 65536 }) == c,
        c.spec_scale(Fixed { raw: 0 }) == (Color { r: 0, g: 0, b: 0 }),
{
    assert forall|a: int| #[trigger] ((a * 65536) / 65536) == a by {
        assert((a * 65536) / 65536 == a) by (nonlinear_arith);
    }
}

} // verus!
