//! Colours with an opacity.

use vstd::prelude::*;

verus! {

/// A colour: red, green and blue, and an opacity from 0 for clear to 255 for
/// solid.
#[derive(Debug, Clone, Copy, PartialEq, Eq)]
pub struct Color {
    r: u8,
    g: u8,
    b: u8,
    a: u8,
}

/// The byte of `c` that starts `shift` bytes above the lowest.
pub open spec fn byte_of(c: u32, shift: nat) -> u8 {
    if shift == 0 {
        (c % 256) as u8
    } else if shift == 1 {
        ((c / 256) % 256) as u8
    } else {
        ((c / 65536) % 256) as u8
    }
}

/// The opacity that `a` thousandths stand for: 255 for a thousand, nothing
/// for none, rounded down in between, and never outside these two.
pub open spec fn alpha_of(a: int) -> u8 {
    if a <= 0 {
        0
    } else if a >= 1000 {
        255
    } else {
        ((a * 255) / 1000) as u8
    }
}

impl Color {
    /// Red, green, blue and opacity.
    pub closed spec fn spec_components(&self) -> (u8, u8, u8, u8) {
        (self.r, self.g, self.b, self.a)
    }

    /// The solid colour of these parts.
    pub fn from_rgb(r: u8, g: u8, b: u8) -> (c: Color)
        ensures
            c.components() == (r, g, b, 255u8),
    {
        Color { r, g, b, a: 0xff }
    }

    /// The solid colour whose red, green and blue are the third, the second
    /// and the lowest byte of `c`; the highest byte is not looked at.
    pub fn from_u32(c: u32) -> (color: Color)
        ensures
            color.components() == (byte_of(c, 2), byte_of(c, 1), byte_of(c, 0), 255u8),
    {
        Color {
            r: ((c / 65536) % 256) as u8,
            g: ((c / 256) % 256) as u8,
            b: (c % 256) as u8,
            a: 0xff,
        }
    }

    /// The colour of [`Color::from_u32`] with the opacity of `a` thousandths.
    pub fn from_u32_with_alpha(c: u32, a: i32) -> (color: Color)
        ensures
            color.components() == (byte_of(c, 2), byte_of(c, 1), byte_of(c, 0), alpha_of(a as int)),
    {
        let alpha: u8 = if a <= 0 {
            0
        } else if a >= 1000 {
            255
        } else {
            ((a * 255) / 1000) as u8
        };
        Color {
            r: ((c / 65536) % 256) as u8,
            g: ((c / 256) % 256) as u8,
            b: (c % 256) as u8,
            a: alpha,
        }
    }

    /// Red, green, blue and opacity.
    #[verifier::when_used_as_spec(spec_components)]
    pub fn components(&self) -> (c: (u8, u8, u8, u8))
        ensures
            c == self.spec_components(),
    {
        (self.r, self.g, self.b, self.a)
    }

    /// Whether the colour is solid, so that it is set without an opacity.
    pub fn is_opaque(&self) -> (b: bool)
        ensures
            b == (self.components().3 == 255),
    {
        self.a == 0xff
    }
}

} // verus!
