//! Colors as four 8-bit channels: red, green and blue in the sRGB encoding
//! plus an alpha channel. The render backend converts to the linear color
//! space the GPU blends in; that conversion stays outside the library.

use vstd::prelude::*;

verus! {

/// An sRGB color with alpha, one byte per channel.
#[derive(Debug, Clone, Copy, PartialEq, Eq, Structural)]
pub struct Color {
    pub r: u8,
    pub g: u8,
    pub b: u8,
    pub a: u8,
}

impl Color {
    pub fn from_rgba(r: u8, g: u8, b: u8, a: u8) -> (c: Self)
        ensures
            c.r == r && c.g == g && c.b == b && c.a == a,
    {
        Self { r, g, b, a }
    }

    /// The color written `0xRRGGBB`, fully opaque.
    pub fn from_hex(hex: u32) -> (c: Self)
        ensures
            c.r == (hex >> 16) & 0xff,
            c.g == (hex >> 8) & 0xff,
            c.b == hex & 0xff,
            c.a == 255,
    {
        proof {
            assert(((hex >> 16) & 0xff) < 256 && ((hex >> 8) & 0xff) < 256 && (hex & 0xff)
                < 256) by (bit_vector);
        }
        Self {
            r: ((hex >> 16) & 0xff) as u8,
            g: ((hex >> 8) & 0xff) as u8,
            b: (hex & 0xff) as u8,
            a: 255,
        }
    }

    pub fn transparent() -> (c: Self)
        ensures
            c.r == 0 && c.g == 0 && c.b == 0 && c.a == 0,
    {
        Self { r: 0, g: 0, b: 0, a: 0 }
    }

    pub fn black() -> (c: Self)
        ensures
            c.r == 0 && c.g == 0 && c.b == 0 && c.a == 255,
    {
        Self { r: 0, g: 0, b: 0, a: 255 }
    }

    pub fn white() -> (c: Self)
        ensures
            c.r == 255 && c.g == 255 && c.b == 255 && c.a == 255,
    {
        Self { r: 255, g: 255, b: 255, a: 255 }
    }

    /// The same color with the alpha channel replaced.
    pub fn with_alpha(self, a: u8) -> (c: Self)
        ensures
            c.r == self.r && c.g == self.g && c.b == self.b && c.a == a,
    {
        Self { a, ..self }
    }

    pub fn r(&self) -> (v: u8)
        ensures
            v == self.r,
    {
        self.r
    }

    pub fn g(&self) -> (v: u8)
        ensures
            v == self.g,
    {
        self.g
    }

    pub fn b(&self) -> (v: u8)
        ensures
            v == self.b,
    {
        self.b
    }

    pub fn a(&self) -> (v: u8)
        ensures
            v == self.a,
    {
        self.a
    }
}

} // verus!
