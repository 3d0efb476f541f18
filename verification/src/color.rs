//! RGB colors with componentwise fixed-point arithmetic.

use vstd::prelude::*;

use crate::fx::{Fx, fx_add, fx_clamp01, fx_mul, quot, SCALE};

verus! {

/// Mathematical model of a color: one integer of fixed-point bits per channel.
pub ghost struct ColorV {
    pub r: int,
    pub g: int,
    pub b: int,
}

/// An RGB color; channels are unbounded fixed-point scalars, clamped to
/// `[0, 1]` only at final pixel output.
#[derive(Clone, Copy, Debug, PartialEq, Eq, Structural)]
pub struct Color {
    pub r: Fx,
    pub g: Fx,
    pub b: Fx,
}

impl View for Color {
    type V = ColorV;

    open spec fn view(&self) -> ColorV {
        ColorV { r: self.r@, g: self.g@, b: self.b@ }
    }
}

pub open spec fn c_zero() -> ColorV {
    ColorV { r: 0, g: 0, b: 0 }
}

pub open spec fn c_add(a: ColorV, b: ColorV) -> ColorV {
    ColorV { r: fx_add(a.r, b.r), g: fx_add(a.g, b.g), b: fx_add(a.b, b.b) }
}

pub open spec fn c_mul(a: ColorV, b: ColorV) -> ColorV {
    ColorV { r: fx_mul(a.r, b.r), g: fx_mul(a.g, b.g), b: fx_mul(a.b, b.b) }
}

pub open spec fn c_scale(a: ColorV, s: int) -> ColorV {
    ColorV { r: fx_mul(a.r, s), g: fx_mul(a.g, s), b: fx_mul(a.b, s) }
}

pub open spec fn c_clamp01(a: ColorV) -> ColorV {
    ColorV { r: fx_clamp01(a.r), g: fx_clamp01(a.g), b: fx_clamp01(a.b) }
}

/// Byte value of one output channel: the channel scaled by 255 with
/// truncation, saturated into `[0, 255]`.
pub open spec fn pix_chan(c: int) -> int {
    let v = quot(c * 255, SCALE as int);
    if v < 0 {
        0
    } else if v > 255 {
        255
    } else {
        v
    }
}

/// Every output channel byte lies in `[0, 255]`, whatever color it came from.
pub proof fn lemma_pix_chan_bounds(c: int)
    ensures
        0 <= pix_chan(c) <= 255,
{
}

/// One cell of the output raster, with byte channels.
#[derive(Clone, Copy, Debug, PartialEq, Eq, Structural)]
pub struct Pixel {
    pub r: u8,
    pub g: u8,
    pub b: u8,
}

fn chan_byte(c: Fx) -> (b: u8)
    ensures
        b as int == pix_chan(c@),
{
    if c.bits <= 0 {
        return 0;
    }
    let p: u128 = (c.bits as u128) * 255;
    let q: u128 = p / 65536;
    if q > 255 {
        255
    } else {
        q as u8
    }
}

impl Color {
    /// The raster cell for this color: each channel clamped and scaled to a byte.
    pub fn to_pixel(&self) -> (p: Pixel)
        ensures
            p.r as int == pix_chan(self@.r),
            p.g as int == pix_chan(self@.g),
            p.b as int == pix_chan(self@.b),
    {
        Pixel { r: chan_byte(self.r), g: chan_byte(self.g), b: chan_byte(self.b) }
    }

    pub fn add(self, oth: Color) -> (r: Color)
        ensures
            r@ == c_add(self@, oth@),
    {
        Color { r: self.r.add(oth.r), g: self.g.add(oth.g), b: self.b.add(oth.b) }
    }

    /// Componentwise product of two colors.
    pub fn mul(self, oth: Color) -> (r: Color)
        ensures
            r@ == c_mul(self@, oth@),
    {
        Color { r: self.r.mul(oth.r), g: self.g.mul(oth.g), b: self.b.mul(oth.b) }
    }

    /// Product of a color with a scalar.
    pub fn scale(self, s: Fx) -> (r: Color)
        ensures
            r@ == c_scale(self@, s@),
    {
        Color { r: self.r.mul(s), g: self.g.mul(s), b: self.b.mul(s) }
    }

    /// Each channel clamped into `[0, 1]`.
    pub fn clamp(self) -> (r: Color)
        ensures
            r@ == c_clamp01(self@),
    {
        Color { r: self.r.clamp01(), g: self.g.clamp01(), b: self.b.clamp01() }
    }
}

} // verus!
