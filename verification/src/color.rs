use vstd::prelude::*;
use crate::blenders::{blend_channel, blend_channel_spec, BlendMode};
use crate::fixed::{clamp_i64, clamp_spec, div_fx, div_q, FX_MUL_LIMIT, FX_ONE};
use vstd::arithmetic::div_mod::lemma_div_multiples_vanish;

verus! {

/// An RGB color with one byte per channel; every arithmetic operation
/// saturates each channel into `[0, 255]`.
#[derive(Clone, Copy, PartialEq, Eq, Structural, Debug)]
pub struct Color {
    pub r: u8,
    pub g: u8,
    pub b: u8,
}

/// One channel scaled by a fixed-point factor, clamped to its range.
pub open spec fn scale_channel_spec(c: int, k: int) -> int {
    clamp_spec(div_q(c * k, FX_ONE as int), 0, 255)
}

/// One channel interpolated from `a` toward `b` by a fixed-point weight.
pub open spec fn lerp_channel_spec(a: int, b: int, t: int) -> int {
    clamp_spec(a + div_q((b - a) * t, FX_ONE as int), 0, 255)
}

fn scale_channel(c: u8, k: i64) -> (r: u8)
    requires
        -FX_MUL_LIMIT <= k <= FX_MUL_LIMIT,
    ensures
        r == scale_channel_spec(c as int, k as int),
{
    proof {
        assert(-256 * FX_MUL_LIMIT <= (c as int) * (k as int) <= 256 * FX_MUL_LIMIT)
            by (nonlinear_arith)
            requires
                0 <= c <= 255,
                -FX_MUL_LIMIT <= k <= FX_MUL_LIMIT,
        ;
    }
    let p = (c as i64) * k;
    let q = div_fx(p, FX_ONE);
    clamp_i64(q, 0, 255) as u8
}

fn lerp_channel(a: u8, b: u8, t: i64) -> (r: u8)
    requires
        -FX_MUL_LIMIT <= t <= FX_MUL_LIMIT,
    ensures
        r == lerp_channel_spec(a as int, b as int, t as int),
{
    let d = (b as i64) - (a as i64);
    proof {
        assert(-256 * FX_MUL_LIMIT <= (d as int) * (t as int) <= 256 * FX_MUL_LIMIT)
            by (nonlinear_arith)
            requires
                -255 <= d <= 255,
                -FX_MUL_LIMIT <= t <= FX_MUL_LIMIT,
        ;
    }
    let p = d * t;
    let q = div_fx(p, FX_ONE);
    clamp_i64((a as i64) + q, 0, 255) as u8
}

impl Color {
    pub fn new(r: u8, g: u8, b: u8) -> (c: Color)
        ensures
            c.r == r,
            c.g == g,
            c.b == b,
    {
        Color { r, g, b }
    }

    pub open spec fn black_spec() -> Color {
        Color { r: 0, g: 0, b: 0 }
    }

    pub fn black() -> (c: Color)
        ensures
            c == Color::black_spec(),
    {
        Color { r: 0, g: 0, b: 0 }
    }

    pub fn white() -> (c: Color)
        ensures
            c.r == 255 && c.g == 255 && c.b == 255,
    {
        Color { r: 255, g: 255, b: 255 }
    }

    pub fn red() -> (c: Color)
        ensures
            c.r == 255 && c.g == 0 && c.b == 0,
    {
        Color { r: 255, g: 0, b: 0 }
    }

    pub fn green() -> (c: Color)
        ensures
            c.r == 0 && c.g == 255 && c.b == 0,
    {
        Color { r: 0, g: 255, b: 0 }
    }

    pub fn blue() -> (c: Color)
        ensures
            c.r == 0 && c.g == 0 && c.b == 255,
    {
        Color { r: 0, g: 0, b: 255 }
    }

    pub fn pink() -> (c: Color)
        ensures
            c.r == 255 && c.g == 105 && c.b == 180,
    {
        Color { r: 255, g: 105, b: 180 }
    }

    /// The color of the 24-bit `0xRRGGBB` word `h`.
    pub fn from_hex(h: u32) -> (c: Color)
        ensures
            c.r == (h as int / 65536) % 256,
            c.g == (h as int / 256) % 256,
            c.b == h as int % 256,
    {
        let r = ((h / 65536) % 256) as u8;
        let g = ((h / 256) % 256) as u8;
        let b = (h % 256) as u8;
        Color { r, g, b }
    }

    /// The 24-bit `0xRRGGBB` word of a color.
    pub open spec fn hex_spec(self) -> int {
        self.r as int * 65536 + self.g as int * 256 + self.b as int
    }

    /// The 24-bit `0xRRGGBB` word of this color.
    pub fn to_hex(&self) -> (h: u32)
        ensures
            h == self.hex_spec(),
    {
        (self.r as u32) * 65536 + (self.g as u32) * 256 + (self.b as u32)
    }

    /// Each channel of `self` scaled by the fixed-point factor `k`.
    pub open spec fn scale_spec(self, k: int) -> Color {
        Color {
            r: scale_channel_spec(self.r as int, k) as u8,
            g: scale_channel_spec(self.g as int, k) as u8,
            b: scale_channel_spec(self.b as int, k) as u8,
        }
    }

    /// Scale every channel by the fixed-point factor `k`, saturating.
    pub fn scale(self, k: i64) -> (c: Color)
        requires
            -FX_MUL_LIMIT <= k <= FX_MUL_LIMIT,
        ensures
            c == self.scale_spec(k as int),
    {
        Color {
            r: scale_channel(self.r, k),
            g: scale_channel(self.g, k),
            b: scale_channel(self.b, k),
        }
    }

    /// Each channel of `self` moved toward `other` by the fixed-point
    /// weight `t`.
    pub open spec fn lerp_spec(self, other: Color, t: int) -> Color {
        Color {
            r: lerp_channel_spec(self.r as int, other.r as int, t) as u8,
            g: lerp_channel_spec(self.g as int, other.g as int, t) as u8,
            b: lerp_channel_spec(self.b as int, other.b as int, t) as u8,
        }
    }

    /// Interpolate linearly from `self` toward `other`, saturating.
    pub fn lerp(self, other: &Color, t: i64) -> (c: Color)
        requires
            -FX_MUL_LIMIT <= t <= FX_MUL_LIMIT,
        ensures
            c == self.lerp_spec(*other, t as int),
    {
        Color {
            r: lerp_channel(self.r, other.r, t),
            g: lerp_channel(self.g, other.g, t),
            b: lerp_channel(self.b, other.b, t),
        }
    }

    /// `other` blended into `self` under `mode`, channel by channel.
    pub open spec fn blend_spec(self, other: Color, mode: BlendMode) -> Color {
        Color {
            r: blend_channel_spec(mode, self.r as int, other.r as int) as u8,
            g: blend_channel_spec(mode, self.g as int, other.g as int) as u8,
            b: blend_channel_spec(mode, self.b as int, other.b as int) as u8,
        }
    }

    /// Blend `other` into the accumulated color `self` under `mode`.
    pub fn blend(self, other: &Color, mode: BlendMode) -> (c: Color)
        ensures
            c == self.blend_spec(*other, mode),
    {
        Color {
            r: blend_channel(mode, self.r, other.r),
            g: blend_channel(mode, self.g, other.g),
            b: blend_channel(mode, self.b, other.b),
        }
    }
}

/// Scaling by the fixed-point unit is the identity, and scaling by zero
/// yields black, for every color.
pub proof fn lemma_scale_extremes(c: Color)
    ensures
        c.scale_spec(FX_ONE as int) == c,
        c.scale_spec(0) == Color::black_spec(),
{
    lemma_scale_channel_extremes(c.r as int);
    lemma_scale_channel_extremes(c.g as int);
    lemma_scale_channel_extremes(c.b as int);
}

proof fn lemma_scale_channel_extremes(c: int)
    requires
        0 <= c <= 255,
    ensures
        scale_channel_spec(c, FX_ONE as int) == c,
        scale_channel_spec(c, 0) == 0,
{
    lemma_div_multiples_vanish(c, FX_ONE as int);
    assert(c * FX_ONE == FX_ONE * c);
    assert(div_q(c * (FX_ONE as int), FX_ONE as int) == c);
    assert(c * 0 == 0);
    assert(div_q(0, FX_ONE as int) == 0) by {
        vstd::arithmetic::div_mod::lemma_div_of0(FX_ONE as int);
    }
}

} // verus!
