use vstd::prelude::*;

use crate::fixed::ONE;

verus! {

/// An RGB color with 8-bit channels.
#[derive(Clone, Copy, Debug, PartialEq, Eq, Structural)]
pub struct Color {
    pub r: u8,
    pub g: u8,
    pub b: u8,
}

/// `t` limited to the unit interval `[0, ONE]`.
pub open spec fn unit_clamp(t: int) -> int {
    if t < 0 {
        0
    } else if t > ONE {
        ONE as int
    } else {
        t
    }
}

/// Linear interpolation of one channel, the factor first limited to `[0, ONE]`,
/// rounded to the nearest integer (halves up).
pub open spec fn lerp_channel(a: u8, c: u8, t: int) -> u8 {
    let u = unit_clamp(t);
    ((a * (ONE - u) + c * u + ONE / 2) / (ONE as int)) as u8
}

/// One channel multiplied by a fixed-point factor, rounded to the nearest
/// integer (halves up) and limited to `[0, 255]`.
pub open spec fn scale_channel(c: u8, f: int) -> u8 {
    let v = (c * f + ONE / 2) / (ONE as int);
    if v < 0 {
        0
    } else if v > 255 {
        255
    } else {
        v as u8
    }
}

pub open spec fn lerp_spec(a: Color, c: Color, t: int) -> Color {
    Color { r: lerp_channel(a.r, c.r, t), g: lerp_channel(a.g, c.g, t), b: lerp_channel(a.b, c.b, t) }
}

pub open spec fn scale_spec(a: Color, f: int) -> Color {
    Color { r: scale_channel(a.r, f), g: scale_channel(a.g, f), b: scale_channel(a.b, f) }
}

/// The color packed as `0xRRGGBB`.
pub open spec fn hex_spec(a: Color) -> u32 {
    (a.r * 65536 + a.g * 256 + a.b) as u32
}

proof fn lemma_lerp_channel_bounds(a: u8, c: u8, u: int)
    requires
        0 <= u <= ONE,
    ensures
        0 <= a * (ONE - u) + c * u,
        (a * (ONE - u) + c * u + ONE / 2) / (ONE as int) <= 255,
        a <= c ==> a <= (a * (ONE - u) + c * u + ONE / 2) / (ONE as int) <= c,
        c <= a ==> c <= (a * (ONE - u) + c * u + ONE / 2) / (ONE as int) <= a,
{
    let n = a * (ONE - u) + c * u;
    let h = (ONE / 2) as int;
    assert(0 <= a * (ONE - u)) by (nonlinear_arith)
        requires
            0 <= u <= ONE,
            0 <= a,
    ;
    assert(0 <= c * u) by (nonlinear_arith)
        requires
            0 <= u,
            0 <= c,
    ;
    assert(n <= 255 * ONE) by (nonlinear_arith)
        requires
            n == a * (ONE - u) + c * u,
            0 <= u <= ONE,
            a <= 255,
            c <= 255,
    ;
    if a <= c {
        assert(a * ONE <= n <= c * ONE) by (nonlinear_arith)
            requires
                n == a * (ONE - u) + c * u,
                0 <= u <= ONE,
                a <= c,
        ;
    }
    if c <= a {
        assert(c * ONE <= n <= a * ONE) by (nonlinear_arith)
            requires
                n == a * (ONE - u) + c * u,
                0 <= u <= ONE,
                c <= a,
        ;
    }
    vstd::arithmetic::div_mod::lemma_div_is_ordered(n + h, 255 * ONE + h, ONE as int);
    vstd::arithmetic::div_mod::lemma_div_multiples_vanish_fancy(255, h, ONE as int);
    vstd::arithmetic::div_mod::lemma_div_multiples_vanish_fancy(a as int, h, ONE as int);
    vstd::arithmetic::div_mod::lemma_div_multiples_vanish_fancy(c as int, h, ONE as int);
    if a <= c {
        vstd::arithmetic::div_mod::lemma_div_is_ordered(a * ONE + h, n + h, ONE as int);
        vstd::arithmetic::div_mod::lemma_div_is_ordered(n + h, c * ONE + h, ONE as int);
    }
    if c <= a {
        vstd::arithmetic::div_mod::lemma_div_is_ordered(c * ONE + h, n + h, ONE as int);
        vstd::arithmetic::div_mod::lemma_div_is_ordered(n + h, a * ONE + h, ONE as int);
    }
}

/// Interpolated channel lies between the two end channels.
pub proof fn lemma_lerp_channel_between(a: u8, c: u8, t: int)
    ensures
        a <= c ==> a <= lerp_channel(a, c, t) <= c,
        c <= a ==> c <= lerp_channel(a, c, t) <= a,
        lerp_channel(a, c, 0) == a,
        lerp_channel(a, c, ONE as int) == c,
{
    lemma_lerp_channel_bounds(a, c, unit_clamp(t));
    assert(a * (ONE - 0) + c * 0 == a * ONE) by (nonlinear_arith);
    assert(a * (ONE - ONE) + c * ONE == c * ONE) by (nonlinear_arith);
    vstd::arithmetic::div_mod::lemma_div_multiples_vanish_fancy(a as int, (ONE / 2) as int, ONE as int);
    vstd::arithmetic::div_mod::lemma_div_multiples_vanish_fancy(c as int, (ONE / 2) as int, ONE as int);
}

fn lerp_u8(a: u8, c: u8, u: i64) -> (r: u8)
    requires
        0 <= u <= ONE,
    ensures
        r == lerp_channel(a, c, u as int),
{
    proof {
        lemma_lerp_channel_bounds(a, c, u as int);
    }
    let n: i64 = (a as i64) * (ONE - u) + (c as i64) * u;
    ((n + ONE / 2) / ONE) as u8
}

fn scale_u8(c: u8, f: i64) -> (r: u8)
    ensures
        r == scale_channel(c, f as int),
{
    if f <= 0 {
        assert(c * f <= 0) by (nonlinear_arith)
            requires
                f <= 0,
                c >= 0,
        ;
        proof {
            vstd::arithmetic::div_mod::lemma_div_is_ordered(c * f + ONE / 2, ONE / 2, ONE as int);
        }
        0
    } else if f > 256 * ONE {
        if c == 0 {
            assert(c * f == 0) by (nonlinear_arith)
                requires
                    c == 0,
            ;
            0
        } else {
            assert(c * f >= 256 * ONE) by (nonlinear_arith)
                requires
                    f > 256 * ONE,
                    c >= 1,
            ;
            proof {
                vstd::arithmetic::div_mod::lemma_div_is_ordered(256 * ONE, c * f + ONE / 2, ONE as int);
                vstd::arithmetic::div_mod::lemma_div_multiples_vanish(256, ONE as int);
            }
            255
        }
    } else {
        assert(0 <= c * f <= 255 * (256 * ONE)) by (nonlinear_arith)
            requires
                0 < f <= 256 * ONE,
                0 <= c <= 255,
        ;
        let v: i64 = ((c as i64) * f + ONE / 2) / ONE;
        assert(v == (c * f + ONE / 2) / (ONE as int));
        assert(v >= 0);
        if v > 255 {
            255
        } else {
            v as u8
        }
    }
}

impl Color {
    pub fn new(r: u8, g: u8, b: u8) -> (c: Color)
        ensures
            c == (Color { r, g, b }),
    {
        Color { r, g, b }
    }

    pub fn black() -> (c: Color)
        ensures
            c == (Color { r: 0, g: 0, b: 0 }),
    {
        Color { r: 0, g: 0, b: 0 }
    }

    pub fn get_red(&self) -> (v: u8)
        ensures
            v == self.r,
    {
        self.r
    }

    pub fn get_green(&self) -> (v: u8)
        ensures
            v == self.g,
    {
        self.g
    }

    pub fn get_blue(&self) -> (v: u8)
        ensures
            v == self.b,
    {
        self.b
    }

    /// Channel-wise interpolation from `self` (t = 0) to `other` (t = ONE);
    /// the fixed-point factor `t` is first limited to `[0, ONE]`.
    pub fn lerp(&self, other: &Color, t: i64) -> (c: Color)
        ensures
            c == lerp_spec(*self, *other, t as int),
    {
        let u: i64 = if t < 0 {
            0
        } else if t > ONE {
            ONE
        } else {
            t
        };
        Color {
            r: lerp_u8(self.r, other.r, u),
            g: lerp_u8(self.g, other.g, u),
            b: lerp_u8(self.b, other.b, u),
        }
    }

    /// Every channel multiplied by the fixed-point factor `f`, each limited to `[0, 255]`.
    pub fn scale(&self, f: i64) -> (c: Color)
        ensures
            c == scale_spec(*self, f as int),
    {
        Color { r: scale_u8(self.r, f), g: scale_u8(self.g, f), b: scale_u8(self.b, f) }
    }

    /// The color packed as `0xRRGGBB`.
    pub fn to_hex(&self) -> (h: u32)
        ensures
            h == hex_spec(*self),
            h < 0x1000000,
    {
        (self.r as u32) * 65536 + (self.g as u32) * 256 + (self.b as u32)
    }
}

/// Interpolation returns its first color at factor 0, its second at factor
/// ONE, and at every factor each channel stays between the two end channels,
/// hence within `[0, 255]`.
pub proof fn lemma_lerp_ends_and_bounds(a: Color, c: Color, t: int)
    ensures
        lerp_spec(a, c, 0) == a,
        lerp_spec(a, c, ONE as int) == c,
        ({
            let m = lerp_spec(a, c, t);
            &&& (a.r <= c.r ==> a.r <= m.r <= c.r) &&& (c.r <= a.r ==> c.r <= m.r <= a.r)
            &&& (a.g <= c.g ==> a.g <= m.g <= c.g) &&& (c.g <= a.g ==> c.g <= m.g <= a.g)
            &&& (a.b <= c.b ==> a.b <= m.b <= c.b) &&& (c.b <= a.b ==> c.b <= m.b <= a.b)
        }),
{
    lemma_lerp_channel_between(a.r, c.r, t);
    lemma_lerp_channel_between(a.g, c.g, t);
    lemma_lerp_channel_between(a.b, c.b, t);
}

} // verus!
