//! Boid colors.
//!
//! A color is a hue/saturation/lightness triple in fixed point: hue in
//! milli-degrees within `[0, 360_000]`, saturation and lightness in
//! milli-units within `[0, 1000]`. Blending moves a color a fixed fraction
//! of the way toward a target, rounding toward zero.

use crate::math::{div_tz, div_tz_i64, lemma_div_tz_le, lemma_div_tz_sign};
use crate::rng::random_u32;
use vstd::prelude::*;

verus! {

/// Largest hue, in milli-degrees.
pub const HUE_LIMIT: i64 = 360_000;

/// Largest saturation or lightness, in milli-units.
pub const SL_LIMIT: i64 = 1000;

/// A hue/saturation/lightness triple in fixed point.
#[derive(Clone, Copy, Debug, PartialEq, Eq, Structural)]
pub struct SimpleColor {
    pub h: i64,
    pub s: i64,
    pub l: i64,
}

/// One component moved `1/d` of the way toward `t`, rounding toward zero.
pub open spec fn lerp_toward(c: int, t: int, d: int) -> int
    recommends
        d > 0,
{
    c + div_tz(t - c, d)
}

/// A whole color moved `1/d` of the way toward `t`.
pub open spec fn color_lerp(c: SimpleColor, t: SimpleColor, d: int) -> SimpleColor
    recommends
        d > 0,
{
    SimpleColor {
        h: lerp_toward(c.h as int, t.h as int, d) as i64,
        s: lerp_toward(c.s as int, t.s as int, d) as i64,
        l: lerp_toward(c.l as int, t.l as int, d) as i64,
    }
}

/// A blend step lands between its endpoints.
pub proof fn lemma_lerp_between(c: int, t: int, d: int)
    requires
        d > 0,
    ensures
        c <= t ==> c <= lerp_toward(c, t, d) <= t,
        t <= c ==> t <= lerp_toward(c, t, d) <= c,
{
    lemma_div_tz_le(t - c, d);
    lemma_div_tz_sign(t - c, d);
}

impl SimpleColor {
    /// Components within the hue and saturation/lightness scales.
    pub open spec fn wf(self) -> bool {
        &&& 0 <= self.h <= HUE_LIMIT
        &&& 0 <= self.s <= SL_LIMIT
        &&& 0 <= self.l <= SL_LIMIT
    }

    /// Moves this color `1/d` of the way toward `t`.
    pub fn lerp(self, t: SimpleColor, d: i64) -> (r: SimpleColor)
        requires
            0 < d,
            self.wf(),
            t.wf(),
        ensures
            r == color_lerp(self, t, d as int),
            r.wf(),
    {
        proof {
            lemma_lerp_between(self.h as int, t.h as int, d as int);
            lemma_lerp_between(self.s as int, t.s as int, d as int);
            lemma_lerp_between(self.l as int, t.l as int, d as int);
        }
        SimpleColor {
            h: self.h + div_tz_i64(t.h - self.h, d),
            s: self.s + div_tz_i64(t.s - self.s, d),
            l: self.l + div_tz_i64(t.l - self.l, d),
        }
    }

    /// An arbitrary hue and saturation at lightness 0.7, as a spawn color.
    pub fn random() -> (r: SimpleColor)
        ensures
            r.wf(),
            0 <= r.h < HUE_LIMIT,
            0 <= r.s < SL_LIMIT,
            r.l == 700,
    {
        let h32: u32 = random_u32() % 360_000;
        let s32: u32 = random_u32() % 1000;
        SimpleColor { h: h32 as i64, s: s32 as i64, l: 700 }
    }
}

impl Default for SimpleColor {
    /// The all-zero color.
    fn default() -> (r: SimpleColor)
        ensures
            r == (SimpleColor { h: 0, s: 0, l: 0 }),
            r.wf(),
    {
        SimpleColor { h: 0, s: 0, l: 0 }
    }
}

} // verus!
