//! The speed clamp of the velocity integrator.
//!
//! After the steering delta and the boundary nudge are applied, a
//! velocity is rescaled onto the configured speed band: up to `min_speed`
//! when too slow, down to `max_speed` when too fast, untouched in
//! between, and given an arbitrary unit heading (+x) when exactly zero —
//! rescaling a zero vector is undefined, so that case is assigned, not
//! computed. Rescaling divides by an integer square root taken at
//! [`NORM_BOOST`] precision, so the resulting speed lands within a few
//! raw units (thousandths of a world unit) of the target: [`speed_ok`]'s
//! band is `[(min-3)^2, (max+1)^2]` on the squared norm.

use crate::math::{
    div_tz, isqrt, lemma_mul_bound, lemma_sqrt_floor_mono, lemma_sqrt_floor_square, sqrt_floor,
};
use crate::params::SPEED_LIMIT;
use crate::vec2::{bounded, lemma_sq_le_bound, norm_sq, Vec2I};
use vstd::arithmetic::div_mod::lemma_fundamental_div_mod;
use vstd::prelude::*;

verus! {

/// Precision of the square root used while rescaling.
pub const NORM_BOOST: i64 = 0x100_0000;

/// Largest magnitude a clamp input component may take: a well-formed
/// velocity plus a steering delta plus a boundary nudge stays within it.
pub const CLAMP_IN_LIMIT: i64 = 0x4_0000_0000;

/// The boosted square root that rescaling divides by.
pub open spec fn scale_denom(v: Vec2I) -> int {
    sqrt_floor((norm_sq(v) * NORM_BOOST * NORM_BOOST) as nat) as int
}

/// The x component of `v` rescaled to speed `m`, rounded toward zero.
pub open spec fn scaled_x(v: Vec2I, m: int) -> int {
    div_tz(v.x * m * NORM_BOOST, scale_denom(v))
}

/// The y component of `v` rescaled to speed `m`, rounded toward zero.
pub open spec fn scaled_y(v: Vec2I, m: int) -> int {
    div_tz(v.y * m * NORM_BOOST, scale_denom(v))
}

/// What the speed clamp returns.
pub open spec fn clamp_speed_spec(v: Vec2I, min: int, max: int) -> Vec2I {
    let n = norm_sq(v);
    if n == 0 {
        Vec2I { x: min as i64, y: 0 }
    } else if n < min * min {
        Vec2I { x: scaled_x(v, min) as i64, y: scaled_y(v, min) as i64 }
    } else if n > max * max {
        Vec2I { x: scaled_x(v, max) as i64, y: scaled_y(v, max) as i64 }
    } else {
        v
    }
}

/// The speed-bound invariant: the squared speed lies on the configured
/// band, up to the fixed-point rounding of one rescale.
pub open spec fn speed_ok(r: Vec2I, min: int, max: int) -> bool {
    (min - 3) * (min - 3) <= norm_sq(r) <= (max + 1) * (max + 1)
}

/// Norm bounds of one rescale: with `s` the boosted root of the squared
/// norm and `qx`, `qy` the rounded rescaled magnitudes, the rescaled
/// squared norm lands within `[(m-3)^2, (m+1)^2]`.
proof fn lemma_scale_norm_bounds(ax: int, ay: int, m: int, s: int, qx: int, qy: int)
    requires
        ax >= 0,
        ay >= 0,
        1 <= ax * ax + ay * ay,
        16 <= m <= SPEED_LIMIT,
        s * s <= (ax * ax + ay * ay) * 0x1000000000000,
        (ax * ax + ay * ay) * 0x1000000000000 < (s + 1) * (s + 1),
        0x1000000 <= s,
        qx * s <= ax * m * 0x1000000,
        ax * m * 0x1000000 < (qx + 1) * s,
        qy * s <= ay * m * 0x1000000,
        ay * m * 0x1000000 < (qy + 1) * s,
        0 <= qx <= m,
        0 <= qy <= m,
    ensures
        (m - 3) * (m - 3) <= qx * qx + qy * qy,
        qx * qx + qy * qy <= (m + 1) * (m + 1),
{
    let p: int = 0x1000000;
    let n = ax * ax + ay * ay;
    let np2 = n * 0x1000000000000;
    let nr = qx * qx + qy * qy;
    // Upper bound: squaring the floor inequalities and summing gives
    // nr * s^2 <= m^2 * n * p^2 < m^2 (s+1)^2 <= (m+1)^2 s^2.
    assert(qx * qx * (s * s) <= (ax * m * p) * (ax * m * p)) by (nonlinear_arith)
        requires
            0 <= qx,
            0 < s,
            qx * s <= ax * m * p,
    ;
    assert(qy * qy * (s * s) <= (ay * m * p) * (ay * m * p)) by (nonlinear_arith)
        requires
            0 <= qy,
            0 < s,
            qy * s <= ay * m * p,
    ;
    assert((ax * m * p) * (ax * m * p) + (ay * m * p) * (ay * m * p) == (m * m) * np2)
        by (nonlinear_arith)
        requires
            n == ax * ax + ay * ay,
            np2 == n * 0x1000000000000,
            p == 0x1000000,
    ;
    assert(nr * (s * s) == qx * qx * (s * s) + qy * qy * (s * s)) by (nonlinear_arith)
        requires
            nr == qx * qx + qy * qy,
    ;
    assert(nr * (s * s) <= (m * m) * np2);
    assert((m * m) * np2 < (m * m) * ((s + 1) * (s + 1))) by (nonlinear_arith)
        requires
            np2 < (s + 1) * (s + 1),
            16 <= m,
    ;
    assert((m * m) * ((s + 1) * (s + 1)) <= ((m + 1) * (m + 1)) * (s * s)) by (nonlinear_arith)
        requires
            16 <= m <= s,
    ;
    assert(nr * (s * s) < ((m + 1) * (m + 1)) * (s * s));
    assert(nr <= (m + 1) * (m + 1)) by (nonlinear_arith)
        requires
            nr * (s * s) < ((m + 1) * (m + 1)) * (s * s),
            s >= 1,
    ;
    // Lower bound: the strict sides give m^2 s^2 < ((qx+1)^2 + (qy+1)^2) s^2,
    // and the rounded magnitudes are at most m each.
    assert((ax * m * p) * (ax * m * p) < ((qx + 1) * (qx + 1)) * (s * s)) by (nonlinear_arith)
        requires
            0 <= ax * m * p,
            ax * m * p < (qx + 1) * s,
            0 <= qx,
            0 < s,
    ;
    assert((ay * m * p) * (ay * m * p) < ((qy + 1) * (qy + 1)) * (s * s)) by (nonlinear_arith)
        requires
            0 <= ay * m * p,
            ay * m * p < (qy + 1) * s,
            0 <= qy,
            0 < s,
    ;
    assert(((qx + 1) * (qx + 1) + (qy + 1) * (qy + 1)) * (s * s) == ((qx + 1) * (qx + 1)) * (s
        * s) + ((qy + 1) * (qy + 1)) * (s * s)) by (nonlinear_arith);
    assert((m * m) * np2 < ((qx + 1) * (qx + 1) + (qy + 1) * (qy + 1)) * (s * s));
    assert((m * m) * (s * s) <= (m * m) * np2) by (nonlinear_arith)
        requires
            s * s <= np2,
            16 <= m,
    ;
    assert(m * m < (qx + 1) * (qx + 1) + (qy + 1) * (qy + 1)) by (nonlinear_arith)
        requires
            (m * m) * (s * s) < ((qx + 1) * (qx + 1) + (qy + 1) * (qy + 1)) * (s * s),
            s >= 1,
    ;
    assert((qx + 1) * (qx + 1) + (qy + 1) * (qy + 1) == nr + 2 * qx + 2 * qy + 2)
        by (nonlinear_arith)
        requires
            nr == qx * qx + qy * qy,
    ;
    assert((m - 3) * (m - 3) <= nr) by (nonlinear_arith)
        requires
            m * m < nr + 2 * qx + 2 * qy + 2,
            qx <= m,
            qy <= m,
            16 <= m,
    ;
}

/// Rescales `v` to speed `m`: each component is `v * m / |v|`, carried
/// out against the boosted integer square root, rounded toward zero.
fn scale_vec(v: Vec2I, m: i64) -> (r: Vec2I)
    requires
        bounded(v, CLAMP_IN_LIMIT as int),
        1 <= norm_sq(v),
        16 <= m <= SPEED_LIMIT,
    ensures
        r.x == scaled_x(v, m as int),
        r.y == scaled_y(v, m as int),
        (m - 3) * (m - 3) <= norm_sq(r) <= (m + 1) * (m + 1),
        bounded(r, m as int),
{
    let ax: u64 = if v.x >= 0 {
        v.x as u64
    } else {
        (-v.x) as u64
    };
    let ay: u64 = if v.y >= 0 {
        v.y as u64
    } else {
        (-v.y) as u64
    };
    proof {
        lemma_mul_bound(ax as int, ax as int, CLAMP_IN_LIMIT as int, CLAMP_IN_LIMIT as int);
        lemma_mul_bound(ay as int, ay as int, CLAMP_IN_LIMIT as int, CLAMP_IN_LIMIT as int);
        assert(ax as int * ax as int == v.x as int * v.x as int) by (nonlinear_arith)
            requires
                ax as int == v.x as int || ax as int == -(v.x as int),
        ;
        assert(ay as int * ay as int == v.y as int * v.y as int) by (nonlinear_arith)
            requires
                ay as int == v.y as int || ay as int == -(v.y as int),
        ;
    }
    let axw: u128 = ax as u128;
    let ayw: u128 = ay as u128;
    let n: u128 = axw * axw + ayw * ayw;
    proof {
        assert(n == norm_sq(v));
    }
    let np: u128 = n * 0x1000000000000u128;
    let s: u64 = isqrt(np);
    let sw: u128 = s as u128;
    proof {
        assert(s as int >= 0x1000000) by (nonlinear_arith)
            requires
                np as int >= 0x1000000000000,
                (np as int) < (s as int + 1) * (s as int + 1),
                s as int >= 0,
        ;
        // s is at least each component's boosted magnitude, so the
        // rescaled magnitudes stay at most m.
        assert((ax as int * 0x1000000) * (ax as int * 0x1000000) == (ax as int * ax as int)
            * 0x1000000000000) by (nonlinear_arith);
        assert((ay as int * 0x1000000) * (ay as int * 0x1000000) == (ay as int * ay as int)
            * 0x1000000000000) by (nonlinear_arith);
        assert((ax as int * ax as int) * 0x1000000000000 <= np as int) by (nonlinear_arith)
            requires
                np as int == (ax as int * ax as int + ay as int * ay as int) * 0x1000000000000,
                0 <= ay as int * ay as int,
        ;
        assert((ay as int * ay as int) * 0x1000000000000 <= np as int) by (nonlinear_arith)
            requires
                np as int == (ax as int * ax as int + ay as int * ay as int) * 0x1000000000000,
                0 <= ax as int * ax as int,
        ;
        lemma_sqrt_floor_square((ax * 0x1000000) as nat);
        lemma_sqrt_floor_square((ay * 0x1000000) as nat);
        lemma_sqrt_floor_mono(((ax * 0x1000000) * (ax * 0x1000000)) as nat, np as nat);
        lemma_sqrt_floor_mono(((ay * 0x1000000) * (ay * 0x1000000)) as nat, np as nat);
        assert(s as int >= ax as int * 0x1000000);
        assert(s as int >= ay as int * 0x1000000);
        lemma_mul_bound(ax as int, m as int, CLAMP_IN_LIMIT as int, SPEED_LIMIT as int);
        lemma_mul_bound(ay as int, m as int, CLAMP_IN_LIMIT as int, SPEED_LIMIT as int);
    }
    let mw: u128 = m as u128;
    let numx: u128 = axw * mw * 0x1000000u128;
    let numy: u128 = ayw * mw * 0x1000000u128;
    let qx: u128 = numx / sw;
    let qy: u128 = numy / sw;
    proof {
        assert((qx as int) * (s as int) <= numx as int && (numx as int) < ((qx as int) + 1) * (
        s as int)) by (nonlinear_arith)
            requires
                qx as int == (numx as int) / (sw as int),
                numx as int >= 0,
                sw as int > 0,
                s as int == sw as int,
        ;
        assert((qy as int) * (s as int) <= numy as int && (numy as int) < ((qy as int) + 1) * (
        s as int)) by (nonlinear_arith)
            requires
                qy as int == (numy as int) / (sw as int),
                numy as int >= 0,
                sw as int > 0,
                s as int == sw as int,
        ;
        assert(qx as int <= m as int) by (nonlinear_arith)
            requires
                qx as int * (s as int) <= (ax as int) * (m as int) * 0x1000000,
                s as int >= (ax as int) * 0x1000000,
                qx as int >= 0,
                m as int >= 0,
                ax as int >= 0,
                s as int >= 1,
        ;
        assert(qy as int <= m as int) by (nonlinear_arith)
            requires
                qy as int * (s as int) <= (ay as int) * (m as int) * 0x1000000,
                s as int >= (ay as int) * 0x1000000,
                qy as int >= 0,
                m as int >= 0,
                ay as int >= 0,
                s as int >= 1,
        ;
        lemma_scale_norm_bounds(
            ax as int,
            ay as int,
            m as int,
            s as int,
            qx as int,
            qy as int,
        );
    }
    let rx: i64 = if v.x >= 0 {
        qx as i64
    } else {
        -(qx as i64)
    };
    let ry: i64 = if v.y >= 0 {
        qy as i64
    } else {
        -(qy as i64)
    };
    let r = Vec2I { x: rx, y: ry };
    proof {
        assert(rx as int * rx as int == qx as int * qx as int) by (nonlinear_arith)
            requires
                rx as int == qx as int || rx as int == -(qx as int),
        ;
        assert(ry as int * ry as int == qy as int * qy as int) by (nonlinear_arith)
            requires
                ry as int == qy as int || ry as int == -(qy as int),
        ;
        // The computed quotients are exactly the specified rescale.
        assert(scale_denom(v) == s as int) by {
            assert((norm_sq(v) * NORM_BOOST * NORM_BOOST) as nat == np as nat)
                by (nonlinear_arith)
                requires
                    norm_sq(v) == n as int,
                    np as int == n as int * 0x1000000000000,
                    NORM_BOOST as int == 0x1000000,
            ;
        }
        if v.x >= 0 {
            assert(v.x * (m as int) * NORM_BOOST == numx as int) by (nonlinear_arith)
                requires
                    v.x as int == ax as int,
                    numx as int == ax as int * m as int * 0x1000000,
                    NORM_BOOST as int == 0x1000000,
            ;
        } else {
            assert(v.x * (m as int) * NORM_BOOST == -(numx as int)) by (nonlinear_arith)
                requires
                    v.x as int == -(ax as int),
                    numx as int == ax as int * m as int * 0x1000000,
                    NORM_BOOST as int == 0x1000000,
            ;
        }
        if v.y >= 0 {
            assert(v.y * (m as int) * NORM_BOOST == numy as int) by (nonlinear_arith)
                requires
                    v.y as int == ay as int,
                    numy as int == ay as int * m as int * 0x1000000,
                    NORM_BOOST as int == 0x1000000,
            ;
        } else {
            assert(v.y * (m as int) * NORM_BOOST == -(numy as int)) by (nonlinear_arith)
                requires
                    v.y as int == -(ay as int),
                    numy as int == ay as int * m as int * 0x1000000,
                    NORM_BOOST as int == 0x1000000,
            ;
        }
        assert(r.x == scaled_x(v, m as int));
        assert(r.y == scaled_y(v, m as int));
    }
    r
}

/// Clamps a velocity onto the configured speed band; a zero velocity is
/// assigned the +x unit heading at `min_speed`, as the zero-rescale guard.
pub fn clamp_speed(v: Vec2I, min_speed: i64, max_speed: i64) -> (r: Vec2I)
    requires
        bounded(v, CLAMP_IN_LIMIT as int),
        16 <= min_speed <= max_speed <= SPEED_LIMIT,
    ensures
        r == clamp_speed_spec(v, min_speed as int, max_speed as int),
        speed_ok(r, min_speed as int, max_speed as int),
        bounded(r, SPEED_LIMIT as int),
        !r.is_zero(),
{
    let ax: u64 = if v.x >= 0 {
        v.x as u64
    } else {
        (-v.x) as u64
    };
    let ay: u64 = if v.y >= 0 {
        v.y as u64
    } else {
        (-v.y) as u64
    };
    proof {
        lemma_mul_bound(ax as int, ax as int, CLAMP_IN_LIMIT as int, CLAMP_IN_LIMIT as int);
        lemma_mul_bound(ay as int, ay as int, CLAMP_IN_LIMIT as int, CLAMP_IN_LIMIT as int);
        assert(ax as int * ax as int == v.x as int * v.x as int) by (nonlinear_arith)
            requires
                ax as int == v.x as int || ax as int == -(v.x as int),
        ;
        assert(ay as int * ay as int == v.y as int * v.y as int) by (nonlinear_arith)
            requires
                ay as int == v.y as int || ay as int == -(v.y as int),
        ;
    }
    let n: u128 = (ax as u128) * (ax as u128) + (ay as u128) * (ay as u128);
    proof {
        assert(n == norm_sq(v));
    }
    let ghost mn: int = min_speed as int;
    let ghost mx: int = max_speed as int;
    if n == 0 {
        let r = Vec2I { x: min_speed, y: 0 };
        proof {
            assert(norm_sq(r) == mn * mn) by (nonlinear_arith)
                requires
                    r.x as int == mn,
                    r.y as int == 0,
                    norm_sq(r) == r.x * r.x + r.y * r.y,
            ;
            assert((mn - 3) * (mn - 3) <= mn * mn && mn * mn <= (mx + 1) * (mx + 1))
                by (nonlinear_arith)
                requires
                    16 <= mn <= mx,
            ;
        }
        return r;
    }
    proof {
        lemma_mul_bound(min_speed as int, min_speed as int, SPEED_LIMIT as int, SPEED_LIMIT as int);
        lemma_mul_bound(max_speed as int, max_speed as int, SPEED_LIMIT as int, SPEED_LIMIT as int);
    }
    let min2: u128 = (min_speed as u128) * (min_speed as u128);
    let max2: u128 = (max_speed as u128) * (max_speed as u128);
    if n < min2 {
        let r = scale_vec(v, min_speed);
        proof {
            assert((mn + 1) * (mn + 1) <= (mx + 1) * (mx + 1)) by (nonlinear_arith)
                requires
                    16 <= mn <= mx,
            ;
            assert(norm_sq(r) > 0) by (nonlinear_arith)
                requires
                    norm_sq(r) >= (mn - 3) * (mn - 3),
                    mn >= 16,
            ;
            assert(!r.is_zero()) by {
                if r.is_zero() {
                    assert(norm_sq(r) == 0) by (nonlinear_arith)
                        requires
                            r.x == 0 && r.y == 0,
                            norm_sq(r) == r.x * r.x + r.y * r.y,
                    ;
                }
            }
        }
        r
    } else if n > max2 {
        let r = scale_vec(v, max_speed);
        proof {
            assert((mn - 3) * (mn - 3) <= (mx - 3) * (mx - 3)) by (nonlinear_arith)
                requires
                    16 <= mn <= mx,
            ;
            assert(norm_sq(r) > 0) by (nonlinear_arith)
                requires
                    norm_sq(r) >= (mx - 3) * (mx - 3),
                    mx >= 16,
            ;
            assert(!r.is_zero()) by {
                if r.is_zero() {
                    assert(norm_sq(r) == 0) by (nonlinear_arith)
                        requires
                            r.x == 0 && r.y == 0,
                            norm_sq(r) == r.x * r.x + r.y * r.y,
                    ;
                }
            }
        }
        r
    } else {
        proof {
            assert((mn - 3) * (mn - 3) <= mn * mn && mx * mx <= (mx + 1) * (mx + 1))
                by (nonlinear_arith)
                requires
                    16 <= mn <= mx,
            ;
            lemma_mul_bound(max_speed as int, max_speed as int, SPEED_LIMIT as int, SPEED_LIMIT as int);
            lemma_sq_le_bound(v.x as int, mx);
            lemma_sq_le_bound(v.y as int, mx);
            assert(norm_sq(v) > 0) by (nonlinear_arith)
                requires
                    norm_sq(v) >= mn * mn,
                    mn >= 16,
            ;
            assert(!v.is_zero()) by {
                if v.is_zero() {
                    assert(norm_sq(v) == 0) by (nonlinear_arith)
                        requires
                            v.x == 0 && v.y == 0,
                            norm_sq(v) == v.x * v.x + v.y * v.y,
                    ;
                }
            }
        }
        v
    }
}

} // verus!

