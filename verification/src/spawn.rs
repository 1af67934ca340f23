//! Flock spawning.
//!
//! Initial positions come from a low-discrepancy 2D sequence — the
//! radical-inverse (Halton) fractions in bases 2 and 3, kept as exact
//! integer fractions and scaled into the world bounds — which avoids the
//! clustering of uniform random placement. Velocities draw a random
//! component from `[-boid_speed, boid_speed)` per axis; the spawn
//! heading faces +x, and the color starts at the all-zero baseline.

use crate::boid::Boid;
use crate::color::SimpleColor;
use crate::params::{Values, SPEED_LIMIT, WORLD_LIMIT};
use crate::rng::random_u32;
use crate::vec2::{bounded, Vec2I, POS_LIMIT, SCALE};
use vstd::prelude::*;

verus! {

/// Numerator of the base-2 radical inverse of `n`: the binary digits of
/// `n` mirrored about the point.
pub open spec fn hnum2(n: nat) -> nat
    decreases n,
{
    if n == 0 {
        0
    } else {
        (n % 2) * hden2(n / 2) + hnum2(n / 2)
    }
}

/// Denominator of the base-2 radical inverse of `n`: two to the number
/// of binary digits of `n`.
pub open spec fn hden2(n: nat) -> nat
    decreases n,
{
    if n == 0 {
        1
    } else {
        2 * hden2(n / 2)
    }
}

/// Numerator of the base-3 radical inverse of `n`.
pub open spec fn hnum3(n: nat) -> nat
    decreases n,
{
    if n == 0 {
        0
    } else {
        (n % 3) * hden3(n / 3) + hnum3(n / 3)
    }
}

/// Denominator of the base-3 radical inverse of `n`.
pub open spec fn hden3(n: nat) -> nat
    decreases n,
{
    if n == 0 {
        1
    } else {
        3 * hden3(n / 3)
    }
}

/// The base-2 radical inverse is a fraction in `[0, 1)` with a small
/// denominator.
pub proof fn lemma_halton2_bounds(n: nat)
    ensures
        hnum2(n) < hden2(n),
        1 <= hden2(n),
        n >= 1 ==> hden2(n) <= 2 * n,
    decreases n,
{
    if n > 0 {
        lemma_halton2_bounds(n / 2);
        assert((n % 2) * hden2(n / 2) + hnum2(n / 2) < 2 * hden2(n / 2)) by (nonlinear_arith)
            requires
                n % 2 <= 1,
                hnum2(n / 2) < hden2(n / 2),
                1 <= hden2(n / 2),
        ;
    }
}

/// The base-3 radical inverse is a fraction in `[0, 1)` with a small
/// denominator.
pub proof fn lemma_halton3_bounds(n: nat)
    ensures
        hnum3(n) < hden3(n),
        1 <= hden3(n),
        n >= 1 ==> hden3(n) <= 3 * n,
    decreases n,
{
    if n > 0 {
        lemma_halton3_bounds(n / 3);
        assert((n % 3) * hden3(n / 3) + hnum3(n / 3) < 3 * hden3(n / 3)) by (nonlinear_arith)
            requires
                n % 3 <= 2,
                hnum3(n / 3) < hden3(n / 3),
                1 <= hden3(n / 3),
        ;
    }
}

/// Computes the base-2 radical inverse of `n` as a fraction.
fn halton2(n: u64) -> (r: (u64, u64))
    requires
        n <= 0x100_0000,
    ensures
        r.0 == hnum2(n as nat),
        r.1 == hden2(n as nat),
        r.0 < r.1,
        1 <= r.1,
        r.1 <= (if n == 0 {
            1int
        } else {
            2 * n
        }),
    decreases n,
{
    proof {
        lemma_halton2_bounds(n as nat);
    }
    if n == 0 {
        (0, 1)
    } else {
        let (nm, dn) = halton2(n / 2);
        proof {
            lemma_halton2_bounds((n / 2) as nat);
            assert((n as nat % 2) * (dn as nat) <= dn as nat) by (nonlinear_arith)
                requires
                    n as nat % 2 <= 1,
            ;
        }
        ((n % 2) * dn + nm, 2 * dn)
    }
}

/// Computes the base-3 radical inverse of `n` as a fraction.
fn halton3(n: u64) -> (r: (u64, u64))
    requires
        n <= 0x100_0000,
    ensures
        r.0 == hnum3(n as nat),
        r.1 == hden3(n as nat),
        r.0 < r.1,
        1 <= r.1,
        r.1 <= (if n == 0 {
            1int
        } else {
            3 * n
        }),
    decreases n,
{
    proof {
        lemma_halton3_bounds(n as nat);
    }
    if n == 0 {
        (0, 1)
    } else {
        let (nm, dn) = halton3(n / 3);
        proof {
            lemma_halton3_bounds((n / 3) as nat);
            assert((n as nat % 3) * (dn as nat) <= 2 * (dn as nat)) by (nonlinear_arith)
                requires
                    n as nat % 3 <= 2,
            ;
        }
        ((n % 3) * dn + nm, 3 * dn)
    }
}

/// A fraction `num/den` of `[0, 1)` scaled onto a world axis of length
/// `w` and centered: the coordinate `num * w / den - w / 2`.
pub open spec fn halton_coord(num: nat, den: nat, w: int) -> int {
    (num * w) / (den as int) - w / 2
}

/// The spawn position of agent `i`: the `(i+1)`-th element of the 2D
/// Halton sequence in bases 2 and 3, scaled into the centered
/// `width x height` world.
pub open spec fn spawn_pos(i: nat, width: int, height: int) -> Vec2I {
    Vec2I {
        x: halton_coord(hnum2(i + 1), hden2(i + 1), width) as i64,
        y: halton_coord(hnum3(i + 1), hden3(i + 1), height) as i64,
    }
}

/// Scales a fraction onto a centered world axis.
fn to_coord(num: u64, den: u64, w: i64) -> (r: i64)
    requires
        1 <= den <= 0x800_0000,
        num < den,
        0 < w <= WORLD_LIMIT,
    ensures
        r == halton_coord(num as nat, den as nat, w as int),
        -(w / 2) <= r < w - w / 2,
        -POS_LIMIT <= r <= POS_LIMIT,
{
    proof {
        crate::math::lemma_mul_bound(num as int, w as int, 0x800_0000, WORLD_LIMIT as int);
    }
    let q128: u128 = (num as u128) * (w as u128) / (den as u128);
    proof {
        assert((q128 as int) == ((num as int) * (w as int)) / (den as int));
        assert((q128 as int) < (w as int)) by (nonlinear_arith)
            requires
                (q128 as int) == ((num as int) * (w as int)) / (den as int),
                0 <= (num as int),
                (num as int) < (den as int),
                0 < (w as int),
        ;
    }
    let q = q128 as u64;
    let half = ((w as u64) / 2) as i64;
    proof {
        assert(half == w as int / 2);
    }
    (q as i64) - half
}

/// Draws a random value from the half-open interval `[-s, s)`; zero when
/// `s` is zero.
fn rand_range_sym(s: i64) -> (r: i64)
    requires
        0 <= s <= SPEED_LIMIT,
    ensures
        -s <= r <= s,
        s > 0 ==> r < s,
{
    if s == 0 {
        return 0;
    }
    let m: u64 = (2 * s) as u64;
    let x: u64 = (random_u32() as u64) % m;
    (x as i64) - s
}

/// Spawns the flock: `boid_count` agents on the 2D Halton sequence over
/// the centered `width x height` world, each with a random velocity
/// component in `[-boid_speed, boid_speed)` per axis, facing +x, at the
/// zero start color.
pub fn boid_setup(values: &Values, width: i64, height: i64) -> (r: Vec<Boid>)
    requires
        values.wf(),
        0 < width <= WORLD_LIMIT,
        0 < height <= WORLD_LIMIT,
    ensures
        r@.len() == values.boid_count,
        forall|i: int|
            0 <= i < r@.len() ==> {
                let b = #[trigger] r@[i];
                &&& b.wf()
                &&& b.pos == spawn_pos(i as nat, width as int, height as int)
                &&& -(width / 2) <= b.pos.x < width - width / 2
                &&& -(height / 2) <= b.pos.y < height - height / 2
                &&& b.heading == (Vec2I { x: SCALE, y: 0 })
                &&& bounded(b.vel, values.boid_speed as int)
                &&& (values.boid_speed > 0 ==> b.vel.x < values.boid_speed && b.vel.y
                    < values.boid_speed)
                &&& b.color == (SimpleColor { h: 0, s: 0, l: 0 })
                &&& b.start_color == (SimpleColor { h: 0, s: 0, l: 0 })
            },
{
    let mut out: Vec<Boid> = Vec::new();
    let mut i: u32 = 0;
    while i < values.boid_count
        invariant
            i <= values.boid_count,
            values.wf(),
            0 < width <= WORLD_LIMIT,
            0 < height <= WORLD_LIMIT,
            out@.len() == i,
            forall|q: int|
                0 <= q < i ==> {
                    let b = #[trigger] out@[q];
                    &&& b.wf()
                    &&& b.pos == spawn_pos(q as nat, width as int, height as int)
                    &&& -(width / 2) <= b.pos.x < width - width / 2
                    &&& -(height / 2) <= b.pos.y < height - height / 2
                    &&& b.heading == (Vec2I { x: SCALE, y: 0 })
                    &&& bounded(b.vel, values.boid_speed as int)
                    &&& (values.boid_speed > 0 ==> b.vel.x < values.boid_speed && b.vel.y
                        < values.boid_speed)
                    &&& b.color == (SimpleColor { h: 0, s: 0, l: 0 })
                    &&& b.start_color == (SimpleColor { h: 0, s: 0, l: 0 })
                },
        decreases values.boid_count - i,
    {
        let n64: u64 = (i + 1) as u64;
        let (n2, d2) = halton2(n64);
        let (n3, d3) = halton3(n64);
        let px = to_coord(n2, d2, width);
        let py = to_coord(n3, d3, height);
        let vx = rand_range_sym(values.boid_speed);
        let vy = rand_range_sym(values.boid_speed);
        let start = SimpleColor { h: 0, s: 0, l: 0 };
        let b = Boid {
            pos: Vec2I { x: px, y: py },
            vel: Vec2I { x: vx, y: vy },
            heading: Vec2I { x: SCALE, y: 0 },
            color: start,
            start_color: start,
        };
        proof {
            assert(b.wf());
        }
        out.push(b);
        i = i + 1;
    }
    out
}

} // verus!
