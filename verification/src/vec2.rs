//! Fixed-point 2D vectors.
//!
//! World geometry is carried in milli-units: one world unit is [`SCALE`]
//! raw units. Positions, velocities and steering deltas are all `Vec2I`
//! values whose components stay inside the limits below, so every product
//! taken in the pipeline fits its machine integer.

use vstd::prelude::*;

verus! {

/// Raw units per world unit.
pub const SCALE: i64 = 1000;

/// Largest magnitude a position component may take.
pub const POS_LIMIT: i64 = 0x2000_0000;

/// Largest magnitude a velocity component may take.
pub const VEL_LIMIT: i64 = 0x100_0000;

/// Largest magnitude a per-tick steering delta component may take.
pub const DV_LIMIT: i64 = 0x8000_0000;

/// A point or direction of the plane, in raw (milli-unit) coordinates.
#[derive(Clone, Copy, Debug, PartialEq, Eq, Structural)]
pub struct Vec2I {
    pub x: i64,
    pub y: i64,
}

/// The squared Euclidean norm, as a mathematical integer.
pub open spec fn norm_sq(v: Vec2I) -> int {
    v.x * v.x + v.y * v.y
}

/// The squared Euclidean distance between two points.
pub open spec fn dist_sq(a: Vec2I, b: Vec2I) -> int {
    (b.x - a.x) * (b.x - a.x) + (b.y - a.y) * (b.y - a.y)
}

/// Both components within `b` in magnitude.
pub open spec fn bounded(v: Vec2I, b: int) -> bool {
    -b <= v.x <= b && -b <= v.y <= b
}

impl Vec2I {
    pub fn new(x: i64, y: i64) -> (r: Vec2I)
        ensures
            r == (Vec2I { x, y }),
    {
        Vec2I { x, y }
    }

    pub open spec fn is_zero(self) -> bool {
        self.x == 0 && self.y == 0
    }
}

/// A squared bound on an integer bounds the integer itself.
pub proof fn lemma_sq_le_bound(x: int, b: int)
    requires
        b >= 0,
        x * x <= b * b,
    ensures
        -b <= x <= b,
{
    assert(-b <= x <= b) by (nonlinear_arith)
        requires
            b >= 0,
            x * x <= b * b,
    ;
}

/// Magnitude bounds multiply through a square.
pub proof fn lemma_bound_sq(x: int, b: int)
    requires
        -b <= x <= b,
    ensures
        0 <= x * x <= b * b,
{
    assert(0 <= x * x <= b * b) by (nonlinear_arith)
        requires
            -b <= x <= b,
    ;
}

/// Computes the squared distance between two bounded points exactly.
pub fn dist_sq_exec(a: Vec2I, b: Vec2I) -> (r: u64)
    requires
        bounded(a, POS_LIMIT as int),
        bounded(b, POS_LIMIT as int),
    ensures
        r == dist_sq(a, b),
{
    let dx: i64 = b.x - a.x;
    let dy: i64 = b.y - a.y;
    proof {
        lemma_bound_sq(dx as int, 2 * POS_LIMIT as int);
        lemma_bound_sq(dy as int, 2 * POS_LIMIT as int);
    }
    (dx * dx + dy * dy) as u64
}

} // verus!
