//! Integer helpers for the fixed-point pipeline: truncating division and
//! integer square roots, with the facts about them the steering and speed
//! proofs rely on.

use vstd::prelude::*;

verus! {

/// Division rounding toward zero, the rounding every fixed-point scale in
/// the pipeline uses.
pub open spec fn div_tz(a: int, d: int) -> int
    recommends
        d > 0,
{
    if a >= 0 {
        a / d
    } else {
        -((-a) / d)
    }
}

/// A quotient toward zero lies within any symmetric bound of the dividend.
pub proof fn lemma_div_tz_bound(a: int, d: int, b: int)
    requires
        d > 0,
        b >= 0,
        -(b * d) <= a <= b * d,
    ensures
        -b <= div_tz(a, d) <= b,
{
    if a >= 0 {
        assert(a / d <= b && a / d >= 0) by (nonlinear_arith)
            requires
                d > 0,
                b >= 0,
                0 <= a <= b * d,
        ;
    } else {
        assert((-a) / d <= b && (-a) / d >= 0) by (nonlinear_arith)
            requires
                d > 0,
                b >= 0,
                0 <= -a <= b * d,
        ;
    }
}

/// Division toward zero never grows the magnitude.
pub proof fn lemma_div_tz_le(a: int, d: int)
    requires
        d > 0,
    ensures
        -(if a >= 0 { a } else { -a }) <= div_tz(a, d) <= (if a >= 0 { a } else { -a }),
{
    let m: int = if a >= 0 { a } else { -a };
    assert(m * d >= m) by (nonlinear_arith)
        requires
            d > 0,
            m >= 0,
    ;
    lemma_div_tz_bound(a, d, m);
}

/// Componentwise magnitude bounds multiply through a product.
pub proof fn lemma_mul_bound(a: int, b: int, ba: int, bb: int)
    requires
        -ba <= a <= ba,
        -bb <= b <= bb,
    ensures
        -(ba * bb) <= a * b <= ba * bb,
{
    assert(-(ba * bb) <= a * b <= ba * bb) by (nonlinear_arith)
        requires
            -ba <= a <= ba,
            -bb <= b <= bb,
    ;
}

/// Division toward zero keeps the dividend's sign.
pub proof fn lemma_div_tz_sign(a: int, d: int)
    requires
        d > 0,
    ensures
        a >= 0 ==> div_tz(a, d) >= 0,
        a <= 0 ==> div_tz(a, d) <= 0,
{
    if a >= 0 {
        assert(a / d >= 0) by (nonlinear_arith)
            requires
                d > 0,
                a >= 0,
        ;
    } else {
        assert((-a) / d >= 0) by (nonlinear_arith)
            requires
                d > 0,
                -a >= 0,
        ;
    }
}

/// Computes `div_tz(a, d)` on machine integers.
pub fn div_tz_i64(a: i64, d: i64) -> (r: i64)
    requires
        0 < d,
        -0x4000_0000_0000_0000 <= a <= 0x4000_0000_0000_0000,
    ensures
        r == div_tz(a as int, d as int),
{
    if a >= 0 {
        ((a as u64) / (d as u64)) as i64
    } else {
        let m: u64 = (-a) as u64;
        let q: u64 = m / (d as u64);
        proof {
            assert(q <= m) by (nonlinear_arith)
                requires
                    d >= 1,
                    q == m as int / d as int,
                    m >= 0,
            ;
        }
        -(q as i64)
    }
}

/// `r` is the integer square root of `n`, rounded down.
pub open spec fn is_sqrt_floor(r: int, n: int) -> bool {
    0 <= r && r * r <= n && n < (r + 1) * (r + 1)
}

/// The integer square root of `n`, rounded down.
pub open spec fn sqrt_floor(n: nat) -> nat
    decreases n,
{
    if n == 0 {
        0
    } else {
        let p = sqrt_floor((n - 1) as nat);
        if (p + 1) * (p + 1) <= n {
            p + 1
        } else {
            p
        }
    }
}

/// `sqrt_floor` satisfies the square-root characterization.
pub proof fn lemma_sqrt_floor_is(n: nat)
    ensures
        is_sqrt_floor(sqrt_floor(n) as int, n as int),
    decreases n,
{
    if n == 0 {
    } else {
        lemma_sqrt_floor_is((n - 1) as nat);
        let p = sqrt_floor((n - 1) as nat) as int;
        if (p + 1) * (p + 1) <= n {
            assert(n < (p + 2) * (p + 2)) by (nonlinear_arith)
                requires
                    n - 1 < (p + 1) * (p + 1),
                    p >= 0,
            ;
        }
    }
}

/// The square-root characterization has a single solution.
pub proof fn lemma_sqrt_floor_unique(r: int, n: int)
    requires
        n >= 0,
        is_sqrt_floor(r, n),
    ensures
        r == sqrt_floor(n as nat),
{
    lemma_sqrt_floor_is(n as nat);
    let s = sqrt_floor(n as nat) as int;
    assert(r == s) by (nonlinear_arith)
        requires
            0 <= r && r * r <= n && n < (r + 1) * (r + 1),
            0 <= s && s * s <= n && n < (s + 1) * (s + 1),
    ;
}

/// The rounded-down square root is monotone.
pub proof fn lemma_sqrt_floor_mono(a: nat, b: nat)
    requires
        a <= b,
    ensures
        sqrt_floor(a) <= sqrt_floor(b),
{
    lemma_sqrt_floor_is(a);
    lemma_sqrt_floor_is(b);
    let sa = sqrt_floor(a) as int;
    let sb = sqrt_floor(b) as int;
    assert(sa <= sb) by (nonlinear_arith)
        requires
            0 <= sa && sa * sa <= a,
            0 <= sb && b < (sb + 1) * (sb + 1),
            a <= b,
    ;
}

/// On a perfect square the rounded-down root is exact.
pub proof fn lemma_sqrt_floor_square(k: nat)
    ensures
        sqrt_floor(k * k) == k,
{
    assert((k as int) * (k as int) < ((k + 1) as int) * ((k + 1) as int)) by (nonlinear_arith);
    lemma_sqrt_floor_unique(k as int, (k * k) as int);
}

/// Computes the integer square root of `n`, rounded down.
pub fn isqrt(n: u128) -> (r: u64)
    ensures
        is_sqrt_floor(r as int, n as int),
        r == sqrt_floor(n as nat),
{
    if n == 0 {
        proof {
            lemma_sqrt_floor_unique(0, n as int);
        }
        return 0;
    }
    let mut lo: u128 = 0;
    let mut hi: u128 = 0x1_0000_0000_0000_0000;
    proof {
        assert((hi as int) * (hi as int) > n) by (nonlinear_arith)
            requires
                hi == 0x1_0000_0000_0000_0000,
                n < 0x1_0000_0000_0000_0000_0000_0000_0000_0000,
        ;
    }
    while lo + 1 < hi
        invariant
            lo < hi,
            hi <= 0x1_0000_0000_0000_0000,
            (lo as int) * (lo as int) <= n,
            (n as int) < (hi as int) * (hi as int),
        decreases hi - lo,
    {
        let mid: u128 = lo + (hi - lo) / 2;
        proof {
            assert(0 <= mid * mid <= 0xffff_ffff_ffff_fffe_0000_0000_0000_0001u128) by (nonlinear_arith)
                requires
                    mid <= 0xffff_ffff_ffff_ffffu128,
            ;
        }
        if mid * mid <= n {
            lo = mid;
        } else {
            hi = mid;
        }
    }
    proof {
        lemma_sqrt_floor_unique(lo as int, n as int);
        assert(lo <= 0xffff_ffff_ffff_ffffu128);
    }
    lo as u64
}

} // verus!
