//! Fixed-point arithmetic helpers: clamping, integer square roots, floor
//! division, angle wrapping and milli-scaled trigonometry.
//!
//! Angles are measured in milli-degrees (a full turn is 360 000) and
//! trigonometric values in milli-units (1000 is one).

use vstd::prelude::*;
use vstd::arithmetic::div_mod::{lemma_fundamental_div_mod, lemma_fundamental_div_mod_converse};
use vstd::arithmetic::mul::lemma_mul_upper_bound;

verus! {

/// Milli-degrees in one full turn.
pub const FULL_TURN: i32 = 360_000;

/// `v` forced into `[lo, hi]`.
pub open spec fn spec_clamp(v: int, lo: int, hi: int) -> int {
    if v < lo {
        lo
    } else if v > hi {
        hi
    } else {
        v
    }
}

/// Clamps a 64-bit value into `[lo, hi]`.
pub fn clamp_i64(v: i64, lo: i64, hi: i64) -> (r: i64)
    requires
        lo <= hi,
    ensures
        r == spec_clamp(v as int, lo as int, hi as int),
{
    if v < lo {
        lo
    } else if v > hi {
        hi
    } else {
        v
    }
}

/// Adds two 32-bit values, clamping the result into the 32-bit range.
pub fn sat_add_i32(a: i32, b: i32) -> (r: i32)
    ensures
        r == spec_clamp(a + b, i32::MIN as int, i32::MAX as int),
{
    let s: i64 = a as i64 + b as i64;
    if s > i32::MAX as i64 {
        i32::MAX
    } else if s < i32::MIN as i64 {
        i32::MIN
    } else {
        s as i32
    }
}

/// The integer square root: the largest `r` with `r * r <= n`.
pub open spec fn spec_isqrt(n: nat) -> nat
    decreases n,
{
    if n == 0 {
        0
    } else {
        let p = spec_isqrt((n - 1) as nat);
        if (p + 1) * (p + 1) <= n {
            p + 1
        } else {
            p
        }
    }
}

pub proof fn lemma_isqrt_bounds(n: nat)
    ensures
        spec_isqrt(n) * spec_isqrt(n) <= n,
        n < (spec_isqrt(n) + 1) * (spec_isqrt(n) + 1),
    decreases n,
{
    if n == 0 {
        assert(spec_isqrt(0) == 0);
        assert(n < (spec_isqrt(n) + 1) * (spec_isqrt(n) + 1)) by (nonlinear_arith)
            requires
                n == 0,
                spec_isqrt(n) == 0,
        ;
    } else {
        lemma_isqrt_bounds((n - 1) as nat);
        let p = spec_isqrt((n - 1) as nat);
        assert(p * p <= n - 1 && n - 1 < (p + 1) * (p + 1));
        if (p + 1) * (p + 1) <= n {
            assert(spec_isqrt(n) == p + 1);
            assert(n < (p + 2) * (p + 2)) by (nonlinear_arith)
                requires
                    (n - 1) < (p + 1) * (p + 1),
                    p >= 0,
            ;
            assert(n < (spec_isqrt(n) + 1) * (spec_isqrt(n) + 1)) by (nonlinear_arith)
                requires
                    spec_isqrt(n) == p + 1,
                    n < (p + 2) * (p + 2),
            ;
        } else {
            assert(spec_isqrt(n) == p);
            assert(p * p <= n);
            assert(n < (spec_isqrt(n) + 1) * (spec_isqrt(n) + 1)) by (nonlinear_arith)
                requires
                    spec_isqrt(n) == p,
                    n < (p + 1) * (p + 1),
            ;
        }
    }
}

/// A value within the square-root bounds is the integer square root.
pub proof fn lemma_isqrt_unique(n: nat, r: nat)
    requires
        r * r <= n,
        n < (r + 1) * (r + 1),
    ensures
        r == spec_isqrt(n),
{
    lemma_isqrt_bounds(n);
    let s = spec_isqrt(n);
    assert(r == s) by (nonlinear_arith)
        requires
            r * r <= n,
            n < (r + 1) * (r + 1),
            s * s <= n,
            n < (s + 1) * (s + 1),
            r >= 0,
            s >= 0,
    ;
}

/// Computes the integer square root by binary search.
pub fn isqrt_u64(n: u64) -> (r: u64)
    ensures
        r == spec_isqrt(n as nat),
        r * r <= n,
        n < (r + 1) * (r + 1),
{
    let mut lo: u64 = 0;
    let mut hi: u64 = 4294967296;
    while lo + 1 < hi
        invariant
            lo < hi <= 4294967296,
            lo * lo <= n,
            n < hi * hi,
        decreases hi - lo,
    {
        let mid = lo + (hi - lo) / 2;
        assert(lo < mid < hi);
        proof {
            lemma_mul_upper_bound(mid as int, 4294967295, mid as int, 4294967295);
        }
        if mid * mid <= n {
            lo = mid;
        } else {
            hi = mid;
        }
    }
    proof {
        lemma_isqrt_unique(n as nat, lo as nat);
    }
    lo
}

/// Floor division: the unique `q` with `q * b <= a < (q + 1) * b`.
pub fn div_floor_i64(a: i64, b: i64) -> (q: i64)
    requires
        1 <= b,
        -0x4000_0000_0000_0000 <= a <= 0x4000_0000_0000_0000,
    ensures
        q == a as int / b as int,
{
    if a >= 0 {
        let q = (a as u64) / (b as u64);
        proof {
            lemma_fundamental_div_mod(a as int, b as int);
            lemma_fundamental_div_mod_converse(
                a as int,
                b as int,
                (a as u64 / b as u64) as int,
                (a as u64 % b as u64) as int,
            );
        }
        q as i64
    } else {
        let na = (-a) as u64;
        let bu = b as u64;
        let q0 = na / bu;
        let r0 = na % bu;
        proof {
            lemma_fundamental_div_mod(na as int, bu as int);
            assert(na == bu * q0 + r0);
            if r0 == 0 {
                assert(a as int == (-(q0 as int)) * (b as int) + 0) by (nonlinear_arith)
                    requires
                        na == bu * q0,
                        a as int == -(na as int),
                        bu == b as int,
                ;
                lemma_fundamental_div_mod_converse(a as int, b as int, -(q0 as int), 0);
            } else {
                assert(a as int == (-(q0 as int) - 1) * (b as int) + (b - r0)) by (nonlinear_arith)
                    requires
                        na == bu * q0 + r0,
                        a as int == -(na as int),
                        bu == b as int,
                ;
                lemma_fundamental_div_mod_converse(a as int, b as int, -(q0 as int) - 1, b - r0);
            }
        }
        if r0 == 0 {
            -(q0 as i64)
        } else {
            -((q0 + 1) as i64)
        }
    }
}

/// Sine of `d` degrees, for `d` in `[0, 180]`, in milli-units: the
/// rational approximation `4000 d (180 - d) / (40500 - d (180 - d))`.
pub open spec fn spec_sin_half_milli(d: int) -> int {
    4000 * d * (180 - d) / (40500 - d * (180 - d))
}

/// Sine of `d` degrees, for `d` in `[0, 360)`, in milli-units.
pub open spec fn spec_sin_milli(d: int) -> int {
    if d <= 180 {
        spec_sin_half_milli(d)
    } else {
        -spec_sin_half_milli(d - 180)
    }
}

/// Cosine of `d` degrees, for `d` in `[0, 360)`, in milli-units.
pub open spec fn spec_cos_milli(d: int) -> int {
    if d < 270 {
        spec_sin_milli(d + 90)
    } else {
        spec_sin_milli(d - 270)
    }
}

/// Sine in milli-units over half a turn of whole degrees.
pub fn sin_half_milli(d: u32) -> (r: u32)
    requires
        d <= 180,
    ensures
        r == spec_sin_half_milli(d as int),
        r <= 1000,
{
    proof {
        lemma_mul_upper_bound(d as int, 180, (180 - d) as int, 180);
    }
    let prod: u32 = d * (180 - d);
    assert(prod <= 8100) by (nonlinear_arith)
        requires
            0 <= d <= 180,
            prod == d * (180 - d),
    ;
    let num: u32 = 4000 * prod;
    let den: u32 = 40500 - prod;
    let r = num / den;
    assert(num <= 1000 * den);
    assert(num / den <= 1000) by (nonlinear_arith)
        requires
            num <= 1000 * den,
            den >= 1,
    ;
    assert(4000 * (d as int) * (180 - d as int) == num as int) by (nonlinear_arith)
        requires
            prod == d * (180 - d),
            num == 4000 * prod,
            0 <= d <= 180,
    ;
    r
}

/// Sine in milli-units over a full turn of whole degrees.
pub fn sin_milli(d: u32) -> (r: i32)
    requires
        d < 360,
    ensures
        r == spec_sin_milli(d as int),
        -1000 <= r <= 1000,
{
    if d <= 180 {
        sin_half_milli(d) as i32
    } else {
        -(sin_half_milli(d - 180) as i32)
    }
}

/// Cosine in milli-units over a full turn of whole degrees.
pub fn cos_milli(d: u32) -> (r: i32)
    requires
        d < 360,
    ensures
        r == spec_cos_milli(d as int),
        -1000 <= r <= 1000,
{
    if d < 270 {
        sin_milli(d + 90)
    } else {
        sin_milli(d - 270)
    }
}

} // verus!
