//! The fire-spread model: neighbourhood geometry, the wind bias and the
//! ignition probability of a cell next to a burning neighbour.
//!
//! All probabilities are milli-units.  The chance that a burning neighbour
//! ignites a cell is
//! `clamp(burn_rate * (1 - moisture) * (1 + wind_factor), 0, 1)`,
//! where the wind factor is `0.131 s (cos a - 1) e^(0.045 s)` for wind
//! strength `s` and `a` the angle between the wind and the direction from
//! the burning neighbour to the cell: a cell directly downwind of the fire
//! keeps the full base chance, every other direction is damped, the more
//! sharply the stronger the wind.

use vstd::prelude::*;
use vstd::arithmetic::mul::lemma_mul_upper_bound;
use crate::fixed::{clamp_i64, div_floor_i64, isqrt_u64, spec_clamp, spec_isqrt};

verus! {

/// Chance per tick, in milli-units, that a burning cell consumes fuel.
pub const BURN_DECAY_CHANCE: u32 = 300;

/// Chance per tick and burning neighbour, in milli-units, that an ignition
/// test is evaluated at all.
pub const FIRE_SPREAD_CHANCE: u32 = 200;

/// Moisture lost, in milli-units, per tick and burning neighbour.
pub const MOISTURE_DECAY_RATE: u32 = 10;

/// The number of cells in a cell's neighbourhood.
pub const NEIGHBOURHOOD_SIZE: usize = 8;

/// The offset of the `i`-th neighbour of a cell, clockwise from the left.
pub open spec fn spec_neighbour_offset(i: int) -> (int, int) {
    if i == 0 {
        (-1, 0)
    } else if i == 1 {
        (-1, 1)
    } else if i == 2 {
        (0, 1)
    } else if i == 3 {
        (1, 1)
    } else if i == 4 {
        (1, 0)
    } else if i == 5 {
        (1, -1)
    } else if i == 6 {
        (0, -1)
    } else {
        (-1, -1)
    }
}

/// The offset of the `i`-th neighbour of a cell.
pub fn neighbour_offset(i: usize) -> (r: (i32, i32))
    requires
        i < NEIGHBOURHOOD_SIZE,
    ensures
        (r.0 as int, r.1 as int) == spec_neighbour_offset(i as int),
        -1 <= r.0 <= 1,
        -1 <= r.1 <= 1,
        !(r.0 == 0 && r.1 == 0),
{
    if i == 0 {
        (-1, 0)
    } else if i == 1 {
        (-1, 1)
    } else if i == 2 {
        (0, 1)
    } else if i == 3 {
        (1, 1)
    } else if i == 4 {
        (1, 0)
    } else if i == 5 {
        (1, -1)
    } else if i == 6 {
        (0, -1)
    } else {
        (-1, -1)
    }
}

/// The wind amplification `e^(0.045 s)` in milli-units at the table knots
/// `s = 0, 10, ..., 100`.
pub open spec fn spec_amp_knot(k: int) -> int {
    if k <= 0 {
        1000
    } else if k == 1 {
        1568
    } else if k == 2 {
        2460
    } else if k == 3 {
        3857
    } else if k == 4 {
        6050
    } else if k == 5 {
        9488
    } else if k == 6 {
        14880
    } else if k == 7 {
        23336
    } else if k == 8 {
        36598
    } else if k == 9 {
        57397
    } else {
        90017
    }
}

fn amp_knot(k: u32) -> (r: u32)
    requires
        k <= 10,
    ensures
        r == spec_amp_knot(k as int),
        1000 <= r <= 90017,
{
    if k == 0 {
        1000
    } else if k == 1 {
        1568
    } else if k == 2 {
        2460
    } else if k == 3 {
        3857
    } else if k == 4 {
        6050
    } else if k == 5 {
        9488
    } else if k == 6 {
        14880
    } else if k == 7 {
        23336
    } else if k == 8 {
        36598
    } else if k == 9 {
        57397
    } else {
        90017
    }
}

/// The wind amplification `e^(0.045 s)` in milli-units for a wind strength
/// of `s` whole units, interpolated linearly between the table knots and
/// held constant above 100.
pub open spec fn spec_wind_amplifier(s: int) -> int {
    if s >= 100 {
        90017
    } else {
        let k = s / 10;
        spec_amp_knot(k) + (spec_amp_knot(k + 1) - spec_amp_knot(k)) * (s - k * 10) / 10
    }
}

/// The wind amplification for a strength of `s` whole units.
pub fn wind_amplifier(s: u64) -> (r: u32)
    ensures
        r == spec_wind_amplifier(s as int),
        1000 <= r <= 90017,
{
    if s >= 100 {
        90017
    } else {
        let s32 = s as u32;
        let k = s32 / 10;
        assert(k <= 9);
        let lo = amp_knot(k);
        let hi = amp_knot(k + 1);
        let t = s32 - k * 10;
        assert(t < 10);
        proof {
            lemma_mul_upper_bound((hi - lo) as int, 90017, t as int, 10);
        }
        let r = lo + (hi - lo) * t / 10;
        assert((hi - lo) * t / 10 <= hi - lo) by (nonlinear_arith)
            requires
                hi >= lo,
                t <= 10,
        ;
        r
    }
}

/// The cosine, in milli-units, of the angle between the wind `(wx, wy)` and
/// the direction from the `i`-th neighbour back to the cell; 0 in still air.
pub open spec fn spec_cos_from_fire(wx: int, wy: int, i: int) -> int {
    let d = spec_neighbour_offset(i);
    let fx = -d.0;
    let fy = -d.1;
    let dot = wx * fx + wy * fy;
    let nrm = spec_isqrt(((wx * wx + wy * wy) * (fx * fx + fy * fy)) as nat);
    if nrm == 0 {
        0
    } else {
        spec_clamp(1000 * dot / (nrm as int), -1000, 1000)
    }
}

/// Computes the cosine of the angle between the wind and the direction from
/// the `i`-th neighbour back to the cell.
pub fn cos_from_fire(wx: i64, wy: i64, i: usize) -> (r: i64)
    requires
        -10_000_000 <= wx <= 10_000_000,
        -10_000_000 <= wy <= 10_000_000,
        i < NEIGHBOURHOOD_SIZE,
    ensures
        r == spec_cos_from_fire(wx as int, wy as int, i as int),
        -1000 <= r <= 1000,
{
    let d = neighbour_offset(i);
    let fx: i64 = -(d.0 as i64);
    let fy: i64 = -(d.1 as i64);
    assert(wx * wx <= 100_000_000_000_000 && wx * wx >= 0) by (nonlinear_arith)
        requires
            -10_000_000 <= wx <= 10_000_000,
    ;
    assert(wy * wy <= 100_000_000_000_000 && wy * wy >= 0) by (nonlinear_arith)
        requires
            -10_000_000 <= wy <= 10_000_000,
    ;
    let w2: i64 = wx * wx + wy * wy;
    assert(0 <= fx * fx <= 1 && 0 <= fy * fy <= 1) by (nonlinear_arith)
        requires
            -1 <= fx <= 1,
            -1 <= fy <= 1,
    ;
    let d2: i64 = fx * fx + fy * fy;
    assert(1 <= d2 <= 2) by (nonlinear_arith)
        requires
            -1 <= fx <= 1,
            -1 <= fy <= 1,
            !(fx == 0 && fy == 0),
            d2 == fx * fx + fy * fy,
    ;
    assert(w2 * d2 <= 400_000_000_000_000 && w2 * d2 >= 0) by (nonlinear_arith)
        requires
            0 <= w2 <= 200_000_000_000_000,
            1 <= d2 <= 2,
    ;
    let nrm: u64 = isqrt_u64((w2 * d2) as u64);
    assert(nrm * nrm <= 400_000_000_000_000);
    assert(nrm <= 20_000_000) by (nonlinear_arith)
        requires
            nrm * nrm <= 400_000_000_000_000,
            nrm >= 0,
    ;
    if nrm == 0 {
        0
    } else {
        assert(-10_000_000 <= wx * fx <= 10_000_000 && -10_000_000 <= wy * fy <= 10_000_000)
            by (nonlinear_arith)
            requires
                -10_000_000 <= wx <= 10_000_000,
                -10_000_000 <= wy <= 10_000_000,
                -1 <= fx <= 1,
                -1 <= fy <= 1,
        ;
        let dot: i64 = wx * fx + wy * fy;
        let q = div_floor_i64(1000 * dot, nrm as i64);
        clamp_i64(q, -1000, 1000)
    }
}

/// The wind factor in milli-units for wind `(wx, wy)` and the `i`-th
/// neighbour on fire: `0.131 s (cos a - 1) e^(0.045 s)` with `s` the wind
/// strength in whole units.  Never positive: wind can only damp a spread
/// direction, and it damps the direction straight downwind of the fire the
/// least.
pub open spec fn spec_wind_factor(wx: int, wy: int, i: int) -> int {
    let s_units = spec_isqrt((wx * wx + wy * wy) as nat) / 1000;
    let amp = spec_wind_amplifier(s_units as int);
    let cosf = spec_cos_from_fire(wx, wy, i);
    s_units * 131 * (cosf - 1000) * amp / 1000000
}

/// Computes the wind factor for wind `(wx, wy)` and the `i`-th neighbour.
pub fn wind_factor(wx: i64, wy: i64, i: usize) -> (r: i64)
    requires
        -10_000_000 <= wx <= 10_000_000,
        -10_000_000 <= wy <= 10_000_000,
        i < NEIGHBOURHOOD_SIZE,
    ensures
        r == spec_wind_factor(wx as int, wy as int, i as int),
        -400_000_000_000 <= r <= 0,
{
    assert(wx * wx <= 100_000_000_000_000 && wx * wx >= 0) by (nonlinear_arith)
        requires
            -10_000_000 <= wx <= 10_000_000,
    ;
    assert(wy * wy <= 100_000_000_000_000 && wy * wy >= 0) by (nonlinear_arith)
        requires
            -10_000_000 <= wy <= 10_000_000,
    ;
    let w2: i64 = wx * wx + wy * wy;
    let s_milli: u64 = isqrt_u64(w2 as u64);
    assert(s_milli * s_milli <= 200_000_000_000_000);
    assert(s_milli <= 14_142_136) by (nonlinear_arith)
        requires
            s_milli * s_milli <= 200_000_000_000_000,
            s_milli >= 0,
    ;
    let s_units: u64 = s_milli / 1000;
    let amp = wind_amplifier(s_units);
    let cosf = cos_from_fire(wx, wy, i);
    let a: i64 = (s_units as i64) * 131;
    assert(a <= 1_852_602_016);
    assert(-3_705_204_032_000 <= a * ((cosf as int) - 1000) <= 0) by (nonlinear_arith)
        requires
            0 <= a <= 1_852_602_016,
            -2000 <= (cosf as int) - 1000 <= 0,
    ;
    let b: i64 = a * (cosf - 1000);
    assert(-333_533_349_298_390_240 <= b * (amp as int) <= 0) by (nonlinear_arith)
        requires
            -3_705_204_032_000 <= b <= 0,
            1000 <= amp <= 90017,
    ;
    let c: i64 = b * (amp as i64);
    let r = div_floor_i64(c, 1000000);
    assert(r * 1000000 <= c < (r + 1) * 1000000) by {
        vstd::arithmetic::div_mod::lemma_fundamental_div_mod(c as int, 1000000);
    };
    assert(-400_000_000_000 <= r <= 0) by (nonlinear_arith)
        requires
            r * 1000000 <= c < (r + 1) * 1000000,
            -333_533_349_298_390_240 <= c <= 0,
    ;
    r
}

/// The chance, in milli-units, that a burning neighbour ignites a cell with
/// base rate `base`, moisture `moisture` and wind factor `factor`:
/// `clamp(base * (1 - moisture) * (1 + factor), 0, 1)`.
pub open spec fn spec_burn_chance(base: int, moisture: int, factor: int) -> int {
    let mf = if moisture >= 1000 {
        0
    } else {
        1000 - moisture
    };
    spec_clamp(base * mf * (1000 + factor) / 1000000, 0, 1000)
}

/// Computes the ignition chance of a cell next to a burning neighbour.
pub fn burn_chance_milli(base: u32, moisture: u32, factor: i64) -> (r: u32)
    requires
        base <= 1000,
        -1_000_000_000_000 <= factor <= 0,
    ensures
        r == spec_burn_chance(base as int, moisture as int, factor as int),
        r <= 1000,
{
    let mf: u32 = if moisture >= 1000 {
        0
    } else {
        1000 - moisture
    };
    assert(0 <= (base as int) * (mf as int) <= 1_000_000) by (nonlinear_arith)
        requires
            0 <= base <= 1000,
            0 <= mf <= 1000,
    ;
    let t: i64 = (base as i64) * (mf as i64);
    assert(-1_000_000_000_000_000_000 <= t * (1000 + factor as int) <= 1_000_000_000) by (nonlinear_arith)
        requires
            0 <= t <= 1_000_000,
            -1_000_000_000_000 <= 1000 + (factor as int) <= 1000,
    ;
    let u: i64 = t * (1000 + factor);
    let q = div_floor_i64(u, 1000000);
    clamp_i64(q, 0, 1000) as u32
}

/// Whether an ignition test passes: the chance is softened by the random
/// multiplier `r1` before the roll `r2` is compared against it.
pub fn ignition_roll(chance: u32, r1: u32, r2: u32) -> (b: bool)
    requires
        chance <= 1000,
        r1 < 1000,
        r2 < 1_000_000,
    ensures
        b == (r2 < chance * r1),
{
    proof {
        lemma_mul_upper_bound(chance as int, 1000, r1 as int, 1000);
    }
    r2 < chance * r1
}

} // verus!
