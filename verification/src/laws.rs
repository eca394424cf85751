//! Global properties of the simulation, stated and proved once over the
//! per-cell transition relation and the moisture clamp.

use vstd::prelude::*;
use vstd::arithmetic::div_mod::{lemma_div_is_ordered, lemma_fundamental_div_mod};
use vstd::arithmetic::mul::{lemma_mul_inequality, lemma_mul_nonnegative};
use crate::fire::{
    spec_amp_knot, spec_burn_chance, spec_cos_from_fire, spec_wind_amplifier, spec_wind_factor,
};
use crate::fixed::spec_clamp;
use crate::map::spec_cell_step_ok;
use crate::noise::{NoiseMap, spec_classify};
use crate::terrain::{TerrainCellState, TerrainType};

verus! {

/// Generation is deterministic: the terrain sampled at a coordinate is a
/// function of the noise field alone, so two fields built from the same
/// scalars classify every cell identically.
pub proof fn lemma_sample_deterministic(a: NoiseMap, b: NoiseMap, x: int, y: int)
    requires
        a.size_x == b.size_x,
        a.terrain_noise@ == b.terrain_noise@,
        a.moisture_noise@ == b.moisture_noise@,
    ensures
        spec_classify(a.spec_terrain_at(x, y) as int) == spec_classify(
            b.spec_terrain_at(x, y) as int,
        ),
        a.spec_moisture_at(x, y) == b.spec_moisture_at(x, y),
{
}

/// Fuel monotonicity: across any chain of per-cell tick steps, fuel never
/// increases.
pub proof fn lemma_fuel_monotone_chain(s: Seq<TerrainCellState>, i: int, j: int)
    requires
        0 <= i <= j < s.len(),
        forall|k: int|
            0 <= k < s.len() - 1 ==> #[trigger] spec_cell_step_ok(s[k], s[k + 1]),
    ensures
        s[j].fuel_load <= s[i].fuel_load,
    decreases j - i,
{
    if i < j {
        lemma_fuel_monotone_chain(s, i, j - 1);
        let k = j - 1;
        assert(spec_cell_step_ok(s[k], s[k + 1]));
        assert(s[k + 1] == s[j]);
    }
}

/// A fire goes out only when its fuel is spent: a step that turns a
/// burning cell to Smoldering leaves it with exactly zero fuel, and a cell
/// that keeps burning still holds fuel unless it started with none.
pub proof fn lemma_fire_extinguishes_at_zero(a: TerrainCellState, b: TerrainCellState)
    requires
        spec_cell_step_ok(a, b),
        a.terrain == TerrainType::Fire,
    ensures
        b.terrain == TerrainType::Smoldering ==> b.fuel_load == 0,
        b.terrain == TerrainType::Fire ==> b.fuel_load > 0 || a.fuel_load == 0,
{
}

/// Terrain closure: Smoldering, Dirt, Stone and Building cells are fixed
/// points of the tick — across any chain of per-cell steps such a cell
/// is unchanged.
pub proof fn lemma_inert_fixed_chain(s: Seq<TerrainCellState>, i: int, j: int)
    requires
        0 <= i <= j < s.len(),
        forall|k: int|
            0 <= k < s.len() - 1 ==> #[trigger] spec_cell_step_ok(s[k], s[k + 1]),
        crate::terrain::spec_is_inert(s[i].terrain),
    ensures
        s[j] == s[i],
    decreases j - i,
{
    if i < j {
        lemma_inert_fixed_chain(s, i, j - 1);
        let k = j - 1;
        assert(spec_cell_step_ok(s[k], s[k + 1]));
        assert(s[k + 1] == s[j]);
    }
}

/// A burning cell can only keep burning or smolder: across any chain of
/// steps it never becomes vegetation again.
pub proof fn lemma_fire_never_revegetates(s: Seq<TerrainCellState>, i: int, j: int)
    requires
        0 <= i <= j < s.len(),
        forall|k: int|
            0 <= k < s.len() - 1 ==> #[trigger] spec_cell_step_ok(s[k], s[k + 1]),
        s[i].terrain == TerrainType::Fire,
    ensures
        s[j].terrain == TerrainType::Fire || s[j].terrain == TerrainType::Smoldering,
    decreases j - i,
{
    if i < j {
        lemma_fire_never_revegetates(s, i, j - 1);
        let k = j - 1;
        assert(spec_cell_step_ok(s[k], s[k + 1]));
        assert(s[k + 1] == s[j]);
    }
}

/// The wind amplification is at least one: wind never weakens its own
/// penalty.
pub proof fn lemma_amplifier_at_least_one(s: int)
    requires
        0 <= s,
    ensures
        spec_wind_amplifier(s) >= 1000,
{
    if s < 100 {
        let k = s / 10;
        lemma_div_is_ordered(s, 99, 10);
        lemma_div_is_ordered(0, s, 10);
        assert(0 <= k <= 9);
        lemma_fundamental_div_mod(s, 10);
        let rem = s - k * 10;
        assert(0 <= rem <= 9);
        assert(spec_amp_knot(k + 1) - spec_amp_knot(k) >= 0);
        lemma_mul_nonnegative(spec_amp_knot(k + 1) - spec_amp_knot(k), rem);
        lemma_div_is_ordered(0, (spec_amp_knot(k + 1) - spec_amp_knot(k)) * rem, 10);
    }
}

/// The wind factor never favours: it is at most zero, whatever the wind
/// and whichever neighbour burns.
pub proof fn lemma_wind_factor_nonpositive(wx: int, wy: int, i: int)
    ensures
        spec_wind_factor(wx, wy, i) <= 0,
{
    let s_units = (crate::fixed::spec_isqrt((wx * wx + wy * wy) as nat) as int) / 1000;
    let amp = spec_wind_amplifier(s_units);
    let cosf = spec_cos_from_fire(wx, wy, i);
    lemma_div_is_ordered(0, crate::fixed::spec_isqrt((wx * wx + wy * wy) as nat) as int, 1000);
    assert(s_units >= 0);
    lemma_amplifier_at_least_one(s_units);
    assert(cosf <= 1000);
    let t = s_units * 131 * (cosf - 1000) * amp;
    assert(t <= 0) by (nonlinear_arith)
        requires
            s_units >= 0,
            cosf - 1000 <= 0,
            amp >= 1000,
            t == s_units * 131 * (cosf - 1000) * amp,
    ;
    lemma_div_is_ordered(t, 0, 1000000);
}

/// The ignition chance grows with the wind factor: a milder penalty never
/// makes a cell harder to ignite.
pub proof fn lemma_burn_chance_monotone_in_factor(base: int, m: int, f1: int, f2: int)
    requires
        0 <= base,
        f1 <= f2,
    ensures
        spec_burn_chance(base, m, f1) <= spec_burn_chance(base, m, f2),
{
    let mf = if m >= 1000 {
        0int
    } else {
        1000 - m
    };
    lemma_mul_nonnegative(base, mf);
    let t = base * mf;
    lemma_mul_inequality(1000 + f1, 1000 + f2, t);
    assert(t * (1000 + f1) == (1000 + f1) * t && t * (1000 + f2) == (1000 + f2) * t)
        by (nonlinear_arith);
    lemma_div_is_ordered(t * (1000 + f1), t * (1000 + f2), 1000000);
}

/// Ignition spreads downwind preferentially: under any wind, the chance
/// that a burning neighbour ignites a cell never exceeds the chance
/// straight downwind of the fire, where the wind factor vanishes.
pub proof fn lemma_downwind_ignites_most(base: int, m: int, wx: int, wy: int, i: int)
    requires
        0 <= base,
    ensures
        spec_burn_chance(base, m, spec_wind_factor(wx, wy, i)) <= spec_burn_chance(base, m, 0),
{
    lemma_wind_factor_nonpositive(wx, wy, i);
    lemma_burn_chance_monotone_in_factor(base, m, spec_wind_factor(wx, wy, i), 0);
}

/// Drier cells are more flammable: raising a cell's moisture never raises
/// its ignition chance.
pub proof fn lemma_moisture_damps(base: int, m1: int, m2: int, f: int)
    requires
        0 <= base,
        m1 <= m2,
    ensures
        spec_burn_chance(base, m2, f) <= spec_burn_chance(base, m1, f),
{
    let mf1 = if m1 >= 1000 {
        0int
    } else {
        1000 - m1
    };
    let mf2 = if m2 >= 1000 {
        0int
    } else {
        1000 - m2
    };
    assert(0 <= mf2 <= mf1);
    lemma_mul_inequality(mf2, mf1, base);
    assert(base * mf2 == mf2 * base && base * mf1 == mf1 * base) by (nonlinear_arith);
    if 1000 + f >= 0 {
        lemma_mul_inequality(base * mf2, base * mf1, 1000 + f);
        assert(base * mf2 * (1000 + f) == (base * mf2) * (1000 + f) && base * mf1 * (1000 + f)
            == (base * mf1) * (1000 + f)) by (nonlinear_arith);
        lemma_div_is_ordered(base * mf2 * (1000 + f), base * mf1 * (1000 + f), 1000000);
    } else {
        lemma_mul_nonnegative(base, mf1);
        lemma_mul_nonnegative(base, mf2);
        assert(base * mf1 * (1000 + f) <= 0 && base * mf2 * (1000 + f) <= 0) by (nonlinear_arith)
            requires
                base * mf1 >= 0,
                base * mf2 >= 0,
                1000 + f < 0,
        ;
        lemma_div_is_ordered(base * mf1 * (1000 + f), 0, 1000000);
        lemma_div_is_ordered(base * mf2 * (1000 + f), 0, 1000000);
    }
}

/// The moisture level after a sequence of clamped adjustments, as
/// `GameMap::adjust_moisture` applies them one by one.
pub open spec fn spec_apply_deltas(m: int, ds: Seq<int>) -> int
    decreases ds.len(),
{
    if ds.len() == 0 {
        m
    } else {
        spec_apply_deltas(spec_clamp(m + ds[0], 0, 1000), ds.drop_first())
    }
}

/// Moisture clamp: for every sequence of moisture deltas, the resulting
/// moisture level stays within `[0, 1000]`.
pub proof fn lemma_moisture_clamp(m: int, ds: Seq<int>)
    requires
        0 <= m <= 1000,
    ensures
        0 <= spec_apply_deltas(m, ds) <= 1000,
    decreases ds.len(),
{
    if ds.len() > 0 {
        lemma_moisture_clamp(spec_clamp(m + ds[0], 0, 1000), ds.drop_first());
    }
}

} // verus!
