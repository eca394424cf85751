//! The fire-spread arithmetic: cosines, the wind amplifier, wind factors
//! and ignition chances, on exact fixed-point values.

use wildfire::fire::{
    burn_chance_milli, cos_from_fire, ignition_roll, neighbour_offset, wind_amplifier, wind_factor,
};
use wildfire::terrain::TerrainType;

#[test]
fn neighbourhood_covers_all_eight_offsets() {
    let mut seen = Vec::new();
    for i in 0..8 {
        let off = neighbour_offset(i);
        assert!(off.0.abs() <= 1 && off.1.abs() <= 1);
        assert!(off != (0, 0));
        seen.push(off);
    }
    seen.sort();
    seen.dedup();
    assert_eq!(seen.len(), 8);
}

#[test]
fn burn_rates_by_terrain() {
    assert_eq!(TerrainType::Grassland.burn_rate(), 600);
    assert_eq!(TerrainType::Building.burn_rate(), 600);
    assert_eq!(TerrainType::Tree.burn_rate(), 400);
    assert_eq!(TerrainType::Dirt.burn_rate(), 0);
    assert_eq!(TerrainType::Stone.burn_rate(), 0);
    assert_eq!(TerrainType::Fire.burn_rate(), 0);
    assert_eq!(TerrainType::Smoldering.burn_rate(), 0);
}

#[test]
fn cosine_from_fire_by_direction() {
    // wind blowing towards +x; neighbour 0 is the cell to the left, so the
    // fire-to-cell direction is +x: straight downwind
    assert_eq!(cos_from_fire(1_000, 0, 0), 1_000);
    // neighbour 4 (right): the cell is upwind of the fire
    assert_eq!(cos_from_fire(1_000, 0, 4), -1_000);
    // neighbour 2 (top): perpendicular
    assert_eq!(cos_from_fire(1_000, 0, 2), 0);
    // neighbour 1 (top left): the fire-to-cell direction is (1, -1)
    assert_eq!(cos_from_fire(1_000, 0, 1), 707);
    // still air has no direction
    assert_eq!(cos_from_fire(0, 0, 0), 0);
}

#[test]
fn amplifier_interpolates_between_knots() {
    assert_eq!(wind_amplifier(0), 1_000);
    assert_eq!(wind_amplifier(5), 1_284);
    assert_eq!(wind_amplifier(10), 1_568);
    assert_eq!(wind_amplifier(100), 90_017);
    assert_eq!(wind_amplifier(10_000), 90_017);
    let mut prev = 0;
    for s in 0..=100 {
        let a = wind_amplifier(s);
        assert!(a >= prev, "amplifier not monotone at {s}");
        prev = a;
    }
}

#[test]
fn wind_factor_damps_everything_but_downwind() {
    // still air: no factor at all
    for i in 0..8 {
        assert_eq!(wind_factor(0, 0, i), 0);
    }
    // strong easterly: no damping straight downwind...
    assert_eq!(wind_factor(100_000, 0, 0), 0);
    // ...and a crushing penalty upwind: 100 * 131 * (-2000) * 90017 / 1e6
    assert_eq!(wind_factor(100_000, 0, 4), -2_358_446);
    let perpendicular = wind_factor(100_000, 0, 2);
    let diagonal = wind_factor(100_000, 0, 1);
    assert!(wind_factor(100_000, 0, 4) < perpendicular && perpendicular < diagonal);
    assert!(diagonal < 0);
}

#[test]
fn burn_chance_formula() {
    // dry grass, no wind: the base rate itself
    assert_eq!(burn_chance_milli(600, 0, 0), 600);
    // fully soaked: nothing burns
    assert_eq!(burn_chance_milli(600, 1_000, 0), 0);
    // half moist: half the base rate
    assert_eq!(burn_chance_milli(600, 500, 0), 300);
    // a strong upwind penalty zeroes the chance
    assert_eq!(burn_chance_milli(600, 0, -2_358_446), 0);
    // a mild penalty scales it: 600 * 1000 * (1000 - 500) / 1e6 = 300
    assert_eq!(burn_chance_milli(600, 0, -500), 300);
    assert_eq!(burn_chance_milli(0, 0, 0), 0);
}

#[test]
fn ignition_roll_compares_the_softened_chance() {
    assert!(ignition_roll(600, 999, 599_399));
    assert!(!ignition_roll(600, 999, 599_400));
    assert!(!ignition_roll(600, 0, 0));
    assert!(!ignition_roll(0, 999, 0));
    assert!(ignition_roll(1_000, 1, 999));
}
