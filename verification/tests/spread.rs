//! Scenario: ignition spreads downwind preferentially.  Statistical, over
//! many trials of a small dry grassland under a strong easterly wind.

use wildfire::map::{Coord, GameMap};
use wildfire::terrain::{TerrainCellState, TerrainType, WindVec};

const TRIALS: usize = 1_000;
const TICK_CAP: u32 = 50;

/// Runs one trial and returns the first tick at which each probe cell had
/// caught fire (smoldering counts: it has burnt), or `TICK_CAP + 1`.
fn one_trial(wind: WindVec, downwind: Coord, perpendicular: Coord) -> (u32, u32) {
    let cell = TerrainCellState::new(TerrainType::Grassland, WindVec::zero(), 0, 5);
    let mut map = GameMap::from_cells(5, 5, 4_000, vec![cell; 25]).unwrap();
    map.ignite(Coord::new(0, 2));
    let mut down_tick = TICK_CAP + 1;
    let mut perp_tick = TICK_CAP + 1;
    for tick in 1..=TICK_CAP {
        map.update(wind);
        let burnt = |c: Coord| {
            let t = map.get(c).unwrap().terrain;
            t == TerrainType::Fire || t == TerrainType::Smoldering
        };
        if down_tick > TICK_CAP && burnt(downwind) {
            down_tick = tick;
        }
        if perp_tick > TICK_CAP && burnt(perpendicular) {
            perp_tick = tick;
        }
    }
    (down_tick, perp_tick)
}

#[test]
fn downwind_cells_ignite_sooner_on_average() {
    // wind of strength 100 blowing towards +x; fire starts at (0, 2);
    // (4, 2) is directly downwind, (0, 4) perpendicular to the wind
    let wind = WindVec::new(100_000, 0);
    let mut down_sum: u64 = 0;
    let mut perp_sum: u64 = 0;
    for _ in 0..TRIALS {
        let (d, p) = one_trial(wind, Coord::new(4, 2), Coord::new(0, 4));
        down_sum += d as u64;
        perp_sum += p as u64;
    }
    assert!(
        down_sum < perp_sum,
        "mean ignition tick downwind ({down_sum}) not below perpendicular ({perp_sum})"
    );
}
