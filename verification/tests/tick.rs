//! The automaton tick: fuel decay, terrain closure, quiescence and meteor
//! strikes.

use wildfire::map::{Coord, GameMap};
use wildfire::terrain::{TerrainCellState, TerrainType, WindVec};

fn uniform_map(size: usize, terrain: TerrainType, fuel: u8, moisture: u32) -> GameMap {
    let cell = TerrainCellState::new(terrain, WindVec::zero(), moisture, fuel);
    GameMap::from_cells(size, size, 4_000, vec![cell; size * size]).unwrap()
}

#[test]
fn fuel_exhaustion_reaches_smoldering_and_stays() {
    // a lone burning cell with one unit of fuel: expected to smolder after
    // about 1/0.3 ticks, certainly within a generous cap
    let mut map = uniform_map(1, TerrainType::Fire, 1, 0);
    let mut smoldered_at = None;
    for tick in 0..300 {
        map.update(WindVec::zero());
        let t = map.data[0].terrain;
        assert!(t == TerrainType::Fire || t == TerrainType::Smoldering);
        if t == TerrainType::Smoldering {
            smoldered_at = Some(tick);
            break;
        }
    }
    assert!(smoldered_at.is_some(), "fire with fuel 1 never went out");
    assert_eq!(map.data[0].fuel_load, 0);
    for _ in 0..50 {
        map.update(WindVec::zero());
        assert_eq!(map.data[0].terrain, TerrainType::Smoldering);
        assert_eq!(map.data[0].fuel_load, 0);
    }
}

#[test]
fn fuel_never_increases() {
    let mut map = uniform_map(3, TerrainType::Fire, 10, 0);
    let mut prev: Vec<u8> = map.data.iter().map(|c| c.fuel_load).collect();
    for _ in 0..200 {
        map.update(WindVec::zero());
        for (i, cell) in map.data.iter().enumerate() {
            assert!(cell.fuel_load <= prev[i]);
            assert!(prev[i] - cell.fuel_load <= 1);
            if cell.terrain == TerrainType::Smoldering {
                assert_eq!(cell.fuel_load, 0);
            } else {
                assert_eq!(cell.terrain, TerrainType::Fire);
            }
        }
        prev = map.data.iter().map(|c| c.fuel_load).collect();
    }
    // 9 cells of fuel 10 and decay chance 0.3: 200 ticks exhaust them all
    assert!(map.data.iter().all(|c| c.terrain == TerrainType::Smoldering));
}

#[test]
fn terrain_closure_absent_fire() {
    // a fire-free patchwork of every terrain kind is a fixed point
    let kinds = [
        TerrainType::Dirt,
        TerrainType::Stone,
        TerrainType::Smoldering,
        TerrainType::Building,
        TerrainType::Grassland,
        TerrainType::Tree,
    ];
    let cells: Vec<TerrainCellState> = (0..36)
        .map(|i| TerrainCellState::new(kinds[i % 6], WindVec::new(5, -3), 400, 7))
        .collect();
    let mut map = GameMap::from_cells(6, 6, 4_000, cells.clone()).unwrap();
    for _ in 0..20 {
        map.update(WindVec::new(100_000, 0));
    }
    assert_eq!(map.data, cells);
}

#[test]
fn inert_cells_ignore_neighbouring_fire() {
    // inert kinds stay themselves even next to fire
    let mut map = uniform_map(3, TerrainType::Stone, 5, 0);
    map.set_terrain(Coord::new(1, 1), TerrainType::Fire);
    map.set_fuel_load(Coord::new(1, 1), 200);
    map.take_dirty();
    for _ in 0..100 {
        map.update(WindVec::zero());
    }
    for y in 0..3 {
        for x in 0..3 {
            if (x, y) != (1, 1) {
                let c = map.get(Coord::new(x, y)).unwrap();
                assert_eq!(c.terrain, TerrainType::Stone);
                assert_eq!(c.fuel_load, 5);
            }
        }
    }
}

#[test]
fn fire_spreads_through_dry_grass() {
    // still air, dry grass: fire must reach the far corner eventually
    let mut map = uniform_map(8, TerrainType::Grassland, 50, 0);
    map.ignite(Coord::new(0, 0));
    let mut reached = false;
    for _ in 0..2_000 {
        map.update(WindVec::zero());
        if map.is_on_fire(Coord::new(7, 7))
            || map.get(Coord::new(7, 7)).unwrap().terrain == TerrainType::Smoldering
        {
            reached = true;
            break;
        }
    }
    assert!(reached, "fire never crossed an 8x8 dry grassland");
}

#[test]
fn soaked_cells_resist_and_dry_out() {
    // a fully moist neighbour cannot ignite (burn chance 0), but exposure
    // to the fire dries it at 10 milli-units per burning neighbour per tick
    let mut map = uniform_map(2, TerrainType::Grassland, 50, 1000);
    map.ignite(Coord::new(0, 0));
    map.set_fuel_load(Coord::new(0, 0), 255);
    let before = map.get(Coord::new(1, 1)).unwrap().moisture;
    map.update(WindVec::zero());
    let after = map.get(Coord::new(1, 1)).unwrap().moisture;
    // exactly one burning neighbour: exactly one decay step
    assert_eq!(after, before - 10);
    for _ in 0..5 {
        map.update(WindVec::zero());
    }
    let later = map.get(Coord::new(1, 1)).unwrap().moisture;
    assert!(later < before, "exposure to fire never dried the cell");
}

#[test]
fn meteor_ignites_flammable_cells_nearby() {
    let mut map = uniform_map(11, TerrainType::Grassland, 5, 0);
    let before: Vec<TerrainCellState> = map.data.clone();
    assert!(map.meteor_strike(Coord::new(5, 5)));
    let mut changed = 0;
    for y in 0..11i32 {
        for x in 0..11i32 {
            let i = (y * 11 + x) as usize;
            if map.data[i] != before[i] {
                changed += 1;
                let dx = (x - 5) as i64;
                let dy = (y - 5) as i64;
                assert!(dx * dx + dy * dy <= 25, "meteor fire outside its range");
                assert_eq!(map.data[i].terrain, TerrainType::Fire);
                assert!(map.data[i].is_dirty());
            }
        }
    }
    assert!((1..=4).contains(&changed), "meteor lit {changed} cells");
}

#[test]
fn meteor_on_bare_rock_is_a_dud() {
    let mut map = uniform_map(5, TerrainType::Stone, 5, 0);
    let before: Vec<TerrainCellState> = map.data.clone();
    assert!(!map.meteor_strike(Coord::new(2, 2)));
    assert_eq!(map.data, before);
    // off the grid entirely: nothing to hit either
    assert!(!map.meteor_strike(Coord::new(-100, -100)));
}

#[test]
fn meteor_can_burn_buildings() {
    let mut map = uniform_map(3, TerrainType::Building, 5, 0);
    assert!(map.meteor_strike(Coord::new(1, 1)));
    assert!(map.any_on_fire());
}
