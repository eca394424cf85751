//! Grid access: bounds safety, commands, range queries, coordinate
//! transforms and the dirty-cell poll.

use wildfire::map::{Coord, GameMap};
use wildfire::terrain::{TerrainCellState, TerrainType, WindVec};

fn uniform_map(size: usize, terrain: TerrainType, fuel: u8, moisture: u32) -> GameMap {
    let cell = TerrainCellState::new(terrain, WindVec::zero(), moisture, fuel);
    GameMap::from_cells(size, size, 4_000, vec![cell; size * size]).unwrap()
}

#[test]
fn from_cells_validates_dimensions() {
    let cell = TerrainCellState::new(TerrainType::Dirt, WindVec::zero(), 0, 0);
    assert!(GameMap::from_cells(2, 2, 4_000, vec![cell; 3]).is_none());
    assert!(GameMap::from_cells(0, 2, 4_000, vec![]).is_none());
    assert!(GameMap::from_cells(2, 2, 0, vec![cell; 4]).is_none());
    assert!(GameMap::from_cells(2, 2, 4_000, vec![cell; 4]).is_some());
}

#[test]
fn out_of_bounds_is_absorbed() {
    let mut map = uniform_map(4, TerrainType::Grassland, 5, 0);
    for &(x, y) in &[(-1, 0), (0, -1), (4, 0), (0, 4), (i32::MIN, i32::MAX), (100, 100)] {
        let c = Coord::new(x, y);
        assert!(!map.is_valid_coords(c));
        assert!(map.get(c).is_none());
        assert!(!map.is_on_fire(c));
        assert!(!map.ignite(c));
        assert!(!map.set_terrain(c, TerrainType::Fire));
        assert!(!map.set_fuel_load(c, 9));
        assert!(!map.adjust_moisture(c, 100));
        assert!(!map.add_local_wind(c, WindVec::new(1, 1)));
    }
    // nothing about the grid changed
    for cell in &map.data {
        assert_eq!(cell.terrain, TerrainType::Grassland);
        assert_eq!(cell.fuel_load, 5);
        assert_eq!(cell.moisture, 0);
        assert!(!cell.is_dirty());
    }
}

#[test]
fn get_and_fire_queries() {
    let mut map = uniform_map(4, TerrainType::Grassland, 5, 0);
    assert!(!map.any_on_fire());
    assert!(map.ignite(Coord::new(2, 1)));
    assert!(map.is_on_fire(Coord::new(2, 1)));
    assert!(!map.is_on_fire(Coord::new(1, 2)));
    assert!(map.any_on_fire());
    assert_eq!(map.get(Coord::new(2, 1)).unwrap().terrain, TerrainType::Fire);
    assert!(map.check_on_fire(&[Coord::new(0, 0), Coord::new(2, 1)]));
    assert!(!map.check_on_fire(&[Coord::new(0, 0), Coord::new(3, 3)]));
    assert!(!map.check_on_fire(&[]));
}

#[test]
fn ignite_only_vegetation() {
    let mut map = uniform_map(3, TerrainType::Stone, 5, 0);
    assert!(!map.ignite(Coord::new(1, 1)));
    assert_eq!(map.data[4].terrain, TerrainType::Stone);
    map.set_terrain(Coord::new(1, 1), TerrainType::Tree);
    assert!(map.ignite(Coord::new(1, 1)));
    assert_eq!(map.data[4].terrain, TerrainType::Fire);
    assert!(map.data[4].is_dirty());
    // already burning: a second strike does nothing
    assert!(!map.ignite(Coord::new(1, 1)));
}

#[test]
fn moisture_clamps_over_any_delta_sequence() {
    let mut map = uniform_map(2, TerrainType::Grassland, 5, 500);
    let c = Coord::new(1, 1);
    assert!(map.adjust_moisture(c, 700));
    assert_eq!(map.get(c).unwrap().moisture, 1000);
    assert!(map.adjust_moisture(c, -3000));
    assert_eq!(map.get(c).unwrap().moisture, 0);
    assert!(map.adjust_moisture(c, 250));
    assert_eq!(map.get(c).unwrap().moisture, 250);
    assert!(map.adjust_moisture(c, i32::MIN));
    assert_eq!(map.get(c).unwrap().moisture, 0);
    assert!(map.adjust_moisture(c, i32::MAX));
    assert_eq!(map.get(c).unwrap().moisture, 1000);
    // a long random-ish walk never leaves [0, 1000]
    let mut d: i32 = -17;
    for _ in 0..500 {
        map.adjust_moisture(c, d);
        d = d.wrapping_mul(31).wrapping_add(7) % 400;
        let m = map.get(c).unwrap().moisture;
        assert!(m <= 1000);
    }
}

#[test]
fn local_wind_accumulates() {
    let mut map = uniform_map(2, TerrainType::Grassland, 5, 0);
    let c = Coord::new(0, 0);
    map.add_local_wind(c, WindVec::new(2_000, -500));
    map.add_local_wind(c, WindVec::new(1_000, -500));
    assert_eq!(map.get(c).unwrap().wind, WindVec::new(3_000, -1_000));
    map.add_local_wind(c, WindVec::new(i32::MAX, i32::MIN));
    assert_eq!(map.get(c).unwrap().wind, WindVec::new(i32::MAX, i32::MIN));
}

#[test]
fn wind_in_range_covers_the_disk() {
    let mut map = uniform_map(5, TerrainType::Grassland, 5, 0);
    map.add_wind_in_range(Coord::new(2, 2), 1, WindVec::new(2_000, -500));
    for y in 0..5i32 {
        for x in 0..5i32 {
            let wind = map.get(Coord::new(x, y)).unwrap().wind;
            let in_disk = (x - 2) * (x - 2) + (y - 2) * (y - 2) <= 1;
            if in_disk {
                assert_eq!(wind, WindVec::new(2_000, -500));
            } else {
                assert_eq!(wind, WindVec::zero());
            }
        }
    }
    // a second application accumulates
    map.add_wind_in_range(Coord::new(2, 2), 1, WindVec::new(-500, -500));
    assert_eq!(map.get(Coord::new(2, 2)).unwrap().wind, WindVec::new(1_500, -1_000));
    assert_eq!(map.get(Coord::new(0, 0)).unwrap().wind, WindVec::zero());
}

#[test]
fn set_fuel_load_does_not_dirty() {
    let mut map = uniform_map(2, TerrainType::Tree, 5, 0);
    assert!(map.set_fuel_load(Coord::new(0, 1), 24));
    let cell = map.get(Coord::new(0, 1)).unwrap();
    assert_eq!(cell.fuel_load, 24);
    assert!(!cell.is_dirty());
}

#[test]
fn cells_within_range_is_a_clipped_disk() {
    let map = uniform_map(5, TerrainType::Grassland, 5, 0);
    let mut got = map.cells_within_range(Coord::new(2, 2), 1);
    got.sort_by_key(|c| (c.y, c.x));
    let expect =
        vec![Coord::new(2, 1), Coord::new(1, 2), Coord::new(2, 2), Coord::new(3, 2), Coord::new(2, 3)];
    assert_eq!(got, expect);

    let mut corner = map.cells_within_range(Coord::new(0, 0), 1);
    corner.sort_by_key(|c| (c.y, c.x));
    assert_eq!(corner, vec![Coord::new(0, 0), Coord::new(1, 0), Coord::new(0, 1)]);

    // a centre far off the grid reaches nothing
    assert!(map.cells_within_range(Coord::new(-2, -2), 2).is_empty());
    // radius 0 is just the centre
    assert_eq!(map.cells_within_range(Coord::new(4, 4), 0), vec![Coord::new(4, 4)]);
}

#[test]
fn world_and_tile_transforms_invert() {
    let map = uniform_map(4, TerrainType::Dirt, 0, 0);
    // 4 tiles of 4 units: the grid spans [-8000, 8000) milli world units
    assert_eq!(map.world_coords(Coord::new(0, 0)), (-8_000, -8_000));
    assert_eq!(map.world_coords(Coord::new(3, 1)), (4_000, -4_000));
    assert_eq!(map.tile_coords(-8_000, -8_000), Coord::new(0, 0));
    assert_eq!(map.tile_coords(-1, -1), Coord::new(1, 1));
    assert_eq!(map.tile_coords(0, 0), Coord::new(2, 2));
    assert_eq!(map.tile_coords(7_999, 7_999), Coord::new(3, 3));
    // off the grid is still a tile index, just not a valid one
    assert_eq!(map.tile_coords(8_000, 0), Coord::new(4, 2));
    for y in -2..6 {
        for x in -2..6 {
            let t = Coord::new(x, y);
            let (wx, wy) = map.world_coords(t);
            assert_eq!(map.tile_coords(wx, wy), t);
        }
    }
    assert_eq!(
        map.tile_at_world_pos(-8_000, -8_000).unwrap().terrain,
        TerrainType::Dirt
    );
    assert!(map.tile_at_world_pos(8_000, 0).is_none());
    assert!(map.tile_at_world_pos(-8_001, 0).is_none());
}

#[test]
fn take_dirty_reports_exactly_the_changes() {
    let mut map = uniform_map(4, TerrainType::Grassland, 5, 0);
    assert!(map.take_dirty().is_empty());
    map.ignite(Coord::new(1, 2));
    map.set_terrain(Coord::new(3, 0), TerrainType::Building);
    let mut dirty = map.take_dirty();
    dirty.sort_by_key(|c| (c.y, c.x));
    assert_eq!(dirty, vec![Coord::new(3, 0), Coord::new(1, 2)]);
    // flags are cleared by the poll
    assert!(map.take_dirty().is_empty());
    assert_eq!(map.get(Coord::new(1, 2)).unwrap().terrain, TerrainType::Fire);
}
