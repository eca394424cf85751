//! Terrain generation: classification thresholds, noise-field validation
//! and determinism of generation.

use fastnoise_lite::FastNoiseLite;
use wildfire::map::GameMap;
use wildfire::noise::{classify, NoiseMap};
use wildfire::terrain::TerrainType;

/// One raw noise sample remapped into milli-units, as moisture uses it.
fn raw_noise_milli(noise: &FastNoiseLite, x: f32, y: f32) -> u32 {
    let v = (noise.get_noise_2d(x, y) + 0.5).clamp(0.0, 1.0);
    (v * 1000.0).clamp(0.0, 1000.0) as u32
}

/// Mirrors the octave-combined, redistributed noise sampling that drives
/// terrain generation, scaled to milli-units.
fn sample_noise_milli(noise: &FastNoiseLite, x: f32, y: f32) -> u32 {
    let one = |xx: f32, yy: f32| -> f32 {
        let v = noise.get_noise_2d(xx, yy);
        (v + 0.5).clamp(0.0, 1.0)
    };
    let combined =
        (1.0 * one(0.5 * x, 0.5 * y) + 0.5 * one(x, y) + 0.25 * one(2.0 * x, 2.0 * y)) / 1.75;
    let redistributed = combined.powf(1.46);
    (redistributed * 1000.0).clamp(0.0, 1000.0) as u32
}

fn noise_grids(seed: i32, size_x: usize, size_y: usize) -> (Vec<u32>, Vec<u32>) {
    let noise = FastNoiseLite::with_seed(seed);
    let mut terrain = Vec::with_capacity(size_x * size_y);
    let mut moisture = Vec::with_capacity(size_x * size_y);
    for y in 0..size_y {
        for x in 0..size_x {
            terrain.push(sample_noise_milli(&noise, x as f32, y as f32));
            moisture.push(raw_noise_milli(&noise, x as f32 + 17.5, y as f32 + 17.5));
        }
    }
    (terrain, moisture)
}

#[test]
fn classify_thresholds() {
    assert_eq!(classify(0), (TerrainType::Dirt, 0));
    assert_eq!(classify(29), (TerrainType::Dirt, 0));
    assert_eq!(classify(30), (TerrainType::Grassland, 1));
    assert_eq!(classify(499), (TerrainType::Grassland, 11));
    assert_eq!(classify(500), (TerrainType::Tree, 1));
    assert_eq!(classify(749), (TerrainType::Tree, 23));
    assert_eq!(classify(750), (TerrainType::Stone, 1));
    assert_eq!(classify(1000), (TerrainType::Stone, 10));
}

#[test]
fn classify_fuel_is_interpolated() {
    // halfway through the grass band: 12 * (265 - 30) / 470 = 6
    assert_eq!(classify(265), (TerrainType::Grassland, 6));
    // halfway through the tree band: 24 * (625 - 500) / 250 = 12
    assert_eq!(classify(625), (TerrainType::Tree, 12));
    // halfway through the stone band: 10 * (875 - 750) / 250 = 5
    assert_eq!(classify(875), (TerrainType::Stone, 5));
}

#[test]
fn noise_map_rejects_bad_input() {
    assert!(NoiseMap::new(0, 4, vec![], vec![]).is_none());
    assert!(NoiseMap::new(2, 2, vec![0; 3], vec![0; 4]).is_none());
    assert!(NoiseMap::new(2, 2, vec![0; 4], vec![0; 3]).is_none());
    assert!(NoiseMap::new(2, 2, vec![0, 0, 0, 1001], vec![0; 4]).is_none());
    assert!(NoiseMap::new(2, 2, vec![0; 4], vec![500; 4]).is_some());
}

#[test]
fn generation_is_deterministic() {
    let (t1, m1) = noise_grids(1337, 16, 16);
    let (t2, m2) = noise_grids(1337, 16, 16);
    assert_eq!(t1, t2);
    assert_eq!(m1, m2);

    let n1 = NoiseMap::new(16, 16, t1, m1).unwrap();
    let n2 = NoiseMap::new(16, 16, t2, m2).unwrap();
    for y in 0..16 {
        for x in 0..16 {
            assert_eq!(n1.sample(x, y), n2.sample(x, y));
            assert_eq!(n1.moisture(x, y), n2.moisture(x, y));
        }
    }

    let a = GameMap::new(&n1, 4_000);
    let b = GameMap::new(&n2, 4_000);
    assert_eq!(a.data, b.data);
}

#[test]
fn different_seeds_differ() {
    let (t1, _) = noise_grids(1337, 16, 16);
    let (t2, _) = noise_grids(618039333, 16, 16);
    assert_ne!(t1, t2);
}

#[test]
fn generated_cells_follow_noise() {
    let (t, m) = noise_grids(42, 8, 8);
    let noise = NoiseMap::new(8, 8, t.clone(), m.clone()).unwrap();
    let map = GameMap::new(&noise, 4_000);
    assert_eq!(map.size_x, 8);
    assert_eq!(map.size_y, 8);
    for i in 0..64 {
        let (kind, fuel) = classify(t[i]);
        assert_eq!(map.data[i].terrain, kind);
        assert_eq!(map.data[i].fuel_load, fuel);
        let expect_moisture =
            if kind == TerrainType::Grassland || kind == TerrainType::Tree { m[i] } else { 0 };
        assert_eq!(map.data[i].moisture, expect_moisture);
        assert!(!map.data[i].is_dirty());
        assert_eq!(map.data[i].wind.x, 0);
        assert_eq!(map.data[i].wind.y, 0);
    }
}
