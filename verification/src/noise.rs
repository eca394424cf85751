//! Terrain generation from a sampled noise field.
//!
//! The coherent-noise scalar for each coordinate is supplied from outside
//! as a milli-unit value in `[0, 1000]`: an octave-combined, redistributed
//! sample per cell for terrain, and a single decorrelated sample for
//! moisture.  This module
//! classifies those scalars into terrain kinds and fuel loads through fixed
//! thresholds, deterministically: equal noise fields always generate equal
//! terrain.

use vstd::prelude::*;
use crate::fixed::spec_clamp;
use crate::terrain::TerrainType;

verus! {

/// Noise below this milli-threshold becomes bare earth.
pub const DIRT_THRESHOLD: u32 = 30;

/// Noise below this milli-threshold (and above the dirt band) is grass.
pub const GRASS_THRESHOLD: u32 = 500;

/// Noise below this milli-threshold (and above the grass band) is forest;
/// everything above is stone.
pub const TREE_THRESHOLD: u32 = 750;

/// The terrain kind and fuel load for a noise scalar `n` in milli-units:
/// fuel is interpolated linearly across each band, with at least 1 for any
/// terrain that holds fuel at all.
pub open spec fn spec_classify(n: int) -> (TerrainType, u8) {
    if n < DIRT_THRESHOLD {
        (TerrainType::Dirt, 0u8)
    } else if n < GRASS_THRESHOLD {
        (TerrainType::Grassland, spec_clamp(12 * (n - 30) / 470, 1, 12) as u8)
    } else if n < TREE_THRESHOLD {
        (TerrainType::Tree, spec_clamp(24 * (n - 500) / 250, 1, 24) as u8)
    } else {
        (TerrainType::Stone, spec_clamp(10 * (n - 750) / 250, 1, 10) as u8)
    }
}

/// Classifies a noise scalar into a terrain kind and fuel load.
pub fn classify(n: u32) -> (r: (TerrainType, u8))
    ensures
        r == spec_classify(n as int),
{
    if n < DIRT_THRESHOLD {
        (TerrainType::Dirt, 0)
    } else if n < GRASS_THRESHOLD {
        let raw: u64 = 12 * ((n - 30) as u64) / 470;
        let fuel: u8 = if raw < 1 {
            1
        } else if raw > 12 {
            12
        } else {
            raw as u8
        };
        (TerrainType::Grassland, fuel)
    } else if n < TREE_THRESHOLD {
        let raw: u64 = 24 * ((n - 500) as u64) / 250;
        let fuel: u8 = if raw < 1 {
            1
        } else if raw > 24 {
            24
        } else {
            raw as u8
        };
        (TerrainType::Tree, fuel)
    } else {
        let raw: u64 = 10 * ((n - 750) as u64) / 250;
        let fuel: u8 = if raw < 1 {
            1
        } else if raw > 10 {
            10
        } else {
            raw as u8
        };
        (TerrainType::Stone, fuel)
    }
}

/// A sampled noise field over a grid: one terrain scalar and one moisture
/// scalar per cell, both in milli-units, row-major.
#[derive(Debug)]
pub struct NoiseMap {
    pub size_x: usize,
    pub size_y: usize,
    pub terrain_noise: Vec<u32>,
    pub moisture_noise: Vec<u32>,
}

impl NoiseMap {
    /// The structural invariant of a noise field.
    pub open spec fn wf(&self) -> bool {
        &&& self.terrain_noise@.len() == self.size_x * self.size_y
        &&& self.moisture_noise@.len() == self.size_x * self.size_y
        &&& 1 <= self.size_x <= 30_000
        &&& 1 <= self.size_y <= 30_000
        &&& forall|i: int|
            0 <= i < self.terrain_noise@.len() ==> #[trigger] self.terrain_noise@[i] <= 1000
        &&& forall|i: int|
            0 <= i < self.moisture_noise@.len() ==> #[trigger] self.moisture_noise@[i] <= 1000
    }

    /// Builds a noise field from row-major milli-unit scalars; refused
    /// unless both vectors hold exactly one value in `[0, 1000]` per cell.
    pub fn new(size_x: usize, size_y: usize, terrain_noise: Vec<u32>, moisture_noise: Vec<
        u32,
    >) -> (r: Option<NoiseMap>)
        ensures
            match r {
                Some(m) => {
                    &&& m.wf()
                    &&& m.size_x == size_x
                    &&& m.size_y == size_y
                    &&& m.terrain_noise@ == terrain_noise@
                    &&& m.moisture_noise@ == moisture_noise@
                },
                None => !({
                    &&& 1 <= size_x <= 30_000
                    &&& 1 <= size_y <= 30_000
                    &&& terrain_noise@.len() == size_x * size_y
                    &&& moisture_noise@.len() == size_x * size_y
                    &&& forall|i: int|
                        0 <= i < terrain_noise@.len() ==> #[trigger] terrain_noise@[i] <= 1000
                    &&& forall|i: int|
                        0 <= i < moisture_noise@.len() ==> #[trigger] moisture_noise@[i] <= 1000
                }),
            },
    {
        if size_x < 1 || size_x > 30_000 || size_y < 1 || size_y > 30_000 {
            return None;
        }
        proof {
            crate::map::lemma_grid_area_fits(size_x as int, size_y as int);
        }
        if terrain_noise.len() != size_x * size_y || moisture_noise.len() != size_x * size_y {
            return None;
        }
        let n = terrain_noise.len();
        let mut k: usize = 0;
        while k < n
            invariant
                n == terrain_noise@.len(),
                n == moisture_noise@.len(),
                k <= n,
                forall|i: int| 0 <= i < k ==> #[trigger] terrain_noise@[i] <= 1000,
                forall|i: int| 0 <= i < k ==> #[trigger] moisture_noise@[i] <= 1000,
            decreases n - k,
        {
            if terrain_noise[k] > 1000 || moisture_noise[k] > 1000 {
                return None;
            }
            k += 1;
        }
        Some(NoiseMap { size_x, size_y, terrain_noise, moisture_noise })
    }

    /// The terrain scalar of the cell at `(x, y)`.
    pub open spec fn spec_terrain_at(&self, x: int, y: int) -> u32 {
        self.terrain_noise@[y * self.size_x + x]
    }

    /// The moisture scalar of the cell at `(x, y)`.
    pub open spec fn spec_moisture_at(&self, x: int, y: int) -> u32 {
        self.moisture_noise@[y * self.size_x + x]
    }

    /// Samples the noise field and returns a terrain type and fuel load: a
    /// pure function of the field and the coordinates.
    pub fn sample(&self, x: usize, y: usize) -> (r: (TerrainType, u8))
        requires
            self.wf(),
            x < self.size_x,
            y < self.size_y,
        ensures
            r == spec_classify(self.spec_terrain_at(x as int, y as int) as int),
    {
        proof {
            crate::map::lemma_idx_bounds(
                self.size_x as int,
                self.size_y as int,
                x as int,
                y as int,
            );
            crate::map::lemma_grid_area_fits(self.size_x as int, self.size_y as int);
        }
        let i = y * self.size_x + x;
        classify(self.terrain_noise[i])
    }

    /// Returns the moisture level of the cell at `(x, y)` in milli-units,
    /// always within `[0, 1000]`.
    pub fn moisture(&self, x: usize, y: usize) -> (r: u32)
        requires
            self.wf(),
            x < self.size_x,
            y < self.size_y,
        ensures
            r == self.spec_moisture_at(x as int, y as int),
            r <= 1000,
    {
        proof {
            crate::map::lemma_idx_bounds(
                self.size_x as int,
                self.size_y as int,
                x as int,
                y as int,
            );
            crate::map::lemma_grid_area_fits(self.size_x as int, self.size_y as int);
        }
        let i = y * self.size_x + x;
        self.moisture_noise[i]
    }
}

} // verus!
