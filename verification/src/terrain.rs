//! The per-cell data model: terrain kinds, cell state and the fixed-point
//! scales shared by the whole simulation.

use vstd::prelude::*;

verus! {

/// Largest representable moisture level (a fully soaked cell).
pub const MOISTURE_MAX: u32 = 1000;

/// A local or global wind vector, components in milli-units.
#[derive(Clone, Copy, Debug, PartialEq, Eq, Structural)]
pub struct WindVec {
    pub x: i32,
    pub y: i32,
}

impl WindVec {
    /// The zero vector: still air.
    pub fn zero() -> (r: WindVec)
        ensures
            r.x == 0 && r.y == 0,
    {
        WindVec { x: 0, y: 0 }
    }

    pub fn new(x: i32, y: i32) -> (r: WindVec)
        ensures
            r.x == x && r.y == y,
    {
        WindVec { x, y }
    }
}

/// A kind of terrain occupying one grid cell.
#[derive(Clone, Copy, Debug, PartialEq, Eq, Structural)]
pub enum TerrainType {
    Dirt,
    /// Buildings burn like grass but are not changed by the automaton itself.
    Building,
    Grassland,
    Tree,
    Stone,
    Fire,
    Smoldering,
}

impl Default for TerrainType {
    fn default() -> (r: TerrainType)
        ensures
            r == TerrainType::Grassland,
    {
        TerrainType::Grassland
    }
}

/// The base ignition probability of a terrain kind, in milli-units.
pub open spec fn spec_burn_rate(t: TerrainType) -> u32 {
    match t {
        TerrainType::Fire => 0,
        TerrainType::Smoldering => 0,
        TerrainType::Dirt => 0,
        TerrainType::Stone => 0,
        TerrainType::Grassland => 600,
        TerrainType::Building => 600,
        TerrainType::Tree => 400,
    }
}

/// True of the kinds the automaton may set on fire.
pub open spec fn spec_is_vegetation(t: TerrainType) -> bool {
    t == TerrainType::Grassland || t == TerrainType::Tree
}

/// True of the kinds the automaton never changes.
pub open spec fn spec_is_inert(t: TerrainType) -> bool {
    t == TerrainType::Dirt || t == TerrainType::Stone || t == TerrainType::Smoldering
        || t == TerrainType::Building
}

impl TerrainType {
    /// The base ignition probability of this terrain kind, in milli-units.
    pub fn burn_rate(&self) -> (r: u32)
        ensures
            r == spec_burn_rate(*self),
    {
        match self {
            TerrainType::Fire
            | TerrainType::Smoldering
            | TerrainType::Dirt
            | TerrainType::Stone => 0,
            TerrainType::Grassland | TerrainType::Building => 600,
            TerrainType::Tree => 400,
        }
    }

    /// Whether the automaton may set this kind of terrain on fire.
    pub fn is_vegetation(&self) -> (r: bool)
        ensures
            r == spec_is_vegetation(*self),
    {
        matches!(self, TerrainType::Grassland | TerrainType::Tree)
    }
}

/// The state of a single cell of the map.
#[derive(Clone, Copy, Debug, PartialEq, Eq, Structural)]
pub struct TerrainCellState {
    pub terrain: TerrainType,
    /// Local wind over this cell, added to the global wind when fire spreads.
    pub wind: WindVec,
    /// Moisture level in milli-units, always within `[0, MOISTURE_MAX]`.
    pub moisture: u32,
    /// Remaining burn capacity; reaching 0 while on fire ends the fire.
    pub fuel_load: u8,
    /// Changed since the renderer last polled; see `GameMap::take_dirty`.
    pub dirty: bool,
}

/// A cell's moisture never leaves `[0, MOISTURE_MAX]`.
pub open spec fn spec_cell_wf(c: TerrainCellState) -> bool {
    c.moisture <= MOISTURE_MAX
}

impl TerrainCellState {
    /// Builds a cell that is not marked dirty; moisture is clamped to
    /// `MOISTURE_MAX`.
    pub fn new(terrain: TerrainType, wind: WindVec, moisture: u32, fuel_load: u8) -> (r:
        TerrainCellState)
        ensures
            r.terrain == terrain,
            r.wind == wind,
            r.moisture == if moisture <= MOISTURE_MAX {
                moisture
            } else {
                MOISTURE_MAX
            },
            r.fuel_load == fuel_load,
            !r.dirty,
            spec_cell_wf(r),
    {
        let m: u32 = if moisture <= MOISTURE_MAX {
            moisture
        } else {
            MOISTURE_MAX
        };
        TerrainCellState { terrain, wind, moisture: m, fuel_load, dirty: false }
    }

    /// Marks the cell as visually changed since the last render pass.
    pub fn mark_dirty(&mut self)
        ensures
            *final(self) == (TerrainCellState { dirty: true, ..*old(self) }),
    {
        self.dirty = true;
    }

    /// Whether the cell changed visually since the last render pass.
    pub fn is_dirty(&self) -> (r: bool)
        ensures
            r == self.dirty,
    {
        self.dirty
    }
}

/// The display name of a terrain kind.
pub open spec fn spec_terrain_name(t: TerrainType) -> Seq<char> {
    match t {
        TerrainType::Dirt => "Earth"@,
        TerrainType::Stone => "Stone"@,
        TerrainType::Grassland => "Grass"@,
        TerrainType::Building => "Building"@,
        TerrainType::Tree => "Forest"@,
        TerrainType::Fire => "Fire"@,
        TerrainType::Smoldering => "Burnt Ground"@,
    }
}

impl TerrainType {
    /// The display name of this terrain kind.
    pub fn name(&self) -> (r: &'static str)
        ensures
            r@ == spec_terrain_name(*self),
    {
        match self {
            TerrainType::Dirt => "Earth",
            TerrainType::Stone => "Stone",
            TerrainType::Grassland => "Grass",
            TerrainType::Building => "Building",
            TerrainType::Tree => "Forest",
            TerrainType::Fire => "Fire",
            TerrainType::Smoldering => "Burnt Ground",
        }
    }
}

/// The height prefix of a cell's description: only grassland is described
/// as short or long, by its fuel load.
pub open spec fn spec_height_prefix(c: TerrainCellState) -> Seq<char> {
    if c.terrain == TerrainType::Grassland {
        if c.fuel_load < 3 {
            "Short "@
        } else if c.fuel_load > 8 {
            "Long "@
        } else {
            ""@
        }
    } else {
        ""@
    }
}

/// The wetness prefix of a cell's description, by its moisture level.
pub open spec fn spec_wetness_prefix(c: TerrainCellState) -> Seq<char> {
    if c.moisture < 300 {
        "Dry "@
    } else if c.moisture > 800 {
        "Wet "@
    } else {
        ""@
    }
}

/// What a cell reads as: vegetation gets height and wetness prefixes,
/// everything else is just its terrain kind.
pub open spec fn spec_describe(c: TerrainCellState) -> Seq<char> {
    if spec_is_vegetation(c.terrain) {
        spec_height_prefix(c) + spec_wetness_prefix(c) + spec_terrain_name(c.terrain)
    } else {
        spec_terrain_name(c.terrain)
    }
}

impl TerrainCellState {
    /// Describes the cell in words, as the map inspector shows it.
    pub fn describe(&self) -> (r: String)
        ensures
            r@ == spec_describe(*self),
    {
        match self.terrain {
            TerrainType::Grassland | TerrainType::Tree => {
                let height: &'static str = if matches!(self.terrain, TerrainType::Grassland) {
                    if self.fuel_load < 3 {
                        "Short "
                    } else if self.fuel_load > 8 {
                        "Long "
                    } else {
                        ""
                    }
                } else {
                    ""
                };
                let wetness: &'static str = if self.moisture < 300 {
                    "Dry "
                } else if self.moisture > 800 {
                    "Wet "
                } else {
                    ""
                };
                let mut s = String::from_str(height);
                s.append(wetness);
                s.append(self.terrain.name());
                s
            },
            _ => String::from_str(self.terrain.name()),
        }
    }
}

impl Default for TerrainCellState {
    fn default() -> (r: TerrainCellState)
        ensures
            r.terrain == TerrainType::Grassland,
            r.wind.x == 0 && r.wind.y == 0,
            r.moisture == 0,
            r.fuel_load == 0,
            !r.dirty,
    {
        TerrainCellState {
            terrain: TerrainType::Grassland,
            wind: WindVec { x: 0, y: 0 },
            moisture: 0,
            fuel_load: 0,
            dirty: false,
        }
    }
}

} // verus!
