//! The grid engine: a 2D array of terrain cells with bounds-checked access,
//! coordinate transforms, range queries, external commands and the
//! cellular-automaton tick.

use vstd::prelude::*;
use vstd::arithmetic::div_mod::{lemma_fundamental_div_mod, lemma_fundamental_div_mod_converse};
use crate::terrain::{TerrainCellState, TerrainType, WindVec, spec_is_vegetation, MOISTURE_MAX};
use crate::fixed::spec_clamp;

verus! {

/// A pair of tile coordinates; cells outside the grid are representable.
#[derive(Clone, Copy, Debug, PartialEq, Eq, Structural)]
pub struct Coord {
    pub x: i32,
    pub y: i32,
}

impl Coord {
    pub fn new(x: i32, y: i32) -> (r: Coord)
        ensures
            r.x == x && r.y == y,
    {
        Coord { x, y }
    }
}

/// The terrain grid: `size_x * size_y` cells in row-major order, with the
/// world-to-tile scale `sprite_size` in milli world units per tile.
#[derive(Debug)]
pub struct GameMap {
    pub size_x: usize,
    pub size_y: usize,
    pub sprite_size: i64,
    pub data: Vec<TerrainCellState>,
}

/// The flat index of a cell at `(x, y)` in a grid `sx` cells wide.
pub open spec fn spec_idx(sx: int, x: int, y: int) -> int {
    y * sx + x
}

/// The flat index stays within a `sx * sy` grid.
pub proof fn lemma_idx_bounds(sx: int, sy: int, x: int, y: int)
    requires
        0 <= x < sx,
        0 <= y < sy,
    ensures
        0 <= spec_idx(sx, x, y) < sx * sy,
{
    assert(0 <= y * sx + x < sx * sy) by (nonlinear_arith)
        requires
            0 <= x < sx,
            0 <= y < sy,
    ;
}

/// A grid within the size bounds has at most 900 million cells, so flat
/// indices fit comfortably in a `usize`.
pub proof fn lemma_grid_area_fits(sx: int, sy: int)
    requires
        0 <= sx <= 30_000,
        0 <= sy <= 30_000,
    ensures
        sx * sy <= 900_000_000,
{
    assert(sx * sy <= 900_000_000) by (nonlinear_arith)
        requires
            0 <= sx <= 30_000,
            0 <= sy <= 30_000,
    ;
}

/// Recovers the coordinates of a flat index.
pub proof fn lemma_idx_roundtrip(sx: int, x: int, y: int)
    requires
        0 <= x < sx,
        0 <= y,
    ensures
        spec_idx(sx, x, y) % sx == x,
        spec_idx(sx, x, y) / sx == y,
{
    lemma_fundamental_div_mod_converse(y * sx + x, sx, y, x);
}

/// Distinct coordinates have distinct flat indices.
pub proof fn lemma_idx_injective(sx: int, x1: int, y1: int, x2: int, y2: int)
    requires
        0 <= x1 < sx,
        0 <= x2 < sx,
        0 <= y1,
        0 <= y2,
        !(x1 == x2 && y1 == y2),
    ensures
        spec_idx(sx, x1, y1) != spec_idx(sx, x2, y2),
{
    lemma_idx_roundtrip(sx, x1, y1);
    lemma_idx_roundtrip(sx, x2, y2);
}

impl GameMap {
    /// The structural invariant of the grid.
    pub open spec fn wf(&self) -> bool {
        &&& self.data@.len() == self.size_x * self.size_y
        &&& 1 <= self.size_x <= 30_000
        &&& 1 <= self.size_y <= 30_000
        &&& 1 <= self.sprite_size <= 1_000_000_000
    }

    /// Whether `c` lies on the grid.
    pub open spec fn spec_valid(&self, c: Coord) -> bool {
        0 <= c.x < self.size_x && 0 <= c.y < self.size_y
    }

    /// The cell at the (valid) coordinates `c`.
    pub open spec fn spec_cell(&self, c: Coord) -> TerrainCellState {
        self.data@[spec_idx(self.size_x as int, c.x as int, c.y as int)]
    }

    /// Whether the cell at `c` exists and burns.
    pub open spec fn spec_on_fire(&self, c: Coord) -> bool {
        self.spec_valid(c) && self.spec_cell(c).terrain == TerrainType::Fire
    }

    /// The grid dimensions and scale of `b` are those of `a`.
    pub open spec fn spec_same_frame(a: GameMap, b: GameMap) -> bool {
        &&& b.size_x == a.size_x
        &&& b.size_y == a.size_y
        &&& b.sprite_size == a.sprite_size
        &&& b.data@.len() == a.data@.len()
    }

    /// Builds a map from a row-major cell vector; refused unless the vector
    /// holds exactly `size_x * size_y` cells and the bounds are sane.
    pub fn from_cells(size_x: usize, size_y: usize, sprite_size: i64, cells: Vec<
        TerrainCellState,
    >) -> (r: Option<GameMap>)
        ensures
            match r {
                Some(m) => {
                    &&& m.wf()
                    &&& m.size_x == size_x
                    &&& m.size_y == size_y
                    &&& m.sprite_size == sprite_size
                    &&& m.data@ == cells@
                },
                None => !(1 <= size_x <= 30_000 && 1 <= size_y <= 30_000 && 1 <= sprite_size
                    <= 1_000_000_000 && cells@.len() == size_x * size_y),
            },
    {
        if size_x < 1 || size_x > 30_000 || size_y < 1 || size_y > 30_000 {
            return None;
        }
        if sprite_size < 1 || sprite_size > 1_000_000_000 {
            return None;
        }
        proof {
            lemma_grid_area_fits(size_x as int, size_y as int);
        }
        if cells.len() != size_x * size_y {
            return None;
        }
        Some(GameMap { size_x, size_y, sprite_size, data: cells })
    }

    /// Returns whether the given coordinates are on the map.
    pub fn is_valid_coords(&self, coords: Coord) -> (r: bool)
        ensures
            r == self.spec_valid(coords),
    {
        !(coords.x < 0 || coords.x as usize >= self.size_x || coords.y < 0 || coords.y as usize
            >= self.size_y)
    }

    /// The flat index of valid coordinates.
    fn index_of(&self, x: usize, y: usize) -> (i: usize)
        requires
            self.wf(),
            x < self.size_x,
            y < self.size_y,
        ensures
            i == spec_idx(self.size_x as int, x as int, y as int),
            i < self.data@.len(),
    {
        proof {
            lemma_idx_bounds(self.size_x as int, self.size_y as int, x as int, y as int);
            lemma_grid_area_fits(self.size_x as int, self.size_y as int);
        }
        y * self.size_x + x
    }

    /// Gets a reference to the cell at the given location, if there is one.
    pub fn get(&self, loc: Coord) -> (r: Option<&TerrainCellState>)
        requires
            self.wf(),
        ensures
            self.spec_valid(loc) ==> (r matches Some(c) && *c == self.spec_cell(loc)),
            !self.spec_valid(loc) ==> r is None,
    {
        if loc.x < 0 || loc.y < 0 {
            return None;
        }
        let x = loc.x as usize;
        let y = loc.y as usize;
        if x >= self.size_x || y >= self.size_y {
            return None;
        }
        let i = self.index_of(x, y);
        Some(&self.data[i])
    }

    /// Checks whether the cell at the given tile coords is on fire; false
    /// off the grid.
    pub fn is_on_fire(&self, loc: Coord) -> (r: bool)
        requires
            self.wf(),
        ensures
            r == self.spec_on_fire(loc),
    {
        match self.get(loc) {
            Some(cell) => matches!(cell.terrain, TerrainType::Fire),
            None => false,
        }
    }

    /// Checks whether any of the given cells is on fire.
    pub fn check_on_fire(&self, locs: &[Coord]) -> (r: bool)
        requires
            self.wf(),
        ensures
            r == exists|i: int| 0 <= i < locs@.len() && self.spec_on_fire(locs@[i]),
    {
        let n = locs.len();
        let mut k: usize = 0;
        while k < n
            invariant
                n == locs@.len(),
                k <= n,
                self.wf(),
                forall|i: int| 0 <= i < k ==> !self.spec_on_fire(locs@[i]),
            decreases n - k,
        {
            if self.is_on_fire(locs[k]) {
                return true;
            }
            k += 1;
        }
        false
    }

    /// Whether any cell of the whole grid is on fire.
    pub fn any_on_fire(&self) -> (r: bool)
        requires
            self.wf(),
        ensures
            r == spec_any_fire(self.data@),
    {
        let n = self.data.len();
        let mut k: usize = 0;
        while k < n
            invariant
                n == self.data@.len(),
                k <= n,
                forall|i: int| 0 <= i < k ==> self.data@[i].terrain != TerrainType::Fire,
            decreases n - k,
        {
            if matches!(self.data[k].terrain, TerrainType::Fire) {
                return true;
            }
            k += 1;
        }
        false
    }

    /// Sets the cell at valid coordinates, leaving every other cell alone.
    fn put_cell(&mut self, x: usize, y: usize, c: TerrainCellState)
        requires
            old(self).wf(),
            x < old(self).size_x,
            y < old(self).size_y,
        ensures
            final(self).wf(),
            Self::spec_same_frame(*old(self), *final(self)),
            final(self).data@ == old(self).data@.update(
                spec_idx(old(self).size_x as int, x as int, y as int),
                c,
            ),
    {
        let i = self.index_of(x, y);
        self.data.set(i, c);
    }

    /// Ignites the cell at `loc` if it is on the map and vegetation, as a
    /// lightning strike does; reports whether it caught.
    pub fn ignite(&mut self, loc: Coord) -> (ignited: bool)
        requires
            old(self).wf(),
        ensures
            final(self).wf(),
            Self::spec_same_frame(*old(self), *final(self)),
            ignited == (old(self).spec_valid(loc) && spec_is_vegetation(
                old(self).spec_cell(loc).terrain,
            )),
            ignited ==> final(self).data@ == old(self).data@.update(
                spec_idx(old(self).size_x as int, loc.x as int, loc.y as int),
                (TerrainCellState {
                    terrain: TerrainType::Fire,
                    dirty: true,
                    ..old(self).spec_cell(loc)
                }),
            ),
            !ignited ==> final(self).data@ == old(self).data@,
    {
        if loc.x < 0 || loc.y < 0 {
            return false;
        }
        let x = loc.x as usize;
        let y = loc.y as usize;
        if x >= self.size_x || y >= self.size_y {
            return false;
        }
        let i = self.index_of(x, y);
        let cell = self.data[i];
        if cell.terrain.is_vegetation() {
            let lit = TerrainCellState { terrain: TerrainType::Fire, dirty: true, ..cell };
            self.put_cell(x, y, lit);
            true
        } else {
            false
        }
    }

    /// Replaces the terrain kind at `loc`, marking the cell dirty; reports
    /// whether the cell exists.
    pub fn set_terrain(&mut self, loc: Coord, t: TerrainType) -> (found: bool)
        requires
            old(self).wf(),
        ensures
            final(self).wf(),
            Self::spec_same_frame(*old(self), *final(self)),
            found == old(self).spec_valid(loc),
            found ==> final(self).data@ == old(self).data@.update(
                spec_idx(old(self).size_x as int, loc.x as int, loc.y as int),
                (TerrainCellState { terrain: t, dirty: true, ..old(self).spec_cell(loc) }),
            ),
            !found ==> final(self).data@ == old(self).data@,
    {
        if loc.x < 0 || loc.y < 0 {
            return false;
        }
        let x = loc.x as usize;
        let y = loc.y as usize;
        if x >= self.size_x || y >= self.size_y {
            return false;
        }
        let i = self.index_of(x, y);
        let cell = self.data[i];
        self.put_cell(x, y, TerrainCellState { terrain: t, dirty: true, ..cell });
        true
    }

    /// Replaces the fuel load at `loc`; reports whether the cell exists.
    /// Fuel is not a visible change, so the dirty flag is untouched.
    pub fn set_fuel_load(&mut self, loc: Coord, fuel: u8) -> (found: bool)
        requires
            old(self).wf(),
        ensures
            final(self).wf(),
            Self::spec_same_frame(*old(self), *final(self)),
            found == old(self).spec_valid(loc),
            found ==> final(self).data@ == old(self).data@.update(
                spec_idx(old(self).size_x as int, loc.x as int, loc.y as int),
                (TerrainCellState { fuel_load: fuel, ..old(self).spec_cell(loc) }),
            ),
            !found ==> final(self).data@ == old(self).data@,
    {
        if loc.x < 0 || loc.y < 0 {
            return false;
        }
        let x = loc.x as usize;
        let y = loc.y as usize;
        if x >= self.size_x || y >= self.size_y {
            return false;
        }
        let i = self.index_of(x, y);
        let cell = self.data[i];
        self.put_cell(x, y, TerrainCellState { fuel_load: fuel, ..cell });
        true
    }

    /// Adds `delta` milli-units to the moisture at `loc`, clamping the
    /// result into `[0, MOISTURE_MAX]`, and marks the cell dirty; reports
    /// whether the cell exists.
    pub fn adjust_moisture(&mut self, loc: Coord, delta: i32) -> (found: bool)
        requires
            old(self).wf(),
        ensures
            final(self).wf(),
            Self::spec_same_frame(*old(self), *final(self)),
            found == old(self).spec_valid(loc),
            found ==> final(self).data@ == old(self).data@.update(
                spec_idx(old(self).size_x as int, loc.x as int, loc.y as int),
                (TerrainCellState {
                    moisture: spec_clamp(
                        old(self).spec_cell(loc).moisture + delta,
                        0,
                        MOISTURE_MAX as int,
                    ) as u32,
                    dirty: true,
                    ..old(self).spec_cell(loc)
                }),
            ),
            found ==> final(self).spec_cell(loc).moisture <= MOISTURE_MAX,
            !found ==> final(self).data@ == old(self).data@,
    {
        if loc.x < 0 || loc.y < 0 {
            return false;
        }
        let x = loc.x as usize;
        let y = loc.y as usize;
        if x >= self.size_x || y >= self.size_y {
            return false;
        }
        let i = self.index_of(x, y);
        let cell = self.data[i];
        let m: i64 = cell.moisture as i64 + delta as i64;
        let clamped: u32 = if m < 0 {
            0
        } else if m > MOISTURE_MAX as i64 {
            MOISTURE_MAX
        } else {
            m as u32
        };
        self.put_cell(x, y, TerrainCellState { moisture: clamped, dirty: true, ..cell });
        proof {
            assert(final(self).data@[spec_idx(old(self).size_x as int, loc.x as int, loc.y as int)]
                == final(self).spec_cell(loc));
        }
        true
    }

    /// Adds a wind vector to the local wind at `loc`, saturating each
    /// component; reports whether the cell exists.
    pub fn add_local_wind(&mut self, loc: Coord, w: WindVec) -> (found: bool)
        requires
            old(self).wf(),
        ensures
            final(self).wf(),
            Self::spec_same_frame(*old(self), *final(self)),
            found == old(self).spec_valid(loc),
            found ==> final(self).data@ == old(self).data@.update(
                spec_idx(old(self).size_x as int, loc.x as int, loc.y as int),
                (TerrainCellState {
                    wind: (WindVec {
                        x: spec_clamp(
                            old(self).spec_cell(loc).wind.x + w.x,
                            i32::MIN as int,
                            i32::MAX as int,
                        ) as i32,
                        y: spec_clamp(
                            old(self).spec_cell(loc).wind.y + w.y,
                            i32::MIN as int,
                            i32::MAX as int,
                        ) as i32,
                    }),
                    ..old(self).spec_cell(loc)
                }),
            ),
            !found ==> final(self).data@ == old(self).data@,
    {
        if loc.x < 0 || loc.y < 0 {
            return false;
        }
        let x = loc.x as usize;
        let y = loc.y as usize;
        if x >= self.size_x || y >= self.size_y {
            return false;
        }
        let i = self.index_of(x, y);
        let cell = self.data[i];
        let wind = WindVec {
            x: crate::fixed::sat_add_i32(cell.wind.x, w.x),
            y: crate::fixed::sat_add_i32(cell.wind.y, w.y),
        };
        self.put_cell(x, y, TerrainCellState { wind, ..cell });
        true
    }

    /// One tick of the cellular automaton, sweeping the grid in row-major
    /// order and reading neighbours from the same array in place.  Burning
    /// cells decay towards Smoldering; vegetation next to fire dries out
    /// and may ignite, biased by the wind; everything else is left alone.
    /// Whatever the rolls: a grid with no fire at all is a fixed point, a
    /// vegetation cell ignites only beside a neighbour burning in the old
    /// or the new state, and one with a neighbour whose fire cannot go out
    /// this tick loses at least one step of moisture.
    pub fn update(&mut self, global_wind: WindVec)
        requires
            old(self).wf(),
        ensures
            final(self).wf(),
            Self::spec_same_frame(*old(self), *final(self)),
            forall|i: int|
                0 <= i < old(self).data@.len() ==> #[trigger] spec_cell_step_ok(
                    old(self).data@[i],
                    final(self).data@[i],
                ),
            !spec_any_fire(old(self).data@) ==> final(self).data@ == old(self).data@,
            forall|c: Coord|
                old(self).spec_valid(c) && spec_is_vegetation(old(self).spec_cell(c).terrain)
                    && spec_has_lasting_fire_neighbour(
                    old(self).data@,
                    old(self).size_x as int,
                    old(self).size_y as int,
                    c.x as int,
                    c.y as int,
                ) ==> (#[trigger] final(self).spec_cell(c)).moisture <= spec_moist_dec(
                    old(self).spec_cell(c).moisture,
                ),
            forall|c: Coord|
                old(self).spec_valid(c) && spec_is_vegetation(old(self).spec_cell(c).terrain)
                    && (#[trigger] final(self).spec_cell(c)).terrain == TerrainType::Fire
                    ==> spec_has_fire_neighbour(
                    old(self).data@,
                    final(self).data@,
                    old(self).size_x as int,
                    old(self).size_y as int,
                    c.x as int,
                    c.y as int,
                ),
    {
        let sx = self.size_x;
        let sy = self.size_y;
        let n = self.data.len();
        let ghost orig = self.data@;
        let mut k: usize = 0;
        while k < n
            invariant
                self.wf(),
                self.size_x == sx,
                self.size_y == sy,
                self.sprite_size == old(self).sprite_size,
                n == self.data@.len(),
                n == sx * sy,
                orig.len() == n,
                orig == old(self).data@,
                k <= n,
                forall|i: int|
                    0 <= i < k ==> #[trigger] spec_cell_step_ok(orig[i], self.data@[i]),
                forall|i: int| k <= i < n ==> self.data@[i] == orig[i],
                !spec_any_fire(orig) ==> self.data@ == orig,
                forall|cx: int, cy: int|
                    0 <= cx < sx && 0 <= cy < sy && #[trigger] spec_idx(sx as int, cx, cy) < k
                        && spec_is_vegetation(orig[spec_idx(sx as int, cx, cy)].terrain)
                        && spec_has_lasting_fire_neighbour(orig, sx as int, sy as int, cx, cy)
                        ==> self.data@[spec_idx(sx as int, cx, cy)].moisture <= spec_moist_dec(
                        orig[spec_idx(sx as int, cx, cy)].moisture,
                    ),
                forall|cx: int, cy: int|
                    0 <= cx < sx && 0 <= cy < sy && #[trigger] spec_idx(sx as int, cx, cy) < k
                        && spec_is_vegetation(orig[spec_idx(sx as int, cx, cy)].terrain)
                        && self.data@[spec_idx(sx as int, cx, cy)].terrain == TerrainType::Fire
                        ==> spec_local_fire_witness(orig, self.data@, sx as int, sy as int, cx, cy),
            decreases n - k,
        {
            let x = k % sx;
            let y = k / sx;
            proof {
                lemma_fundamental_div_mod(k as int, sx as int);
                assert(y < sy) by (nonlinear_arith)
                    requires
                        k == sx * y + x,
                        0 <= x < sx,
                        (k as int) < sx * sy,
                        sx >= 1,
                        y >= 0,
                ;
                assert(spec_idx(sx as int, x as int, y as int) == k) by (nonlinear_arith)
                    requires
                        k == sx * y + x,
                ;
            }
            let cell = self.data[k];
            match cell.terrain {
                TerrainType::Fire => {
                    let roll = crate::rng::rand_below(1000);
                    if roll < crate::fire::BURN_DECAY_CHANCE {
                        proof {
                            assert(spec_any_fire(orig)) by {
                                assert(orig[k as int].terrain == TerrainType::Fire);
                            }
                        }
                        let new_fuel = cell.fuel_load.saturating_sub(1);
                        let c2 = if new_fuel == 0 {
                            TerrainCellState {
                                terrain: TerrainType::Smoldering,
                                dirty: true,
                                fuel_load: 0,
                                ..cell
                            }
                        } else {
                            TerrainCellState { fuel_load: new_fuel, ..cell }
                        };
                        let ghost before_data = self.data@;
                        self.data.set(k, c2);
                        proof {
                            assert forall|cx: int, cy: int|
                                0 <= cx < sx && 0 <= cy < sy && #[trigger] spec_idx(
                                    sx as int,
                                    cx,
                                    cy,
                                ) < k + 1 && spec_is_vegetation(
                                    orig[spec_idx(sx as int, cx, cy)].terrain,
                                ) && self.data@[spec_idx(sx as int, cx, cy)].terrain
                                == TerrainType::Fire implies spec_local_fire_witness(
                                orig,
                                self.data@,
                                sx as int,
                                sy as int,
                                cx,
                                cy,
                            ) by {
                                let idx = spec_idx(sx as int, cx, cy);
                                if idx == k {
                                    if !(cx == x && cy == y) {
                                        lemma_idx_injective(sx as int, cx, cy, x as int, y as int);
                                    }
                                    assert(orig[idx].terrain == TerrainType::Fire);
                                } else {
                                    assert(self.data@[idx] == before_data[idx]);
                                    assert(spec_local_fire_witness(
                                        orig,
                                        before_data,
                                        sx as int,
                                        sy as int,
                                        cx,
                                        cy,
                                    ));
                                    lemma_local_fire_stable(
                                        orig,
                                        before_data,
                                        self.data@,
                                        sx as int,
                                        sy as int,
                                        cx,
                                        cy,
                                        k as int,
                                    );
                                }
                            }
                        }
                    }
                },
                TerrainType::Grassland | TerrainType::Tree => {
                    let mut c = cell;
                    let mut ignited = false;
                    let mut j: usize = 0;
                    while j < crate::fire::NEIGHBOURHOOD_SIZE && !ignited
                        invariant
                            self.wf(),
                            self.size_x == sx,
                            self.size_y == sy,
                            self.sprite_size == old(self).sprite_size,
                            n == self.data@.len(),
                            n == sx * sy,
                            orig.len() == n,
                            orig == old(self).data@,
                            k < n,
                            x < sx,
                            y < sy,
                            spec_idx(sx as int, x as int, y as int) == k,
                            cell == orig[k as int],
                            spec_is_vegetation(cell.terrain),
                            forall|i: int|
                                0 <= i < k ==> #[trigger] spec_cell_step_ok(
                                    orig[i],
                                    self.data@[i],
                                ),
                            forall|i: int| k <= i < n ==> self.data@[i] == orig[i],
                            !spec_any_fire(orig) ==> self.data@ == orig,
                            forall|cx: int, cy: int|
                                0 <= cx < sx && 0 <= cy < sy && #[trigger] spec_idx(
                                    sx as int,
                                    cx,
                                    cy,
                                ) < k && spec_is_vegetation(
                                    orig[spec_idx(sx as int, cx, cy)].terrain,
                                ) && spec_has_lasting_fire_neighbour(
                                    orig,
                                    sx as int,
                                    sy as int,
                                    cx,
                                    cy,
                                ) ==> self.data@[spec_idx(sx as int, cx, cy)].moisture
                                    <= spec_moist_dec(orig[spec_idx(sx as int, cx, cy)].moisture),
                            forall|cx: int, cy: int|
                                0 <= cx < sx && 0 <= cy < sy && #[trigger] spec_idx(
                                    sx as int,
                                    cx,
                                    cy,
                                ) < k && spec_is_vegetation(
                                    orig[spec_idx(sx as int, cx, cy)].terrain,
                                ) && self.data@[spec_idx(sx as int, cx, cy)].terrain
                                    == TerrainType::Fire ==> spec_local_fire_witness(
                                    orig,
                                    self.data@,
                                    sx as int,
                                    sy as int,
                                    cx,
                                    cy,
                                ),
                            j <= crate::fire::NEIGHBOURHOOD_SIZE,
                            c.wind == cell.wind,
                            c.fuel_load == cell.fuel_load,
                            c.moisture <= cell.moisture,
                            cell.moisture - c.moisture <= j * crate::fire::MOISTURE_DECAY_RATE,
                            !ignited ==> c.terrain == cell.terrain && c.dirty == cell.dirty,
                            ignited ==> c.terrain == TerrainType::Fire && c.dirty,
                            ignited ==> spec_local_fire_witness(
                                orig,
                                self.data@,
                                sx as int,
                                sy as int,
                                x as int,
                                y as int,
                            ),
                            ignited ==> c.moisture <= spec_moist_dec(cell.moisture),
                            forall|i2: int|
                                0 <= i2 < j && #[trigger] spec_lasting_fire_at(
                                    orig,
                                    sx as int,
                                    sy as int,
                                    x as int,
                                    y as int,
                                    i2,
                                ) ==> c.moisture <= spec_moist_dec(cell.moisture),
                            !spec_any_fire(orig) ==> (c == cell && !ignited),
                        decreases crate::fire::NEIGHBOURHOOD_SIZE - j,
                    {
                        let (dx, dy) = crate::fire::neighbour_offset(j);
                        let nx = x as i64 + dx as i64;
                        let ny = y as i64 + dy as i64;
                        if nx >= 0 && ny >= 0 && nx < sx as i64 && ny < sy as i64 {
                            let ni = self.index_of(nx as usize, ny as usize);
                            proof {
                                assert(spec_neighbour_in_grid(
                                    sx as int,
                                    sy as int,
                                    x as int,
                                    y as int,
                                    j as int,
                                ));
                                assert(spec_neighbour_cell(
                                    orig,
                                    sx as int,
                                    x as int,
                                    y as int,
                                    j as int,
                                ) == orig[ni as int]);
                                assert(spec_neighbour_cell(
                                    self.data@,
                                    sx as int,
                                    x as int,
                                    y as int,
                                    j as int,
                                ) == self.data@[ni as int]);
                            }
                            let ncell = self.data[ni];
                            if matches!(ncell.terrain, TerrainType::Fire) {
                                proof {
                                    if !spec_any_fire(orig) {
                                        assert(self.data@ == orig);
                                        assert(orig[ni as int].terrain == TerrainType::Fire);
                                        assert(spec_any_fire(orig));
                                    }
                                }
                                let m2 = if c.moisture >= crate::fire::MOISTURE_DECAY_RATE {
                                    c.moisture - crate::fire::MOISTURE_DECAY_RATE
                                } else {
                                    0
                                };
                                c = TerrainCellState { moisture: m2, ..c };
                                assert(c.moisture <= spec_moist_dec(cell.moisture));
                                if crate::rng::rand_below(1000) < crate::fire::FIRE_SPREAD_CHANCE {
                                    let base = c.terrain.burn_rate();
                                    assert(base <= 1000);
                                    let wx = crate::fixed::clamp_i64(
                                        c.wind.x as i64 + global_wind.x as i64,
                                        -10_000_000,
                                        10_000_000,
                                    );
                                    let wy = crate::fixed::clamp_i64(
                                        c.wind.y as i64 + global_wind.y as i64,
                                        -10_000_000,
                                        10_000_000,
                                    );
                                    let f = crate::fire::wind_factor(wx, wy, j);
                                    let chance = crate::fire::burn_chance_milli(
                                        base,
                                        c.moisture,
                                        f,
                                    );
                                    let r1 = crate::rng::rand_below(1000);
                                    let r2 = crate::rng::rand_below(1_000_000);
                                    if crate::fire::ignition_roll(chance, r1, r2) {
                                        c = TerrainCellState {
                                            terrain: TerrainType::Fire,
                                            dirty: true,
                                            ..c
                                        };
                                        ignited = true;
                                        proof {
                                            if ni < k {
                                                assert(spec_cell_step_ok(
                                                    orig[ni as int],
                                                    self.data@[ni as int],
                                                ));
                                            } else {
                                                assert(self.data@[ni as int] == orig[ni as int]);
                                            }
                                            assert(spec_local_fire_witness(
                                                orig,
                                                self.data@,
                                                sx as int,
                                                sy as int,
                                                x as int,
                                                y as int,
                                            ));
                                        }
                                    }
                                }
                            } else {
                                proof {
                                    if spec_lasting_fire_at(
                                        orig,
                                        sx as int,
                                        sy as int,
                                        x as int,
                                        y as int,
                                        j as int,
                                    ) {
                                        if ni < k {
                                            assert(spec_cell_step_ok(
                                                orig[ni as int],
                                                self.data@[ni as int],
                                            ));
                                        } else {
                                            assert(self.data@[ni as int] == orig[ni as int]);
                                        }
                                        assert(self.data@[ni as int].terrain == TerrainType::Fire);
                                        assert(false);
                                    }
                                }
                            }
                        } else {
                            proof {
                                assert(!spec_neighbour_in_grid(
                                    sx as int,
                                    sy as int,
                                    x as int,
                                    y as int,
                                    j as int,
                                ));
                            }
                        }
                        j += 1;
                    }
                    proof {
                        assert(spec_veg_step_ok(orig[k as int], c));
                        if spec_has_lasting_fire_neighbour(
                            orig,
                            sx as int,
                            sy as int,
                            x as int,
                            y as int,
                        ) {
                            let i0 = choose|i0: int|
                                0 <= i0 < 8 && #[trigger] spec_lasting_fire_at(
                                    orig,
                                    sx as int,
                                    sy as int,
                                    x as int,
                                    y as int,
                                    i0,
                                );
                            assert(c.moisture <= spec_moist_dec(cell.moisture));
                        }
                    }
                    let ghost before_data = self.data@;
                    self.data.set(k, c);
                    proof {
                        if !spec_any_fire(orig) {
                            assert(self.data@ =~= orig);
                        }
                        assert forall|cx: int, cy: int|
                            0 <= cx < sx && 0 <= cy < sy && #[trigger] spec_idx(sx as int, cx, cy)
                                < k + 1 && spec_is_vegetation(
                                orig[spec_idx(sx as int, cx, cy)].terrain,
                            ) && spec_has_lasting_fire_neighbour(
                                orig,
                                sx as int,
                                sy as int,
                                cx,
                                cy,
                            ) implies self.data@[spec_idx(sx as int, cx, cy)].moisture
                            <= spec_moist_dec(orig[spec_idx(sx as int, cx, cy)].moisture) by {
                            let idx = spec_idx(sx as int, cx, cy);
                            if idx == k {
                                if !(cx == x && cy == y) {
                                    lemma_idx_injective(sx as int, cx, cy, x as int, y as int);
                                }
                                assert(cx == x && cy == y);
                                assert(self.data@[idx] == c);
                            } else {
                                assert(self.data@[idx] == before_data[idx]);
                            }
                        }
                        assert forall|cx: int, cy: int|
                            0 <= cx < sx && 0 <= cy < sy && #[trigger] spec_idx(sx as int, cx, cy)
                                < k + 1 && spec_is_vegetation(
                                orig[spec_idx(sx as int, cx, cy)].terrain,
                            ) && self.data@[spec_idx(sx as int, cx, cy)].terrain
                            == TerrainType::Fire implies spec_local_fire_witness(
                            orig,
                            self.data@,
                            sx as int,
                            sy as int,
                            cx,
                            cy,
                        ) by {
                            let idx = spec_idx(sx as int, cx, cy);
                            if idx == k {
                                if !(cx == x && cy == y) {
                                    lemma_idx_injective(sx as int, cx, cy, x as int, y as int);
                                }
                                assert(cx == x && cy == y);
                                assert(self.data@[idx] == c);
                                assert(ignited);
                                assert(spec_local_fire_witness(
                                    orig,
                                    before_data,
                                    sx as int,
                                    sy as int,
                                    cx,
                                    cy,
                                ));
                            } else {
                                assert(self.data@[idx] == before_data[idx]);
                                assert(spec_local_fire_witness(
                                    orig,
                                    before_data,
                                    sx as int,
                                    sy as int,
                                    cx,
                                    cy,
                                ));
                            }
                            lemma_local_fire_stable(
                                orig,
                                before_data,
                                self.data@,
                                sx as int,
                                sy as int,
                                cx,
                                cy,
                                k as int,
                            );
                        }
                    }
                },
                _ => {},
            }
            k += 1;
        }
        proof {
            assert forall|c: Coord|
                0 <= c.x < sx && 0 <= c.y < sy implies 0 <= #[trigger] spec_idx(
                sx as int,
                c.x as int,
                c.y as int,
            ) < n as int by {
                lemma_idx_bounds(sx as int, sy as int, c.x as int, c.y as int);
            }
            assert forall|c: Coord|
                0 <= c.x < sx && 0 <= c.y < sy && spec_is_vegetation(
                    orig[spec_idx(sx as int, c.x as int, c.y as int)].terrain,
                ) && self.data@[spec_idx(sx as int, c.x as int, c.y as int)].terrain
                == TerrainType::Fire implies spec_has_fire_neighbour(
                orig,
                self.data@,
                sx as int,
                sy as int,
                c.x as int,
                c.y as int,
            ) by {
                lemma_idx_bounds(sx as int, sy as int, c.x as int, c.y as int);
                assert(spec_local_fire_witness(
                    orig,
                    self.data@,
                    sx as int,
                    sy as int,
                    c.x as int,
                    c.y as int,
                ));
                lemma_local_fire_weaken(
                    orig,
                    self.data@,
                    sx as int,
                    sy as int,
                    c.x as int,
                    c.y as int,
                );
            }
        }
    }

    /// Gets the tile coordinates for the given world position in milli
    /// world units; the tile may not actually exist.  Results beyond the
    /// 32-bit tile range are clamped.
    pub fn tile_coords(&self, wx: i64, wy: i64) -> (r: Coord)
        requires
            self.wf(),
            -1_000_000_000_000_000 <= wx <= 1_000_000_000_000_000,
            -1_000_000_000_000_000 <= wy <= 1_000_000_000_000_000,
        ensures
            r.x == spec_clamp(
                spec_tile_1d(wx as int, self.size_x as int, self.sprite_size as int),
                i32::MIN as int,
                i32::MAX as int,
            ),
            r.y == spec_clamp(
                spec_tile_1d(wy as int, self.size_y as int, self.sprite_size as int),
                i32::MIN as int,
                i32::MAX as int,
            ),
    {
        let ss = self.sprite_size;
        assert(0 <= (self.size_x as int) * ss <= 30_000_000_000_000) by (nonlinear_arith)
            requires
                1 <= self.size_x <= 30_000,
                1 <= ss <= 1_000_000_000,
        ;
        assert(0 <= (self.size_y as int) * ss <= 30_000_000_000_000) by (nonlinear_arith)
            requires
                1 <= self.size_y <= 30_000,
                1 <= ss <= 1_000_000_000,
        ;
        let qx = crate::fixed::div_floor_i64(2 * wx + (self.size_x as i64) * ss, 2 * ss);
        let qy = crate::fixed::div_floor_i64(2 * wy + (self.size_y as i64) * ss, 2 * ss);
        let cx = crate::fixed::clamp_i64(qx, i32::MIN as i64, i32::MAX as i64);
        let cy = crate::fixed::clamp_i64(qy, i32::MIN as i64, i32::MAX as i64);
        Coord { x: cx as i32, y: cy as i32 }
    }

    /// Converts from tile coordinates to the world position of the tile's
    /// lower-left corner, in milli world units.
    pub fn world_coords(&self, tile_pos: Coord) -> (r: (i64, i64))
        requires
            self.wf(),
        ensures
            r.0 == spec_world_1d(tile_pos.x as int, self.size_x as int, self.sprite_size as int),
            r.1 == spec_world_1d(tile_pos.y as int, self.size_y as int, self.sprite_size as int),
    {
        let ss = self.sprite_size;
        assert(0 <= (self.size_x as int) * ss <= 30_000_000_000_000) by (nonlinear_arith)
            requires
                1 <= self.size_x <= 30_000,
                1 <= ss <= 1_000_000_000,
        ;
        assert(0 <= (self.size_y as int) * ss <= 30_000_000_000_000) by (nonlinear_arith)
            requires
                1 <= self.size_y <= 30_000,
                1 <= ss <= 1_000_000_000,
        ;
        assert(-3_000_000_000_000_000_000 <= (tile_pos.x as int) * ss <= 3_000_000_000_000_000_000)
            by (nonlinear_arith)
            requires
                -0x8000_0000 <= tile_pos.x <= 0x8000_0000,
                1 <= ss <= 1_000_000_000,
        ;
        assert(-3_000_000_000_000_000_000 <= (tile_pos.y as int) * ss <= 3_000_000_000_000_000_000)
            by (nonlinear_arith)
            requires
                -0x8000_0000 <= tile_pos.y <= 0x8000_0000,
                1 <= ss <= 1_000_000_000,
        ;
        let half_x = ((self.size_x as u64) * (ss as u64) / 2) as i64;
        let half_y = ((self.size_y as u64) * (ss as u64) / 2) as i64;
        let x = (tile_pos.x as i64) * ss - half_x;
        let y = (tile_pos.y as i64) * ss - half_y;
        (x, y)
    }

    /// Gets a reference to the tile at the given world position, or None if
    /// no cell exists at that location.
    pub fn tile_at_world_pos(&self, wx: i64, wy: i64) -> (r: Option<&TerrainCellState>)
        requires
            self.wf(),
            -1_000_000_000_000_000 <= wx <= 1_000_000_000_000_000,
            -1_000_000_000_000_000 <= wy <= 1_000_000_000_000_000,
        ensures
            ({
                let t = Coord {
                    x: spec_clamp(
                        spec_tile_1d(wx as int, self.size_x as int, self.sprite_size as int),
                        i32::MIN as int,
                        i32::MAX as int,
                    ) as i32,
                    y: spec_clamp(
                        spec_tile_1d(wy as int, self.size_y as int, self.sprite_size as int),
                        i32::MIN as int,
                        i32::MAX as int,
                    ) as i32,
                };
                &&& self.spec_valid(t) ==> (r matches Some(c) && *c == self.spec_cell(t))
                &&& !self.spec_valid(t) ==> r is None
            }),
    {
        let t = self.tile_coords(wx, wy);
        self.get(t)
    }

    /// Gets the coordinates of valid cells within a given range of a point:
    /// every on-grid cell whose squared distance to `center` is at most
    /// `range * range`, and nothing else.
    pub fn cells_within_range(&self, center: Coord, range: i32) -> (r: Vec<Coord>)
        requires
            self.wf(),
            0 <= range,
        ensures
            forall|i: int|
                0 <= i < r@.len() ==> self.spec_valid(#[trigger] r@[i]) && spec_dist2(
                    r@[i],
                    center,
                ) <= range * range,
            forall|c: Coord|
                self.spec_valid(c) && #[trigger] spec_dist2(c, center) <= range * range
                    ==> r@.contains(c),
            forall|i: int, j: int|
                0 <= i < j < r@.len() ==> r@[i].y < r@[j].y || (r@[i].y == r@[j].y && r@[i].x
                    < r@[j].x),
    {
        let mut out: Vec<Coord> = Vec::new();
        let cx = center.x as i64;
        let cy = center.y as i64;
        let rr = range as i64;
        let ylo: i64 = if cy - rr > 0 {
            cy - rr
        } else {
            0
        };
        let yhi: i64 = if cy + rr < self.size_y as i64 - 1 {
            cy + rr
        } else {
            self.size_y as i64 - 1
        };
        let xlo: i64 = if cx - rr > 0 {
            cx - rr
        } else {
            0
        };
        let xhi: i64 = if cx + rr < self.size_x as i64 - 1 {
            cx + rr
        } else {
            self.size_x as i64 - 1
        };
        let mut y: i64 = ylo;
        proof {
            assert forall|c: Coord|
                self.spec_valid(c) && #[trigger] spec_dist2(c, center) <= rr * rr && c.y < y
                    implies out@.contains(c) by {
                assert((c.y - cy) * (c.y - cy) <= rr * rr) by (nonlinear_arith)
                    requires
                        (c.x - cx) * (c.x - cx) + (c.y - cy) * (c.y - cy) <= rr * rr,
                ;
                lemma_abs_le(c.y - cy, rr as int);
                assert(false);
            }
        }
        while y <= yhi
            invariant
                self.wf(),
                center.x == cx && center.y == cy && range == rr,
                ylo == if cy - rr > 0 { cy - rr } else { 0 },
                yhi == if cy + rr < self.size_y - 1 { cy + rr } else { self.size_y - 1 },
                xlo == if cx - rr > 0 { cx - rr } else { 0 },
                xhi == if cx + rr < self.size_x - 1 { cx + rr } else { self.size_x - 1 },
                0 <= rr,
                ylo <= y,
                0 <= ylo,
                yhi < self.size_y,
                forall|i: int|
                    0 <= i < out@.len() ==> self.spec_valid(#[trigger] out@[i]) && spec_dist2(
                        out@[i],
                        center,
                    ) <= rr * rr,
                forall|c: Coord|
                    self.spec_valid(c) && #[trigger] spec_dist2(c, center) <= rr * rr && c.y < y
                        ==> out@.contains(c),
                forall|i: int| 0 <= i < out@.len() ==> (#[trigger] out@[i]).y < y,
                forall|i: int, j: int|
                    0 <= i < j < out@.len() ==> out@[i].y < out@[j].y || (out@[i].y == out@[j].y
                        && out@[i].x < out@[j].x),
            decreases yhi - y + 1,
        {
            let mut x: i64 = xlo;
            while x <= xhi
                invariant
                    self.wf(),
                    center.x == cx && center.y == cy && range == rr,
                    xlo == if cx - rr > 0 { cx - rr } else { 0 },
                    xhi == if cx + rr < self.size_x - 1 { cx + rr } else { self.size_x - 1 },
                    0 <= rr,
                    xlo <= x,
                    0 <= xlo,
                    xhi < self.size_x,
                    0 <= y < self.size_y,
                    forall|i: int|
                        0 <= i < out@.len() ==> self.spec_valid(#[trigger] out@[i]) && spec_dist2(
                            out@[i],
                            center,
                        ) <= rr * rr,
                    forall|c: Coord|
                        self.spec_valid(c) && #[trigger] spec_dist2(c, center) <= rr * rr && (c.y
                            < y || (c.y == y && xlo <= c.x < x)) ==> out@.contains(c),
                    forall|i: int|
                        0 <= i < out@.len() ==> (#[trigger] out@[i]).y < y || (out@[i].y == y
                            && out@[i].x < x),
                    forall|i: int, j: int|
                        0 <= i < j < out@.len() ==> out@[i].y < out@[j].y || (out@[i].y
                            == out@[j].y && out@[i].x < out@[j].x),
                decreases xhi - x + 1,
            {
                let dx = x - cx;
                let dy = y - cy;
                assert(0 <= (dx as int) * (dx as int) <= 0x40_0000_0000_0000_0000 && 0 <= (
                dy as int) * (dy as int) <= 0x40_0000_0000_0000_0000) by (nonlinear_arith)
                    requires
                        -0x2_0000_0000 <= dx <= 0x2_0000_0000,
                        -0x2_0000_0000 <= dy <= 0x2_0000_0000,
                ;
                let d2: i128 = (dx as i128) * (dx as i128) + (dy as i128) * (dy as i128);
                assert(0 <= (rr as int) * (rr as int) <= 0x4000_0000_0000_0000) by (
                nonlinear_arith)
                    requires
                        0 <= rr <= 0x8000_0000,
                ;
                let r2: i128 = (rr as i128) * (rr as i128);
                let ghost out_before = out@;
                if d2 <= r2 {
                    let c = Coord { x: x as i32, y: y as i32 };
                    assert(spec_dist2(c, center) == d2);
                    out.push(c);
                }
                proof {
                    assert forall|c: Coord|
                        self.spec_valid(c) && #[trigger] spec_dist2(c, center) <= rr * rr && (c.y
                            < y || (c.y == y && xlo <= c.x < x + 1)) implies out@.contains(c) by {
                        if c.y < y || (c.y == y && xlo <= c.x < x) {
                            assert(out_before.contains(c));
                            let w = choose|w: int|
                                0 <= w < out_before.len() && out_before[w] == c;
                            assert(out@[w] == c);
                        } else {
                            assert(c.y == y && c.x == x);
                            assert(out@[out@.len() - 1] == c);
                        }
                    }
                }
                x += 1;
            }
            proof {
                assert forall|c: Coord|
                    self.spec_valid(c) && #[trigger] spec_dist2(c, center) <= rr * rr && c.y < y
                        + 1 implies out@.contains(c) by {
                    if c.y == y {
                        assert((c.x - cx) * (c.x - cx) <= rr * rr) by (nonlinear_arith)
                            requires
                                (c.x - cx) * (c.x - cx) + (c.y - cy) * (c.y - cy) <= rr * rr,
                        ;
                        lemma_abs_le(c.x - cx, rr as int);
                        assert(c.x <= cx + rr && c.x >= cx - rr);
                        assert(xlo <= c.x <= xhi);
                    }
                }
            }
            y += 1;
        }
        proof {
            assert forall|c: Coord|
                self.spec_valid(c) && #[trigger] spec_dist2(c, center) <= rr * rr implies
                out@.contains(c) by {
                assert((c.y - cy) * (c.y - cy) <= rr * rr) by (nonlinear_arith)
                    requires
                        (c.x - cx) * (c.x - cx) + (c.y - cy) * (c.y - cy) <= rr * rr,
                ;
                lemma_abs_le(c.y - cy, rr as int);
                assert(c.y <= cy + rr && c.y >= cy - rr);
                assert(c.y <= yhi);
                assert(c.y < y);
            }
        }
        out
    }
}

/// The squared Euclidean distance between two tile coordinates.
pub open spec fn spec_dist2(a: Coord, b: Coord) -> int {
    (a.x - b.x) * (a.x - b.x) + (a.y - b.y) * (a.y - b.y)
}

/// The tile index holding a world position, along one axis: the grid is
/// centred on the origin, so the world offset of tile 0 is half the grid.
pub open spec fn spec_tile_1d(w: int, size: int, ss: int) -> int {
    (2 * w + size * ss) / (2 * ss)
}

/// The world position of a tile's lower-left corner, along one axis.
pub open spec fn spec_world_1d(t: int, size: int, ss: int) -> int {
    t * ss - (size * ss) / 2
}

/// A bound on a square root: `a * a <= r * r` with `r >= 0` pins `a` into
/// `[-r, r]`.
pub proof fn lemma_abs_le(a: int, r: int)
    requires
        a * a <= r * r,
        0 <= r,
    ensures
        -r <= a <= r,
{
    assert(-r <= a <= r) by (nonlinear_arith)
        requires
            a * a <= r * r,
            0 <= r,
    ;
}

/// Taking a tile to world coordinates and back yields the tile again.
pub proof fn lemma_tile_world_inverse(t: int, size: int, ss: int)
    requires
        1 <= ss,
        0 <= size,
    ensures
        spec_tile_1d(spec_world_1d(t, size, ss), size, ss) == t,
{
    let half = (size * ss) / 2;
    let e = (size * ss) % 2;
    lemma_fundamental_div_mod(size * ss, 2);
    assert(size * ss == 2 * half + e);
    assert(0 <= e < 2);
    let w = spec_world_1d(t, size, ss);
    assert(2 * w + size * ss == t * (2 * ss) + e) by (nonlinear_arith)
        requires
            w == t * ss - half,
            size * ss == 2 * half + e,
    ;
    assert(e < 2 * ss);
    lemma_fundamental_div_mod_converse(2 * w + size * ss, 2 * ss, t, e);
}

/// Whether any cell of `s` is on fire.
pub open spec fn spec_any_fire(s: Seq<TerrainCellState>) -> bool {
    exists|i: int| 0 <= i < s.len() && s[i].terrain == TerrainType::Fire
}

/// Whether the `i`-th neighbour of `(cx, cy)` lies on a `sx` by `sy` grid.
pub open spec fn spec_neighbour_in_grid(sx: int, sy: int, cx: int, cy: int, i: int) -> bool {
    let o = crate::fire::spec_neighbour_offset(i);
    0 <= cx + o.0 < sx && 0 <= cy + o.1 < sy
}

/// The cell of `s` holding the `i`-th neighbour of `(cx, cy)`.
pub open spec fn spec_neighbour_cell(
    s: Seq<TerrainCellState>,
    sx: int,
    cx: int,
    cy: int,
    i: int,
) -> TerrainCellState {
    let o = crate::fire::spec_neighbour_offset(i);
    s[spec_idx(sx, cx + o.0, cy + o.1)]
}

/// Whether the `i`-th neighbour of `(cx, cy)` is on the grid and burns
/// with at least two units of fuel: such a fire cannot go out within one
/// tick, so the cell is certain to see it burn during the sweep.
pub open spec fn spec_lasting_fire_at(
    s: Seq<TerrainCellState>,
    sx: int,
    sy: int,
    cx: int,
    cy: int,
    i: int,
) -> bool {
    &&& spec_neighbour_in_grid(sx, sy, cx, cy, i)
    &&& spec_neighbour_cell(s, sx, cx, cy, i).terrain == TerrainType::Fire
    &&& spec_neighbour_cell(s, sx, cx, cy, i).fuel_load >= 2
}

/// Whether some in-grid neighbour of `(cx, cy)` burns lastingly in `s`.
pub open spec fn spec_has_lasting_fire_neighbour(
    s: Seq<TerrainCellState>,
    sx: int,
    sy: int,
    cx: int,
    cy: int,
) -> bool {
    exists|i: int| 0 <= i < 8 && #[trigger] spec_lasting_fire_at(s, sx, sy, cx, cy, i)
}

/// Whether some in-grid neighbour of `(cx, cy)` burns in `a` or in `b`.
pub open spec fn spec_has_fire_neighbour(
    a: Seq<TerrainCellState>,
    b: Seq<TerrainCellState>,
    sx: int,
    sy: int,
    cx: int,
    cy: int,
) -> bool {
    exists|i: int|
        0 <= i < 8 && #[trigger] spec_neighbour_in_grid(sx, sy, cx, cy, i) && (spec_neighbour_cell(
            a,
            sx,
            cx,
            cy,
            i,
        ).terrain == TerrainType::Fire || spec_neighbour_cell(b, sx, cx, cy, i).terrain
            == TerrainType::Fire)
}

/// One moisture decay step: `MOISTURE_DECAY_RATE` milli-units, saturating
/// at zero.
pub open spec fn spec_moist_dec(m: u32) -> u32 {
    if m >= crate::fire::MOISTURE_DECAY_RATE {
        (m - crate::fire::MOISTURE_DECAY_RATE) as u32
    } else {
        0
    }
}

/// The sweep-stable form of "some neighbour burns": a neighbour on fire in
/// the old state, or a vegetation neighbour already ignited this sweep.
spec fn spec_local_fire_witness(
    a: Seq<TerrainCellState>,
    b: Seq<TerrainCellState>,
    sx: int,
    sy: int,
    cx: int,
    cy: int,
) -> bool {
    exists|i: int|
        0 <= i < 8 && #[trigger] spec_neighbour_in_grid(sx, sy, cx, cy, i) && (spec_neighbour_cell(
            a,
            sx,
            cx,
            cy,
            i,
        ).terrain == TerrainType::Fire || (spec_is_vegetation(
            spec_neighbour_cell(a, sx, cx, cy, i).terrain,
        ) && spec_neighbour_cell(b, sx, cx, cy, i).terrain == TerrainType::Fire))
}

/// A fire witness survives a write at one position: the written cell was
/// either still untouched (equal to the old state) or left as it was.
proof fn lemma_local_fire_stable(
    a: Seq<TerrainCellState>,
    b1: Seq<TerrainCellState>,
    b2: Seq<TerrainCellState>,
    sx: int,
    sy: int,
    cx: int,
    cy: int,
    k: int,
)
    requires
        spec_local_fire_witness(a, b1, sx, sy, cx, cy),
        a.len() == sx * sy,
        b1.len() == a.len(),
        b2.len() == a.len(),
        1 <= sx,
        1 <= sy,
        forall|t: int| 0 <= t < b1.len() && t != k ==> b1[t] == b2[t],
        0 <= k < a.len(),
        b1[k] == a[k] || b2[k] == b1[k],
    ensures
        spec_local_fire_witness(a, b2, sx, sy, cx, cy),
{
    let i = choose|i: int|
        0 <= i < 8 && #[trigger] spec_neighbour_in_grid(sx, sy, cx, cy, i) && (spec_neighbour_cell(
            a,
            sx,
            cx,
            cy,
            i,
        ).terrain == TerrainType::Fire || (spec_is_vegetation(
            spec_neighbour_cell(a, sx, cx, cy, i).terrain,
        ) && spec_neighbour_cell(b1, sx, cx, cy, i).terrain == TerrainType::Fire));
    let o = crate::fire::spec_neighbour_offset(i);
    lemma_idx_bounds(sx, sy, cx + o.0, cy + o.1);
    let nidx = spec_idx(sx, cx + o.0, cy + o.1);
    if spec_neighbour_cell(a, sx, cx, cy, i).terrain != TerrainType::Fire {
        if nidx == k && b1[k] == a[k] {
            assert(spec_is_vegetation(a[nidx].terrain) && b1[nidx].terrain == TerrainType::Fire);
            assert(false);
        }
        assert(b2[nidx].terrain == TerrainType::Fire);
    }
    assert(spec_local_fire_witness(a, b2, sx, sy, cx, cy));
}

/// A sweep-stable fire witness is in particular a neighbour on fire in the
/// old or the new state.
proof fn lemma_local_fire_weaken(
    a: Seq<TerrainCellState>,
    b: Seq<TerrainCellState>,
    sx: int,
    sy: int,
    cx: int,
    cy: int,
)
    requires
        spec_local_fire_witness(a, b, sx, sy, cx, cy),
    ensures
        spec_has_fire_neighbour(a, b, sx, sy, cx, cy),
{
    let i = choose|i: int|
        0 <= i < 8 && #[trigger] spec_neighbour_in_grid(sx, sy, cx, cy, i) && (spec_neighbour_cell(
            a,
            sx,
            cx,
            cy,
            i,
        ).terrain == TerrainType::Fire || (spec_is_vegetation(
            spec_neighbour_cell(a, sx, cx, cy, i).terrain,
        ) && spec_neighbour_cell(b, sx, cx, cy, i).terrain == TerrainType::Fire));
    assert(spec_neighbour_in_grid(sx, sy, cx, cy, i));
}

/// What one tick may do to a burning cell: fuel never grows and falls by at
/// most one, the fire goes out exactly when the fuel is spent, and going
/// out is the visible change that marks the cell dirty.
pub open spec fn spec_fire_step_ok(a: TerrainCellState, b: TerrainCellState) -> bool {
    &&& b.wind == a.wind
    &&& b.moisture == a.moisture
    &&& (b.terrain == TerrainType::Fire || b.terrain == TerrainType::Smoldering)
    &&& b.fuel_load <= a.fuel_load
    &&& a.fuel_load - b.fuel_load <= 1
    &&& (b.terrain == TerrainType::Smoldering ==> b.fuel_load == 0 && b.dirty)
    &&& (b.terrain == TerrainType::Fire ==> b.fuel_load > 0 || a.fuel_load == 0)
    &&& (b.terrain == TerrainType::Fire ==> b.dirty == a.dirty)
}

/// What one tick may do to a vegetation cell: it may catch fire (and is
/// then marked dirty), its moisture can only fall, by at most one decay
/// step per neighbour, and fuel and wind are untouched.
pub open spec fn spec_veg_step_ok(a: TerrainCellState, b: TerrainCellState) -> bool {
    &&& b.wind == a.wind
    &&& b.fuel_load == a.fuel_load
    &&& (b.terrain == a.terrain || b.terrain == TerrainType::Fire)
    &&& b.moisture <= a.moisture
    &&& a.moisture - b.moisture <= crate::fire::NEIGHBOURHOOD_SIZE
        * crate::fire::MOISTURE_DECAY_RATE
    &&& (b.terrain == a.terrain ==> b.dirty == a.dirty)
    &&& (b.terrain != a.terrain ==> b.terrain == TerrainType::Fire && b.dirty)
}

/// What one tick may do to any cell, by its terrain kind; inert kinds are
/// fixed points.
pub open spec fn spec_cell_step_ok(a: TerrainCellState, b: TerrainCellState) -> bool {
    if a.terrain == TerrainType::Fire {
        spec_fire_step_ok(a, b)
    } else if spec_is_vegetation(a.terrain) {
        spec_veg_step_ok(a, b)
    } else {
        b == a
    }
}

/// The cell generated from the noise scalars at flat index `i`: terrain
/// and fuel from the terrain scalar, moisture from the moisture scalar for
/// vegetation and 0 otherwise, still air, not dirty.
pub open spec fn spec_gen_cell(tn: Seq<u32>, mn: Seq<u32>, i: int) -> TerrainCellState {
    let t = crate::noise::spec_classify(tn[i] as int).0;
    let f = crate::noise::spec_classify(tn[i] as int).1;
    TerrainCellState {
        terrain: t,
        wind: (WindVec { x: 0, y: 0 }),
        moisture: if spec_is_vegetation(t) {
            mn[i]
        } else {
            0
        },
        fuel_load: f,
        dirty: false,
    }
}

/// The cell `a` with `w` added to its local wind, components saturating.
pub open spec fn spec_wind_added(a: TerrainCellState, w: WindVec) -> TerrainCellState {
    TerrainCellState {
        wind: (WindVec {
            x: spec_clamp(a.wind.x + w.x, i32::MIN as int, i32::MAX as int) as i32,
            y: spec_clamp(a.wind.y + w.y, i32::MIN as int, i32::MAX as int) as i32,
        }),
        ..a
    }
}

/// What the cell at flat index `i` of a grid `sx` wide becomes when wind
/// `w` is added over the disk of radius `range` around `center`.
pub open spec fn spec_range_wind_cell(
    s: Seq<TerrainCellState>,
    sx: int,
    center: Coord,
    range: int,
    w: WindVec,
    i: int,
) -> TerrainCellState {
    let x = i % sx;
    let y = i / sx;
    if (x - center.x) * (x - center.x) + (y - center.y) * (y - center.y) <= range * range {
        spec_wind_added(s[i], w)
    } else {
        s[i]
    }
}

/// The kinds of terrain a meteor impact can set alight.
pub open spec fn spec_meteor_flammable(t: TerrainType) -> bool {
    spec_is_vegetation(t) || t == TerrainType::Building
}

/// The cell `a` set alight: on fire and marked dirty, all else untouched.
pub open spec fn spec_lit(a: TerrainCellState) -> TerrainCellState {
    TerrainCellState { terrain: TerrainType::Fire, dirty: true, ..a }
}

/// How far from its target a meteor impact can start fires.
pub const METEOR_RANGE: i32 = 5;

/// Every cell of `b` that differs from `a` lies at one of the coordinates
/// in `ps`.
pub open spec fn spec_changed_within(a: GameMap, b: GameMap, ps: Seq<Coord>) -> bool {
    forall|c: Coord|
        a.spec_valid(c) && #[trigger] b.spec_cell(c) != a.spec_cell(c) ==> ps.contains(c)
}

impl GameMap {
    /// Allocates the cell array and fills every cell from the noise field:
    /// terrain kind and fuel load from the terrain scalar, and a moisture
    /// level for vegetation cells.
    pub fn new(noise: &crate::noise::NoiseMap, sprite_size: i64) -> (m: GameMap)
        requires
            noise.wf(),
            1 <= sprite_size <= 1_000_000_000,
        ensures
            m.wf(),
            m.size_x == noise.size_x,
            m.size_y == noise.size_y,
            m.sprite_size == sprite_size,
            forall|i: int|
                0 <= i < m.data@.len() ==> #[trigger] m.data@[i] == spec_gen_cell(
                    noise.terrain_noise@,
                    noise.moisture_noise@,
                    i,
                ),
    {
        let n = noise.terrain_noise.len();
        let mut cells: Vec<TerrainCellState> = Vec::new();
        let mut k: usize = 0;
        while k < n
            invariant
                noise.wf(),
                n == noise.terrain_noise@.len(),
                k <= n,
                cells@.len() == k,
                forall|i: int|
                    0 <= i < k ==> #[trigger] cells@[i] == spec_gen_cell(
                        noise.terrain_noise@,
                        noise.moisture_noise@,
                        i,
                    ),
            decreases n - k,
        {
            let (t, f) = crate::noise::classify(noise.terrain_noise[k]);
            let moisture: u32 = if t.is_vegetation() {
                noise.moisture_noise[k]
            } else {
                0
            };
            cells.push(
                TerrainCellState {
                    terrain: t,
                    wind: WindVec { x: 0, y: 0 },
                    moisture,
                    fuel_load: f,
                    dirty: false,
                },
            );
            k += 1;
        }
        GameMap { size_x: noise.size_x, size_y: noise.size_y, sprite_size, data: cells }
    }

    /// A meteor impact at `center`: picks a few random flammable cells
    /// (vegetation or buildings) within `METEOR_RANGE` of the target and
    /// sets them on fire.  Reports whether anything near the target could
    /// burn at all; an impact on bare rock has no effect.
    pub fn meteor_strike(&mut self, center: Coord) -> (struck: bool)
        requires
            old(self).wf(),
        ensures
            final(self).wf(),
            Self::spec_same_frame(*old(self), *final(self)),
            forall|c: Coord|
                old(self).spec_valid(c) ==> #[trigger] final(self).spec_cell(c)
                    == old(self).spec_cell(c) || (spec_dist2(c, center) <= METEOR_RANGE
                    * METEOR_RANGE && spec_meteor_flammable(old(self).spec_cell(c).terrain)
                    && final(self).spec_cell(c) == spec_lit(old(self).spec_cell(c))),
            struck == exists|c: Coord|
                old(self).spec_valid(c) && #[trigger] spec_dist2(c, center) <= METEOR_RANGE
                    * METEOR_RANGE && spec_meteor_flammable(old(self).spec_cell(c).terrain),
            struck ==> exists|c: Coord|
                old(self).spec_valid(c) && #[trigger] spec_dist2(c, center) <= METEOR_RANGE
                    * METEOR_RANGE && spec_meteor_flammable(old(self).spec_cell(c).terrain)
                    && final(self).spec_cell(c).terrain == TerrainType::Fire,
            exists|ps: Seq<Coord>|
                #[trigger] ps.len() <= 4 && spec_changed_within(*old(self), *final(self), ps),
    {
        let ghost orig = *self;
        let points = self.cells_within_range(center, METEOR_RANGE);
        let mut candidates: Vec<Coord> = Vec::new();
        let mut k: usize = 0;
        while k < points.len()
            invariant
                *self == orig,
                self.wf(),
                k <= points@.len(),
                forall|i: int|
                    0 <= i < points@.len() ==> self.spec_valid(#[trigger] points@[i])
                        && spec_dist2(points@[i], center) <= METEOR_RANGE * METEOR_RANGE,
                forall|c: Coord|
                    self.spec_valid(c) && #[trigger] spec_dist2(c, center) <= METEOR_RANGE
                        * METEOR_RANGE ==> points@.contains(c),
                forall|i: int|
                    0 <= i < candidates@.len() ==> self.spec_valid(#[trigger] candidates@[i])
                        && spec_dist2(candidates@[i], center) <= METEOR_RANGE * METEOR_RANGE
                        && spec_meteor_flammable(self.spec_cell(candidates@[i]).terrain),
                forall|i: int|
                    0 <= i < k && spec_meteor_flammable(
                        self.spec_cell(#[trigger] points@[i]).terrain,
                    ) ==> candidates@.contains(points@[i]),
            decreases points@.len() - k,
        {
            let p = points[k];
            let x = p.x as usize;
            let y = p.y as usize;
            let i = self.index_of(x, y);
            let t = self.data[i].terrain;
            let ghost cand_before = candidates@;
            if matches!(t, TerrainType::Grassland | TerrainType::Tree | TerrainType::Building) {
                candidates.push(p);
            }
            proof {
                assert forall|i2: int|
                    0 <= i2 < k + 1 && spec_meteor_flammable(
                        self.spec_cell(#[trigger] points@[i2]).terrain,
                    ) implies candidates@.contains(points@[i2]) by {
                    if i2 < k {
                        assert(cand_before.contains(points@[i2]));
                        let w = choose|w: int|
                            0 <= w < cand_before.len() && cand_before[w] == points@[i2];
                        assert(candidates@[w] == points@[i2]);
                    } else {
                        assert(candidates@[candidates@.len() - 1] == p);
                    }
                }
            }
            k += 1;
        }
        proof {
            if candidates@.len() > 0 {
                assert(exists|c: Coord|
                    self.spec_valid(c) && #[trigger] spec_dist2(c, center) <= METEOR_RANGE
                        * METEOR_RANGE && spec_meteor_flammable(self.spec_cell(c).terrain)) by {
                    assert(self.spec_valid(candidates@[0]) && spec_dist2(candidates@[0], center)
                        <= METEOR_RANGE * METEOR_RANGE && spec_meteor_flammable(
                        self.spec_cell(candidates@[0]).terrain,
                    ));
                }
            } else {
                assert forall|c: Coord|
                    self.spec_valid(c) && #[trigger] spec_dist2(c, center) <= METEOR_RANGE
                        * METEOR_RANGE implies !spec_meteor_flammable(
                    self.spec_cell(c).terrain,
                ) by {
                    assert(points@.contains(c));
                    let w = choose|w: int| 0 <= w < points@.len() && points@[w] == c;
                    assert(!spec_meteor_flammable(self.spec_cell(points@[w]).terrain));
                }
            }
        }
        if candidates.len() == 0 {
            proof {
                assert(exists|ps: Seq<Coord>|
                    #[trigger] ps.len() <= 4 && spec_changed_within(orig, *self, ps)) by {
                    let ps = Seq::<Coord>::empty();
                    assert(ps.len() <= 4 && spec_changed_within(orig, *self, ps));
                }
            }
            return false;
        }
        let extra = crate::rng::rand_below(3);
        let count = 2 + extra;
        let ghost mut picks: Seq<Coord> = Seq::empty();
        let mut t: u32 = 0;
        while t < count
            invariant
                self.wf(),
                Self::spec_same_frame(orig, *self),
                orig.wf(),
                count <= 4,
                candidates@.len() > 0,
                forall|i: int|
                    0 <= i < candidates@.len() ==> orig.spec_valid(#[trigger] candidates@[i])
                        && spec_dist2(candidates@[i], center) <= METEOR_RANGE * METEOR_RANGE
                        && spec_meteor_flammable(orig.spec_cell(candidates@[i]).terrain),
                forall|c: Coord|
                    orig.spec_valid(c) ==> #[trigger] self.spec_cell(c) == orig.spec_cell(c) || (
                    spec_dist2(c, center) <= METEOR_RANGE * METEOR_RANGE && spec_meteor_flammable(
                        orig.spec_cell(c).terrain,
                    ) && self.spec_cell(c) == spec_lit(orig.spec_cell(c))),
                t > 0 ==> exists|c: Coord|
                    orig.spec_valid(c) && #[trigger] spec_dist2(c, center) <= METEOR_RANGE
                        * METEOR_RANGE && spec_meteor_flammable(orig.spec_cell(c).terrain)
                        && self.spec_cell(c).terrain == TerrainType::Fire,
                t <= count,
                picks.len() == t,
                spec_changed_within(orig, *self, picks),
            decreases count - t,
        {
            let len = candidates.len();
            let lenu: u32 = if len > 1_000_000 {
                1_000_000
            } else {
                len as u32
            };
            let idx = crate::rng::rand_below(lenu) as usize;
            let p = candidates[idx];
            let x = p.x as usize;
            let y = p.y as usize;
            let i = self.index_of(x, y);
            let cell = self.data[i];
            let ghost before = *self;
            let ghost picks_before = picks;
            self.put_cell(x, y, TerrainCellState { terrain: TerrainType::Fire, dirty: true, ..cell });
            proof {
                picks = picks.push(p);
                lemma_idx_bounds(orig.size_x as int, orig.size_y as int, p.x as int, p.y as int);
                let a = orig.spec_cell(p);
                assert(cell == before.spec_cell(p));
                assert(before.spec_cell(p) == a || before.spec_cell(p) == spec_lit(a));
                assert(self.spec_cell(p) == (TerrainCellState {
                    terrain: TerrainType::Fire,
                    dirty: true,
                    ..cell
                }));
                assert(self.spec_cell(p) == spec_lit(a));
                assert forall|c: Coord|
                    orig.spec_valid(c) implies #[trigger] self.spec_cell(c) == orig.spec_cell(c)
                    || (spec_dist2(c, center) <= METEOR_RANGE * METEOR_RANGE
                    && spec_meteor_flammable(orig.spec_cell(c).terrain) && self.spec_cell(c)
                    == spec_lit(orig.spec_cell(c))) by {
                    if c.x == p.x && c.y == p.y {
                        assert(c == p);
                    } else {
                        lemma_idx_injective(
                            orig.size_x as int,
                            c.x as int,
                            c.y as int,
                            p.x as int,
                            p.y as int,
                        );
                        lemma_idx_bounds(
                            orig.size_x as int,
                            orig.size_y as int,
                            c.x as int,
                            c.y as int,
                        );
                        assert(self.spec_cell(c) == before.spec_cell(c));
                        assert(before.spec_cell(c) == orig.spec_cell(c) || (spec_dist2(c, center)
                            <= METEOR_RANGE * METEOR_RANGE && spec_meteor_flammable(
                            orig.spec_cell(c).terrain,
                        ) && before.spec_cell(c) == spec_lit(orig.spec_cell(c))));
                    }
                }
                assert(orig.spec_valid(p) && spec_dist2(p, center) <= METEOR_RANGE * METEOR_RANGE
                    && spec_meteor_flammable(a.terrain) && self.spec_cell(p).terrain
                    == TerrainType::Fire);
                assert forall|c: Coord|
                    orig.spec_valid(c) && #[trigger] self.spec_cell(c) != orig.spec_cell(c)
                    implies picks.contains(c) by {
                    if c.x == p.x && c.y == p.y {
                        assert(c == p);
                        assert(picks[picks.len() - 1] == c);
                    } else {
                        lemma_idx_injective(
                            orig.size_x as int,
                            c.x as int,
                            c.y as int,
                            p.x as int,
                            p.y as int,
                        );
                        lemma_idx_bounds(
                            orig.size_x as int,
                            orig.size_y as int,
                            c.x as int,
                            c.y as int,
                        );
                        assert(self.spec_cell(c) == before.spec_cell(c));
                        assert(picks_before.contains(c));
                        let w = choose|w: int|
                            0 <= w < picks_before.len() && picks_before[w] == c;
                        assert(picks[w] == c);
                    }
                }
            }
            t += 1;
        }
        proof {
            assert(exists|ps: Seq<Coord>|
                #[trigger] ps.len() <= 4 && spec_changed_within(orig, *self, ps)) by {
                assert(picks.len() <= 4 && spec_changed_within(orig, *self, picks));
            }
        }
        true
    }

    /// Adds a wind vector to the local wind of every cell within `range`
    /// of `center`, as a storm mage's aura does; components saturate.
    /// Cells outside the disk are untouched.
    pub fn add_wind_in_range(&mut self, center: Coord, range: i32, w: WindVec)
        requires
            old(self).wf(),
            0 <= range,
        ensures
            final(self).wf(),
            Self::spec_same_frame(*old(self), *final(self)),
            forall|c: Coord|
                old(self).spec_valid(c) ==> #[trigger] final(self).spec_cell(c) == if spec_dist2(
                    c,
                    center,
                ) <= range * range {
                    spec_wind_added(old(self).spec_cell(c), w)
                } else {
                    old(self).spec_cell(c)
                },
    {
        let ghost orig = *old(self);
        let sx = self.size_x;
        let sy = self.size_y;
        let n = self.data.len();
        let mut k: usize = 0;
        while k < n
            invariant
                self.wf(),
                Self::spec_same_frame(orig, *self),
                orig.wf(),
                orig == *old(self),
                sx == self.size_x,
                sy == self.size_y,
                n == self.data@.len(),
                n == sx * sy,
                k <= n,
                0 <= range,
                forall|i: int|
                    0 <= i < k ==> #[trigger] self.data@[i] == spec_range_wind_cell(
                        orig.data@,
                        sx as int,
                        center,
                        range as int,
                        w,
                        i,
                    ),
                forall|i: int| k <= i < n ==> self.data@[i] == orig.data@[i],
            decreases n - k,
        {
            let x = k % sx;
            let y = k / sx;
            proof {
                lemma_fundamental_div_mod(k as int, sx as int);
                assert(y < sy) by (nonlinear_arith)
                    requires
                        k == sx * y + x,
                        0 <= x < sx,
                        (k as int) < sx * sy,
                        sx >= 1,
                        y >= 0,
                ;
            }
            let dx: i64 = x as i64 - center.x as i64;
            let dy: i64 = y as i64 - center.y as i64;
            assert(0 <= (dx as int) * (dx as int) <= 0x40_0000_0000_0000_0000 && 0 <= (dy as int)
                * (dy as int) <= 0x40_0000_0000_0000_0000) by (nonlinear_arith)
                requires
                    -0x2_0000_0000 <= dx <= 0x2_0000_0000,
                    -0x2_0000_0000 <= dy <= 0x2_0000_0000,
            ;
            let d2: i128 = (dx as i128) * (dx as i128) + (dy as i128) * (dy as i128);
            assert(0 <= (range as int) * (range as int) <= 0x4000_0000_0000_0000) by (
            nonlinear_arith)
                requires
                    0 <= range <= 0x8000_0000,
            ;
            let r2: i128 = (range as i128) * (range as i128);
            if d2 <= r2 {
                let cell = self.data[k];
                let added = TerrainCellState {
                    wind: WindVec {
                        x: crate::fixed::sat_add_i32(cell.wind.x, w.x),
                        y: crate::fixed::sat_add_i32(cell.wind.y, w.y),
                    },
                    ..cell
                };
                self.data.set(k, added);
            }
            proof {
                assert(self.data@[k as int] == spec_range_wind_cell(
                    orig.data@,
                    sx as int,
                    center,
                    range as int,
                    w,
                    k as int,
                ));
            }
            k += 1;
        }
        proof {
            assert forall|c: Coord| orig.spec_valid(c) implies #[trigger] self.spec_cell(c)
                == if spec_dist2(c, center) <= range * range {
                spec_wind_added(orig.spec_cell(c), w)
            } else {
                orig.spec_cell(c)
            } by {
                lemma_idx_bounds(sx as int, sy as int, c.x as int, c.y as int);
                lemma_idx_roundtrip(sx as int, c.x as int, c.y as int);
                let i = spec_idx(sx as int, c.x as int, c.y as int);
                assert(self.data@[i] == spec_range_wind_cell(
                    orig.data@,
                    sx as int,
                    center,
                    range as int,
                    w,
                    i,
                ));
            }
        }
    }

    /// Hands out the coordinates of every cell that changed visually since
    /// the last poll, clearing their dirty flags: exactly the dirty cells,
    /// and nothing else about the grid changes.
    pub fn take_dirty(&mut self) -> (r: Vec<Coord>)
        requires
            old(self).wf(),
        ensures
            final(self).wf(),
            Self::spec_same_frame(*old(self), *final(self)),
            forall|i: int|
                0 <= i < old(self).data@.len() ==> final(self).data@[i] == (TerrainCellState {
                    dirty: false,
                    ..old(self).data@[i]
                }),
            forall|j: int|
                0 <= j < r@.len() ==> old(self).spec_valid(#[trigger] r@[j]) && old(
                    self,
                ).spec_cell(r@[j]).dirty,
            forall|c: Coord|
                old(self).spec_valid(c) && (#[trigger] old(self).spec_cell(c)).dirty
                    ==> r@.contains(c),
    {
        let ghost orig = *old(self);
        let sx = self.size_x;
        let sy = self.size_y;
        let n = self.data.len();
        let mut out: Vec<Coord> = Vec::new();
        let mut k: usize = 0;
        while k < n
            invariant
                self.wf(),
                Self::spec_same_frame(orig, *self),
                orig.wf(),
                orig == *old(self),
                sx == self.size_x,
                sy == self.size_y,
                n == self.data@.len(),
                n == sx * sy,
                k <= n,
                forall|i: int|
                    0 <= i < k ==> self.data@[i] == (TerrainCellState {
                        dirty: false,
                        ..orig.data@[i]
                    }),
                forall|i: int| k <= i < n ==> self.data@[i] == orig.data@[i],
                forall|j: int|
                    0 <= j < out@.len() ==> orig.spec_valid(#[trigger] out@[j]) && orig.spec_cell(
                        out@[j],
                    ).dirty,
                forall|c: Coord|
                    orig.spec_valid(c) && (#[trigger] orig.spec_cell(c)).dirty && spec_idx(
                        sx as int,
                        c.x as int,
                        c.y as int,
                    ) < k ==> out@.contains(c),
            decreases n - k,
        {
            let x = k % sx;
            let y = k / sx;
            proof {
                lemma_fundamental_div_mod(k as int, sx as int);
                assert(y < sy) by (nonlinear_arith)
                    requires
                        k == sx * y + x,
                        0 <= x < sx,
                        (k as int) < sx * sy,
                        sx >= 1,
                        y >= 0,
                ;
                assert(spec_idx(sx as int, x as int, y as int) == k) by (nonlinear_arith)
                    requires
                        k == sx * y + x,
                ;
            }
            let cell = self.data[k];
            let ghost out_before = out@;
            if cell.dirty {
                out.push(Coord { x: x as i32, y: y as i32 });
                self.data.set(k, TerrainCellState { dirty: false, ..cell });
            } else {
                proof {
                    assert(self.data@[k as int] == (TerrainCellState {
                        dirty: false,
                        ..orig.data@[k as int]
                    }));
                }
            }
            proof {
                assert forall|c: Coord|
                    orig.spec_valid(c) && (#[trigger] orig.spec_cell(c)).dirty && spec_idx(
                        sx as int,
                        c.x as int,
                        c.y as int,
                    ) < k + 1 implies out@.contains(c) by {
                    if spec_idx(sx as int, c.x as int, c.y as int) < k {
                        assert(out_before.contains(c));
                        let w = choose|w: int|
                            0 <= w < out_before.len() && out_before[w] == c;
                        assert(out@[w] == c);
                    } else {
                        assert(spec_idx(sx as int, c.x as int, c.y as int) == k);
                        lemma_idx_roundtrip(sx as int, c.x as int, c.y as int);
                        assert(c.x == x && c.y == y);
                        assert(orig.spec_cell(c) == cell);
                        assert(out@[out@.len() - 1] == c);
                    }
                }
            }
            k += 1;
        }
        proof {
            assert forall|c: Coord|
                orig.spec_valid(c) && (#[trigger] orig.spec_cell(c)).dirty implies out@.contains(
                c,
            ) by {
                lemma_idx_bounds(sx as int, sy as int, c.x as int, c.y as int);
            }
        }
        out
    }
}

} // verus!
