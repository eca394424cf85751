//! The ambient wind field: an angle wandering towards a random target at a
//! bounded rate, and a strength random-walking between fixed limits.
//!
//! Angles are milli-degrees in `[0, 360 000)`, strengths milli-units.

use vstd::prelude::*;
use crate::fixed::{
    FULL_TURN, cos_milli, div_floor_i64, sin_milli, spec_clamp, spec_cos_milli, spec_sin_milli,
};
use crate::terrain::WindVec;

verus! {

/// How fast the wind turns towards its target, in milli-degrees per
/// millisecond (5 degrees per second).
pub const WIND_CHANGE_SPEED: i32 = 5;

/// Largest strength step of the per-tick random walk, in milli-units.
pub const WIND_STRENGTH_VARIANCE: i32 = 1_000;

/// The strength range the random walk is clamped to, in milli-units.
pub const MIN_WIND_SPEED: i32 = 10_000;

pub const MAX_WIND_SPEED: i32 = 100_000;

/// Once the angle is this close to its target it snaps onto it, in
/// milli-degrees (one degree).
pub const SNAP_THRESHOLD: i32 = 1_000;

/// The rotational distance between two angles in `[0, FULL_TURN)`: the
/// shorter way round, at most half a turn.
pub open spec fn spec_circ_dist(a: int, b: int) -> int {
    let d = if a >= b {
        a - b
    } else {
        b - a
    };
    if d <= 180_000 {
        d
    } else {
        360_000 - d
    }
}

/// The whole-degree reading of a milli-degree angle, rounded to nearest.
pub open spec fn spec_wind_deg(angle: int) -> int {
    ((angle + 500) / 1000) % 360
}

/// The compass octant of an angle in `[0, FULL_TURN)` milli-degrees,
/// counter-clockwise from east.
pub open spec fn spec_compass(angle: int) -> Seq<char> {
    let octant = ((angle + 22_500) / 45_000) % 8;
    if octant == 0 {
        "E"@
    } else if octant == 1 {
        "NE"@
    } else if octant == 2 {
        "N"@
    } else if octant == 3 {
        "NW"@
    } else if octant == 4 {
        "W"@
    } else if octant == 5 {
        "SW"@
    } else if octant == 6 {
        "S"@
    } else {
        "SE"@
    }
}

/// The global wind field: the angle wanders towards `target`, picking a
/// new target within `variance` once it arrives.
#[derive(Clone, Copy, Debug, PartialEq, Eq, Structural)]
pub struct WindDirection {
    pub angle: i32,
    pub strength: i32,
    pub variance: i32,
    pub target: i32,
}

impl WindDirection {
    /// The invariant of a wind field: angles folded into one turn, the
    /// strength within its walk range, the variance at most half a turn.
    pub open spec fn wf(&self) -> bool {
        &&& 0 <= self.angle < FULL_TURN
        &&& 0 <= self.target < FULL_TURN
        &&& 0 <= self.strength <= MAX_WIND_SPEED
        &&& 0 <= self.variance <= 180_000
    }

    pub fn new(angle: i32, strength: i32, variance: i32, target: i32) -> (r: WindDirection)
        requires
            0 <= angle < FULL_TURN,
            0 <= target < FULL_TURN,
            0 <= strength <= MAX_WIND_SPEED,
            0 <= variance <= 180_000,
        ensures
            r == (WindDirection { angle, strength, variance, target }),
            r.wf(),
    {
        WindDirection { angle, strength, variance, target }
    }

    /// Pins the wind to the given angle and strength, as scripted story
    /// data does; the wandering target is left alone.
    pub fn override_wind(&mut self, angle: i32, strength: i32)
        requires
            0 <= angle < FULL_TURN,
            0 <= strength <= MAX_WIND_SPEED,
        ensures
            *final(self) == (WindDirection {
                angle,
                strength,
                ..*old(self)
            }),
    {
        self.angle = angle;
        self.strength = strength;
    }

    /// The wind as a Cartesian vector in milli-units: the unit vector at
    /// `angle` scaled by `strength`.
    pub fn get_wind_vec(&self) -> (r: WindVec)
        requires
            self.wf(),
        ensures
            r.x == self.strength * spec_cos_milli(spec_wind_deg(self.angle as int)) / 1000,
            r.y == self.strength * spec_sin_milli(spec_wind_deg(self.angle as int)) / 1000,
    {
        let deg: u32 = ((self.angle as u32 + 500) / 1000) % 360;
        let c = cos_milli(deg);
        let s = sin_milli(deg);
        assert(-100_000_000 <= (self.strength as int) * (c as int) <= 100_000_000
            && -100_000_000 <= (self.strength as int) * (s as int) <= 100_000_000) by (
        nonlinear_arith)
            requires
                0 <= self.strength <= 100_000,
                -1000 <= c <= 1000,
                -1000 <= s <= 1000,
        ;
        let x = div_floor_i64((self.strength as i64) * (c as i64), 1000);
        let y = div_floor_i64((self.strength as i64) * (s as i64), 1000);
        WindVec { x: x as i32, y: y as i32 }
    }

    /// The wind as a Cartesian vector in milli-units.
    pub fn as_vec(&self) -> (r: WindVec)
        requires
            self.wf(),
        ensures
            r.x == self.strength * spec_cos_milli(spec_wind_deg(self.angle as int)) / 1000,
            r.y == self.strength * spec_sin_milli(spec_wind_deg(self.angle as int)) / 1000,
    {
        self.get_wind_vec()
    }

    /// The compass octant the wind blows towards, reading its angle
    /// counter-clockwise from east.
    pub fn compass(&self) -> (r: &'static str)
        requires
            self.wf(),
        ensures
            r@ == spec_compass(self.angle as int),
    {
        let octant: i32 = ((self.angle + 22_500) / 45_000) % 8;
        if octant == 0 {
            "E"
        } else if octant == 1 {
            "NE"
        } else if octant == 2 {
            "N"
        } else if octant == 3 {
            "NW"
        } else if octant == 4 {
            "W"
        } else if octant == 5 {
            "SW"
        } else if octant == 6 {
            "S"
        } else {
            "SE"
        }
    }

    /// One tick of the wandering wind over `dt_ms` milliseconds: the angle
    /// rotates towards the target along the shorter path, never past it,
    /// and once within a degree it snaps onto the target and picks a new
    /// random target within `variance` of it.  The strength random-walks
    /// by at most `WIND_STRENGTH_VARIANCE`, clamped between the speed
    /// limits.
    pub fn update(&mut self, dt_ms: u32)
        requires
            old(self).wf(),
        ensures
            final(self).wf(),
            final(self).variance == old(self).variance,
            MIN_WIND_SPEED <= final(self).strength <= MAX_WIND_SPEED,
            final(self).strength <= spec_clamp(
                old(self).strength + WIND_STRENGTH_VARIANCE,
                MIN_WIND_SPEED as int,
                MAX_WIND_SPEED as int,
            ),
            final(self).strength >= spec_clamp(
                old(self).strength - WIND_STRENGTH_VARIANCE,
                MIN_WIND_SPEED as int,
                MAX_WIND_SPEED as int,
            ),
            spec_circ_dist(final(self).angle as int, old(self).target as int) <= spec_circ_dist(
                old(self).angle as int,
                old(self).target as int,
            ),
            ({
                let d0 = spec_circ_dist(old(self).angle as int, old(self).target as int);
                let delta = WIND_CHANGE_SPEED * dt_ms;
                if d0 - delta >= SNAP_THRESHOLD {
                    final(self).target == old(self).target && spec_circ_dist(
                        final(self).angle as int,
                        old(self).target as int,
                    ) == d0 - delta
                } else {
                    final(self).angle == old(self).target && spec_circ_dist(
                        final(self).target as int,
                        old(self).target as int,
                    ) <= old(self).variance
                }
            }),
    {
        let a: i64 = self.angle as i64;
        let t: i64 = self.target as i64;
        let delta: i64 = (WIND_CHANGE_SPEED as i64) * (dt_ms as i64);

        // distance forward (counter-clockwise) from the angle to the target
        let fwd: i64 = if t >= a {
            t - a
        } else {
            t - a + FULL_TURN as i64
        };
        let d0: i64 = if fwd <= 180_000 {
            fwd
        } else {
            FULL_TURN as i64 - fwd
        };
        assert(d0 == spec_circ_dist(a as int, t as int));
        let step: i64 = if delta < d0 {
            delta
        } else {
            d0
        };
        if d0 - step < SNAP_THRESHOLD as i64 {
            // arrived: snap onto the target and pick a fresh one nearby
            self.angle = self.target;
            let offset: i64 = crate::rng::rand_below(
                (2 * self.variance + 1) as u32,
            ) as i64 - self.variance as i64;
            let nt_raw: i64 = t + offset;
            let nt: i64 = if nt_raw < 0 {
                nt_raw + FULL_TURN as i64
            } else if nt_raw >= FULL_TURN as i64 {
                nt_raw - FULL_TURN as i64
            } else {
                nt_raw
            };
            self.target = nt as i32;
        } else {
            let na: i64 = if fwd <= 180_000 {
                let r: i64 = a + step;
                if r >= FULL_TURN as i64 {
                    r - FULL_TURN as i64
                } else {
                    r
                }
            } else {
                let r: i64 = a - step;
                if r < 0 {
                    r + FULL_TURN as i64
                } else {
                    r
                }
            };
            self.angle = na as i32;
            assert(spec_circ_dist(na as int, t as int) == d0 - step);
        }
        // random-walk the strength between the speed limits
        let draw: i64 = crate::rng::rand_below(2 * WIND_STRENGTH_VARIANCE as u32 + 1) as i64
            - WIND_STRENGTH_VARIANCE as i64;
        let ns_raw: i64 = self.strength as i64 + draw;
        let ns: i64 = if ns_raw < MIN_WIND_SPEED as i64 {
            MIN_WIND_SPEED as i64
        } else if ns_raw > MAX_WIND_SPEED as i64 {
            MAX_WIND_SPEED as i64
        } else {
            ns_raw
        };
        self.strength = ns as i32;
    }
}

impl Default for WindDirection {
    /// A fresh wind: a random direction at the minimum speed, wandering
    /// towards a target within 45 degrees of it, with a quarter-turn
    /// variance from then on.
    fn default() -> (r: WindDirection)
        ensures
            r.wf(),
            r.strength == MIN_WIND_SPEED,
            r.variance == 90_000,
            spec_circ_dist(r.target as int, r.angle as int) <= 45_000,
    {
        let angle: i32 = crate::rng::rand_below(FULL_TURN as u32) as i32;
        let offset: i64 = crate::rng::rand_below(90_001) as i64 - 45_000;
        let t_raw: i64 = angle as i64 + offset;
        let t: i64 = if t_raw < 0 {
            t_raw + FULL_TURN as i64
        } else if t_raw >= FULL_TURN as i64 {
            t_raw - FULL_TURN as i64
        } else {
            t_raw
        };
        WindDirection {
            angle,
            strength: MIN_WIND_SPEED,
            variance: 90_000,
            target: t as i32,
        }
    }
}

} // verus!
