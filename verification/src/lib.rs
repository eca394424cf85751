//! A wildfire cellular-automaton simulation over a procedurally generated
//! terrain grid.
//!
//! The crate models a 2D grid of terrain cells, each carrying a terrain
//! type, a fuel load, a moisture level and a local wind vector.  Every
//! simulation tick spreads fire stochastically between neighbouring cells,
//! biased by wind and damped by moisture.  All quantities are fixed-point
//! integers: probabilities, moisture and trigonometric values are carried
//! in thousandths ("milli" units).

pub mod fire;
pub mod fixed;
pub mod laws;
pub mod map;
pub mod noise;
mod rng;
pub mod terrain;
pub mod wind;
