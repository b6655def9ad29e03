//! Movement-and-collision core of a tile-based side-scrolling platformer.
//!
//! Lengths are integers counted in thousandths of a world unit, scale factors
//! are integers counted in hundredths, and time stamps are milliseconds.
//! Every comparison of the simulation is made on exact values. One step
//! rounds: the tenth by which a speed approaches its target is rounded
//! towards zero to a whole thousandth, after the test for rest was made on
//! the exact speed.

pub mod collision;
pub mod game;
pub mod level;
pub mod player;
pub mod proximity;
pub mod world;
