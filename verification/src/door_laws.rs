//! What holds of the door as a whole.

pub mod calibration;
pub mod direction;
pub mod geometry;
pub mod homing;
pub mod plainly;
pub mod power;
pub mod stalls;
pub mod stopping;
pub mod targets;
pub mod ticks;
