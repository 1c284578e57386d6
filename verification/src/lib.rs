//! A verified core for a differential-drive line-following robot.
//!
//! The library models every scalar as a fixed-point value: an `i64` holding
//! micro-units (one unit is [`fixed::SCALE`] micro-units).  Every arithmetic
//! step saturates at [`fixed::FIX_MAX`], and every executable function carries
//! an exact contract over the corresponding mathematical integers, so whole
//! simulation runs are pinned down value by value.

pub mod fixed;
pub mod trig;
pub mod math_utils;
pub mod sdf_paths;
pub mod integrator;
pub mod robot;
pub mod optimizer;
pub mod laws;
pub mod tools;

pub use fixed::SCALE;
