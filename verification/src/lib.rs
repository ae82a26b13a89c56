//! Unit selection and movement control for a real-time-strategy scene.
//!
//! Every scalar is a fixed-point count of thousandths: positions and lengths
//! in thousandths of a world unit, speeds in thousandths of a world unit per
//! second, elapsed time in thousandths of a second.

pub mod frame;
pub mod gesture;
pub mod math;
pub mod resources;
pub mod units;
pub mod utils;
