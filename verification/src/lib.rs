//! Synthesis of a simulated GPS track.
//!
//! A vehicle travels in straight lines between waypoints and reports one fix
//! per second. Its speed follows a bounded random walk. This library holds
//! the parts of that process that are exact: the input grammar, the stepping
//! through segments, the clock, the speed walk and the layout of a record.
//! Trigonometry and interpolation on floating-point coordinates are left to
//! the caller, who hands over the number of steps of each segment and the
//! formatted coordinates of each fix.

pub mod clock;
pub mod input;
pub mod number;
pub mod record;
pub mod speed;
pub mod text;
pub mod track;
