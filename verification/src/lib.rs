//! A fixed-timestep loop driver.
//!
//! Wall-clock time is fed in as elapsed nanoseconds and collected in an
//! accumulator; the simulation is advanced in whole fixed steps while input
//! is drained once per step, and whatever is left over becomes the
//! interpolation fraction handed to the renderer.

pub mod units;
pub mod input;
pub mod model;
pub mod theorems;
pub mod driver;
pub mod diagnostics;
pub mod action;

pub use action::Action;
pub use diagnostics::{instantaneous_fps, readout_due, Summary};
pub use driver::{ConfigError, Fraction, LoopDriver, DEFAULT_CATCH_UP_LIMIT, DEFAULT_RATE_HZ};
pub use input::{drain, InputEvent, KEYCODE_ESCAPE};
pub use units::{elapsed_nanos, NS_IN_SEC};
