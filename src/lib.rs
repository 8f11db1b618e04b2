//! Conway's Game of Life on a toroidal grid: the generation engine, its
//! statistics, and the decisions of the interactive control loop.
pub mod control;
pub mod grid;
pub mod model;
mod random;
pub mod stats;

pub use control::{command_for, iterate, poll_timeout, Command, Flow, Key, TICK_RATE_MS};
pub use grid::{App, LIVE_DENOMINATOR, LIVE_NUMERATOR};
pub use stats::Stats;
