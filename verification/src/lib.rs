//! Verified core of a Matrix-style falling-character screensaver: configuration
//! defaults, character sets, colour parsing, the clock overlay's per-frame decisions,
//! screen layout, the exit sequence and the idle-detection state machines.

pub mod config;
pub mod idle;
mod random;
pub mod render;
