//! Everything drawn on screen: glyph tables, colours, the clock overlay, the screen
//! grid and the exit sequence.

pub mod clock;
pub mod color;
pub mod fonts;
pub mod matrix;
pub mod screen;
pub mod windows;

pub use color::{parse_color, Rgb};
