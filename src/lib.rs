//! Conway's Game of Life on a fixed grid whose outer ring is a permanently dead frame.

pub mod cell;
mod clock;
pub mod grid;
mod random;
pub mod world;
