//! Conway's Game of Life on a fixed-size toroidal grid, with bit-packed
//! double-buffered storage and machine-checked contracts.

pub mod bitset;
pub mod cell;
pub mod equality;
pub mod error;
pub mod grid;
pub mod laws;
pub mod patterns;
pub mod random;
pub mod render;
pub mod universe;

pub use cell::Cell;
pub use error::UniverseError;
pub use universe::Universe;
