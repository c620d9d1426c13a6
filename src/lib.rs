//! Conway's Game of Life on a toroidal grid: the cell buffer, the toroidal
//! neighbor count, the generational step and a text rendering.
pub mod cell;
pub mod lemmas;
pub mod life;
pub mod universe;

pub use cell::Cell;
pub use universe::Universe;
