//! Langton's ant: one ant walking over a toroidal grid of black and white
//! cells, inverting the cell it leaves and turning by the color it found there.

pub mod ant;
pub mod grid;

pub use ant::{Ant, Direction};
pub use grid::Grid;
