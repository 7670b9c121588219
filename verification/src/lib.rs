//! Conway's Game of Life on a fixed-size torus, with the interactive session
//! state that drives it.

pub mod game;
pub mod grid;
pub mod input;
pub mod pattern;
pub mod session;
