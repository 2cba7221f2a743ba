//! Conway's Game of Life: a toroidal grid of boolean cells evolved by the
//! classic B3/S23 rule, with a double-buffered simulation driver.

pub mod grid;
pub mod laws;
pub mod sim;
