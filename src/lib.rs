//! Conway's Game of Life on a toroidal board: cells, the board and its
//! generation step, seeding, and the laws the step obeys.

pub mod cell;
pub mod grid;
pub mod point;
pub mod seed;
pub mod theorems;
