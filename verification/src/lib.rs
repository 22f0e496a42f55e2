//! Conway's Game of Life on a bounded rectangular grid.
//!
//! The grid does not wrap around: a cell on an edge or in a corner simply has
//! fewer neighbours. Every generation is computed from the previous one as a
//! whole, and the functions that do so carry contracts stated over a
//! mathematical model of the grid, a sequence of rows of cells.

pub mod game_logic;
pub mod render;
