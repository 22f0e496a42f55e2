//! The rules of the game: the cell, the grid, and the text form of a map.

pub mod cell;
pub mod error;
pub mod game;
pub mod grid;
pub mod map_file;
pub mod map_text;
pub mod pattern;
