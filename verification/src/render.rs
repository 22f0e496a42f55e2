//! Turning a grid into a frame of glyphs for a terminal.

pub mod printer;
