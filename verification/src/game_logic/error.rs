use vstd::prelude::*;

verus! {

/// The rows handed to a constructor are empty, unequal in length, or too many
/// or too long for the grid's counters.
#[derive(Clone, Copy, PartialEq, Eq, Debug, Structural)]
pub struct ShapeError;

/// A position was asked for that lies outside the grid.
#[derive(Clone, Copy, PartialEq, Eq, Debug, Structural)]
pub struct IndexError;

/// Why the text of a map could not be turned into a game.
#[derive(Clone, Copy, PartialEq, Eq, Debug, Structural)]
pub enum MapError {
    /// The map declares no rows or no columns.
    Shape,
    /// The text ends before the last declared row is full.
    Truncated,
    /// A row holds a character that is neither the mark of a live cell nor
    /// that of a dead one.
    Marker,
    /// There is no first line to declare the size and the two marks.
    MissingHeader,
    /// The first line does not declare the size and the two marks.
    BadHeader,
    /// A declared dimension is not a decimal number of at most sixteen bits.
    BadDimension,
    /// The two marks and the width do not make a pattern for the lines.
    BadPattern,
    /// The line with this index, counted from the one below the header, is
    /// not a row of the declared width made of the two marks, or lies beyond
    /// the declared rows.
    BadLine(usize),
}

} // verus!
