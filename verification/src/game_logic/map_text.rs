use crate::game_logic::cell::Cell;
use crate::game_logic::error::MapError;
use vstd::prelude::*;

verus! {

/// The cell that the character `c` stands for in a map whose live cells are
/// written `alive` and whose dead cells are written `dead`. Where the two
/// marks are the same character, it stands for a live cell.
pub open spec fn decode(c: char, alive: char, dead: char) -> Option<Cell> {
    if c == alive {
        Some(Cell::Alive)
    } else if c == dead {
        Some(Cell::Dead)
    } else {
        None
    }
}

/// Every character of row `row` of the text stands for a cell. The rows lie
/// one after the other in `src`, each `cols` characters long.
pub open spec fn text_row_decodes(
    src: Seq<char>,
    alive: char,
    dead: char,
    cols: int,
    row: int,
) -> bool {
    forall|j: int| 0 <= j < cols ==> (#[trigger] decode(src[row * cols + j], alive, dead)) is Some
}

/// What is wrong with the first row, from `row` on, that is not a full row of
/// marks: the text ends inside it, or else it holds a character that is no
/// mark. `None` where all rows up to `rows` are sound.
pub open spec fn text_fault(
    src: Seq<char>,
    alive: char,
    dead: char,
    rows: int,
    cols: int,
    row: int,
) -> Option<MapError>
    decreases rows - row,
{
    if row >= rows {
        None
    } else if src.len() < (row + 1) * cols {
        Some(MapError::Truncated)
    } else if !text_row_decodes(src, alive, dead, cols, row) {
        Some(MapError::Marker)
    } else {
        text_fault(src, alive, dead, rows, cols, row + 1)
    }
}

/// The grid that the first `rows * cols` characters of `src` stand for.
pub open spec fn text_grid(
    src: Seq<char>,
    alive: char,
    dead: char,
    rows: nat,
    cols: nat,
) -> Seq<Seq<Cell>> {
    Seq::new(
        rows,
        |i: int| Seq::new(cols, |j: int| decode(src[i * cols + j], alive, dead).unwrap()),
    )
}

/// The meaning of a map's text: an error where a dimension is zero or a row
/// is at fault, else the grid that the text stands for. Characters after the
/// last row are not looked at.
pub open spec fn parse_text(
    src: Seq<char>,
    alive: char,
    dead: char,
    rows: nat,
    cols: nat,
) -> Result<Seq<Seq<Cell>>, MapError> {
    if rows == 0 || cols == 0 {
        Err(MapError::Shape)
    } else {
        match text_fault(src, alive, dead, rows as int, cols as int, 0) {
            Some(fault) => Err(fault),
            None => Ok(text_grid(src, alive, dead, rows, cols)),
        }
    }
}

} // verus!
