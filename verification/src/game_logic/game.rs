use crate::game_logic::cell::Cell;
use crate::game_logic::error::{IndexError, MapError, ShapeError};
use crate::game_logic::grid::{
    dead_grid, fits_counters, is_grid, live_at, live_neighbors, next_generation,
};
use crate::game_logic::map_text::{decode, parse_text, text_fault, text_grid, text_row_decodes};
use vstd::prelude::*;
use vstd::std_specs::iter::IteratorSpec;

verus! {

/// The storage of a grid: its rows from top to bottom, each from left to right.
pub type GameState = Vec<Vec<Cell>>;

/// The rows of cells that `state` holds.
pub open spec fn cells(state: &Vec<Vec<Cell>>) -> Seq<Seq<Cell>> {
    Seq::new(state@.len(), |i: int| state@[i]@)
}

/// A rectangular grid of cells whose size is fixed when it is made.
#[derive(Debug)]
pub struct Game {
    state: Vec<Vec<Cell>>,
    rows: u16,
    cols: u16,
}

impl View for Game {
    type V = Seq<Seq<Cell>>;

    /// The rows of cells that the game holds. A value that broke the
    /// invariant of the type, which no function can make, is read as a single
    /// dead cell, so that every view is a grid.
    closed spec fn view(&self) -> Seq<Seq<Cell>> {
        if self.well_formed() {
            cells(&self.state)
        } else {
            dead_grid(1, 1)
        }
    }
}

impl Game {
    #[verifier::type_invariant]
    spec fn well_formed(self) -> bool {
        &&& self.rows >= 1
        &&& self.cols >= 1
        &&& self.state@.len() == self.rows
        &&& forall|i: int|
            0 <= i < self.state@.len() ==> (#[trigger] self.state@[i])@.len() == self.cols
    }

    /// What every game holds is a grid: it has at least one row and one
    /// column, all its rows are equally long, and both dimensions fit the
    /// counters.
    pub proof fn lemma_holds_grid(self)
        ensures
            is_grid(self@),
            fits_counters(self@),
    {
        if self.well_formed() {
            assert(cells(&self.state)[0] == self.state@[0]@);
            assert forall|i: int| 0 <= i < self@.len() implies (#[trigger] self@[i]).len()
                == self@[0].len() by {
                assert(self.state@[i]@.len() == self.cols);
            }
        }
    }

    /// A grid of `rows` by `cols` dead cells.
    pub fn new(rows: u16, cols: u16) -> (game: Game)
        requires
            rows >= 1,
            cols >= 1,
        ensures
            game@ == dead_grid(rows as nat, cols as nat),
            is_grid(game@),
    {
        let mut state: Vec<Vec<Cell>> = Vec::new();
        let mut i: u16 = 0;
        while i < rows
            invariant
                i <= rows,
                state@.len() == i,
                forall|k: int|
                    0 <= k < i ==> (#[trigger] state@[k])@ == dead_grid(
                        rows as nat,
                        cols as nat,
                    )[k],
            decreases rows - i,
        {
            let mut row: Vec<Cell> = Vec::new();
            let mut j: u16 = 0;
            while j < cols
                invariant
                    j <= cols,
                    row@.len() == j,
                    forall|k: int| 0 <= k < j ==> #[trigger] row@[k] == Cell::Dead,
                decreases cols - j,
            {
                row.push(Cell::Dead);
                j += 1;
            }
            assert(row@ =~= dead_grid(rows as nat, cols as nat)[i as int]);
            state.push(row);
            i += 1;
        }
        assert(cells(&state) =~= dead_grid(rows as nat, cols as nat));
        Game { state, rows, cols }
    }

    /// A game that holds the given rows, or an error where they do not form a
    /// grid: where there is no row, where the rows are empty or differ in
    /// length, or where there are more rows or columns than a 16-bit counter
    /// can hold.
    pub fn from_rows(state: Vec<Vec<Cell>>) -> (game: Result<Game, ShapeError>)
        ensures
            game is Ok <==> is_grid(cells(&state)) && fits_counters(cells(&state)),
            game is Ok ==> game->Ok_0@ == cells(&state),
    {
        let num_rows: usize = state.len();
        if num_rows == 0 || num_rows > 0xffff {
            return Err(ShapeError);
        }
        let row_length: usize = state[0].len();
        if row_length == 0 || row_length > 0xffff {
            return Err(ShapeError);
        }
        let mut i: usize = 1;
        while i < num_rows
            invariant
                num_rows == state@.len(),
                row_length == state@[0]@.len(),
                1 <= i <= num_rows,
                forall|k: int| 0 <= k < i ==> (#[trigger] state@[k])@.len() == row_length,
            decreases num_rows - i,
        {
            if state[i].len() != row_length {
                assert(cells(&state)[i as int].len() != cells(&state)[0].len());
                return Err(ShapeError);
            }
            i += 1;
        }
        assert(is_grid(cells(&state))) by {
            assert forall|k: int| 0 <= k < cells(&state).len() implies (#[trigger] cells(
                &state,
            )[k]).len() == cells(&state)[0].len() by {
                assert(state@[k]@.len() == row_length);
            }
        }
        Ok(Game { state, rows: num_rows as u16, cols: row_length as u16 })
    }

    /// Reads a game of `size.0` rows and `size.1` columns from `src`, which
    /// holds the rows one after the other with nothing between them.
    pub fn from_string(
        src: &str,
        alive: char,
        dead: char,
        size: (u16, u16),
    ) -> (game: Result<Game, MapError>)
        ensures
            match parse_text(src@, alive, dead, size.0 as nat, size.1 as nat) {
                Ok(grid) => game is Ok && game->Ok_0@ == grid,
                Err(fault) => game is Err && game->Err_0 == fault,
            },
            game is Ok ==> is_grid(game->Ok_0@),
    {
        broadcast use vstd::string::group_string_axioms;

        let (rows, cols) = size;
        if rows == 0 || cols == 0 {
            return Err(MapError::Shape);
        }
        let mut src_as_chars = src.chars();
        let mut state: Vec<Vec<Cell>> = Vec::new();
        let ghost mut pos: int = 0;
        let mut i: u16 = 0;
        while i < rows
            invariant
                size == (rows, cols),
                cols >= 1,
                i <= rows,
                pos == i * cols,
                pos <= src@.len(),
                src_as_chars.remaining() == src@.skip(pos),
                state@.len() == i,
                forall|k: int|
                    0 <= k < i ==> (#[trigger] state@[k])@ == text_grid(
                        src@,
                        alive,
                        dead,
                        rows as nat,
                        cols as nat,
                    )[k],
                text_fault(src@, alive, dead, rows as int, cols as int, 0) == text_fault(
                    src@,
                    alive,
                    dead,
                    rows as int,
                    cols as int,
                    i as int,
                ),
            decreases rows - i,
        {
            let mut row: Vec<Cell> = Vec::new();
            let mut stray: bool = false;
            let ghost mut stray_at: int = 0;
            let ghost start: int = pos;
            assert((i + 1) * cols == i * cols + cols) by (nonlinear_arith);
            let mut j: u16 = 0;
            while j < cols
                invariant
                    size == (rows, cols),
                    cols >= 1,
                    i < rows,
                    j <= cols,
                    start == i * cols,
                    start + cols == (i + 1) * cols,
                    text_fault(src@, alive, dead, rows as int, cols as int, 0) == text_fault(
                        src@,
                        alive,
                        dead,
                        rows as int,
                        cols as int,
                        i as int,
                    ),
                    pos == start + j,
                    pos <= src@.len(),
                    src_as_chars.remaining() == src@.skip(pos),
                    stray ==> 0 <= stray_at < j,
                    stray ==> decode(src@[start + stray_at], alive, dead) is None,
                    !stray ==> row@.len() == j,
                    !stray ==> forall|k: int|
                        0 <= k < j ==> decode(src@[start + k], alive, dead) == Some(
                            #[trigger] row@[k],
                        ),
                decreases cols - j,
            {
                match src_as_chars.next() {
                    None => {
                        assert(src@.skip(pos).len() == 0);
                        return Err(MapError::Truncated);
                    },
                    Some(c) => {
                        assert(c == src@.skip(pos)[0]);
                        assert(src@.skip(pos).drop_first() =~= src@.skip(pos + 1));
                        if c == alive {
                            row.push(Cell::Alive);
                        } else if c == dead {
                            row.push(Cell::Dead);
                        } else {
                            proof {
                                if !stray {
                                    stray_at = j as int;
                                }
                            }
                            stray = true;
                        }
                        proof {
                            pos = pos + 1;
                        }
                    },
                }
                j += 1;
            }
            if stray {
                assert(!text_row_decodes(src@, alive, dead, cols as int, i as int)) by {
                    assert(decode(src@[i * cols + stray_at], alive, dead) is None);
                }
                return Err(MapError::Marker);
            }
            assert(text_row_decodes(src@, alive, dead, cols as int, i as int)) by {
                assert forall|k: int| 0 <= k < cols implies (#[trigger] decode(
                    src@[i * cols + k],
                    alive,
                    dead,
                )) is Some by {
                    assert(decode(src@[start + k], alive, dead) == Some(row@[k]));
                }
            }
            assert(row@ =~= text_grid(src@, alive, dead, rows as nat, cols as nat)[i as int]);
            state.push(row);
            i += 1;
        }
        assert(cells(&state) =~= text_grid(src@, alive, dead, rows as nat, cols as nat));
        Ok(Game { state, rows, cols })
    }

    /// The number of rows, which is at least one.
    pub fn rows(&self) -> (rows: u16)
        ensures
            rows == self@.len(),
            rows >= 1,
    {
        proof {
            use_type_invariant(self);
        }
        self.rows
    }

    /// The number of columns, which is at least one and the length of every
    /// row.
    pub fn cols(&self) -> (cols: u16)
        ensures
            cols == self@[0].len(),
            cols >= 1,
            forall|i: int| 0 <= i < self@.len() ==> (#[trigger] self@[i]).len() == cols,
    {
        proof {
            use_type_invariant(self);
        }
        self.cols
    }

    /// The rows of the grid as they are stored. Whatever game this is asked
    /// of, they form a grid whose dimensions fit the counters.
    pub fn state(&self) -> (state: &Vec<Vec<Cell>>)
        ensures
            cells(state) == self@,
            is_grid(self@),
            fits_counters(self@),
    {
        proof {
            use_type_invariant(self);
        }
        &self.state
    }

    /// The cell at row `i`, column `j`, or an error where that position lies
    /// outside the grid.
    pub fn get_item(&self, i: u16, j: u16) -> (item: Result<&Cell, IndexError>)
        ensures
            item is Ok <==> i < self@.len() && j < self@[0].len(),
            item is Ok ==> *item->Ok_0 == self@[i as int][j as int],
    {
        proof {
            use_type_invariant(self);
        }
        if i < self.rows && j < self.cols {
            Ok(&self.state[i as usize][j as usize])
        } else {
            Err(IndexError)
        }
    }

    /// What the position (`row`, `col`) adds to a count of live cells.
    fn weight_at(&self, row: i32, col: i32) -> (w: u8)
        ensures
            w == live_at(self@, row as int, col as int),
    {
        proof {
            use_type_invariant(self);
        }
        if row < 0 || col < 0 || row >= self.rows as i32 || col >= self.cols as i32 {
            0
        } else {
            match self.state[row as usize][col as usize] {
                Cell::Alive => 1,
                Cell::Dead => 0,
            }
        }
    }

    /// The live cells around a position inside the grid.
    fn neighbors_within(&self, row: u16, col: u16) -> (n: u8)
        ensures
            n == live_neighbors(self@, row as int, col as int),
    {
        let r: i32 = row as i32;
        let c: i32 = col as i32;
        let above: u8 = self.weight_at(r - 1, c - 1) + self.weight_at(r - 1, c) + self.weight_at(
            r - 1,
            c + 1,
        );
        let beside: u8 = self.weight_at(r, c - 1) + self.weight_at(r, c + 1);
        let below: u8 = self.weight_at(r + 1, c - 1) + self.weight_at(r + 1, c) + self.weight_at(
            r + 1,
            c + 1,
        );
        above + beside + below
    }

    /// The number of live cells among the neighbours of (`row`, `col`), or an
    /// error where that position lies outside the grid. Positions beyond an
    /// edge count as absent.
    pub fn count_neighbors(&self, row: u16, col: u16) -> (count: Result<u8, IndexError>)
        ensures
            count is Ok <==> row < self@.len() && col < self@[0].len(),
            count is Ok ==> count->Ok_0 == live_neighbors(self@, row as int, col as int),
            count is Ok ==> count->Ok_0 <= 8,
    {
        proof {
            use_type_invariant(self);
        }
        if row < self.rows && col < self.cols {
            Ok(self.neighbors_within(row, col))
        } else {
            Err(IndexError)
        }
    }

    /// Advances the grid by one generation. Every cell of the new generation
    /// is computed from the old one alone.
    pub fn update(&mut self)
        ensures
            final(self)@ == next_generation(old(self)@),
            is_grid(final(self)@),
            final(self)@.len() == old(self)@.len(),
            final(self)@[0].len() == old(self)@[0].len(),
    {
        proof {
            use_type_invariant(&*self);
        }
        let mut next: Vec<Vec<Cell>> = Vec::new();
        let mut i: u16 = 0;
        while i < self.rows
            invariant
                *self == *old(self),
                self.well_formed(),
                i <= self.rows,
                next@.len() == i,
                forall|k: int| 0 <= k < i ==> (#[trigger] next@[k])@ == next_generation(self@)[k],
            decreases self.rows - i,
        {
            let mut row: Vec<Cell> = Vec::new();
            let mut j: u16 = 0;
            while j < self.cols
                invariant
                    *self == *old(self),
                    self.well_formed(),
                    i < self.rows,
                    j <= self.cols,
                    row@.len() == j,
                    forall|k: int|
                        0 <= k < j ==> #[trigger] row@[k] == next_generation(self@)[i as int][k],
                decreases self.cols - j,
            {
                let neighbors: u8 = self.neighbors_within(i, j);
                let current: Cell = self.state[i as usize][j as usize];
                row.push(current.update(neighbors));
                j += 1;
            }
            assert(row@ =~= next_generation(self@)[i as int]);
            next.push(row);
            i += 1;
        }
        assert(cells(&next) =~= next_generation(self@));
        self.state = next;
    }
}

impl Clone for Game {
    /// A second game with the same cells.
    fn clone(&self) -> (copy: Game)
        ensures
            copy@ == self@,
    {
        proof {
            use_type_invariant(self);
        }
        let state: Vec<Vec<Cell>> = clone_rows(&self.state);
        assert(state@.len() == cells(&state).len());
        assert forall|i: int| 0 <= i < state@.len() implies (#[trigger] state@[i])@.len()
            == self.cols by {
            assert(state@[i]@ == cells(&state)[i]);
            assert(self.state@[i]@ == cells(&self.state)[i]);
        }
        Game { state, rows: self.rows, cols: self.cols }
    }
}

/// A copy of the rows in `state`, cell by cell.
pub fn clone_rows(state: &Vec<Vec<Cell>>) -> (copy: Vec<Vec<Cell>>)
    ensures
        cells(&copy) == cells(state),
{
    let mut copy: Vec<Vec<Cell>> = Vec::new();
    let mut i: usize = 0;
    while i < state.len()
        invariant
            i <= state@.len(),
            copy@.len() == i,
            forall|k: int| 0 <= k < i ==> (#[trigger] copy@[k])@ == state@[k]@,
        decreases state@.len() - i,
    {
        let source: &Vec<Cell> = &state[i];
        let mut row: Vec<Cell> = Vec::new();
        let mut j: usize = 0;
        while j < source.len()
            invariant
                j <= source@.len(),
                row@.len() == j,
                forall|k: int| 0 <= k < j ==> #[trigger] row@[k] == source@[k],
            decreases source@.len() - j,
        {
            row.push(source[j]);
            j += 1;
        }
        assert(row@ =~= source@);
        copy.push(row);
        i += 1;
    }
    assert(cells(&copy) =~= cells(state));
    copy
}

} // verus!
