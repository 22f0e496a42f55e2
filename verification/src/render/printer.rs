use crate::game_logic::cell::Cell;
use crate::game_logic::game::{cells, clone_rows, Game, GameState};
use vstd::prelude::*;

verus! {

/// The colour in which a glyph is shown.
#[derive(Clone, Copy, PartialEq, Eq, Debug, Structural)]
pub enum Tone {
    Plain,
    Yellow,
    Green,
    Red,
}

/// What is shown at one position of the terminal.
#[derive(Clone, Copy, PartialEq, Eq, Debug, Structural)]
pub struct Glyph {
    pub symbol: char,
    pub tone: Tone,
}

/// The glyph of a cell shown by itself: a yellow `@` for a live cell, a plain
/// `.` for a dead one.
pub open spec fn plain_glyph(cell: Cell) -> Glyph {
    match cell {
        Cell::Alive => Glyph { symbol: '@', tone: Tone::Yellow },
        Cell::Dead => Glyph { symbol: '.', tone: Tone::Plain },
    }
}

/// The glyph of a cell shown against what it was in the frame before: a live
/// cell is a yellow `@` where it was alive and a green one where it was born,
/// a dead cell a red `x` where it has just died and a plain `.` otherwise.
pub open spec fn delta_glyph(previous: Cell, current: Cell) -> Glyph {
    match (previous, current) {
        (Cell::Alive, Cell::Alive) => Glyph { symbol: '@', tone: Tone::Yellow },
        (Cell::Dead, Cell::Alive) => Glyph { symbol: '@', tone: Tone::Green },
        (Cell::Alive, Cell::Dead) => Glyph { symbol: 'x', tone: Tone::Red },
        (Cell::Dead, Cell::Dead) => Glyph { symbol: '.', tone: Tone::Plain },
    }
}

/// The rows of glyphs that `frame` holds.
pub open spec fn glyphs(frame: &Vec<Vec<Glyph>>) -> Seq<Seq<Glyph>> {
    Seq::new(frame@.len(), |i: int| frame@[i]@)
}

/// The frame that shows every cell of `g` by itself.
pub open spec fn plain_frame(g: Seq<Seq<Cell>>) -> Seq<Seq<Glyph>> {
    Seq::new(g.len(), |i: int| Seq::new(g[i].len(), |j: int| plain_glyph(g[i][j])))
}

/// `previous` has a cell for every cell of `g`.
pub open spec fn covers(previous: Seq<Seq<Cell>>, g: Seq<Seq<Cell>>) -> bool {
    &&& previous.len() >= g.len()
    &&& forall|i: int| 0 <= i < g.len() ==> (#[trigger] previous[i]).len() >= g[i].len()
}

/// The frame that shows every cell of `g` against the cell that `previous`
/// holds at its position.
pub open spec fn delta_frame(previous: Seq<Seq<Cell>>, g: Seq<Seq<Cell>>) -> Seq<Seq<Glyph>> {
    Seq::new(
        g.len(),
        |i: int| Seq::new(g[i].len(), |j: int| delta_glyph(previous[i][j], g[i][j])),
    )
}

/// `previous` with the cells of `g` written over it, each at its position.
/// What lies outside `g` stays as it was.
pub open spec fn overwritten(previous: Seq<Seq<Cell>>, g: Seq<Seq<Cell>>) -> Seq<Seq<Cell>> {
    Seq::new(
        previous.len(),
        |i: int|
            Seq::new(
                previous[i].len(),
                |j: int|
                    if i < g.len() && j < g[i].len() {
                        g[i][j]
                    } else {
                        previous[i][j]
                    },
            ),
    )
}

/// Something that turns a game into a frame of glyphs, row by row.
pub trait GameRenderer {
    /// The games that this renderer can show in its present state.
    spec fn accepts(&self, game: &Game) -> bool;

    /// The frame that this renderer makes of `game` in its present state.
    spec fn frame_of(&self, game: &Game) -> Seq<Seq<Glyph>>;

    /// Makes the frame that shows `game`.
    fn render(&mut self, game: &Game) -> (frame: Vec<Vec<Glyph>>)
        requires
            old(self).accepts(game),
        ensures
            glyphs(&frame) == old(self).frame_of(game),
    ;
}

/// Shows every generation by itself.
pub struct PrintRenderer {}

/// Shows every generation against the one shown before it.
pub struct FancyPrinter {
    prev_state: GameState,
}

impl View for FancyPrinter {
    type V = Seq<Seq<Cell>>;

    /// The cells that the last frame was made of.
    closed spec fn view(&self) -> Seq<Seq<Cell>> {
        cells(&self.prev_state)
    }
}

impl FancyPrinter {
    /// A printer whose first frame is held against `state`.
    pub fn new(state: &GameState) -> (printer: FancyPrinter)
        ensures
            printer@ == cells(state),
    {
        FancyPrinter { prev_state: clone_rows(state) }
    }

    /// The cells that the next frame will be held against.
    pub fn previous(&self) -> (state: &GameState)
        ensures
            cells(state) == self@,
    {
        &self.prev_state
    }

    /// Whether the printer holds a cell for every cell of `game`, as `render`
    /// needs it.
    pub fn covers(&self, game: &Game) -> (enough: bool)
        ensures
            enough == covers(self@, game@),
    {
        let state: &Vec<Vec<Cell>> = game.state();
        let rows: usize = state.len();
        if self.prev_state.len() < rows {
            return false;
        }
        let mut i: usize = 0;
        while i < rows
            invariant
                i <= rows,
                rows == state@.len(),
                cells(state) == game@,
                self.prev_state@.len() >= rows,
                forall|k: int| 0 <= k < i ==> (#[trigger] self@[k]).len() >= game@[k].len(),
            decreases rows - i,
        {
            assert(cells(state)[i as int] == state@[i as int]@);
            assert(self@[i as int] == self.prev_state@[i as int]@);
            if self.prev_state[i].len() < state[i].len() {
                return false;
            }
            i += 1;
        }
        true
    }
}

impl GameRenderer for PrintRenderer {
    open spec fn accepts(&self, game: &Game) -> bool {
        true
    }

    open spec fn frame_of(&self, game: &Game) -> Seq<Seq<Glyph>> {
        plain_frame(game@)
    }

    fn render(&mut self, game: &Game) -> (frame: Vec<Vec<Glyph>>) {
        let state: &Vec<Vec<Cell>> = game.state();
        let mut frame: Vec<Vec<Glyph>> = Vec::new();
        let mut i: usize = 0;
        while i < state.len()
            invariant
                i <= state@.len(),
                cells(state) == game@,
                frame@.len() == i,
                forall|k: int| 0 <= k < i ==> (#[trigger] frame@[k])@ == plain_frame(game@)[k],
            decreases state@.len() - i,
        {
            let row: &Vec<Cell> = &state[i];
            assert(cells(state)[i as int] == row@);
            let mut line: Vec<Glyph> = Vec::new();
            let mut j: usize = 0;
            while j < row.len()
                invariant
                    j <= row@.len(),
                    line@.len() == j,
                    forall|k: int| 0 <= k < j ==> #[trigger] line@[k] == plain_glyph(row@[k]),
                decreases row@.len() - j,
            {
                let glyph: Glyph = match row[j] {
                    Cell::Alive => Glyph { symbol: '@', tone: Tone::Yellow },
                    Cell::Dead => Glyph { symbol: '.', tone: Tone::Plain },
                };
                line.push(glyph);
                j += 1;
            }
            assert(line@ =~= plain_frame(game@)[i as int]);
            frame.push(line);
            i += 1;
        }
        assert(glyphs(&frame) =~= plain_frame(game@));
        frame
    }
}

impl GameRenderer for FancyPrinter {
    open spec fn accepts(&self, game: &Game) -> bool {
        covers(self@, game@)
    }

    open spec fn frame_of(&self, game: &Game) -> Seq<Seq<Glyph>> {
        delta_frame(self@, game@)
    }

    fn render(&mut self, game: &Game) -> (frame: Vec<Vec<Glyph>>)
        ensures
            final(self)@ == overwritten(old(self)@, game@),
    {
        let state: &Vec<Vec<Cell>> = game.state();
        let mut frame: Vec<Vec<Glyph>> = Vec::new();
        let mut i: usize = 0;
        while i < state.len()
            invariant
                i <= state@.len(),
                cells(state) == game@,
                covers(old(self)@, game@),
                self.prev_state@.len() == old(self).prev_state@.len(),
                frame@.len() == i,
                forall|k: int|
                    0 <= k < i ==> (#[trigger] frame@[k])@ == delta_frame(old(self)@, game@)[k],
                forall|k: int|
                    0 <= k < i ==> (#[trigger] self.prev_state@[k])@ == overwritten(
                        old(self)@,
                        game@,
                    )[k],
                forall|k: int|
                    i <= k < self.prev_state@.len() ==> (#[trigger] self.prev_state@[k]) == old(
                        self,
                    ).prev_state@[k],
            decreases state@.len() - i,
        {
            let row: &Vec<Cell> = &state[i];
            assert(cells(state)[i as int] == row@);
            assert(old(self)@[i as int] == old(self).prev_state@[i as int]@);
            let mut line: Vec<Glyph> = Vec::new();
            let mut kept: Vec<Cell> = Vec::new();
            let before: &Vec<Cell> = &self.prev_state[i];
            let mut j: usize = 0;
            while j < before.len()
                invariant
                    j <= before@.len(),
                    before@.len() >= row@.len(),
                    kept@.len() == j,
                    line@.len() == if j <= row@.len() { j as int } else { row@.len() as int },
                    forall|k: int|
                        0 <= k < line@.len() ==> #[trigger] line@[k] == delta_glyph(
                            before@[k],
                            row@[k],
                        ),
                    forall|k: int|
                        0 <= k < j ==> #[trigger] kept@[k] == if k < row@.len() {
                            row@[k]
                        } else {
                            before@[k]
                        },
                decreases before@.len() - j,
            {
                if j < row.len() {
                    let glyph: Glyph = match (before[j], row[j]) {
                        (Cell::Alive, Cell::Alive) => Glyph { symbol: '@', tone: Tone::Yellow },
                        (Cell::Dead, Cell::Alive) => Glyph { symbol: '@', tone: Tone::Green },
                        (Cell::Alive, Cell::Dead) => Glyph { symbol: 'x', tone: Tone::Red },
                        (Cell::Dead, Cell::Dead) => Glyph { symbol: '.', tone: Tone::Plain },
                    };
                    line.push(glyph);
                    kept.push(row[j]);
                } else {
                    kept.push(before[j]);
                }
                j += 1;
            }
            assert(line@ =~= delta_frame(old(self)@, game@)[i as int]);
            assert(kept@ =~= overwritten(old(self)@, game@)[i as int]);
            self.prev_state.set(i, kept);
            frame.push(line);
            i += 1;
        }
        assert(glyphs(&frame) =~= delta_frame(old(self)@, game@));
        assert(self@ =~= overwritten(old(self)@, game@)) by {
            assert forall|k: int| 0 <= k < self@.len() implies self@[k] == overwritten(
                old(self)@,
                game@,
            )[k] by {
                if k >= state@.len() {
                    assert(self.prev_state@[k] == old(self).prev_state@[k]);
                    assert(self@[k] =~= overwritten(old(self)@, game@)[k]);
                }
            }
        }
        frame
    }
}

} // verus!
