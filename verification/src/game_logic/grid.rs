use crate::game_logic::cell::Cell;
use vstd::prelude::*;

verus! {

/// A grid has at least one row and one column, and all its rows are equally
/// long.
pub open spec fn is_grid(g: Seq<Seq<Cell>>) -> bool {
    &&& g.len() >= 1
    &&& g[0].len() >= 1
    &&& forall|i: int| 0 <= i < g.len() ==> (#[trigger] g[i]).len() == g[0].len()
}

/// Both dimensions of `g` can be held in the 16-bit counters of a `Game`.
pub open spec fn fits_counters(g: Seq<Seq<Cell>>) -> bool {
    &&& g.len() <= u16::MAX
    &&& g.len() > 0 ==> g[0].len() <= u16::MAX
}

/// A grid of the given size with no live cell.
pub open spec fn dead_grid(rows: nat, cols: nat) -> Seq<Seq<Cell>> {
    Seq::new(rows, |i: int| Seq::new(cols, |j: int| Cell::Dead))
}

/// What the position (`row`, `col`) adds to a count of live cells: one where
/// it lies inside `g` and holds a live cell, zero where it is dead or lies
/// outside. The grid does not wrap around.
pub open spec fn live_at(g: Seq<Seq<Cell>>, row: int, col: int) -> int {
    if 0 <= row < g.len() && 0 <= col < g[row].len() {
        g[row][col].weight()
    } else {
        0
    }
}

/// The number of live cells among the up to eight positions around
/// (`row`, `col`).
pub open spec fn live_neighbors(g: Seq<Seq<Cell>>, row: int, col: int) -> int {
    live_at(g, row - 1, col - 1) + live_at(g, row - 1, col) + live_at(g, row - 1, col + 1)
        + live_at(g, row, col - 1) + live_at(g, row, col + 1) + live_at(g, row + 1, col - 1)
        + live_at(g, row + 1, col) + live_at(g, row + 1, col + 1)
}

/// The generation that follows `g`: every cell takes the state that the
/// transition rule gives it for its live neighbours in `g` itself.
pub open spec fn next_generation(g: Seq<Seq<Cell>>) -> Seq<Seq<Cell>> {
    Seq::new(
        g.len(),
        |row: int|
            Seq::new(g[row].len(), |col: int| g[row][col].next(live_neighbors(g, row, col))),
    )
}

/// No cell of `g` is alive.
pub open spec fn all_dead(g: Seq<Seq<Cell>>) -> bool {
    forall|i: int, j: int|
        0 <= i < g.len() && 0 <= j < g[i].len() ==> #[trigger] g[i][j] == Cell::Dead
}

/// The first or the last of `len` positions.
pub open spec fn at_border(index: int, len: int) -> bool {
    index == 0 || index == len - 1
}

/// No position has more than eight neighbours, whatever the grid holds.
pub proof fn lemma_at_most_eight_neighbors(g: Seq<Seq<Cell>>, row: int, col: int)
    ensures
        0 <= live_neighbors(g, row, col) <= 8,
{
}

/// A position on an edge of the grid has at most five live neighbours, and
/// one in a corner at most three: what lies beyond the edge is not counted.
pub proof fn lemma_border_neighbors(g: Seq<Seq<Cell>>, row: int, col: int)
    requires
        is_grid(g),
        0 <= row < g.len(),
        0 <= col < g[0].len(),
    ensures
        at_border(row, g.len() as int) || at_border(col, g[0].len() as int) ==> live_neighbors(
            g,
            row,
            col,
        ) <= 5,
        at_border(row, g.len() as int) && at_border(col, g[0].len() as int) ==> live_neighbors(
            g,
            row,
            col,
        ) <= 3,
{
    assert(g[row].len() == g[0].len());
    if row >= 1 {
        assert(g[row - 1].len() == g[0].len());
    }
    if row + 1 < g.len() {
        assert(g[row + 1].len() == g[0].len());
    }
}

/// The one cell of a grid of one row and one column has no neighbours.
pub proof fn lemma_single_cell_has_no_neighbors(g: Seq<Seq<Cell>>)
    requires
        g.len() == 1,
        g[0].len() == 1,
    ensures
        live_neighbors(g, 0, 0) == 0,
{
}

/// Nothing is born in a grid without live cells: its next generation is the
/// grid itself.
pub proof fn lemma_dead_grid_stays_dead(g: Seq<Seq<Cell>>)
    requires
        all_dead(g),
    ensures
        all_dead(next_generation(g)),
        next_generation(g) == g,
{
    let next = next_generation(g);
    assert forall|i: int, j: int| 0 <= i < g.len() && 0 <= j < g[i].len() implies next[i][j]
        == Cell::Dead by {
        lemma_no_neighbors_among_dead(g, i, j);
    }
    assert forall|i: int| 0 <= i < g.len() implies next[i] =~= g[i] by {
        assert forall|j: int| 0 <= j < g[i].len() implies next[i][j] == g[i][j] by {
            assert(g[i][j] == Cell::Dead);
        }
    }
    assert(next =~= g);
}

/// In a grid without live cells every count of live neighbours is zero.
pub proof fn lemma_no_neighbors_among_dead(g: Seq<Seq<Cell>>, row: int, col: int)
    requires
        all_dead(g),
    ensures
        live_neighbors(g, row, col) == 0,
{
    assert forall|r: int, c: int| live_at(g, r, c) == 0 by {
        if 0 <= r < g.len() && 0 <= c < g[r].len() {
            assert(g[r][c] == Cell::Dead);
        }
    }
}

/// A live cell without a live neighbour is dead in the next generation.
pub proof fn lemma_lonely_cell_dies(g: Seq<Seq<Cell>>, row: int, col: int)
    requires
        0 <= row < g.len(),
        0 <= col < g[row].len(),
        g[row][col] == Cell::Alive,
        live_neighbors(g, row, col) == 0,
    ensures
        next_generation(g)[row][col] == Cell::Dead,
{
}

} // verus!
