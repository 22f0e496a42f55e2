use vstd::prelude::*;

verus! {

/// The state of one position of the grid.
#[derive(Clone, Copy, PartialEq, Eq, Debug, Structural)]
pub enum Cell {
    Alive,
    Dead,
}

impl Cell {
    /// The state that a cell takes in the next generation when `neighbors` of
    /// the cells around it are alive: a live cell survives with two or three
    /// live neighbours, a dead cell comes to life with exactly three.
    pub open spec fn next(self, neighbors: int) -> Cell {
        match self {
            Cell::Alive => if neighbors == 2 || neighbors == 3 {
                Cell::Alive
            } else {
                Cell::Dead
            },
            Cell::Dead => if neighbors == 3 {
                Cell::Alive
            } else {
                Cell::Dead
            },
        }
    }

    /// One when the cell is alive, zero when it is dead.
    pub open spec fn weight(self) -> int {
        match self {
            Cell::Alive => 1,
            Cell::Dead => 0,
        }
    }

    /// Applies the transition rule to this cell.
    pub fn update(&self, number_of_neighbors: u8) -> (next: Cell)
        ensures
            next == self.next(number_of_neighbors as int),
    {
        match self {
            Cell::Alive => {
                if number_of_neighbors < 2 || number_of_neighbors > 3 {
                    Cell::Dead
                } else {
                    Cell::Alive
                }
            },
            Cell::Dead => {
                if number_of_neighbors == 3 {
                    Cell::Alive
                } else {
                    Cell::Dead
                }
            },
        }
    }
}

} // verus!
