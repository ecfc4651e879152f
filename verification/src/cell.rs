//! The state of one cell and Conway's rule for it.

use vstd::prelude::*;

verus! {

/// The state of one cell of the grid.
#[derive(Clone, Copy, Debug, PartialEq, Eq, Structural)]
pub enum Cell {
    Dead,
    Alive,
}

/// What a cell adds to a count of live cells: 1 when alive, 0 when dead.
pub open spec fn live_value(cell: Cell) -> nat {
    if cell == Cell::Alive {
        1
    } else {
        0
    }
}

/// The character that stands for a cell in the rendered text.
pub open spec fn glyph(cell: Cell) -> char {
    if cell == Cell::Dead {
        '\u{25FB}'
    } else {
        '\u{25FC}'
    }
}

/// Conway's rule: a cell is alive in the next generation exactly when it has
/// three live neighbours, or is alive now and has two.
pub open spec fn rule(cell: Cell, live_neighbours: nat) -> Cell {
    if live_neighbours == 3 || (cell == Cell::Alive && live_neighbours == 2) {
        Cell::Alive
    } else {
        Cell::Dead
    }
}

impl Cell {
    /// The numeric encoding of the cell: 0 for dead, 1 for alive.
    pub fn as_u8(self) -> (n: u8)
        ensures
            n == live_value(self),
    {
        match self {
            Cell::Dead => 0,
            Cell::Alive => 1,
        }
    }

    /// The cell that a coin flip stands for: alive on `true`, dead on `false`.
    pub fn from_flip(alive: bool) -> (cell: Cell)
        ensures
            cell == Cell::Alive <==> alive,
    {
        if alive {
            Cell::Alive
        } else {
            Cell::Dead
        }
    }

    /// The state of this cell in the next generation, given how many of its
    /// neighbours are alive now.
    pub fn evolve(self, live_neighbours: u8) -> (next: Cell)
        ensures
            next == rule(self, live_neighbours as nat),
    {
        match self {
            Cell::Alive => {
                if live_neighbours < 2 {
                    Cell::Dead
                } else if live_neighbours == 2 || live_neighbours == 3 {
                    Cell::Alive
                } else {
                    Cell::Dead
                }
            },
            Cell::Dead => {
                if live_neighbours == 3 {
                    Cell::Alive
                } else {
                    Cell::Dead
                }
            },
        }
    }
}

} // verus!
