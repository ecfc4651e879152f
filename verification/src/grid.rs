//! The mathematical model of a universe: its dimensions and its cells as a
//! sequence, and what neighbour counting, a generation step, cell activation
//! and rendering mean on it.

use vstd::prelude::*;
use crate::cell::{glyph, live_value, rule, Cell};
use crate::error::GridError;

verus! {

/// A grid of cells on a torus, row after row.
pub struct Grid {
    /// The number of columns.
    pub width: nat,
    /// The number of rows.
    pub height: nat,
    /// The cells in row-major order: the cell of row `r` and column `c` is at
    /// `r * width + c`.
    pub cells: Seq<Cell>,
}

/// The largest number of cells that a grid may hold: what a 32-bit index can
/// address.
pub const MAX_CELLS: u64 = 0xffff_ffff;

/// The largest number of cells that a grid may hold, as a natural number.
pub open spec fn max_cells() -> nat {
    MAX_CELLS as nat
}

/// Why a grid of `width` columns and `height` rows cannot be made, if it
/// cannot: a dimension is zero, or the cells would be more than `max_cells()`.
pub open spec fn dimension_error(width: nat, height: nat) -> Option<GridError> {
    if width == 0 || height == 0 {
        Some(GridError::InvalidDimension)
    } else if width * height > max_cells() {
        Some(GridError::TooLarge)
    } else {
        None
    }
}

/// `n` dead cells.
pub open spec fn all_dead(n: nat) -> Seq<Cell> {
    Seq::new(n, |i: int| Cell::Dead)
}

/// The fixed pattern of `n` cells: the cell at `i` is alive exactly when `i`
/// is a multiple of 2 or of 7.
pub open spec fn pattern(n: nat) -> Seq<Cell> {
    Seq::new(
        n,
        |i: int|
            if i % 2 == 0 || i % 7 == 0 {
                Cell::Alive
            } else {
                Cell::Dead
            },
    )
}

impl Grid {
    /// The grid of `width` by `height` dead cells.
    pub open spec fn cleared(width: nat, height: nat) -> Grid {
        Grid { width, height, cells: all_dead(width * height) }
    }

    /// Both dimensions are positive, the cells fill the grid exactly, and
    /// their number stays within `max_cells()`.
    pub open spec fn wf(self) -> bool {
        &&& self.width > 0
        &&& self.height > 0
        &&& self.width * self.height <= max_cells()
        &&& self.cells.len() == self.width * self.height
    }

    /// The place of row `row`, column `col` in the sequence of cells.
    pub open spec fn index(self, row: int, col: int) -> int {
        row * self.width + col
    }

    /// Whether `(row, col)` names a cell of the grid.
    pub open spec fn contains(self, row: int, col: int) -> bool {
        0 <= row < self.height && 0 <= col < self.width
    }

    /// The cell at row `row`, column `col`.
    pub open spec fn cell(self, row: int, col: int) -> Cell {
        self.cells[self.index(row, col)]
    }

    /// The place of the cell that lies `dr` rows and `dc` columns from
    /// `(row, col)`, going round the torus.
    pub open spec fn wrapped_index(self, row: int, col: int, dr: int, dc: int) -> int {
        self.index((row + dr) % (self.height as int), (col + dc) % (self.width as int))
    }

    /// What the cell at the offset `(dr, dc)` from `(row, col)` adds to the
    /// count of live neighbours: nothing for the offset `(0, 0)`, which is the
    /// cell itself, and else 1 when the cell there is alive.
    pub open spec fn neighbour(self, row: int, col: int, dr: int, dc: int) -> nat {
        if dr == 0 && dc == 0 {
            0
        } else {
            live_value(self.cells[self.wrapped_index(row, col, dr, dc)])
        }
    }

    /// The part of the count that comes from the row at row offset `dr`: the
    /// column offsets are `width - 1` (one to the left), 0 and 1.
    pub open spec fn neighbours_in_row(self, row: int, col: int, dr: int) -> nat {
        self.neighbour(row, col, dr, self.width - 1) + self.neighbour(row, col, dr, 0)
            + self.neighbour(row, col, dr, 1)
    }

    /// The number of live cells among the neighbours of `(row, col)` on the
    /// torus: the row offsets are `height - 1` (one up), 0 and 1.
    pub open spec fn live_neighbours(self, row: int, col: int) -> nat {
        self.neighbours_in_row(row, col, self.height - 1) + self.neighbours_in_row(row, col, 0)
            + self.neighbours_in_row(row, col, 1)
    }

    /// The state in the next generation of the cell at place `i`.
    pub open spec fn next_cell(self, i: int) -> Cell {
        rule(
            self.cells[i],
            self.live_neighbours(i / (self.width as int), i % (self.width as int)),
        )
    }

    /// The cells of the next generation: every cell judged by Conway's rule on
    /// the present generation.
    pub open spec fn step(self) -> Seq<Cell> {
        Seq::new(self.cells.len(), |i: int| self.next_cell(i))
    }

    /// Whether the grid is a fixed point: the next generation equals this one.
    pub open spec fn stagnant(self) -> bool {
        self.step() == self.cells
    }

    /// Whether every coordinate of `coords` names a cell of the grid.
    pub open spec fn contains_all(self, coords: Seq<(u32, u32)>) -> bool {
        forall|k: int|
            0 <= k < coords.len() ==> self.contains(
                (#[trigger] coords[k]).0 as int,
                coords[k].1 as int,
            )
    }

    /// Whether one of the first `n` of `coords` names the cell at place `i`.
    pub open spec fn names_within(self, coords: Seq<(u32, u32)>, n: int, i: int) -> bool {
        exists|k: int|
            0 <= k < n && self.index((#[trigger] coords[k]).0 as int, coords[k].1 as int) == i
    }

    /// Whether one of `coords` names the cell at place `i`.
    pub open spec fn names(self, coords: Seq<(u32, u32)>, i: int) -> bool {
        self.names_within(coords, coords.len() as int, i)
    }

    /// The cells after those that `coords` names were set alive.
    pub open spec fn activate(self, coords: Seq<(u32, u32)>) -> Seq<Cell> {
        Seq::new(
            self.cells.len(),
            |i: int|
                if self.names(coords, i) {
                    Cell::Alive
                } else {
                    self.cells[i]
                },
        )
    }

    /// The rendered text: for each row its cells' glyphs, then a line feed.
    pub open spec fn text(self) -> Seq<char> {
        Seq::new(
            self.height * (self.width + 1),
            |k: int|
                {
                    let line = self.width as int + 1;
                    let row = k / line;
                    let col = k % line;
                    if col == self.width {
                        '\n'
                    } else {
                        glyph(self.cell(row, col))
                    }
                },
        )
    }
}

/// In a well-formed grid the place of a cell lies within the buffer.
pub proof fn lemma_index_in_bounds(g: Grid, row: int, col: int)
    requires
        g.wf(),
        g.contains(row, col),
    ensures
        0 <= g.index(row, col) < g.cells.len(),
        0 <= row * g.width <= row * g.width + col < g.width * g.height,
{
    let w = g.width as int;
    let h = g.height as int;
    assert(0 <= row * w) by (nonlinear_arith)
        requires
            0 <= row,
            0 <= w,
    ;
    assert(row * w + w <= w * h) by (nonlinear_arith)
        requires
            0 <= row < h,
            0 <= w,
    ;
}

/// A place in the buffer gives back the row and the column it was made of.
pub proof fn lemma_index_splits(g: Grid, row: int, col: int)
    requires
        g.wf(),
        g.contains(row, col),
    ensures
        g.index(row, col) / (g.width as int) == row,
        g.index(row, col) % (g.width as int) == col,
{
    vstd::arithmetic::div_mod::lemma_fundamental_div_mod_converse(
        g.index(row, col),
        g.width as int,
        row,
        col,
    );
}

/// Where the rendered text holds the character of row `row` at `col`; the
/// line feed of a row stands at `col == width`.
pub proof fn lemma_text_place(g: Grid, row: int, col: int)
    requires
        g.wf(),
        0 <= row < g.height,
        0 <= col <= g.width,
    ensures
        0 <= row * (g.width + 1) + col < g.text().len(),
        g.text()[row * (g.width + 1) + col] == (if col == g.width {
            '\n'
        } else {
            glyph(g.cell(row, col))
        }),
{
    let line = g.width as int + 1;
    let k = row * line + col;
    assert(0 <= row * line && row * line + line <= g.height * line) by (nonlinear_arith)
        requires
            0 <= row < g.height,
            0 < line,
    ;
    vstd::arithmetic::div_mod::lemma_fundamental_div_mod_converse(k, line, row, col);
}

/// No cell has more than eight live neighbours.
pub proof fn lemma_at_most_eight(g: Grid, row: int, col: int)
    ensures
        g.live_neighbours(row, col) <= 8,
{
    assert(g.neighbour(row, col, 0, 0) == 0);
}

} // verus!
