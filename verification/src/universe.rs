//! The universe: the grid in memory and the operations on it.

use vstd::prelude::*;
use crate::cell::Cell;
use crate::error::GridError;
use crate::grid::{
    all_dead, dimension_error, lemma_at_most_eight, lemma_index_in_bounds, lemma_index_splits,
    lemma_text_place, max_cells, pattern, Grid, MAX_CELLS,
};
use crate::random::RandomSource;

verus! {

/// A toroidal grid of cells that advances by Conway's rule.
pub struct Universe {
    width: u32,
    height: u32,
    cells: Vec<Cell>,
}

impl View for Universe {
    type V = Grid;

    closed spec fn view(&self) -> Grid {
        Grid { width: self.width as nat, height: self.height as nat, cells: self.cells@ }
    }
}

impl Universe {
    #[verifier::type_invariant]
    spec fn well_formed(self) -> bool {
        self@.wf()
    }

    /// A universe of 64 by 64 dead cells.
    pub fn new() -> (universe: Universe)
        ensures
            universe@ == Grid::cleared(64, 64),
            universe@.wf(),
    {
        let cells = dead_cells(64, 64);
        Universe { width: 64, height: 64, cells }
    }

    /// A universe of `width` by `height` dead cells.
    ///
    /// Refused when a dimension is zero or the grid would be too large.
    pub fn with_dead(width: u32, height: u32) -> (made: Result<Universe, GridError>)
        ensures
            match dimension_error(width as nat, height as nat) {
                Some(e) => made == Err::<Universe, GridError>(e),
                None => made is Ok && made->Ok_0@.wf() && made->Ok_0@ == Grid::cleared(
                    width as nat,
                    height as nat,
                ),
            },
    {
        match check_dimensions(width, height) {
            Err(e) => Err(e),
            Ok(()) => Ok(Universe { width, height, cells: dead_cells(width, height) }),
        }
    }

    /// A universe of `width` by `height` cells in the fixed pattern: the cell
    /// at place `i` is alive exactly when `i` is a multiple of 2 or of 7.
    ///
    /// Refused when a dimension is zero or the grid would be too large.
    pub fn with_pattern(width: u32, height: u32) -> (made: Result<Universe, GridError>)
        ensures
            match dimension_error(width as nat, height as nat) {
                Some(e) => made == Err::<Universe, GridError>(e),
                None => made is Ok && made->Ok_0@.wf() && made->Ok_0@ == (Grid {
                    width: width as nat,
                    height: height as nat,
                    cells: pattern((width * height) as nat),
                }),
            },
    {
        match check_dimensions(width, height) {
            Err(e) => Err(e),
            Ok(()) => Ok(Universe { width, height, cells: pattern_cells(width, height) }),
        }
    }

    /// A universe of `width` by `height` cells, each drawn from `rng`, one
    /// flip per cell in row-major order.
    ///
    /// Refused when a dimension is zero or the grid would be too large; no
    /// flip is drawn then.
    pub fn with_random<R: RandomSource>(width: u32, height: u32, rng: &mut R) -> (made: Result<
        Universe,
        GridError,
    >)
        ensures
            match dimension_error(width as nat, height as nat) {
                Some(e) => made == Err::<Universe, GridError>(e),
                None => made is Ok && made->Ok_0@.wf() && made->Ok_0@.width == width
                    && made->Ok_0@.height == height,
            },
    {
        match check_dimensions(width, height) {
            Err(e) => Err(e),
            Ok(()) => Ok(Universe { width, height, cells: random_cells(width, height, rng) }),
        }
    }

    /// The number of columns.
    pub fn width(&self) -> (width: u32)
        ensures
            width == self@.width,
            width > 0,
    {
        proof {
            use_type_invariant(self);
        }
        self.width
    }

    /// The number of rows.
    pub fn height(&self) -> (height: u32)
        ensures
            height == self@.height,
            height > 0,
    {
        proof {
            use_type_invariant(self);
        }
        self.height
    }

    /// The whole buffer of cells, for a reader that wants its base and its
    /// length: `width * height` cells in row-major order. It is valid until the
    /// universe is next changed.
    pub fn cells(&self) -> (cells: &Vec<Cell>)
        ensures
            cells@ == self@.cells,
            cells@.len() == self@.width * self@.height,
    {
        proof {
            use_type_invariant(self);
        }
        &self.cells
    }

    /// Sets the number of columns and makes every cell dead.
    ///
    /// Refused, with the universe left as it was, when `width` is zero or the
    /// grid would be too large.
    pub fn set_width(&mut self, width: u32) -> (done: Result<(), GridError>)
        ensures
            final(self)@.wf(),
            match dimension_error(width as nat, old(self)@.height) {
                Some(e) => done == Err::<(), GridError>(e) && final(self)@ == old(self)@,
                None => done is Ok && final(self)@ == Grid::cleared(
                    width as nat,
                    old(self)@.height,
                ),
            },
    {
        proof {
            use_type_invariant(&*self);
        }
        let height = self.height;
        match check_dimensions(width, height) {
            Err(e) => Err(e),
            Ok(()) => {
                *self = Universe { width, height, cells: dead_cells(width, height) };
                Ok(())
            },
        }
    }

    /// Sets the number of rows and makes every cell dead.
    ///
    /// Refused, with the universe left as it was, when `height` is zero or the
    /// grid would be too large.
    pub fn set_height(&mut self, height: u32) -> (done: Result<(), GridError>)
        ensures
            final(self)@.wf(),
            match dimension_error(old(self)@.width, height as nat) {
                Some(e) => done == Err::<(), GridError>(e) && final(self)@ == old(self)@,
                None => done is Ok && final(self)@ == Grid::cleared(
                    old(self)@.width,
                    height as nat,
                ),
            },
    {
        proof {
            use_type_invariant(&*self);
        }
        let width = self.width;
        match check_dimensions(width, height) {
            Err(e) => Err(e),
            Ok(()) => {
                *self = Universe { width, height, cells: dead_cells(width, height) };
                Ok(())
            },
        }
    }

    /// Sets alive each cell that `coords` names by `(row, column)`.
    ///
    /// Refused, with the universe left as it was, when one of the coordinates
    /// lies outside the grid.
    pub fn set_cells(&mut self, coords: &[(u32, u32)]) -> (done: Result<(), GridError>)
        ensures
            final(self)@.wf(),
            final(self)@.width == old(self)@.width,
            final(self)@.height == old(self)@.height,
            old(self)@.contains_all(coords@) ==> done is Ok && final(self)@.cells == old(
                self,
            )@.activate(coords@),
            !old(self)@.contains_all(coords@) ==> done == Err::<(), GridError>(
                GridError::OutOfRangeCoordinate,
            ) && final(self)@ == old(self)@,
    {
        proof {
            use_type_invariant(&*self);
        }
        let mut k: usize = 0;
        while k < coords.len()
            invariant
                k <= coords@.len(),
                *self == *old(self),
                self@.wf(),
                forall|j: int|
                    0 <= j < k ==> self@.contains(
                        (#[trigger] coords@[j]).0 as int,
                        coords@[j].1 as int,
                    ),
            decreases coords@.len() - k,
        {
            let (row, col) = coords[k];
            if row >= self.height || col >= self.width {
                return Err(GridError::OutOfRangeCoordinate);
            }
            k = k + 1;
        }
        let mut k: usize = 0;
        while k < coords.len()
            invariant
                k <= coords@.len(),
                self@.wf(),
                self@.width == old(self)@.width,
                self@.height == old(self)@.height,
                old(self)@.contains_all(coords@),
                self@.cells.len() == old(self)@.cells.len(),
                forall|i: int|
                    0 <= i < self@.cells.len() ==> self@.cells[i] == (if old(self)@.names_within(
                        coords@,
                        k as int,
                        i,
                    ) {
                        Cell::Alive
                    } else {
                        old(self)@.cells[i]
                    }),
            decreases coords@.len() - k,
        {
            let (row, col) = coords[k];
            let idx = self.get_index(row, col);
            self.cells[idx] = Cell::Alive;
            k = k + 1;
        }
        proof {
            assert(self@.cells =~= old(self)@.activate(coords@));
        }
        Ok(())
    }

    /// The grid as text: for each row one glyph per cell, a white square for
    /// a dead cell and a black one for a live cell, then a line feed.
    pub fn render(&self) -> (text: String)
        ensures
            text@ == self@.text(),
    {
        proof {
            use_type_invariant(self);
        }
        let ghost line = self.width as int + 1;
        let mut text = String::new();
        let mut row: u32 = 0;
        while row < self.height
            invariant
                self@.wf(),
                line == self.width + 1,
                row <= self.height,
                text@.len() == row * line,
                forall|k: int| 0 <= k < text@.len() ==> text@[k] == self@.text()[k],
            decreases self.height - row,
        {
            let mut col: u32 = 0;
            while col < self.width
                invariant
                    self@.wf(),
                    line == self.width + 1,
                    row < self.height,
                    col <= self.width,
                    text@.len() == row * line + col,
                    forall|k: int| 0 <= k < text@.len() ==> text@[k] == self@.text()[k],
                decreases self.width - col,
            {
                let idx = self.get_index(row, col);
                proof {
                    lemma_text_place(self@, row as int, col as int);
                    reveal_strlit("\u{25FB}");
                    reveal_strlit("\u{25FC}");
                }
                if self.cells[idx] == Cell::Dead {
                    text.append("\u{25FB}");
                } else {
                    text.append("\u{25FC}");
                }
                col = col + 1;
            }
            proof {
                lemma_text_place(self@, row as int, self.width as int);
                reveal_strlit("\n");
                assert(row * line + self.width + 1 == (row + 1) * line) by (nonlinear_arith)
                    requires
                        line == self.width + 1,
                ;
            }
            text.append("\n");
            row = row + 1;
        }
        proof {
            assert(self.height * line == self@.text().len()) by (nonlinear_arith)
                requires
                    line == self.width + 1,
                    self@.text().len() == self@.height * (self@.width + 1),
                    self@.height == self.height,
                    self@.width == self.width,
            ;
            assert(text@ =~= self@.text());
        }
        text
    }

    /// The place in the buffer of the cell at row `row`, column `col`.
    fn get_index(&self, row: u32, col: u32) -> (idx: usize)
        requires
            self@.contains(row as int, col as int),
        ensures
            idx == self@.index(row as int, col as int),
            idx < self@.cells.len(),
    {
        proof {
            use_type_invariant(self);
            lemma_index_in_bounds(self@, row as int, col as int);
        }
        (row * self.width + col) as usize
    }

    /// What the cell at the offset `(dr, dc)` from `(row, col)` adds to the
    /// count of live neighbours.
    fn neighbour(&self, row: u32, col: u32, dr: u32, dc: u32) -> (n: u8)
        ensures
            n == self@.neighbour(row as int, col as int, dr as int, dc as int),
            n <= 1,
    {
        proof {
            use_type_invariant(self);
        }
        if dr == 0 && dc == 0 {
            return 0;
        }
        let neighbour_row = ((row as u64 + dr as u64) % (self.height as u64)) as u32;
        let neighbour_col = ((col as u64 + dc as u64) % (self.width as u64)) as u32;
        let idx = self.get_index(neighbour_row, neighbour_col);
        self.cells[idx].as_u8()
    }

    /// The part of the count of live neighbours that comes from the row at
    /// row offset `dr`.
    fn neighbours_in_row(&self, row: u32, col: u32, dr: u32) -> (n: u8)
        ensures
            n == self@.neighbours_in_row(row as int, col as int, dr as int),
            n <= 3,
    {
        proof {
            use_type_invariant(self);
        }
        let left = self.neighbour(row, col, dr, self.width - 1);
        let middle = self.neighbour(row, col, dr, 0);
        let right = self.neighbour(row, col, dr, 1);
        left + middle + right
    }

    /// The number of live cells among the eight neighbours of `(row, col)` on
    /// the torus. Coordinates beyond the grid are taken round it. On a grid of
    /// a single row or a single column, the offset that stands for one step
    /// back is zero as well, and is left out like the cell itself.
    pub fn live_neighbour_count(&self, row: u32, col: u32) -> (count: u8)
        ensures
            count == self@.live_neighbours(row as int, col as int),
            count <= 8,
    {
        proof {
            use_type_invariant(self);
        }
        let above = self.neighbours_in_row(row, col, self.height - 1);
        let level = self.neighbours_in_row(row, col, 0);
        let below = self.neighbours_in_row(row, col, 1);
        proof {
            lemma_at_most_eight(self@, row as int, col as int);
        }
        above + level + below
    }

    /// The cells of the next generation. The universe itself stays as it is.
    pub fn next_generation(&self) -> (next: Vec<Cell>)
        ensures
            next@ == self@.step(),
    {
        proof {
            use_type_invariant(self);
        }
        let mut next = self.cells.clone();
        let mut row: u32 = 0;
        while row < self.height
            invariant
                self@.wf(),
                row <= self.height,
                next@.len() == self@.cells.len(),
                forall|i: int| 0 <= i < row * self.width ==> next@[i] == self@.next_cell(i),
            decreases self.height - row,
        {
            let mut col: u32 = 0;
            while col < self.width
                invariant
                    self@.wf(),
                    row < self.height,
                    col <= self.width,
                    next@.len() == self@.cells.len(),
                    forall|i: int|
                        0 <= i < row * self.width + col ==> next@[i] == self@.next_cell(i),
                decreases self.width - col,
            {
                let idx = self.get_index(row, col);
                let cell = self.cells[idx];
                let live_neighbours = self.live_neighbour_count(row, col);
                proof {
                    lemma_index_splits(self@, row as int, col as int);
                }
                next[idx] = cell.evolve(live_neighbours);
                col = col + 1;
            }
            proof {
                assert(row * self.width + self.width == (row + 1) * self.width)
                    by (nonlinear_arith);
            }
            row = row + 1;
        }
        proof {
            assert(self.height * self.width == self.width * self.height) by (nonlinear_arith);
            assert(next@ =~= self@.step());
        }
        next
    }

    /// Advances the universe by one generation.
    ///
    /// Every cell is judged by Conway's rule on the generation before the
    /// tick. Where that leaves the grid as it was, the grid is frozen, and
    /// all its cells are drawn afresh from `rng` instead, one flip per cell in
    /// row-major order. The dimensions stay.
    pub fn tick<R: RandomSource>(&mut self, rng: &mut R)
        ensures
            final(self)@.wf(),
            final(self)@.width == old(self)@.width,
            final(self)@.height == old(self)@.height,
            !old(self)@.stagnant() ==> final(self)@.cells == old(self)@.step(),
    {
        proof {
            use_type_invariant(&*self);
        }
        let next = self.next_generation();
        if same_cells(&self.cells, &next) {
            self.cells = random_cells(self.width, self.height, rng);
        } else {
            self.cells = next;
        }
    }

    /// The cells in row-major order, one for every place of the grid.
    pub fn get_cells(&self) -> (cells: &[Cell])
        ensures
            cells@ == self@.cells,
            cells@.len() == self@.width * self@.height,
            self@.wf(),
    {
        proof {
            use_type_invariant(self);
        }
        self.cells.as_slice()
    }
}

/// A buffer of `width * height` dead cells.
pub(crate) fn dead_cells(width: u32, height: u32) -> (cells: Vec<Cell>)
    requires
        width * height <= max_cells(),
    ensures
        cells@ == all_dead((width * height) as nat),
{
    let count: u32 = width * height;
    let mut cells: Vec<Cell> = Vec::new();
    let mut i: u32 = 0;
    while i < count
        invariant
            i <= count,
            cells@ == all_dead(i as nat),
        decreases count - i,
    {
        cells.push(Cell::Dead);
        i = i + 1;
        assert(cells@ =~= all_dead(i as nat));
    }
    cells
}

/// Decides whether a grid of the given dimensions can be made.
pub(crate) fn check_dimensions(width: u32, height: u32) -> (checked: Result<(), GridError>)
    ensures
        match dimension_error(width as nat, height as nat) {
            Some(e) => checked == Err::<(), GridError>(e),
            None => checked is Ok,
        },
{
    if width == 0 || height == 0 {
        return Err(GridError::InvalidDimension);
    }
    proof {
        assert(width * height <= 0xffff_ffff * 0xffff_ffff) by (nonlinear_arith)
            requires
                0 <= width <= 0xffff_ffff,
                0 <= height <= 0xffff_ffff,
        ;
    }
    if (width as u64) * (height as u64) > MAX_CELLS {
        return Err(GridError::TooLarge);
    }
    Ok(())
}

/// A buffer of `width * height` cells in the fixed pattern.
pub(crate) fn pattern_cells(width: u32, height: u32) -> (cells: Vec<Cell>)
    requires
        width * height <= max_cells(),
    ensures
        cells@ == pattern((width * height) as nat),
{
    let count: u32 = width * height;
    let mut cells: Vec<Cell> = Vec::new();
    let mut i: u32 = 0;
    while i < count
        invariant
            i <= count,
            cells@ == pattern(i as nat),
        decreases count - i,
    {
        if i % 2 == 0 || i % 7 == 0 {
            cells.push(Cell::Alive);
        } else {
            cells.push(Cell::Dead);
        }
        i = i + 1;
        assert(cells@ =~= pattern(i as nat));
    }
    cells
}

/// A buffer of `width * height` cells, each drawn from `rng` in turn.
pub(crate) fn random_cells<R: RandomSource>(width: u32, height: u32, rng: &mut R) -> (cells: Vec<
    Cell,
>)
    requires
        width * height <= max_cells(),
    ensures
        cells@.len() == width * height,
{
    let count: u32 = width * height;
    let mut cells: Vec<Cell> = Vec::new();
    let mut i: u32 = 0;
    while i < count
        invariant
            i <= count,
            cells@.len() == i,
        decreases count - i,
    {
        let alive = rng.flip();
        cells.push(Cell::from_flip(alive));
        i = i + 1;
    }
    cells
}

/// Whether two buffers hold the same cells.
pub(crate) fn same_cells(a: &Vec<Cell>, b: &Vec<Cell>) -> (same: bool)
    ensures
        same == (a@ == b@),
{
    if a.len() != b.len() {
        return false;
    }
    let mut i: usize = 0;
    while i < a.len()
        invariant
            a@.len() == b@.len(),
            i <= a@.len(),
            forall|k: int| 0 <= k < i ==> a@[k] == b@[k],
        decreases a@.len() - i,
    {
        if a[i] != b[i] {
            return false;
        }
        i = i + 1;
    }
    proof {
        assert(a@ =~= b@);
    }
    true
}

} // verus!
