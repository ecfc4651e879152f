//! Properties of the model that hold of every grid.

use vstd::prelude::*;
use vstd::arithmetic::div_mod::{
    lemma_fundamental_div_mod, lemma_fundamental_div_mod_converse, lemma_mod_bound,
};
use crate::cell::{live_value, rule, Cell};
use crate::grid::{all_dead, dimension_error, lemma_index_in_bounds, lemma_index_splits, Grid};
use crate::universe::Universe;

verus! {

/// The place before `i` on a ring of `n` places.
pub open spec fn before(i: int, n: int) -> int {
    if i == 0 {
        n - 1
    } else {
        i - 1
    }
}

/// The place after `i` on a ring of `n` places.
pub open spec fn after(i: int, n: int) -> int {
    if i == n - 1 {
        0
    } else {
        i + 1
    }
}

impl Grid {
    /// The places of the eight neighbours of `(row, col)`: the row above from
    /// left to right, the cell to the left and the cell to the right, then the
    /// row below from left to right.
    pub open spec fn neighbour_places(self, row: int, col: int) -> Seq<int> {
        let up = self.height - 1;
        let left = self.width - 1;
        seq![
            self.wrapped_index(row, col, up, left),
            self.wrapped_index(row, col, up, 0),
            self.wrapped_index(row, col, up, 1),
            self.wrapped_index(row, col, 0, left),
            self.wrapped_index(row, col, 0, 1),
            self.wrapped_index(row, col, 1, left),
            self.wrapped_index(row, col, 1, 0),
            self.wrapped_index(row, col, 1, 1),
        ]
    }

    /// The rows of the eight neighbours of a cell in row `row`, in the order
    /// of `neighbour_places`.
    pub open spec fn neighbour_rows(self, row: int) -> Seq<int> {
        let up = before(row, self.height as int);
        let down = after(row, self.height as int);
        seq![up, up, up, row, row, down, down, down]
    }

    /// The columns of the eight neighbours of a cell in column `col`, in the
    /// order of `neighbour_places`.
    pub open spec fn neighbour_cols(self, col: int) -> Seq<int> {
        let left = before(col, self.width as int);
        let right = after(col, self.width as int);
        seq![left, col, right, left, right, left, col, right]
    }
}

/// Going `n - 1` places forward on a ring of `n` places is going one back,
/// going one forward from the last place leads to the first, and going
/// nowhere leaves the place.
pub proof fn lemma_ring_steps(i: int, n: int)
    requires
        0 <= i < n,
    ensures
        (i + (n - 1)) % n == before(i, n),
        (i + 1) % n == after(i, n),
        (i + 0) % n == i,
{
    if i == 0 {
        lemma_fundamental_div_mod_converse(i + (n - 1), n, 0, n - 1);
    } else {
        lemma_fundamental_div_mod_converse(i + (n - 1), n, 1, i - 1);
    }
    if i == n - 1 {
        lemma_fundamental_div_mod_converse(i + 1, n, 1, 0);
    } else {
        lemma_fundamental_div_mod_converse(i + 1, n, 0, i + 1);
    }
    lemma_fundamental_div_mod_converse(i, n, 0, i);
}

/// Two cells of a grid that share a place are the same cell.
pub proof fn lemma_index_injective(g: Grid, r1: int, c1: int, r2: int, c2: int)
    requires
        g.wf(),
        g.contains(r1, c1),
        g.contains(r2, c2),
        g.index(r1, c1) == g.index(r2, c2),
    ensures
        r1 == r2,
        c1 == c2,
{
    lemma_index_splits(g, r1, c1);
    lemma_index_splits(g, r2, c2);
}

/// A place of a well-formed grid splits into a row and a column of the grid.
pub proof fn lemma_place_splits(g: Grid, i: int)
    requires
        g.wf(),
        0 <= i < g.cells.len(),
    ensures
        g.contains(i / (g.width as int), i % (g.width as int)),
        g.index(i / (g.width as int), i % (g.width as int)) == i,
{
    let w = g.width as int;
    let h = g.height as int;
    lemma_fundamental_div_mod(i, w);
    lemma_mod_bound(i, w);
    let row = i / w;
    assert(0 <= row < h) by (nonlinear_arith)
        requires
            0 <= i < w * h,
            i == w * row + i % w,
            0 <= i % w < w,
            0 < w,
    ;
    assert(w * row == row * w) by (nonlinear_arith);
}

/// Every grid that a constructor or a change of dimensions accepts is well
/// formed once it holds `width * height` cells.
pub proof fn law_accepted_dimensions_are_well_formed(width: nat, height: nat, cells: Seq<Cell>)
    requires
        dimension_error(width, height) is None,
        cells.len() == width * height,
    ensures
        (Grid { width, height, cells }).wf(),
{
}

/// In a well-formed grid the number of cells is the width times the height,
/// and a generation step, setting cells alive and clearing the grid all keep
/// that number.
pub proof fn law_buffer_length(g: Grid, coords: Seq<(u32, u32)>)
    requires
        g.wf(),
    ensures
        g.cells.len() == g.width * g.height,
        g.step().len() == g.width * g.height,
        g.activate(coords).len() == g.width * g.height,
        Grid::cleared(g.width, g.height).cells.len() == g.width * g.height,
{
}

/// The torus has no edge: on a grid of at least two rows and two columns the
/// neighbours of any cell are the cells one row up or down and one column
/// left or right of it, going round at the borders, and the count of live
/// neighbours is the number of live cells among them.
pub proof fn law_neighbours_go_round(g: Grid, row: int, col: int)
    requires
        g.wf(),
        g.width >= 2,
        g.height >= 2,
        g.contains(row, col),
    ensures
        forall|j: int|
            0 <= j < 8 ==> #[trigger] g.neighbour_places(row, col)[j] == g.index(
                g.neighbour_rows(row)[j],
                g.neighbour_cols(col)[j],
            ),
        forall|j: int|
            0 <= j < 8 ==> g.contains(
                #[trigger] g.neighbour_rows(row)[j],
                g.neighbour_cols(col)[j],
            ),
        g.live_neighbours(row, col) == {
            let r = g.neighbour_rows(row);
            let c = g.neighbour_cols(col);
            live_value(g.cell(r[0], c[0])) + live_value(g.cell(r[1], c[1])) + live_value(
                g.cell(r[2], c[2]),
            ) + live_value(g.cell(r[3], c[3])) + live_value(g.cell(r[4], c[4])) + live_value(
                g.cell(r[5], c[5]),
            ) + live_value(g.cell(r[6], c[6])) + live_value(g.cell(r[7], c[7]))
        },
{
    lemma_ring_steps(row, g.height as int);
    lemma_ring_steps(col, g.width as int);
}

/// On a grid of at least three rows and three columns, the eight neighbour
/// places of a cell lie in the grid, differ from one another, and differ from
/// the place of the cell itself.
pub proof fn law_neighbours_are_eight_other_cells(g: Grid, row: int, col: int)
    requires
        g.wf(),
        g.width >= 3,
        g.height >= 3,
        g.contains(row, col),
    ensures
        g.neighbour_places(row, col).len() == 8,
        g.neighbour_places(row, col).no_duplicates(),
        !g.neighbour_places(row, col).contains(g.index(row, col)),
        forall|j: int|
            0 <= j < 8 ==> 0 <= #[trigger] g.neighbour_places(row, col)[j] < g.cells.len(),
{
    law_neighbours_go_round(g, row, col);
    let p = g.neighbour_places(row, col);
    let rows = g.neighbour_rows(row);
    let cols = g.neighbour_cols(col);
    assert forall|j: int| 0 <= j < 8 implies 0 <= #[trigger] p[j] < g.cells.len() by {
        lemma_index_in_bounds(g, rows[j], cols[j]);
    }
    assert forall|a: int, b: int| 0 <= a < 8 && 0 <= b < 8 && a != b implies p[a] != p[b] by {
        if p[a] == p[b] {
            lemma_index_injective(g, rows[a], cols[a], rows[b], cols[b]);
        }
    }
    assert forall|j: int| 0 <= j < 8 implies p[j] != g.index(row, col) by {
        if p[j] == g.index(row, col) {
            lemma_index_injective(g, rows[j], cols[j], row, col);
        }
    }
}

/// Round the corner: on a grid of `h >= 3` rows and `w >= 3` columns the
/// neighbours of the cell `(0, 0)` are the cells `(h-1, w-1)`, `(h-1, 0)`,
/// `(h-1, 1)`, `(0, w-1)`, `(0, 1)`, `(1, w-1)`, `(1, 0)` and `(1, 1)`: eight
/// different places, none of them the place of `(0, 0)`.
pub proof fn law_corner_neighbours_wrap(g: Grid)
    requires
        g.wf(),
        g.width >= 3,
        g.height >= 3,
    ensures
        g.neighbour_places(0, 0) == seq![
            g.index(g.height - 1, g.width - 1),
            g.index(g.height - 1, 0),
            g.index(g.height - 1, 1),
            g.index(0, g.width - 1),
            g.index(0, 1),
            g.index(1, g.width - 1),
            g.index(1, 0),
            g.index(1, 1),
        ],
        g.neighbour_places(0, 0).no_duplicates(),
        !g.neighbour_places(0, 0).contains(g.index(0, 0)),
{
    law_neighbours_go_round(g, 0, 0);
    law_neighbours_are_eight_other_cells(g, 0, 0);
    let rows = g.neighbour_rows(0);
    let cols = g.neighbour_cols(0);
    let corner = seq![
        g.index(g.height - 1, g.width - 1),
        g.index(g.height - 1, 0),
        g.index(g.height - 1, 1),
        g.index(0, g.width - 1),
        g.index(0, 1),
        g.index(1, g.width - 1),
        g.index(1, 0),
        g.index(1, 1),
    ];
    assert forall|j: int| 0 <= j < 8 implies g.neighbour_places(0, 0)[j] == corner[j] by {
        assert(g.neighbour_places(0, 0)[j] == g.index(rows[j], cols[j]));
    }
    assert(g.neighbour_places(0, 0) =~= corner);
}

/// Conway's rule, case by case: a live cell with fewer than two live
/// neighbours dies, one with two or three lives on, one with more than three
/// dies; a dead cell with exactly three comes alive, and stays dead otherwise.
pub proof fn law_rule_by_cases(n: nat)
    ensures
        n < 2 ==> rule(Cell::Alive, n) == Cell::Dead,
        n == 2 || n == 3 ==> rule(Cell::Alive, n) == Cell::Alive,
        n > 3 ==> rule(Cell::Alive, n) == Cell::Dead,
        n == 3 ==> rule(Cell::Dead, n) == Cell::Alive,
        n != 3 ==> rule(Cell::Dead, n) == Cell::Dead,
{
}

/// What a generation step makes of the cell `(row, col)` of a grid of at
/// least two rows and two columns: Conway's rule on the cell and on the live
/// cells among its neighbours round the torus.
pub proof fn lemma_step_at(g: Grid, row: int, col: int)
    requires
        g.wf(),
        g.width >= 2,
        g.height >= 2,
        g.contains(row, col),
    ensures
        0 <= g.index(row, col) < g.cells.len(),
        g.step()[g.index(row, col)] == rule(g.cell(row, col), g.live_neighbours(row, col)),
{
    lemma_index_in_bounds(g, row, col);
    lemma_index_splits(g, row, col);
}

/// Whether `(row, col)` is one of the four cells of the square block whose
/// upper left cell is `(top, left)`.
pub open spec fn in_block(top: int, left: int, row: int, col: int) -> bool {
    (row == top || row == top + 1) && (col == left || col == left + 1)
}

/// A square block of four live cells, alone on a grid of at least four rows
/// and four columns, is a still life: Conway's rule leaves every cell as it
/// is, so the grid is a fixed point, and a tick finds it frozen.
pub proof fn law_block_is_a_fixed_point(g: Grid, top: int, left: int)
    requires
        g.wf(),
        g.width >= 4,
        g.height >= 4,
        0 <= top,
        top + 1 < g.height,
        0 <= left,
        left + 1 < g.width,
        forall|row: int, col: int|
            g.contains(row, col) ==> (#[trigger] g.cell(row, col) == Cell::Alive <==> in_block(
                top,
                left,
                row,
                col,
            )),
    ensures
        g.stagnant(),
{
    assert forall|i: int| 0 <= i < g.cells.len() implies g.next_cell(i) == g.cells[i] by {
        let row = i / (g.width as int);
        let col = i % (g.width as int);
        lemma_place_splits(g, i);
        law_neighbours_go_round(g, row, col);
        assert(g.cells[i] == g.cell(row, col));
        if in_block(top, left, row, col) {
            assert(g.live_neighbours(row, col) == 3);
        } else {
            assert(g.live_neighbours(row, col) <= 2);
        }
    }
    assert(g.step() =~= g.cells);
}

/// A row of three live cells, alone on a grid of at least four rows and four
/// columns, turns about its middle cell `(row, col)` in one generation: the
/// three cells of column `col` from one row above to one row below are alive
/// then, and no others.
pub proof fn law_blinker_turns(g: Grid, row: int, col: int)
    requires
        g.wf(),
        g.width >= 4,
        g.height >= 4,
        1 <= row,
        row + 1 < g.height,
        1 <= col,
        col + 1 < g.width,
        forall|r: int, c: int|
            g.contains(r, c) ==> (#[trigger] g.cell(r, c) == Cell::Alive <==> (r == row && col - 1
                <= c <= col + 1)),
    ensures
        forall|r: int, c: int|
            g.contains(r, c) ==> (#[trigger] g.step()[g.index(r, c)] == Cell::Alive <==> (c == col
                && row - 1 <= r <= row + 1)),
{
    assert forall|r: int, c: int| g.contains(r, c) implies (#[trigger] g.step()[g.index(r, c)]
        == Cell::Alive <==> (c == col && row - 1 <= r <= row + 1)) by {
        lemma_step_at(g, r, c);
        law_neighbours_go_round(g, r, c);
        if c == col && (r == row - 1 || r == row + 1) {
            assert(g.live_neighbours(r, c) == 3);
        } else if c == col && r == row {
            assert(g.live_neighbours(r, c) == 2);
        } else if r == row && (c == col - 1 || c == col + 1) {
            assert(g.live_neighbours(r, c) == 1);
        } else {
            assert(g.live_neighbours(r, c) <= 2);
        }
    }
}

/// Rendering reads the universe and nothing else: two renderings of one
/// universe, with no change between them, are the same text.
pub proof fn law_render_is_repeatable(universe: Universe, first: String, second: String)
    requires
        first@ == universe@.text(),
        second@ == universe@.text(),
    ensures
        first@ == second@,
{
}

/// Setting the one cell `(2, 3)` alive on a grid of dead cells, wider and
/// higher than three, leaves exactly one live cell, at place `2 * width + 3`.
pub proof fn law_set_cells_is_precise(g: Grid)
    requires
        g.wf(),
        g.width > 3,
        g.height > 3,
        g.cells == all_dead(g.width * g.height),
    ensures
        g.contains_all(seq![(2u32, 3u32)]),
        g.activate(seq![(2u32, 3u32)]) == all_dead(g.width * g.height).update(
            2 * (g.width as int) + 3,
            Cell::Alive,
        ),
        forall|i: int|
            0 <= i < g.cells.len() ==> (#[trigger] g.activate(seq![(2u32, 3u32)])[i] == Cell::Alive
                <==> i == 2 * g.width + 3),
{
    let coords = seq![(2u32, 3u32)];
    let place = 2 * (g.width as int) + 3;
    lemma_index_in_bounds(g, 2, 3);
    assert(coords[0] == (2u32, 3u32));
    assert(g.names_within(coords, 1, place)) by {
        assert(g.index(coords[0].0 as int, coords[0].1 as int) == place);
    }
    assert forall|i: int| 0 <= i < g.cells.len() implies (g.names(coords, i) <==> i == place) by {}
    assert(g.activate(coords) =~= all_dead(g.width * g.height).update(place, Cell::Alive));
}

/// Setting cells alive changes the named cells and no others, whatever the
/// grid held: a named cell is alive afterwards, and any other cell is as it
/// was.
pub proof fn law_set_cells_touches_named_cells_only(g: Grid, coords: Seq<(u32, u32)>, i: int)
    requires
        g.wf(),
        0 <= i < g.cells.len(),
    ensures
        g.names(coords, i) ==> g.activate(coords)[i] == Cell::Alive,
        !g.names(coords, i) ==> g.activate(coords)[i] == g.cells[i],
{
}

/// A change of dimensions discards the cells: whatever the grid held before,
/// the grid that an accepted change leaves is well formed and holds
/// `width * height` cells, all of them dead.
pub proof fn law_resize_resets(previous: Grid, width: nat, height: nat)
    requires
        previous.wf(),
        dimension_error(width, height) is None,
    ensures
        Grid::cleared(width, height).wf(),
        Grid::cleared(width, height).cells.len() == width * height,
        forall|i: int|
            0 <= i < width * height ==> #[trigger] Grid::cleared(width, height).cells[i]
                == Cell::Dead,
{
}

} // verus!
