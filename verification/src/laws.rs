//! What holds of every grid: the shape that a tick keeps, the cells that a
//! toggle leaves alone, the wrap of the neighbourhood around the edges, and
//! the patterns that never change.

use crate::grid::{cell_index, Grid};
use crate::universe::Universe;
use vstd::arithmetic::div_mod::{
    lemma_fundamental_div_mod, lemma_fundamental_div_mod_converse, lemma_mod_bound,
    lemma_multiply_divide_lt,
};
use vstd::prelude::*;

verus! {

/// The successor and the predecessor of a coordinate on a ring of `size`
/// positions: adding 1 steps forward and wraps from the last position to 0,
/// adding `size - 1` steps back and wraps from 0 to the last position.
pub proof fn lemma_wrap(position: int, size: int)
    requires
        0 <= position < size,
    ensures
        (position + 0) % size == position,
        (position + 1) % size == if position + 1 == size { 0 } else { position + 1 },
        (position + (size - 1)) % size == if position == 0 { size - 1 } else { position - 1 },
{
    lemma_fundamental_div_mod_converse(position, size, 0, position);
    if position + 1 == size {
        lemma_fundamental_div_mod_converse(position + 1, size, 1, 0);
    } else {
        lemma_fundamental_div_mod_converse(position + 1, size, 0, position + 1);
    }
    if position == 0 {
        lemma_fundamental_div_mod_converse(position + (size - 1), size, 0, size - 1);
    } else {
        lemma_fundamental_div_mod_converse(position + (size - 1), size, 1, position - 1);
    }
}

/// Row-major indexing is a bijection between the cells of a grid and the
/// positions of its buffer: a cell's index is within the buffer, and
/// dividing an index by the width gives the cell back.
pub proof fn lemma_index_bijection(width: int, height: int)
    requires
        1 <= width,
        1 <= height,
    ensures
        forall|row: int, column: int|
            0 <= row < height && 0 <= column < width ==> {
                let i = #[trigger] cell_index(width, row, column);
                0 <= i < width * height && i / width == row && i % width == column
            },
        forall|i: int|
            #![trigger i / width]
            #![trigger i % width]
            0 <= i < width * height ==> 0 <= i / width < height && 0 <= i % width < width
                && cell_index(width, i / width, i % width) == i,
{
    assert forall|row: int, column: int| 0 <= row < height && 0 <= column < width implies {
        let i = #[trigger] cell_index(width, row, column);
        0 <= i < width * height && i / width == row && i % width == column
    } by {
        assert(0 <= row * width && row * width + width <= width * height) by (nonlinear_arith)
            requires
                0 <= row < height,
                1 <= width,
        ;
        lemma_fundamental_div_mod_converse(cell_index(width, row, column), width, row, column);
    }
    assert forall|i: int|
        #![trigger i / width]
        #![trigger i % width]
        0 <= i < width * height implies 0 <= i / width < height && 0 <= i % width < width
            && cell_index(width, i / width, i % width) == i by {
        lemma_fundamental_div_mod(i, width);
        lemma_mod_bound(i, width);
        lemma_multiply_divide_lt(i, width, height);
        assert(0 <= i / width) by (nonlinear_arith)
            requires
                i == width * (i / width) + (i % width),
                0 <= i,
                i % width < width,
                1 <= width,
        ;
        assert(width * (i / width) == (i / width) * width) by (nonlinear_arith);
    }
}

/// Two well-formed grids of the same dimensions that agree on every cell
/// are the same grid.
pub proof fn lemma_grids_equal(a: Grid, b: Grid)
    requires
        a.wf(),
        b.wf(),
        a.width == b.width,
        a.height == b.height,
        forall|row: int, column: int|
            a.in_bounds(row, column) ==> a.alive(row, column) == b.alive(row, column),
    ensures
        a == b,
{
    lemma_index_bijection(a.width as int, a.height as int);
    assert forall|i: int| 0 <= i < a.cells.len() implies a.cells[i] == b.cells[i] by {
        let row = i / (a.width as int);
        let column = i % (a.width as int);
        assert(a.alive(row, column) == b.alive(row, column));
    }
    assert(a.cells =~= b.cells);
}

/// A tick keeps the dimensions and the number of cells, and decides every
/// cell by the rule from the cell and its eight neighbours in the
/// generation before.
pub proof fn lemma_step_cellwise(grid: Grid)
    requires
        grid.wf(),
    ensures
        grid.step().wf(),
        grid.step().width == grid.width,
        grid.step().height == grid.height,
        grid.step().cells.len() == grid.width * grid.height,
        forall|row: int, column: int|
            grid.in_bounds(row, column) ==> #[trigger] grid.step().alive(row, column)
                == grid.next_alive(row, column),
{
    lemma_index_bijection(grid.width as int, grid.height as int);
    assert forall|row: int, column: int| grid.in_bounds(row, column) implies #[trigger] grid.step().alive(
        row,
        column,
    ) == grid.next_alive(row, column) by {
        let i = cell_index(grid.width as int, row, column);
        assert(0 <= i < grid.width * grid.height);
    }
}

/// Any number of ticks keeps the dimensions and the number of cells.
pub proof fn lemma_step_n_keeps_shape(grid: Grid, times: nat)
    requires
        grid.wf(),
    ensures
        grid.step_n(times).wf(),
        grid.step_n(times).width == grid.width,
        grid.step_n(times).height == grid.height,
    decreases times,
{
    if times > 0 {
        lemma_step_n_keeps_shape(grid, (times - 1) as nat);
        lemma_step_cellwise(grid.step_n((times - 1) as nat));
    }
}

/// A tick is a function of the generation it starts from: two universes that
/// show the same generation show the same generation after one tick, and
/// after any number of ticks, whatever their scratch buffers held and
/// whichever of their buffers was current.
pub proof fn lemma_tick_deterministic(first: Universe, second: Universe, times: nat)
    requires
        first.wf(),
        second.wf(),
        first@ == second@,
    ensures
        first@.step() == second@.step(),
        first@.step_n(times) == second@.step_n(times),
{
}

/// Toggling a cell inverts that cell and leaves every other cell as it was;
/// toggling it again gives the grid back.
pub proof fn lemma_toggle_round_trip(grid: Grid, row: int, column: int)
    requires
        grid.wf(),
        grid.in_bounds(row, column),
    ensures
        grid.toggled(row, column).wf(),
        grid.toggled(row, column).alive(row, column) == !grid.alive(row, column),
        forall|r: int, c: int|
            grid.in_bounds(r, c) && (r != row || c != column) ==> #[trigger] grid.toggled(
                row,
                column,
            ).alive(r, c) == grid.alive(r, c),
        grid.toggled(row, column).toggled(row, column) == grid,
{
    lemma_index_bijection(grid.width as int, grid.height as int);
    let once = grid.toggled(row, column);
    let i = cell_index(grid.width as int, row, column);
    assert(0 <= i < grid.cells.len());
    assert forall|r: int, c: int| grid.in_bounds(r, c) && (r != row || c != column) implies #[trigger] once.alive(
        r,
        c,
    ) == grid.alive(r, c) by {
        let j = cell_index(grid.width as int, r, c);
        assert(j / (grid.width as int) == r && j % (grid.width as int) == c);
        assert(i / (grid.width as int) == row && i % (grid.width as int) == column);
    }
    assert(once.toggled(row, column).cells =~= grid.cells);
}

/// The row above `row` on the torus.
pub open spec fn north(grid: Grid, row: int) -> int {
    if row == 0 {
        grid.height - 1
    } else {
        row - 1
    }
}

/// The row below `row` on the torus.
pub open spec fn south(grid: Grid, row: int) -> int {
    if row + 1 == grid.height {
        0
    } else {
        row + 1
    }
}

/// The column left of `column` on the torus.
pub open spec fn west(grid: Grid, column: int) -> int {
    if column == 0 {
        grid.width - 1
    } else {
        column - 1
    }
}

/// The column right of `column` on the torus.
pub open spec fn east(grid: Grid, column: int) -> int {
    if column + 1 == grid.width {
        0
    } else {
        column + 1
    }
}

/// 1 for a live cell, 0 for a dead one.
pub open spec fn flag(grid: Grid, row: int, column: int) -> int {
    if grid.alive(row, column) {
        1
    } else {
        0
    }
}

/// The neighbourhood without the modulo: the eight neighbours of a cell are
/// the cells of the rows above, at and below it, in the columns left of, at
/// and right of it, the cell itself left out, where the first row lies below
/// the last one and the first column right of the last one.
pub proof fn lemma_neighbourhood(grid: Grid, row: int, column: int)
    requires
        grid.wf(),
        grid.in_bounds(row, column),
    ensures
        0 <= north(grid, row) < grid.height,
        0 <= south(grid, row) < grid.height,
        0 <= west(grid, column) < grid.width,
        0 <= east(grid, column) < grid.width,
        grid.live_neighbours(row, column) == flag(grid, north(grid, row), west(grid, column)) + flag(
            grid,
            north(grid, row),
            column,
        ) + flag(grid, north(grid, row), east(grid, column)) + flag(grid, row, west(grid, column))
            + flag(grid, row, east(grid, column)) + flag(grid, south(grid, row), west(grid, column))
            + flag(grid, south(grid, row), column) + flag(grid, south(grid, row), east(grid, column)),
{
    reveal(Grid::live_neighbours);
    lemma_wrap(row, grid.height as int);
    lemma_wrap(column, grid.width as int);
}

/// A grid with no live cell has none after a tick either, nor after any
/// number of ticks: a birth needs three live neighbours.
pub proof fn lemma_dead_stays_dead(grid: Grid, times: nat)
    requires
        grid.wf(),
        grid.all_dead(),
    ensures
        grid.step().all_dead(),
        grid.step() == grid,
        grid.step_n(times) == grid,
    decreases times,
{
    lemma_step_cellwise(grid);
    lemma_all_dead_reads_dead(grid);
    assert forall|row: int, column: int| grid.in_bounds(row, column) implies grid.step().alive(
        row,
        column,
    ) == grid.alive(row, column) by {
        lemma_neighbourhood(grid, row, column);
    }
    lemma_grids_equal(grid.step(), grid);
    if times > 0 {
        lemma_dead_stays_dead(grid, (times - 1) as nat);
    }
}

/// Whether `(row, column)` is one of the four cells of the 2x2 block whose
/// upper left cell is `(top, left)`; a block that starts in the last row or
/// column goes on in the first.
pub open spec fn in_block(grid: Grid, top: int, left: int, row: int, column: int) -> bool {
    (row == top || row == south(grid, top)) && (column == left || column == east(grid, left))
}

/// On a grid on which exactly the cells of a 2x2 block live, the rule leaves
/// the cell at `(row, column)` as it is.
proof fn lemma_block_cell_is_still(grid: Grid, top: int, left: int, row: int, column: int)
    requires
        grid.wf(),
        grid.width >= 3,
        grid.height >= 3,
        grid.in_bounds(top, left),
        grid.in_bounds(row, column),
        forall|r: int, c: int|
            grid.in_bounds(r, c) ==> #[trigger] grid.alive(r, c) == in_block(grid, top, left, r, c),
    ensures
        grid.next_alive(row, column) == grid.alive(row, column),
{
    lemma_neighbourhood(grid, row, column);
    let above = north(grid, row);
    let below = south(grid, row);
    let before = west(grid, column);
    let after = east(grid, column);
    assert(grid.alive(above, before) == in_block(grid, top, left, above, before));
    assert(grid.alive(above, column) == in_block(grid, top, left, above, column));
    assert(grid.alive(above, after) == in_block(grid, top, left, above, after));
    assert(grid.alive(row, before) == in_block(grid, top, left, row, before));
    assert(grid.alive(row, column) == in_block(grid, top, left, row, column));
    assert(grid.alive(row, after) == in_block(grid, top, left, row, after));
    assert(grid.alive(below, before) == in_block(grid, top, left, below, before));
    assert(grid.alive(below, column) == in_block(grid, top, left, below, column));
    assert(grid.alive(below, after) == in_block(grid, top, left, below, after));
}

/// The block is a still life: on a grid at least three cells wide and high,
/// on which exactly the four cells of a 2x2 block are alive, a tick changes
/// nothing. (Two cells wide or high, the grid lets the block touch itself
/// around the edge, and it dies of overcrowding.)
pub proof fn lemma_block_is_still(grid: Grid, top: int, left: int)
    requires
        grid.wf(),
        grid.width >= 3,
        grid.height >= 3,
        grid.in_bounds(top, left),
        forall|row: int, column: int|
            grid.in_bounds(row, column) ==> #[trigger] grid.alive(row, column) == in_block(
                grid,
                top,
                left,
                row,
                column,
            ),
    ensures
        grid.step() == grid,
{
    lemma_step_cellwise(grid);
    assert forall|row: int, column: int| grid.in_bounds(row, column) implies grid.step().alive(
        row,
        column,
    ) == grid.alive(row, column) by {
        lemma_block_cell_is_still(grid, top, left, row, column);
    }
    lemma_grids_equal(grid.step(), grid);
}

/// The neighbourhood wraps around both edges: a live cell at `(0, 0)` is
/// counted as a neighbour by the cells in the last, first and second row
/// that lie in the last, first and second column, the corner cell itself
/// left out.
pub proof fn lemma_corner_cell_wraps(grid: Grid)
    requires
        grid.wf(),
        grid.width >= 2,
        grid.height >= 2,
        grid.alive(0, 0),
    ensures
        grid.live_neighbours(grid.height - 1, grid.width - 1) >= 1,
        grid.live_neighbours(grid.height - 1, 0) >= 1,
        grid.live_neighbours(grid.height - 1, 1) >= 1,
        grid.live_neighbours(0, grid.width - 1) >= 1,
        grid.live_neighbours(0, 1) >= 1,
        grid.live_neighbours(1, grid.width - 1) >= 1,
        grid.live_neighbours(1, 0) >= 1,
        grid.live_neighbours(1, 1) >= 1,
{
    let last_row = grid.height - 1;
    let last_column = grid.width - 1;
    lemma_neighbourhood(grid, last_row, last_column);
    lemma_neighbourhood(grid, last_row, 0);
    lemma_neighbourhood(grid, last_row, 1);
    lemma_neighbourhood(grid, 0, last_column);
    lemma_neighbourhood(grid, 0, 1);
    lemma_neighbourhood(grid, 1, last_column);
    lemma_neighbourhood(grid, 1, 0);
    lemma_neighbourhood(grid, 1, 1);
}

/// Whether `(row, column)` is one of the eight cells around `(0, 0)` on the
/// torus.
pub open spec fn around_corner(grid: Grid, row: int, column: int) -> bool {
    &&& row == grid.height - 1 || row == 0 || row == 1
    &&& column == grid.width - 1 || column == 0 || column == 1
    &&& !(row == 0 && column == 0)
}

/// On a grid at least three cells wide and high whose only live cell is
/// `(0, 0)`, the eight cells around the corner count one live neighbour each
/// and every other cell counts none.
pub proof fn lemma_lone_corner_cell(grid: Grid)
    requires
        grid.wf(),
        grid.width >= 3,
        grid.height >= 3,
        forall|row: int, column: int|
            grid.in_bounds(row, column) ==> #[trigger] grid.alive(row, column) == (row == 0 && column
                == 0),
    ensures
        forall|row: int, column: int|
            grid.in_bounds(row, column) ==> #[trigger] grid.live_neighbours(row, column) == if around_corner(
                grid,
                row,
                column,
            ) {
                1int
            } else {
                0int
            },
{
    assert forall|row: int, column: int| grid.in_bounds(row, column) implies #[trigger] grid.live_neighbours(
        row,
        column,
    ) == if around_corner(grid, row, column) {
        1int
    } else {
        0int
    } by {
        lemma_neighbourhood(grid, row, column);
    }
}

/// On a grid with no live cell every coordinate reads dead.
pub proof fn lemma_all_dead_reads_dead(grid: Grid)
    requires
        grid.wf(),
        grid.all_dead(),
    ensures
        forall|row: int, column: int| grid.in_bounds(row, column) ==> !#[trigger] grid.alive(row, column),
{
    lemma_index_bijection(grid.width as int, grid.height as int);
    assert forall|row: int, column: int| grid.in_bounds(row, column) implies !#[trigger] grid.alive(
        row,
        column,
    ) by {
        let i = cell_index(grid.width as int, row, column);
        assert(0 <= i < grid.cells.len());
    }
}

} // verus!
