//! The mathematical model of the grid: dimensions and one `bool` per cell,
//! with the toroidal neighbourhood and the transition rule as spec functions.

use vstd::prelude::*;

verus! {

/// The linear position of cell `(row, column)` in a row-major grid of the
/// given width.
pub open spec fn cell_index(width: int, row: int, column: int) -> int {
    row * width + column
}

/// Conway's rule for one cell: a live cell survives with two or three live
/// neighbours, a dead cell comes alive with exactly three.
pub open spec fn next_state(alive: bool, live_neighbours: int) -> bool {
    if alive {
        live_neighbours == 2 || live_neighbours == 3
    } else {
        live_neighbours == 3
    }
}

/// Whether `index` occurs in the list `alive`.
pub open spec fn listed(alive: Seq<usize>, index: int) -> bool {
    exists|k: int| 0 <= k < alive.len() && #[trigger] alive[k] == index
}

/// One generation of the grid: `cells[cell_index(width, row, column)]` tells
/// whether the cell at `(row, column)` is alive.
pub struct Grid {
    pub width: nat,
    pub height: nat,
    pub cells: Seq<bool>,
}

impl Grid {
    /// The grid of the given dimensions in which exactly the cells whose
    /// linear indices are listed in `alive` live.
    pub open spec fn with_cells(width: nat, height: nat, alive: Seq<usize>) -> Grid {
        Grid { width, height, cells: Seq::new(width * height, |i: int| listed(alive, i)) }
    }

    /// Both dimensions are positive and there is one entry per cell.
    pub open spec fn wf(self) -> bool {
        &&& self.width >= 1
        &&& self.height >= 1
        &&& self.cells.len() == self.width * self.height
    }

    /// `(row, column)` names a cell of this grid.
    pub open spec fn in_bounds(self, row: int, column: int) -> bool {
        0 <= row < self.height && 0 <= column < self.width
    }

    /// Whether the cell at `(row, column)` is alive.
    pub open spec fn alive(self, row: int, column: int) -> bool {
        self.cells[cell_index(self.width as int, row, column)]
    }

    /// 1 if the cell `(row + delta_row) mod height`, `(column + delta_column)
    /// mod width` is alive, else 0.
    pub open spec fn neighbour(self, row: int, column: int, delta_row: int, delta_column: int) -> int {
        if self.alive((row + delta_row) % (self.height as int), (column + delta_column) % (self.width as int)) {
            1
        } else {
            0
        }
    }

    /// The number of live cells among the eight Moore neighbours of
    /// `(row, column)`, wrapping around both axes. The offsets are
    /// `height - 1`, `0`, `1` for rows and `width - 1`, `0`, `1` for columns,
    /// all but the pair `(0, 0)`; on a grid narrower or shorter than three
    /// cells several of them name the same cell, which is then counted once
    /// per offset.
    ///
    /// The definition is opaque, so that proofs about whole grids are not
    /// flooded with remainders: they take the neighbourhood from
    /// `lemma_neighbourhood`, or `reveal` it.
    #[verifier::opaque]
    pub open spec fn live_neighbours(self, row: int, column: int) -> int {
        let up = self.height - 1;
        let left = self.width - 1;
        self.neighbour(row, column, up, left) + self.neighbour(row, column, up, 0)
            + self.neighbour(row, column, up, 1) + self.neighbour(row, column, 0, left)
            + self.neighbour(row, column, 0, 1) + self.neighbour(row, column, 1, left)
            + self.neighbour(row, column, 1, 0) + self.neighbour(row, column, 1, 1)
    }

    /// The state of cell `(row, column)` in the next generation.
    pub open spec fn next_alive(self, row: int, column: int) -> bool {
        next_state(self.alive(row, column), self.live_neighbours(row, column))
    }

    /// The next generation: every cell decided from this generation alone.
    pub open spec fn step(self) -> Grid {
        Grid {
            width: self.width,
            height: self.height,
            cells: Seq::new(
                self.width * self.height,
                |i: int| self.next_alive(i / (self.width as int), i % (self.width as int)),
            ),
        }
    }

    /// The grid after `times` generations.
    pub open spec fn step_n(self, times: nat) -> Grid
        decreases times,
    {
        if times == 0 {
            self
        } else {
            self.step_n((times - 1) as nat).step()
        }
    }

    /// This grid with the cell at `(row, column)` inverted.
    pub open spec fn toggled(self, row: int, column: int) -> Grid {
        let i = cell_index(self.width as int, row, column);
        Grid { width: self.width, height: self.height, cells: self.cells.update(i, !self.cells[i]) }
    }

    /// No cell is alive.
    pub open spec fn all_dead(self) -> bool {
        forall|i: int| 0 <= i < self.cells.len() ==> !#[trigger] self.cells[i]
    }
}

} // verus!
