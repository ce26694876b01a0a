//! The grid engine: two bit buffers, a flag that says which one is current,
//! and the tick that fills the other one and swaps their roles.

use crate::bitset::{bits, block_bit};
use crate::cell::Cell;
use crate::error::UniverseError;
use crate::grid::{cell_index, listed, Grid};
use fixedbitset::FixedBitSet;
use vstd::arithmetic::div_mod::lemma_fundamental_div_mod_converse;
use vstd::prelude::*;

verus! {

/// Which of the two buffers holds the current generation.
#[derive(Clone, Copy, Debug)]
enum Active {
    First,
    Second,
}

/// A toroidal Game of Life grid of fixed size.
///
/// The current generation lives in one of two bit buffers of `width * height`
/// bits each; a tick writes the next generation into the other buffer and
/// then swaps their roles, so no buffer is copied or reallocated.
#[derive(Debug)]
pub struct Universe {
    width: u32,
    height: u32,
    first: FixedBitSet,
    second: FixedBitSet,
    active: Active,
}

impl View for Universe {
    type V = Grid;

    /// The current generation.
    closed spec fn view(&self) -> Grid {
        Grid {
            width: self.width as nat,
            height: self.height as nat,
            cells: match self.active {
                Active::First => bits(&self.first),
                Active::Second => bits(&self.second),
            },
        }
    }
}

impl Universe {
    /// The invariant of the engine: positive dimensions, at most `u32::MAX`
    /// cells, and two buffers of one bit per cell.
    pub closed spec fn wf(&self) -> bool {
        &&& self.width >= 1
        &&& self.height >= 1
        &&& self.width * self.height <= u32::MAX
        &&& bits(&self.first).len() == self.width * self.height
        &&& bits(&self.second).len() == self.width * self.height
    }

    /// The contents of the buffer that the next tick will write to.
    pub closed spec fn scratch(&self) -> Seq<bool> {
        match self.active {
            Active::First => bits(&self.second),
            Active::Second => bits(&self.first),
        }
    }

    /// 0 or 1: which buffer holds the current generation.
    pub closed spec fn spec_active_index(&self) -> usize {
        match self.active {
            Active::First => 0,
            Active::Second => 1,
        }
    }

    /// 0 or 1: which buffer holds the current generation.
    #[verifier::when_used_as_spec(spec_active_index)]
    pub fn active_index(&self) -> (index: usize)
        ensures
            index == self.active_index(),
            index == 0 || index == 1,
    {
        match self.active {
            Active::First => 0,
            Active::Second => 1,
        }
    }

    /// What the invariant says of the current generation and of the scratch
    /// buffer.
    pub proof fn lemma_wf(&self)
        requires
            self.wf(),
        ensures
            self@.wf(),
            self@.width * self@.height <= u32::MAX,
            self.scratch().len() == self@.cells.len(),
            self.active_index() == 0 || self.active_index() == 1,
    {
    }

    /// The offset of cell `(row, column)` in a buffer of the given width:
    /// `row * width + column`. It depends on the width alone, not on the
    /// height of any grid, and must fit in a `usize`.
    pub fn index(width: u32, row: u32, column: u32) -> (i: usize)
        requires
            cell_index(width as int, row as int, column as int) <= usize::MAX,
        ensures
            i == cell_index(width as int, row as int, column as int),
    {
        assert(row * width >= 0 && row * width <= row * width + column) by (nonlinear_arith)
            requires
                row >= 0,
                width >= 0,
                column >= 0,
        ;
        row as usize * width as usize + column as usize
    }

    fn get_index(&self, row: u32, column: u32) -> (i: usize)
        requires
            self.wf(),
            self@.in_bounds(row as int, column as int),
        ensures
            i == cell_index(self@.width as int, row as int, column as int),
            i < self@.cells.len(),
    {
        assert(row * self.width + column < self.width * self.height) by (nonlinear_arith)
            requires
                0 <= row < self.height,
                0 <= column < self.width,
        ;
        Universe::index(self.width, row, column)
    }

    /// Reads bit `i` of the current generation.
    fn is_set(&self, i: usize) -> (on: bool)
        requires
            self.wf(),
            i < self@.cells.len(),
        ensures
            on == self@.cells[i as int],
    {
        match self.active {
            Active::First => self.first.contains(i),
            Active::Second => self.second.contains(i),
        }
    }

    /// Writes bit `i` of the scratch buffer.
    fn set_scratch(&mut self, i: usize, on: bool)
        requires
            old(self).wf(),
            i < old(self)@.cells.len(),
        ensures
            final(self).wf(),
            final(self)@ == old(self)@,
            final(self).active_index() == old(self).active_index(),
            final(self).scratch() == old(self).scratch().update(i as int, on),
    {
        match self.active {
            Active::First => self.second.set(i, on),
            Active::Second => self.first.set(i, on),
        }
    }

    /// 1 if the neighbour of `(row, column)` at the given offsets, wrapped
    /// around both axes, is alive, else 0.
    fn neighbour(&self, row: u32, column: u32, delta_row: u32, delta_column: u32) -> (n: u8)
        requires
            self.wf(),
            self@.in_bounds(row as int, column as int),
        ensures
            n == self@.neighbour(row as int, column as int, delta_row as int, delta_column as int),
    {
        let neighbour_row = ((row as u64 + delta_row as u64) % (self.height as u64)) as u32;
        let neighbour_column = ((column as u64 + delta_column as u64) % (self.width as u64)) as u32;
        let i = self.get_index(neighbour_row, neighbour_column);
        if self.is_set(i) {
            1
        } else {
            0
        }
    }

    /// Counts the live cells among the eight neighbours of `(row, column)`
    /// on the torus.
    fn live_neighbour_count(&self, row: u32, column: u32) -> (count: u8)
        requires
            self.wf(),
            self@.in_bounds(row as int, column as int),
        ensures
            count == self@.live_neighbours(row as int, column as int),
    {
        proof {
            reveal(Grid::live_neighbours);
        }
        let up = self.height - 1;
        let left = self.width - 1;
        let mut count: u8 = 0;
        count += self.neighbour(row, column, up, left);
        count += self.neighbour(row, column, up, 0);
        count += self.neighbour(row, column, up, 1);
        count += self.neighbour(row, column, 0, left);
        count += self.neighbour(row, column, 0, 1);
        count += self.neighbour(row, column, 1, left);
        count += self.neighbour(row, column, 1, 0);
        count += self.neighbour(row, column, 1, 1);
        count
    }

    /// Whether the cell at `(row, column)` of the current generation is
    /// alive.
    pub(crate) fn is_alive(&self, row: u32, column: u32) -> (alive: bool)
        requires
            self.wf(),
            self@.in_bounds(row as int, column as int),
        ensures
            alive == self@.alive(row as int, column as int),
    {
        let i = self.get_index(row, column);
        self.is_set(i)
    }

    /// Reads the cell at `(row, column)` of the current generation. A
    /// coordinate outside the grid is refused.
    pub fn cell_at(&self, row: u32, column: u32) -> (cell: Result<Cell, UniverseError>)
        requires
            self.wf(),
        ensures
            self@.in_bounds(row as int, column as int) ==> (cell matches Ok(c) && c.is_alive()
                == self@.alive(row as int, column as int)),
            !self@.in_bounds(row as int, column as int) ==> cell == Err::<Cell, UniverseError>(
                UniverseError::OutOfRange,
            ),
    {
        if row >= self.height || column >= self.width {
            return Err(UniverseError::OutOfRange);
        }
        Ok(Cell::from_flag(self.is_alive(row, column)))
    }

    /// The buffer that holds the current generation.
    pub(crate) fn active_buffer(&self) -> (buffer: &FixedBitSet)
        ensures
            bits(buffer) == self@.cells,
    {
        match self.active {
            Active::First => &self.first,
            Active::Second => &self.second,
        }
    }

    /// The number of columns.
    pub fn width(&self) -> (width: u32)
        ensures
            width == self@.width,
    {
        self.width
    }

    /// The number of rows.
    pub fn height(&self) -> (height: u32)
        ensures
            height == self@.height,
    {
        self.height
    }

    /// Advances the grid by one generation.
    ///
    /// Every cell of the next generation is decided from the current one and
    /// written to the scratch buffer; then the two buffers swap roles, so the
    /// generation that was current is what the scratch buffer holds
    /// afterwards. The dimensions stay as they are, and a grid without a
    /// live cell stays without one.
    pub fn tick(&mut self)
        requires
            old(self).wf(),
        ensures
            final(self).wf(),
            final(self)@ == old(self)@.step(),
            final(self)@.width == old(self)@.width,
            final(self)@.height == old(self)@.height,
            final(self)@.cells.len() == old(self)@.width * old(self)@.height,
            final(self).scratch() == old(self)@.cells,
            final(self).active_index() == 1 - old(self).active_index(),
            old(self)@.all_dead() ==> final(self)@.all_dead(),
    {
        let width = self.width;
        let height = self.height;
        let ghost before = self@;
        assert(0 * width == 0) by (nonlinear_arith);
        for row in 0..height
            invariant
                self.wf(),
                self@ == before,
                before.width == width,
                before.height == height,
                self.active_index() == old(self).active_index(),
                forall|i: int|
                    0 <= i < row * width ==> self.scratch()[i] == #[trigger] before.next_alive(
                        i / (width as int),
                        i % (width as int),
                    ),
        {
            for column in 0..width
                invariant
                    self.wf(),
                    self@ == before,
                    before.width == width,
                    before.height == height,
                    row < height,
                    self.active_index() == old(self).active_index(),
                    forall|i: int|
                        0 <= i < row * width + column ==> self.scratch()[i]
                            == #[trigger] before.next_alive(i / (width as int), i % (width as int)),
            {
                let i = self.get_index(row, column);
                let cell = Cell::from_flag(self.is_set(i));
                let live_neighbours = self.live_neighbour_count(row, column);
                let next_cell = cell.evolve(live_neighbours);
                proof {
                    lemma_fundamental_div_mod_converse(i as int, width as int, row as int, column as int);
                }
                self.set_scratch(i, next_cell.as_flag());
            }
            assert(row * width + width == (row + 1) * width) by (nonlinear_arith);
        }
        proof {
            self.lemma_wf();
            assert(height * width == width * height) by (nonlinear_arith);
            assert(self.scratch() =~= before.step().cells);
            if before.all_dead() {
                crate::laws::lemma_dead_stays_dead(before, 1);
            }
        }
        self.active = match self.active {
            Active::First => Active::Second,
            Active::Second => Active::First,
        };
    }

    /// Advances the grid by `times` generations, one tick after the other.
    pub fn tick_n(&mut self, times: u32)
        requires
            old(self).wf(),
        ensures
            final(self).wf(),
            final(self)@ == old(self)@.step_n(times as nat),
            final(self).active_index() == (old(self).active_index() + times) % 2,
            times == 0 ==> final(self).scratch() == old(self).scratch(),
            times >= 1 ==> final(self).scratch() == old(self)@.step_n((times - 1) as nat).cells,
    {
        for done in 0..times
            invariant
                self.wf(),
                self@ == old(self)@.step_n(done as nat),
                self.active_index() == (old(self).active_index() + done) % 2,
                done == 0 ==> self.scratch() == old(self).scratch(),
                done >= 1 ==> self.scratch() == old(self)@.step_n((done - 1) as nat).cells,
        {
            self.tick();
        }
    }

    /// Inverts the cell at `(row, column)` of the current generation. A
    /// coordinate outside the grid is refused and changes nothing. The
    /// scratch buffer is never touched.
    pub fn toggle_cell(&mut self, row: u32, column: u32) -> (done: Result<(), UniverseError>)
        requires
            old(self).wf(),
        ensures
            final(self).wf(),
            final(self).scratch() == old(self).scratch(),
            final(self).active_index() == old(self).active_index(),
            old(self)@.in_bounds(row as int, column as int) ==> done is Ok && final(self)@ == old(
                self,
            )@.toggled(row as int, column as int),
            !old(self)@.in_bounds(row as int, column as int) ==> done == Err::<(), UniverseError>(
                UniverseError::OutOfRange,
            ) && final(self)@ == old(self)@,
    {
        if row >= self.height || column >= self.width {
            return Err(UniverseError::OutOfRange);
        }
        let i = self.get_index(row, column);
        match self.active {
            Active::First => self.first.toggle(i),
            Active::Second => self.second.toggle(i),
        }
        Ok(())
    }

    /// The error, if any, for which a grid of the given dimensions is not
    /// built.
    pub open spec fn dimension_error(width: u32, height: u32) -> Option<UniverseError> {
        if width == 0 || height == 0 {
            Some(UniverseError::ZeroDimension)
        } else if width * height > u32::MAX {
            Some(UniverseError::TooLarge)
        } else {
            None
        }
    }

    /// The error, if any, for which a grid of the given dimensions with the
    /// listed cells alive is not built: the dimensions come first, then the
    /// indices, each of which must be below `width * height`.
    pub open spec fn construction_error(width: u32, height: u32, alive: Seq<usize>) -> Option<
        UniverseError,
    > {
        if Self::dimension_error(width, height) is Some {
            Self::dimension_error(width, height)
        } else if exists|k: int| 0 <= k < alive.len() && #[trigger] alive[k] >= width * height {
            Some(UniverseError::OutOfRange)
        } else {
            None
        }
    }

    /// A freshly built grid: the first buffer is current and the scratch
    /// buffer is all clear.
    pub open spec fn is_fresh(&self) -> bool {
        &&& self.wf()
        &&& self.active_index() == 0
        &&& self.scratch() == Seq::new(self@.width * self@.height, |i: int| false)
    }

    /// `width * height` as a `usize`.
    pub(crate) fn cell_count(width: u32, height: u32) -> (count: usize)
        requires
            width * height <= usize::MAX,
        ensures
            count == width * height,
    {
        width as usize * height as usize
    }

    fn check_dimensions(width: u32, height: u32) -> (checked: Result<(), UniverseError>)
        ensures
            match Self::dimension_error(width, height) {
                Some(error) => checked == Err::<(), UniverseError>(error),
                None => checked is Ok,
            },
    {
        assert(width * height <= 0xFFFF_FFFF * 0xFFFF_FFFF) by (nonlinear_arith)
            requires
                0 <= width <= 0xFFFF_FFFF,
                0 <= height <= 0xFFFF_FFFF,
        ;
        if width == 0 || height == 0 {
            Err(UniverseError::ZeroDimension)
        } else if width as u64 * height as u64 > u32::MAX as u64 {
            Err(UniverseError::TooLarge)
        } else {
            Ok(())
        }
    }

    /// Builds a grid of `width` columns and `height` rows in which exactly
    /// the cells whose linear indices are in `cells_to_set` are alive.
    ///
    /// A zero dimension, more than `u32::MAX` cells, or an index that is not
    /// below `width * height` is refused.
    pub fn new_with_cells(width: u32, height: u32, cells_to_set: &[usize]) -> (built: Result<
        Universe,
        UniverseError,
    >)
        ensures
            match Self::construction_error(width, height, cells_to_set@) {
                Some(error) => built matches Err(e) && e == error,
                None => built matches Ok(universe) && universe.is_fresh() && universe@
                    == Grid::with_cells(width as nat, height as nat, cells_to_set@),
            },
    {
        if let Err(error) = Self::check_dimensions(width, height) {
            return Err(error);
        }
        let count = Self::cell_count(width, height);
        let mut first = FixedBitSet::with_capacity(count);
        let second = FixedBitSet::with_capacity(count);
        for k in 0..cells_to_set.len()
            invariant
                Self::dimension_error(width, height) is None,
                count == width * height,
                forall|j: int| 0 <= j < k ==> cells_to_set@[j] < count,
                bits(&first) == Seq::new(count as nat, |i: int| listed(cells_to_set@.take(k as int), i)),
                bits(&second) == Seq::new(count as nat, |i: int| false),
        {
            let i = cells_to_set[k];
            if i >= count {
                assert(cells_to_set@[k as int] >= width * height);
                return Err(UniverseError::OutOfRange);
            }
            let ghost before = cells_to_set@.take(k as int);
            let ghost after = cells_to_set@.take(k + 1);
            let ghost marked = bits(&first);
            first.set(i, true);
            proof {
                assert(after == before.push(i));
                crate::patterns::lemma_listed_push(before, i);
                assert forall|x: int| 0 <= x < count implies bits(&first)[x] == listed(after, x) by {
                    assert(marked[x] == listed(before, x));
                }
            }
        }
        assert(cells_to_set@.take(cells_to_set@.len() as int) == cells_to_set@);
        Ok(Universe { width, height, first, second, active: Active::First })
    }

    /// The error, if any, for which the demonstration grid of [`Universe::new`]
    /// is not built: besides the dimensions themselves, the spaceship needs
    /// two columns and three rows to lie within the grid.
    pub open spec fn demonstration_error(width: u32, height: u32) -> Option<UniverseError> {
        if Self::dimension_error(width, height) is Some {
            Self::dimension_error(width, height)
        } else if width < 2 || height < 3 {
            Some(UniverseError::OutOfRange)
        } else {
            None
        }
    }

    /// Builds the demonstration grid: all dead but for the spaceship at the
    /// centre.
    pub fn new(width: u32, height: u32) -> (built: Result<Universe, UniverseError>)
        ensures
            match Self::demonstration_error(width, height) {
                Some(error) => built matches Err(e) && e == error,
                None => built matches Ok(universe) && universe.is_fresh() && universe@
                    == Grid::with_cells(
                    width as nat,
                    height as nat,
                    crate::patterns::spaceship(width as int, height as int),
                ),
            },
    {
        if let Err(error) = Self::check_dimensions(width, height) {
            return Err(error);
        }
        if width < 2 || height < 3 {
            return Err(UniverseError::OutOfRange);
        }
        proof {
            crate::patterns::lemma_spaceship_fits(width as int, height as int);
        }
        let cells = Universe::build_universe_spaceship(width, height);
        Universe::new_with_cells(width, height, cells.as_slice())
    }

    /// Builds a grid in which each cell is alive or dead by a coin flip.
    /// Only the dimensions decide whether it is built.
    pub fn new_random(width: u32, height: u32) -> (built: Result<Universe, UniverseError>)
        ensures
            match Self::dimension_error(width, height) {
                Some(error) => built matches Err(e) && e == error,
                None => built matches Ok(universe) && universe.is_fresh() && universe@.width
                    == width && universe@.height == height,
            },
    {
        if let Err(error) = Self::check_dimensions(width, height) {
            return Err(error);
        }
        let cells = Universe::build_universe_random(width, height);
        assert forall|k: int| 0 <= k < cells@.len() implies cells@[k] < width * height by {
            assert(listed(cells@, cells@[k] as int));
        }
        Universe::new_with_cells(width, height, cells.as_slice())
    }

    /// Replaces the grid by a random one of the same dimensions.
    pub fn randomize(&mut self)
        requires
            old(self).wf(),
        ensures
            final(self).is_fresh(),
            final(self)@.width == old(self)@.width,
            final(self)@.height == old(self)@.height,
    {
        let cells = Universe::build_universe_random(self.width, self.height);
        assert forall|k: int| 0 <= k < cells@.len() implies cells@[k] < self.width * self.height by {
            assert(listed(cells@, cells@[k] as int));
        }
        if let Ok(universe) = Universe::new_with_cells(self.width, self.height, cells.as_slice()) {
            *self = universe;
        }
    }

    /// Replaces the grid by an all-dead one of the same dimensions.
    pub fn reset(&mut self)
        requires
            old(self).wf(),
        ensures
            final(self).is_fresh(),
            final(self)@.width == old(self)@.width,
            final(self)@.height == old(self)@.height,
            final(self)@ == Grid::with_cells(old(self)@.width, old(self)@.height, Seq::empty()),
            final(self)@.all_dead(),
    {
        let none: [usize; 0] = [];
        assert(none@ =~= Seq::<usize>::empty());
        if let Ok(universe) = Universe::new_with_cells(self.width, self.height, none.as_slice()) {
            *self = universe;
        }
    }

    /// The current generation as the bit set stores it, borrowed: 32 cells
    /// per block, the cell with linear index `i` at bit `i % 32` of block
    /// `i / 32`. The view is only good until the grid is next changed.
    pub fn cells(&self) -> (blocks: &[u32])
        requires
            self.wf(),
        ensures
            blocks@.len() == (self@.cells.len() + 31) / 32,
            forall|i: int|
                0 <= i < self@.cells.len() ==> #[trigger] self@.cells[i] == block_bit(
                    blocks@[i / 32],
                    (i % 32) as u32,
                ),
    {
        match self.active {
            Active::First => self.first.as_slice(),
            Active::Second => self.second.as_slice(),
        }
    }
}

} // verus!
