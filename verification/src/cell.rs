//! The state of one cell and the rule that decides its next state.

use crate::grid::next_state;
use vstd::prelude::*;

verus! {

/// A cell is either dead or alive.
#[derive(Clone, Copy, Debug, PartialEq, Eq)]
pub enum Cell {
    Dead,
    Alive,
}

impl Cell {
    /// Whether this is `Cell::Alive`.
    pub open spec fn is_alive(self) -> bool {
        self is Alive
    }

    /// The bit that stores this cell: `true` for a live one.
    pub fn as_flag(&self) -> (flag: bool)
        ensures
            flag == self.is_alive(),
    {
        match self {
            Cell::Dead => false,
            Cell::Alive => true,
        }
    }

    /// The cell that a stored bit stands for.
    pub fn from_flag(flag: bool) -> (cell: Cell)
        ensures
            cell.is_alive() == flag,
    {
        match flag {
            false => Cell::Dead,
            true => Cell::Alive,
        }
    }

    /// The state of this cell in the next generation, given how many of its
    /// eight neighbours are alive now.
    pub fn evolve(self, live_neighbours: u8) -> (next: Cell)
        ensures
            next.is_alive() == next_state(self.is_alive(), live_neighbours as int),
    {
        match (self, live_neighbours) {
            (Cell::Alive, x) if x < 2 => Cell::Dead,
            (Cell::Alive, 2) | (Cell::Alive, 3) => Cell::Alive,
            (Cell::Alive, x) if x > 3 => Cell::Dead,
            (Cell::Dead, 3) => Cell::Alive,
            (otherwise, _) => otherwise,
        }
    }
}

} // verus!
