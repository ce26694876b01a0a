//! Why the engine turns an input down.

use vstd::prelude::*;

verus! {

/// The reasons for which a grid is not built or a cell is not touched.
#[derive(Clone, Copy, Debug, PartialEq, Eq)]
pub enum UniverseError {
    /// The width or the height is zero.
    ZeroDimension,
    /// The grid would hold more than `u32::MAX` cells.
    TooLarge,
    /// A coordinate or a cell index lies outside the grid.
    OutOfRange,
}

} // verus!
