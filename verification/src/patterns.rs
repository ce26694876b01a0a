//! Lists of cell indices to start a grid from: a fixed stripe pattern, a
//! random fill, and a small spaceship at the centre.

use crate::grid::{cell_index, listed};
use crate::random::coin_flip;
use crate::universe::Universe;
use vstd::prelude::*;

verus! {

/// Every entry of `cells` is smaller than the one after it.
pub open spec fn ascending(cells: Seq<usize>) -> bool {
    forall|j: int, k: int| 0 <= j < k < cells.len() ==> cells[j] < cells[k]
}

/// The five cells of the spaceship on a grid of the given size, as linear
/// indices: with `(y, x)` the centre `(height / 2, width / 2)`, they are
/// `(y, x)`, `(y, x + 1)`, `(y + 1, x - 1)`, `(y + 1, x)` and
/// `(y - 1, x - 1)`, in this order.
pub open spec fn spaceship(width: int, height: int) -> Seq<usize> {
    let x = width / 2;
    let y = height / 2;
    seq![
        cell_index(width, y, x) as usize,
        cell_index(width, y, x + 1) as usize,
        cell_index(width, y + 1, x - 1) as usize,
        cell_index(width, y + 1, x) as usize,
        cell_index(width, y - 1, x - 1) as usize,
    ]
}

/// Whether the stripe pattern holds index `i`: the even ones and the
/// multiples of seven.
pub open spec fn in_default_pattern(i: int) -> bool {
    i % 2 == 0 || i % 7 == 0
}

/// Appending `value` to a list adds exactly `value` to what it lists.
pub proof fn lemma_listed_push(cells: Seq<usize>, value: usize)
    ensures
        forall|i: int| listed(cells.push(value), i) <==> listed(cells, i) || i == value,
{
    let longer = cells.push(value);
    assert forall|i: int| listed(longer, i) <==> listed(cells, i) || i == value by {
        if listed(cells, i) {
            let k = choose|k: int| 0 <= k < cells.len() && cells[k] == i;
            assert(longer[k] == i);
        }
        if i == value {
            assert(longer[cells.len() as int] == i);
        }
        if listed(longer, i) {
            let k = choose|k: int| 0 <= k < longer.len() && longer[k] == i;
            if k < cells.len() {
                assert(cells[k] == i);
            }
        }
    }
}

/// On a grid at least two cells wide and three high, with at most `u32::MAX`
/// cells, every cell of the spaceship lies within the grid.
pub proof fn lemma_spaceship_fits(width: int, height: int)
    requires
        2 <= width,
        3 <= height,
        width * height <= u32::MAX,
    ensures
        cell_index(width, height / 2 + 1, width / 2) < width * height,
        forall|k: int| 0 <= k < 5 ==> 0 <= #[trigger] spaceship(width, height)[k] < width * height,
{
    let x = width / 2;
    let y = height / 2;
    assert((y + 2) * width <= width * height && (y - 1) * width >= 0 && (y + 2) * width == (y + 1)
        * width + width && (y + 1) * width == y * width + width && y * width == (y - 1) * width
        + width) by (nonlinear_arith)
        requires
            1 <= y,
            y + 2 <= height,
            width >= 2,
    ;
}

/// The positions at which `flags` holds `true`, in ascending order.
pub fn alive_indices(flags: &[bool]) -> (cells: Vec<usize>)
    ensures
        ascending(cells@),
        forall|i: int| listed(cells@, i) <==> 0 <= i < flags@.len() && flags@[i],
{
    let mut cells: Vec<usize> = Vec::new();
    for i in 0..flags.len()
        invariant
            ascending(cells@),
            forall|k: int| 0 <= k < cells@.len() ==> cells@[k] < i,
            forall|x: int| listed(cells@, x) <==> 0 <= x < i && flags@[x],
    {
        if flags[i] {
            proof {
                lemma_listed_push(cells@, i);
            }
            cells.push(i);
        }
    }
    cells
}

impl Universe {
    /// The stripe pattern on a grid of the given size: the indices below
    /// `width * height` that are even or a multiple of seven, ascending.
    pub fn build_universe_default(width: u32, height: u32) -> (cells: Vec<usize>)
        requires
            width * height <= usize::MAX,
        ensures
            ascending(cells@),
            forall|i: int| listed(cells@, i) <==> 0 <= i < width * height && in_default_pattern(i),
    {
        let count = Self::cell_count(width, height);
        let mut cells: Vec<usize> = Vec::new();
        for i in 0..count
            invariant
                ascending(cells@),
                forall|k: int| 0 <= k < cells@.len() ==> cells@[k] < i,
                forall|x: int| listed(cells@, x) <==> 0 <= x < i && in_default_pattern(x),
        {
            if i % 2 == 0 || i % 7 == 0 {
                proof {
                    lemma_listed_push(cells@, i);
                }
                cells.push(i);
            }
        }
        cells
    }

    /// A random fill of a grid of the given size: each index below
    /// `width * height` is listed or not by a coin flip of the thread's
    /// random generator. Whatever the flips, the list is ascending and stays
    /// below `width * height`.
    pub fn build_universe_random(width: u32, height: u32) -> (cells: Vec<usize>)
        requires
            width * height <= usize::MAX,
        ensures
            ascending(cells@),
            forall|i: int| listed(cells@, i) ==> 0 <= i < width * height,
    {
        let count = Self::cell_count(width, height);
        let mut rng = rand::thread_rng();
        let mut flags: Vec<bool> = Vec::new();
        for i in 0..count
            invariant
                flags@.len() == i,
        {
            flags.push(coin_flip(&mut rng));
        }
        alive_indices(flags.as_slice())
    }

    /// The spaceship at the centre of a grid of the given size, as the list
    /// [`spaceship`]. The grid must be at least two cells wide and high, so
    /// that the centre has a column to its left and a row above it, and the
    /// largest of the five indices, that of the cell below the centre, must
    /// fit in a `usize`.
    pub fn build_universe_spaceship(width: u32, height: u32) -> (cells: [usize; 5])
        requires
            width >= 2,
            height >= 2,
            cell_index(width as int, height / 2 + 1, (width / 2) as int) <= usize::MAX,
        ensures
            cells@ == spaceship(width as int, height as int),
    {
        let x = width / 2;
        let y = height / 2;
        assert(0 <= (y - 1) * width && (y - 1) * width + width == y * width && y * width + width == (y
            + 1) * width) by (nonlinear_arith)
            requires
                1 <= y,
                0 <= width,
        ;
        [
            Universe::index(width, y, x),
            Universe::index(width, y, x + 1),
            Universe::index(width, y + 1, x - 1),
            Universe::index(width, y + 1, x),
            Universe::index(width, y - 1, x - 1),
        ]
    }
}

} // verus!
