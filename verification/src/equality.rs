//! `==` on universes: two universes are equal when they show the same
//! generation, whatever their scratch buffers hold and whichever buffer is
//! current.

use crate::bitset::bits;
use crate::universe::Universe;
use vstd::prelude::*;
use vstd::std_specs::cmp::PartialEqSpecImpl;

verus! {

impl Universe {
    /// Whether `self` and `other` have the same dimensions and the same
    /// cells alive.
    pub fn same_generation(&self, other: &Universe) -> (same: bool)
        ensures
            same == (self@ == other@),
    {
        if self.width() != other.width() || self.height() != other.height() {
            return false;
        }
        let mine = self.active_buffer();
        let theirs = other.active_buffer();
        let count = mine.len();
        if count != theirs.len() {
            return false;
        }
        for i in 0..count
            invariant
                bits(mine) == self@.cells,
                bits(theirs) == other@.cells,
                count == bits(mine).len(),
                count == bits(theirs).len(),
                forall|j: int| 0 <= j < i ==> bits(mine)[j] == bits(theirs)[j],
        {
            if mine.contains(i) != theirs.contains(i) {
                return false;
            }
        }
        assert(bits(mine) =~= bits(theirs));
        true
    }
}

impl PartialEq for Universe {
    fn eq(&self, other: &Universe) -> (equal: bool) {
        self.same_generation(other)
    }
}

impl PartialEqSpecImpl for Universe {
    open spec fn obeys_eq_spec() -> bool {
        true
    }

    open spec fn eq_spec(&self, other: &Universe) -> bool {
        self@ == other@
    }
}

} // verus!
