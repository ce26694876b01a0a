//! The trusted boundary around `fixedbitset::FixedBitSet`.
//!
//! Nothing in this file is proved: each contract restates what the
//! `fixedbitset` source does, over the abstract contents [`bits`].

use fixedbitset::FixedBitSet;
use vstd::prelude::*;

verus! {

/// `fixedbitset::FixedBitSet`, carried as an opaque value.
#[verifier::external_type_specification]
#[verifier::external_body]
pub struct ExFixedBitSet(fixedbitset::FixedBitSet);

/// The contents of a bit set: one `bool` per bit, in index order. Its length
/// is the set's length in bits (`FixedBitSet::len`).
pub uninterp spec fn bits(set: &FixedBitSet) -> Seq<bool>;

/// Whether bit `position` of a 32-bit block is set.
pub open spec fn block_bit(block: u32, position: u32) -> bool {
    block & (1u32 << position) != 0
}

/// `FixedBitSet::with_capacity`: a set of `n` bits, all clear.
pub assume_specification[ FixedBitSet::with_capacity ](n: usize) -> (set: FixedBitSet)
    ensures
        bits(&set) == Seq::new(n as nat, |i: int| false),
;

/// `FixedBitSet::len`: the number of bits, set or not.
pub assume_specification[ FixedBitSet::len ](set: &FixedBitSet) -> (n: usize)
    ensures
        n == bits(set).len(),
;

/// `FixedBitSet::contains`: the value of bit `bit` where `bit` is within the
/// set's length. Nothing is claimed of a `bit` past the end.
pub assume_specification[ FixedBitSet::contains ](set: &FixedBitSet, bit: usize) -> (on: bool)
    ensures
        bit < bits(set).len() ==> on == bits(set)[bit as int],
;

/// `FixedBitSet::set`: writes `enabled` to bit `bit` and leaves every other
/// bit and the length as they were. It panics when `bit` is out of bounds.
pub assume_specification[ FixedBitSet::set ](set: &mut FixedBitSet, bit: usize, enabled: bool)
    requires
        bit < bits(old(set)).len(),
    ensures
        bits(final(set)) == bits(old(set)).update(bit as int, enabled),
;

/// `FixedBitSet::toggle`: inverts bit `bit` and leaves every other bit and
/// the length as they were. It panics when `bit` is out of bounds.
pub assume_specification[ FixedBitSet::toggle ](set: &mut FixedBitSet, bit: usize)
    requires
        bit < bits(old(set)).len(),
    ensures
        bits(final(set)) == bits(old(set)).update(bit as int, !bits(old(set))[bit as int]),
;

/// `FixedBitSet::as_slice`: the storage itself, borrowed. The set keeps its
/// bits in 32-bit blocks, bit `i` at position `i % 32` of block `i / 32`,
/// with as many blocks as the length needs.
pub assume_specification[ FixedBitSet::as_slice ](set: &FixedBitSet) -> (blocks: &[u32])
    ensures
        blocks@.len() == (bits(set).len() + 31) / 32,
        forall|i: int|
            0 <= i < bits(set).len() ==> #[trigger] bits(set)[i] == block_bit(
                blocks@[i / 32],
                (i % 32) as u32,
            ),
;

} // verus!
