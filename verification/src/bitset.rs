//! Trusted boundary around `fixedbitset::FixedBitSet`, the packed bit store
//! that holds the grid's cells. The set is opaque to the verifier; its
//! contents are named by the uninterpreted function `bits_of`, and each
//! method the engine calls is wrapped in a function whose contract states,
//! over `bits_of`, what the crate's source shows.

use vstd::prelude::*;

verus! {

#[verifier::external_type_specification]
#[verifier::external_body]
pub struct ExFixedBitSet(fixedbitset::FixedBitSet);

/// The contents of a `FixedBitSet`: one boolean per bit position, in order,
/// with length equal to the set's length in bits.
pub uninterp spec fn bits_of(b: fixedbitset::FixedBitSet) -> Seq<bool>;

/// Relies on `FixedBitSet::with_capacity`: a set of `bits` bits, all
/// initially clear.
#[verifier::external_body]
pub(crate) fn bits_new(bits: usize) -> (r: fixedbitset::FixedBitSet)
    ensures
        bits_of(r).len() == bits,
        forall|i: int| 0 <= i < bits ==> !bits_of(r)[i],
{
    fixedbitset::FixedBitSet::with_capacity(bits)
}

/// Relies on `FixedBitSet::contains`: the bit's value, with bits outside
/// the set's length always reading as clear.
#[verifier::external_body]
pub(crate) fn bits_get(b: &fixedbitset::FixedBitSet, i: usize) -> (r: bool)
    ensures
        r == (i < bits_of(*b).len() && bits_of(*b)[i as int]),
{
    b.contains(i)
}

/// Relies on `FixedBitSet::set`: writes one bit in place. The bound on `i`
/// keeps clear of the out-of-bounds panic in the source.
#[verifier::external_body]
pub(crate) fn bits_set(b: &mut fixedbitset::FixedBitSet, i: usize, value: bool)
    requires
        i < bits_of(*old(b)).len(),
    ensures
        bits_of(*final(b)) == bits_of(*old(b)).update(i as int, value),
{
    b.set(i, value)
}

/// Relies on `FixedBitSet::toggle`: inverts one bit in place. The bound on
/// `i` keeps clear of the out-of-bounds panic in the source.
#[verifier::external_body]
pub(crate) fn bits_toggle(b: &mut fixedbitset::FixedBitSet, i: usize)
    requires
        i < bits_of(*old(b)).len(),
    ensures
        bits_of(*final(b)) == bits_of(*old(b)).update(i as int, !bits_of(*old(b))[i as int]),
{
    b.toggle(i)
}

/// Relies on `FixedBitSet::clear`: clears every bit, keeping the length.
#[verifier::external_body]
pub(crate) fn bits_clear(b: &mut fixedbitset::FixedBitSet)
    ensures
        bits_of(*final(b)).len() == bits_of(*old(b)).len(),
        forall|i: int| 0 <= i < bits_of(*final(b)).len() ==> !bits_of(*final(b))[i],
{
    b.clear()
}

/// Relies on `<FixedBitSet as Clone>::clone`: an independent copy with the
/// same length and the same bits.
#[verifier::external_body]
pub(crate) fn bits_clone(b: &fixedbitset::FixedBitSet) -> (r: fixedbitset::FixedBitSet)
    ensures
        bits_of(r) == bits_of(*b),
{
    b.clone()
}

} // verus!
