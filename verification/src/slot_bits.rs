//! Growable bit-vectors (the `bitvec` crate's), used to track which slots
//! of an allocator are taken.
use vstd::prelude::*;
use bitvec::order::Lsb0;
use bitvec::vec::BitVec;

verus! {

/// A growable vector of bits, recording which slots of an allocator are in
/// use, held in the `bitvec` crate's `BitVec`.
#[verifier::external_body]
pub struct SlotBits {
    bits: BitVec<usize, Lsb0>,
}

/// The bits a bit-vector holds, in index order.
pub uninterp spec fn bitvec_bits(v: SlotBits) -> Seq<bool>;

/// The longest a bit-vector can grow: `BitVec::push` panics past
/// `usize::MAX >> 3` bits.
pub open spec fn bitvec_max_len() -> int {
    usize::MAX as int / 8
}

/// Calls `BitVec::new`: the result holds no bits.
#[verifier::external_body]
pub(crate) fn bitvec_new() -> (r: SlotBits)
    ensures
        bitvec_bits(r) == Seq::<bool>::empty(),
{
    SlotBits { bits: BitVec::new() }
}

/// Calls `BitVec::len`: the number of bits held.
#[verifier::external_body]
pub(crate) fn bitvec_len(v: &SlotBits) -> (r: usize)
    ensures
        r == bitvec_bits(*v).len(),
{
    v.bits.len()
}

/// Reads bit `i` by indexing (which panics out of bounds).
#[verifier::external_body]
pub(crate) fn bitvec_get(v: &SlotBits, i: usize) -> (r: bool)
    requires
        i < bitvec_bits(*v).len(),
    ensures
        r == bitvec_bits(*v)[i as int],
{
    v.bits[i]
}

/// Calls `BitVec::push`, which appends the bit (and panics once the length
/// exceeds `usize::MAX >> 3`).
#[verifier::external_body]
pub(crate) fn bitvec_push(v: &mut SlotBits, b: bool)
    requires
        bitvec_bits(*old(v)).len() + 1 <= bitvec_max_len(),
    ensures
        bitvec_bits(*final(v)) == bitvec_bits(*old(v)).push(b),
{
    v.bits.push(b)
}

/// Calls `BitSlice::set`, which overwrites bit `i` (and panics out of
/// bounds).
#[verifier::external_body]
pub(crate) fn bitvec_set(v: &mut SlotBits, i: usize, b: bool)
    requires
        i < bitvec_bits(*old(v)).len(),
    ensures
        bitvec_bits(*final(v)) == bitvec_bits(*old(v)).update(i as int, b),
{
    v.bits.set(i, b)
}

/// Calls `BitSlice::first_one`: the index of the first set bit, if any.
#[verifier::external_body]
pub(crate) fn bitvec_first_one(v: &SlotBits) -> (r: Option<usize>)
    ensures
        match r {
            Some(i) => i < bitvec_bits(*v).len() && bitvec_bits(*v)[i as int] && forall|j: int|
                0 <= j < i ==> !bitvec_bits(*v)[j],
            None => forall|j: int| 0 <= j < bitvec_bits(*v).len() ==> !bitvec_bits(*v)[j],
        },
{
    v.bits.first_one()
}

} // verus!
