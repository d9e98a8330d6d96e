//! The bit vector of used root slots, held in `bitvec`'s `BitVec`.

use bitvec::vec::BitVec;
use vstd::prelude::*;

verus! {

/// A `bitvec::vec::BitVec` of the default store and order, held so that
/// verified code can pass it around; what it holds is `bitvec_bits`.
#[verifier::external_body]
pub struct Bits {
    bits: BitVec,
}

/// The bits a bit vector holds, in order.
pub uninterp spec fn bitvec_bits(v: Bits) -> Seq<bool>;

/// Largest number of bits a bit vector can hold.
pub open spec fn bitvec_max_bits() -> nat {
    (usize::MAX as nat) / 8
}

/// `BitVec::new`: an empty bit vector.
#[verifier::external_body]
pub(crate) fn bitvec_new() -> (r: Bits)
    ensures
        bitvec_bits(r) == Seq::<bool>::empty(),
{
    Bits { bits: BitVec::new() }
}

/// `BitVec::len`: the number of bits.
#[verifier::external_body]
pub(crate) fn bitvec_len(v: &Bits) -> (r: usize)
    ensures
        r == bitvec_bits(*v).len(),
{
    v.bits.len()
}

/// `BitVec::push`: appends a bit; it panics when the vector would grow past
/// its largest length, `usize::MAX >> 3` bits.
#[verifier::external_body]
pub(crate) fn bitvec_push(v: &mut Bits, value: bool)
    requires
        bitvec_bits(*old(v)).len() + 1 <= bitvec_max_bits(),
    ensures
        bitvec_bits(*final(v)) == bitvec_bits(*old(v)).push(value),
{
    v.bits.push(value)
}

/// `BitSlice::set`: writes one bit; it panics when the index is out of
/// bounds.
#[verifier::external_body]
pub(crate) fn bitvec_set(v: &mut Bits, index: usize, value: bool)
    requires
        index < bitvec_bits(*old(v)).len(),
    ensures
        bitvec_bits(*final(v)) == bitvec_bits(*old(v)).update(index as int, value),
{
    v.bits.set(index, value)
}

/// `BitSlice::first_zero`: the index of the first cleared bit, or `None`
/// when every bit is set.
#[verifier::external_body]
pub(crate) fn bitvec_first_zero(v: &Bits) -> (r: Option<usize>)
    ensures
        r is None <==> forall|i: int| 0 <= i < bitvec_bits(*v).len() ==> #[trigger] bitvec_bits(*v)[i],
        r matches Some(i) ==> {
            &&& i < bitvec_bits(*v).len()
            &&& !bitvec_bits(*v)[i as int]
            &&& forall|j: int| 0 <= j < i ==> #[trigger] bitvec_bits(*v)[j]
        },
{
    v.bits.first_zero()
}

} // verus!
