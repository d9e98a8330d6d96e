use std::marker::PhantomData;

use vstd::prelude::*;

use crate::bitmap::MemOrder;

verus! {

/// The two pointers packed into one double-width word: the first in the
/// low half, the second in the high half.
pub open spec fn pack_spec(a: usize, b: usize) -> u128 {
    (a as u128) | ((b as u128) << usize::BITS)
}

/// The two pointers read back from a double-width word: the low half and
/// the high half.
pub open spec fn unpack_spec(d: u128) -> (usize, usize) {
    (d as usize, (d >> usize::BITS) as usize)
}

/// Like an atomic pointer, but holding two pointers that are exchanged
/// together, as addresses.
pub struct AtomicDoublePtr<T1, T2> {
    double_ptr: u128,
    phantom: PhantomData<(T1, T2)>,
}

impl<T1, T2> AtomicDoublePtr<T1, T2> {
    /// The pair held, as `load` reads it.
    pub closed spec fn pair(self) -> (usize, usize) {
        unpack_spec(self.double_ptr)
    }

    pub fn new(ptrs: (usize, usize)) -> (r: Self)
        ensures
            r.pair() == ptrs,
    {
        proof {
            lemma_unpack_pack(ptrs.0, ptrs.1);
        }
        AtomicDoublePtr { double_ptr: Self::pack_pointers(ptrs), phantom: PhantomData }
    }

    fn pack_pointers(ptrs: (usize, usize)) -> (r: u128)
        ensures
            r == pack_spec(ptrs.0, ptrs.1),
    {
        let a = ptrs.0 as u128;
        let b = ptrs.1 as u128;
        a | (b << usize::BITS)
    }

    fn unpack_pointers(dptr: u128) -> (r: (usize, usize))
        ensures
            r == unpack_spec(dptr),
    {
        let a = dptr as usize;
        let b = (dptr >> usize::BITS) as usize;
        (a, b)
    }

    pub fn store(&mut self, ptrs: (usize, usize), ordering: MemOrder)
        ensures
            final(self).pair() == ptrs,
    {
        proof {
            lemma_unpack_pack(ptrs.0, ptrs.1);
        }
        self.double_ptr = Self::pack_pointers(ptrs);
    }

    /// The pair held. `ptrs` is not used.
    pub fn load(&self, ptrs: (usize, usize), ordering: MemOrder) -> (r: (usize, usize))
        ensures
            r == self.pair(),
    {
        Self::unpack_pointers(self.double_ptr)
    }

    /// Stores `ptrs` and returns the pair held before.
    pub fn swap(&mut self, ptrs: (usize, usize), ordering: MemOrder) -> (r: (usize, usize))
        ensures
            r == old(self).pair(),
            final(self).pair() == ptrs,
    {
        proof {
            lemma_unpack_pack(ptrs.0, ptrs.1);
        }
        let old = self.double_ptr;
        self.double_ptr = Self::pack_pointers(ptrs);
        Self::unpack_pointers(old)
    }
}

/// Packing two pointers and reading them back gives the same two pointers.
pub proof fn lemma_unpack_pack(a: usize, b: usize)
    ensures
        unpack_spec(pack_spec(a, b)) == (a, b),
{
    let d = pack_spec(a, b);
    assert(d as usize == a && (d >> usize::BITS) as usize == b) by (bit_vector)
        requires
            d == (a as u128) | ((b as u128) << usize::BITS),
    ;
}

} // verus!
