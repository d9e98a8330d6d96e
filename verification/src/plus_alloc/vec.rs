//! A growable vector whose storage is an array in the heap.

use vstd::prelude::*;

use crate::plus::array::Array;
use crate::plus_alloc::zero_or_init::ZeroOrInit;

verus! {

/// Whether `x` is a power of two.
pub open spec fn is_pow2(x: nat) -> bool
    decreases x,
{
    if x == 1 {
        true
    } else if x < 2 || x % 2 != 0 {
        false
    } else {
        is_pow2(x / 2)
    }
}

/// The smallest power of two that is at least `n`.
pub open spec fn is_next_pow2(r: nat, n: nat) -> bool {
    &&& is_pow2(r)
    &&& r >= n
    &&& (r == 1 || r / 2 < n)
}

/// The smallest power of two that is at least `n`; `n` itself when it is
/// one.
pub fn next_power_of_two(n: usize) -> (r: usize)
    requires
        n <= usize::MAX / 2 + 1,
    ensures
        is_next_pow2(r as nat, n as nat),
{
    let mut p: usize = 1;
    while p < n
        invariant
            p >= 1,
            is_pow2(p as nat),
            p == 1 || p / 2 < n,
            n <= usize::MAX / 2 + 1,
        decreases usize::MAX - p,
    {
        assert(is_pow2((p * 2) as nat / 2));
        p = p * 2;
    }
    p
}

/// A larger power of two is at least twice a smaller one.
proof fn lemma_pow2_gap(p: nat, c: nat)
    requires
        is_pow2(p),
        is_pow2(c),
        p > c,
    ensures
        p >= 2 * c,
    decreases c,
{
    if c != 1 {
        lemma_pow2_gap(p / 2, c / 2);
    }
}

/// The smallest power of two that is at least `n` is at most any power of
/// two that is at least `n`.
proof fn lemma_next_pow2_at_most(p: nat, n: nat, c: nat)
    requires
        is_next_pow2(p, n),
        is_pow2(c),
        c >= n,
    ensures
        p <= c,
{
    if p > c {
        lemma_pow2_gap(p, c);
    }
}

/// Whether `alloc_array` behaves as the heap's array allocation: for any
/// length it may fail, and otherwise gives an array of that many zeroed
/// elements.
pub open spec fn allocates_zeroed<T, F: Fn(usize) -> Option<Array<ZeroOrInit<T>>>>(
    alloc_array: F,
) -> bool {
    &&& forall|n: usize| #[trigger] alloc_array.requires((n,))
    &&& forall|n: usize, r: Option<Array<ZeroOrInit<T>>>|
        #[trigger] alloc_array.ensures((n,), r) && r is Some ==> {
            &&& r->0.wf()
            &&& r->0.items().len() == n
            &&& forall|i: int| 0 <= i < n ==> (#[trigger] r->0.items()[i]).value() is None
        }
}

/// A vector of `T` in the heap: `len` initialized elements at the front of
/// a backing array, which is allocated on first use and replaced by one
/// twice as large, or more, when full.
pub struct Vec<T> {
    backing: Option<Array<ZeroOrInit<T>>>,
    len: usize,
}

impl<T> View for Vec<T> {
    type V = Seq<T>;

    closed spec fn view(&self) -> Seq<T> {
        Seq::new(self.len as nat, |i: int| self.backing->0.items()[i].value()->0)
    }
}

impl<T> Vec<T> {
    /// Number of elements the backing array holds, `0` when there is none.
    pub closed spec fn cap(self) -> nat {
        match self.backing {
            Some(a) => a.items().len(),
            None => 0,
        }
    }

    /// Whether a backing array has been allocated.
    pub closed spec fn has_backing(self) -> bool {
        self.backing is Some
    }

    pub closed spec fn wf(self) -> bool {
        &&& self.backing is None ==> self.len == 0
        &&& self.backing matches Some(a) ==> {
            &&& a.wf()
            &&& is_pow2(a.items().len())
            &&& self.len <= a.items().len()
            &&& forall|i: int| 0 <= i < self.len ==> (#[trigger] a.items()[i]).value() is Some
        }
    }

    pub fn new() -> (r: Self)
        ensures
            r.wf(),
            r@.len() == 0,
            !r.has_backing(),
    {
        Vec { backing: None, len: 0 }
    }

    /// Number of elements the backing array holds; there must be one.
    pub fn capacity(&self) -> (r: usize)
        requires
            self.wf(),
            self.has_backing(),
        ensures
            r == self.cap(),
    {
        self.backing.as_ref().unwrap().len()
    }

    /// Makes room for `min_capacity` elements: with no backing array, one
    /// of `min_capacity` rounded up to a power of two; with a smaller one, a
    /// new array of that size, into which the old array's elements move,
    /// with a safepoint (`safepoint`) every 512 elements so that a long
    /// copy does not hold the collector back. `Err` when an allocation
    /// fails, leaving the vector as it was.
    fn ensure_capacity<F: Fn(usize) -> Option<Array<ZeroOrInit<T>>>, P: Fn()>(
        &mut self,
        alloc_array: F,
        safepoint: &P,
        min_capacity: usize,
    ) -> (r: Result<(), ()>)
        requires
            old(self).wf(),
            allocates_zeroed(alloc_array),
            safepoint.requires(()),
            min_capacity <= usize::MAX / 2 + 1,
        ensures
            final(self).wf(),
            final(self)@ == old(self)@,
            r is Ok ==> final(self).has_backing() && final(self).cap() >= min_capacity,
            old(self).has_backing() && min_capacity <= old(self).cap() ==> r is Ok && *final(self)
                == *old(self),
            r is Ok && !(old(self).has_backing() && min_capacity <= old(self).cap()) ==> is_next_pow2(
                final(self).cap(),
                min_capacity as nat,
            ),
            r is Ok && !(old(self).has_backing() && min_capacity <= old(self).cap()) ==> exists|
                a: Array<ZeroOrInit<T>>,
            | #[trigger] alloc_array.ensures((final(self).cap() as usize,), Some(a)),
            r is Err ==> *final(self) == *old(self),
            r is Err ==> exists|n: usize| #[trigger] alloc_array.ensures((n,), None),
    {
        let ghost requested = min_capacity;
        let min_capacity = next_power_of_two(min_capacity);
        let ghost mut first: Option<Array<ZeroOrInit<T>>> = None;
        if self.backing.is_none() {
            match alloc_array(min_capacity) {
                Some(a) => {
                    assert(alloc_array.ensures((min_capacity,), Some(a)));
                    proof {
                        first = Some(a);
                    }
                    self.backing = Some(a);
                    assert(self@ =~= old(self)@);
                },
                None => return Err(()),
            }
        }
        let cap = self.backing.as_ref().unwrap().len();
        proof {
            if old(self).has_backing() && requested <= cap {
                lemma_next_pow2_at_most(min_capacity as nat, requested as nat, cap as nat);
            }
        }
        if min_capacity > cap {
            let mut allocated = match alloc_array(min_capacity) {
                Some(a) => a,
                None => return Err(()),
            };
            let ghost fresh = allocated;
            assert(alloc_array.ensures((min_capacity,), Some(fresh)));
            let mut old_backing = self.backing.take().unwrap();
            let ghost old_items = old_backing.items();
            let mut i: usize = 0;
            while i < cap
                invariant
                    old_backing.wf(),
                    allocated.wf(),
                    cap == old_backing.items().len(),
                    old_items.len() == cap,
                    allocated.items().len() == min_capacity,
                    cap < min_capacity,
                    i <= cap,
                    forall|k: int|
                        0 <= k < i ==> (#[trigger] allocated.items()[k]).value()
                            == old_items[k].value(),
                    forall|k: int|
                        i <= k < cap ==> #[trigger] old_backing.items()[k] == old_items[k],
                    safepoint.requires(()),
                decreases cap - i,
            {
                let item = old_backing.replace(i, ZeroOrInit::zeroed());
                allocated.set(i, item);
                if i % 512 == 0 {
                    safepoint();
                }
                i = i + 1;
            }
            self.backing = Some(allocated);
            proof {
                assert(self@ =~= old(self)@);
                assert(alloc_array.ensures((self.cap() as usize,), Some(fresh)));
            }
        } else {
            proof {
                if !old(self).has_backing() {
                    assert(self.backing == first);
                    assert(alloc_array.ensures((self.cap() as usize,), Some(first->0)));
                }
            }
        }
        Ok(())
    }

    /// Appends `data`, growing the backing array when full, with a
    /// safepoint every 512 elements moved. `Err` when an allocation fails,
    /// leaving the vector as it was.
    pub fn insert<F: Fn(usize) -> Option<Array<ZeroOrInit<T>>>, P: Fn()>(
        &mut self,
        alloc_array: F,
        safepoint: &P,
        data: T,
    ) -> (r: Result<(), ()>)
        requires
            old(self).wf(),
            allocates_zeroed(alloc_array),
            safepoint.requires(()),
            old(self)@.len() + 1 <= usize::MAX / 2 + 1,
        ensures
            final(self).wf(),
            r is Ok ==> final(self)@ == old(self)@.push(data),
            r is Ok ==> final(self).has_backing() && final(self).cap() >= old(self)@.len() + 1
                && is_pow2(final(self).cap()),
            old(self).has_backing() && old(self)@.len() < old(self).cap() ==> r is Ok
                && final(self).cap() == old(self).cap(),
            r is Ok && !(old(self).has_backing() && old(self)@.len() < old(self).cap()) ==> exists|
                a: Array<ZeroOrInit<T>>,
            | #[trigger] alloc_array.ensures((final(self).cap() as usize,), Some(a)),
            r is Err ==> *final(self) == *old(self),
            r is Err ==> exists|n: usize| #[trigger] alloc_array.ensures((n,), None),
    {
        match self.ensure_capacity(alloc_array, safepoint, self.len + 1) {
            Ok(()) => {},
            Err(()) => return Err(()),
        }
        let mut backing = self.backing.take().unwrap();
        backing.set(self.len, ZeroOrInit::new(data));
        self.backing = Some(backing);
        self.len = self.len + 1;
        proof {
            assert(self@ =~= old(self)@.push(data));
        }
        Ok(())
    }

    /// Element `i`.
    pub fn get(&self, i: usize) -> (r: &T)
        requires
            self.wf(),
            i < self@.len(),
        ensures
            *r == self@[i as int],
    {
        self.backing.as_ref().unwrap().get(i).assume_init_ref()
    }

    pub fn len(&self) -> (r: usize)
        ensures
            r == self@.len(),
    {
        self.len
    }
}

} // verus!
