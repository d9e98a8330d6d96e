//! A bitmap stored in machine words.

use vstd::prelude::*;

verus! {

/// Memory orders that bitmap operations are requested with. The bitmap here
/// is updated through exclusive references, so the order does not change
/// what an operation does; it is kept so that callers state the order they
/// need.
#[derive(Clone, Copy, PartialEq, Eq, Structural)]
pub enum MemOrder {
    Relaxed,
    Release,
    Acquire,
    AcqRel,
    SeqCst,
}

/// The fetch and store orders that a read-modify-write in `order` is made
/// of, as `make_fetch_store_order` gives them.
pub open spec fn fetch_store_order(order: MemOrder) -> (MemOrder, MemOrder) {
    match order {
        MemOrder::Acquire => (MemOrder::Acquire, MemOrder::Relaxed),
        MemOrder::Release => (MemOrder::Relaxed, MemOrder::Release),
        MemOrder::AcqRel => (MemOrder::Acquire, MemOrder::Release),
        MemOrder::SeqCst => (MemOrder::SeqCst, MemOrder::SeqCst),
        MemOrder::Relaxed => (MemOrder::Relaxed, MemOrder::Relaxed),
    }
}

/// Number of bits in a word.
pub open spec fn word_bits() -> nat {
    usize::BITS as nat
}

/// Whether bit `k` of word `w` is set.
pub open spec fn word_bit(w: usize, k: nat) -> bool {
    w & (1usize << k) != 0usize
}

/// Number of words that hold `len` bits.
pub open spec fn words_for(len: nat) -> nat {
    if len % word_bits() == 0 {
        len / word_bits()
    } else {
        len / word_bits() + 1
    }
}

pub struct AtomicBitmap {
    mem: Vec<usize>,
    len: usize,
}

impl View for AtomicBitmap {
    type V = Seq<bool>;

    /// Bit `i` lives in word `i / usize::BITS`, at bit `i % usize::BITS`.
    closed spec fn view(&self) -> Seq<bool> {
        Seq::new(
            (self.mem@.len() * word_bits()) as nat,
            |i: int| word_bit(self.mem@[i / (word_bits() as int)], (i % (word_bits() as int)) as nat),
        )
    }
}

/// A bit reads back as it was last set, and setting one bit leaves every
/// other bit as it was: `get` after `set` on the same bitmap.
pub proof fn lemma_get_after_set(before: AtomicBitmap, after: AtomicBitmap, idx: int, value: bool)
    requires
        0 <= idx < before@.len(),
        after@ == before@.update(idx, value),
    ensures
        after@.len() == before@.len(),
        after@[idx] == value,
        forall|j: int| 0 <= j < before@.len() && j != idx ==> #[trigger] after@[j] == before@[j],
{
}

proof fn lemma_bits(x: usize, k: usize, j: usize)
    requires
        k < usize::BITS,
        j < usize::BITS,
    ensures
        ((x | (1usize << k)) & (1usize << j) != 0usize) == (j == k || x & (1usize << j) != 0usize),
        ((x & !(1usize << k)) & (1usize << j) != 0usize) == (j != k && x & (1usize << j)
            != 0usize),
{
    assert(((x | (1usize << k)) & (1usize << j) != 0usize) == (j == k || x & (1usize << j)
        != 0usize)) by (bit_vector)
        requires
            k < usize::BITS,
            j < usize::BITS,
    ;
    assert(((x & !(1usize << k)) & (1usize << j) != 0usize) == (j != k && x & (1usize << j)
        != 0usize)) by (bit_vector)
        requires
            k < usize::BITS,
            j < usize::BITS,
    ;
}

impl AtomicBitmap {
    /// Number of words in the bitmap.
    pub closed spec fn nwords(self) -> nat {
        self.mem@.len()
    }

    pub closed spec fn wf(self) -> bool {
        &&& self.len == self.mem@.len()
        &&& self.len < usize::MAX
        &&& self.mem@.len() * word_bits() <= usize::MAX
    }

    /// A bitmap of at least `len` bits, all clear: `len` rounded up to whole
    /// words. The number of bits must be representable, as bits are indexed
    /// by `usize`.
    pub fn new(len: usize) -> (r: Self)
        requires
            words_for(len as nat) * word_bits() <= usize::MAX,
        ensures
            r.wf(),
            r.nwords() == words_for(len as nat),
            r@.len() == words_for(len as nat) * word_bits(),
            forall|i: int| 0 <= i < r@.len() ==> !#[trigger] r@[i],
    {
        let bits = usize::BITS as usize;
        let words = len / bits + if len % bits != 0 {
            1
        } else {
            0
        };
        let mut mem: Vec<usize> = Vec::new();
        let mut i: usize = 0;
        while i < words
            invariant
                i <= words,
                mem@.len() == i,
                forall|j: int| 0 <= j < i ==> #[trigger] mem@[j] == 0,
            decreases words - i,
        {
            mem.push(0);
            i = i + 1;
        }
        let r = AtomicBitmap { mem, len: words };
        proof {
            assert forall|i: int| 0 <= i < r@.len() implies !#[trigger] r@[i] by {
                let k = (i % (word_bits() as int)) as nat;
                assert(0 <= i / (word_bits() as int) < words) by (nonlinear_arith)
                    requires
                        0 <= i < words * word_bits(),
                        word_bits() > 0,
                ;
                assert(0usize & (1usize << k) == 0usize) by (bit_vector);
            }
        }
        r
    }

    /// The word holding bit `index`, and the mask of the bit in it.
    fn calc_bit_pos(index: usize) -> (r: (usize, usize))
        ensures
            r.0 == (index as int) / (word_bits() as int),
            r.1 == 1usize << ((index as int) % (word_bits() as int)) as usize,
    {
        let bits = usize::BITS as usize;
        (index / bits, 1usize << (index % bits))
    }

    /// Whether bit `idx` is set.
    pub fn get(&self, idx: usize, order: MemOrder) -> (r: bool)
        requires
            self.wf(),
            idx < self@.len(),
        ensures
            r == self@[idx as int],
    {
        let (word, mask) = Self::calc_bit_pos(idx);
        proof {
            self.lemma_word_index(idx as int);
        }
        self.mem[word] & mask != 0
    }

    proof fn lemma_word_index(self, idx: int)
        requires
            0 <= idx < self@.len(),
        ensures
            0 <= idx / (word_bits() as int) < self.mem@.len(),
            idx % (word_bits() as int) < usize::BITS,
    {
        assert(0 <= idx / (word_bits() as int) < self.mem@.len()) by (nonlinear_arith)
            requires
                0 <= idx < self.mem@.len() * word_bits(),
                word_bits() > 0,
        ;
    }

    /// The fetch and store orders of a read-modify-write in `order`.
    fn make_fetch_store_order(order: MemOrder) -> (r: (MemOrder, MemOrder))
        ensures
            r == fetch_store_order(order),
    {
        match order {
            MemOrder::Acquire => (MemOrder::Acquire, MemOrder::Relaxed),
            MemOrder::Release => (MemOrder::Relaxed, MemOrder::Release),
            MemOrder::AcqRel => (MemOrder::Acquire, MemOrder::Release),
            MemOrder::SeqCst => (MemOrder::SeqCst, MemOrder::SeqCst),
            MemOrder::Relaxed => (MemOrder::Relaxed, MemOrder::Relaxed),
        }
    }

    /// Sets bit `idx` to `value`; returns what it was.
    pub fn set(&mut self, idx: usize, value: bool, order: MemOrder) -> (r: bool)
        requires
            old(self).wf(),
            idx < old(self)@.len(),
        ensures
            final(self).wf(),
            r == old(self)@[idx as int],
            final(self)@ == old(self)@.update(idx as int, value),
    {
        let (fetch_order, set_order) = Self::make_fetch_store_order(order);
        self.update(set_order, fetch_order, idx, |x: bool| -> (b: bool)
            ensures
                b == value,
            { value })
    }

    /// Flips bit `idx`; returns what it was. `value` is not used.
    pub fn toggle(&mut self, idx: usize, value: bool, order: MemOrder) -> (r: bool)
        requires
            old(self).wf(),
            idx < old(self)@.len(),
        ensures
            final(self).wf(),
            r == old(self)@[idx as int],
            final(self)@ == old(self)@.update(idx as int, !old(self)@[idx as int]),
    {
        let (fetch_order, set_order) = Self::make_fetch_store_order(order);
        self.update(set_order, fetch_order, idx, |x: bool| -> (b: bool)
            ensures
                b == !x,
            { !x })
    }

    /// Sets bit `idx` to what `func` makes of its current value; returns
    /// what it was.
    pub fn update<F: Fn(bool) -> bool>(
        &mut self,
        set_order: MemOrder,
        fetch_order: MemOrder,
        idx: usize,
        func: F,
    ) -> (r: bool)
        requires
            old(self).wf(),
            idx < old(self)@.len(),
            func.requires((old(self)@[idx as int],)),
        ensures
            final(self).wf(),
            r == old(self)@[idx as int],
            exists|b: bool|
                #[trigger] func.ensures((r,), b) && final(self)@ == old(self)@.update(idx as int, b),
    {
        let (word, mask) = Self::calc_bit_pos(idx);
        proof {
            self.lemma_word_index(idx as int);
        }
        let x = self.mem[word];
        let old_bit = x & mask != 0;
        let new_bit = func(old_bit);
        let nx = if new_bit {
            x | mask
        } else {
            x & !mask
        };
        self.mem.set(word, nx);
        proof {
            let b = word_bits() as int;
            let k = (idx as int % b) as usize;
            assert forall|i: int| 0 <= i < self@.len() implies #[trigger] self@[i] == old(
                self,
            )@.update(idx as int, new_bit)[i] by {
                old(self).lemma_word_index(i);
                let j = (i % b) as usize;
                lemma_bits(x, k, j);
                if i / b == word as int {
                    if i != idx as int {
                        assert(j != k) by (nonlinear_arith)
                            requires
                                i != idx,
                                i / b == (idx as int) / b,
                                j == i % b,
                                k == (idx as int) % b,
                                b > 0,
                        ;
                    }
                }
            }
            assert(self@ =~= old(self)@.update(idx as int, new_bit));
        }
        old_bit
    }

    /// Walks the bitmap bit by bit, reading each bit in `order`.
    pub fn iter<'a>(&'a self, order: MemOrder) -> (r: Iter<'a>)
        ensures
            r.map == self,
            r.order == order,
            r.current == 0,
    {
        Iter { current: 0, map: self, order }
    }

    /// Walks the bitmap bit by bit, taking it over.
    pub fn into_iter(self) -> (r: IntoIter)
        ensures
            r.map == self,
            r.current == 0,
    {
        IntoIter { map: self, current: 0 }
    }
}

/// Walks a bitmap bit by bit, from bit 0 to its last bit.
pub struct Iter<'a> {
    pub map: &'a AtomicBitmap,
    pub order: MemOrder,
    pub current: usize,
}

/// Bit `current` is inside a bitmap of `nwords` words exactly when the word
/// it falls in is.
proof fn lemma_bit_in_words(current: int, nwords: int)
    requires
        current >= 0,
        nwords >= 0,
    ensures
        (current / (word_bits() as int) < nwords) == (current < nwords * (word_bits() as int)),
{
    let b = word_bits() as int;
    assert(b > 0);
    assert((current / b < nwords) == (current < nwords * b)) by (nonlinear_arith)
        requires
            b > 0,
            current >= 0,
            nwords >= 0,
    ;
}

impl<'a> Iter<'a> {
    /// The next bit, or `None` once every bit has been read.
    pub fn next(&mut self) -> (r: Option<bool>)
        requires
            old(self).map.wf(),
        ensures
            final(self).map == old(self).map,
            final(self).order == old(self).order,
            old(self).current >= old(self).map@.len() ==> r is None && final(self).current
                == old(self).current,
            old(self).current < old(self).map@.len() ==> {
                &&& r == Some(old(self).map@[old(self).current as int])
                &&& final(self).current == old(self).current + 1
            },
    {
        proof {
            lemma_bit_in_words(self.current as int, self.map.nwords() as int);
        }
        if self.current / (usize::BITS as usize) >= self.map.len {
            None
        } else {
            let ret = self.map.get(self.current, self.order);
            self.current = self.current + 1;
            Some(ret)
        }
    }
}

/// Like `Iter`, owning the bitmap; bits are read in relaxed order.
pub struct IntoIter {
    pub map: AtomicBitmap,
    pub current: usize,
}

impl IntoIter {
    /// The next bit, or `None` once every bit has been read.
    pub fn next(&mut self) -> (r: Option<bool>)
        requires
            old(self).map.wf(),
        ensures
            final(self).map == old(self).map,
            old(self).current >= old(self).map@.len() ==> r is None && final(self).current
                == old(self).current,
            old(self).current < old(self).map@.len() ==> {
                &&& r == Some(old(self).map@[old(self).current as int])
                &&& final(self).current == old(self).current + 1
            },
    {
        proof {
            lemma_bit_in_words(self.current as int, self.map.nwords() as int);
        }
        if self.current / (usize::BITS as usize) >= self.map.len {
            None
        } else {
            let ret = self.map.get(self.current, MemOrder::Relaxed);
            self.current = self.current + 1;
            Some(ret)
        }
    }
}

} // verus!
