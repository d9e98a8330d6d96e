//! Root sets: where a mutator keeps the pointers the collector must treat
//! as live, and which the collector rewrites when objects move.

use vstd::prelude::*;

use crate::object::ObjectPtr;

verus! {

/// Whether `s` is the pointers of `slots`, in order, skipping empty slots.
pub open spec fn flattened(slots: Seq<Option<ObjectPtr>>) -> Seq<ObjectPtr>
    decreases slots.len(),
{
    if slots.len() == 0 {
        Seq::empty()
    } else {
        let rest = flattened(slots.drop_last());
        match slots.last() {
            Some(p) => rest.push(p),
            None => rest,
        }
    }
}

/// Implemented by the user: a set of root pointers that the collector can
/// read and rewrite.
pub trait RootSet: Sized {
    /// The root slots, empty or holding a pointer.
    spec fn slots(&self) -> Seq<Option<ObjectPtr>>;

    /// The pointers held, for the collector to read.
    fn iter_pointers(&self) -> (r: Vec<ObjectPtr>)
        ensures
            r@ == flattened(self.slots()),
    ;

    /// Replaces each pointer held with what `visitor` makes of it.
    fn map_pointers<F: Fn(ObjectPtr) -> ObjectPtr>(&mut self, visitor: F)
        requires
            forall|i: int|
                0 <= i < old(self).slots().len() && (#[trigger] old(self).slots()[i]) is Some
                    ==> visitor.requires((old(self).slots()[i]->0,)),
        ensures
            final(self).slots().len() == old(self).slots().len(),
            forall|i: int|
                0 <= i < old(self).slots().len() ==> (#[trigger] final(self).slots()[i] is Some
                    <==> old(self).slots()[i] is Some),
            forall|i: int|
                0 <= i < old(self).slots().len() && old(self).slots()[i] is Some ==> visitor.ensures(
                    (old(self).slots()[i]->0,),
                    #[trigger] final(self).slots()[i]->0,
                ),
    ;
}

/// The memory a root set lives in: a mapping whose size is a whole number
/// of system pages. The mapping is made by the caller.
pub struct RootSetRaw {
    ptr: usize,
    size: usize,
}

impl RootSetRaw {
    pub closed spec fn ptr(self) -> usize {
        self.ptr
    }

    pub closed spec fn size(self) -> usize {
        self.size
    }

    /// The root set memory of `size` bytes at `ptr`.
    pub fn new(ptr: usize, size: usize) -> (r: Self)
        ensures
            r.ptr() == ptr,
            r.size() == size,
    {
        RootSetRaw { ptr, size }
    }

    pub fn get_ptr(&self) -> (r: usize)
        ensures
            r == self.ptr(),
    {
        self.ptr
    }

    pub fn get_size(&self) -> (r: usize)
        ensures
            r == self.size(),
    {
        self.size
    }
}

/// Size of the root set memory for a requested size: the size rounded up
/// to a whole number of pages.
pub fn round_root_set_size(root_set_size: usize, page_size: usize) -> (r: usize)
    requires
        page_size > 0,
        root_set_size + page_size <= usize::MAX,
    ensures
        r % page_size == 0,
        root_set_size <= r < root_set_size + page_size,
{
    let rem = root_set_size % page_size;
    if rem == 0 {
        root_set_size
    } else {
        let q = root_set_size / page_size;
        proof {
            vstd::arithmetic::div_mod::lemma_fundamental_div_mod(
                root_set_size as int,
                page_size as int,
            );
            vstd::arithmetic::div_mod::lemma_mod_multiples_basic(q + 1, page_size as int);
            assert((q + 1) * page_size == q * page_size + page_size) by (nonlinear_arith);
            assert(page_size * q == q * page_size) by (nonlinear_arith);
            assert(root_set_size - rem + page_size == (q + 1) * page_size);
        }
        root_set_size - rem + page_size
    }
}

/// `page_size::get`: the memory page size the system reports, read once
/// and cached by the crate. Nothing is stated of its value: it is whatever
/// the system reports (the crate casts `sysconf(_SC_PAGESIZE)` to `usize`).
#[verifier::external_body]
pub(crate) fn system_page_size() -> usize {
    page_size::get()
}

/// Whether `n` is `size` rounded up to a whole number of pages of
/// `page_size` bytes.
pub open spec fn rounded_to_pages(size: usize, page_size: usize, n: usize) -> bool {
    &&& page_size > 0
    &&& n % page_size == 0
    &&& size <= n < size + page_size
}

/// Size of the root set memory for a request of `root_set_size` bytes and
/// pages of `page_size` bytes: the page size and the size rounded up to
/// whole pages, or `None` when the page size is zero or the rounding would
/// overflow.
pub fn root_set_size_with(root_set_size: usize, page_size: usize) -> (r: Option<(usize, usize)>)
    ensures
        r is None <==> (page_size == 0 || root_set_size + page_size > usize::MAX),
        r matches Some((ps, n)) ==> ps == page_size && rounded_to_pages(root_set_size, ps, n),
{
    if page_size == 0 || root_set_size > usize::MAX - page_size {
        return None;
    }
    Some((page_size, round_root_set_size(root_set_size, page_size)))
}

/// Size of the root set memory for a request of `root_set_size` bytes,
/// rounded up to whole pages of the size the system reports, as
/// `root_set_size_with` computes it for that page size.
pub fn root_set_size_for(root_set_size: usize) -> (r: Option<(usize, usize)>)
    ensures
        r matches Some((ps, n)) ==> rounded_to_pages(root_set_size, ps, n),
{
    root_set_size_with(root_set_size, system_page_size())
}

/// A root set of a fixed number of slots.
pub struct DumbRootSet {
    set: Vec<Option<ObjectPtr>>,
}

impl DumbRootSet {
    /// `size` empty slots.
    pub fn new(size: usize) -> (r: Self)
        ensures
            r.slots().len() == size,
            forall|i: int| 0 <= i < size ==> (#[trigger] r.slots()[i]) is None,
    {
        let mut set: Vec<Option<ObjectPtr>> = Vec::new();
        let mut i: usize = 0;
        while i < size
            invariant
                i <= size,
                set@.len() == i,
                forall|k: int| 0 <= k < i ==> (#[trigger] set@[k]) is None,
            decreases size - i,
        {
            set.push(None);
            i = i + 1;
        }
        DumbRootSet { set }
    }

    pub fn as_slice(&self) -> (r: &[Option<ObjectPtr>])
        ensures
            r@ == self.slots(),
    {
        self.set.as_slice()
    }

    /// Puts `value` in slot `idx`.
    pub fn set_slot(&mut self, idx: usize, value: Option<ObjectPtr>)
        requires
            idx < old(self).slots().len(),
        ensures
            final(self).slots() == old(self).slots().update(idx as int, value),
    {
        self.set.set(idx, value);
    }
}

impl RootSet for DumbRootSet {
    closed spec fn slots(&self) -> Seq<Option<ObjectPtr>> {
        self.set@
    }

    fn iter_pointers(&self) -> (r: Vec<ObjectPtr>) {
        let mut out: Vec<ObjectPtr> = Vec::new();
        let mut i: usize = 0;
        while i < self.set.len()
            invariant
                i <= self.set@.len(),
                out@ == flattened(self.set@.subrange(0, i as int)),
            decreases self.set@.len() - i,
        {
            proof {
                assert(self.set@.subrange(0, i + 1).drop_last() =~= self.set@.subrange(0, i as int));
            }
            match self.set[i] {
                Some(p) => out.push(p),
                None => {},
            }
            i = i + 1;
        }
        proof {
            assert(self.set@.subrange(0, i as int) =~= self.set@);
        }
        out
    }

    fn map_pointers<F: Fn(ObjectPtr) -> ObjectPtr>(&mut self, visitor: F) {
        let ghost start = self.set@;
        let mut i: usize = 0;
        while i < self.set.len()
            invariant
                i <= self.set@.len(),
                self.set@.len() == start.len(),
                start == old(self).set@,
                forall|k: int|
                    0 <= k < start.len() && (#[trigger] start[k]) is Some ==> visitor.requires(
                        (start[k]->0,),
                    ),
                forall|k: int| 0 <= k < start.len() ==> (#[trigger] self.set@[k] is Some <==> start[k] is Some),
                forall|k: int|
                    0 <= k < i && start[k] is Some ==> visitor.ensures(
                        (start[k]->0,),
                        #[trigger] self.set@[k]->0,
                    ),
                forall|k: int| i <= k < start.len() ==> #[trigger] self.set@[k] == start[k],
            decreases self.set@.len() - i,
        {
            match self.set[i] {
                Some(p) => {
                    let q = visitor(p);
                    self.set.set(i, Some(q));
                },
                None => {},
            }
            i = i + 1;
        }
    }
}

/// A root set that holds no pointers.
pub struct NoopRootSet {
    pub raw: RootSetRaw,
}

impl NoopRootSet {
    pub fn new(set: RootSetRaw) -> (r: Self)
        ensures
            r.raw == set,
    {
        NoopRootSet { raw: set }
    }
}

impl RootSet for NoopRootSet {
    open spec fn slots(&self) -> Seq<Option<ObjectPtr>> {
        Seq::empty()
    }

    fn iter_pointers(&self) -> (r: Vec<ObjectPtr>) {
        Vec::new()
    }

    fn map_pointers<F: Fn(ObjectPtr) -> ObjectPtr>(&mut self, visitor: F) {
    }
}

} // verus!
