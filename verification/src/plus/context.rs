//! The per-thread root set of the higher-level layer: a table of slots, one
//! per live root reference, that the collector scans. A root reference
//! either holds its pointer itself ("loaded") or has parked it in its slot
//! ("stored"); the collector may only run while every live reference is
//! stored.

use vstd::prelude::*;

use crate::object::ObjectPtr;
use crate::root_set::flattened;
use crate::plus::bits::{
    bitvec_bits, bitvec_first_zero, bitvec_len, bitvec_max_bits, bitvec_new, bitvec_push,
    bitvec_set, Bits,
};

verus! {

/// Number of set bits in `s`.
/// `after` is the usage bits `before` with slot `slot` taken: a free slot
/// marked used, or one more used slot at the end.
pub open spec fn takes_slot(before: Seq<bool>, after: Seq<bool>, slot: int) -> bool {
    ||| (0 <= slot < before.len() && after == before.update(slot, true))
    ||| (slot == before.len() && after == before.push(true))
}

pub open spec fn count_true(s: Seq<bool>) -> nat
    decreases s.len(),
{
    if s.len() == 0 {
        0
    } else {
        count_true(s.drop_last()) + if s.last() {
            1nat
        } else {
            0nat
        }
    }
}

/// Number of occupied entries in `s`.
pub open spec fn count_some(s: Seq<Option<ObjectPtr>>) -> nat
    decreases s.len(),
{
    if s.len() == 0 {
        0
    } else {
        count_some(s.drop_last()) + if s.last() is Some {
            1nat
        } else {
            0nat
        }
    }
}

proof fn lemma_count_true_bound(s: Seq<bool>)
    ensures
        count_true(s) <= s.len(),
    decreases s.len(),
{
    if s.len() > 0 {
        lemma_count_true_bound(s.drop_last());
    }
}

proof fn lemma_count_true_update(s: Seq<bool>, i: int, b: bool)
    requires
        0 <= i < s.len(),
    ensures
        count_true(s.update(i, b)) + (if s[i] {
            1int
        } else {
            0int
        }) == count_true(s) + (if b {
            1int
        } else {
            0int
        }),
    decreases s.len(),
{
    let t = s.update(i, b);
    if i == s.len() - 1 {
        assert(t.drop_last() =~= s.drop_last());
    } else {
        assert(t.drop_last() =~= s.drop_last().update(i, b));
        lemma_count_true_update(s.drop_last(), i, b);
    }
}

proof fn lemma_count_true_push(s: Seq<bool>, b: bool)
    ensures
        count_true(s.push(b)) == count_true(s) + if b {
            1nat
        } else {
            0nat
        },
{
    assert(s.push(b).drop_last() =~= s);
}

proof fn lemma_count_some_update(s: Seq<Option<ObjectPtr>>, i: int, b: Option<ObjectPtr>)
    requires
        0 <= i < s.len(),
    ensures
        count_some(s.update(i, b)) + (if s[i] is Some {
            1int
        } else {
            0int
        }) == count_some(s) + (if b is Some {
            1int
        } else {
            0int
        }),
    decreases s.len(),
{
    let t = s.update(i, b);
    if i == s.len() - 1 {
        assert(t.drop_last() =~= s.drop_last());
    } else {
        assert(t.drop_last() =~= s.drop_last().update(i, b));
        lemma_count_some_update(s.drop_last(), i, b);
    }
}

proof fn lemma_count_some_push_none(s: Seq<Option<ObjectPtr>>)
    ensures
        count_some(s.push(None)) == count_some(s),
{
    assert(s.push(None).drop_last() =~= s);
}

/// The slot table. Slot `i` is in use when bit `i` of `used_map` is set; a
/// used slot holds a pointer exactly while its reference is stored.
pub struct Inner {
    set: Vec<Option<ObjectPtr>>,
    used_map: Bits,
    stored_count: usize,
    exist_count: usize,
}

/// A root reference: its slot, and its pointer while it is loaded.
pub struct RootRefRaw {
    ptr: Option<ObjectPtr>,
    idx: usize,
}

impl RootRefRaw {
    pub closed spec fn slot(self) -> usize {
        self.idx
    }

    pub closed spec fn loaded(self) -> Option<ObjectPtr> {
        self.ptr
    }

    /// The pointer, which the reference must hold (be loaded).
    pub fn get_ptr(&self) -> (r: ObjectPtr)
        requires
            self.loaded() is Some,
        ensures
            r == self.loaded()->0,
    {
        self.ptr.unwrap()
    }

    /// Parks the pointer in the reference's slot, so that the collector can
    /// see and move it.
    pub fn store(&mut self, ctx: &mut Context)
        requires
            old(ctx).wf(),
            old(ctx).holds(*old(self)),
            old(self).loaded() is Some,
        ensures
            final(ctx).wf(),
            final(ctx).holds(*final(self)),
            final(self).slot() == old(self).slot(),
            final(self).loaded() is None,
            final(ctx).slots() == old(ctx).slots().update(
                old(self).slot() as int,
                old(self).loaded(),
            ),
            final(ctx).used() == old(ctx).used(),
            final(ctx).stored() == old(ctx).stored() + 1,
            final(ctx).existing() == old(ctx).existing(),
    {
        let ptr = self.ptr.take().unwrap();
        let idx = self.idx;
        proof {
            lemma_count_some_update(ctx.root_set.set@, idx as int, Some(ptr));
            lemma_count_true_bound(bitvec_bits(ctx.root_set.used_map));
            lemma_count_some_bound(ctx.root_set.set@);
        }
        ctx.root_set.stored_count = ctx.root_set.stored_count + 1;
        ctx.root_set.set.set(idx, Some(ptr));
    }

    /// Takes the pointer back out of the reference's slot; it may have been
    /// moved by the collector meanwhile.
    pub fn load(&mut self, ctx: &mut Context)
        requires
            old(ctx).wf(),
            old(ctx).holds(*old(self)),
            old(self).loaded() is None,
        ensures
            final(ctx).wf(),
            final(ctx).holds(*final(self)),
            final(self).slot() == old(self).slot(),
            final(self).loaded() == old(ctx).slots()[old(self).slot() as int],
            final(ctx).slots() == old(ctx).slots().update(old(self).slot() as int, None),
            final(ctx).used() == old(ctx).used(),
            final(ctx).stored() == old(ctx).stored() - 1,
            final(ctx).existing() == old(ctx).existing(),
    {
        let idx = self.idx;
        proof {
            lemma_count_some_update(ctx.root_set.set@, idx as int, None);
        }
        ctx.root_set.stored_count = ctx.root_set.stored_count - 1;
        let taken = ctx.root_set.set[idx];
        ctx.root_set.set.set(idx, None);
        self.ptr = taken;
    }

    /// Gives up the reference: its slot is emptied and freed for reuse.
    pub fn release(self, ctx: &mut Context)
        requires
            old(ctx).wf(),
            old(ctx).holds(self),
        ensures
            final(ctx).wf(),
            final(ctx).slots() == old(ctx).slots().update(self.slot() as int, None),
            final(ctx).used() == old(ctx).used().update(self.slot() as int, false),
            final(ctx).existing() == old(ctx).existing() - 1,
            final(ctx).stored() == old(ctx).stored() - if self.loaded() is None {
                1int
            } else {
                0int
            },
    {
        let idx = self.idx;
        let is_stored = self.ptr.is_none();
        proof {
            lemma_count_true_update(bitvec_bits(ctx.root_set.used_map), idx as int, false);
            lemma_count_some_update(ctx.root_set.set@, idx as int, None);
        }
        ctx.root_set.exist_count = ctx.root_set.exist_count - 1;
        if is_stored {
            ctx.root_set.stored_count = ctx.root_set.stored_count - 1;
        }
        ctx.root_set.set.set(idx, None);
        bitvec_set(&mut ctx.root_set.used_map, idx, false);
    }
}

proof fn lemma_count_some_bound(s: Seq<Option<ObjectPtr>>)
    ensures
        count_some(s) <= s.len(),
    decreases s.len(),
{
    if s.len() > 0 {
        lemma_count_some_bound(s.drop_last());
    }
}

/// A thread's context in the higher-level layer: its slot table. The
/// collector's own context for the thread is kept beside it by the caller.
pub struct Context {
    root_set: Inner,
}

impl Context {
    /// Content of every slot.
    pub closed spec fn slots(self) -> Seq<Option<ObjectPtr>> {
        self.root_set.set@
    }

    /// Which slots are in use.
    pub closed spec fn used(self) -> Seq<bool> {
        bitvec_bits(self.root_set.used_map)
    }

    /// Number of stored references.
    pub closed spec fn stored(self) -> int {
        self.root_set.stored_count as int
    }

    /// Number of live references.
    pub closed spec fn existing(self) -> int {
        self.root_set.exist_count as int
    }

    /// One bit per slot, the counts match the table, and only used slots
    /// hold pointers.
    pub open spec fn wf(self) -> bool {
        &&& self.slots().len() == self.used().len()
        &&& self.used().len() < bitvec_max_bits()
        &&& self.existing() == count_true(self.used())
        &&& self.stored() == count_some(self.slots())
        &&& forall|i: int| 0 <= i < self.slots().len() && (#[trigger] self.slots()[i]) is Some ==> self.used()[i]
    }

    /// `raw` is a live reference of this context: its slot is in use, and
    /// holds a pointer exactly when the reference is stored.
    pub open spec fn holds(self, raw: RootRefRaw) -> bool {
        &&& raw.slot() < self.slots().len()
        &&& self.used()[raw.slot() as int]
        &&& (raw.loaded() is None <==> self.slots()[raw.slot() as int] is Some)
    }

    /// Whether the thread may reach a safepoint: every live reference is
    /// stored.
    pub open spec fn all_stored(self) -> bool {
        self.stored() == self.existing()
    }

    /// Every reference live in this table is still live in `other`, its slot
    /// occupied or empty as before.
    pub open spec fn keeps_refs(self, other: Context) -> bool {
        &&& other.slots().len() >= self.slots().len()
        &&& other.used().len() >= self.used().len()
        &&& forall|i: int|
            0 <= i < self.slots().len() && #[trigger] self.used()[i] ==> {
                &&& other.used()[i]
                &&& (other.slots()[i] is Some <==> self.slots()[i] is Some)
            }
    }

    /// `other` differs from this table at most in the pointers the slots
    /// hold: the same slots are used and occupied, and the counts agree.
    /// This is what a collection leaves of a table when it moves objects.
    pub open spec fn same_shape(self, other: Context) -> bool {
        &&& other.used() == self.used()
        &&& other.slots().len() == self.slots().len()
        &&& forall|i: int|
            0 <= i < self.slots().len() ==> ((#[trigger] other.slots()[i]) is Some
                <==> self.slots()[i] is Some)
        &&& other.stored() == self.stored()
        &&& other.existing() == self.existing()
    }

    pub fn new() -> (r: Self)
        ensures
            r.wf(),
            r.slots().len() == 0,
            r.existing() == 0,
            r.stored() == 0,
    {
        let c = Context {
            root_set: Inner {
                exist_count: 0,
                stored_count: 0,
                set: Vec::new(),
                used_map: bitvec_new(),
            },
        };
        proof {
            assert(c.slots().len() == 0);
        }
        c
    }

    /// Whether `after` is this table with `raw` registered as a new loaded
    /// reference to `ptr`: in the first free slot, or in a new slot at the
    /// end when none is free.
    pub open spec fn registers(self, after: Context, raw: RootRefRaw, ptr: ObjectPtr) -> bool {
        &&& after.wf()
        &&& after.holds(raw)
        &&& raw.loaded() == Some(ptr)
        &&& after.existing() == self.existing() + 1
        &&& after.stored() == self.stored()
        &&& raw.slot() <= self.slots().len()
        &&& raw.slot() < self.slots().len() ==> {
            &&& after.slots() == self.slots().update(raw.slot() as int, None)
            &&& !self.used()[raw.slot() as int]
            &&& forall|j: int| 0 <= j < raw.slot() ==> #[trigger] self.used()[j]
            &&& after.used() == self.used().update(raw.slot() as int, true)
        }
        &&& raw.slot() == self.slots().len() ==> {
            &&& after.slots() == self.slots().push(None)
            &&& forall|j: int| 0 <= j < self.used().len() ==> #[trigger] self.used()[j]
            &&& after.used() == self.used().push(true)
        }
    }

    /// A new loaded reference to `ptr`, in the first free slot, or in a new
    /// slot at the end when none is free.
    pub fn add_ptr(&mut self, ptr: ObjectPtr) -> (r: RootRefRaw)
        requires
            old(self).wf(),
            old(self).used().len() + 2 < bitvec_max_bits(),
        ensures
            old(self).registers(*final(self), r, ptr),
    {
        proof {
            lemma_count_true_bound(self.used());
        }
        match bitvec_first_zero(&self.root_set.used_map) {
            None => {
                let index = self.root_set.set.len();
                proof {
                    lemma_count_true_push(self.used(), true);
                    lemma_count_some_push_none(self.slots());
                }
                self.root_set.set.insert(index, None);
                bitvec_push(&mut self.root_set.used_map, true);
                self.root_set.exist_count = self.root_set.exist_count + 1;
                proof {
                    assert(self.slots() =~= old(self).slots().push(None));
                }
                RootRefRaw { idx: index, ptr: Some(ptr) }
            },
            Some(free_index) => {
                proof {
                    lemma_count_true_update(self.used(), free_index as int, true);
                    lemma_count_some_update(self.slots(), free_index as int, None);
                    assert(self.slots().update(free_index as int, None) =~= self.slots());
                }
                self.root_set.set.set(free_index, None);
                bitvec_set(&mut self.root_set.used_map, free_index, true);
                self.root_set.exist_count = self.root_set.exist_count + 1;
                RootRefRaw { idx: free_index, ptr: Some(ptr) }
            },
        }
    }

    /// Registers the object a fast allocation gave, if any, as a new loaded
    /// reference.
    pub fn alloc_fast(&mut self, allocated: Option<ObjectPtr>) -> (r: Option<RootRefRaw>)
        requires
            old(self).wf(),
            old(self).used().len() + 2 < bitvec_max_bits(),
        ensures
            final(self).wf(),
            r is Some <==> allocated is Some,
            r matches Some(raw) ==> old(self).registers(*final(self), raw, allocated->0),
            allocated is None ==> *final(self) == *old(self),
    {
        match allocated {
            Some(p) => Some(self.add_ptr(p)),
            None => None,
        }
    }

    /// Whether a slow allocation or a safepoint may go ahead: every live
    /// reference must be stored first, since the collector may run.
    pub fn can_safepoint(&self) -> (r: bool)
        ensures
            r == self.all_stored(),
    {
        self.root_set.stored_count == self.root_set.exist_count
    }

    /// Registers the object a slow allocation gave, if any; the slow path
    /// may collect, so every live reference was stored before it.
    pub fn alloc_slow(&mut self, allocated: Option<ObjectPtr>) -> (r: Option<RootRefRaw>)
        requires
            old(self).wf(),
            old(self).all_stored(),
            old(self).used().len() + 2 < bitvec_max_bits(),
        ensures
            final(self).wf(),
            r is Some <==> allocated is Some,
            r matches Some(raw) ==> old(self).registers(*final(self), raw, allocated->0),
            allocated is None ==> *final(self) == *old(self),
    {
        self.alloc_fast(allocated)
    }

    /// The number of slots.
    pub fn len(&self) -> (r: usize)
        requires
            self.wf(),
        ensures
            r == self.slots().len(),
    {
        bitvec_len(&self.root_set.used_map)
    }

    /// The pointers held by stored references, in slot order, for the
    /// collector to scan.
    pub fn iter_pointers(&self) -> (r: Vec<ObjectPtr>)
        ensures
            r@ == flattened(self.slots()),
    {
        let mut out: Vec<ObjectPtr> = Vec::new();
        let mut i: usize = 0;
        while i < self.root_set.set.len()
            invariant
                i <= self.root_set.set@.len(),
                out@ == flattened(self.root_set.set@.subrange(0, i as int)),
            decreases self.root_set.set@.len() - i,
        {
            proof {
                assert(self.root_set.set@.subrange(0, i + 1).drop_last() =~= self.root_set.set@.subrange(0, i as int));
            }
            match self.root_set.set[i] {
                Some(p) => out.push(p),
                None => {},
            }
            i = i + 1;
        }
        proof {
            assert(self.root_set.set@.subrange(0, i as int) =~= self.root_set.set@);
        }
        out
    }

    /// Replaces each pointer held by a stored reference with what `visitor`
    /// makes of it.
    pub fn map_pointers<F: Fn(ObjectPtr) -> ObjectPtr>(&mut self, visitor: F)
        requires
            old(self).wf(),
            forall|i: int|
                0 <= i < old(self).slots().len() && (#[trigger] old(self).slots()[i]) is Some
                    ==> visitor.requires((old(self).slots()[i]->0,)),
        ensures
            final(self).wf(),
            final(self).used() == old(self).used(),
            final(self).existing() == old(self).existing(),
            final(self).stored() == old(self).stored(),
            final(self).slots().len() == old(self).slots().len(),
            forall|i: int|
                0 <= i < final(self).slots().len() ==> (#[trigger] final(self).slots()[i] is Some
                    <==> old(self).slots()[i] is Some),
            forall|i: int|
                0 <= i < final(self).slots().len() && old(self).slots()[i] is Some ==> visitor.ensures(
                    (old(self).slots()[i]->0,),
                    #[trigger] final(self).slots()[i]->0,
                ),
    {
        let ghost old_slots = self.slots();
        let mut i: usize = 0;
        while i < self.root_set.set.len()
            invariant
                i <= self.root_set.set@.len(),
                self.root_set.set@.len() == old_slots.len(),
                self.root_set.used_map == old(self).root_set.used_map,
                self.root_set.stored_count == old(self).root_set.stored_count,
                self.root_set.exist_count == old(self).root_set.exist_count,
                old_slots == old(self).slots(),
                forall|k: int|
                    0 <= k < old_slots.len() && (#[trigger] old_slots[k]) is Some ==> visitor.requires(
                        (old_slots[k]->0,),
                    ),
                forall|k: int|
                    0 <= k < self.root_set.set@.len() ==> (#[trigger] self.root_set.set@[k] is Some
                        <==> old_slots[k] is Some),
                forall|k: int|
                    0 <= k < i && old_slots[k] is Some ==> visitor.ensures(
                        (old_slots[k]->0,),
                        #[trigger] self.root_set.set@[k]->0,
                    ),
                forall|k: int| i <= k < self.root_set.set@.len() ==> #[trigger] self.root_set.set@[k] == old_slots[k],
            decreases self.root_set.set@.len() - i,
        {
            let slot = self.root_set.set[i];
            match slot {
                Some(p) => {
                    let q = visitor(p);
                    self.root_set.set.set(i, Some(q));
                },
                None => {},
            }
            i = i + 1;
        }
        proof {
            lemma_count_some_same_shape(old_slots, self.slots());
            assert forall|k: int| 0 <= k < self.slots().len() && (#[trigger] self.slots()[k]) is Some implies self.used()[k] by {
                assert(old_slots[k] is Some);
            }
        }
    }
}

/// Registering a reference takes one slot, so the usage table grows by at
/// most one bit: a table with room for three more slots keeps room for two
/// after a registration, and a second reference (a second `load` of a
/// pointer field, say) can be registered right after the first.
pub proof fn lemma_registered_leaves_room(c0: Context, c1: Context, raw: RootRefRaw, p: ObjectPtr)
    requires
        c0.wf(),
        c0.registers(c1, raw, p),
    ensures
        takes_slot(c0.used(), c1.used(), raw.slot() as int),
        c1.used().len() <= c0.used().len() + 1,
        c0.used().len() + 3 < bitvec_max_bits() ==> c1.used().len() + 2 < bitvec_max_bits(),
{
}

/// A reference stored and loaded back, with no collection in between,
/// holds the pointer it held before, and the table is as it was: `load`
/// after `store` on a live loaded reference `raw` of `c0`.
pub proof fn lemma_store_then_load(c0: Context, c1: Context, c2: Context, raw: RootRefRaw, back: RootRefRaw)
    requires
        c0.wf(),
        c0.holds(raw),
        raw.loaded() is Some,
        c1.slots() == c0.slots().update(raw.slot() as int, raw.loaded()),
        back.loaded() == c1.slots()[raw.slot() as int],
        c2.slots() == c1.slots().update(raw.slot() as int, None),
    ensures
        back.loaded() == raw.loaded(),
        c2.slots() == c0.slots(),
{
    assert(c2.slots() =~= c0.slots());
}

proof fn lemma_count_some_same_shape(a: Seq<Option<ObjectPtr>>, b: Seq<Option<ObjectPtr>>)
    requires
        a.len() == b.len(),
        forall|k: int| 0 <= k < a.len() ==> (#[trigger] a[k] is Some <==> b[k] is Some),
    ensures
        count_some(a) == count_some(b),
    decreases a.len(),
{
    if a.len() > 0 {
        assert forall|k: int| 0 <= k < a.drop_last().len() implies (#[trigger] a.drop_last()[k] is Some <==> b.drop_last()[k] is Some) by {
            assert(a[k] is Some <==> b[k] is Some);
        }
        lemma_count_some_same_shape(a.drop_last(), b.drop_last());
    }
}

} // verus!
