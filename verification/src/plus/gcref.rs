//! Pointer fields inside objects in the heap that are read back as root
//! references.

use std::marker::PhantomData;

use vstd::prelude::*;

use crate::bitmap::MemOrder;
use crate::object::ObjectPtr;
use crate::plus::bits::bitvec_max_bits;
use crate::plus::context::{takes_slot, Context};
use crate::plus::gcbox::{storable, target_of};
use crate::plus::typed_root_ref::RootRef;

verus! {

/// A nullable pointer field to an object of type `T`, as an address
/// (`0` for none).
pub struct GCBoxOption<T> {
    inner: usize,
    _phantom: PhantomData<T>,
}

impl<T> GCBoxOption<T> {
    /// The address held, `0` for none.
    pub closed spec fn target(self) -> usize {
        self.inner
    }

    pub fn none() -> (r: Self)
        ensures
            r.target() == 0,
    {
        GCBoxOption { inner: 0, _phantom: PhantomData }
    }

    /// A field pointing where `init` points; the reference is given up.
    /// The field must be stored in the heap before the next safepoint.
    pub fn new(init: Option<RootRef<T>>, ctx: &mut Context) -> (r: Self)
        requires
            old(ctx).wf(),
            storable(init, *old(ctx)),
        ensures
            final(ctx).wf(),
            r.target() == target_of(init),
            init matches Some(x) ==> {
                &&& final(ctx).slots() == old(ctx).slots().update(x.raw.slot() as int, None)
                &&& final(ctx).used() == old(ctx).used().update(x.raw.slot() as int, false)
                &&& final(ctx).existing() == old(ctx).existing() - 1
            },
            init is None ==> *final(ctx) == *old(ctx),
    {
        let ptr = match init {
            Some(x) => {
                let raw = RootRef::into_raw(x);
                let p = raw.get_ptr().0;
                raw.release(ctx);
                p
            },
            None => 0,
        };
        GCBoxOption { inner: ptr, _phantom: PhantomData }
    }

    /// A new loaded root reference to the object pointed to, if any.
    pub fn load(&self, ordering: MemOrder, ctx: &mut Context) -> (r: Option<RootRef<T>>)
        requires
            old(ctx).wf(),
            old(ctx).used().len() + 2 < bitvec_max_bits(),
        ensures
            final(ctx).wf(),
            self.target() == 0 ==> r is None && *final(ctx) == *old(ctx),
            self.target() != 0 ==> (r matches Some(x) && {
                &&& final(ctx).holds(x.raw)
                &&& x.raw.loaded() == Some(ObjectPtr(self.target()))
                &&& final(ctx).existing() == old(ctx).existing() + 1
                &&& old(ctx).registers(*final(ctx), x.raw, ObjectPtr(self.target()))
                &&& takes_slot(old(ctx).used(), final(ctx).used(), x.raw.slot() as int)
            }),
    {
        if self.inner == 0 {
            return None;
        }
        let raw = ctx.add_ptr(ObjectPtr(self.inner));
        Some(RootRef::from_raw(raw))
    }

    /// Points the field where `reference` points; the reference is given
    /// up.
    pub fn store(&mut self, ordering: MemOrder, reference: Option<RootRef<T>>, ctx: &mut Context)
        requires
            old(ctx).wf(),
            storable(reference, *old(ctx)),
        ensures
            final(ctx).wf(),
            final(self).target() == target_of(reference),
            reference matches Some(x) ==> {
                &&& final(ctx).slots() == old(ctx).slots().update(x.raw.slot() as int, None)
                &&& final(ctx).used() == old(ctx).used().update(x.raw.slot() as int, false)
                &&& final(ctx).existing() == old(ctx).existing() - 1
            },
            reference is None ==> *final(ctx) == *old(ctx),
    {
        let ptr = match reference {
            Some(x) => {
                let raw = RootRef::into_raw(x);
                let p = raw.get_ptr().0;
                raw.release(ctx);
                p
            },
            None => 0,
        };
        self.inner = ptr;
    }
}

/// A pointer field that always points to an object of type `T`.
pub struct GCBox<T> {
    inner: GCBoxOption<T>,
}

impl<T> GCBox<T> {
    pub closed spec fn target(self) -> usize {
        self.inner.target()
    }

    /// A field pointing where `init` points; the reference is given up.
    pub fn new(init: RootRef<T>, ctx: &mut Context) -> (r: Self)
        requires
            old(ctx).wf(),
            storable(Some(init), *old(ctx)),
        ensures
            final(ctx).wf(),
            r.target() == init.raw.loaded()->0.addr(),
            final(ctx).slots() == old(ctx).slots().update(init.raw.slot() as int, None),
            final(ctx).used() == old(ctx).used().update(init.raw.slot() as int, false),
            final(ctx).existing() == old(ctx).existing() - 1,
    {
        GCBox { inner: GCBoxOption::new(Some(init), ctx) }
    }

    /// A new loaded root reference to the object pointed to.
    pub fn load(&self, ordering: MemOrder, ctx: &mut Context) -> (r: RootRef<T>)
        requires
            old(ctx).wf(),
            old(ctx).used().len() + 2 < bitvec_max_bits(),
            self.target() != 0,
        ensures
            final(ctx).wf(),
            final(ctx).holds(r.raw),
            r.raw.loaded() == Some(ObjectPtr(self.target())),
            final(ctx).existing() == old(ctx).existing() + 1,
            old(ctx).registers(*final(ctx), r.raw, ObjectPtr(self.target())),
            takes_slot(old(ctx).used(), final(ctx).used(), r.raw.slot() as int),
    {
        self.inner.load(ordering, ctx).unwrap()
    }

    /// Points the field where `reference` points; the reference is given
    /// up.
    pub fn store(&mut self, ordering: MemOrder, reference: RootRef<T>, ctx: &mut Context)
        requires
            old(ctx).wf(),
            storable(Some(reference), *old(ctx)),
        ensures
            final(ctx).wf(),
            final(self).target() == reference.raw.loaded()->0.addr(),
            final(ctx).slots() == old(ctx).slots().update(reference.raw.slot() as int, None),
            final(ctx).used() == old(ctx).used().update(reference.raw.slot() as int, false),
            final(ctx).existing() == old(ctx).existing() - 1,
    {
        self.inner.store(ordering, Some(reference), ctx);
    }
}

} // verus!
