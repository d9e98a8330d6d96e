//! Pointer fields inside objects in the heap. The collector finds them
//! through descriptors, and reads and rewrites them in place.

use std::marker::PhantomData;

use vstd::prelude::*;

use crate::object::{ObjectPtr, METADATA_SIZE};
use crate::plus::context::Context;
use crate::plus::typed_root_ref::RootRef;

verus! {

/// A nullable pointer field to an object of type `T`, as an address
/// (`0` for none).
pub struct GCBoxOption<T> {
    inner: usize,
    _phantom: PhantomData<T>,
}

/// Whether an object address leaves room for its metadata word.
pub open spec fn addressable(ptr: usize) -> bool {
    ptr + METADATA_SIZE <= usize::MAX
}

/// The address a reference to be stored in a field points to.
pub open spec fn target_of<T>(reference: Option<RootRef<T>>) -> usize {
    match reference {
        Some(r) => r.raw.loaded()->0.addr(),
        None => 0,
    }
}

/// What a field may be given: nothing, or a loaded live reference of
/// `ctx` to an object at a non-null, addressable address.
pub open spec fn storable<T>(reference: Option<RootRef<T>>, ctx: Context) -> bool {
    reference matches Some(r) ==> {
        &&& ctx.holds(r.raw)
        &&& r.raw.loaded() is Some
        &&& r.raw.loaded()->0.addr() != 0
        &&& addressable(r.raw.loaded()->0.addr())
    }
}

impl<T> GCBoxOption<T> {
    /// The address held, `0` for none.
    pub closed spec fn target(self) -> usize {
        self.inner
    }

    pub open spec fn wf(self) -> bool {
        self.target() == 0 || addressable(self.target())
    }

    pub fn none() -> (r: Self)
        ensures
            r.wf(),
            r.target() == 0,
    {
        GCBoxOption { inner: 0, _phantom: PhantomData }
    }

    /// Address of the data of the object pointed to, if any. It stays
    /// valid until the next safepoint, when the object may move.
    pub fn get_ptr(&self) -> (r: Option<usize>)
        requires
            self.wf(),
        ensures
            self.target() == 0 ==> r is None,
            self.target() != 0 ==> r == Some((self.target() + METADATA_SIZE) as usize),
    {
        if self.inner == 0 {
            None
        } else {
            Some(ObjectPtr(self.inner).data())
        }
    }

    /// A field pointing where `init` points; the reference is given up.
    /// The field must be stored in the heap before the next safepoint.
    pub fn new(init: Option<RootRef<T>>, ctx: &mut Context) -> (r: Self)
        requires
            old(ctx).wf(),
            storable(init, *old(ctx)),
        ensures
            final(ctx).wf(),
            r.wf(),
            r.target() == target_of(init),
            init matches Some(x) ==> {
                &&& final(ctx).slots() == old(ctx).slots().update(x.raw.slot() as int, None)
                &&& final(ctx).used() == old(ctx).used().update(x.raw.slot() as int, false)
                &&& final(ctx).existing() == old(ctx).existing() - 1
            },
            init is None ==> *final(ctx) == *old(ctx),
    {
        let ptr = match init {
            Some(x) => {
                let raw = RootRef::into_raw(x);
                let p = raw.get_ptr().0;
                raw.release(ctx);
                p
            },
            None => 0,
        };
        GCBoxOption { inner: ptr, _phantom: PhantomData }
    }

    /// Points the field where `reference` points; the reference is given
    /// up.
    pub fn store(&mut self, reference: Option<RootRef<T>>, ctx: &mut Context)
        requires
            old(ctx).wf(),
            storable(reference, *old(ctx)),
        ensures
            final(ctx).wf(),
            final(self).wf(),
            final(self).target() == target_of(reference),
            reference matches Some(x) ==> {
                &&& final(ctx).slots() == old(ctx).slots().update(x.raw.slot() as int, None)
                &&& final(ctx).used() == old(ctx).used().update(x.raw.slot() as int, false)
                &&& final(ctx).existing() == old(ctx).existing() - 1
            },
            reference is None ==> *final(ctx) == *old(ctx),
    {
        let ptr = match reference {
            Some(x) => {
                let raw = RootRef::into_raw(x);
                let p = raw.get_ptr().0;
                raw.release(ctx);
                p
            },
            None => 0,
        };
        self.inner = ptr;
    }
}

/// A pointer field that always points to an object of type `T`.
pub struct GCBox<T> {
    inner: GCBoxOption<T>,
}

impl<T> GCBox<T> {
    pub closed spec fn target(self) -> usize {
        self.inner.target()
    }

    pub open spec fn wf(self) -> bool {
        self.target() != 0 && addressable(self.target())
    }

    /// A field pointing where `init` points; the reference is given up.
    pub fn new(init: RootRef<T>, ctx: &mut Context) -> (r: Self)
        requires
            old(ctx).wf(),
            storable(Some(init), *old(ctx)),
            init.raw.loaded()->0.addr() != 0,
        ensures
            final(ctx).wf(),
            r.wf(),
            r.target() == init.raw.loaded()->0.addr(),
            final(ctx).slots() == old(ctx).slots().update(init.raw.slot() as int, None),
            final(ctx).used() == old(ctx).used().update(init.raw.slot() as int, false),
            final(ctx).existing() == old(ctx).existing() - 1,
    {
        GCBox { inner: GCBoxOption::new(Some(init), ctx) }
    }

    /// Address of the data of the object pointed to.
    pub fn get_ptr(&self) -> (r: usize)
        requires
            self.wf(),
        ensures
            r == self.target() + METADATA_SIZE,
    {
        self.inner.get_ptr().unwrap()
    }

    /// Points the field where `reference` points; the reference is given
    /// up.
    pub fn store(&mut self, reference: RootRef<T>, ctx: &mut Context)
        requires
            old(ctx).wf(),
            storable(Some(reference), *old(ctx)),
            reference.raw.loaded()->0.addr() != 0,
        ensures
            final(ctx).wf(),
            final(self).wf(),
            final(self).target() == reference.raw.loaded()->0.addr(),
            final(ctx).slots() == old(ctx).slots().update(reference.raw.slot() as int, None),
            final(ctx).used() == old(ctx).used().update(reference.raw.slot() as int, false),
            final(ctx).existing() == old(ctx).existing() - 1,
    {
        self.inner.store(Some(reference), ctx);
    }
}

} // verus!
