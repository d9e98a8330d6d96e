use std::marker::PhantomData;

use vstd::prelude::*;

use crate::object::{ObjectPtr, METADATA_SIZE};
use crate::plus::context::{Context, RootRefRaw};

verus! {

/// A root reference to an object of type `T`.
pub struct RootRef<T> {
    pub raw: RootRefRaw,
    pub _phantom: PhantomData<T>,
}

impl<T> RootRef<T> {
    /// Treats `raw` as a reference to a `T`; the caller vouches for the
    /// object's type.
    pub fn from_raw(raw: RootRefRaw) -> (r: Self)
        ensures
            r.raw == raw,
    {
        RootRef { raw, _phantom: PhantomData }
    }

    pub fn into_raw(this: Self) -> (r: RootRefRaw)
        ensures
            r == this.raw,
    {
        this.raw
    }

    pub fn as_raw(this: &Self) -> (r: &RootRefRaw)
        ensures
            *r == this.raw,
    {
        &this.raw
    }

    pub fn store(this: &mut Self, ctx: &mut Context)
        requires
            old(ctx).wf(),
            old(ctx).holds(old(this).raw),
            old(this).raw.loaded() is Some,
        ensures
            final(ctx).wf(),
            final(ctx).holds(final(this).raw),
            final(this).raw.slot() == old(this).raw.slot(),
            final(this).raw.loaded() is None,
            final(ctx).slots() == old(ctx).slots().update(
                old(this).raw.slot() as int,
                old(this).raw.loaded(),
            ),
            final(ctx).used() == old(ctx).used(),
            final(ctx).stored() == old(ctx).stored() + 1,
            final(ctx).existing() == old(ctx).existing(),
    {
        this.raw.store(ctx);
    }

    pub fn load(this: &mut Self, ctx: &mut Context)
        requires
            old(ctx).wf(),
            old(ctx).holds(old(this).raw),
            old(this).raw.loaded() is None,
        ensures
            final(ctx).wf(),
            final(ctx).holds(final(this).raw),
            final(this).raw.slot() == old(this).raw.slot(),
            final(this).raw.loaded() == old(ctx).slots()[old(this).raw.slot() as int],
            final(ctx).slots() == old(ctx).slots().update(old(this).raw.slot() as int, None),
            final(ctx).used() == old(ctx).used(),
            final(ctx).stored() == old(ctx).stored() - 1,
            final(ctx).existing() == old(ctx).existing(),
    {
        this.raw.load(ctx);
    }

    /// Address of the referenced object's data.
    pub fn get_ptr(this: &Self) -> (r: usize)
        requires
            this.raw.loaded() is Some,
            this.raw.loaded()->0.addr() + METADATA_SIZE <= usize::MAX,
        ensures
            r == this.raw.loaded()->0.addr() + METADATA_SIZE,
    {
        this.raw.get_ptr().data()
    }
}

} // verus!
