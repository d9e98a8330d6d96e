//! Saving root references around safepoints: before a safepoint every live
//! reference is stored in its slot, where the collector can move what it
//! points to; afterwards each is loaded back.

use vstd::prelude::*;

use crate::plus::context::{Context, RootRefRaw};
use crate::plus::typed_root_ref::RootRef;

verus! {

/// Something that holds root references and saves them around safepoints.
pub trait SafepointMut {
    /// Every reference held is live in `ctx` and loaded.
    spec fn loaded_in(&self, ctx: Context) -> bool;

    /// Every reference held is live in `ctx` and stored.
    spec fn stored_in(&self, ctx: Context) -> bool;

    /// Number of references held.
    spec fn count(&self) -> nat;

    /// Whether one of the references held uses slot `i`.
    spec fn holds_slot(&self, i: int) -> bool;

    /// Each reference held has the pointer that its slot of `ctx` holds.
    spec fn loaded_from(&self, ctx: Context) -> bool;

    /// Stores every reference held.
    fn before_safepoint(&mut self, ctx: &mut Context)
        requires
            old(ctx).wf(),
            old(self).loaded_in(*old(ctx)),
        ensures
            final(ctx).wf(),
            final(self).stored_in(*final(ctx)),
            final(self).count() == old(self).count(),
            final(ctx).used() == old(ctx).used(),
            final(ctx).existing() == old(ctx).existing(),
            final(ctx).stored() == old(ctx).stored() + old(self).count(),
            forall|i: int| #[trigger] final(self).holds_slot(i) == old(self).holds_slot(i),
            forall|i: int|
                0 <= i < old(ctx).slots().len() && !old(self).holds_slot(i)
                    ==> #[trigger] final(ctx).slots()[i] == old(ctx).slots()[i],
    ;

    /// Loads every reference held back.
    fn after_safepoint(&mut self, ctx: &mut Context)
        requires
            old(ctx).wf(),
            old(self).stored_in(*old(ctx)),
        ensures
            final(ctx).wf(),
            final(self).loaded_in(*final(ctx)),
            final(self).count() == old(self).count(),
            final(ctx).used() == old(ctx).used(),
            final(ctx).existing() == old(ctx).existing(),
            final(ctx).stored() == old(ctx).stored() - old(self).count(),
            forall|raw: RootRefRaw|
                old(ctx).holds(raw) && raw.loaded() is Some ==> #[trigger] final(ctx).holds(raw),
            forall|i: int| #[trigger] final(self).holds_slot(i) == old(self).holds_slot(i),
            forall|i: int|
                0 <= i < old(ctx).slots().len() && !old(self).holds_slot(i)
                    ==> #[trigger] final(ctx).slots()[i] == old(ctx).slots()[i],
            final(self).loaded_from(*old(ctx)),
    ;

    /// The references held stay as they are when the table changes only in
    /// ways that keep every live reference.
    proof fn lemma_kept(&self, c: Context, d: Context)
        requires
            c.keeps_refs(d),
        ensures
            self.stored_in(c) ==> self.stored_in(d),
            self.loaded_in(c) ==> self.loaded_in(d),
    ;
}

impl<T> SafepointMut for RootRef<T> {
    open spec fn loaded_in(&self, ctx: Context) -> bool {
        ctx.holds(self.raw) && self.raw.loaded() is Some
    }

    open spec fn stored_in(&self, ctx: Context) -> bool {
        ctx.holds(self.raw) && self.raw.loaded() is None
    }

    open spec fn count(&self) -> nat {
        1
    }

    open spec fn holds_slot(&self, i: int) -> bool {
        i == self.raw.slot()
    }

    open spec fn loaded_from(&self, ctx: Context) -> bool {
        self.raw.loaded() == ctx.slots()[self.raw.slot() as int]
    }

    proof fn lemma_kept(&self, c: Context, d: Context) {
        if c.holds(self.raw) {
            assert(c.used()[self.raw.slot() as int]);
        }
    }

    fn before_safepoint(&mut self, ctx: &mut Context) {
        RootRef::store(self, ctx);
    }

    fn after_safepoint(&mut self, ctx: &mut Context) {
        RootRef::load(self, ctx);
    }
}

/// A list of root references saved together.
pub struct SafepointList(pub Vec<RootRefRaw>);

/// The references of `v` have pairwise distinct slots.
pub open spec fn distinct_slots(v: Seq<RootRefRaw>) -> bool {
    forall|i: int, j: int| 0 <= i < j < v.len() ==> (#[trigger] v[i]).slot() != (#[trigger] v[j]).slot()
}

impl SafepointMut for SafepointList {
    open spec fn loaded_in(&self, ctx: Context) -> bool {
        &&& distinct_slots(self.0@)
        &&& forall|i: int|
            0 <= i < self.0@.len() ==> ctx.holds(#[trigger] self.0@[i]) && self.0@[i].loaded() is Some
    }

    open spec fn stored_in(&self, ctx: Context) -> bool {
        &&& distinct_slots(self.0@)
        &&& forall|i: int|
            0 <= i < self.0@.len() ==> ctx.holds(#[trigger] self.0@[i]) && self.0@[i].loaded() is None
    }

    open spec fn count(&self) -> nat {
        self.0@.len()
    }

    open spec fn holds_slot(&self, i: int) -> bool {
        exists|k: int| 0 <= k < self.0@.len() && (#[trigger] self.0@[k]).slot() == i
    }

    open spec fn loaded_from(&self, ctx: Context) -> bool {
        forall|k: int|
            0 <= k < self.0@.len() ==> (#[trigger] self.0@[k]).loaded() == ctx.slots()[self.0@[
                k
            ].slot() as int]
    }

    proof fn lemma_kept(&self, c: Context, d: Context) {
        assert forall|i: int| 0 <= i < self.0@.len() && c.holds(#[trigger] self.0@[i]) implies d.holds(
            self.0@[i],
        ) by {
            assert(c.used()[self.0@[i].slot() as int]);
        }
    }

    fn before_safepoint(&mut self, ctx: &mut Context) {
        let mut i: usize = 0;
        let n = self.0.len();
        while i < n
            invariant
                n == self.0@.len(),
                i <= n,
                ctx.wf(),
                distinct_slots(self.0@),
                forall|k: int| 0 <= k < n ==> ctx.holds(#[trigger] self.0@[k]),
                forall|k: int| 0 <= k < i ==> (#[trigger] self.0@[k]).loaded() is None,
                forall|k: int| i <= k < n ==> (#[trigger] self.0@[k]).loaded() is Some,
                ctx.used() == old(ctx).used(),
                ctx.existing() == old(ctx).existing(),
                ctx.stored() == old(ctx).stored() + i,
                n == old(self).0@.len(),
                ctx.slots().len() == old(ctx).slots().len(),
                forall|k: int| 0 <= k < n ==> (#[trigger] self.0@[k]).slot() == old(self).0@[k].slot(),
                forall|j: int|
                    0 <= j < old(ctx).slots().len() && !old(self).holds_slot(j) ==> #[trigger] ctx.slots()[j]
                        == old(ctx).slots()[j],
            decreases n - i,
        {
            let ghost before = self.0@;
            let ghost c0 = *ctx;
            let mut raw = self.0.remove(i);
            raw.store(ctx);
            self.0.insert(i, raw);
            proof {
                assert(old(self).0@[i as int].slot() == before[i as int].slot());
                assert(old(self).holds_slot(before[i as int].slot() as int));
                assert forall|j: int|
                    0 <= j < old(ctx).slots().len() && !old(self).holds_slot(j) implies #[trigger] ctx.slots()[j]
                        == old(ctx).slots()[j] by {
                    assert(j != before[i as int].slot());
                    assert(c0.slots()[j] == old(ctx).slots()[j]);
                }
                assert forall|k: int| 0 <= k < n implies (#[trigger] self.0@[k]).slot() == old(self).0@[k].slot() by {
                    if k != i {
                        assert(self.0@[k] == before[k]);
                    }
                }
                assert forall|k: int| 0 <= k < n implies ctx.holds(#[trigger] self.0@[k]) by {
                    if k != i {
                        assert(self.0@[k] == before[k]);
                        assert(c0.holds(before[k]));
                        assert(before[k].slot() != before[i as int].slot());
                    }
                }
                assert forall|a: int, b: int| 0 <= a < b < self.0@.len() implies (#[trigger] self.0@[a]).slot() != (#[trigger] self.0@[b]).slot() by {
                    assert(before[a].slot() != before[b].slot());
                }
            }
            i = i + 1;
        }
        proof {
            assert forall|j: int| #[trigger] self.holds_slot(j) == old(self).holds_slot(j) by {
                if self.holds_slot(j) {
                    let k = choose|k: int| 0 <= k < self.0@.len() && (#[trigger] self.0@[k]).slot() == j;
                    assert(old(self).0@[k].slot() == j);
                }
                if old(self).holds_slot(j) {
                    let k = choose|k: int| 0 <= k < old(self).0@.len() && (#[trigger] old(self).0@[k]).slot() == j;
                    assert(self.0@[k].slot() == j);
                }
            }
        }
    }

    fn after_safepoint(&mut self, ctx: &mut Context) {
        let mut i: usize = 0;
        let n = self.0.len();
        while i < n
            invariant
                n == self.0@.len(),
                i <= n,
                ctx.wf(),
                distinct_slots(self.0@),
                forall|k: int| 0 <= k < n ==> ctx.holds(#[trigger] self.0@[k]),
                forall|k: int| 0 <= k < i ==> (#[trigger] self.0@[k]).loaded() is Some,
                forall|k: int| i <= k < n ==> (#[trigger] self.0@[k]).loaded() is None,
                ctx.used() == old(ctx).used(),
                ctx.existing() == old(ctx).existing(),
                ctx.stored() == old(ctx).stored() - i,
                forall|raw: RootRefRaw|
                    old(ctx).holds(raw) && raw.loaded() is Some ==> #[trigger] ctx.holds(raw),
                n == old(self).0@.len(),
                ctx.slots().len() == old(ctx).slots().len(),
                forall|k: int| 0 <= k < n ==> (#[trigger] self.0@[k]).slot() == old(self).0@[k].slot(),
                forall|j: int|
                    0 <= j < old(ctx).slots().len() && !old(self).holds_slot(j) ==> #[trigger] ctx.slots()[j]
                        == old(ctx).slots()[j],
                forall|k: int|
                    0 <= k < i ==> (#[trigger] self.0@[k]).loaded() == old(ctx).slots()[self.0@[k].slot() as int],
                forall|k: int|
                    i <= k < n ==> ctx.slots()[(#[trigger] self.0@[k]).slot() as int] == old(ctx).slots()[self.0@[k].slot() as int],
            decreases n - i,
        {
            let ghost before = self.0@;
            let ghost c0 = *ctx;
            let mut raw = self.0.remove(i);
            raw.load(ctx);
            self.0.insert(i, raw);
            proof {
                assert(old(self).0@[i as int].slot() == before[i as int].slot());
                assert(old(self).holds_slot(before[i as int].slot() as int));
                assert forall|j: int|
                    0 <= j < old(ctx).slots().len() && !old(self).holds_slot(j) implies #[trigger] ctx.slots()[j]
                        == old(ctx).slots()[j] by {
                    assert(j != before[i as int].slot());
                    assert(c0.slots()[j] == old(ctx).slots()[j]);
                }
                assert forall|k: int| 0 <= k < n implies (#[trigger] self.0@[k]).slot() == old(self).0@[k].slot() by {
                    if k != i {
                        assert(self.0@[k] == before[k]);
                    }
                }
                assert forall|k: int| 0 <= k < i + 1 implies (#[trigger] self.0@[k]).loaded()
                    == old(ctx).slots()[self.0@[k].slot() as int] by {
                    if k != i {
                        assert(self.0@[k] == before[k]);
                    }
                }
                assert forall|k: int| i + 1 <= k < n implies ctx.slots()[(#[trigger] self.0@[k]).slot() as int]
                    == old(ctx).slots()[self.0@[k].slot() as int] by {
                    assert(self.0@[k] == before[k]);
                    assert(before[k].slot() != before[i as int].slot());
                }
                assert forall|r2: RootRefRaw|
                    c0.holds(r2) && r2.loaded() is Some implies #[trigger] ctx.holds(r2) by {
                    assert(ctx.slots()[r2.slot() as int] is None);
                }
                assert forall|k: int| 0 <= k < n implies ctx.holds(#[trigger] self.0@[k]) by {
                    if k != i {
                        assert(self.0@[k] == before[k]);
                        assert(c0.holds(before[k]));
                        assert(before[k].slot() != before[i as int].slot());
                    }
                }
                assert forall|a: int, b: int| 0 <= a < b < self.0@.len() implies (#[trigger] self.0@[a]).slot() != (#[trigger] self.0@[b]).slot() by {
                    assert(before[a].slot() != before[b].slot());
                }
            }
            i = i + 1;
        }
        proof {
            assert forall|j: int| #[trigger] self.holds_slot(j) == old(self).holds_slot(j) by {
                if self.holds_slot(j) {
                    let k = choose|k: int| 0 <= k < self.0@.len() && (#[trigger] self.0@[k]).slot() == j;
                    assert(old(self).0@[k].slot() == j);
                }
                if old(self).holds_slot(j) {
                    let k = choose|k: int| 0 <= k < old(self).0@.len() && (#[trigger] old(self).0@[k]).slot() == j;
                    assert(self.0@[k].slot() == j);
                }
            }
        }
    }
}

} // verus!
