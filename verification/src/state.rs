//! A mutator's allocations in the heap: where a new object goes, and the
//! metadata it starts with. Locking the shared heap and waiting for a
//! collection cycle are the caller's.

use vstd::prelude::*;

use crate::mm::context::Context;
use crate::mm::page::FlexPageKind;
use crate::mm::page_table::PageTable;
use crate::mm::MM;
use crate::object::metadata::{fits_u60, MetadataEnum, MetadataExpanded};

verus! {

/// The metadata a new object with `payload` starts with: unmarked under
/// the current meaning of the mark bit, `mark_true_bit` being the value
/// that counts as marked, and with the write barrier not yet activated.
pub fn new_object_metadata(mark_true_bit: bool, payload: MetadataEnum) -> (r: MetadataExpanded)
    requires
        fits_u60(payload.payload()),
    ensures
        r.wf(),
        r == (MetadataExpanded { is_marked: !mark_true_bit, write_barrier_activated: false, payload }),
{
    MetadataExpanded { is_marked: !mark_true_bit, write_barrier_activated: false, payload }
}

/// Whether `collect` may stand for a collection cycle of the heap: it
/// takes a well-formed heap and leaves one.
pub open spec fn collects_heap<G: Fn(MM) -> MM>(collect: G) -> bool {
    &&& forall|m: MM| m.wf() ==> #[trigger] collect.requires((m,))
    &&& forall|m: MM, n: MM| m.wf() && #[trigger] collect.ensures((m,), n) ==> n.wf()
}

/// Whether a context with no local page can place `size` bytes in the heap
/// whose page table is `table`.
pub open spec fn fresh_can_place(table: PageTable, size: int) -> bool {
    if size >= 262144 {
        table.can_place(size)
    } else {
        table.room_for(FlexPageKind::Small)
    }
}

/// Whether try `k` of the slow path failed on `heaps[k]` and the collection
/// after it turned that heap into `heaps[k + 1]`. The first try is made
/// with `ctx`, each later one with a context whose local page was dropped.
pub open spec fn try_failed<G: Fn(MM) -> MM>(
    ctx: Context,
    heaps: Seq<MM>,
    k: int,
    size: int,
    collect: G,
) -> bool {
    &&& (if k == 0 {
        !ctx.can_place(heaps[0].page_table, size)
    } else {
        !fresh_can_place(heaps[k].page_table, size)
    })
    &&& collect.ensures((heaps[k],), heaps[k + 1])
}

/// Whether `heaps` records failed tries of the slow path, each on the heap
/// the collection after the previous failed try returned.
pub open spec fn failed_tries<G: Fn(MM) -> MM>(
    ctx: Context,
    heaps: Seq<MM>,
    size: int,
    collect: G,
) -> bool {
    forall|k: int| 0 <= k < heaps.len() - 1 ==> #[trigger] try_failed(ctx, heaps, k, size, collect)
}

/// Whether the try on the last heap of `heaps` can place `size` bytes.
pub open spec fn last_try_places(ctx: Context, heaps: Seq<MM>, size: int) -> bool {
    if heaps.len() == 1 {
        ctx.can_place(heaps[0].page_table, size)
    } else {
        fresh_can_place(heaps.last().page_table, size)
    }
}

/// The slow path of an allocation of `size` bytes: up to three tries, with
/// a collection cycle (`collect`) after each one that fails. A cycle
/// starts by dropping every context's local page, so this context's is
/// dropped too. Returns the address and the slot of the page the object
/// went to. `None` comes only after three failed tries, each on the heap
/// the collection after the previous one returned.
pub fn alloc_slow<G: Fn(MM) -> MM>(ctx: &mut Context, mm: &mut MM, size: usize, collect: G) -> (r:
    Option<(usize, usize)>)
    requires
        old(mm).wf(),
        old(ctx).valid_for(old(mm).page_table),
        size % 8 == 0,
        collects_heap(collect),
    ensures
        final(mm).wf(),
        final(ctx).valid_for(final(mm).page_table),
        r matches Some((addr, id)) ==> {
            let t = final(mm).page_table;
            &&& t.slots()[id as int] is Some
            &&& size > 0 ==> t.holds(id as int, addr as int)
            &&& addr + size == t.slots()[id as int]->0.start + t.slots()[id as int]->0.used_bytes
        },
        r is None ==> final(ctx).local() is None && exists|heaps: Seq<MM>|
            {
                &&& #[trigger] failed_tries(*old(ctx), heaps, size as int, collect)
                &&& heaps.len() == 4
                &&& heaps[0] == *old(mm)
                &&& heaps[3] == *final(mm)
            },
        r matches Some((addr, id)) ==> exists|heaps: Seq<MM>|
            {
                &&& #[trigger] failed_tries(*old(ctx), heaps, size as int, collect)
                &&& 1 <= heaps.len() <= 3
                &&& heaps[0] == *old(mm)
                &&& last_try_places(*old(ctx), heaps, size as int)
                &&& final(mm).ptr() == heaps.last().ptr()
                &&& forall|i: int|
                    0 <= i < heaps.last().page_table.slots().len() && i != id
                        ==> #[trigger] final(mm).page_table.slots()[i] == heaps.last().page_table.slots()[i]
            },
{
    let ghost mut heaps: Seq<MM> = seq![*mm];
    let mut tries: usize = 0;
    while tries < 3
        invariant
            mm.wf(),
            ctx.valid_for(mm.page_table),
            size % 8 == 0,
            collects_heap(collect),
            tries <= 3,
            heaps.len() == tries + 1,
            heaps[0] == *old(mm),
            heaps.last() == *mm,
            failed_tries(*old(ctx), heaps, size as int, collect),
            tries == 0 ==> *ctx == *old(ctx),
            tries > 0 ==> ctx.local() is None,
        decreases 3 - tries,
    {
        let ghost before = *mm;
        let ghost ctx_before = *ctx;
        if let Some(placed) = ctx.allocate(mm, size) {
            proof {
                assert(failed_tries(*old(ctx), heaps, size as int, collect));
                if tries > 0 {
                    assert(ctx_before.local() is None);
                }
                assert(last_try_places(*old(ctx), heaps, size as int));
            }
            return Some(placed);
        }
        proof {
            if tries > 0 {
                assert(ctx_before.local() is None);
                assert(!fresh_can_place(before.page_table, size as int));
            }
        }
        let mut taken = MM::new(0, 1);
        std::mem::swap(mm, &mut taken);
        let ghost t0 = taken;
        assert(t0 == before);
        let back = collect(taken);
        proof {
            assert(collect.ensures((before,), back));
            let next = heaps.push(back);
            assert forall|k: int| 0 <= k < next.len() - 1 implies #[trigger] try_failed(
                *old(ctx),
                next,
                k,
                size as int,
                collect,
            ) by {
                if k < heaps.len() - 1 {
                    assert(try_failed(*old(ctx), heaps, k, size as int, collect));
                    assert(next[k] == heaps[k] && next[k + 1] == heaps[k + 1]);
                    assert(next[0] == heaps[0]);
                } else {
                    assert(next[k] == before);
                    assert(next[k + 1] == back);
                    if k == 0 {
                        assert(ctx_before == *old(ctx));
                        assert(!old(ctx).can_place(before.page_table, size as int));
                    }
                }
            }
            assert(failed_tries(*old(ctx), next, size as int, collect));
            heaps = next;
        }
        *mm = back;
        ctx.flush_local_buf();
        tries = tries + 1;
    }
    assert(failed_tries(*old(ctx), heaps, size as int, collect));
    None
}

} // verus!
