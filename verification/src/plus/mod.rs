//! A higher-level layer over the collector: descriptors of object layouts,
//! typed references into the heap, safepoints and a type registry.

pub mod bits;
pub mod context;
pub mod descriptor;
pub mod array;
pub mod gcbox;
pub mod gcref;
pub mod has_descriptor;
pub mod safepoint;
pub mod typed_root_ref;
pub mod types;

use vstd::prelude::*;

use crate::object::ObjectPtr;
use crate::plus::array::Array;
use crate::plus::bits::bitvec_max_bits;
use crate::plus::context::{takes_slot, Context, RootRefRaw};
use crate::plus::safepoint::SafepointMut;
use crate::plus::typed_root_ref::RootRef;
use crate::plus::types::TypeId;

verus! {

/// Whether `step` may stand for a collection at a safepoint of a thread
/// whose table is `ctx`-like: it may run once every live reference is
/// stored, and it only moves the objects the table points to.
pub open spec fn collects<P: FnOnce(Context) -> Context>(step: P) -> bool {
    &&& forall|c: Context| c.wf() && c.all_stored() ==> #[trigger] step.requires((c,))
    &&& forall|c: Context, d: Context| c.wf() && #[trigger] step.ensures((c,), d) ==> d.wf() && c.same_shape(d)
}

/// Whether `alloc_slow` may stand for the collector's slow allocation of
/// `size` bytes for type `type_id`: like a safepoint it may collect, so it
/// may only run once every live reference is stored, and it leaves the
/// table as a collection does.
pub open spec fn allocates_slowly<G: FnOnce(Context, u64, usize) -> (Context, Option<ObjectPtr>)>(
    alloc_slow: G,
    type_id: u64,
    size: usize,
) -> bool {
    &&& forall|c: Context| c.wf() && c.all_stored() ==> #[trigger] alloc_slow.requires((c, type_id, size))
    &&& forall|c: Context, d: Context, o: Option<ObjectPtr>|
        c.wf() && #[trigger] alloc_slow.ensures((c, type_id, size), (d, o)) ==> d.wf() && c.same_shape(d)
}

proof fn lemma_same_shape_keeps(c: Context, d: Context)
    requires
        c.same_shape(d),
    ensures
        c.keeps_refs(d),
{
}

/// A safepoint of the thread: the references `roots` holds are stored,
/// the collector may run (`collect`, which may move the objects the stored
/// references point to), and the references are loaded back. Every live
/// reference of the thread must be among `roots`, since the collector may
/// only run when all of them are stored.
pub fn safepoint<S: SafepointMut, P: FnOnce(Context) -> Context>(
    roots: &mut S,
    ctx: &mut Context,
    collect: P,
)
    requires
        old(ctx).wf(),
        old(roots).loaded_in(*old(ctx)),
        old(ctx).stored() + old(roots).count() == old(ctx).existing(),
        collects(collect),
    ensures
        final(ctx).wf(),
        final(roots).loaded_in(*final(ctx)),
        final(ctx).used() == old(ctx).used(),
        final(ctx).existing() == old(ctx).existing(),
        final(ctx).stored() == old(ctx).stored(),
        forall|i: int| #[trigger] final(roots).holds_slot(i) == old(roots).holds_slot(i),
        exists|c: Context, d: Context|
            {
                &&& c.wf()
                &&& c.all_stored()
                &&& #[trigger] collect.ensures((c,), d)
                &&& c.used() == old(ctx).used()
                &&& forall|i: int|
                    0 <= i < old(ctx).slots().len() && !old(roots).holds_slot(i) ==> #[trigger] c.slots()[i]
                        == old(ctx).slots()[i]
                &&& forall|i: int|
                    0 <= i < old(ctx).slots().len() && !old(roots).holds_slot(i)
                        ==> #[trigger] final(ctx).slots()[i] == d.slots()[i]
                &&& final(roots).loaded_from(d)
            },
{
    roots.before_safepoint(ctx);
    let mut parked = Context::new();
    std::mem::swap(ctx, &mut parked);
    assert(parked.all_stored());
    let ghost c = parked;
    let back = collect(parked);
    proof {
        lemma_same_shape_keeps(c, back);
        roots.lemma_kept(c, back);
    }
    *ctx = back;
    let ghost d = back;
    roots.after_safepoint(ctx);
    proof {
        assert(collect.ensures((c,), d));
        assert forall|i: int|
            0 <= i < old(ctx).slots().len() && !old(roots).holds_slot(i) implies #[trigger] ctx.slots()[i]
                == d.slots()[i] by {
            assert(d.slots().len() == old(ctx).slots().len());
        }
    }
}

/// An allocation of `size` bytes for type `type_id`: first by
/// `alloc_fast`, which never collects; when that fails, at a safepoint by
/// `alloc_slow`, which may collect, with the references of `roots` stored
/// around it. The object got is registered as a new loaded reference.
fn alloc_raw<
    S: SafepointMut,
    F: FnOnce(u64, usize) -> Option<ObjectPtr>,
    G: FnOnce(Context, u64, usize) -> (Context, Option<ObjectPtr>),
>(
    roots: &mut S,
    ctx: &mut Context,
    type_id: TypeId,
    size: usize,
    alloc_fast: F,
    alloc_slow: G,
) -> (r: Option<RootRefRaw>)
    requires
        old(ctx).wf(),
        old(roots).loaded_in(*old(ctx)),
        old(ctx).used().len() + 2 < bitvec_max_bits(),
        alloc_fast.requires((type_id.0, size)),
        alloc_fast.ensures((type_id.0, size), None) ==> old(ctx).stored() + old(roots).count()
            == old(ctx).existing(),
        allocates_slowly(alloc_slow, type_id.0, size),
    ensures
        final(ctx).wf(),
        final(roots).loaded_in(*final(ctx)),
        r matches Some(raw) ==> {
            &&& final(ctx).holds(raw)
            &&& raw.loaded() is Some
            &&& alloc_fast.ensures((type_id.0, size), raw.loaded()) || (alloc_fast.ensures(
                (type_id.0, size),
                None,
            ) && exists|c: Context, d: Context|
                #[trigger] alloc_slow.ensures((c, type_id.0, size), (d, raw.loaded())))
        },
        r is None ==> alloc_fast.ensures((type_id.0, size), None) && exists|c: Context, d: Context|
            #[trigger] alloc_slow.ensures((c, type_id.0, size), (d, None)),
        final(ctx).existing() == old(ctx).existing() + if r is Some {
            1int
        } else {
            0int
        },
        r matches Some(raw) ==> takes_slot(old(ctx).used(), final(ctx).used(), raw.slot() as int),
        r is None ==> final(ctx).used() == old(ctx).used(),
{
    let fast = alloc_fast(type_id.0, size);
    if fast.is_some() {
        let ghost c0 = *ctx;
        let r = ctx.alloc_fast(fast);
        proof {
            lemma_add_keeps(c0, *ctx, r->0, fast->0);
            roots.lemma_kept(c0, *ctx);
        }
        return r;
    }
    roots.before_safepoint(ctx);
    let mut parked = Context::new();
    std::mem::swap(ctx, &mut parked);
    assert(parked.all_stored());
    let (back, slow) = alloc_slow(parked, type_id.0, size);
    proof {
        lemma_same_shape_keeps(parked, back);
        roots.lemma_kept(parked, back);
    }
    *ctx = back;
    let ghost c1 = *ctx;
    let r = ctx.alloc_slow(slow);
    proof {
        if r is Some {
            lemma_add_keeps(c1, *ctx, r->0, slow->0);
            roots.lemma_kept(c1, *ctx);
        }
    }
    roots.after_safepoint(ctx);
    r
}

/// Registering a new reference keeps every live one.
proof fn lemma_add_keeps(c: Context, d: Context, raw: RootRefRaw, p: ObjectPtr)
    requires
        c.wf(),
        c.registers(d, raw, p),
    ensures
        c.keeps_refs(d),
{
    assert forall|i: int| 0 <= i < c.slots().len() && #[trigger] c.used()[i] implies {
        &&& d.used()[i]
        &&& (d.slots()[i] is Some <==> c.slots()[i] is Some)
    } by {
        if raw.slot() < c.slots().len() {
            assert(i != raw.slot());
            assert(d.slots()[i] == c.slots()[i]);
            assert(d.used()[i] == c.used()[i]);
        } else {
            assert(d.slots()[i] == c.slots().push(None)[i]);
            assert(d.used()[i] == c.used().push(true)[i]);
        }
    }
}

/// Allocates an object of the static type whose descriptor lies at
/// `descriptor_addr`, with `extra_bytes` more than the type's own size,
/// as `alloc_raw` does. The caller then writes the object's value.
pub fn allocate<
    T,
    S: SafepointMut,
    F: FnOnce(u64, usize) -> Option<ObjectPtr>,
    G: FnOnce(Context, u64, usize) -> (Context, Option<ObjectPtr>),
>(
    roots: &mut S,
    ctx: &mut Context,
    descriptor_addr: usize,
    extra_bytes: usize,
    alloc_fast: F,
    alloc_slow: G,
) -> (r: Option<RootRef<T>>)
    requires
        descriptor_addr % 4 == 0,
        old(ctx).wf(),
        old(roots).loaded_in(*old(ctx)),
        old(ctx).used().len() + 2 < bitvec_max_bits(),
        alloc_fast.requires((descriptor_addr as u64, extra_bytes)),
        alloc_fast.ensures((descriptor_addr as u64, extra_bytes), None) ==> old(ctx).stored()
            + old(roots).count() == old(ctx).existing(),
        allocates_slowly(alloc_slow, descriptor_addr as u64, extra_bytes),
    ensures
        final(ctx).wf(),
        final(roots).loaded_in(*final(ctx)),
        r matches Some(rr) ==> {
            &&& final(ctx).holds(rr.raw)
            &&& rr.raw.loaded() is Some
            &&& alloc_fast.ensures((descriptor_addr as u64, extra_bytes), rr.raw.loaded()) || (
            alloc_fast.ensures((descriptor_addr as u64, extra_bytes), None) && exists|
                c: Context,
                d: Context,
            |
                #[trigger] alloc_slow.ensures(
                    (c, descriptor_addr as u64, extra_bytes),
                    (d, rr.raw.loaded()),
                ))
        },
        r is None ==> alloc_fast.ensures((descriptor_addr as u64, extra_bytes), None) && exists|
            c: Context,
            d: Context,
        | #[trigger] alloc_slow.ensures((c, descriptor_addr as u64, extra_bytes), (d, None)),        r matches Some(rr) ==> takes_slot(old(ctx).used(), final(ctx).used(), rr.raw.slot() as int),
        r is None ==> final(ctx).used() == old(ctx).used(),
{
    let type_id = TypeId::from_descriptor(descriptor_addr);
    match alloc_raw(roots, ctx, type_id, extra_bytes, alloc_fast, alloc_slow) {
        Some(raw) => Some(RootRef::from_raw(raw)),
        None => None,
    }
}

/// Bytes an array of `len` elements of `elem_size` bytes needs, with
/// `extra_bytes` more.
pub open spec fn array_bytes(elem_size: nat, len: nat, extra_bytes: nat) -> nat {
    elem_size * len + extra_bytes
}

/// An array's bytes are its extra bytes, plus one element's size for each
/// element: no elements take only the extra bytes, one more element takes
/// one element's size more, and larger elements take more room.
pub proof fn lemma_array_bytes_per_element(elem_size: nat, len: nat, extra_bytes: nat)
    ensures
        array_bytes(elem_size, 0, extra_bytes) == extra_bytes,
        array_bytes(elem_size, len + 1, extra_bytes) == array_bytes(elem_size, len, extra_bytes)
            + elem_size,
        len >= 1 ==> array_bytes(elem_size, len, extra_bytes) >= elem_size + extra_bytes,
        forall|bigger: nat|
            len >= 1 && bigger > elem_size ==> #[trigger] array_bytes(bigger, len, extra_bytes)
                > array_bytes(elem_size, len, extra_bytes),
{
    assert(elem_size * (len + 1) == elem_size * len + elem_size) by (nonlinear_arith);
    assert(elem_size * 0 == 0) by (nonlinear_arith);
    assert(len >= 1 ==> elem_size * len >= elem_size) by (nonlinear_arith);
    assert forall|bigger: nat|
        len >= 1 && bigger > elem_size implies #[trigger] array_bytes(bigger, len, extra_bytes)
        > array_bytes(elem_size, len, extra_bytes) by {
        assert(bigger * len > elem_size * len) by (nonlinear_arith)
            requires
                len >= 1,
                bigger > elem_size,
        ;
    }
}

/// Allocates an array of `len` elements of type `T` whose array descriptor
/// lies at `descriptor_addr`, with `extra_bytes` more, as `alloc_raw`
/// does. The caller then writes the header and the elements.
pub fn alloc_array<
    T,
    S: SafepointMut,
    F: FnOnce(u64, usize) -> Option<ObjectPtr>,
    G: FnOnce(Context, u64, usize) -> (Context, Option<ObjectPtr>),
>(
    roots: &mut S,
    ctx: &mut Context,
    descriptor_addr: usize,
    extra_bytes: usize,
    len: usize,
    alloc_fast: F,
    alloc_slow: G,
) -> (r: Option<RootRef<Array<T>>>)
    requires
        descriptor_addr % 4 == 0,
        array_bytes(vstd::layout::size_of::<T>(), len as nat, extra_bytes as nat) <= usize::MAX,
        old(ctx).wf(),
        old(roots).loaded_in(*old(ctx)),
        old(ctx).used().len() + 2 < bitvec_max_bits(),
        alloc_fast.requires(
            (
                descriptor_addr as u64,
                array_bytes(vstd::layout::size_of::<T>(), len as nat, extra_bytes as nat) as usize,
            ),
        ),
        alloc_fast.ensures(
            (
                descriptor_addr as u64,
                array_bytes(vstd::layout::size_of::<T>(), len as nat, extra_bytes as nat) as usize,
            ),
            None,
        ) ==> old(ctx).stored() + old(roots).count() == old(ctx).existing(),
        allocates_slowly(
            alloc_slow,
            descriptor_addr as u64,
            array_bytes(vstd::layout::size_of::<T>(), len as nat, extra_bytes as nat) as usize,
        ),
    ensures
        final(ctx).wf(),
        final(roots).loaded_in(*final(ctx)),
        ({
            let size = array_bytes(vstd::layout::size_of::<T>(), len as nat, extra_bytes as nat) as usize;
            &&& r matches Some(rr) ==> {
                &&& final(ctx).holds(rr.raw)
                &&& rr.raw.loaded() is Some
                &&& alloc_fast.ensures((descriptor_addr as u64, size), rr.raw.loaded()) || (
                alloc_fast.ensures((descriptor_addr as u64, size), None) && exists|
                    c: Context,
                    d: Context,
                |
                    #[trigger] alloc_slow.ensures(
                        (c, descriptor_addr as u64, size),
                        (d, rr.raw.loaded()),
                    ))
            }
            &&& r is None ==> alloc_fast.ensures((descriptor_addr as u64, size), None) && exists|
                c: Context,
                d: Context,
            | #[trigger] alloc_slow.ensures((c, descriptor_addr as u64, size), (d, None))
        }),        r matches Some(rr) ==> takes_slot(old(ctx).used(), final(ctx).used(), rr.raw.slot() as int),
        r is None ==> final(ctx).used() == old(ctx).used(),
{
    let elem_size = core::mem::size_of::<T>();
    assert(elem_size * len <= usize::MAX) by (nonlinear_arith)
        requires
            elem_size * len + extra_bytes <= usize::MAX,
            extra_bytes >= 0,
    ;
    let data_bytes = elem_size * len;
    let size = data_bytes + extra_bytes;
    let type_id = TypeId::from_descriptor(descriptor_addr);
    match alloc_raw(roots, ctx, type_id, size, alloc_fast, alloc_slow) {
        Some(raw) => Some(RootRef::from_raw(raw)),
        None => None,
    }
}

} // verus!
