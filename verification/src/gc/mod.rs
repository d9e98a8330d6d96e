//! The state the collector keeps from one cycle to the next, and the parts
//! of a cycle that decide what moves where: the heap snapshot taken when the
//! roots are captured, the pages handed over to the to-space, and the root
//! pointers rewritten to the objects' new places.

pub mod copier;

use vstd::prelude::*;

use crate::gc::copier::Copier;
use crate::gc_controller::GCController;
use crate::mm::page::{FlexPage, BASE_PAGE_SIZE};
use crate::mm::page_table::{page_addr, PageTable};
use crate::mm::MM;
use crate::object::ObjectPtr;
use crate::plus::types::{alive_entries, all_dead, Types};
use crate::root_set::{flattened, RootSet};
use crate::type_manager::TypeManager;

verus! {

/// Arguments of the collector.
#[derive(Clone, Copy)]
pub struct GCArgs {}

/// What the collector keeps between cycles, so that it need not be made
/// again each time.
pub struct PersistentState {
    pub args: GCArgs,
    pub copier: Option<Copier>,
}

impl PersistentState {
    /// The state of the first cycle.
    pub fn new(args: &GCArgs) -> (r: Self)
        ensures
            r.copier is Some,
    {
        PersistentState { args: *args, copier: Some(Copier::new()) }
    }
}

/// Where the heap stood when a cycle took its root snapshot: the start of
/// the from-space, the end of what had been handed out (as an address and
/// as a base page), the size of the mapping, and the start of the to-space.
#[derive(Clone, Copy)]
pub struct HeapInfo {
    pub start: usize,
    pub used_end: usize,
    pub size: usize,
    pub used_end_page: usize,
    pub to_space: usize,
}

/// The snapshot of `mm`, with the to-space mapped at `to_space`.
pub open spec fn heap_info_of(mm: MM, to_space: usize) -> HeapInfo {
    HeapInfo {
        start: mm.ptr() as usize,
        used_end: page_addr(mm.page_table.base(), mm.page_table.used_end()) as usize,
        size: mm.len() as usize,
        used_end_page: mm.page_table.used_end() as usize,
        to_space,
    }
}

impl HeapInfo {
    /// The snapshot of `mm`, with the to-space mapped at `to_space`.
    pub fn capture(mm: &MM, to_space: usize) -> (r: HeapInfo)
        requires
            mm.wf(),
        ensures
            r == heap_info_of(*mm, to_space),
            r.start == mm.ptr(),
            r.used_end == page_addr(mm.page_table.base(), mm.page_table.used_end()),
            r.size == mm.len(),
            r.used_end_page == mm.page_table.used_end(),
            r.to_space == to_space,
    {
        let (start, size) = mm.get_mapping();
        let table = mm.get_page_table();
        HeapInfo {
            start,
            used_end: table.get_top_addr(),
            size,
            used_end_page: table.get_used_end_page(),
            to_space,
        }
    }
}

/// The slot a table based at `base` files `page` under when it is donated.
pub open spec fn donation_slot(base: int, page: FlexPage) -> int {
    (page.start as int) / (BASE_PAGE_SIZE as int) - base
}

/// Whether a table based at `base` with `total` slots, in the state
/// (`used_end`, `slots`), accepts the donation of every page of `pages` in
/// order, skipping empty entries: each lands in an empty slot inside the
/// table, at or after the end of use left by the one before.
pub open spec fn donations_ok(
    base: int,
    total: int,
    used_end: int,
    slots: Seq<Option<FlexPage>>,
    pages: Seq<Option<FlexPage>>,
) -> bool
    decreases pages.len(),
{
    if pages.len() == 0 {
        true
    } else {
        match pages[0] {
            None => donations_ok(base, total, used_end, slots, pages.drop_first()),
            Some(p) => {
                let s = donation_slot(base, p);
                &&& 0 <= s < total
                &&& s >= used_end
                &&& s + p.kind.spec_nr_pages() <= usize::MAX
                &&& slots[s] is None
                &&& donations_ok(
                    base,
                    total,
                    s + p.kind.spec_nr_pages(),
                    slots.update(s, Some(p)),
                    pages.drop_first(),
                )
            },
        }
    }
}

/// The end of use and the slots of the table after those donations.
pub open spec fn donated(
    base: int,
    used_end: int,
    slots: Seq<Option<FlexPage>>,
    pages: Seq<Option<FlexPage>>,
) -> (int, Seq<Option<FlexPage>>)
    decreases pages.len(),
{
    if pages.len() == 0 {
        (used_end, slots)
    } else {
        match pages[0] {
            None => donated(base, used_end, slots, pages.drop_first()),
            Some(p) => {
                let s = donation_slot(base, p);
                donated(
                    base,
                    s + p.kind.spec_nr_pages(),
                    slots.update(s, Some(p)),
                    pages.drop_first(),
                )
            },
        }
    }
}

/// Hands the pages that `from` holds in slots `start_page..end_page` over
/// to `to`, in slot order: the pages that mutators took while a cycle was
/// marking, which the to-space keeps where they are.
pub fn donate_pages(from: &PageTable, to: &mut PageTable, start_page: usize, end_page: usize)
    requires
        start_page <= end_page <= from.slots().len(),
        old(to).slots().len() == old(to).total(),
        donations_ok(
            old(to).base(),
            old(to).total(),
            old(to).used_end(),
            old(to).slots(),
            from.slots().subrange(start_page as int, end_page as int),
        ),
    ensures
        final(to).base() == old(to).base(),
        final(to).total() == old(to).total(),
        final(to).medium() == old(to).medium(),
        (final(to).used_end(), final(to).slots()) == donated(
            old(to).base(),
            old(to).used_end(),
            old(to).slots(),
            from.slots().subrange(start_page as int, end_page as int),
        ),
        old(to).wf() && from.wf() && final(to).used_end() <= final(to).total() ==> final(to).wf(),
{
    let ghost all = from.slots().subrange(start_page as int, end_page as int);
    let mut page: usize = start_page;
    while page < end_page
        invariant
            start_page <= page <= end_page <= from.slots().len(),
            all == from.slots().subrange(start_page as int, end_page as int),
            to.slots().len() == to.total(),
            to.base() == old(to).base(),
            to.total() == old(to).total(),
            to.medium() == old(to).medium(),
            donations_ok(
                to.base(),
                to.total(),
                to.used_end(),
                to.slots(),
                from.slots().subrange(page as int, end_page as int),
            ),
            donated(
                to.base(),
                to.used_end(),
                to.slots(),
                from.slots().subrange(page as int, end_page as int),
            ) == donated(old(to).base(), old(to).used_end(), old(to).slots(), all),
            old(to).wf() && from.wf() ==> (to.used_end() <= to.total() ==> to.wf()),
        decreases end_page - page,
    {
        let ghost rest = from.slots().subrange(page as int, end_page as int);
        assert(rest.drop_first() =~= from.slots().subrange(page + 1, end_page as int));
        assert(rest[0] == from.slots()[page as int]);
        if let Some(p) = from.get_page(page) {
            to.donate_page(&p);
        }
        page = page + 1;
    }
    proof {
        assert(from.slots().subrange(page as int, end_page as int).len() == 0);
    }
}

/// Where an object lands: its offset `dest` in the compacted heap, placed in
/// the to-space that starts at `to_space`.
pub open spec fn relocated(to_space: usize, dest: usize) -> ObjectPtr {
    ObjectPtr(to_space.wrapping_add(dest))
}

/// Every pointer in `slots` points into the heap that starts at
/// `heap_start`, and `records` has a destination for its offset.
pub open spec fn has_records<F: Fn(usize) -> Option<usize>>(
    slots: Seq<Option<ObjectPtr>>,
    heap_start: usize,
    records: F,
) -> bool {
    &&& forall|i: int|
        0 <= i < slots.len() && (#[trigger] slots[i]) is Some ==> slots[i]->0.addr() >= heap_start
    &&& forall|i: int, m: Option<usize>|
        0 <= i < slots.len() && (#[trigger] slots[i]) is Some && #[trigger] records.ensures(
            ((slots[i]->0.addr() - heap_start) as usize,),
            m,
        ) ==> m is Some
}

/// `after` is `before` with every pointer moved to the place `records`
/// gives its offset from `heap_start`, in the to-space at `to_space`;
/// empty slots stay empty.
pub open spec fn relocated_slots<F: Fn(usize) -> Option<usize>>(
    before: Seq<Option<ObjectPtr>>,
    after: Seq<Option<ObjectPtr>>,
    heap_start: usize,
    to_space: usize,
    records: F,
) -> bool {
    &&& after.len() == before.len()
    &&& forall|i: int|
        0 <= i < before.len() ==> ((#[trigger] after[i]) is Some <==> before[i] is Some)
    &&& forall|i: int|
        0 <= i < before.len() && (#[trigger] before[i]) is Some ==> exists|d: usize|
            records.ensures(((before[i]->0.addr() - heap_start) as usize,), Some(d))
                && after[i]->0 == relocated(to_space, d)
}

/// Rewrites every pointer of `root_set` to the place its object moves to:
/// the pointer's offset from `heap_start` is mapped by `map_src_to_dest`,
/// the relocation records of the cycle, to an offset in the to-space.
/// Every root must point into the heap and have a record.
pub fn fix_root_set<R: RootSet, F: Fn(usize) -> Option<usize>>(
    root_set: &mut R,
    heap_start: usize,
    to_space: usize,
    map_src_to_dest: &F,
)
    requires
        forall|o: usize| #[trigger] map_src_to_dest.requires((o,)),
        has_records(old(root_set).slots(), heap_start, *map_src_to_dest),
    ensures
        relocated_slots(
            old(root_set).slots(),
            final(root_set).slots(),
            heap_start,
            to_space,
            *map_src_to_dest,
        ),
{
    let ghost before = root_set.slots();
    let visitor = |x: ObjectPtr| -> (r: ObjectPtr)
        requires
            x.0 >= heap_start,
            forall|m: Option<usize>|
                #[trigger] map_src_to_dest.ensures(((x.0 - heap_start) as usize,), m) ==> m is Some,
        ensures
            exists|d: usize|
                map_src_to_dest.ensures(((x.0 - heap_start) as usize,), Some(d)) && r
                    == relocated(to_space, d),
        {
            let offset: usize = x.0 - heap_start;
            let mapped = map_src_to_dest(offset);
            let d = mapped.unwrap();
            let moved = ObjectPtr(to_space.wrapping_add(d));
            assert(map_src_to_dest.ensures((offset,), Some(d)));
            assert(moved == relocated(to_space, d));
            moved
        };
    root_set.map_pointers(visitor);
}

/// Where the heap stood when a cycle stopped the mutators a second time,
/// after marking: the snapshot of the first stop, the end of what the
/// mutators took meanwhile, and the end of the compacted heap.
#[derive(Clone, Copy)]
pub struct HeapInfoLater {
    pub start: usize,
    pub used_end: usize,
    pub to_space: usize,
    pub size: usize,
    pub used_end_page: usize,
    pub compacted_end: usize,
    pub compacted_end_page: usize,
    pub later_used_end: usize,
    pub later_used_end_page: usize,
}

/// The shared state that the stop-the-world steps of a cycle decide on:
/// the heap mutators allocate from, the spare heap that becomes the
/// to-space, which value of the mark bit means marked, the registered
/// types, and the root set of every mutator.
pub struct CycleState<R: RootSet> {
    pub mm: MM,
    pub second_mm: Option<MM>,
    pub mark_true_bit: bool,
    pub types: Types,
    pub root_sets: Vec<R>,
}

/// What the first stop of a cycle hands to marking: the value of the mark
/// bit that marks objects in this cycle, the pointers of every root set as
/// they were, the heap snapshot, and the to-space.
pub struct CycleStart {
    pub mark_true_bit: bool,
    pub roots: Vec<Vec<ObjectPtr>>,
    pub heap: HeapInfo,
    pub second_mm: MM,
}

/// The first stop of a cycle: flips the meaning of the mark bit, snapshots
/// the pointers of every root set, drops the requests made up to now,
/// assumes every registered type dead, captures the heap and takes the
/// spare heap as the to-space. Without a spare heap nothing is done and
/// `None` is returned.
pub fn begin_cycle<R: RootSet>(state: &mut CycleState<R>, controller: &mut GCController) -> (r:
    Option<CycleStart>)
    requires
        old(state).mm.wf(),
        old(state).types.wf(),
    ensures
        r is None <==> old(state).second_mm is None,
        r is None ==> *final(state) == *old(state) && *final(controller) == *old(controller),
        r is Some ==> *final(controller) == (GCController {
            is_requested: false,
            ..*old(controller)
        }),
        r matches Some(s) ==> {
            &&& s.mark_true_bit == old(state).mark_true_bit
            &&& final(state).mark_true_bit == !old(state).mark_true_bit
            &&& s.roots@.len() == old(state).root_sets@.len()
            &&& forall|k: int|
                0 <= k < s.roots@.len() ==> (#[trigger] s.roots@[k])@ == flattened(
                    old(state).root_sets@[k].slots(),
                )
            &&& s.second_mm == old(state).second_mm->0
            &&& s.heap == heap_info_of(old(state).mm, s.second_mm.ptr() as usize)
            &&& final(state).second_mm is None
            &&& final(state).mm == old(state).mm
            &&& final(state).root_sets == old(state).root_sets
            &&& final(state).types.wf()
            &&& final(state).types.latest() == old(state).types.latest()
            &&& final(state).types.statics() == old(state).types.statics()
            &&& final(state).types.entries() == all_dead(old(state).types.entries())
        },
{
    if state.second_mm.is_none() {
        return None;
    }
    let mark_true_bit = state.mark_true_bit;
    state.mark_true_bit = !mark_true_bit;
    let mut roots: Vec<Vec<ObjectPtr>> = Vec::new();
    let mut k: usize = 0;
    while k < state.root_sets.len()
        invariant
            k <= state.root_sets@.len(),
            state.root_sets == old(state).root_sets,
            roots@.len() == k,
            forall|j: int|
                0 <= j < k ==> (#[trigger] roots@[j])@ == flattened(state.root_sets@[j].slots()),
        decreases state.root_sets@.len() - k,
    {
        let snapshot = state.root_sets[k].iter_pointers();
        roots.push(snapshot);
        k = k + 1;
    }
    controller.clear_request();
    state.types.assume_all_dead();
    let second_mm = state.second_mm.take().unwrap();
    let heap = HeapInfo::capture(&state.mm, second_mm.mapping_ptr);
    Some(CycleStart { mark_true_bit, roots, heap, second_mm })
}

/// The state of a cycle's second stop, as `finish_marking` needs it: both
/// heaps well formed, the pages the mutators took since the snapshot
/// accepted by the to-space, and a relocation record for every root.
pub open spec fn ready_to_finish<R: RootSet, F: Fn(usize) -> Option<usize>>(
    state: CycleState<R>,
    start: CycleStart,
    records: F,
) -> bool {
    &&& state.mm.wf()
    &&& start.second_mm.wf()
    &&& state.types.wf()
    &&& start.heap.used_end_page <= state.mm.page_table.used_end()
    &&& donations_ok(
        start.second_mm.page_table.base(),
        start.second_mm.page_table.total(),
        start.second_mm.page_table.used_end(),
        start.second_mm.page_table.slots(),
        state.mm.page_table.slots().subrange(
            start.heap.used_end_page as int,
            state.mm.page_table.used_end(),
        ),
    )
    &&& forall|o: usize| #[trigger] records.requires((o,))
    &&& forall|k: int|
        0 <= k < state.root_sets@.len() ==> has_records(
            (#[trigger] state.root_sets@[k]).slots(),
            start.heap.start,
            records,
        )
}

/// The second stop of a cycle, once marking is done: hands the pages the
/// mutators took since the snapshot over to the to-space, moves every root
/// to the place `records` gives its object, wipes the types no object was
/// found of, and swaps the to-space in as the heap. Returns where the heap
/// stood and the from-space, which the copier empties.
pub fn finish_marking<R: RootSet, F: Fn(usize) -> Option<usize>>(
    state: &mut CycleState<R>,
    start: CycleStart,
    records: &F,
) -> (r: (HeapInfoLater, MM))
    requires
        ready_to_finish(*old(state), start, *records),
    ensures
        r.1 == old(state).mm,
        final(state).mm.ptr() == start.second_mm.ptr(),
        final(state).mm.len() == start.second_mm.len(),
        final(state).mm.page_table.base() == start.second_mm.page_table.base(),
        final(state).mm.page_table.total() == start.second_mm.page_table.total(),
        final(state).mm.page_table.medium() == start.second_mm.page_table.medium(),
        (final(state).mm.page_table.used_end(), final(state).mm.page_table.slots()) == donated(
            start.second_mm.page_table.base(),
            start.second_mm.page_table.used_end(),
            start.second_mm.page_table.slots(),
            old(state).mm.page_table.slots().subrange(
                start.heap.used_end_page as int,
                old(state).mm.page_table.used_end(),
            ),
        ),
        final(state).second_mm == old(state).second_mm,
        final(state).mark_true_bit == old(state).mark_true_bit,
        final(state).root_sets@.len() == old(state).root_sets@.len(),
        forall|k: int|
            0 <= k < old(state).root_sets@.len() ==> relocated_slots(
                (#[trigger] old(state).root_sets@[k]).slots(),
                final(state).root_sets@[k].slots(),
                start.heap.start,
                start.heap.to_space,
                *records,
            ),
        final(state).types.latest() == old(state).types.latest(),
        final(state).types.statics() == old(state).types.statics(),
        final(state).types.entries() == alive_entries(old(state).types.entries()),
        r.0 == (HeapInfoLater {
            start: start.heap.start,
            used_end: start.heap.used_end,
            to_space: start.heap.to_space,
            size: start.heap.size,
            used_end_page: start.heap.used_end_page,
            compacted_end: page_addr(
                start.second_mm.page_table.base(),
                start.second_mm.page_table.used_end(),
            ) as usize,
            compacted_end_page: old(state).mm.page_table.used_end() as usize,
            later_used_end: page_addr(
                old(state).mm.page_table.base(),
                old(state).mm.page_table.used_end(),
            ) as usize,
            later_used_end_page: old(state).mm.page_table.used_end() as usize,
        }),
{
    let mut second = start.second_mm;
    let compacted_end = second.page_table.get_top_addr();
    let later_used_end = state.mm.page_table.get_top_addr();
    let later_used_start_page = start.heap.used_end_page;
    let later_used_end_page = state.mm.page_table.get_used_end_page();
    donate_pages(
        &state.mm.page_table,
        &mut second.page_table,
        later_used_start_page,
        later_used_end_page,
    );
    let compacted_end_page = state.mm.page_table.get_used_end_page();
    let n = state.root_sets.len();
    let mut k: usize = 0;
    while k < n
        invariant
            k <= n,
            n == old(state).root_sets@.len(),
            state.root_sets@.len() == n,
            forall|o: usize| #[trigger] records.requires((o,)),
            forall|j: int|
                k <= j < n ==> #[trigger] state.root_sets@[j] == old(state).root_sets@[j],
            forall|j: int|
                0 <= j < n ==> has_records(
                    (#[trigger] old(state).root_sets@[j]).slots(),
                    start.heap.start,
                    *records,
                ),
            forall|j: int|
                0 <= j < k ==> relocated_slots(
                    (#[trigger] old(state).root_sets@[j]).slots(),
                    state.root_sets@[j].slots(),
                    start.heap.start,
                    start.heap.to_space,
                    *records,
                ),
            state.mm == old(state).mm,
            state.second_mm == old(state).second_mm,
            state.mark_true_bit == old(state).mark_true_bit,
            state.types == old(state).types,
        decreases n - k,
    {
        let mut root_set = state.root_sets.remove(k);
        fix_root_set(&mut root_set, start.heap.start, start.heap.to_space, records);
        state.root_sets.insert(k, root_set);
        k = k + 1;
    }
    state.types.wipe_deads();
    let heap_info = HeapInfoLater {
        start: start.heap.start,
        used_end: start.heap.used_end,
        to_space: start.heap.to_space,
        size: start.heap.size,
        used_end_page: start.heap.used_end_page,
        compacted_end,
        compacted_end_page,
        later_used_end,
        later_used_end_page,
    };
    std::mem::swap(&mut state.mm, &mut second);
    (heap_info, second)
}

} // verus!
