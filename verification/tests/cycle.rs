use uwugc::gc::{begin_cycle, finish_marking, CycleState};
use uwugc::gc_controller::GCController;
use uwugc::latency_test::non_null_pointers;
use uwugc::mm::page::{FlexPageKind, BASE_PAGE_SIZE};
use uwugc::mm::MM;
use uwugc::object::ObjectPtr;
use uwugc::plus::descriptor::Descriptor;
use uwugc::plus::types::Types;
use uwugc::plus_alloc::zero_or_init::ZeroOrInit;
use uwugc::quirks::uffd_fix_plan;
use uwugc::root_set::{root_set_size_for, root_set_size_with, DumbRootSet, RootSet};
use uwugc::type_manager::TypeManager;

const FROM: usize = 0x6000_0000_0000;
const TO: usize = 0x7000_0000_0000;

fn state_with_roots() -> CycleState<DumbRootSet> {
    let mut mm = MM::new(16 * BASE_PAGE_SIZE, FROM);
    mm.get_page_table_mut().alloc_page(FlexPageKind::Small);
    let mut a = DumbRootSet::new(3);
    a.set_slot(0, Some(ObjectPtr(FROM + 0x40)));
    a.set_slot(2, Some(ObjectPtr(FROM + 0x100)));
    let mut b = DumbRootSet::new(1);
    b.set_slot(0, Some(ObjectPtr(FROM + 0x80)));
    let mut types = Types::new();
    types.register(Descriptor::new(vec![], 8));
    types.register(Descriptor::new(vec![], 16));
    CycleState {
        mm,
        second_mm: Some(MM::new(16 * BASE_PAGE_SIZE, TO)),
        mark_true_bit: false,
        types,
        root_sets: vec![a, b],
    }
}

#[test]
fn begin_cycle_needs_a_spare_heap() {
    let mut state = state_with_roots();
    state.second_mm = None;
    let mut controller = GCController::new();
    controller.start_cycle();
    assert!(begin_cycle(&mut state, &mut controller).is_none());
    assert!(!state.mark_true_bit);
    assert!(controller.is_requested);
}

#[test]
fn cycle_snapshots_roots_and_swaps_heaps() {
    let mut state = state_with_roots();
    let mut controller = GCController::new();
    controller.start_cycle();
    let start = begin_cycle(&mut state, &mut controller).unwrap();
    assert!(!controller.is_requested);
    assert!(!start.mark_true_bit);
    assert!(state.mark_true_bit);
    assert!(state.second_mm.is_none());
    assert_eq!(start.roots.len(), 2);
    assert!(start.roots[0] == vec![ObjectPtr(FROM + 0x40), ObjectPtr(FROM + 0x100)]);
    assert!(start.roots[1] == vec![ObjectPtr(FROM + 0x80)]);
    assert_eq!(start.heap.start, FROM);
    assert_eq!(start.heap.used_end_page, 1);
    assert_eq!(start.heap.used_end, FROM + BASE_PAGE_SIZE);
    assert_eq!(start.heap.to_space, TO);
    // Only the first registered type is found alive while marking runs.
    assert!(state.types.set_alive(2));
    let records = |offset: usize| -> Option<usize> {
        match offset {
            0x40 => Some(0x0),
            0x80 => Some(0x20),
            0x100 => Some(0x10),
            _ => None,
        }
    };
    let (later, from_space) = finish_marking(&mut state, start, &records);
    assert_eq!(from_space.get_mapping().0, FROM);
    assert_eq!(state.mm.get_mapping().0, TO);
    assert_eq!(later.later_used_end_page, 1);
    assert_eq!(later.later_used_end, FROM + BASE_PAGE_SIZE);
    assert_eq!(later.compacted_end_page, 1);
    assert_eq!(later.used_end_page, 1);
    assert_eq!(later.compacted_end, TO);
    assert!(state.root_sets[0].iter_pointers() == vec![ObjectPtr(TO), ObjectPtr(TO + 0x10)]);
    assert!(state.root_sets[1].iter_pointers() == vec![ObjectPtr(TO + 0x20)]);
    assert_eq!(state.types.get_size(2), Some(8));
    assert_eq!(state.types.get_size(6), None);
}

#[test]
fn zeroed_storage_reads_as_zero() {
    let z: ZeroOrInit<u64> = ZeroOrInit::zeroed();
    assert_eq!(z.read(), 0);
    let z = ZeroOrInit::new(41u64);
    assert_eq!(z.read(), 41);
    let b: ZeroOrInit<bool> = ZeroOrInit::zeroed();
    assert!(!b.read());
}

#[test]
fn latency_window_visits_non_null_pointers_in_order() {
    let values = vec![0, 0x1000, 0, 0, 0x2000, 0x1000];
    let got = non_null_pointers(&values);
    assert!(got == vec![ObjectPtr(0x1000), ObjectPtr(0x2000), ObjectPtr(0x1000)]);
    assert!(non_null_pointers(&vec![0; 8]).is_empty());
}

#[test]
fn root_set_size_with_rounds_or_refuses() {
    assert_eq!(root_set_size_with(1, 4096), Some((4096, 4096)));
    assert_eq!(root_set_size_with(8192, 4096), Some((4096, 8192)));
    assert_eq!(root_set_size_with(0, 4096), Some((4096, 0)));
    assert_eq!(root_set_size_with(1, 0), None);
    assert_eq!(root_set_size_with(usize::MAX - 10, 4096), None);
    let (ps, n) = root_set_size_for(100).unwrap();
    assert!(ps > 0 && n % ps == 0 && n >= 100 && n < 100 + ps);
}

#[test]
fn uffd_plan_uses_system_page_size() {
    let (ps, plan) = uffd_fix_plan(0, 0, 0).unwrap();
    assert!(ps > 0);
    assert!(plan.is_none());
    let (ps, plan) = uffd_fix_plan(0, 1, 4 * ps).unwrap();
    assert_eq!(plan, Some((ps, 3 * ps)));
    assert!(uffd_fix_plan(0, 5, 4).is_none());
}
