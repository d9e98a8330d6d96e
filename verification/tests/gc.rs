use uwugc::gc::copier::{Copier, RelocationRecord};
use uwugc::gc::{donate_pages, fix_root_set, GCArgs, HeapInfo, PersistentState};
use uwugc::latency_test::{LatencyTestTypeManager, WINDOW_SIZE, WINDOW_TYPE_ID};
use uwugc::mm::page::{FlexPage, FlexPageKind, BASE_PAGE_SIZE};
use uwugc::mm::page_table::PageTable;
use uwugc::mm::MM;
use uwugc::object::metadata::{MetadataEnum, MetadataExpanded};
use uwugc::object::ObjectPtr;
use uwugc::objects_manager::{AllocError, LocalObjectsChain, Object, ObjectManager};
use uwugc::quirks::{uffd_fix_moved, uffd_fix_start};
use uwugc::root_set::{round_root_set_size, DumbRootSet, NoopRootSet, RootSet, RootSetRaw};
use uwugc::type_manager::{NoopTypeManager, TypeManager, TypeManagerConcrete};

const BASE: usize = 0x6000_0000_0000;

#[test]
fn heap_info_snapshot() {
    let mut mm = MM::new(8 * BASE_PAGE_SIZE, BASE);
    mm.get_page_table_mut().alloc_page(FlexPageKind::Medium);
    let info = HeapInfo::capture(&mm, 0x7000_0000_0000);
    assert_eq!(info.start, BASE);
    assert_eq!(info.size, 8 * BASE_PAGE_SIZE);
    assert_eq!(info.used_end_page, 4);
    assert_eq!(info.used_end, BASE + 4 * BASE_PAGE_SIZE);
    assert_eq!(info.to_space, 0x7000_0000_0000);
    assert!(PersistentState::new(&GCArgs {}).copier.is_some());
}

#[test]
fn donate_pages_moves_later_pages_in_order() {
    // The receiving table is based at 1, so a page starting at base page
    // `n` is filed under slot `n - 1`.
    let mut from = PageTable::new(BASE_PAGE_SIZE, 8);
    assert_eq!(from.alloc_page(FlexPageKind::Small), Some(0));
    assert_eq!(from.alloc_page(FlexPageKind::Medium), Some(1));
    assert_eq!(from.alloc_page(FlexPageKind::Small), Some(5));
    let mut to = PageTable::new(1, 8);
    donate_pages(&from, &mut to, 1, 6);
    assert_eq!(to.get_used_end_page(), 6);
    assert!(to.get_page(0).is_none());
    assert_eq!(to.get_page(1).unwrap().start(), 2 * BASE_PAGE_SIZE);
    assert_eq!(to.get_page(5).unwrap().start(), 6 * BASE_PAGE_SIZE);
    assert!(to.get_page(2).is_none());
}

#[test]
fn fix_root_set_relocates_every_root() {
    let mut roots = DumbRootSet::new(3);
    roots.set_slot(0, Some(ObjectPtr(BASE + 0x40)));
    roots.set_slot(2, Some(ObjectPtr(BASE + 0x100)));
    let to_space = 0x7000_0000_0000usize;
    fix_root_set(&mut roots, BASE, to_space, &|offset: usize| match offset {
        0x40 => Some(0x0),
        0x100 => Some(0x18),
        _ => None,
    });
    let slots = roots.as_slice();
    assert!(slots[0] == Some(ObjectPtr(to_space)));
    assert!(slots[1].is_none());
    assert!(slots[2] == Some(ObjectPtr(to_space + 0x18)));
    assert!(roots.iter_pointers() == vec![ObjectPtr(to_space), ObjectPtr(to_space + 0x18)]);
}

#[test]
fn copier_moves_each_record() {
    let from_space: Vec<u8> = (0u8..32).collect();
    let mut heap = vec![0xAAu8; 16];
    let records = vec![
        RelocationRecord { src: 8, dest: 0, size: 4 },
        RelocationRecord { src: 20, dest: 4, size: 2 },
        RelocationRecord { src: 0, dest: 12, size: 4 },
    ];
    let active = Copier::new().start(&mut heap, &from_space, records);
    assert_eq!(heap, vec![8, 9, 10, 11, 20, 21, 0xAA, 0xAA, 0xAA, 0xAA, 0xAA, 0xAA, 0, 1, 2, 3]);
    let (records, _copier) = active.finish();
    assert_eq!(records.len(), 3);
}

#[test]
fn copier_later_record_wins_on_overlap() {
    let from_space: Vec<u8> = vec![1, 2, 3, 4];
    let mut heap = vec![0u8; 4];
    let records = vec![
        RelocationRecord { src: 0, dest: 0, size: 3 },
        RelocationRecord { src: 3, dest: 1, size: 1 },
    ];
    Copier::new().start(&mut heap, &from_space, records);
    assert_eq!(heap, vec![1, 4, 3, 0]);
}

#[test]
fn object_manager_usage_and_limit() {
    let mut owner: ObjectManager<u32> = ObjectManager::new(100);
    let mut chain = LocalObjectsChain::new();
    assert!(chain.try_alloc(&mut owner, 40, || 1).is_ok());
    assert!(chain.try_alloc(&mut owner, 40, || 2).is_ok());
    assert_eq!(owner.get_usage(), 80);
    // Reaching the maximum size is refused.
    assert!(chain.try_alloc(&mut owner, 20, || 3) == Err(AllocError));
    assert_eq!(owner.get_usage(), 80);
    assert!(chain.try_alloc(&mut owner, 19, || 4).is_ok());
    assert_eq!(owner.get_usage(), 99);
}

#[test]
fn sweeper_frees_unmarked_objects() {
    let mut owner: ObjectManager<u32> = ObjectManager::new(1000);
    let mut chain = LocalObjectsChain::new();
    chain.try_alloc(&mut owner, 100, || 1).unwrap();
    chain.try_alloc(&mut owner, 200, || 2).unwrap();
    let mut contexts = vec![chain];
    // New objects carry the mark value `false`, while `true` counts as
    // marked: nothing is marked yet.
    let sweeper = owner.create_sweeper(&mut contexts);
    sweeper.sweep_and_reset_mark_flag(&mut owner);
    assert_eq!(owner.get_usage(), 0);
    // After flipping, new objects count as marked and survive.
    owner.flip_marked_bit_value();
    let mut chain = LocalObjectsChain::new();
    chain.try_alloc(&mut owner, 50, || 3).unwrap();
    let mut contexts = vec![chain];
    let sweeper = owner.create_sweeper(&mut contexts);
    sweeper.sweep_and_reset_mark_flag(&mut owner);
    assert_eq!(owner.get_usage(), 50);
}

#[test]
fn sweep_keeps_what_predicate_keeps() {
    let mut owner: ObjectManager<u32> = ObjectManager::new(1000);
    let mut chain = LocalObjectsChain::new();
    chain.try_alloc(&mut owner, 8, || 10).unwrap();
    chain.try_alloc(&mut owner, 16, || 20).unwrap();
    chain.try_alloc(&mut owner, 24, || 30).unwrap();
    chain.flush_to_global(&mut owner);
    owner.sweep(|o: &Object<u32>| o.total_size != 16);
    assert_eq!(owner.get_usage(), 32);
    // The survivors keep their data; the one swept out is gone.
    owner.sweep(|o: &Object<u32>| o.data >= 30);
    assert_eq!(owner.get_usage(), 24);
    owner.sweep(|o: &Object<u32>| {
        assert_eq!(o.data, 30);
        true
    });
    assert_eq!(owner.get_usage(), 24);
}

#[test]
fn mark_bit_follows_manager() {
    let mut owner: ObjectManager<u8> = ObjectManager::new(10);
    let mut obj = Object { marked: false, total_size: 8, data: 5u8 };
    assert!(!owner.is_marked(&obj));
    assert!(!owner.set_mark_bit(&mut obj));
    assert!(owner.is_marked(&obj));
    assert_eq!(obj.data, 5);
    owner.flip_marked_bit_value();
    assert!(!owner.is_marked(&obj));
    owner.flip_new_marked_bit_value();
}

#[test]
fn uffd_fix_counts_resident_pages() {
    assert_eq!(uffd_fix_start(0x10000, 0x3000, 0x3000, 0x1000), None);
    assert_eq!(uffd_fix_start(0x10000, 0x2800, 0x5000, 0x1000), Some((0x3000, 0x2000)));
    assert_eq!(uffd_fix_start(0x10000, 0x2000, 0x5000, 0x1000), Some((0x2000, 0x3000)));
    assert_eq!(uffd_fix_start(0x10000, 0x4001, 0x5000, 0x1000), Some((0x5000, 0)));
    assert_eq!(uffd_fix_moved(0x3000, 0x1000, &vec![1, 3, 0, 1]), 0x5000);
    assert_eq!(uffd_fix_moved(0x3000, 0x1000, &vec![]), 0x3000);
    assert_eq!(uffd_fix_moved(0x3000, 0x1000, &vec![2, 1]), 0x3000);
}

#[test]
fn root_set_sizes_round_to_pages() {
    assert_eq!(round_root_set_size(0, 4096), 0);
    assert_eq!(round_root_set_size(1, 4096), 4096);
    assert_eq!(round_root_set_size(4096, 4096), 4096);
    assert_eq!(round_root_set_size(4097, 4096), 8192);
    let raw = RootSetRaw::new(0x1000, 8192);
    assert_eq!(raw.get_ptr(), 0x1000);
    assert_eq!(raw.get_size(), 8192);
    let noop = NoopRootSet::new(raw);
    assert!(noop.iter_pointers().is_empty());
}

#[test]
fn latency_type_manager_window_slots() {
    let mut m = LatencyTestTypeManager;
    let obj = ObjectPtr(0x1000);
    let ps = usize::BITS as usize / 8;
    let slots = m.iterate_gc_pointers(WINDOW_TYPE_ID, obj).unwrap();
    assert_eq!(slots.len(), WINDOW_SIZE);
    assert_eq!(slots[0], 0x1008);
    assert_eq!(slots[1], 0x1008 + ps);
    assert_eq!(slots[WINDOW_SIZE - 1], 0x1008 + (WINDOW_SIZE - 1) * ps);
    assert!(m.update_gc_pointers(WINDOW_TYPE_ID + 1, obj).is_none());
    assert_eq!(m.get_size(WINDOW_TYPE_ID), Some(ps * WINDOW_SIZE));
    assert!(m.set_alive(WINDOW_TYPE_ID));
    assert!(!m.set_alive(7));
}

#[test]
fn concrete_manager_sizes_include_metadata() {
    let c = TypeManagerConcrete::new(LatencyTestTypeManager);
    let pod = MetadataExpanded {
        is_marked: false,
        write_barrier_activated: false,
        payload: MetadataEnum::PlainOldData(24),
    };
    assert_eq!(c.get_size(&pod), 32);
    let arr = MetadataExpanded { payload: MetadataEnum::RefArray(3), ..pod };
    assert_eq!(c.get_size(&arr), 32);
    let user = MetadataExpanded { payload: MetadataEnum::NotPlainOldData(WINDOW_TYPE_ID), ..pod };
    let ps = usize::BITS as usize / 8;
    assert_eq!(c.get_size(&user), ps * WINDOW_SIZE + 8);
    assert_eq!(c.iterate_gc_pointers(ObjectPtr(0), &user).len(), WINDOW_SIZE);
    assert!(c.update_gc_pointers(ObjectPtr(0), &pod).is_empty());
    let noop = TypeManagerConcrete::new(NoopTypeManager);
    assert_eq!(noop.get_size(&pod), 32);
    assert!(noop.iterate_gc_pointers(ObjectPtr(0), &pod).is_empty());
}

#[test]
fn dumb_root_set_maps_pointers() {
    let mut roots = DumbRootSet::new(2);
    roots.set_slot(1, Some(ObjectPtr(0x10)));
    roots.map_pointers(|p: ObjectPtr| ObjectPtr(p.0 * 2));
    assert!(roots.as_slice()[1] == Some(ObjectPtr(0x20)));
    assert!(roots.as_slice()[0].is_none());
    let _unused = FlexPage::new(FlexPageKind::Small, BASE);
}

#[test]
fn object_manager_allocates_into_global_list() {
    let mut owner: ObjectManager<&str> = ObjectManager::new(0);
    owner.allocate(8, || "first");
    owner.allocate(16, || "second");
    assert_eq!(owner.get_usage(), 24);
    // New objects are unmarked; `true` counts as marked.
    owner.sweep(|o: &Object<&str>| o.marked);
    assert_eq!(owner.get_usage(), 0);
}
