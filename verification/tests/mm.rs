use uwugc::mm::context::Context;
use uwugc::mm::page::{FlexPage, FlexPageKind, BASE_PAGE_SIZE};
use uwugc::mm::page_table::PageTable;
use uwugc::mm::MM;

const BASE: usize = 0x6000_0000_0000;

#[test]
fn flex_page_kind_sizes() {
    assert_eq!(FlexPageKind::Small.nr_pages(), 1);
    assert_eq!(FlexPageKind::Medium.nr_pages(), 4);
    assert_eq!(FlexPageKind::Huge { base_count: 7 }.nr_pages(), 7);
    assert_eq!(FlexPageKind::Small.max_object_size(), 256 * 1024);
    assert_eq!(FlexPageKind::Medium.max_object_size(), 1024 * 1024);
    assert_eq!(FlexPageKind::Huge { base_count: 3 }.max_object_size(), usize::MAX);
}

#[test]
fn flex_page_bumps_until_full() {
    let mut page = FlexPage::new(FlexPageKind::Small, BASE);
    assert_eq!(page.start(), BASE);
    assert_eq!(page.size(), BASE_PAGE_SIZE);
    assert_eq!(page.nr_pages(), 1);
    assert_eq!(page.used(), 0);
    assert_eq!(page.free(), BASE_PAGE_SIZE);
    assert_eq!(page.allocate(64), Some(BASE));
    assert_eq!(page.allocate(32), Some(BASE + 64));
    assert_eq!(page.used(), 96);
    assert_eq!(page.free(), BASE_PAGE_SIZE - 96);
    assert_eq!(page.allocate(BASE_PAGE_SIZE), None);
    assert_eq!(page.used(), 96);
    assert_eq!(page.allocate(BASE_PAGE_SIZE - 96), Some(BASE + 96));
    assert_eq!(page.free(), 0);
    assert!(page.kind() == FlexPageKind::Small);
}

#[test]
fn page_table_hands_out_pages_in_order() {
    let mut table = PageTable::new(BASE, 8);
    assert_eq!(table.nr_pages(), 8);
    assert_eq!(table.get_base_addr(), BASE);
    assert_eq!(table.get_used_end_page(), 0);
    assert_eq!(table.get_top_addr(), BASE);
    assert_eq!(table.alloc_page(FlexPageKind::Small), Some(0));
    assert_eq!(table.alloc_page(FlexPageKind::Medium), Some(1));
    assert_eq!(table.get_used_end_page(), 5);
    assert_eq!(table.get_top_addr(), BASE + 5 * BASE_PAGE_SIZE);
    assert_eq!(table.alloc_page(FlexPageKind::Medium), None);
    assert_eq!(table.alloc_page(FlexPageKind::Huge { base_count: 3 }), Some(5));
    assert_eq!(table.alloc_page(FlexPageKind::Small), None);
    let page = table.get_page(1).unwrap();
    assert_eq!(page.start(), BASE + BASE_PAGE_SIZE);
    assert!(table.get_page(2).is_none());
    table.clear();
    assert_eq!(table.get_used_end_page(), 0);
    assert!(table.get_page(0).is_none());
}

#[test]
fn page_table_allocate_and_resolve() {
    let mut table = PageTable::new(BASE, 16);
    // Small objects share the medium buffer page.
    let (a, pa) = table.allocate(64).unwrap();
    let (b, pb) = table.allocate(128).unwrap();
    assert_eq!(pa, 0);
    assert_eq!(pb, 0);
    assert_eq!(a, BASE);
    assert_eq!(b, BASE + 64);
    assert_eq!(table.resolve_to_page(a), Some(0));
    assert_eq!(table.resolve_to_page(b + 127), Some(0));
    // Past the used part of the page.
    assert_eq!(table.resolve_to_page(b + 128), None);
    assert_eq!(table.resolve_to_page(BASE - 1), None);
    // A huge object gets a page of its own, rounded up to base pages.
    let (h, ph) = table.allocate(3 * 1024 * 1024).unwrap();
    assert_eq!(ph, 4);
    assert_eq!(h, BASE + 4 * BASE_PAGE_SIZE);
    assert!(table.get_page(ph).unwrap().kind() == FlexPageKind::Huge { base_count: 2 });
    assert_eq!(table.get_page(ph).unwrap().used(), 3 * 1024 * 1024);
    assert_eq!(table.get_used_end_page(), 6);
    assert_eq!(table.resolve_to_page(h + 3 * 1024 * 1024 - 1), Some(4));
    assert_eq!(table.resolve_to_page(h + 3 * 1024 * 1024), None);
    // Objects go into the medium buffer page (four base pages) until one
    // does not fit; that one gets a fresh medium page.
    let big = 1024 * 1024 - 8;
    let mut expected = BASE + 192;
    for _ in 0..7 {
        let (c, pc) = table.allocate(big).unwrap();
        assert_eq!(pc, 0);
        assert_eq!(c, expected);
        expected += big;
    }
    let (f, pf) = table.allocate(big).unwrap();
    assert_eq!(pf, 6);
    assert_eq!(f, BASE + 6 * BASE_PAGE_SIZE);
    assert_eq!(table.get_used_end_page(), 10);
    assert_eq!(table.resolve_to_page(f), Some(6));
}

#[test]
fn page_table_refuses_when_full() {
    let mut table = PageTable::new(BASE, 2);
    assert!(table.allocate(64).is_none());
    assert!(table.allocate(2 * BASE_PAGE_SIZE).is_some());
    assert!(table.allocate(8).is_none());
}

#[test]
fn page_table_clone_is_equal() {
    let mut table = PageTable::new(BASE, 8);
    table.allocate(64).unwrap();
    let copy = table.clone_table();
    assert_eq!(copy.get_used_end_page(), table.get_used_end_page());
    assert_eq!(copy.resolve_to_page(BASE + 8), Some(0));
}

#[test]
fn page_table_donation_uses_page_number_less_base() {
    // The slot a donated page is filed under is its start in base pages
    // less the table's base address.
    let mut table = PageTable::new(1, 8);
    let page = FlexPage::new(FlexPageKind::Small, 3 * BASE_PAGE_SIZE);
    table.donate_page(&page);
    assert_eq!(table.get_used_end_page(), 3);
    assert_eq!(table.get_page(2).unwrap().start(), 3 * BASE_PAGE_SIZE);
}

#[test]
fn mm_mapping_length_rounds_up() {
    assert_eq!(MM::mapping_len_for(1), Some(BASE_PAGE_SIZE));
    assert_eq!(MM::mapping_len_for(BASE_PAGE_SIZE), Some(BASE_PAGE_SIZE));
    assert_eq!(MM::mapping_len_for(BASE_PAGE_SIZE + 1), Some(2 * BASE_PAGE_SIZE));
    assert_eq!(MM::mapping_len_for(0), Some(0));
    assert_eq!(MM::mapping_len_for(usize::MAX), None);
    let mm = MM::new(3 * BASE_PAGE_SIZE - 5, BASE);
    assert_eq!(mm.get_mapping(), (BASE, 3 * BASE_PAGE_SIZE));
    assert_eq!(mm.get_page_table().nr_pages(), 3);
    assert_eq!(mm.get_page_table_cloned().get_base_addr(), BASE);
}

#[test]
fn mm_context_uses_a_local_small_page() {
    let mut mm = MM::new(8 * BASE_PAGE_SIZE, BASE);
    let mut ctx = Context::new();
    assert_eq!(ctx.allocate(&mut mm, 64), Some((BASE, 0)));
    assert_eq!(ctx.allocate(&mut mm, 64), Some((BASE + 64, 0)));
    // Big objects go to the shared pages.
    assert_eq!(ctx.allocate(&mut mm, 512 * 1024), Some((BASE + BASE_PAGE_SIZE, 1)));
    ctx.flush_local_buf();
    assert_eq!(ctx.allocate(&mut mm, 8), Some((BASE + 5 * BASE_PAGE_SIZE, 5)));
    assert_eq!(mm.get_page_table_mut().get_used_end_page(), 6);
}

#[test]
fn page_table_allocations_never_overlap() {
    let mut table = PageTable::new(BASE, 32);
    let sizes = [64usize, 3 * 1024 * 1024, 1024 * 1024 - 8, 1024 * 1024 - 8, 8, 1024 * 1024 - 8,
        1024 * 1024 - 8, 2 * 1024 * 1024, 1024 * 1024 - 8, 16];
    let mut placed: Vec<(usize, usize)> = Vec::new();
    for size in sizes {
        let (addr, _) = table.allocate(size).unwrap();
        for &(a, s) in &placed {
            assert!(addr + size <= a || a + s <= addr);
        }
        placed.push((addr, size));
    }
}
