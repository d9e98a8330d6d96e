use uwugc::bitmap::MemOrder;
use uwugc::plus::gcref::{GCBox as RefBox, GCBoxOption as RefBoxOption};
use uwugc::object::ObjectPtr;
use uwugc::plus::array::Array;
use uwugc::plus::context::Context;
use uwugc::plus::descriptor::Descriptor;
use uwugc::plus::gcbox::{GCBox, GCBoxOption};
use uwugc::plus::safepoint::SafepointList;
use uwugc::plus::typed_root_ref::RootRef;
use uwugc::plus::types::{TypeId, Types};
use uwugc::plus::{alloc_array, allocate, safepoint};
use uwugc::type_manager::TypeManager;

#[test]
fn root_slot_is_reused_after_release() {
    let mut ctx = Context::new();
    let a = ctx.add_ptr(ObjectPtr(0x100));
    let _b = ctx.add_ptr(ObjectPtr(0x200));
    assert_eq!(ctx.len(), 2);
    a.release(&mut ctx);
    // The freed first slot is taken again; the table does not grow.
    let c = ctx.add_ptr(ObjectPtr(0x300));
    assert_eq!(ctx.len(), 2);
    assert!(c.get_ptr() == ObjectPtr(0x300));
    let _d = ctx.add_ptr(ObjectPtr(0x400));
    assert_eq!(ctx.len(), 3);
}

#[test]
fn root_store_load_round_trip() {
    let mut ctx = Context::new();
    let mut r = ctx.add_ptr(ObjectPtr(0x100));
    let mut s = ctx.add_ptr(ObjectPtr(0x200));
    assert!(!ctx.can_safepoint());
    r.store(&mut ctx);
    assert!(!ctx.can_safepoint());
    s.store(&mut ctx);
    assert!(ctx.can_safepoint());
    assert!(ctx.iter_pointers() == vec![ObjectPtr(0x100), ObjectPtr(0x200)]);
    r.load(&mut ctx);
    assert!(r.get_ptr() == ObjectPtr(0x100));
    assert!(ctx.iter_pointers() == vec![ObjectPtr(0x200)]);
}

#[test]
fn root_pointers_follow_a_collection() {
    let mut ctx = Context::new();
    let mut r = ctx.add_ptr(ObjectPtr(0x100));
    r.store(&mut ctx);
    ctx.map_pointers(|p: ObjectPtr| ObjectPtr(p.0 + 0x1000));
    r.load(&mut ctx);
    assert!(r.get_ptr() == ObjectPtr(0x1100));
}

#[test]
fn safepoint_stores_roots_around_a_collection() {
    let mut ctx = Context::new();
    let mut rr: RootRef<u64> = RootRef::from_raw(ctx.add_ptr(ObjectPtr(0x100)));
    safepoint(&mut rr, &mut ctx, |mut c: Context| {
        assert!(c.can_safepoint());
        c.map_pointers(|p: ObjectPtr| ObjectPtr(p.0 + 0x40));
        c
    });
    assert_eq!(RootRef::get_ptr(&rr), 0x140 + 8);
    assert!(!ctx.can_safepoint());
}

#[test]
fn safepoint_list_stores_every_root() {
    let mut ctx = Context::new();
    let a = ctx.add_ptr(ObjectPtr(0x100));
    let b = ctx.add_ptr(ObjectPtr(0x200));
    let mut roots = SafepointList(vec![a, b]);
    safepoint(&mut roots, &mut ctx, |c: Context| {
        assert!(c.iter_pointers() == vec![ObjectPtr(0x100), ObjectPtr(0x200)]);
        c
    });
    assert!(roots.0[0].get_ptr() == ObjectPtr(0x100));
    assert!(roots.0[1].get_ptr() == ObjectPtr(0x200));
}

#[test]
fn allocate_takes_fast_path_first() {
    let mut ctx = Context::new();
    let mut roots = SafepointList(Vec::new());
    let r: Option<RootRef<u64>> = allocate(
        &mut roots,
        &mut ctx,
        0x1000,
        16,
        |t: u64, s: usize| {
            assert_eq!(t, 0x1000);
            assert_eq!(s, 16);
            Some(ObjectPtr(0x5000))
        },
        |_c: Context, _t: u64, _s: usize| -> (Context, Option<ObjectPtr>) {
            panic!("slow path taken")
        },
    );
    let r = r.unwrap();
    assert!(RootRef::as_raw(&r).get_ptr() == ObjectPtr(0x5000));
    assert_eq!(ctx.len(), 1);
}

#[test]
fn allocate_falls_back_to_slow_path_with_roots_stored() {
    let mut ctx = Context::new();
    let held = ctx.add_ptr(ObjectPtr(0x100));
    let mut roots = SafepointList(vec![held]);
    let r: Option<RootRef<u64>> = allocate(
        &mut roots,
        &mut ctx,
        0x2000,
        0,
        |_t: u64, _s: usize| None,
        |mut c: Context, t: u64, s: usize| {
            assert_eq!(t, 0x2000);
            assert_eq!(s, 0);
            assert!(c.can_safepoint());
            c.map_pointers(|p: ObjectPtr| ObjectPtr(p.0 + 8));
            (c, Some(ObjectPtr(0x7000)))
        },
    );
    let r = r.unwrap();
    assert!(RootRef::as_raw(&r).get_ptr() == ObjectPtr(0x7000));
    assert!(roots.0[0].get_ptr() == ObjectPtr(0x108));
    assert_eq!(ctx.len(), 2);
}

#[test]
fn allocate_reports_failure_of_both_paths() {
    let mut ctx = Context::new();
    let mut roots = SafepointList(Vec::new());
    let r: Option<RootRef<u64>> = allocate(
        &mut roots,
        &mut ctx,
        0x2000,
        0,
        |_t: u64, _s: usize| None,
        |c: Context, _t: u64, _s: usize| (c, None),
    );
    assert!(r.is_none());
    assert_eq!(ctx.len(), 0);
}

#[test]
fn alloc_array_asks_for_elements_and_extra() {
    let mut ctx = Context::new();
    let mut roots = SafepointList(Vec::new());
    let r: Option<RootRef<Array<u64>>> = alloc_array(
        &mut roots,
        &mut ctx,
        0x3000,
        8,
        4,
        |t: u64, s: usize| {
            assert_eq!(t, 0x3000);
            assert_eq!(s, 4 * 8 + 8);
            Some(ObjectPtr(0x9000))
        },
        |c: Context, _t: u64, _s: usize| (c, None),
    );
    assert!(r.is_some());
}

#[test]
fn array_get_set_replace() {
    let mut a = Array::from_items(vec![1u32, 2, 3]);
    assert_eq!(a.len(), 3);
    assert_eq!(*a.get(1), 2);
    a.set(1, 20);
    assert_eq!(*a.get(1), 20);
    assert_eq!(a.replace(2, 30), 3);
    assert_eq!(*a.get(2), 30);
}

#[test]
fn gcbox_holds_target_address() {
    let mut ctx = Context::new();
    let none: GCBoxOption<u64> = GCBoxOption::none();
    assert_eq!(none.get_ptr(), None);
    let rr: RootRef<u64> = RootRef::from_raw(ctx.add_ptr(ObjectPtr(0x100)));
    let boxed = GCBoxOption::new(Some(rr), &mut ctx);
    assert_eq!(boxed.get_ptr(), Some(0x108));
    // The reference was given up.
    assert!(ctx.iter_pointers().is_empty());
    let rr: RootRef<u64> = RootRef::from_raw(ctx.add_ptr(ObjectPtr(0x200)));
    let mut b = GCBox::new(rr, &mut ctx);
    assert_eq!(b.get_ptr(), 0x208);
    let rr: RootRef<u64> = RootRef::from_raw(ctx.add_ptr(ObjectPtr(0x300)));
    b.store(rr, &mut ctx);
    assert_eq!(b.get_ptr(), 0x308);
}

#[test]
fn descriptor_offsets_include_nested_fields() {
    let inner = Descriptor::new(vec![0, 8], 16);
    let outer = Descriptor::new_unflattened(vec![0], 40, vec![(16, inner)]);
    let mut out = Vec::new();
    outer.push_pointer_offsets(100, &mut out);
    assert_eq!(out, vec![100, 116, 124]);
}

#[test]
fn types_find_registered_and_static_layouts() {
    let mut types = Types::new();
    let t0 = types.register(Descriptor::new(vec![0], 8));
    let t1 = types.register(Descriptor::new(vec![], 4));
    let t2 = types.register(Descriptor::new(vec![8, 16], 24));
    assert!(t0 == TypeId(2));
    assert!(t1 == TypeId(6));
    assert!(t2 == TypeId(10));
    assert_eq!(types.get_type(t1).unwrap().get_size(), 4);
    let info = types.get_type(t2).unwrap();
    assert_eq!(info.get_size(), 24);
    let mut it = info.iter_pointers();
    assert_eq!(it.next(), Some(8));
    assert_eq!(it.next(), Some(16));
    assert_eq!(it.next(), None);
    // A reference array of five entries.
    let arr = TypeId((5 << 2) | 1);
    let info = types.get_type(arr).unwrap();
    assert_eq!(info.get_size(), 5 * (usize::BITS as usize / 8));
    let mut it = info.iter_pointers();
    for i in 0..5 {
        assert_eq!(it.next(), Some(i * (usize::BITS as usize / 8)));
    }
    assert_eq!(it.next(), None);
    // A static descriptor is known by its address.
    let st = types.register_static(0x1000, Descriptor::new(vec![0], 8));
    assert!(st == TypeId(0x1000));
    assert_eq!(types.get_type(st).unwrap().get_size(), 8);
    // An id of the run-time kind that was never handed out.
    assert!(types.get_type(TypeId(14)).is_none());
}

#[test]
fn types_wipe_removes_types_not_marked_alive() {
    let mut types = Types::new();
    types.register(Descriptor::new(vec![], 1));
    types.register(Descriptor::new(vec![], 2));
    let kept = types.register(Descriptor::new(vec![], 8));
    for _ in 0..3 {
        types.register(Descriptor::new(vec![], 16));
    }
    let dropped = types.register(Descriptor::new(vec![], 32));
    assert!(dropped == TypeId((6 << 2) | 2));
    types.assume_all_dead();
    assert!(types.set_alive(kept.0));
    assert!(!types.set_alive(0x1000));
    types.wipe_deads();
    assert!(types.get_type(kept).is_some());
    assert!(types.get_type(dropped).is_none());
    assert_eq!(types.get_size(kept.0), Some(8));
    assert_eq!(types.get_size(dropped.0), None);
    let obj = ObjectPtr(0x100);
    assert_eq!(types.iterate_gc_pointers(kept.0, obj), Some(vec![]));
    assert_eq!(types.update_gc_pointers(3 | (2 << 2), obj), None);
}

#[test]
fn type_id_of_descriptor_is_its_address() {
    assert!(TypeId::from_descriptor(0x4000) == TypeId(0x4000));
}

#[test]
fn gcref_field_loads_what_was_stored() {
    let mut ctx = Context::new();
    let mut field: RefBoxOption<u64> = RefBoxOption::none();
    assert!(field.load(MemOrder::Acquire, &mut ctx).is_none());
    let rr: RootRef<u64> = RootRef::from_raw(ctx.add_ptr(ObjectPtr(0x500)));
    field.store(MemOrder::Release, Some(rr), &mut ctx);
    let back = field.load(MemOrder::Acquire, &mut ctx).unwrap();
    assert!(RootRef::as_raw(&back).get_ptr() == ObjectPtr(0x500));
    let rr: RootRef<u64> = RootRef::from_raw(ctx.add_ptr(ObjectPtr(0x600)));
    let boxed = RefBox::new(rr, &mut ctx);
    let back = boxed.load(MemOrder::Relaxed, &mut ctx);
    assert!(RootRef::as_raw(&back).get_ptr() == ObjectPtr(0x600));
}

#[test]
fn gcref_field_loads_twice_in_a_row() {
    let mut ctx = Context::new();
    let mut field: RefBoxOption<u64> = RefBoxOption::none();
    let rr: RootRef<u64> = RootRef::from_raw(ctx.add_ptr(ObjectPtr(0x700)));
    field.store(MemOrder::Release, Some(rr), &mut ctx);
    assert_eq!(ctx.len(), 1);
    let first = field.load(MemOrder::Acquire, &mut ctx).unwrap();
    // The freed slot is taken again; the second load adds one slot.
    assert_eq!(ctx.len(), 1);
    let second = field.load(MemOrder::Acquire, &mut ctx).unwrap();
    assert_eq!(ctx.len(), 2);
    assert!(RootRef::as_raw(&first).get_ptr() == ObjectPtr(0x700));
    assert!(RootRef::as_raw(&second).get_ptr() == ObjectPtr(0x700));
    field.store(MemOrder::Release, None, &mut ctx);
    assert!(field.load(MemOrder::Acquire, &mut ctx).is_none());
}
