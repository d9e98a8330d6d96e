use uwugc::object::metadata::{try_u60, Metadata, MetadataEnum, MetadataExpanded};
use uwugc::object::{ObjectPtr, METADATA_SIZE};
use uwugc::util::double_atomic_ptr::AtomicDoublePtr;
use uwugc::bitmap::MemOrder;

fn meta(is_marked: bool, write_barrier_activated: bool, payload: MetadataEnum) -> MetadataExpanded {
    MetadataExpanded { is_marked, write_barrier_activated, payload }
}

#[test]
fn metadata_round_trips_plain_old_data() {
    let m = meta(true, false, MetadataEnum::PlainOldData(5));
    let word = Metadata::new(m);
    assert!(word.get() == m);
    let m = meta(false, true, MetadataEnum::PlainOldData(0xFFF_FFFF_FFFF_FFFF));
    assert!(Metadata::new(m).get() == m);
}

#[test]
fn metadata_round_trips_ref_array() {
    let m = meta(true, true, MetadataEnum::RefArray(3));
    assert!(Metadata::new(m).get() == m);
    let m = meta(false, false, MetadataEnum::RefArray(0));
    assert!(Metadata::new(m).get() == m);
}

#[test]
fn metadata_round_trips_user_data() {
    let m = meta(false, false, MetadataEnum::NotPlainOldData(5));
    let back = Metadata::new(m).get();
    assert!(back == m);
    let m = meta(true, true, MetadataEnum::NotPlainOldData(7));
    assert!(Metadata::new(m).get() == m);
}

#[test]
fn metadata_update_replaces_and_returns_previous() {
    let m = meta(false, false, MetadataEnum::PlainOldData(16));
    let mut word = Metadata::new(m);
    let prev = word.update(|x: MetadataExpanded| MetadataExpanded { is_marked: true, ..x });
    assert!(prev == m);
    assert!(word.get() == meta(true, false, MetadataEnum::PlainOldData(16)));
}

#[test]
fn metadata_try_update_refusal_keeps_word() {
    let m = meta(true, false, MetadataEnum::RefArray(9));
    let mut word = Metadata::new(m);
    let r = word.try_update(|x: MetadataExpanded| if x.is_marked { None } else { Some(x) });
    assert!(r == Err(m));
    assert!(word.get() == m);
    let r = word.try_update(|x: MetadataExpanded| Some(MetadataExpanded { is_marked: false, ..x }));
    assert!(r == Ok(m));
    assert!(word.get() == meta(false, false, MetadataEnum::RefArray(9)));
}

#[test]
fn object_sizes_from_metadata() {
    assert_eq!(ObjectPtr::size(&meta(false, false, MetadataEnum::PlainOldData(40))), 40);
    assert_eq!(ObjectPtr::size(&meta(false, false, MetadataEnum::RefArray(5))), 40);
    let p = ObjectPtr::new(0x1000);
    assert_eq!(p.to_ptr(), 0x1000);
    assert_eq!(p.data(), 0x1000 + METADATA_SIZE);
    assert_eq!(METADATA_SIZE, 8);
}

#[test]
fn double_pointer_keeps_even_pointers() {
    let mut d: AtomicDoublePtr<u8, u8> = AtomicDoublePtr::new((0x1000, 0x2000));
    assert_eq!(d.load((0, 0), MemOrder::Relaxed), (0x1000, 0x2000));
    assert_eq!(d.swap((0x30, 0x40), MemOrder::AcqRel), (0x1000, 0x2000));
    assert_eq!(d.load((0, 0), MemOrder::Acquire), (0x30, 0x40));
    d.store((0, 0), MemOrder::Release);
    assert_eq!(d.load((0, 0), MemOrder::SeqCst), (0, 0));
}

#[test]
fn double_pointer_loads_what_was_stored() {
    let d: AtomicDoublePtr<u8, u8> = AtomicDoublePtr::new((0x1001, 0x2003));
    assert_eq!(d.load((0, 0), MemOrder::Relaxed), (0x1001, 0x2003));
    let d: AtomicDoublePtr<u8, u8> = AtomicDoublePtr::new((1, 3));
    assert_eq!(d.load((0, 0), MemOrder::SeqCst), (1, 3));
}

#[test]
fn payload_must_fit_60_bits() {
    assert_eq!(try_u60(0), Some(0));
    assert_eq!(try_u60((1 << 60) - 1), Some((1 << 60) - 1));
    assert_eq!(try_u60(1 << 60), None);
    assert_eq!(try_u60(u64::MAX), None);
}
