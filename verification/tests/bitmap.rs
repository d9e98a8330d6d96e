use uwugc::bitmap::{AtomicBitmap, MemOrder};

#[test]
fn bitmap_starts_clear() {
    let map = AtomicBitmap::new(100);
    for i in 0..100 {
        assert!(!map.get(i, MemOrder::Relaxed));
    }
    // Rounded up to whole words.
    assert!(!map.get(usize::BITS as usize * 2 - 1, MemOrder::Relaxed));
}

#[test]
fn bitmap_set_returns_previous_and_reads_back() {
    let mut map = AtomicBitmap::new(130);
    assert!(!map.set(3, true, MemOrder::SeqCst));
    assert!(map.get(3, MemOrder::Acquire));
    assert!(map.set(3, true, MemOrder::Release));
    assert!(map.set(3, false, MemOrder::AcqRel));
    assert!(!map.get(3, MemOrder::Relaxed));
    // Bits in another word are untouched.
    assert!(!map.set(70, true, MemOrder::Relaxed));
    assert!(map.get(70, MemOrder::Relaxed));
    assert!(!map.get(6, MemOrder::Relaxed));
    assert!(!map.get(69, MemOrder::Relaxed));
    assert!(!map.get(71, MemOrder::Relaxed));
}

#[test]
fn bitmap_toggle_flips() {
    let mut map = AtomicBitmap::new(64);
    assert!(!map.toggle(10, false, MemOrder::Relaxed));
    assert!(map.get(10, MemOrder::Relaxed));
    assert!(map.toggle(10, true, MemOrder::Relaxed));
    assert!(!map.get(10, MemOrder::Relaxed));
}

#[test]
fn bitmap_update_applies_function() {
    let mut map = AtomicBitmap::new(64);
    let prev = map.update(MemOrder::Relaxed, MemOrder::Relaxed, 5, |b: bool| !b);
    assert!(!prev);
    assert!(map.get(5, MemOrder::Relaxed));
    let prev = map.update(MemOrder::Relaxed, MemOrder::Relaxed, 5, |_b: bool| true);
    assert!(prev);
    assert!(map.get(5, MemOrder::Relaxed));
}

#[test]
fn bitmap_iter_yields_every_bit() {
    let bits = usize::BITS as usize * 2;
    let mut map = AtomicBitmap::new(bits);
    map.set(1, true, MemOrder::Relaxed);
    map.set(bits - 1, true, MemOrder::Relaxed);
    let mut it = map.iter(MemOrder::Relaxed);
    for i in 0..bits {
        assert_eq!(it.next(), Some(i == 1 || i == bits - 1));
    }
    assert_eq!(it.next(), None);
    assert_eq!(it.next(), None);
}

#[test]
fn bitmap_iter_of_128_clear_bits_counts_128() {
    let map = AtomicBitmap::new(128);
    let mut it = map.iter(MemOrder::Relaxed);
    let mut count = 0;
    while let Some(bit) = it.next() {
        assert!(!bit);
        count += 1;
    }
    assert_eq!(count, 128);
}

#[test]
fn bitmap_into_iter_walks_same_bits() {
    let mut map = AtomicBitmap::new(usize::BITS as usize);
    map.set(0, true, MemOrder::Relaxed);
    let mut it = map.into_iter();
    assert_eq!(it.next(), Some(true));
    for _ in 1..usize::BITS {
        assert_eq!(it.next(), Some(false));
    }
    assert_eq!(it.next(), None);
}
