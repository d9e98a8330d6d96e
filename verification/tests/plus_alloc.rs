use std::cell::Cell;

use uwugc::plus::array::Array;
use uwugc::plus_alloc::vec::{next_power_of_two, Vec as HeapVec};
use uwugc::plus_alloc::zero_or_init::ZeroOrInit;

fn zeroed_array(n: usize) -> Option<Array<ZeroOrInit<u32>>> {
    let mut items = Vec::new();
    for _ in 0..n {
        items.push(ZeroOrInit::zeroed());
    }
    Some(Array::from_items(items))
}

#[test]
fn next_power_of_two_values() {
    assert_eq!(next_power_of_two(0), 1);
    assert_eq!(next_power_of_two(1), 1);
    assert_eq!(next_power_of_two(2), 2);
    assert_eq!(next_power_of_two(3), 4);
    assert_eq!(next_power_of_two(1000), 1024);
    assert_eq!(next_power_of_two(1024), 1024);
}

#[test]
fn heap_vec_grows_by_powers_of_two() {
    let mut v: HeapVec<u32> = HeapVec::new();
    assert_eq!(v.len(), 0);
    assert!(v.insert(zeroed_array, &|| {}, 10).is_ok());
    assert_eq!(v.capacity(), 1);
    assert!(v.insert(zeroed_array, &|| {}, 11).is_ok());
    assert_eq!(v.capacity(), 2);
    assert!(v.insert(zeroed_array, &|| {}, 12).is_ok());
    assert_eq!(v.capacity(), 4);
    assert!(v.insert(zeroed_array, &|| {}, 13).is_ok());
    assert!(v.insert(zeroed_array, &|| {}, 14).is_ok());
    assert_eq!(v.capacity(), 8);
    assert_eq!(v.len(), 5);
    for i in 0..5 {
        assert_eq!(*v.get(i), 10 + i as u32);
    }
}

#[test]
fn heap_vec_failed_growth_leaves_it_unchanged() {
    let mut v: HeapVec<u32> = HeapVec::new();
    assert!(v.insert(zeroed_array, &|| {}, 1).is_ok());
    let refuse = |_n: usize| -> Option<Array<ZeroOrInit<u32>>> { None };
    assert!(v.insert(refuse, &|| {}, 2).is_err());
    assert_eq!(v.len(), 1);
    assert_eq!(v.capacity(), 1);
    assert_eq!(*v.get(0), 1);
    let mut empty: HeapVec<u32> = HeapVec::new();
    assert!(empty.insert(refuse, &|| {}, 2).is_err());
    assert_eq!(empty.len(), 0);
}

#[test]
fn zero_or_init_take_leaves_zeroed() {
    let mut z = ZeroOrInit::new(7u32);
    assert_eq!(*z.assume_init_ref(), 7);
    let taken = z.take();
    assert_eq!(*taken.assume_init_ref(), 7);
}

#[test]
fn heap_vec_growth_safepoints_every_512_elements() {
    let mut v: HeapVec<u32> = HeapVec::new();
    let pauses = Cell::new(0usize);
    let count = || pauses.set(pauses.get() + 1);
    for i in 0..1024u32 {
        assert!(v.insert(zeroed_array, &count, i).is_ok());
    }
    let before = pauses.get();
    assert!(v.insert(zeroed_array, &count, 1024).is_ok());
    assert_eq!(v.capacity(), 2048);
    // Moving 1024 elements pauses at elements 0 and 512.
    assert_eq!(pauses.get() - before, 2);
    assert_eq!(*v.get(1000), 1000);
}
