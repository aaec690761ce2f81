use stackalloc::fill::{fill_from_iter, fill_with, zero_bytes};
use std::cell::Cell;
use std::mem::MaybeUninit;
use std::rc::Rc;

fn empty_slots<T>(count: usize) -> Vec<MaybeUninit<T>> {
    (0..count).map(|_| MaybeUninit::uninit()).collect()
}

#[test]
fn zero_bytes_keeps_the_length() {
    let mut region = empty_slots::<u8>(37);
    zero_bytes(&mut region);
    assert_eq!(region.len(), 37);
    let mut none = empty_slots::<u8>(0);
    zero_bytes(&mut none);
    assert!(none.is_empty());
}

#[test]
fn fill_with_asks_once_for_every_slot() {
    let mut region = empty_slots::<u32>(12);
    let mut calls = 0u32;
    fill_with(&mut region, || {
        calls += 1;
        calls
    });
    assert_eq!(calls, 12);
    assert_eq!(region.len(), 12);
}

#[test]
fn fill_with_on_an_empty_region_asks_for_nothing() {
    let mut region = empty_slots::<String>(0);
    let calls = Cell::new(0usize);
    fill_with(&mut region, || {
        calls.set(calls.get() + 1);
        String::new()
    });
    assert_eq!(calls.get(), 0);
}

#[test]
fn fill_with_keeps_the_values_it_stores() {
    let seed = Rc::new(1u8);
    let mut region = empty_slots::<Rc<u8>>(5);
    fill_with(&mut region, || seed.clone());
    // The slots own their values: none of the five clones has been destroyed.
    assert_eq!(Rc::strong_count(&seed), 6);
}

#[test]
fn fill_from_iter_stops_when_the_region_is_full() {
    let mut region = empty_slots::<u64>(4);
    let pulled = Cell::new(0usize);
    let done = fill_from_iter(&mut region, (0u64..).inspect(|_| pulled.set(pulled.get() + 1)));
    assert_eq!(done, 4);
    assert_eq!(pulled.get(), 4);
}

#[test]
fn fill_from_iter_stops_when_the_iterator_ends() {
    let mut region = empty_slots::<u64>(10);
    let done = fill_from_iter(&mut region, vec![7u64, 8, 9].into_iter());
    assert_eq!(done, 3);
    assert_eq!(region.len(), 10);
    let done = fill_from_iter(&mut region, std::iter::empty::<u64>());
    assert_eq!(done, 0);
}

#[test]
fn fill_from_iter_into_an_empty_region_pulls_nothing() {
    let mut region = empty_slots::<u8>(0);
    let pulled = Cell::new(0usize);
    let done = fill_from_iter(&mut region, (0u8..9).inspect(|_| pulled.set(pulled.get() + 1)));
    assert_eq!(done, 0);
    assert_eq!(pulled.get(), 0);
}

#[test]
fn fill_from_iter_keeps_the_values_it_stores() {
    let seed = Rc::new(1u8);
    let items: Vec<Rc<u8>> = (0..3).map(|_| seed.clone()).collect();
    let mut region = empty_slots::<Rc<u8>>(2);
    let done = fill_from_iter(&mut region, items.into_iter());
    assert_eq!(done, 2);
    // Two clones live on in the slots; the third went with the iterator.
    assert_eq!(Rc::strong_count(&seed), 3);
}
