use stackalloc::{stackalloc_with_default, AVec};
use std::rc::Rc;

fn items_of<T: Clone>(avec: &AVec<'_, T>) -> Vec<T> {
    let mut items = Vec::new();
    let mut index = 0;
    while let Some(item) = avec.get(index) {
        items.push(item.clone());
        index += 1;
    }
    items
}

#[test]
fn new_vector_is_empty() {
    let mut store: [Option<u32>; 4] = [None, None, None, None];
    let avec = AVec::new(&mut store);
    assert_eq!(avec.len(), 0);
    assert!(!avec.is_allocated());
    assert_eq!(avec.get(0), None);
}

#[test]
fn spills_with_the_push_that_fills_the_store() {
    let mut store: [Option<u32>; 3] = [None, None, None];
    let mut avec = AVec::new(&mut store);
    avec.push(10);
    assert!(!avec.is_allocated());
    assert_eq!(avec.len(), 1);
    avec.push(20);
    assert!(!avec.is_allocated());
    assert_eq!(avec.len(), 2);
    avec.push(30);
    assert!(avec.is_allocated());
    assert_eq!(avec.len(), 3);
    assert_eq!(items_of(&avec), vec![10, 20, 30]);
    avec.push(40);
    avec.push(50);
    assert!(avec.is_allocated());
    assert_eq!(avec.len(), 5);
    assert_eq!(items_of(&avec), vec![10, 20, 30, 40, 50]);
}

#[test]
fn pushing_past_the_capacity_keeps_every_item_in_order() {
    for capacity in 0usize..6 {
        for extra in 1usize..5 {
            let mut store: Vec<Option<usize>> = vec![None; capacity];
            let mut avec = AVec::new(&mut store);
            for item in 0..capacity + extra {
                assert_eq!(avec.is_allocated(), item >= capacity);
                avec.push(item * 11);
                assert_eq!(avec.len(), item + 1);
                assert_eq!(avec.is_allocated(), item + 1 >= capacity);
            }
            assert_eq!(avec.len(), capacity + extra);
            let expected: Vec<usize> = (0..capacity + extra).map(|item| item * 11).collect();
            assert_eq!(items_of(&avec), expected);
            assert_eq!(avec.get(capacity + extra), None);
        }
    }
}

#[test]
fn store_without_slots_spills_with_the_first_push() {
    let mut store: [Option<String>; 0] = [];
    let mut avec = AVec::new(&mut store);
    assert_eq!(avec.len(), 0);
    assert!(avec.is_allocated());
    avec.push(String::from("first"));
    assert_eq!(avec.len(), 1);
    assert!(avec.is_allocated());
    assert_eq!(avec.get(0), Some(&String::from("first")));
    avec.push(String::from("second"));
    assert_eq!(items_of(&avec), vec![String::from("first"), String::from("second")]);
}

#[test]
fn get_past_the_end_is_none() {
    let mut store: [Option<u8>; 2] = [None, None];
    let mut avec = AVec::new(&mut store);
    avec.push(1);
    assert_eq!(avec.get(0), Some(&1));
    assert_eq!(avec.get(1), None);
    assert_eq!(avec.get(usize::MAX), None);
}

#[test]
fn what_the_store_held_before_is_overwritten() {
    let mut store: [Option<u8>; 3] = [Some(99), Some(98), None];
    let mut avec = AVec::new(&mut store);
    assert_eq!(avec.len(), 0);
    assert_eq!(avec.get(0), None);
    avec.push(1);
    assert_eq!(items_of(&avec), vec![1]);
}

#[test]
fn store_is_empty_once_the_items_are_on_the_heap() {
    let mut store: [Option<u8>; 2] = [None, None];
    {
        let mut avec = AVec::new(&mut store);
        avec.push(1);
        avec.push(2);
        avec.push(3);
        assert_eq!(items_of(&avec), vec![1, 2, 3]);
    }
    assert_eq!(store, [None, None]);
}

#[test]
fn items_in_the_store_are_destroyed_with_the_vector() {
    let item = Rc::new(5u8);
    let mut store: [Option<Rc<u8>>; 4] = [None, None, None, None];
    {
        let mut avec = AVec::new(&mut store);
        avec.push(item.clone());
        avec.push(item.clone());
        assert!(!avec.is_allocated());
        assert_eq!(Rc::strong_count(&item), 3);
    }
    assert_eq!(Rc::strong_count(&item), 1);
    assert_eq!(store, [None, None, None, None]);
}

#[test]
fn items_on_the_heap_are_destroyed_with_the_vector() {
    let item = Rc::new(5u8);
    let mut store: [Option<Rc<u8>>; 1] = [None];
    {
        let mut avec = AVec::new(&mut store);
        avec.push(item.clone());
        assert!(avec.is_allocated());
        assert_eq!(Rc::strong_count(&item), 2);
        avec.push(item.clone());
        avec.push(item.clone());
        assert_eq!(Rc::strong_count(&item), 4);
    }
    assert_eq!(Rc::strong_count(&item), 1);
}

#[test]
fn store_borrowed_from_a_scratch_buffer() {
    let (len, allocated, items) = stackalloc_with_default(4, |store: &mut [Option<u64>]| {
        let mut avec = AVec::new(store);
        for item in 1..=6u64 {
            avec.push(item * item);
        }
        (avec.len(), avec.is_allocated(), items_of(&avec))
    });
    assert_eq!(len, 6);
    assert!(allocated);
    assert_eq!(items, vec![1, 4, 9, 16, 25, 36]);
}

fn needs_send<T: Send>(_: &T) {}

fn needs_sync<T: Sync>(_: &T) {}

#[test]
fn vector_of_sendable_items_can_change_threads() {
    let mut store: [Option<u32>; 2] = [None, None];
    let mut avec = AVec::new(&mut store);
    avec.push(1);
    needs_send(&avec);
    needs_sync(&avec);
    assert_eq!(avec.len(), 1);
}
