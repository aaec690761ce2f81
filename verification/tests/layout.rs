use stackalloc::layout::{align_buffer_to, fits, size_bytes};
use std::mem::{align_of, size_of};

#[test]
fn bytes_for_a_slice_of_bytes() {
    assert_eq!(size_bytes::<u8>(0), Some(1));
    assert_eq!(size_bytes::<u8>(5), Some(6));
    assert_eq!(size_bytes::<u8>(128), Some(129));
}

#[test]
fn bytes_for_a_slice_of_wider_values() {
    assert_eq!(size_bytes::<u16>(10), Some(22));
    assert_eq!(size_bytes::<u32>(10), Some(44));
    assert_eq!(size_bytes::<[u8; 3]>(7), Some(22));
    assert_eq!(
        size_bytes::<u64>(10),
        Some(size_of::<u64>() * 10 + align_of::<u64>())
    );
    assert_eq!(size_bytes::<()>(1000), Some(1));
}

#[test]
fn bytes_that_do_not_fit_are_none() {
    assert_eq!(size_bytes::<u8>(usize::MAX - 1), Some(usize::MAX));
    assert_eq!(size_bytes::<u8>(usize::MAX), None);
    assert_eq!(size_bytes::<u16>(usize::MAX / 2), None);
    assert_eq!(size_bytes::<u16>(usize::MAX / 2 - 1), Some(usize::MAX - 1));
    assert_eq!(size_bytes::<u32>(usize::MAX), None);
}

#[test]
fn aligned_address_for_bytes_is_the_next_one() {
    assert_eq!(align_buffer_to::<u8>(0), 1);
    assert_eq!(align_buffer_to::<u8>(5), 6);
    assert_eq!(align_buffer_to::<u8>(usize::MAX - 1), usize::MAX);
}

#[test]
fn aligned_address_for_wider_values() {
    assert_eq!(align_buffer_to::<u16>(13), 14);
    assert_eq!(align_buffer_to::<u16>(14), 16);
    assert_eq!(align_buffer_to::<u32>(13), 16);
    assert_eq!(align_buffer_to::<u32>(16), 20);
    assert_eq!(align_buffer_to::<u32>(0), 4);
    let align = align_of::<u64>();
    assert_eq!(align_buffer_to::<u64>(1), align);
    assert_eq!(align_buffer_to::<u64>(align), 2 * align);
}

#[test]
fn aligned_slice_lies_inside_the_region() {
    for addr in 0usize..200 {
        for count in 0usize..9 {
            let bytes = size_bytes::<u32>(count).unwrap();
            let start = align_buffer_to::<u32>(addr);
            assert_eq!(start % align_of::<u32>(), 0);
            assert!(addr < start && start <= addr + align_of::<u32>());
            assert!(start + size_of::<u32>() * count <= addr + bytes);
        }
    }
}

#[test]
fn counts_that_a_buffer_can_hold() {
    assert!(fits::<u8>(0));
    assert!(fits::<u8>(4096));
    assert!(fits::<u64>(1000));
    assert!(fits::<()>(usize::MAX));
    assert!(fits::<u8>(isize::MAX as usize));
    assert!(fits::<u16>(isize::MAX as usize / 2));
}

#[test]
fn counts_that_no_buffer_can_hold() {
    assert!(!fits::<u8>(isize::MAX as usize + 1));
    assert!(!fits::<u8>(usize::MAX));
    assert!(!fits::<u16>(isize::MAX as usize / 2 + 1));
    assert!(!fits::<u64>(usize::MAX / 8));
    assert!(!fits::<u64>(usize::MAX));
}
