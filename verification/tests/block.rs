use sallyport_accept4::block::{Allocator, NULL};

#[test]
fn allocate_aligns_and_advances() {
    let mut a = Allocator::new(16);
    assert_eq!(a.used(), 1);
    assert_eq!(a.allocate(3, 1), Ok(1));
    assert_eq!(a.used(), 4);
    assert_eq!(a.allocate(4, 4), Ok(4));
    assert_eq!(a.used(), 8);
    assert_eq!(a.allocate(1, 8), Ok(8));
    assert_eq!(a.used(), 9);
}

#[test]
fn allocate_never_hands_out_offset_zero() {
    let mut a = Allocator::new(16);
    assert_eq!(a.allocate(0, 1), Ok(1));
    assert_ne!(a.allocate(0, 16), Ok(NULL));
    let mut b = Allocator::new(16);
    assert_eq!(b.allocate(4, 8), Ok(8));
}

#[test]
fn allocate_fails_without_taking_anything() {
    let mut a = Allocator::new(10);
    assert_eq!(a.allocate(5, 1), Ok(1));
    // Padding to 8 leaves 2 bytes: 4 do not fit.
    assert_eq!(a.allocate(4, 4), Err(libc::ENOMEM));
    assert_eq!(a.used(), 6);
    assert_eq!(a.allocate(2, 4), Ok(8));
    assert_eq!(a.used(), 10);
    assert_eq!(a.allocate(0, 1), Ok(10));
    assert_eq!(a.allocate(1, 1), Err(12));
}

#[test]
fn allocate_in_an_empty_block_fails() {
    let mut a = Allocator::new(0);
    assert_eq!(a.allocate(0, 1), Err(12));
    assert_eq!(a.used(), 1);
    assert_eq!(a.capacity(), 0);
}

#[test]
fn allocate_rejects_huge_sizes() {
    let mut a = Allocator::new(64);
    assert_eq!(a.allocate(1, 1), Ok(1));
    assert_eq!(a.allocate(usize::MAX, 1), Err(12));
    assert_eq!(a.allocate(1, usize::MAX), Err(12));
    assert_eq!(a.used(), 2);
}

#[test]
fn consecutive_allocations_do_not_overlap() {
    let mut a = Allocator::new(100);
    let first = a.allocate(5, 2).unwrap();
    let second = a.allocate(7, 4).unwrap();
    assert_eq!(first, 2);
    assert!(first + 5 <= second);
    assert_eq!(second % 4, 0);
    assert_eq!(a.capacity(), 100);
}
