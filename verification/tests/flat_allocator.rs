use nitric_component::allocator::{Allocator, Create, CreateChecked, Delete, MergeDeleted};
use nitric_component::id::{Id, SparseLinear};
use nitric_component::impls::FlatAllocator;

#[test]
fn assert_deleted() {
    let (mut alloc, mut merger) = FlatAllocator::new();

    let a = alloc.create().unwrap();
    alloc.assert_deleted(&a);

    assert!(alloc.is_valid(&a));

    alloc.merge_deleted(&mut merger);

    assert!(!alloc.is_valid(&a));
    alloc.assert_deleted(&a);
    assert!(!alloc.is_valid(&a));
}

#[test]
fn checked() {
    let (mut alloc, mut merger) = FlatAllocator::new();

    let a = alloc.create().unwrap();
    let b = alloc.create_checked(&merger).unwrap();
    let c = alloc.create_checked(&merger).unwrap();

    println!("{}, {}", b.as_usize(), c.as_usize());

    if let Ok(a) = a.try_as_key(&alloc) {
        println!("a: {}", a);
    }

    alloc.merge_deleted(&mut merger);
}

#[test]
fn flat_allocator_try_delete() {
    let (mut alloc, mut merger) = FlatAllocator::new();

    let a = alloc.create().unwrap();
    let b = alloc.create_checked(&merger).unwrap();

    alloc.try_delete(&a).unwrap();
    alloc.try_delete(b.id()).unwrap();
    alloc.merge_deleted(&mut merger);

    assert_eq!(alloc.num_valid(), 0);
    assert_eq!(alloc.num_valid_hint().1, Some(2));
}
