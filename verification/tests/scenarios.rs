use nitric_component::allocator::{Allocator, Create, CreateChecked, Delete, MergeDeleted};
use nitric_component::id::{SparseLinear, ValidId};
use nitric_component::impls::{FlatAllocator, UsizeAllocator};
use nitric_component::storage::Storage;

#[derive(Clone, Debug, Eq, PartialEq)]
pub struct Position {
    x: i32,
    y: i32,
}

#[test]
fn hundred_handles_half_deleted() {
    let (mut allocator, mut merger) = FlatAllocator::new();
    let mut positions = Storage::new();

    let mut keys = Vec::new();
    {
        let mut id_set = Vec::new();
        for _ in 0..100 {
            id_set.push(allocator.create_checked(&merger).unwrap());
        }
        for (index, id) in id_set.iter().enumerate() {
            assert_eq!(id.as_usize(), index);
            keys.push(*id.as_inner());
        }

        for id in id_set.iter() {
            positions.insert(*id, Position { x: 2, y: -5 });
        }
        assert_eq!(positions.get(&id_set[3]), Some(&Position { x: 2, y: -5 }));

        for id in id_set.iter().skip(50) {
            allocator.delete(id);
        }
        assert_eq!(allocator.num_valid(), 100);
    }

    let freed = allocator.merge_deleted(&mut merger);

    assert_eq!(freed.len(), 50);
    for (offset, id) in freed.iter().enumerate() {
        assert_eq!(id.into_usize(), 50 + offset);
    }
    assert_eq!(allocator.num_valid(), 50);
    for (index, id) in keys.iter().enumerate() {
        assert_eq!(allocator.is_valid(id), index < 50);
    }

    let next = allocator.create().unwrap();
    assert_eq!(next.into_usize(), 99);
    assert_eq!(allocator.num_valid(), 51);
    assert_eq!(allocator.num_valid_hint(), (0, Some(100)));
}

#[test]
fn delete_twice_frees_once() {
    let (mut allocator, mut merger) = FlatAllocator::new();

    let key;
    {
        let id = allocator.create_checked(&merger).unwrap();
        key = id.as_usize();
        allocator.delete(&id);
        allocator.delete(&id);
        assert!(allocator.is_flagged(&id));
        assert!(allocator.is_valid(id.as_inner()));
    }

    let freed = allocator.merge_deleted(&mut merger);

    assert_eq!(freed.len(), 1);
    assert_eq!(freed[0].into_usize(), key);
    assert_eq!(allocator.num_valid(), 0);
}

#[test]
fn delete_twice_is_delete_once() {
    let mut once = UsizeAllocator::new();
    let mut twice = UsizeAllocator::new();
    for _ in 0..4 {
        once.create().unwrap();
        twice.create().unwrap();
    }

    once.delete_valid(2);
    twice.delete_valid(2);
    twice.delete_valid(2);

    for key in 0..8 {
        assert_eq!(once.is_valid(key), twice.is_valid(key));
        assert_eq!(once.is_flagged(key), twice.is_flagged(key));
    }
    assert_eq!(once.num_valid(), twice.num_valid());
    assert_eq!(once.num_valid_hint(), twice.num_valid_hint());
    assert_eq!(once.merge_deleted(), twice.merge_deleted());
    assert_eq!(once.create().unwrap(), twice.create().unwrap());
}

#[test]
fn liveness_from_create_to_merge() {
    let mut allocator = UsizeAllocator::new();

    assert!(!allocator.is_valid(0));
    let key = allocator.create().unwrap();
    assert_eq!(key, 0);
    assert!(allocator.is_valid(key));

    let other = allocator.create().unwrap();
    assert!(allocator.is_valid(key));

    // a merge that has nothing of `key` to process leaves it valid
    allocator.delete_valid(other);
    assert_eq!(allocator.merge_deleted(), &[other][..]);
    assert!(allocator.is_valid(key));
    assert!(!allocator.is_valid(other));

    allocator.delete_valid(key);
    allocator.delete_valid(key);
    assert!(allocator.is_valid(key));
    assert_eq!(allocator.merge_deleted(), &[key][..]);
    assert!(!allocator.is_valid(key));

    // not valid again before a `create` issues the key anew
    assert_eq!(allocator.merge_deleted(), &[][..]);
    assert!(!allocator.is_valid(key));
    assert_eq!(allocator.create(), Ok(key));
    assert!(allocator.is_valid(key));
}

#[test]
fn two_phase_deletion_frees_what_was_flagged() {
    let mut allocator = UsizeAllocator::new();
    for _ in 0..10 {
        allocator.create().unwrap();
    }

    for key in [7, 2, 5, 2] {
        allocator.delete_valid(key);
    }
    assert_eq!(allocator.num_valid(), 10);

    assert_eq!(allocator.merge_deleted(), &[2, 5, 7][..]);
    assert_eq!(allocator.num_valid(), 7);
    for key in 0..10 {
        assert_eq!(allocator.is_valid(key), ![2, 5, 7].contains(&key));
    }

    // the keys are recycled, the one freed last first
    assert_eq!(allocator.create(), Ok(7));
    assert_eq!(allocator.create(), Ok(5));
    assert_eq!(allocator.create(), Ok(2));
    assert_eq!(allocator.create(), Ok(10));
}
