use nitric_component::error::InvalidIdError;
use nitric_component::impls::UsizeAllocator;

#[test]
fn usize_allocator_new() {
    let empty = UsizeAllocator::new();

    for i in 0..100 {
        assert_eq!(empty.is_valid(i), false);
    }
}

#[test]
fn checked_inc() {
    let mut empty = UsizeAllocator::new();

    assert_eq!(empty.num_valid_hint().1, Some(0));
    assert_eq!(empty.checked_inc(), Some(0));
    assert_eq!(empty.checked_inc(), Some(1));
    assert_eq!(empty.checked_inc(), Some(2));

    let mut empty = UsizeAllocator::with_counter(usize::max_value());

    assert_eq!(empty.checked_inc(), None);
}

#[test]
fn is_valid() {
    let mut alloc = UsizeAllocator::new();

    for i in 0..3 {
        alloc.create().unwrap();
        assert_eq!(alloc.is_valid(i), true);
    }

    assert_eq!(alloc.is_valid(3), false);

    for i in 0..3 {
        assert_eq!(alloc.is_valid(i), true);
        alloc.delete_valid(i);
        assert_eq!(alloc.is_valid(i), true);
    }

    alloc.merge_deleted();

    for i in 0..3 {
        assert_eq!(alloc.is_valid(i), false);
    }

    for _ in 0..3 {
        alloc.create().unwrap();
    }

    for i in 0..3 {
        assert_eq!(alloc.is_valid(i), true);
    }

    assert_eq!(alloc.is_valid(3), false);

    for i in 0..3 {
        assert_eq!(alloc.is_valid(i), true);
        alloc.delete_valid(i);
        assert_eq!(alloc.is_valid(i), true);
    }
}

#[test]
fn num_valid() {
    let mut alloc = UsizeAllocator::new();

    for i in 0..3 {
        assert_eq!(alloc.num_valid(), i);
        alloc.create().unwrap();
        assert_eq!(alloc.num_valid(), i + 1);
    }

    assert_eq!(alloc.num_valid(), 3);

    for i in 0..3 {
        alloc.delete_valid(i);
        assert_eq!(alloc.num_valid(), 3);
    }

    alloc.merge_deleted();
    assert_eq!(alloc.num_valid(), 0);

    let a = alloc.create().unwrap();
    assert_eq!(alloc.num_valid(), 1);
    let b = alloc.create().unwrap();
    alloc.delete_valid(b);
    assert_eq!(alloc.num_valid(), 2);
    alloc.merge_deleted();
    assert_eq!(alloc.num_valid(), 1);
    alloc.delete_valid(a);
    alloc.merge_deleted();

    for i in 0..3 {
        assert_eq!(alloc.num_valid(), i);
        alloc.create().unwrap();
        assert_eq!(alloc.num_valid(), i + 1);
    }

    assert_eq!(alloc.num_valid(), 3);

    for i in 0..3 {
        alloc.delete_valid(i);
        assert_eq!(alloc.num_valid(), 3);
    }

    alloc.merge_deleted();
    assert_eq!(alloc.num_valid(), 0);
}

#[test]
fn is_flagged() {
    let mut alloc = UsizeAllocator::new();

    for i in 0..100 {
        assert_eq!(alloc.is_flagged(i), false);
    }

    for i in 0..3 {
        alloc.create().unwrap();
        assert_eq!(alloc.is_flagged(i), false);
    }

    for i in 0..3 {
        assert_eq!(alloc.is_flagged(i), false);
        alloc.delete_valid(i);
        assert_eq!(alloc.is_flagged(i), true);
    }

    alloc.merge_deleted();

    for i in 0..3 {
        assert_eq!(alloc.is_flagged(i), false);
    }

    for _ in 0..3 {
        alloc.create().unwrap();
    }

    for i in 0..3 {
        assert_eq!(alloc.is_flagged(i), false);
    }

    assert_eq!(alloc.is_flagged(3), false);

    for i in 0..3 {
        assert_eq!(alloc.is_flagged(i), false);
        alloc.delete_valid(i);
        assert_eq!(alloc.is_flagged(i), true);
    }
}

#[test]
fn num_valid_hint() {
    let mut alloc = UsizeAllocator::new();

    assert_eq!(alloc.num_valid_hint(), (0, Some(0)));

    alloc.create().unwrap();

    assert_eq!(alloc.num_valid_hint(), (0, Some(1)));

    alloc.create().unwrap();
    alloc.create().unwrap();
    alloc.create().unwrap();

    assert_eq!(alloc.num_valid_hint(), (0, Some(4)));

    alloc.delete_valid(2);

    assert_eq!(alloc.num_valid_hint(), (0, Some(4)));

    alloc.merge_deleted();

    assert_eq!(alloc.num_valid_hint(), (0, Some(4)));
}

#[test]
fn usize_allocator_try_delete() {
    let mut alloc = UsizeAllocator::new();

    for i in 0..100 {
        assert_eq!(alloc.try_delete(i), Err(InvalidIdError(i)));
    }

    alloc.create().unwrap();
    alloc.create().unwrap();
    alloc.create().unwrap();

    for i in 0..3 {
        assert_eq!(alloc.try_delete(i), Ok(()));
        assert_eq!(alloc.try_delete(i), Ok(()));
    }

    alloc.merge_deleted();

    for i in 0..3 {
        assert_eq!(alloc.try_delete(i), Err(InvalidIdError(i)));
    }
}
