use nitric_component::allocator::{Create, Delete, MergeDeleted};
use nitric_component::error::InvalidIdError;
use nitric_component::id::{Id, MergingDeletion};
use nitric_component::impls::FlatAllocator;
use std::borrow::Cow;

#[test]
fn invalid_id() {
    let (mut alloc, mut merger) = FlatAllocator::new();

    let id = alloc.create().unwrap();

    assert_eq!(
        id.try_as_key(&alloc).map(Cow::into_owned),
        Ok(id.into_usize())
    );

    alloc.delete(&id.checked(&alloc, &merger).unwrap());
    alloc.merge_deleted(&mut merger);

    assert_eq!(
        id.try_as_key(&alloc).map(Cow::into_owned),
        Err(InvalidIdError(id))
    );
}
