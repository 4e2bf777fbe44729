use crate::allocator::PhantomAllocator;
use crate::error::InvalidIdError;
use crate::id::{Id, ValidId, WrapperId};
use std::borrow::Cow;
use std::marker::PhantomData;
use vstd::prelude::*;

verus! {

/// Represents an ID that is guaranteed to be valid.
///
/// Implements `ValidId` to allow calling methods that expect `ValidId`s, and
/// can thus skip validity checks. This means we can ensure at type-level that a
/// function cannot fail.
///
/// The ID holds a shared borrow of the merger of its allocator. A merge takes
/// the merger exclusively, so none can happen while a `CheckedId` lives.
#[derive(Copy, Debug, Eq, Hash, PartialEq)]
pub struct CheckedId<'merger, ID: Id> {
    /// The wrapped ID which can be moved out using `into_inner`.
    id: ID,
    key: ID::Key,
    _merger: PhantomData<&'merger ()>,
}

impl<'merger, ID> CheckedId<'merger, ID> where ID: Id {
    /// The wrapped ID.
    pub closed spec fn id_spec(&self) -> ID {
        self.id
    }

    /// Creates a new checked ID from an `id`, its key and a reference to the
    /// merger of the `Id`'s allocator.
    ///
    /// # Contract
    ///
    /// * `id` must be valid for as long as `allocator` is borrowed
    pub fn new_from_fields<M>(id: ID, key: ID::Key, _merger: &'merger M) -> (checked: Self)
        ensures
            checked.id_spec() == id,
            checked.key() == key,
    {
        CheckedId { id, key, _merger: PhantomData }
    }

    /// Returns a reference to the wrapped ID.
    pub fn id(&self) -> (id: &ID)
        ensures
            *id == self.id_spec(),
    {
        &self.id
    }
}

impl<'merger, ID> Clone for CheckedId<'merger, ID> where ID: Id {
    fn clone(&self) -> (copy: Self)
        ensures
            copy.key() == self.key(),
    {
        CheckedId { id: self.id.clone(), key: self.key, _merger: PhantomData }
    }
}

impl<'merger, ID> Id for CheckedId<'merger, ID> where ID: Id + 'merger {
    type Allocator = PhantomAllocator;

    type Key = ID::Key;

    closed spec fn key(&self) -> ID::Key {
        self.key
    }

    open spec fn valid_in(&self, allocator: &PhantomAllocator) -> bool {
        true
    }

    fn try_as_key(&self, _allocator: &Self::Allocator) -> (key: Result<
        Cow<'_, Self::Key>,
        InvalidIdError<Self>,
    >) {
        Ok(self.as_key_unchecked())
    }

    fn as_key_unchecked(&self) -> (key: Cow<'_, Self::Key>) {
        Cow::Borrowed(&self.key)
    }
}

impl<'merger, ID> ValidId<ID> for CheckedId<'merger, ID> where ID: Id + 'merger {
    open spec fn inner(&self) -> ID {
        self.id_spec()
    }

    fn as_inner(&self) -> (inner: &ID) {
        &self.id
    }

    fn into_inner(self) -> (inner: ID) {
        self.id
    }

    fn as_key(&self) -> (key: Cow<'_, Self::Key>) {
        self.as_key_unchecked()
    }
}

impl<'merger, ID> WrapperId for CheckedId<'merger, ID> where ID: Id + 'merger {
    type Original = ID;

    open spec fn original(&self) -> ID {
        self.id_spec()
    }

    fn as_inner(&self) -> (inner: &Self::Original) {
        &self.id
    }

    fn into_inner(self) -> (inner: Self::Original) {
        self.id
    }
}

} // verus!
