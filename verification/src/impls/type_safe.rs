use crate::allocator::{Allocator, Create};
use crate::error::{InvalidIdError, OomError};
use crate::id::{Id, WrapperId};
use std::borrow::Cow;
use std::fmt::Debug;
use std::marker::PhantomData;
use vstd::prelude::*;

verus! {

/// A wrapper around `ID::Allocator` to allow for multiple, opaque ID types with the same
/// backing ID.
///
/// The type `T` is just a dummy type to actually allow for unique IDs.
pub struct TypeSafeAllocator<ID: Id, T> where ID::Allocator: Sized {
    alloc: ID::Allocator,
    _marker: PhantomData<T>,
}

impl<ID: Id, T> TypeSafeAllocator<ID, T> where ID::Allocator: Sized {
    /// The wrapped allocator.
    pub closed spec fn inner(&self) -> ID::Allocator {
        self.alloc
    }

    /// Wraps `alloc`.
    pub fn from_inner(alloc: ID::Allocator) -> (wrapper: Self)
        ensures
            wrapper.inner() == alloc,
    {
        TypeSafeAllocator { alloc, _marker: PhantomData }
    }

    /// Moves out the wrapped allocator.
    pub fn into_inner(self) -> (alloc: ID::Allocator)
        ensures
            alloc == self.inner(),
    {
        self.alloc
    }
}

impl<ID, T> Allocator<TypeSafeId<ID, T>> for TypeSafeAllocator<ID, T> where
    ID: Id,
    T: Debug,
    ID::Allocator: Sized + Allocator<ID>,
 {
    open spec fn wf(&self) -> bool {
        self.inner().wf()
    }

    open spec fn valid_count(&self) -> nat {
        self.inner().valid_count()
    }

    open spec fn valid_hint(&self) -> (usize, Option<usize>) {
        self.inner().valid_hint()
    }

    fn is_valid(&self, id: &TypeSafeId<ID, T>) -> (valid: bool) {
        self.alloc.is_valid(&id.id)
    }

    fn num_valid(&self) -> (n: usize) {
        self.alloc.num_valid()
    }

    fn num_valid_hint(&self) -> (hint: (usize, Option<usize>)) {
        self.alloc.num_valid_hint()
    }
}

impl<ID, T> Create<TypeSafeId<ID, T>> for TypeSafeAllocator<ID, T> where
    ID: Id,
    T: Debug,
    ID::Allocator: Sized + Create<ID>,
 {
    open spec fn exhausted(&self) -> bool {
        self.inner().exhausted()
    }

    fn create(&mut self) -> (id: Result<TypeSafeId<ID, T>, OomError>)
        ensures
            id matches Ok(id) ==> id.inner_spec().valid_in(&final(self).inner()),
    {
        match self.alloc.create() {
            Ok(id) => {
                let id = TypeSafeId::from_inner(id);
                proof {
                    assert forall|other: TypeSafeId<ID, T>| other.key() != id.key() implies #[trigger]
                        other.valid_in(self) == other.valid_in(old(self)) by {
                        assert(other.inner_spec().valid_in(&self.inner())
                            == other.inner_spec().valid_in(&old(self).inner()));
                    }
                }
                Ok(id)
            },
            Err(error) => {
                proof {
                    assert forall|other: TypeSafeId<ID, T>| #[trigger]
                        other.valid_in(self) == other.valid_in(old(self)) by {
                        assert(other.inner_spec().valid_in(&self.inner())
                            == other.inner_spec().valid_in(&old(self).inner()));
                    }
                }
                Err(error)
            },
        }
    }
}

/// A wrapper around an ID to allow for multiple, opaque ID types with the same
/// backing ID.
#[derive(Copy, Debug, Eq, Hash, PartialEq)]
pub struct TypeSafeId<ID, T> {
    id: ID,
    _marker: PhantomData<T>,
}

impl<ID, T> TypeSafeId<ID, T> {
    /// The wrapped ID.
    pub closed spec fn inner_spec(&self) -> ID {
        self.id
    }

    /// Creates a new `TypeSafeId` from an inner ID.
    pub fn from_inner(id: ID) -> (wrapper: Self)
        ensures
            wrapper.inner_spec() == id,
    {
        TypeSafeId { id, _marker: PhantomData }
    }

    /// Returns a reference to the wrapped ID.
    pub fn inner(&self) -> (id: &ID)
        ensures
            *id == self.inner_spec(),
    {
        &self.id
    }

    /// Returns a mutable reference to the wrapped ID.
    pub fn inner_mut(&mut self) -> (id: &mut ID)
        ensures
            *id == old(self).inner_spec(),
            final(self).inner_spec() == *final(id),
    {
        &mut self.id
    }

    /// Moves out the wrapped ID.
    pub fn into_inner(self) -> (id: ID)
        ensures
            id == self.inner_spec(),
    {
        self.id
    }
}

impl<ID: Clone, T> Clone for TypeSafeId<ID, T> {
    fn clone(&self) -> (copy: Self)
        ensures
            cloned(self.inner_spec(), copy.inner_spec()),
    {
        TypeSafeId { id: self.id.clone(), _marker: PhantomData }
    }
}

impl<ID, T> From<ID> for TypeSafeId<ID, T> {
    fn from(id: ID) -> (wrapper: Self) {
        TypeSafeId { id, _marker: PhantomData }
    }
}

impl<ID, T> vstd::std_specs::convert::FromSpecImpl<ID> for TypeSafeId<ID, T> {
    open spec fn obeys_from_spec() -> bool {
        true
    }

    closed spec fn from_spec(id: ID) -> Self {
        TypeSafeId { id, _marker: PhantomData }
    }
}

impl<ID, T> Id for TypeSafeId<ID, T> where ID: Id, T: Debug, ID::Allocator: Sized {
    type Allocator = TypeSafeAllocator<ID, T>;

    type Key = ID::Key;

    open spec fn key(&self) -> ID::Key {
        self.inner_spec().key()
    }

    open spec fn valid_in(&self, allocator: &TypeSafeAllocator<ID, T>) -> bool {
        self.inner_spec().valid_in(&allocator.inner())
    }

    fn try_as_key(&self, allocator: &Self::Allocator) -> (key: Result<
        Cow<'_, Self::Key>,
        InvalidIdError<Self>,
    >) {
        match self.id.try_as_key(&allocator.alloc) {
            Ok(key) => Ok(key),
            Err(error) => Err(invalid_err_into(error)),
        }
    }

    fn as_key_unchecked(&self) -> (key: Cow<'_, Self::Key>) {
        self.id.as_key_unchecked()
    }
}

impl<ID, T> WrapperId for TypeSafeId<ID, T> where ID: Id, T: Debug, ID::Allocator: Sized {
    type Original = ID;

    open spec fn original(&self) -> ID {
        self.inner_spec()
    }

    fn as_inner(&self) -> (inner: &Self::Original) {
        &self.id
    }

    fn into_inner(self) -> (inner: Self::Original) {
        self.id
    }
}

/// Turns the error about an ID into the error about its wrapper.
pub fn invalid_err_into<ID: Debug, T>(error: InvalidIdError<ID>) -> (wrapped: InvalidIdError<
    TypeSafeId<ID, T>,
>)
    ensures
        wrapped.0.inner_spec() == error.0,
{
    let InvalidIdError(id) = error;
    InvalidIdError(TypeSafeId::from_inner(id))
}

} // verus!
