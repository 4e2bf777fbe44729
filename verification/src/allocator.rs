//! Module for defining the allocator interface and its traits.
//!
//! This type actually has a top-level trait (`Allocator`), but most of its
//! functionality is still split up into traits.

pub mod phantom;

pub use self::phantom::PhantomAllocator;

use crate::error::{InvalidIdError, OomError};
use crate::id::{CheckedId, Id, MergingDeletion, ValidId};
use crate::util::InstanceId;
use std::marker::PhantomData;
use vstd::prelude::*;

verus! {

/// Generic allocator for IDs of type `ID`.
pub trait Allocator<ID> where ID: Id<Allocator = Self> {
    /// The representation invariant of the allocator.
    spec fn wf(&self) -> bool;

    /// The number of valid IDs.
    spec fn valid_count(&self) -> nat;

    /// The bounds on the number of valid IDs that this allocator knows
    /// without counting: the least number, and the greatest if it knows one.
    spec fn valid_hint(&self) -> (usize, Option<usize>);

    /// Checks if `id` is a valid ID.
    ///
    /// This can return `false` for example if the ID has been deleted.
    fn is_valid(&self, id: &ID) -> (valid: bool)
        ensures
            valid == id.valid_in(self),
    ;

    /// Retrieves the number of valid IDs. This may or may not be expensive to
    /// calculate.
    ///
    /// If you're looking for this for optimization purposes, use
    /// `num_valid_hint` instead.
    fn num_valid(&self) -> (n: usize)
        requires
            self.wf(),
        ensures
            n == self.valid_count(),
    ;

    /// Returns a hint for the number of valid IDs. This should be preferred
    /// over `num_valid` when used for optimization purposes.
    ///
    /// The first element of the tuple is the minimal number of valid IDs, the
    /// latter the maximum.
    ///
    /// If the first and the second are equal, this hint must be accurate. If
    /// the latter is `None`, the operation is non-trivial and `num_valid`
    /// must be used to retrieve the accurate number.
    fn num_valid_hint(&self) -> (hint: (usize, Option<usize>))
        requires
            self.wf(),
        ensures
            hint == self.valid_hint(),
            hint.0 <= self.valid_count(),
            hint.1 matches Some(upper) ==> self.valid_count() <= upper,
    ;
}

/// Trait implemented by allocators that can create new IDs, atomically and
/// without additional arguments.
pub trait Create<ID>: Allocator<ID> where ID: Id<Allocator = Self> {
    /// Whether no further ID can be created.
    spec fn exhausted(&self) -> bool;

    /// Creates a new ID of type `ID`: one that was not valid, and is now.
    /// What was valid stays valid. Fails if and only if the allocator is
    /// exhausted, and then changes nothing.
    fn create(&mut self) -> (id: Result<ID, OomError>)
        requires
            old(self).wf(),
        ensures
            final(self).wf(),
            id is Err <==> old(self).exhausted(),
            match id {
                Ok(id) => {
                    &&& !id.valid_in(old(self))
                    &&& id.valid_in(final(self))
                    &&& final(self).valid_count() == old(self).valid_count() + 1
                    &&& forall|other: ID|
                        other.key() != id.key() ==> #[trigger] other.valid_in(final(self))
                            == other.valid_in(old(self))
                },
                Err(_) => {
                    &&& final(self).valid_count() == old(self).valid_count()
                    &&& forall|other: ID|
                        #[trigger] other.valid_in(final(self)) == other.valid_in(old(self))
                },
            },
    ;
}

/// Trait implemented by allocators that can create new IDs, atomically and
/// without additional arguments.
pub trait CreateChecked<ID>: Allocator<ID> + Create<ID> where
    ID: Id<Allocator = Self> + MergingDeletion,
 {
    /// Creates a new ID of type `ID` and wraps it in a `CheckedId`. Also see
    /// `Create::create`.
    ///
    /// This is useful because it allows you to perform operations after an ID
    /// creation without the need to `unwrap` impossible errors (since your
    /// ID implements `ValidId`.
    ///
    /// Once you're done, you'll want to get the inner ID again using
    /// `CheckedId::into_inner`.
    ///
    /// This has a naive default implementation that can be replaced with a
    /// custom one if required.
    fn create_checked<'merger>(&mut self, merger: &'merger ID::Merger) -> (id: Result<
        CheckedId<'merger, ID>,
        OomError,
    >)
        requires
            old(self).wf(),
        ensures
            final(self).wf(),
            id is Err <==> old(self).exhausted(),
            match id {
                Ok(id) => {
                    &&& !id.id_spec().valid_in(old(self))
                    &&& id.id_spec().valid_in(final(self))
                    &&& id.key() == id.id_spec().key()
                    &&& final(self).valid_count() == old(self).valid_count() + 1
                    &&& forall|other: ID|
                        other.key() != id.key() ==> #[trigger] other.valid_in(final(self))
                            == other.valid_in(old(self))
                },
                Err(_) => {
                    &&& final(self).valid_count() == old(self).valid_count()
                    &&& forall|other: ID|
                        #[trigger] other.valid_in(final(self)) == other.valid_in(old(self))
                },
            },
    {
        let id = match self.create() {
            Ok(id) => id,
            Err(error) => {
                return Err(error);
            },
        };
        let checked = id.checked(&*self, merger).unwrap();

        Ok(checked)
    }
}

/// Trait implemented by allocators that can delete IDs, atomically and without
/// additional arguments.
pub trait Delete<ID>: Allocator<ID> where ID: Id<Allocator = Self> {
    /// Whether `id` is flagged for deletion.
    spec fn flagged(&self, id: &ID) -> bool;

    /// Returns `true` if `id` is flagged for deletion.
    ///
    /// Only available if `ID` implements `MergingDeletion`; if it doesn't, use
    /// `Allocator::is_valid` instead.
    fn is_flagged<V>(&self, id: &V) -> (flagged: bool) where ID: MergingDeletion, V: ValidId<ID>
        ensures
            flagged == self.flagged(&id.inner()),
    ;

    /// Flags a previously created ID that is guaranteed to be valid for
    /// deletion. For deleting eventually valid IDs, see `try_delete`.
    ///
    /// # Behavior
    ///
    /// This does not actually delete the ID. This just flags it for deletion;
    /// the allocator will require calling further methods for an actual
    /// deletion to happen.
    ///
    /// Most commonly, this function is `MergeDeleted::merge_deleted`.
    ///
    /// Calling this method twice with the same ID is perfectly correct, since
    /// IDs stay valid beyond a call to `delete`.
    fn delete<V>(&mut self, id: &V) where V: ValidId<ID>
        requires
            old(self).wf(),
            id.inner().valid_in(old(self)),
        ensures
            final(self).wf(),
            final(self).flagged(&id.inner()),
            final(self).valid_count() == old(self).valid_count(),
            forall|other: ID| #[trigger] other.valid_in(final(self)) == other.valid_in(old(self)),
            forall|other: ID|
                other.key() != id.inner().key() ==> #[trigger] final(self).flagged(&other) == old(
                    self,
                ).flagged(&other),
    ;

    /// Flags a previously created ID for deletion, failing if the ID is
    /// invalid. See `Delete::delete`.
    fn try_delete(&mut self, id: &ID) -> (result: Result<(), InvalidIdError<ID>>)
        requires
            old(self).wf(),
        ensures
            final(self).wf(),
            result is Ok <==> id.valid_in(old(self)),
            result matches Err(error) ==> error.0 == *id,
            final(self).flagged(id) == (old(self).flagged(id) || id.valid_in(old(self))),
            final(self).valid_count() == old(self).valid_count(),
            forall|other: ID| #[trigger] other.valid_in(final(self)) == other.valid_in(old(self)),
            forall|other: ID|
                other.key() != id.key() ==> #[trigger] final(self).flagged(&other) == old(
                    self,
                ).flagged(&other),
    ;

    /// Makes sure `id` is deleted, ignoring the case where deletion fails due
    /// to an invalid ID. See `Delete::delete`.
    #[inline]
    fn assert_deleted(&mut self, id: &ID)
        requires
            old(self).wf(),
        ensures
            final(self).wf(),
            final(self).flagged(id) == (old(self).flagged(id) || id.valid_in(old(self))),
            final(self).valid_count() == old(self).valid_count(),
            forall|other: ID| #[trigger] other.valid_in(final(self)) == other.valid_in(old(self)),
            forall|other: ID|
                other.key() != id.key() ==> #[trigger] final(self).flagged(&other) == old(
                    self,
                ).flagged(&other),
    {
        let _ = self.try_delete(id);
    }
}

/// Interface for deleting IDs flagged by `Delete::delete` with only a mutable
/// reference to the `Merger`.
pub trait MergeDeleted<ID>: Allocator<ID> where ID: Id<Allocator = Self> + MergingDeletion {
    /// Whether `merger` was created by this allocator.
    spec fn paired_with(&self, merger: &ID::Merger) -> bool;

    /// Whether `id` is flagged for deletion, so that the next merge deletes
    /// it.
    spec fn pending(&self, id: &ID) -> bool;

    /// Deletes all IDs that were flagged for deletion by `Delete::delete`,
    /// and returns them: they were valid and flagged, and are neither any
    /// longer. An ID that was not flagged is valid if and only if it was.
    ///
    /// `merger` has to be the merger that was created by this allocator.
    fn merge_deleted(&mut self, merger: &mut ID::Merger) -> (freed: Vec<ID>)
        requires
            old(self).wf(),
            old(self).paired_with(old(merger)),
        ensures
            final(self).wf(),
            final(self).paired_with(final(merger)),
            final(self).valid_count() + freed@.len() == old(self).valid_count(),
            forall|i: int|
                0 <= i < freed@.len() ==> (#[trigger] freed@[i]).valid_in(old(self)) && old(
                    self,
                ).pending(&freed@[i]) && !freed@[i].valid_in(final(self)),
            forall|id: ID|
                #[trigger] id.valid_in(final(self)) <==> id.valid_in(old(self)) && !old(
                    self,
                ).pending(&id),
            forall|id: ID| !#[trigger] final(self).pending(&id),
    ;
}

/// A type to ensure IDs cannot be deleted while they are wrapped in
/// `CheckedId`.
///
/// This is almost always the right choice for `MergingDeletion::Merger`.
///
/// This type should be required mutably for performing the deletion of flagged
/// IDs. By borrowing it immutably in `CheckedId`, we ensure all checked IDs
/// must have been dropped before a call to `MergeDeleted::merge_deleted`.
///
/// The view of a merger is the token of its instance ID.
#[derive(Debug)]
pub struct Merger<A: ?Sized> {
    instance_id: InstanceId,
    _marker: PhantomData<A>,
}

impl<A: ?Sized> View for Merger<A> {
    type V = usize;

    closed spec fn view(&self) -> usize {
        self.instance_id@
    }
}

impl<A> Merger<A> {
    /// Creates a new, unique `Merger` marker value.
    pub fn new() -> Self {
        Merger { instance_id: InstanceId::new(), _marker: PhantomData }
    }

    /// Returns a reference to the inner `InstanceId`
    pub fn instance_id(&self) -> (instance_id: &InstanceId)
        ensures
            instance_id@ == self@,
    {
        &self.instance_id
    }
}

impl<A> Default for Merger<A> {
    fn default() -> Self {
        Merger::new()
    }
}

} // verus!
