//! Provides a generic ID interface.
//!
//! IDs are used as keys for component storages. They can be continuous or
//! sparse, while only the latter one allows to delete arbitrary ids after
//! creation.

pub mod checked;

pub use self::checked::CheckedId;

use crate::bit_set::BitSet;
use crate::error::InvalidIdError;
use std::borrow::Cow;
use std::fmt::Debug;
use std::hash::Hash;
use vstd::prelude::*;

verus! {

/// The key that `cow` holds, borrowed or owned.
pub open spec fn cow_value<K: Clone>(cow: Cow<'_, K>) -> K {
    match cow {
        Cow::Borrowed(key) => *key,
        Cow::Owned(key) => key,
    }
}

/// Takes the key out of `cow`.
pub fn cow_into_owned<K: Copy>(cow: Cow<'_, K>) -> (key: K)
    ensures
        key == cow_value(cow),
{
    match cow {
        Cow::Borrowed(key) => *key,
        Cow::Owned(key) => key,
    }
}

/// A trait that marks an ID as continuous. The following properties are
/// required to hold:
///
/// If `x` is a valid ID, `x - 1` is a valid ID unless `x == ZERO`.
/// `allocator.num_valid() - 1` is a valid ID unless `self.num_valid() == ZERO`.
///
/// # Memory safety
///
/// A storage may not rely on this property for memory safety reasons.
pub trait Continuous: Id<Key = usize> {

}

/// Top-level trait that all IDs must implement.
pub trait Id: Clone + Debug + Sized {
    /// The allocator which manages IDs of this type.
    type Allocator: ?Sized;

    /// The unique key of this ID.
    type Key: Copy + Debug + Hash + Eq + Sized;

    /// The key of this ID.
    spec fn key(&self) -> Self::Key;

    /// Whether this ID is valid in `allocator`.
    spec fn valid_in(&self, allocator: &Self::Allocator) -> bool;

    /// Returns the key if this ID is valid, or an `InvalidIdError` otherwise.
    fn try_as_key(&self, allocator: &Self::Allocator) -> (key: Result<
        Cow<'_, Self::Key>,
        InvalidIdError<Self>,
    >)
        ensures
            key is Ok <==> self.valid_in(allocator),
            key matches Ok(key) ==> cow_value(key) == self.key(),
            key matches Err(error) ==> error.0 == *self,
    ;

    /// Returns the inner key without checking whether or not the `Id` is valid.
    fn as_key_unchecked(&self) -> (key: Cow<'_, Self::Key>)
        ensures
            cow_value(key) == self.key(),
    ;
}

/// An ID that will only turn invalid when merged.
pub trait MergingDeletion: Id {
    /// The merger for this ID. You should make sure that the merger cannot be
    /// duplicated. It's usually a good idea to use
    /// `nitric_component::allocator::Merger` for this.
    type Merger;

    /// Checks if this ID is valid and returns a `CheckedId` which implements
    /// `ValidId`, or an error in case `self` is invalid.
    ///
    /// This is useful if
    ///
    /// * a function requires the `ValidId` trait and your ID may be invalid
    /// * you need to pass your ID to several functions
    fn checked<'merger>(self, allocator: &Self::Allocator, merger: &'merger Self::Merger) -> (checked:
        Result<CheckedId<'merger, Self>, InvalidIdError<Self>>)
        ensures
            checked is Ok <==> self.valid_in(allocator),
            checked matches Ok(checked) ==> checked.id_spec() == self && checked.key()
                == self.key(),
            checked matches Err(error) ==> error.0 == self,
    {
        match self.try_as_key(allocator) {
            Ok(key) => {
                let key = cow_into_owned(key);
                Ok(CheckedId::new_from_fields(self, key, merger))
            },
            Err(error) => Err(error),
        }
    }
}

/// An ID that can be used for sparse storages and behaves somewhat linear,
/// meaning it starts at zero and does not use higher numbers than necessary.
///
/// # Associated `Key`
///
/// `SparseLinear` requires a `usize` key which  is expected to be linear; if
/// this returns random / very big / very sparse numbers it will cause the
/// storage to grow a lot!
///
/// In short: it is expected to be produced by some sort of counter starting at
/// zero.
pub trait SparseLinear: Id<Key = usize> {
    /// This is the bit set type that can be used by the storage. A storage
    /// which maps this ID type stores a field of type `Self::BitSet`, which
    /// will be used to check if a component exists for a particular ID.
    type BitSet: BitSet;

    /// Convenience method for retrieving the `usize` key of this ID.
    /// **This does not guarantee validity and is equivalent to
    /// `as_key_unchecked`.**
    fn as_usize(&self) -> (key: usize)
        ensures
            key == self.key(),
    {
        cow_into_owned(self.as_key_unchecked())
    }
}

/// Represents an ID that is guaranteed to be valid.
///
/// If you have an ID that may be valid or not, consider using `.checked()` to
/// retrieve a `Checked` instance which implements `ValidId`.
///
/// # Generics
///
/// * `O`: the ID that is known to be valid; this might be `Self` if the ID is
///   always valid, or the wrapped ID (this is the case for `CheckedId`)
///
/// # Contract
///
/// An ID implementing this type must be valid in terms of `Allocator::is_valid`
/// for as long as it can be accessed.
pub trait ValidId<O: Id>: Id<Key = O::Key> {
    /// The ID that is known to be valid.
    spec fn inner(&self) -> O;

    /// Returns a reference to the ID that is known to be valid.
    fn as_inner(&self) -> (inner: &O)
        ensures
            *inner == self.inner(),
    ;

    /// Consumes `self` and returns the owned ID.
    fn into_inner(self) -> (inner: O)
        ensures
            inner == self.inner(),
    ;

    /// Returns the key of this ID.
    ///
    /// This operation cannot fail and is only available for IDs that have this
    /// property ensured at the type-level. For a dynamic version see
    /// `Id::try_as_key`.
    fn as_key(&self) -> (key: Cow<'_, Self::Key>)
        ensures
            cow_value(key) == self.key(),
    ;
}

/// An ID that wraps another ID. It mirrors all basic ID property the wrapped ID
/// has, through respective blanket implementations.
///
/// # References
///
/// This is used for
///
/// * `ValidId`
pub trait WrapperId: Id {
    /// The type of the wrapped ID.
    type Original: Id<Key = Self::Key>;

    /// The wrapped ID.
    spec fn original(&self) -> Self::Original;

    /// Returns an immutable reference to the inner ID.
    fn as_inner(&self) -> (inner: &Self::Original)
        ensures
            *inner == self.original(),
    ;

    /// Consumes this ID, returning the inner ID.
    fn into_inner(self) -> (inner: Self::Original)
        ensures
            inner == self.original(),
    ;
}

impl<T> Continuous for T where T: Id<Key = usize> + WrapperId, T::Original: Continuous {

}

impl<T> MergingDeletion for T where T: WrapperId, T::Original: Id<Key = T::Key> + MergingDeletion {
    type Merger = <T::Original as MergingDeletion>::Merger;
}

impl<T> SparseLinear for T where T: Id<Key = usize> + WrapperId, T::Original: SparseLinear {
    type BitSet = <T::Original as SparseLinear>::BitSet;

    fn as_usize(&self) -> (key: usize) {
        cow_into_owned(self.as_key_unchecked())
    }
}

} // verus!
