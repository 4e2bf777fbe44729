use crate::allocator::{Allocator, Merger};
use crate::error::InvalidIdError;
use crate::id::{Id, MergingDeletion, SparseLinear};
use crate::impls::{FlatAllocator, FlatBitSet};
use std::borrow::Cow;
use vstd::prelude::*;

verus! {

/// A `usize`-based ID using the `FlatAllocator` and a `FlatBitSet`. Its view
/// is the `usize`.
#[derive(Clone, Copy, Debug, Eq, Hash, Ord, PartialEq, PartialOrd, Structural)]
pub struct FlatUsize {
    inner: usize,
}

impl View for FlatUsize {
    type V = usize;

    closed spec fn view(&self) -> usize {
        self.inner
    }
}

impl FlatUsize {
    /// The ID with the view `inner`.
    pub(crate) fn new(inner: usize) -> (id: Self)
        ensures
            id@ == inner,
    {
        FlatUsize { inner }
    }

    /// Returns the inner `usize`.
    pub fn into_usize(self) -> (inner: usize)
        ensures
            inner == self@,
    {
        self.inner
    }

    /// The ID whose view is `inner`.
    pub closed spec fn of(inner: usize) -> FlatUsize {
        FlatUsize { inner }
    }

    /// An ID is the ID of its view, so that two IDs with one view are one ID.
    pub proof fn lemma_of(inner: usize, id: FlatUsize)
        ensures
            FlatUsize::of(inner)@ == inner,
            FlatUsize::of(id@) == id,
    {
    }

    /// Two IDs with one view are one ID.
    pub proof fn lemma_view_injective(self, other: FlatUsize)
        ensures
            self@ == other@ <==> self == other,
    {
    }
}

impl From<usize> for FlatUsize {
    fn from(inner: usize) -> (id: Self) {
        FlatUsize { inner }
    }
}

impl vstd::std_specs::convert::FromSpecImpl<usize> for FlatUsize {
    open spec fn obeys_from_spec() -> bool {
        true
    }

    open spec fn from_spec(inner: usize) -> Self {
        FlatUsize::of(inner)
    }
}

impl From<FlatUsize> for usize {
    fn from(id: FlatUsize) -> (inner: usize) {
        id.inner
    }
}

impl vstd::std_specs::convert::FromSpecImpl<FlatUsize> for usize {
    open spec fn obeys_from_spec() -> bool {
        true
    }

    open spec fn from_spec(id: FlatUsize) -> usize {
        id@
    }
}

impl Id for FlatUsize {
    type Allocator = FlatAllocator;

    type Key = usize;

    open spec fn key(&self) -> usize {
        self@
    }

    open spec fn valid_in(&self, allocator: &FlatAllocator) -> bool {
        allocator@.alive.contains(self@)
    }

    fn try_as_key(&self, allocator: &Self::Allocator) -> (key: Result<
        Cow<'_, Self::Key>,
        InvalidIdError<Self>,
    >) {
        match allocator.is_valid(self) {
            true => Ok(self.as_key_unchecked()),
            false => Err(InvalidIdError(*self)),
        }
    }

    fn as_key_unchecked(&self) -> (key: Cow<'_, Self::Key>) {
        Cow::Borrowed(&self.inner)
    }
}

impl MergingDeletion for FlatUsize {
    type Merger = Merger<Self::Allocator>;
}

impl SparseLinear for FlatUsize {
    type BitSet = FlatBitSet;
}

} // verus!
