//! Utility types: identity tokens that tie two objects to a common third
//! one, such as a merger to its allocator.

use std::sync::Arc;
use vstd::prelude::*;

verus! {

/// `std::sync::Arc::as_ptr`, as an integer: the address of the allocation
/// that `cell` shares. Nothing is claimed of the number. While an `Arc` of an
/// allocation is held, no other allocation has its address.
#[verifier::external_body]
fn allocation_address(cell: &Arc<u8>) -> usize {
    Arc::as_ptr(cell) as usize
}

/// A unique ID that can be used to assert two objects refer to another common
/// object.
///
/// Example:
///
/// We have an allocator type which allocates `Foo`s. Some operations could
/// cause bugs if two `Foo`s from different allocators are used; `InstanceId`
/// can assert that both are from the same allocator by comparing their
/// `InstanceId`.
///
/// The token is the address of an allocation that the ID and its references
/// keep alive, so that no ID made later can have it. The view of an ID is
/// this token.
#[derive(Debug)]
pub struct InstanceId {
    inner: Arc<u8>,
    token: usize,
}

impl View for InstanceId {
    type V = usize;

    closed spec fn view(&self) -> usize {
        self.token
    }
}

impl InstanceId {
    /// Creates a new, unique instance id.
    pub fn new() -> Self {
        let inner = Arc::new(0u8);
        let token = allocation_address(&inner);
        InstanceId { inner, token }
    }

    /// Returns the unique `usize` representation which is used for all the
    /// assertions.
    #[inline]
    pub fn as_usize(&self) -> (token: usize)
        ensures
            token == self@,
    {
        self.token
    }

    /// States that `self` and `reference` are equal: a caller has to show it.
    #[inline]
    pub fn assert_eq(&self, reference: &Reference)
        requires
            self@ == reference@,
    {
    }

    /// States that `self` and `reference` are equal: a caller has to show it.
    #[inline]
    pub fn debug_assert_eq(&self, reference: &Reference)
        requires
            self@ == reference@,
    {
    }

    /// Creates a "reference" of this instance id. This is essentially like
    /// cloning, but `InstanceId`s don't implement `Clone` on purpose since
    /// values carrying it should never be cloned.
    #[inline]
    pub fn reference(&self) -> (reference: Reference)
        ensures
            reference@ == self@,
    {
        Reference { instance_id: InstanceId { inner: self.inner.clone(), token: self.token } }
    }
}

impl Default for InstanceId {
    fn default() -> Self {
        InstanceId::new()
    }
}

impl PartialEq<Reference> for InstanceId {
    #[inline]
    fn eq(&self, reference: &Reference) -> (equal: bool) {
        self.as_usize() == reference.as_usize()
    }
}

impl vstd::std_specs::cmp::PartialEqSpecImpl<Reference> for InstanceId {
    open spec fn obeys_eq_spec() -> bool {
        true
    }

    open spec fn eq_spec(&self, reference: &Reference) -> bool {
        self@ == reference@
    }
}

/// A reference to an `InstanceId`. Its view is the token of that ID.
#[derive(Debug)]
pub struct Reference {
    instance_id: InstanceId,
}

impl View for Reference {
    type V = usize;

    closed spec fn view(&self) -> usize {
        self.instance_id@
    }
}

impl Reference {
    /// States that `self` and `reference` are equal: a caller has to show it.
    #[inline]
    pub fn assert_eq(&self, reference: &Reference)
        requires
            self@ == reference@,
    {
    }

    /// States that `self` and `reference` are equal: a caller has to show it.
    #[inline]
    pub fn debug_assert_eq(&self, reference: &Reference)
        requires
            self@ == reference@,
    {
    }

    /// Returns the `usize` representation of the referenced instance id which
    /// is used for all the assertions.
    #[inline]
    pub fn as_usize(&self) -> (token: usize)
        ensures
            token == self@,
    {
        self.instance_id.as_usize()
    }
}

impl Default for Reference {
    fn default() -> Self {
        Reference { instance_id: InstanceId::new() }
    }
}

impl PartialEq for Reference {
    fn eq(&self, other: &Reference) -> (equal: bool) {
        self.as_usize() == other.as_usize()
    }
}

impl Eq for Reference {

}

impl vstd::std_specs::cmp::PartialEqSpecImpl for Reference {
    open spec fn obeys_eq_spec() -> bool {
        true
    }

    open spec fn eq_spec(&self, other: &Reference) -> bool {
        self@ == other@
    }
}

/// An `InstanceId` for checks that a debug build makes. Its view is the
/// token of the inner ID.
#[derive(Debug)]
pub struct DebugInstanceId {
    inner: InstanceId,
}

impl View for DebugInstanceId {
    type V = usize;

    closed spec fn view(&self) -> usize {
        self.inner@
    }
}

impl DebugInstanceId {
    /// Creates a new, unique instance id.
    pub fn new() -> Self {
        DebugInstanceId { inner: InstanceId::new() }
    }

    /// States that instance id and reference are equal: a caller has to show
    /// it.
    #[inline]
    pub fn debug_assert_eq(&self, reference: &DebugReference)
        requires
            self@ == reference@,
    {
    }

    /// Creates a "reference" of this instance id. This is essentially like
    /// cloning, but `InstanceId`s don't implement `Clone` on purpose since
    /// values carrying it should never be cloned.
    #[inline]
    pub fn reference(&self) -> (reference: DebugReference)
        ensures
            reference@ == self@,
    {
        DebugReference { reference: self.inner.reference() }
    }

    /// Returns the inner instance id.
    pub fn inner(&self) -> (inner: &InstanceId)
        ensures
            inner@ == self@,
    {
        &self.inner
    }
}

impl Default for DebugInstanceId {
    fn default() -> Self {
        DebugInstanceId::new()
    }
}

/// A reference to a `DebugInstanceId`. Its view is the token of that ID.
#[derive(Debug)]
pub struct DebugReference {
    reference: Reference,
}

impl View for DebugReference {
    type V = usize;

    closed spec fn view(&self) -> usize {
        self.reference@
    }
}

impl DebugReference {
    /// States that both references are equal: a caller has to show it.
    #[inline]
    pub fn debug_assert_eq(&self, reference: &DebugReference)
        requires
            self@ == reference@,
    {
    }

    /// Returns the inner reference.
    pub fn inner(&self) -> (inner: &Reference)
        ensures
            inner@ == self@,
    {
        &self.reference
    }
}

impl Default for DebugReference {
    fn default() -> Self {
        DebugReference { reference: Reference::default() }
    }
}

} // verus!
