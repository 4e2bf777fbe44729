use crate::bit_set::BitSet;
use crate::id::SparseLinear;
use vstd::prelude::*;

verus! {

/// A component storage implementation, providing a mapping from IDs to
/// components using two `Vec`s.
///
/// (short: "Double Vec Storage")
///
/// The first `Vec` is a sparse vector which maps an ID to a data index.
/// The second `Vec` is a dense vector which maps a data index to a component.
///
/// The view of a storage is the map from the keys that have a component to
/// their components.
///
/// ## Generics
///
/// * `ID`: The ID, which is used as key.
/// * `C`: The component, which is the value.
pub struct DvStorage<ID, C> where ID: SparseLinear {
    data: Vec<C>,
    indices: Vec<usize>,
    mask: ID::BitSet,
}

impl<ID, C> View for DvStorage<ID, C> where ID: SparseLinear {
    type V = Map<usize, C>;

    closed spec fn view(&self) -> Map<usize, C> {
        Map::new(
            |key: usize| self.mask@.contains(key),
            |key: usize| self.data@[self.indices@[key as int] as int],
        )
    }
}

impl<ID, C> DvStorage<ID, C> where ID: SparseLinear {
    /// Creates a new, empty component storage.
    pub fn new() -> (storage: Self)
        ensures
            storage@ == Map::<usize, C>::empty(),
    {
        let storage = DvStorage {
            data: Vec::new(),
            indices: Vec::new(),
            mask: ID::BitSet::empty_bit_set(),
        };
        assert(storage@ =~= Map::<usize, C>::empty());
        storage
    }
}

impl<ID, C> Default for DvStorage<ID, C> where ID: SparseLinear {
    fn default() -> (storage: Self)
        ensures
            storage@ == Map::<usize, C>::empty(),
    {
        DvStorage::new()
    }
}

} // verus!
