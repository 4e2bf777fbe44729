use crate::bit_set::BitSet;
use crate::id::{SparseLinear, ValidId};
use crate::impls::dense::{lookup, Dense};
use vstd::prelude::*;

verus! {

/// A component storage implementation, providing a mapping from IDs to
/// components using three `Vec`s.
///
/// (short: "Triple Vec Storage")
///
/// The first `Vec` is a sparse vector which maps an ID to a data index.
/// The second `Vec` is a dense vector which maps a data index to a component,
/// the third a dense vector which maps a data index to the key of its ID.
/// The keys that have a component are held in the bit set of the ID type.
///
/// The view of a storage is the map from the keys that have a component to
/// their components.
///
/// ## Generics
///
/// * `ID`: The ID, which is used as key.
/// * `C`: The component, which is the value.
pub struct TvStorage<ID, C> where ID: SparseLinear {
    inner: Dense<ID::BitSet, C>,
}

impl<ID, C> View for TvStorage<ID, C> where ID: SparseLinear {
    type V = Map<usize, C>;

    closed spec fn view(&self) -> Map<usize, C> {
        self.inner.map()
    }
}

impl<ID, C> TvStorage<ID, C> where ID: SparseLinear {
    /// The representation invariant: the sparse and the dense vectors agree.
    pub closed spec fn wf(&self) -> bool {
        self.inner.wf()
    }

    /// The keys that have a component.
    pub closed spec fn mask(&self) -> Set<usize> {
        self.inner.mask@
    }

    /// The dense vector of components.
    pub closed spec fn data(&self) -> Seq<C> {
        self.inner.data@
    }

    /// The sparse vector, which maps a key to a data index.
    pub closed spec fn data_indices(&self) -> Seq<usize> {
        self.inner.data_indices@
    }

    /// The dense vector of keys, parallel to `data`.
    pub closed spec fn ids(&self) -> Seq<usize> {
        self.inner.ids@
    }

    /// In a well-formed storage the vectors are consistent: the keys of the
    /// view are those of the mask, each of them has a data index, under which
    /// the dense vectors hold the key and its component, and the dense
    /// vectors hold nothing else.
    pub proof fn lemma_dense_consistent(&self)
        requires
            self.wf(),
        ensures
            self@.dom() == self.mask(),
            self.ids().len() == self.data().len(),
            self.ids().len() == self.mask().len(),
            self.ids().no_duplicates(),
            self.ids().to_set() == self.mask(),
            forall|key: usize| #[trigger]
                self.mask().contains(key) ==> {
                    &&& key < self.data_indices().len()
                    &&& self.data_indices()[key as int] < self.ids().len()
                    &&& self.ids()[self.data_indices()[key as int] as int] == key
                    &&& self.data()[self.data_indices()[key as int] as int] == self@[key]
                },
    {
        self.inner.lemma_places();
        assert(self@.dom() =~= self.mask());
    }

    /// Creates a new, empty component storage.
    pub fn new() -> (storage: Self)
        ensures
            storage.wf(),
            storage@ == Map::<usize, C>::empty(),
            storage.data_indices().len() == 0,
    {
        TvStorage { inner: Dense::new(ID::BitSet::empty_bit_set()) }
    }

    /// Retrieves the component associated with `id`.
    #[inline]
    pub fn get<V>(&self, id: &V) -> (component: Option<&C>) where V: SparseLinear + ValidId<ID>
        requires
            self.wf(),
        ensures
            match component {
                Some(component) => lookup(self@, id.key()) == Some(*component),
                None => lookup(self@, id.key()) == None::<C>,
            },
    {
        let id: usize = id.as_usize();
        self.inner.get(id)
    }

    /// Retrieves the component associated with `id`, to be changed in place.
    #[inline]
    pub fn get_mut<V>(&mut self, id: &V) -> (component: Option<&mut C>) where
        V: SparseLinear + ValidId<ID>,

        requires
            old(self).wf(),
        ensures
            final(self).wf(),
            match component {
                Some(component) => {
                    &&& lookup(old(self)@, id.key()) == Some(*component)
                    &&& final(self)@ == old(self)@.insert(id.key(), *final(component))
                },
                None => {
                    &&& lookup(old(self)@, id.key()) == None::<C>
                    &&& final(self)@ == old(self)@
                },
            },
            final(self).data_indices() == old(self).data_indices(),
            final(self).ids() == old(self).ids(),
            final(self).mask() == old(self).mask(),
    {
        let id: usize = id.as_usize();
        self.inner.get_mut(id)
    }

    /// Inserts `component` and associates it with `id`.
    ///
    /// Returns the previous component that was associated with `id` if there
    /// was any.
    ///
    /// The key of `id` has to be below `usize::MAX`, for the sparse vector to
    /// have a place for it.
    #[inline]
    pub fn insert<V>(&mut self, id_orig: V, component: C) -> (previous: Option<C>) where
        V: SparseLinear + ValidId<ID>,

        requires
            old(self).wf(),
            id_orig.key() < usize::MAX,
        ensures
            final(self).wf(),
            final(self)@ == old(self)@.insert(id_orig.key(), component),
            previous == lookup(old(self)@, id_orig.key()),
            final(self).data_indices().len() == if id_orig.key() < old(self).data_indices().len() {
                old(self).data_indices().len()
            } else {
                (id_orig.key() + 1) as nat
            },
            old(self).mask().contains(id_orig.key()) ==> {
                &&& final(self).ids() == old(self).ids()
                &&& final(self).data_indices() == old(self).data_indices()
                &&& final(self).data() == old(self).data().update(
                    old(self).data_indices()[id_orig.key() as int] as int,
                    component,
                )
            },
            !old(self).mask().contains(id_orig.key()) ==> {
                &&& final(self).ids() == old(self).ids().push(id_orig.key())
                &&& final(self).data() == old(self).data().push(component)
                &&& final(self).data_indices()[id_orig.key() as int] == old(self).ids().len()
                &&& forall|key: int|
                    0 <= key < old(self).data_indices().len() && key != id_orig.key()
                        ==> final(self).data_indices()[key] == old(self).data_indices()[key]
                &&& forall|key: int|
                    old(self).data_indices().len() <= key < id_orig.key()
                        ==> final(self).data_indices()[key] == 0
            },
    {
        let id: usize = id_orig.as_usize();
        self.inner.insert(id, component)
    }

    /// Removes the `component` associated with `id`.
    ///
    /// Returns the previous component that was associated with `id` if there
    /// was any.
    #[inline]
    pub fn remove<V>(&mut self, id: &V) -> (removed: Option<C>) where V: SparseLinear + ValidId<ID>
        requires
            old(self).wf(),
        ensures
            final(self).wf(),
            final(self)@ == old(self)@.remove(id.key()),
            removed == lookup(old(self)@, id.key()),
            final(self).data_indices().len() == old(self).data_indices().len(),
            old(self).mask().contains(id.key()) ==> {
                let place = old(self).data_indices()[id.key() as int] as int;
                &&& final(self).ids() == old(self).ids().update(place, old(self).ids().last()).drop_last()
                &&& final(self).data() == old(self).data().update(
                    place,
                    old(self).data().last(),
                ).drop_last()
                &&& final(self).data_indices() == old(self).data_indices().update(
                    old(self).ids().last() as int,
                    place as usize,
                )
            },
            !old(self).mask().contains(id.key()) ==> {
                &&& final(self).ids() == old(self).ids()
                &&& final(self).data() == old(self).data()
                &&& final(self).data_indices() == old(self).data_indices()
            },
    {
        let id: usize = id.as_usize();
        self.inner.remove(id)
    }
}

impl<ID, C> Default for TvStorage<ID, C> where ID: SparseLinear {
    fn default() -> (storage: Self)
        ensures
            storage.wf(),
            storage@ == Map::<usize, C>::empty(),
    {
        TvStorage::new()
    }
}

} // verus!
