use crate::bit_set::BitSet;
use vstd::prelude::*;

verus! {

/// The payload that `map` holds for `key`, if any.
pub open spec fn lookup<C>(map: Map<usize, C>, key: usize) -> Option<C> {
    if map.dom().contains(key) {
        Some(map[key])
    } else {
        None
    }
}

/// A sparse index over dense arrays: `data_indices` maps a key to the place
/// of its payload in `data`, and `ids` holds the key of each place. The keys
/// that have a payload are those in `mask`.
pub(crate) struct Dense<B, C> {
    pub(crate) data: Vec<C>,
    pub(crate) data_indices: Vec<usize>,
    pub(crate) ids: Vec<usize>,
    pub(crate) mask: B,
}

impl<B: BitSet, C> Dense<B, C> {
    /// The payloads by key.
    pub(crate) open spec fn map(&self) -> Map<usize, C> {
        Map::new(
            |key: usize| self.mask@.contains(key),
            |key: usize| self.data@[self.data_indices@[key as int] as int],
        )
    }

    /// The mask is well formed, each key of the mask has a place, each place
    /// has a key of the mask, and the two agree.
    pub(crate) open spec fn wf(&self) -> bool {
        &&& self.mask.wf()
        &&& self.data@.len() == self.ids@.len()
        &&& forall|key: usize| #[trigger]
            self.mask@.contains(key) ==> key < self.data_indices@.len()
                && self.data_indices@[key as int] < self.ids@.len()
                && self.ids@[self.data_indices@[key as int] as int] == key
        &&& forall|place: int|
            0 <= place < self.ids@.len() ==> self.mask@.contains(#[trigger] self.ids@[place])
                && self.data_indices@[self.ids@[place] as int] == place
    }

    /// The keys of the places hold no key twice, and are the keys of the
    /// mask.
    pub(crate) proof fn lemma_places(&self)
        requires
            self.wf(),
        ensures
            self.ids@.no_duplicates(),
            self.ids@.to_set() == self.mask@,
            self.mask@.len() == self.ids@.len(),
    {
        assert forall|i: int, j: int|
            0 <= i < self.ids@.len() && 0 <= j < self.ids@.len() && i != j implies self.ids@[i]
            != self.ids@[j] by {
            assert(self.data_indices@[self.ids@[i] as int] == i);
            assert(self.data_indices@[self.ids@[j] as int] == j);
        }
        assert forall|key: usize| self.mask@.contains(key) implies self.ids@.to_set().contains(
            key,
        ) by {
            assert(self.ids@[self.data_indices@[key as int] as int] == key);
        }
        assert(self.ids@.to_set() =~= self.mask@);
        self.ids@.unique_seq_to_set();
    }

    pub(crate) fn new(mask: B) -> (dense: Self)
        requires
            mask.wf(),
            mask@ == Set::<usize>::empty(),
        ensures
            dense.wf(),
            dense.map() == Map::<usize, C>::empty(),
            dense.ids@.len() == 0,
            dense.data_indices@.len() == 0,
    {
        let dense = Dense { data: Vec::new(), data_indices: Vec::new(), ids: Vec::new(), mask };
        assert(dense.map() =~= Map::<usize, C>::empty());
        dense
    }

    pub(crate) fn get(&self, id: usize) -> (component: Option<&C>)
        requires
            self.wf(),
        ensures
            match component {
                Some(component) => lookup(self.map(), id) == Some(*component),
                None => lookup(self.map(), id) == None::<C>,
            },
    {
        if self.mask.contains(id) {
            let data_index = self.data_indices[id];
            let data = &self.data[data_index];

            Some(data)
        } else {
            None
        }
    }

    pub(crate) fn get_mut(&mut self, id: usize) -> (component: Option<&mut C>)
        requires
            old(self).wf(),
        ensures
            final(self).wf(),
            final(self).ids@ == old(self).ids@,
            final(self).data_indices@ == old(self).data_indices@,
            final(self).mask@ == old(self).mask@,
            match component {
                Some(component) => {
                    &&& lookup(old(self).map(), id) == Some(*component)
                    &&& final(self).map() == old(self).map().insert(id, *final(component))
                },
                None => {
                    &&& lookup(old(self).map(), id) == None::<C>
                    &&& final(self).map() == old(self).map()
                },
            },
    {
        if self.mask.contains(id) {
            let data_index = self.data_indices[id];
            proof {
                assert forall|key: usize| #[trigger]
                    old(self).mask@.contains(key) && key != id implies old(
                    self,
                ).data_indices@[key as int] != data_index by {
                    assert(old(self).ids@[old(self).data_indices@[key as int] as int] == key);
                }
            }
            let data = &mut self.data[data_index];

            Some(data)
        } else {
            None
        }
    }

    pub(crate) fn insert(&mut self, id: usize, component: C) -> (previous: Option<C>)
        requires
            old(self).wf(),
            id < usize::MAX,
        ensures
            final(self).wf(),
            final(self).map() == old(self).map().insert(id, component),
            previous == lookup(old(self).map(), id),
            final(self).data_indices@.len() == if id < old(self).data_indices@.len() {
                old(self).data_indices@.len()
            } else {
                (id + 1) as nat
            },
            old(self).mask@.contains(id) ==> {
                &&& final(self).ids@ == old(self).ids@
                &&& final(self).data_indices@ == old(self).data_indices@
                &&& final(self).data@ == old(self).data@.update(
                    old(self).data_indices@[id as int] as int,
                    component,
                )
            },
            !old(self).mask@.contains(id) ==> {
                &&& final(self).ids@ == old(self).ids@.push(id)
                &&& final(self).data@ == old(self).data@.push(component)
                &&& final(self).data_indices@[id as int] == old(self).ids@.len()
                &&& forall|key: int|
                    0 <= key < old(self).data_indices@.len() && key != id
                        ==> final(self).data_indices@[key] == old(self).data_indices@[key]
                &&& forall|key: int|
                    old(self).data_indices@.len() <= key < id ==> final(self).data_indices@[key]
                        == 0
            },
    {
        if self.mask.add(id) {
            let mut component = component;
            let data_index = self.data_indices[id];
            proof {
                assert forall|key: usize| #[trigger]
                    old(self).mask@.contains(key) && key != id implies old(
                    self,
                ).data_indices@[key as int] != data_index by {
                    assert(old(self).ids@[old(self).data_indices@[key as int] as int] == key);
                }
                assert(self.mask@ =~= old(self).mask@);
            }
            std::mem::swap(&mut self.data[data_index], &mut component);
            proof {
                assert(self.map() =~= old(self).map().insert(id, self.data@[data_index as int]));
            }

            Some(component)
        } else {
            while self.data_indices.len() <= id
                invariant
                    id < usize::MAX,
                    self.data_indices@.len() >= old(self).data_indices@.len(),
                    self.data_indices@.len() <= id + 1 || self.data_indices@.len() == old(
                        self,
                    ).data_indices@.len(),
                    forall|i: int|
                        0 <= i < old(self).data_indices@.len() ==> self.data_indices@[i] == old(
                            self,
                        ).data_indices@[i],
                    forall|i: int|
                        old(self).data_indices@.len() <= i < self.data_indices@.len()
                            ==> self.data_indices@[i] == 0,
                    self.data@ == old(self).data@,
                    self.ids@ == old(self).ids@,
                    self.mask@ == old(self).mask@.insert(id),
                    self.mask.wf(),
                decreases id + 1 - self.data_indices@.len(),
            {
                self.data_indices.push(0);
            }

            let place = self.data.len();
            self.data_indices.set(id, place);
            self.ids.push(id);
            self.data.push(component);
            proof {
                assert forall|key: usize| #[trigger] self.mask@.contains(key) implies key
                    < self.data_indices@.len() && self.data_indices@[key as int]
                    < self.ids@.len() && self.ids@[self.data_indices@[key as int] as int]
                    == key by {
                    if key != id {
                        assert(old(self).mask@.contains(key));
                        assert(old(self).ids@[old(self).data_indices@[key as int] as int] == key);
                    }
                }
                assert forall|place: int| 0 <= place < self.ids@.len() implies self.mask@.contains(
                    #[trigger] self.ids@[place],
                ) && self.data_indices@[self.ids@[place] as int] == place by {
                    if place < old(self).ids@.len() {
                        assert(old(self).mask@.contains(old(self).ids@[place]));
                    }
                }
                assert(self.map() =~= old(self).map().insert(id, component));
            }

            None
        }
    }

    pub(crate) fn remove(&mut self, id: usize) -> (removed: Option<C>)
        requires
            old(self).wf(),
        ensures
            final(self).wf(),
            final(self).map() == old(self).map().remove(id),
            removed == lookup(old(self).map(), id),
            final(self).data_indices@.len() == old(self).data_indices@.len(),
            old(self).mask@.contains(id) ==> {
                let place = old(self).data_indices@[id as int] as int;
                &&& final(self).ids@ == old(self).ids@.update(place, old(self).ids@.last()).drop_last()
                &&& final(self).data@ == old(self).data@.update(
                    place,
                    old(self).data@.last(),
                ).drop_last()
                &&& final(self).data_indices@ == old(self).data_indices@.update(
                    old(self).ids@.last() as int,
                    place as usize,
                )
            },
            !old(self).mask@.contains(id) ==> {
                &&& final(self).ids@ == old(self).ids@
                &&& final(self).data@ == old(self).data@
                &&& final(self).data_indices@ == old(self).data_indices@
            },
    {
        if self.mask.remove(id) {
            let data_index = self.data_indices[id];
            // Grab the usize representation of the ID at the end
            let last_id = self.ids[self.ids.len() - 1];
            proof {
                assert(old(self).mask@.contains(old(self).ids@[old(self).ids@.len() - 1]));
            }

            // the data for `last_id` will be found under `data_index` now, since we swap
            // the last one with `data_index`.
            self.data_indices.set(last_id, data_index);
            let removed_id = self.ids.swap_remove(data_index);
            let removed = self.data.swap_remove(data_index);
            proof {
                let last = old(self).ids@.len() - 1;
                assert(removed_id == id);
                assert forall|key: usize| #[trigger] self.mask@.contains(key) implies key
                    < self.data_indices@.len() && self.data_indices@[key as int]
                    < self.ids@.len() && self.ids@[self.data_indices@[key as int] as int] == key
                    && self.data@[self.data_indices@[key as int] as int] == old(self).data@[old(
                    self,
                ).data_indices@[key as int] as int] by {
                    assert(old(self).mask@.contains(key));
                    let place = old(self).data_indices@[key as int] as int;
                    assert(old(self).ids@[place] == key);
                    assert(old(self).ids@[last] == last_id);
                    assert(old(self).ids@[data_index as int] == id);
                }
                assert forall|place: int| 0 <= place < self.ids@.len() implies self.mask@.contains(
                    #[trigger] self.ids@[place],
                ) && self.data_indices@[self.ids@[place] as int] == place by {
                    assert(old(self).mask@.contains(old(self).ids@[place]));
                    assert(old(self).data_indices@[old(self).ids@[place] as int] == place);
                    assert(old(self).data_indices@[old(self).ids@[last] as int] == last);
                    assert(old(self).data_indices@[id as int] == data_index);
                }
                assert(self.map() =~= old(self).map().remove(id));
            }

            Some(removed)
        } else {
            proof {
                assert(self.mask@ =~= old(self).mask@);
                assert(self.map() =~= old(self).map());
                assert(self.map() =~= old(self).map().remove(id));
            }
            None
        }
    }
}

} // verus!
