use vstd::prelude::*;

verus! {

/// What an allocator of `usize` keys holds: the keys that are valid, the next
/// key that was never issued, the recycled keys in the order in which they
/// are handed out again (last first), and the keys flagged for deletion.
pub struct AllocatorState {
    pub alive: Set<usize>,
    pub counter: usize,
    pub killed: Seq<usize>,
    pub flagged: Set<usize>,
}

/// `keys` lists the members of `set` in ascending order, each once.
pub open spec fn is_ascending_listing(keys: Seq<usize>, set: Set<usize>) -> bool {
    &&& forall|i: int, j: int| 0 <= i < j < keys.len() ==> keys[i] < keys[j]
    &&& forall|key: usize| set.contains(key) <==> keys.contains(key)
}

impl AllocatorState {
    /// The state of a fresh allocator whose first key is `counter`.
    pub open spec fn fresh(counter: usize) -> AllocatorState {
        AllocatorState {
            alive: Set::empty(),
            counter,
            killed: Seq::empty(),
            flagged: Set::empty(),
        }
    }

    /// Valid keys were issued, recycled keys were issued and are not valid,
    /// no key is recycled twice, and only valid keys are flagged.
    pub open spec fn wf(self) -> bool {
        &&& self.alive.finite()
        &&& forall|key: usize| self.alive.contains(key) ==> key < self.counter
        &&& forall|i: int|
            0 <= i < self.killed.len() ==> #[trigger] self.killed[i] < self.counter
                && !self.alive.contains(self.killed[i])
        &&& self.killed.no_duplicates()
        &&& forall|key: usize| self.flagged.contains(key) ==> self.alive.contains(key)
    }

    /// No key can be issued: none is recycled and the counter is at its end.
    pub open spec fn exhausted(self) -> bool {
        self.killed.len() == 0 && self.counter == usize::MAX
    }

    /// The key that `create` issues next, unless the state is exhausted: the
    /// key recycled last, or else the counter.
    pub open spec fn next_key(self) -> usize {
        if self.killed.len() > 0 {
            self.killed.last()
        } else {
            self.counter
        }
    }

    /// The state after `create` issued `next_key`.
    pub open spec fn create(self) -> AllocatorState {
        if self.killed.len() > 0 {
            AllocatorState {
                alive: self.alive.insert(self.killed.last()),
                killed: self.killed.drop_last(),
                ..self
            }
        } else {
            AllocatorState {
                alive: self.alive.insert(self.counter),
                counter: (self.counter + 1) as usize,
                ..self
            }
        }
    }

    /// The state after `key` was flagged for deletion.
    pub open spec fn delete(self, key: usize) -> AllocatorState {
        AllocatorState { flagged: self.flagged.insert(key), ..self }
    }

    /// The state after `key` was flagged for deletion if it is valid, and
    /// left alone if it is not.
    pub open spec fn try_delete(self, key: usize) -> AllocatorState {
        if self.alive.contains(key) {
            self.delete(key)
        } else {
            self
        }
    }

    /// The state after each key of `keys` that is valid was flagged for
    /// deletion in turn.
    pub open spec fn try_delete_all(self, keys: Seq<usize>) -> AllocatorState
        decreases keys.len(),
    {
        if keys.len() == 0 {
            self
        } else {
            self.try_delete_all(keys.drop_last()).try_delete(keys.last())
        }
    }

    /// The state after each key of `keys` was flagged for deletion in turn.
    pub open spec fn delete_all(self, keys: Seq<usize>) -> AllocatorState
        decreases keys.len(),
    {
        if keys.len() == 0 {
            self
        } else {
            self.delete_all(keys.drop_last()).delete(keys.last())
        }
    }

    /// The state after a merge that freed `freed`, the flagged keys: they
    /// are no longer valid nor flagged, and are recycled in this order.
    pub open spec fn merge(self, freed: Seq<usize>) -> AllocatorState {
        AllocatorState {
            alive: self.alive.difference(self.flagged),
            killed: self.killed + freed,
            flagged: Set::empty(),
            ..self
        }
    }

    /// A merge keeps the state well formed, and takes as many keys from the
    /// valid ones as it frees.
    pub proof fn lemma_merge(self, freed: Seq<usize>)
        requires
            self.wf(),
            is_ascending_listing(freed, self.flagged),
        ensures
            self.merge(freed).wf(),
            self.merge(freed).alive.len() + freed.len() == self.alive.len(),
    {
        lemma_listing(freed, self.flagged);
        vstd::set_lib::lemma_set_difference_len(self.alive, self.flagged);
        assert(self.alive.intersect(self.flagged) =~= self.flagged);
        let merged = self.merge(freed);
        assert forall|i: int| 0 <= i < merged.killed.len() implies #[trigger] merged.killed[i]
            < merged.counter && !merged.alive.contains(merged.killed[i]) by {
            if i >= self.killed.len() {
                assert(freed.contains(freed[i - self.killed.len()]));
            }
        }
        assert forall|i: int, j: int|
            0 <= i < merged.killed.len() && 0 <= j < merged.killed.len() && i
                != j implies merged.killed[i] != merged.killed[j] by {
            if i >= self.killed.len() {
                assert(freed.contains(freed[i - self.killed.len()]));
            }
            if j >= self.killed.len() {
                assert(freed.contains(freed[j - self.killed.len()]));
            }
        }
    }
}

/// A set with an ascending listing is finite and has as many members as the
/// listing, which holds none twice.
pub proof fn lemma_listing(keys: Seq<usize>, set: Set<usize>)
    requires
        is_ascending_listing(keys, set),
    ensures
        keys.no_duplicates(),
        set == keys.to_set(),
        set.finite(),
        set.len() == keys.len(),
{
    assert(set =~= keys.to_set());
    vstd::seq_lib::seq_to_set_is_finite(keys);
    keys.unique_seq_to_set();
}

/// A finite set of keys below `bound` has at most `bound` members.
pub proof fn lemma_keys_below(keys: Set<usize>, bound: nat)
    requires
        keys.finite(),
        forall|key: usize| keys.contains(key) ==> key < bound,
    ensures
        keys.len() <= bound,
    decreases bound,
{
    if bound == 0 {
        assert(keys =~= Set::<usize>::empty());
    } else {
        let rest = if bound - 1 <= usize::MAX {
            keys.remove((bound - 1) as usize)
        } else {
            keys
        };
        lemma_keys_below(rest, (bound - 1) as nat);
    }
}

/// One operation on an allocator.
pub enum Operation {
    /// `create`: issues a key, unless the allocator is exhausted.
    Create,
    /// `delete` of a valid key: flags it.
    Delete { key: usize },
    /// `merge_deleted`, which frees the flagged keys `freed`.
    Merge { freed: Seq<usize> },
}

impl AllocatorState {
    /// Whether `operation` can be made in this state: a key that is deleted
    /// is valid, and a merge frees the flagged keys in ascending order.
    pub open spec fn admits(self, operation: Operation) -> bool {
        match operation {
            Operation::Create => true,
            Operation::Delete { key } => self.alive.contains(key),
            Operation::Merge { freed } => is_ascending_listing(freed, self.flagged),
        }
    }

    /// The state after `operation`.
    pub open spec fn apply(self, operation: Operation) -> AllocatorState {
        match operation {
            Operation::Create => if self.exhausted() {
                self
            } else {
                self.create()
            },
            Operation::Delete { key } => self.delete(key),
            Operation::Merge { freed } => self.merge(freed),
        }
    }

    /// Whether the operations can be made in turn, starting in this state.
    pub open spec fn admits_all(self, operations: Seq<Operation>) -> bool
        decreases operations.len(),
    {
        if operations.len() == 0 {
            true
        } else {
            self.admits_all(operations.drop_last()) && self.apply_all(
                operations.drop_last(),
            ).admits(operations.last())
        }
    }

    /// The state after the operations were made in turn.
    pub open spec fn apply_all(self, operations: Seq<Operation>) -> AllocatorState
        decreases operations.len(),
    {
        if operations.len() == 0 {
            self
        } else {
            self.apply_all(operations.drop_last()).apply(operations.last())
        }
    }

    /// Every operation keeps the state well formed.
    pub proof fn lemma_apply_wf(self, operation: Operation)
        requires
            self.wf(),
            self.admits(operation),
        ensures
            self.apply(operation).wf(),
    {
        match operation {
            Operation::Create => {
                if !self.exhausted() && self.killed.len() > 0 {
                    let last = self.killed.len() - 1;
                    assert(self.killed[last] < self.counter);
                    assert forall|i: int| 0 <= i < last implies self.killed.drop_last()[i]
                        != self.killed[last] by {
                        assert(self.killed.drop_last()[i] == self.killed[i]);
                    }
                }
            },
            Operation::Delete { key } => {},
            Operation::Merge { freed } => {
                self.lemma_merge(freed);
            },
        }
    }

    /// Every sequence of operations keeps the state well formed.
    pub proof fn lemma_apply_all_wf(self, operations: Seq<Operation>)
        requires
            self.wf(),
            self.admits_all(operations),
        ensures
            self.apply_all(operations).wf(),
        decreases operations.len(),
    {
        if operations.len() > 0 {
            self.lemma_apply_all_wf(operations.drop_last());
            self.apply_all(operations.drop_last()).lemma_apply_wf(operations.last());
        }
    }

    /// Liveness, step by step: a key is valid after an operation if and only
    /// if it was valid before and the operation was no merge while the key
    /// was flagged, or the operation was the `create` that issued it. The
    /// key that a `create` issues was not valid before.
    pub proof fn lemma_liveness_step(self, operation: Operation, key: usize)
        requires
            self.wf(),
            self.admits(operation),
        ensures
            self.apply(operation).alive.contains(key) <==> match operation {
                Operation::Create => self.alive.contains(key) || (!self.exhausted() && key
                    == self.next_key()),
                Operation::Delete { key: _ } => self.alive.contains(key),
                Operation::Merge { freed: _ } => self.alive.contains(key)
                    && !self.flagged.contains(key),
            },
            operation is Create && !self.exhausted() ==> !self.alive.contains(self.next_key()),
            operation matches Operation::Merge { freed } ==> (freed.contains(key)
                <==> self.flagged.contains(key)),
    {
        if self.killed.len() > 0 {
            assert(!self.alive.contains(self.killed[self.killed.len() - 1]));
        }
    }

    /// Liveness: a key that is valid stays valid as long as there is no
    /// merge, however often it is deleted.
    pub proof fn lemma_valid_until_merge(self, operations: Seq<Operation>, key: usize)
        requires
            self.wf(),
            self.admits_all(operations),
            self.alive.contains(key),
            forall|i: int| 0 <= i < operations.len() ==> !(#[trigger] operations[i] is Merge),
        ensures
            self.apply_all(operations).alive.contains(key),
        decreases operations.len(),
    {
        if operations.len() > 0 {
            let before = operations.drop_last();
            assert forall|i: int| 0 <= i < before.len() implies !(#[trigger] before[i] is Merge) by {
                assert(before[i] == operations[i]);
            }
            self.lemma_valid_until_merge(before, key);
            self.lemma_apply_all_wf(before);
            self.apply_all(before).lemma_liveness_step(operations.last(), key);
            assert(!(operations[operations.len() - 1] is Merge));
        }
    }

    /// Liveness: a key that is valid and not flagged stays valid, whatever
    /// is merged, as long as it is not deleted.
    pub proof fn lemma_valid_until_deleted(self, operations: Seq<Operation>, key: usize)
        requires
            self.wf(),
            self.admits_all(operations),
            self.alive.contains(key),
            !self.flagged.contains(key),
            forall|i: int|
                0 <= i < operations.len() ==> #[trigger] operations[i] != (Operation::Delete {
                    key,
                }),
        ensures
            self.apply_all(operations).alive.contains(key),
            !self.apply_all(operations).flagged.contains(key),
        decreases operations.len(),
    {
        if operations.len() > 0 {
            let before = operations.drop_last();
            assert forall|i: int| 0 <= i < before.len() implies #[trigger] before[i] != (
            Operation::Delete { key }) by {
                assert(before[i] == operations[i]);
            }
            self.lemma_valid_until_deleted(before, key);
            self.lemma_apply_all_wf(before);
            self.apply_all(before).lemma_liveness_step(operations.last(), key);
            assert(operations[operations.len() - 1] != (Operation::Delete { key }));
        }
    }

    /// Liveness: a key that is not valid stays so as long as nothing is
    /// created.
    pub proof fn lemma_invalid_until_created(self, operations: Seq<Operation>, key: usize)
        requires
            self.wf(),
            self.admits_all(operations),
            !self.alive.contains(key),
            forall|i: int| 0 <= i < operations.len() ==> !(#[trigger] operations[i] is Create),
        ensures
            !self.apply_all(operations).alive.contains(key),
        decreases operations.len(),
    {
        if operations.len() > 0 {
            let before = operations.drop_last();
            assert forall|i: int| 0 <= i < before.len() implies !(#[trigger] before[i] is Create) by {
                assert(before[i] == operations[i]);
            }
            self.lemma_invalid_until_created(before, key);
            self.lemma_apply_all_wf(before);
            self.apply_all(before).lemma_liveness_step(operations.last(), key);
            assert(!(operations[operations.len() - 1] is Create));
        }
    }

    /// A key that was deleted and then merged is valid no longer, and is
    /// the key that the next `create` issues if it was freed last.
    pub proof fn lemma_invalid_after_merge(self, key: usize, freed: Seq<usize>)
        requires
            self.wf(),
            self.alive.contains(key),
            is_ascending_listing(freed, self.delete(key).flagged),
        ensures
            !self.delete(key).merge(freed).alive.contains(key),
            freed.contains(key),
    {
    }

    /// Deleting a key twice leaves what deleting it once leaves.
    pub proof fn lemma_delete_idempotent(self, key: usize)
        ensures
            self.delete(key).delete(key) == self.delete(key),
    {
        assert(self.flagged.insert(key).insert(key) =~= self.flagged.insert(key));
    }

    /// Deleting keys flags them, and changes nothing else.
    pub proof fn lemma_delete_all(self, keys: Seq<usize>)
        ensures
            self.delete_all(keys) == (AllocatorState {
                flagged: self.flagged.union(keys.to_set()),
                ..self
            }),
        decreases keys.len(),
    {
        if keys.len() == 0 {
            assert(self.flagged.union(keys.to_set()) =~= self.flagged);
        } else {
            self.lemma_delete_all(keys.drop_last());
            assert(keys.to_set() =~= keys.drop_last().to_set().insert(keys.last())) by {
                assert forall|key: usize| keys.to_set().contains(key) implies keys.drop_last().to_set().insert(
                    keys.last(),
                ).contains(key) by {
                    let i = choose|i: int| 0 <= i < keys.len() && keys[i] == key;
                    if i < keys.len() - 1 {
                        assert(keys.drop_last()[i] == key);
                    }
                }
                assert forall|key: usize|
                    keys.drop_last().to_set().insert(keys.last()).contains(
                        key,
                    ) implies keys.to_set().contains(key) by {
                    if key == keys.last() {
                        assert(keys[keys.len() - 1] == key);
                    } else {
                        let i = choose|i: int|
                            0 <= i < keys.drop_last().len() && keys.drop_last()[i] == key;
                        assert(keys[i] == key);
                    }
                }
            }
            assert(self.flagged.union(keys.drop_last().to_set()).insert(keys.last())
                =~= self.flagged.union(keys.to_set()));
        }
    }

    /// Deleting keys of which some may not be valid flags those that are,
    /// and changes nothing else.
    pub proof fn lemma_try_delete_all(self, keys: Seq<usize>)
        ensures
            self.try_delete_all(keys) == (AllocatorState {
                flagged: self.flagged.union(keys.to_set().intersect(self.alive)),
                ..self
            }),
        decreases keys.len(),
    {
        if keys.len() == 0 {
            assert(self.flagged.union(keys.to_set().intersect(self.alive)) =~= self.flagged);
        } else {
            let before = keys.drop_last();
            self.lemma_try_delete_all(before);
            assert forall|key: usize| keys.to_set().contains(key) <==> (before.to_set().contains(
                key,
            ) || key == keys.last()) by {
                if keys.to_set().contains(key) {
                    let i = choose|i: int| 0 <= i < keys.len() && keys[i] == key;
                    if i < keys.len() - 1 {
                        assert(before[i] == key);
                    }
                }
                if before.to_set().contains(key) {
                    let i = choose|i: int| 0 <= i < before.len() && before[i] == key;
                    assert(keys[i] == key);
                }
                if key == keys.last() {
                    assert(keys[keys.len() - 1] == key);
                }
            }
            assert(self.try_delete_all(keys).flagged =~= self.flagged.union(
                keys.to_set().intersect(self.alive),
            ));
        }
    }

    /// Two-phase deletion with keys of which some may not be valid: where
    /// nothing is flagged, a merge after the deletions frees exactly the
    /// keys among them that were valid, each once, and takes exactly them
    /// from the valid keys.
    pub proof fn lemma_two_phase_try(self, keys: Seq<usize>, freed: Seq<usize>)
        requires
            self.wf(),
            self.flagged == Set::<usize>::empty(),
            is_ascending_listing(freed, self.try_delete_all(keys).flagged),
        ensures
            self.try_delete_all(keys).alive == self.alive,
            freed.to_set() == keys.to_set().intersect(self.alive),
            freed.no_duplicates(),
            freed.len() == keys.to_set().intersect(self.alive).len(),
            self.try_delete_all(keys).merge(freed).wf(),
            self.try_delete_all(keys).merge(freed).alive == self.alive.difference(keys.to_set()),
            self.try_delete_all(keys).merge(freed).alive.len() + freed.len() == self.alive.len(),
            self.try_delete_all(keys).merge(freed).flagged == Set::<usize>::empty(),
    {
        self.lemma_try_delete_all(keys);
        let flagged = self.try_delete_all(keys);
        assert(flagged.flagged =~= keys.to_set().intersect(self.alive));
        lemma_listing(freed, flagged.flagged);
        flagged.lemma_merge(freed);
        assert(flagged.merge(freed).alive =~= self.alive.difference(keys.to_set()));
    }

    /// Two-phase deletion: where nothing is flagged, deleting valid keys and
    /// then merging frees exactly those keys, each once, and takes exactly
    /// them from the valid keys, whose number goes down by the number of
    /// distinct keys that were deleted.
    pub proof fn lemma_two_phase(self, keys: Seq<usize>, freed: Seq<usize>)
        requires
            self.wf(),
            self.flagged == Set::<usize>::empty(),
            forall|i: int| 0 <= i < keys.len() ==> self.alive.contains(#[trigger] keys[i]),
            is_ascending_listing(freed, self.delete_all(keys).flagged),
        ensures
            self.delete_all(keys).alive == self.alive,
            freed.to_set() == keys.to_set(),
            freed.no_duplicates(),
            freed.len() == keys.to_set().len(),
            keys.no_duplicates() ==> freed.len() == keys.len(),
            self.delete_all(keys).merge(freed).wf(),
            self.delete_all(keys).merge(freed).alive == self.alive.difference(keys.to_set()),
            self.delete_all(keys).merge(freed).alive.len() + freed.len() == self.alive.len(),
            self.delete_all(keys).merge(freed).flagged == Set::<usize>::empty(),
    {
        self.lemma_delete_all(keys);
        let flagged = self.delete_all(keys);
        assert(flagged.flagged =~= keys.to_set());
        lemma_listing(freed, flagged.flagged);
        if keys.no_duplicates() {
            keys.unique_seq_to_set();
        }
        assert(flagged.wf()) by {
            assert forall|key: usize| flagged.flagged.contains(key) implies flagged.alive.contains(
                key,
            ) by {
                let i = choose|i: int| 0 <= i < keys.len() && keys[i] == key;
                assert(self.alive.contains(keys[i]));
            }
        }
        flagged.lemma_merge(freed);
    }
}

} // verus!
