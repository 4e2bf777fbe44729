use crate::bit_set::BitSet;
use crate::error::{InvalidIdError, OomError};
use crate::impls::allocator_state::{is_ascending_listing, lemma_keys_below, AllocatorState};
use crate::impls::FlatBitSet;
use vstd::prelude::*;

verus! {

/// A simple, non-atomic allocator that tries to return a free `usize`, bumps
/// the counter otherwise.
#[derive(Debug)]
pub struct UsizeAllocator {
    /// Valid IDs
    alive: FlatBitSet,
    counter: usize,
    killed: Vec<usize>,
    /// IDs flagged for deletion
    flagged: FlatBitSet,
}

impl View for UsizeAllocator {
    type V = AllocatorState;

    closed spec fn view(&self) -> AllocatorState {
        AllocatorState {
            alive: self.alive@,
            counter: self.counter,
            killed: self.killed@,
            flagged: self.flagged@,
        }
    }
}

impl UsizeAllocator {
    /// The representation invariant: the bit sets are well formed and the
    /// state that they hold is.
    pub closed spec fn wf(&self) -> bool {
        &&& self.alive.well_formed()
        &&& self.flagged.well_formed()
        &&& self@.wf()
    }

    /// A well-formed allocator holds a well-formed state.
    pub proof fn lemma_wf(&self)
        requires
            self.wf(),
        ensures
            self@.wf(),
            self@.alive.len() <= self@.counter,
    {
        lemma_keys_below(self@.alive, self@.counter as nat);
    }

    /// Creates a fresh allocator.
    pub fn new() -> (allocator: Self)
        ensures
            allocator.wf(),
            allocator@ == AllocatorState::fresh(0),
    {
        UsizeAllocator::with_counter(0)
    }

    /// Creates a fresh allocator that issues `counter` as its first key.
    pub fn with_counter(counter: usize) -> (allocator: Self)
        ensures
            allocator.wf(),
            allocator@ == AllocatorState::fresh(counter),
    {
        UsizeAllocator {
            alive: FlatBitSet::new(),
            counter,
            killed: Vec::new(),
            flagged: FlatBitSet::new(),
        }
    }

    /// Returns the counter and advances it, or `None` at its end.
    #[inline]
    pub fn checked_inc(&mut self) -> (key: Option<usize>)
        requires
            old(self).wf(),
        ensures
            final(self).wf(),
            match key {
                Some(key) => {
                    &&& key == old(self)@.counter
                    &&& key < usize::MAX
                    &&& final(self)@ == AllocatorState {
                        counter: (key + 1) as usize,
                        ..old(self)@
                    }
                },
                None => old(self)@.counter == usize::MAX && final(self)@ == old(self)@,
            },
    {
        match self.counter.checked_add(1) {
            Some(new) => {
                let old = self.counter;
                self.counter = new;

                Some(old)
            },
            None => None,
        }
    }

    /// Mirrors `Allocator::is_valid`
    #[inline]
    pub fn is_valid(&self, id: usize) -> (valid: bool)
        ensures
            valid == self@.alive.contains(id),
    {
        self.alive.contains(id)
    }

    /// Mirrors `Allocator::num_valid`
    pub fn num_valid(&self) -> (n: usize)
        requires
            self.wf(),
        ensures
            n == self@.alive.len(),
    {
        proof {
            self.lemma_wf();
        }
        self.alive.count()
    }

    /// Mirrors `Allocator::num_valid_hint`
    #[inline]
    pub fn num_valid_hint(&self) -> (hint: (usize, Option<usize>))
        requires
            self.wf(),
        ensures
            hint == (0usize, Some(self@.counter)),
            hint.0 <= self@.alive.len() <= self@.counter,
    {
        proof {
            self.lemma_wf();
        }
        (0, Some(self.counter))
    }

    /// Mirrors `Create::create`
    #[inline]
    pub fn create(&mut self) -> (id: Result<usize, OomError>)
        requires
            old(self).wf(),
        ensures
            final(self).wf(),
            match id {
                Ok(key) => {
                    &&& !old(self)@.exhausted()
                    &&& key == old(self)@.next_key()
                    &&& !old(self)@.alive.contains(key)
                    &&& key < usize::MAX
                    &&& final(self)@ == old(self)@.create()
                },
                Err(_) => old(self)@.exhausted() && final(self)@ == old(self)@,
            },
    {
        let id = match self.killed.pop() {
            Some(id) => id,
            None => match self.checked_inc() {
                Some(id) => id,
                None => {
                    return Err(OomError);
                },
            },
        };
        proof {
            if old(self)@.killed.len() > 0 {
                assert(old(self)@.killed[old(self)@.killed.len() - 1] < old(self)@.counter);
                assert(self@.killed =~= old(self)@.killed.drop_last());
            }
        }

        self.alive.add(id);

        Ok(id)
    }

    /// Mirrors `Delete::is_flagged`
    #[inline]
    pub fn is_flagged(&self, id: usize) -> (flagged: bool)
        ensures
            flagged == self@.flagged.contains(id),
    {
        self.flagged.contains(id)
    }

    /// Mirrors `Delete::delete`
    #[inline]
    pub fn delete_valid(&mut self, id: usize)
        requires
            old(self).wf(),
            old(self)@.alive.contains(id),
        ensures
            final(self).wf(),
            final(self)@ == old(self)@.delete(id),
    {
        self.flagged.add(id);
    }

    /// Mirrors `Delete::try_delete`
    #[inline]
    pub fn try_delete(&mut self, id: usize) -> (result: Result<(), InvalidIdError<usize>>)
        requires
            old(self).wf(),
        ensures
            final(self).wf(),
            final(self)@ == old(self)@.try_delete(id),
            match result {
                Ok(_) => old(self)@.alive.contains(id),
                Err(error) => !old(self)@.alive.contains(id) && error.0 == id,
            },
    {
        match self.is_valid(id) {
            true => self.delete_valid(id),
            false => {
                return Err(InvalidIdError(id));
            },
        }

        Ok(())
    }

    /// Mirrors `MergeDeleted::merge_deleted`
    pub fn merge_deleted(&mut self) -> (freed: &[usize])
        requires
            old(self).wf(),
        ensures
            final(self).wf(),
            is_ascending_listing(freed@, old(self)@.flagged),
            final(self)@ == old(self)@.merge(freed@),
    {
        let start = self.killed.len();

        loop
            invariant
                self.alive.well_formed(),
                self.flagged.well_formed(),
                self.alive@.finite(),
                self.counter == old(self).counter,
                old(self)@.wf(),
                start == old(self)@.killed.len(),
                start <= self.killed@.len(),
                self.killed@.subrange(0, start as int) == old(self)@.killed,
                forall|i: int, j: int|
                    start <= i < j < self.killed@.len() ==> self.killed@[i] < self.killed@[j],
                forall|i: int, key: usize|
                    start <= i < self.killed@.len() && self.flagged@.contains(key)
                        ==> self.killed@[i] < key,
                forall|key: usize|
                    old(self)@.flagged.contains(key) <==> (self.flagged@.contains(key) || exists|
                        i: int,
                    |
                        start <= i < self.killed@.len() && self.killed@[i] == key),
                forall|key: usize|
                    self.alive@.contains(key) <==> (old(self)@.alive.contains(key) && !(exists|
                        i: int,
                    |
                        start <= i < self.killed@.len() && self.killed@[i] == key)),
            ensures
                self.alive.well_formed(),
                self.flagged.well_formed(),
                self.alive@.finite(),
                self.counter == old(self).counter,
                start <= self.killed@.len(),
                self.killed@.subrange(0, start as int) == old(self)@.killed,
                self.flagged@ == Set::<usize>::empty(),
                forall|i: int, j: int|
                    start <= i < j < self.killed@.len() ==> self.killed@[i] < self.killed@[j],
                forall|key: usize|
                    old(self)@.flagged.contains(key) <==> (exists|i: int|
                        start <= i < self.killed@.len() && self.killed@[i] == key),
                forall|key: usize|
                    self.alive@.contains(key) <==> (old(self)@.alive.contains(key) && !(exists|
                        i: int,
                    |
                        start <= i < self.killed@.len() && self.killed@[i] == key)),
            decreases self.flagged@.len(),
        {
            proof {
                self.flagged.lemma_len();
            }
            let ghost before = self.killed@;
            match self.flagged.pop_front() {
                Some(id) => {
                    self.alive.remove(id);
                    self.killed.push(id);
                    proof {
                        assert(self.killed@.subrange(0, start as int) =~= before.subrange(
                            0,
                            start as int,
                        ));
                        assert(self.killed@[before.len() as int] == id);
                        assert forall|key: usize|
                            old(self)@.flagged.contains(key) <==> (self.flagged@.contains(key)
                                || exists|i: int|
                                start <= i < self.killed@.len() && self.killed@[i] == key) by {
                            if exists|i: int| start <= i < before.len() && before[i] == key {
                                let i = choose|i: int| start <= i < before.len() && before[i] == key;
                                assert(self.killed@[i] == key);
                            }
                        }
                        assert forall|key: usize|
                            self.alive@.contains(key) <==> (old(self)@.alive.contains(key)
                                && !(exists|i: int|
                                start <= i < self.killed@.len() && self.killed@[i] == key)) by {
                            if exists|i: int| start <= i < before.len() && before[i] == key {
                                let i = choose|i: int| start <= i < before.len() && before[i] == key;
                                assert(self.killed@[i] == key);
                            }
                        }
                    }
                },
                None => {
                    break ;
                },
            }
        }

        let freed = vstd::slice::slice_subrange(self.killed.as_slice(), start, self.killed.len());
        proof {
            let merged = old(self)@.merge(freed@);
            assert(self@.alive =~= merged.alive) by {
                assert forall|key: usize|
                    self@.alive.contains(key) == merged.alive.contains(key) by {
                    if exists|i: int| start <= i < self.killed@.len() && self.killed@[i] == key {
                    }
                }
            }
            assert(self@.killed =~= merged.killed);
            assert(self@.flagged =~= merged.flagged);
            assert forall|key: usize| old(self)@.flagged.contains(key) <==> freed@.contains(
                key,
            ) by {
                if old(self)@.flagged.contains(key) {
                    let i = choose|i: int|
                        start <= i < self.killed@.len() && self.killed@[i] == key;
                    assert(freed@[i - start] == key);
                }
                if freed@.contains(key) {
                    let j = choose|j: int| 0 <= j < freed@.len() && freed@[j] == key;
                    assert(self.killed@[j + start] == key);
                }
            }
            assert forall|i: int, j: int| 0 <= i < j < self.killed@.len() implies self.killed@[i]
                != self.killed@[j] by {
                if i < start {
                    assert(old(self)@.killed[i] == self.killed@.subrange(0, start as int)[i]);
                    if j < start {
                        assert(old(self)@.killed[j] == self.killed@.subrange(0, start as int)[j]);
                    } else {
                        assert(old(self)@.flagged.contains(self.killed@[j]));
                    }
                }
            }
            assert forall|i: int| 0 <= i < self.killed@.len() implies #[trigger] self.killed@[i]
                < self.counter && !self.alive@.contains(self.killed@[i]) by {
                if i < start {
                    assert(old(self)@.killed[i] == self.killed@.subrange(0, start as int)[i]);
                } else {
                    assert(old(self)@.flagged.contains(self.killed@[i]));
                }
            }
        }
        freed
    }
}

impl Default for UsizeAllocator {
    fn default() -> (allocator: Self)
        ensures
            allocator.wf(),
            allocator@ == AllocatorState::fresh(0),
    {
        UsizeAllocator::new()
    }
}

} // verus!
