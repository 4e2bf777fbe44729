use crate::allocator::{Allocator, Create, CreateChecked, Delete, MergeDeleted, Merger};
use crate::error::{InvalidIdError, OomError};
use crate::id::{CheckedId, Id, SparseLinear, ValidId};
use crate::impls::allocator_state::{is_ascending_listing, AllocatorState};
use crate::impls::{FlatUsize, UsizeAllocator};
use crate::util::Reference;
use vstd::prelude::*;

verus! {

/// Wrapper for `UsizeAllocator` returning `FlatUsize`. Its view is the state
/// of the wrapped allocator.
#[derive(Debug)]
pub struct FlatAllocator {
    inner: UsizeAllocator,
    merger: Reference,
}

impl View for FlatAllocator {
    type V = AllocatorState;

    closed spec fn view(&self) -> AllocatorState {
        self.inner@
    }
}

/// The keys of `ids`, in their order.
pub open spec fn keys_of(ids: Seq<FlatUsize>) -> Seq<usize> {
    ids.map_values(|id: FlatUsize| id@)
}

impl FlatAllocator {
    /// The token of the merger that was created with this allocator.
    pub closed spec fn merger_token(&self) -> usize {
        self.merger@
    }

    /// The representation invariant: that of the wrapped allocator.
    pub closed spec fn well_formed(&self) -> bool {
        self.inner.wf()
    }

    /// A well-formed allocator holds a well-formed state, with no more valid
    /// keys than the counter says.
    pub proof fn lemma_wf(&self)
        requires
            self.well_formed(),
        ensures
            self@.wf(),
            self@.alive.len() <= self@.counter,
    {
        self.inner.lemma_wf();
    }

    /// Creates a fresh allocator and its associated merger for deleting IDs.
    pub fn new() -> (pair: (Self, Merger<Self>))
        ensures
            pair.0.well_formed(),
            pair.0@ == AllocatorState::fresh(0),
            pair.0.merger_token() == pair.1@,
    {
        let merger = Merger::new();

        let alloc = FlatAllocator {
            inner: UsizeAllocator::new(),
            merger: merger.instance_id().reference(),
        };

        (alloc, merger)
    }

    /// Returns the reference to the instance ID of the merger that was
    /// created with this allocator.
    pub fn merger_reference(&self) -> (reference: &Reference)
        ensures
            reference@ == self.merger_token(),
    {
        &self.merger
    }

    /// Whether `merger` is the merger that was created with this allocator.
    pub fn is_paired_with(&self, merger: &Merger<Self>) -> (paired: bool)
        ensures
            paired == (self.merger_token() == merger@),
    {
        merger.instance_id().as_usize() == self.merger.as_usize()
    }
}

impl Allocator<FlatUsize> for FlatAllocator {
    open spec fn wf(&self) -> bool {
        self.well_formed()
    }

    open spec fn valid_count(&self) -> nat {
        self@.alive.len()
    }

    open spec fn valid_hint(&self) -> (usize, Option<usize>) {
        (0, Some(self@.counter))
    }

    fn is_valid(&self, id: &FlatUsize) -> (valid: bool) {
        self.inner.is_valid(id.clone().into_usize())
    }

    fn num_valid(&self) -> (n: usize) {
        self.inner.num_valid()
    }

    fn num_valid_hint(&self) -> (hint: (usize, Option<usize>)) {
        self.inner.num_valid_hint()
    }
}

impl Create<FlatUsize> for FlatAllocator {
    open spec fn exhausted(&self) -> bool {
        self@.exhausted()
    }

    #[inline]
    fn create(&mut self) -> (id: Result<FlatUsize, OomError>)
        ensures
            match id {
                Ok(id) => {
                    &&& id@ == old(self)@.next_key()
                    &&& id@ < usize::MAX
                    &&& final(self)@ == old(self)@.create()
                },
                Err(_) => final(self)@ == old(self)@,
            },
            final(self).merger_token() == old(self).merger_token(),
    {
        proof {
            self.inner.lemma_wf();
        }
        match self.inner.create() {
            Ok(key) => {
                let id = FlatUsize::new(key);
                proof {
                    self.inner.lemma_wf();
                }
                Ok(id)
            },
            Err(error) => Err(error),
        }
    }
}

impl CreateChecked<FlatUsize> for FlatAllocator {
    fn create_checked<'merger>(&mut self, merger: &'merger Merger<Self>) -> (id: Result<
        CheckedId<'merger, FlatUsize>,
        OomError,
    >)
        ensures
            match id {
                Ok(id) => {
                    &&& id.key() == old(self)@.next_key()
                    &&& id.key() < usize::MAX
                    &&& final(self)@ == old(self)@.create()
                },
                Err(_) => final(self)@ == old(self)@,
            },
            final(self).merger_token() == old(self).merger_token(),
    {
        proof {
            self.inner.lemma_wf();
        }
        match self.inner.create() {
            Ok(key) => {
                let id = FlatUsize::new(key);
                proof {
                    self.inner.lemma_wf();
                }
                Ok(CheckedId::new_from_fields(id, key, merger))
            },
            Err(error) => Err(error),
        }
    }
}

impl Delete<FlatUsize> for FlatAllocator {
    open spec fn flagged(&self, id: &FlatUsize) -> bool {
        self@.flagged.contains(id@)
    }

    #[inline]
    fn is_flagged<V>(&self, id: &V) -> (flagged: bool) where V: ValidId<FlatUsize> {
        self.inner.is_flagged(id.as_inner().as_usize())
    }

    fn delete<V>(&mut self, id: &V) where V: ValidId<FlatUsize>
        ensures
            final(self)@ == old(self)@.delete(id.inner()@),
            final(self).merger_token() == old(self).merger_token(),
    {
        self.inner.delete_valid(id.as_inner().as_usize())
    }

    fn try_delete(&mut self, id: &FlatUsize) -> (result: Result<(), InvalidIdError<FlatUsize>>)
        ensures
            final(self)@ == old(self)@.try_delete(id@),
            final(self).merger_token() == old(self).merger_token(),
    {
        match self.inner.try_delete(id.clone().into_usize()) {
            Ok(()) => Ok(()),
            Err(error) => {
                let invalid = FlatUsize::new(error.0);
                proof {
                    invalid.lemma_view_injective(*id);
                }
                Err(InvalidIdError(invalid))
            },
        }
    }
}

impl MergeDeleted<FlatUsize> for FlatAllocator {
    open spec fn paired_with(&self, merger: &Merger<Self>) -> bool {
        self.merger_token() == merger@
    }

    open spec fn pending(&self, id: &FlatUsize) -> bool {
        self@.flagged.contains(id@)
    }

    fn merge_deleted(&mut self, merger: &mut Merger<Self>) -> (freed: Vec<FlatUsize>)
        ensures
            is_ascending_listing(keys_of(freed@), old(self)@.flagged),
            final(self)@ == old(self)@.merge(keys_of(freed@)),
            final(self).merger_token() == old(self).merger_token(),
            final(merger)@ == old(merger)@,
    {
        merger.instance_id().assert_eq(&self.merger);
        proof {
            self.inner.lemma_wf();
        }

        let keys = self.inner.merge_deleted();
        let mut freed: Vec<FlatUsize> = Vec::new();
        let mut i: usize = 0;
        while i < keys.len()
            invariant
                i <= keys@.len(),
                freed@.len() == i,
                forall|j: int| 0 <= j < i ==> (#[trigger] freed@[j])@ == keys@[j],
            decreases keys@.len() - i,
        {
            freed.push(FlatUsize::new(keys[i]));
            i += 1;
        }
        proof {
            assert(keys_of(freed@) =~= keys@);
            old(self)@.lemma_merge(keys@);
            assert forall|i: int| 0 <= i < freed@.len() implies (#[trigger] freed@[i]).valid_in(
                old(self),
            ) && !freed@[i].valid_in(self) by {
                assert(keys@.contains(keys@[i]));
            }
        }
        freed
    }
}

} // verus!
