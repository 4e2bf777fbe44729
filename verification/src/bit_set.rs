//! Module defining the `BitSet` trait.

use vstd::prelude::*;

verus! {

/// A set of bit positions, used as storage mask to determine if components
/// exist for certain IDs. Its view is the set of positions that are set.
pub trait BitSet: Sized + Default + View<V = Set<usize>> {
    /// The representation invariant of the implementing type.
    spec fn wf(&self) -> bool;

    /// A well-formed bit set holds finitely many positions.
    proof fn lemma_finite(&self)
        requires
            self.wf(),
        ensures
            self@.finite(),
    ;

    /// Creates a `BitSet` with no bits set.
    fn empty_bit_set() -> (set: Self)
        ensures
            set.wf(),
            set@ == Set::<usize>::empty(),
    ;

    /// Adds a bit to the bit set, returning the previous value.
    ///
    /// Does nothing (and returns `true`) if the bit was set already.
    fn add(&mut self, bit: usize) -> (was_set: bool)
        requires
            old(self).wf(),
        ensures
            final(self).wf(),
            final(self)@ == old(self)@.insert(bit),
            was_set == old(self)@.contains(bit),
    ;

    /// Removes a bit from the bit set, returning the previous value.
    ///
    /// Does nothing (and returns `false`) if the bit was zero already.
    fn remove(&mut self, bit: usize) -> (was_set: bool)
        requires
            old(self).wf(),
        ensures
            final(self).wf(),
            final(self)@ == old(self)@.remove(bit),
            was_set == old(self)@.contains(bit),
    ;

    /// Removes the first bit set to `1` and returns its position. Returns
    /// `None` if the bit set is empty.
    fn pop_front(&mut self) -> (first: Option<usize>)
        requires
            old(self).wf(),
        ensures
            final(self).wf(),
            match first {
                Some(bit) => {
                    &&& old(self)@.contains(bit)
                    &&& forall|other: usize| old(self)@.contains(other) ==> bit <= other
                    &&& final(self)@ == old(self)@.remove(bit)
                },
                None => {
                    &&& old(self)@ == Set::<usize>::empty()
                    &&& final(self)@ == old(self)@
                },
            },
    ;

    /// Checks if `bit` is set.
    fn contains(&self, bit: usize) -> (is_set: bool)
        ensures
            is_set == self@.contains(bit),
    ;

    /// Count the number of set bits. The number has to fit the result type.
    fn count(&self) -> (n: usize)
        requires
            self.wf(),
            self@.len() <= usize::MAX,
        ensures
            n == self@.len(),
    ;
}

} // verus!
