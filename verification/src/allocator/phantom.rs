use crate::allocator::Allocator;
use crate::id::Id;
use vstd::prelude::*;

verus! {

/// Phantom allocator type required to implement `Id` for wrapper IDs that
/// uphold additional guarantees. This can never be instantiated and is only
/// meant to be used for the associated `Self::Allocator` type.
pub struct PhantomAllocator {
    never: (),
}

impl PhantomAllocator {
    /// No value of this type exists.
    #[verifier::type_invariant]
    spec fn never(self) -> bool {
        false
    }
}

impl<ID> Allocator<ID> for PhantomAllocator where ID: Id<Allocator = Self> {
    open spec fn wf(&self) -> bool {
        true
    }

    open spec fn valid_count(&self) -> nat {
        0
    }

    open spec fn valid_hint(&self) -> (usize, Option<usize>) {
        (0, Some(0))
    }

    fn is_valid(&self, _id: &ID) -> (valid: bool) {
        proof {
            use_type_invariant(self);
        }
        true
    }

    fn num_valid(&self) -> (n: usize) {
        0
    }

    fn num_valid_hint(&self) -> (hint: (usize, Option<usize>)) {
        (0, Some(0))
    }
}

} // verus!
