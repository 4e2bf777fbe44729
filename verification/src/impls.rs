//! Implementations of the generic interfaces provided by this crate.

pub mod allocator_state;
pub mod dense;
pub mod dv_storage;
pub mod flat_allocator;
pub mod flat_bit_set;
pub mod flat_id;
pub mod tv_storage;
pub mod type_safe;
pub mod usize_allocator;

pub use self::dv_storage::DvStorage;
pub use self::flat_allocator::FlatAllocator;
pub use self::flat_bit_set::FlatBitSet;
pub use self::flat_id::FlatUsize;
pub use self::tv_storage::TvStorage;
pub use self::type_safe::{TypeSafeAllocator, TypeSafeId};
pub use self::usize_allocator::UsizeAllocator;
