//! Prelude module, exporting commonly used types.

pub use crate::allocator::{Allocator, Create, CreateChecked, Delete, MergeDeleted, Merger};
pub use crate::id::{Id, MergingDeletion};
pub use crate::storage::Storage;
