//! # `nitric-component`
//!
//! This crate implements component storages, providing a mapping from IDs /
//! Entities to data points: recyclable IDs, the allocator that tracks which
//! of them are valid and deletes them in two phases, and a dense storage that
//! maps valid IDs to components.
//!
//! ## Traits
//!
//! Many properties of storages, allocators and IDs are optional and not
//! implemented for all instances. That means all code will only depend on the
//! traits it actually uses and is therefore reusable in many situations.
//!
//! ## Structure
//!
//! This crate is split into a generic interface and implementations of these
//! interfaces.
//!
//! Generic interfaces are in
//!
//! * `allocator`
//! * `bit_set`
//! * `id`
//! * `storage`
//!
//! Implementations are in
//!
//! * `impls`
//!
//! Additionally, error types can be found in `error`, utility types in `util`
//! and a list of elements of different types in `list`. A prelude for common
//! traits & types can be imported from `prelude`.

pub mod allocator;
pub mod bit_set;
pub mod error;
pub mod id;
pub mod impls;
pub mod list;
pub mod prelude;
pub mod storage;
pub mod util;
