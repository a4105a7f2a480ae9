//! Storage containers keyed by `usize` holding `i32` items, reachable through
//! capability interfaces, kept in a pool of lockable slots and addressed by
//! handles that can be cast between capabilities and concrete backends.
//!
//! - `storage_traits`: the capability interfaces, each stated over a model of
//!   the backend (its length, its keys, the item under each key).
//! - `vec_storage`, `sparse_storage`, `hashmap_storage`, `val_storage`: the
//!   backends; `view_storage`: a filtering view onto another storage.
//! - `any_storage`: the closed family of backends as one tagged union, with
//!   the concrete type of each value.
//! - `casting`: for each capability, the ordered candidates that satisfy it.
//! - `storage_pool`: the slots, their shared and exclusive locks, and the
//!   locks that active views retain on their inputs.
//! - `handle`, `guards`, `view_storage_controller`, `keys_to_items_iter`:
//!   handles over slots, the guards of taken locks, the state machine of a
//!   view, and a lazy walk over a view.
use vstd::prelude::*;

pub mod any_storage;
pub mod casting;
pub mod guards;
pub mod handle;
pub mod hashmap_storage;
pub mod keys_to_items_iter;
pub mod sparse_storage;
pub mod storage_pool;
pub mod storage_traits;
pub mod val_storage;
pub mod vec_storage;
pub mod view_storage;
pub mod view_storage_controller;

verus! {

/// Why an operation on a storage, a handle or a view was refused.
#[derive(Clone, Copy, Debug, PartialEq, Eq, Structural)]
pub enum StorageError {
    /// A storage of concrete type `from` does not satisfy the capability or
    /// concrete type `to`.
    InvalidCast { from: any_storage::StorageKind, to: casting::Capability },
    /// The lock could not be taken in the requested mode right now.
    LockUnavailable,
    /// The handle has a view controller and no view has been created yet.
    ViewNotCreated,
    /// A view is active: it must be cleared first.
    ViewActive,
    /// The view has no input storage.
    InputNotSet,
}

} // verus!
