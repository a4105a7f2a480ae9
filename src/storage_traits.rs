//! The capability interfaces that storage backends satisfy.
//!
//! Keys are `usize` and items are `i32`. Each interface states its operations
//! over a mathematical model of the backend: its length, its set of keys and
//! the item stored under each key.
use vstd::prelude::*;

use crate::view_storage::{InputLockState, InputStorageLockStatus};
use crate::StorageError;

verus! {

/// The root capability: every storage has a length.
pub trait Storage {
    spec fn spec_len(&self) -> nat;

    fn len(&self) -> (r: usize)
        ensures
            r as nat == self.spec_len(),
    ;

    fn is_empty(&self) -> (r: bool)
        ensures
            r == (self.spec_len() == 0),
    {
        self.len() == 0
    }
}

/// Storage whose contents can be removed at once.
pub trait ClearableStorage: Storage {
    fn clear(&mut self)
        ensures
            final(self).spec_len() == 0,
    ;
}

/// Storage that can be queried by key.
pub trait KeyStorage: Storage {
    spec fn spec_keys(&self) -> Set<usize>;

    fn contains(&self, key: usize) -> (r: bool)
        ensures
            r == self.spec_keys().contains(key),
    ;

    /// Every key once, in the backend's iteration order.
    fn keys(&self) -> (r: Vec<usize>)
        ensures
            r@.to_set() == self.spec_keys(),
            r@.no_duplicates(),
    ;
}

/// Storage of items.
pub trait ItemStorage: Storage {
}

/// Storage whose items can be read by key.
pub trait KeyItemStorage: KeyStorage + ItemStorage {
    /// The item stored under `key`, meaningful when `key` is one of the keys.
    spec fn spec_item(&self, key: usize) -> i32;

    fn get(&self, key: usize) -> (r: Option<i32>)
        ensures
            r == (if self.spec_keys().contains(key) {
                Some(self.spec_item(key))
            } else {
                None
            }),
    ;

    /// Every `(key, item)` pair once, in the backend's iteration order.
    fn key_items(&self) -> (r: Vec<(usize, i32)>)
        ensures
            forall|i: int|
                0 <= i < r@.len() ==> self.spec_keys().contains(#[trigger] r@[i].0) && r@[i].1
                    == self.spec_item(r@[i].0),
            forall|k: usize| #[trigger]
                self.spec_keys().contains(k) ==> exists|i: int| 0 <= i < r@.len() && r@[i].0 == k,
            forall|i: int, j: int| 0 <= i < j < r@.len() ==> r@[i].0 != r@[j].0,
    ;
}

/// Storage whose items can be written by key.
pub trait MutKeyItemStorage: KeyItemStorage + ClearableStorage {
    /// Whether `insert(key, _)` is within the backend's limits.
    spec fn spec_can_insert(&self, key: usize) -> bool;

    /// Stores `item` under `key`; what happens to the other keys is up to the backend.
    fn insert(&mut self, key: usize, item: i32)
        requires
            old(self).spec_can_insert(key),
        ensures
            final(self).spec_keys().contains(key),
            final(self).spec_item(key) == item,
    ;

    /// Overwrites the item under `key` in place and returns the old one; a key
    /// that is not there changes nothing.
    fn replace(&mut self, key: usize, item: i32) -> (r: Option<i32>)
        ensures
            r == (if old(self).spec_keys().contains(key) {
                Some(old(self).spec_item(key))
            } else {
                None
            }),
            final(self).spec_keys() == old(self).spec_keys(),
            forall|k: usize| #[trigger]
                final(self).spec_keys().contains(k) ==> final(self).spec_item(k) == (if k == key {
                    item
                } else {
                    old(self).spec_item(k)
                }),
    ;
}

/// Storage whose items lie contiguously.
pub trait ItemSliceStorage: ItemStorage {
    spec fn spec_items(&self) -> Seq<i32>;

    fn as_item_slice(&self) -> (r: &[i32])
        ensures
            r@ == self.spec_items(),
            r@.len() == self.spec_len(),
    ;
}

/// Storage whose contiguous items can be written in place.
pub trait MutItemSliceStorage: ItemSliceStorage {
    fn as_mut_slice(&mut self) -> (r: &mut [i32])
        ensures
            r@ == old(self).spec_items(),
            final(self).spec_items() == final(r)@,
    ;
}

/// Setting up a filtering view: its input storage, its selected keys and the
/// lock it retains on the input.
pub trait ViewStorageSetup: Storage {
    /// The selected input keys; position `i` is the view's key `i`.
    spec fn spec_view_keys(&self) -> Seq<usize>;

    /// The input storage, by slot.
    spec fn spec_input(&self) -> Option<usize>;

    /// The lock retained on the input.
    spec fn spec_status(&self) -> InputStorageLockStatus;

    /// Drops the selection and the retained lock.
    fn clear_view(&mut self)
        ensures
            final(self).spec_view_keys() == Seq::<usize>::empty(),
            final(self).spec_status() == InputStorageLockStatus::Unset,
            final(self).spec_input() == old(self).spec_input(),
    ;

    /// Replaces the input; the view is cleared.
    fn set_input_storage(&mut self, input: usize)
        ensures
            final(self).spec_view_keys() == Seq::<usize>::empty(),
            final(self).spec_status() == InputStorageLockStatus::Unset,
            final(self).spec_input() == Some(input),
    ;

    fn get_input_storage(&self) -> (r: Option<usize>)
        ensures
            r == self.spec_input(),
    ;

    /// Selects `keys` and retains a shared lock on the input, whose lock state
    /// is `input_lock`. Refused while a view is active, without an input, and
    /// when the input is held exclusively.
    fn create_read_view(&mut self, keys: Vec<usize>, input_lock: InputLockState) -> (r: Result<
        (),
        StorageError,
    >)
        ensures
            old(self).spec_status() != InputStorageLockStatus::Unset ==> r == Err::<(), StorageError>(
                StorageError::ViewActive,
            ),
            old(self).spec_status() == InputStorageLockStatus::Unset && old(self).spec_input() is None
                ==> r == Err::<(), StorageError>(StorageError::InputNotSet),
            old(self).spec_status() == InputStorageLockStatus::Unset && old(self).spec_input() is Some
                && !input_lock.shared_available() ==> r == Err::<(), StorageError>(
                StorageError::LockUnavailable,
            ),
            r is Ok <==> old(self).spec_status() == InputStorageLockStatus::Unset
                && old(self).spec_input() is Some && input_lock.shared_available(),
            r is Ok ==> final(self).spec_view_keys() == keys@ && final(self).spec_status()
                == InputStorageLockStatus::Readable,
            r is Err ==> final(self).spec_view_keys() == old(self).spec_view_keys()
                && final(self).spec_status() == old(self).spec_status(),
            final(self).spec_input() == old(self).spec_input(),
    ;

    /// Selects `keys` and retains an exclusive lock on the input, whose lock
    /// state is `input_lock`. Refused while a view is active, without an input,
    /// and when anybody holds the input.
    fn create_write_view(&mut self, keys: Vec<usize>, input_lock: InputLockState) -> (r: Result<
        (),
        StorageError,
    >)
        ensures
            old(self).spec_status() != InputStorageLockStatus::Unset ==> r == Err::<(), StorageError>(
                StorageError::ViewActive,
            ),
            old(self).spec_status() == InputStorageLockStatus::Unset && old(self).spec_input() is None
                ==> r == Err::<(), StorageError>(StorageError::InputNotSet),
            old(self).spec_status() == InputStorageLockStatus::Unset && old(self).spec_input() is Some
                && !input_lock.exclusive_available() ==> r == Err::<(), StorageError>(
                StorageError::LockUnavailable,
            ),
            r is Ok <==> old(self).spec_status() == InputStorageLockStatus::Unset
                && old(self).spec_input() is Some && input_lock.exclusive_available(),
            r is Ok ==> final(self).spec_view_keys() == keys@ && final(self).spec_status()
                == InputStorageLockStatus::Writable,
            r is Err ==> final(self).spec_view_keys() == old(self).spec_view_keys()
                && final(self).spec_status() == old(self).spec_status(),
            final(self).spec_input() == old(self).spec_input(),
    ;
}

} // verus!
