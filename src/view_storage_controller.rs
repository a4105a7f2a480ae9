//! The controller of a view-backed handle: the state machine
//! `Unset -> Readable | Writable -> Unset` of the view in one pool slot.
use vstd::prelude::*;

use crate::any_storage::StorageKind;
use crate::casting::Capability;
use crate::handle::StorageHandle;
use crate::storage_pool::{view_updated, StoragePool};
use crate::StorageError;

pub use crate::view_storage::InputStorageLockStatus;

verus! {

/// Controls the view held in slot `view_slot()`.
#[derive(Clone, Copy, Debug, PartialEq, Eq, Structural)]
pub struct ViewStorageController {
    view_storage: usize,
}

impl ViewStorageController {
    pub closed spec fn view_slot(&self) -> int {
        self.view_storage as int
    }

    pub closed spec fn spec_new(view_storage: usize) -> Self {
        ViewStorageController { view_storage }
    }

    pub fn new(view_storage: usize) -> (r: Self)
        ensures
            r == Self::spec_new(view_storage),
            r.view_slot() == view_storage,
    {
        ViewStorageController { view_storage }
    }

    pub fn view_storage_id(&self) -> (r: usize)
        ensures
            r == self.view_slot(),
    {
        self.view_storage
    }

    /// The lock that the controlled view retains on its input.
    pub fn status(&self, pool: &StoragePool) -> (r: InputStorageLockStatus)
        requires
            self.view_slot() < pool@.len(),
        ensures
            r == pool.status_of(self.view_slot()),
    {
        pool.status(self.view_storage)
    }

    /// Clears the view: its selection is dropped, its lock on the input is
    /// released and its status is `Unset` again.
    pub fn clear_view(&self, pool: &mut StoragePool) -> (r: Result<(), StorageError>)
        requires
            old(pool).wf(),
            self.view_slot() < old(pool)@.len(),
        ensures
            final(pool).wf(),
            r is Ok <==> old(pool)@[self.view_slot()].storage is View,
            r is Ok ==> view_updated(
                old(pool)@,
                final(pool)@,
                self.view_slot(),
                Seq::empty(),
                old(pool)@[self.view_slot()].storage->View_0.input(),
                InputStorageLockStatus::Unset,
            ) && final(pool).status_of(self.view_slot()) == InputStorageLockStatus::Unset,
            r is Err ==> final(pool)@ == old(pool)@ && r == Err::<(), StorageError>(
                StorageError::InvalidCast {
                    from: old(pool).kind_of(self.view_slot()),
                    to: Capability::ViewSetup,
                },
            ),
    {
        pool.clear_view(self.view_storage)
    }

    /// Makes the storage of `input_storage` the view's input. Refused while a
    /// view is active, and for an input of another kind than the view reads.
    pub fn set_input(&self, pool: &mut StoragePool, input_storage: StorageHandle) -> (r: Result<
        (),
        StorageError,
    >)
        requires
            old(pool).wf(),
            self.view_slot() < old(pool)@.len(),
            input_storage.slot() < old(pool)@.len(),
        ensures
            final(pool).wf(),
            old(pool).status_of(self.view_slot()) != InputStorageLockStatus::Unset ==> r
                == Err::<(), StorageError>(StorageError::ViewActive),
            !(old(pool)@[self.view_slot()].storage is View) ==> r == Err::<(), StorageError>(
                StorageError::InvalidCast {
                    from: old(pool).kind_of(self.view_slot()),
                    to: Capability::ViewSetup,
                },
            ),
            old(pool)@[self.view_slot()].storage is View && old(pool).status_of(self.view_slot())
                == InputStorageLockStatus::Unset && old(pool).kind_of(input_storage.slot())
                != StorageKind::Backend(old(pool)@[self.view_slot()].storage->View_0.input_kind())
                ==> r == Err::<(), StorageError>(
                StorageError::InvalidCast {
                    from: old(pool).kind_of(input_storage.slot()),
                    to: Capability::Concrete(
                        StorageKind::Backend(old(pool)@[self.view_slot()].storage->View_0.input_kind()),
                    ),
                },
            ),
            r is Ok <==> old(pool)@[self.view_slot()].storage is View && old(pool).status_of(
                self.view_slot(),
            ) == InputStorageLockStatus::Unset && old(pool).kind_of(input_storage.slot())
                == StorageKind::Backend(
                old(pool)@[self.view_slot()].storage->View_0.input_kind(),
            ),
            r is Ok ==> view_updated(
                old(pool)@,
                final(pool)@,
                self.view_slot(),
                Seq::empty(),
                Some(input_storage.slot() as usize),
                InputStorageLockStatus::Unset,
            ),
            r is Err ==> final(pool)@ == old(pool)@,
    {
        pool.set_view_input(self.view_storage, input_storage.storage_id())
    }

    /// Selects `keys` and retains a shared lock on the input; the status
    /// becomes `Readable`.
    pub fn create_read_view(&self, pool: &mut StoragePool, keys: Vec<usize>) -> (r: Result<
        (),
        StorageError,
    >)
        requires
            old(pool).wf(),
            self.view_slot() < old(pool)@.len(),
        ensures
            final(pool).wf(),
            r == old(pool).create_view_result(self.view_slot(), false),
            r is Ok ==> view_updated(
                old(pool)@,
                final(pool)@,
                self.view_slot(),
                keys@,
                old(pool)@[self.view_slot()].storage->View_0.input(),
                InputStorageLockStatus::Readable,
            ) && final(pool).status_of(self.view_slot()) == InputStorageLockStatus::Readable,
            r is Err ==> final(pool)@ == old(pool)@,
    {
        pool.create_view(self.view_storage, keys, false)
    }

    /// Selects `keys` and retains an exclusive lock on the input; the status
    /// becomes `Writable`.
    pub fn create_write_view(&self, pool: &mut StoragePool, keys: Vec<usize>) -> (r: Result<
        (),
        StorageError,
    >)
        requires
            old(pool).wf(),
            self.view_slot() < old(pool)@.len(),
        ensures
            final(pool).wf(),
            r == old(pool).create_view_result(self.view_slot(), true),
            r is Ok ==> view_updated(
                old(pool)@,
                final(pool)@,
                self.view_slot(),
                keys@,
                old(pool)@[self.view_slot()].storage->View_0.input(),
                InputStorageLockStatus::Writable,
            ) && final(pool).status_of(self.view_slot()) == InputStorageLockStatus::Writable,
            r is Err ==> final(pool)@ == old(pool)@,
    {
        pool.create_view(self.view_storage, keys, true)
    }
}

} // verus!
