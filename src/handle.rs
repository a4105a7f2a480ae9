//! Handles: shared references to a storage slot of a pool, under one
//! capability, optionally gated by a view controller. Cloning a handle shares
//! the slot; casting gives a new handle over the same slot.
use vstd::prelude::*;

use crate::any_storage::{AnyStorage, StorageKind};
use crate::casting::{check_cast, satisfies, Capability};
use crate::guards::{StorageReadGuard, StorageWriteGuard};
use crate::storage_pool::{fresh_storage, with_lock, Slot, StoragePool};
use crate::view_storage::InputStorageLockStatus;
use crate::view_storage_controller::ViewStorageController;
use crate::StorageError;

verus! {

#[derive(Clone, Copy, Debug, PartialEq, Eq, Structural)]
pub struct StorageHandle {
    storage: usize,
    capability: Capability,
    view_storage_controller: Option<ViewStorageController>,
}

/// The handle over `slot` under `capability` with `controller`.
pub closed spec fn handle_of(
    slot: usize,
    capability: Capability,
    controller: Option<ViewStorageController>,
) -> StorageHandle {
    StorageHandle { storage: slot, capability, view_storage_controller: controller }
}

/// The outcome of casting `h` to `target` in `pool`. The check takes a
/// transient shared lock on the slot: `LockUnavailable` when that lock cannot
/// be taken now. Then a handle over the same slot with the same controller
/// under `target` when the slot's concrete type satisfies `target`, else
/// `InvalidCast` naming the concrete type and the target.
pub open spec fn cast_outcome(pool: StoragePool, h: StorageHandle, target: Capability) -> Result<
    StorageHandle,
    StorageError,
> {
    if !pool.read_available(h.slot()) {
        Err(StorageError::LockUnavailable)
    } else if satisfies(pool.kind_of(h.slot()), target) {
        Ok(handle_of(h.slot() as usize, target, h.controller()))
    } else {
        Err(StorageError::InvalidCast { from: pool.kind_of(h.slot()), to: target })
    }
}

/// The root handle over the slot of `h`, keeping its controller.
pub open spec fn root_of(h: StorageHandle) -> StorageHandle {
    handle_of(h.slot() as usize, Capability::Root, h.controller())
}

/// Handle access is open unless a controller is attached whose view has not
/// been created.
pub open spec fn gate_open(pool: StoragePool, h: StorageHandle) -> bool {
    h.controller() matches Some(c) ==> pool.status_of(c.view_slot()) != InputStorageLockStatus::Unset
}

impl StorageHandle {
    pub closed spec fn slot(&self) -> int {
        self.storage as int
    }

    pub closed spec fn spec_capability(&self) -> Capability {
        self.capability
    }

    pub closed spec fn controller(&self) -> Option<ViewStorageController> {
        self.view_storage_controller
    }

    /// A root handle over the existing slot `storage`.
    pub fn new(storage: usize) -> (r: Self)
        ensures
            r == handle_of(storage, Capability::Root, None),
            r.slot() == storage,
            r.spec_capability() == Capability::Root,
            r.controller() is None,
    {
        StorageHandle { storage, capability: Capability::Root, view_storage_controller: None }
    }

    /// A root handle over the existing slot `storage`, holding a view, with a
    /// controller for that view.
    pub fn new_with_view_controller(storage: usize) -> (r: Self)
        ensures
            r == handle_of(storage, Capability::Root, Some(ViewStorageController::spec_new(storage))),
            r.slot() == storage,
            r.spec_capability() == Capability::Root,
            r.controller() matches Some(c) && c.view_slot() == storage,
    {
        StorageHandle {
            storage,
            capability: Capability::Root,
            view_storage_controller: Some(ViewStorageController::new(storage)),
        }
    }

    pub fn view_storage_controller(&self) -> (r: Option<ViewStorageController>)
        ensures
            r == self.controller(),
    {
        self.view_storage_controller
    }

    pub fn storage_id(&self) -> (r: usize)
        ensures
            r == self.slot(),
    {
        self.storage
    }

    pub fn capability(&self) -> (r: Capability)
        ensures
            r == self.spec_capability(),
    {
        self.capability
    }

    /// Whether the controller, if any, has a view created.
    fn gate(&self, pool: &StoragePool) -> (r: bool)
        requires
            self.controller() matches Some(c) ==> c.view_slot() < pool@.len(),
        ensures
            r == gate_open(*pool, *self),
    {
        match self.view_storage_controller {
            Some(c) => c.status(pool) != InputStorageLockStatus::Unset,
            None => true,
        }
    }

    /// Takes a shared lock on the storage, never waiting: refused with
    /// `ViewNotCreated` while the controller's view is not created, and with
    /// `LockUnavailable` while the storage is held exclusively.
    pub fn try_read(&self, pool: &mut StoragePool) -> (r: Result<StorageReadGuard, StorageError>)
        requires
            old(pool).wf(),
            self.slot() < old(pool)@.len(),
            self.controller() matches Some(c) ==> c.view_slot() < old(pool)@.len(),
        ensures
            final(pool).wf(),
            !gate_open(*old(pool), *self) ==> r == Err::<StorageReadGuard, StorageError>(
                StorageError::ViewNotCreated,
            ),
            r is Ok <==> gate_open(*old(pool), *self) && old(pool).can_read(self.slot())
                && old(pool)@[self.slot()].readers < usize::MAX,
            r is Ok ==> r->Ok_0.slot() == self.slot() && r->Ok_0.spec_capability()
                == self.spec_capability() && final(pool)@ == with_lock(
                old(pool)@,
                self.slot(),
                (old(pool)@[self.slot()].readers + 1) as usize,
                old(pool)@[self.slot()].writer,
            ),
            gate_open(*old(pool), *self) && r is Err ==> r == Err::<StorageReadGuard, StorageError>(
                StorageError::LockUnavailable,
            ),
            r is Err ==> final(pool)@ == old(pool)@,
    {
        if !self.gate(pool) {
            return Err(StorageError::ViewNotCreated);
        }
        match pool.try_lock_read(self.storage) {
            Ok(()) => Ok(StorageReadGuard::new(self.storage, self.capability)),
            Err(e) => Err(e),
        }
    }

    /// Takes an exclusive lock on the storage, never waiting: refused with
    /// `ViewNotCreated` while the controller's view is not created, and with
    /// `LockUnavailable` while anybody else holds the storage.
    pub fn try_write(&self, pool: &mut StoragePool) -> (r: Result<StorageWriteGuard, StorageError>)
        requires
            old(pool).wf(),
            self.slot() < old(pool)@.len(),
            self.controller() matches Some(c) ==> c.view_slot() < old(pool)@.len(),
        ensures
            final(pool).wf(),
            !gate_open(*old(pool), *self) ==> r == Err::<StorageWriteGuard, StorageError>(
                StorageError::ViewNotCreated,
            ),
            r is Ok <==> gate_open(*old(pool), *self) && old(pool).can_write(self.slot()),
            r is Ok ==> r->Ok_0.slot() == self.slot() && r->Ok_0.spec_capability()
                == self.spec_capability() && final(pool)@ == with_lock(
                old(pool)@,
                self.slot(),
                0,
                true,
            ),
            gate_open(*old(pool), *self) && r is Err ==> r == Err::<StorageWriteGuard, StorageError>(
                StorageError::LockUnavailable,
            ),
            r is Err ==> final(pool)@ == old(pool)@,
    {
        if !self.gate(pool) {
            return Err(StorageError::ViewNotCreated);
        }
        match pool.try_lock_write(self.storage) {
            Ok(()) => Ok(StorageWriteGuard::new(self.storage, self.capability)),
            Err(e) => Err(e),
        }
    }

    /// Casts to `target`, leaving the pool as it was: `LockUnavailable` while
    /// the storage is held exclusively; else the same slot and controller
    /// under `target` when the storage's concrete type satisfies it, and
    /// `InvalidCast` naming both otherwise.
    pub fn cast_to(self, pool: &StoragePool, target: Capability) -> (r: Result<StorageHandle, StorageError>)
        requires
            self.slot() < pool@.len(),
        ensures
            r == cast_outcome(*pool, self, target),
            !pool.read_available(self.slot()) ==> r == Err::<StorageHandle, StorageError>(
                StorageError::LockUnavailable,
            ),
            r is Ok <==> pool.read_available(self.slot()) && satisfies(
                pool.kind_of(self.slot()),
                target,
            ),
            r is Ok ==> r->Ok_0.slot() == self.slot() && r->Ok_0.spec_capability() == target
                && r->Ok_0.controller() == self.controller(),
    {
        if !pool.read_available_at(self.storage) {
            return Err(StorageError::LockUnavailable);
        }
        match check_cast(pool.kind(self.storage), target) {
            Ok(_) => Ok(
                StorageHandle {
                    storage: self.storage,
                    capability: target,
                    view_storage_controller: self.view_storage_controller,
                },
            ),
            Err(e) => Err(e),
        }
    }

    /// Casts to the concrete type `target`.
    pub fn cast_to_sized_storage(self, pool: &StoragePool, target: StorageKind) -> (r: Result<
        StorageHandle,
        StorageError,
    >)
        requires
            self.slot() < pool@.len(),
        ensures
            r == cast_outcome(*pool, self, Capability::Concrete(target)),
            r is Ok <==> pool.read_available(self.slot()) && satisfies(pool.kind_of(self.slot()), Capability::Concrete(target)),
            r is Ok ==> r->Ok_0.slot() == self.slot() && r->Ok_0.spec_capability() == Capability::Concrete(target)
                && r->Ok_0.controller() == self.controller(),
    {
        self.cast_to(pool, Capability::Concrete(target))
    }

    pub fn cast_to_key_storage(self, pool: &StoragePool) -> (r: Result<StorageHandle, StorageError>)
        requires
            self.slot() < pool@.len(),
        ensures
            r == cast_outcome(*pool, self, Capability::Key),
            r is Ok <==> pool.read_available(self.slot()) && satisfies(pool.kind_of(self.slot()), Capability::Key),
            r is Ok ==> r->Ok_0.slot() == self.slot() && r->Ok_0.spec_capability() == Capability::Key
                && r->Ok_0.controller() == self.controller(),
    {
        self.cast_to(pool, Capability::Key)
    }

    pub fn cast_to_getitem_storage(self, pool: &StoragePool) -> (r: Result<StorageHandle, StorageError>)
        requires
            self.slot() < pool@.len(),
        ensures
            r == cast_outcome(*pool, self, Capability::KeyItem),
            r is Ok <==> pool.read_available(self.slot()) && satisfies(pool.kind_of(self.slot()), Capability::KeyItem),
            r is Ok ==> r->Ok_0.slot() == self.slot() && r->Ok_0.spec_capability() == Capability::KeyItem
                && r->Ok_0.controller() == self.controller(),
    {
        self.cast_to(pool, Capability::KeyItem)
    }

    pub fn cast_to_mut_getitem_storage(self, pool: &StoragePool) -> (r: Result<StorageHandle, StorageError>)
        requires
            self.slot() < pool@.len(),
        ensures
            r == cast_outcome(*pool, self, Capability::MutKeyItem),
            r is Ok <==> pool.read_available(self.slot()) && satisfies(pool.kind_of(self.slot()), Capability::MutKeyItem),
            r is Ok ==> r->Ok_0.slot() == self.slot() && r->Ok_0.spec_capability() == Capability::MutKeyItem
                && r->Ok_0.controller() == self.controller(),
    {
        self.cast_to(pool, Capability::MutKeyItem)
    }

    pub fn cast_to_keyitemview_storage(self, pool: &StoragePool) -> (r: Result<StorageHandle, StorageError>)
        requires
            self.slot() < pool@.len(),
        ensures
            r == cast_outcome(*pool, self, Capability::ViewSetup),
            r is Ok <==> pool.read_available(self.slot()) && satisfies(pool.kind_of(self.slot()), Capability::ViewSetup),
            r is Ok ==> r->Ok_0.slot() == self.slot() && r->Ok_0.spec_capability() == Capability::ViewSetup
                && r->Ok_0.controller() == self.controller(),
    {
        self.cast_to(pool, Capability::ViewSetup)
    }

    pub fn cast_to_slice_storage(self, pool: &StoragePool) -> (r: Result<StorageHandle, StorageError>)
        requires
            self.slot() < pool@.len(),
        ensures
            r == cast_outcome(*pool, self, Capability::ItemSlice),
            r is Ok <==> pool.read_available(self.slot()) && satisfies(pool.kind_of(self.slot()), Capability::ItemSlice),
            r is Ok ==> r->Ok_0.slot() == self.slot() && r->Ok_0.spec_capability() == Capability::ItemSlice
                && r->Ok_0.controller() == self.controller(),
    {
        self.cast_to(pool, Capability::ItemSlice)
    }
}

/// A root handle over the slot of `storage_ptr`, with the same controller:
/// the root reference is never given up, so this always succeeds.
pub fn storage_ptr_into_base(storage_ptr: StorageHandle) -> (r: Result<StorageHandle, StorageError>)
    ensures
        r == Ok::<StorageHandle, StorageError>(root_of(storage_ptr)),
        r->Ok_0.slot() == storage_ptr.slot(),
        r->Ok_0.spec_capability() == Capability::Root,
        r->Ok_0.controller() == storage_ptr.controller(),
{
    Ok(
        StorageHandle {
            storage: storage_ptr.storage,
            capability: Capability::Root,
            view_storage_controller: storage_ptr.view_storage_controller,
        },
    )
}

/// Builds a handle over a new storage.
#[derive(Debug)]
pub struct StorageHandleBuilder {
    storage: AnyStorage,
    view_controller: bool,
}

impl StorageHandleBuilder {
    pub closed spec fn spec_storage(&self) -> AnyStorage {
        self.storage
    }

    pub closed spec fn spec_view_controller(&self) -> bool {
        self.view_controller
    }

    pub fn new(storage: AnyStorage) -> (r: Self)
        ensures
            r.spec_storage() == storage,
            !r.spec_view_controller(),
    {
        StorageHandleBuilder { storage, view_controller: false }
    }

    /// The handle will have a controller for the view it holds.
    pub fn add_view_controller(&mut self)
        ensures
            final(self).spec_storage() == old(self).spec_storage(),
            final(self).spec_view_controller(),
    {
        self.view_controller = true;
    }

    /// Puts the storage into a new slot of `pool` and returns a root handle
    /// over it.
    pub fn build(self, pool: &mut StoragePool) -> (r: StorageHandle)
        requires
            old(pool).wf(),
            fresh_storage(self.spec_storage()),
            old(pool)@.len() < usize::MAX,
        ensures
            final(pool).wf(),
            final(pool)@ == old(pool)@.push(
                Slot { storage: self.spec_storage(), readers: 0, writer: false },
            ),
            r == handle_of(
                old(pool)@.len() as usize,
                Capability::Root,
                if self.spec_view_controller() {
                    Some(ViewStorageController::spec_new(old(pool)@.len() as usize))
                } else {
                    None
                },
            ),
            r.slot() == old(pool)@.len(),
            final(pool).read_available(r.slot()),
            r.spec_capability() == Capability::Root,
            r.controller() is Some <==> self.spec_view_controller(),
            r.controller() matches Some(c) ==> c.view_slot() == old(pool)@.len(),
    {
        let view_controller = self.view_controller;
        let id = pool.add(self.storage);
        if view_controller {
            StorageHandle::new_with_view_controller(id)
        } else {
            StorageHandle::new(id)
        }
    }
}

/// Reverting a handle to the root capability and casting it back to the
/// concrete type of its storage succeeds whenever the storage is not held
/// exclusively (as after `build`), and gives a handle to the same slot: the
/// same data, untouched, since a cast only reads the pool.
pub proof fn lemma_round_trip(pool: StoragePool, h: StorageHandle, value: AnyStorage)
    requires
        h.slot() < pool@.len(),
        pool@[h.slot()].storage == value,
        pool.read_available(h.slot()),
    ensures
        root_of(h).slot() == h.slot(),
        root_of(h).controller() == h.controller(),
        cast_outcome(pool, root_of(h), Capability::Concrete(value.kind())) matches Ok(c) && c.slot()
            == h.slot() && c.spec_capability() == Capability::Concrete(value.kind())
            && pool@[c.slot()].storage == value,
{
}

/// A cast to a capability or concrete type that the storage does not satisfy
/// always fails: with `InvalidCast` naming both, or with `LockUnavailable`
/// while the storage is held exclusively.
pub proof fn lemma_cast_refused(pool: StoragePool, h: StorageHandle, target: Capability)
    requires
        h.slot() < pool@.len(),
        !satisfies(pool.kind_of(h.slot()), target),
    ensures
        cast_outcome(pool, h, target) is Err,
        pool.read_available(h.slot()) ==> cast_outcome(pool, h, target) == Err::<
            StorageHandle,
            StorageError,
        >(StorageError::InvalidCast { from: pool.kind_of(h.slot()), to: target }),
{
}

/// A builder over `storage`.
pub fn builder(storage: AnyStorage) -> (r: StorageHandleBuilder)
    ensures
        r.spec_storage() == storage,
        !r.spec_view_controller(),
{
    StorageHandleBuilder::new(storage)
}

} // verus!
