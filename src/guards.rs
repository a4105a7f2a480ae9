//! Guards: the proof that a shared or an exclusive lock on a storage slot was
//! taken. A guard is given back to the pool to release its lock.
use vstd::prelude::*;

use crate::casting::Capability;

verus! {

/// A shared lock on the storage in slot `slot()`, used under `capability()`.
#[derive(Debug)]
pub struct StorageReadGuard {
    storage: usize,
    capability: Capability,
}

/// An exclusive lock on the storage in slot `slot()`, used under `capability()`.
#[derive(Debug)]
pub struct StorageWriteGuard {
    storage: usize,
    capability: Capability,
}

impl StorageReadGuard {
    pub closed spec fn slot(&self) -> int {
        self.storage as int
    }

    pub closed spec fn spec_capability(&self) -> Capability {
        self.capability
    }

    pub(crate) fn new(storage: usize, capability: Capability) -> (r: Self)
        ensures
            r.slot() == storage,
            r.spec_capability() == capability,
    {
        StorageReadGuard { storage, capability }
    }

    pub fn storage_id(&self) -> (r: usize)
        ensures
            r == self.slot(),
    {
        self.storage
    }

    pub fn capability(&self) -> (r: Capability)
        ensures
            r == self.spec_capability(),
    {
        self.capability
    }
}

impl StorageWriteGuard {
    pub closed spec fn slot(&self) -> int {
        self.storage as int
    }

    pub closed spec fn spec_capability(&self) -> Capability {
        self.capability
    }

    pub(crate) fn new(storage: usize, capability: Capability) -> (r: Self)
        ensures
            r.slot() == storage,
            r.spec_capability() == capability,
    {
        StorageWriteGuard { storage, capability }
    }

    pub fn storage_id(&self) -> (r: usize)
        ensures
            r == self.slot(),
    {
        self.storage
    }

    pub fn capability(&self) -> (r: Capability)
        ensures
            r == self.spec_capability(),
    {
        self.capability
    }
}

} // verus!
