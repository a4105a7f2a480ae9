//! The closed family of concrete backends as one tagged union, with the
//! runtime identity of each concrete type.
use vstd::prelude::*;

use crate::hashmap_storage::HashMapStorage;
use crate::sparse_storage::{sparse_inserted, SparseSetVecStorage};
use crate::storage_traits::{
    ClearableStorage, ItemSliceStorage, KeyItemStorage, KeyStorage, MutItemSliceStorage,
    MutKeyItemStorage, Storage,
};
use crate::val_storage::ValStorage;
use crate::vec_storage::{dense_insert, VecStorage};
use crate::view_storage::KeyItemViewStorage;

verus! {

/// The backends that hold their own items.
#[derive(Clone, Copy, Debug, PartialEq, Eq, Structural)]
pub enum BackendKind {
    Vec,
    SparseSet,
    HashMap,
    Val,
}

/// The concrete type of a storage: a backend, or a filtering view whose input
/// is a backend of the given kind.
#[derive(Clone, Copy, Debug, PartialEq, Eq, Structural)]
pub enum StorageKind {
    Backend(BackendKind),
    View(BackendKind),
}

/// One storage of any concrete type.
#[derive(Debug)]
pub enum AnyStorage {
    Vec(VecStorage),
    SparseSet(SparseSetVecStorage),
    HashMap(HashMapStorage),
    Val(ValStorage),
    View(KeyItemViewStorage),
}

/// Backends whose items can be written by key.
pub open spec fn mutable_backend(b: BackendKind) -> bool {
    b != BackendKind::Val
}

/// Backends whose items lie contiguously.
pub open spec fn contiguous_backend(b: BackendKind) -> bool {
    b != BackendKind::HashMap
}

/// `after` is the writable backend `before` after `insert(key, item)`, by the
/// backend's own rule.
pub open spec fn inserted(before: AnyStorage, after: AnyStorage, key: usize, item: i32) -> bool {
    match (before, after) {
        (AnyStorage::Vec(v), AnyStorage::Vec(v2)) => v2@ == dense_insert(v@, key as nat, item),
        (AnyStorage::SparseSet(v), AnyStorage::SparseSet(v2)) => sparse_inserted(v@, v2@, key, item),
        (AnyStorage::HashMap(v), AnyStorage::HashMap(v2)) => v2@ == v@.insert(key, item),
        _ => false,
    }
}

impl AnyStorage {
    pub open spec fn kind(&self) -> StorageKind {
        match self {
            AnyStorage::Vec(_) => StorageKind::Backend(BackendKind::Vec),
            AnyStorage::SparseSet(_) => StorageKind::Backend(BackendKind::SparseSet),
            AnyStorage::HashMap(_) => StorageKind::Backend(BackendKind::HashMap),
            AnyStorage::Val(_) => StorageKind::Backend(BackendKind::Val),
            AnyStorage::View(v) => StorageKind::View(v.input_kind()),
        }
    }

    pub open spec fn is_backend(&self) -> bool {
        self.kind() is Backend
    }

    pub open spec fn spec_len(&self) -> nat {
        match self {
            AnyStorage::Vec(s) => s.spec_len(),
            AnyStorage::SparseSet(s) => s.spec_len(),
            AnyStorage::HashMap(s) => s.spec_len(),
            AnyStorage::Val(s) => s.spec_len(),
            AnyStorage::View(v) => v.spec_len(),
        }
    }

    /// The keys of a backend.
    pub open spec fn key_set(&self) -> Set<usize> {
        match self {
            AnyStorage::Vec(s) => s.spec_keys(),
            AnyStorage::SparseSet(s) => s.spec_keys(),
            AnyStorage::HashMap(s) => s.spec_keys(),
            AnyStorage::Val(s) => s.spec_keys(),
            AnyStorage::View(_) => Set::empty(),
        }
    }

    /// The item of a backend under `key`, if it has that key.
    pub open spec fn lookup(&self, key: usize) -> Option<i32> {
        match self {
            AnyStorage::Vec(s) => if s.spec_keys().contains(key) {
                Some(s.spec_item(key))
            } else {
                None
            },
            AnyStorage::SparseSet(s) => if s.spec_keys().contains(key) {
                Some(s.spec_item(key))
            } else {
                None
            },
            AnyStorage::HashMap(s) => if s.spec_keys().contains(key) {
                Some(s.spec_item(key))
            } else {
                None
            },
            AnyStorage::Val(s) => if s.spec_keys().contains(key) {
                Some(s.spec_item(key))
            } else {
                None
            },
            AnyStorage::View(_) => None,
        }
    }

    /// The contiguous items of a backend that has them.
    pub open spec fn slice_items(&self) -> Seq<i32> {
        match self {
            AnyStorage::Vec(s) => s.spec_items(),
            AnyStorage::SparseSet(s) => s.spec_items(),
            AnyStorage::Val(s) => s.spec_items(),
            _ => Seq::empty(),
        }
    }

    /// Whether `insert(key, _)` is within the limits of a writable backend.
    pub open spec fn can_insert(&self, key: usize) -> bool {
        match self {
            AnyStorage::Vec(s) => s.spec_can_insert(key),
            AnyStorage::SparseSet(s) => s.spec_can_insert(key),
            AnyStorage::HashMap(s) => s.spec_can_insert(key),
            _ => false,
        }
    }

    pub fn storage_kind(&self) -> (r: StorageKind)
        ensures
            r == self.kind(),
    {
        match self {
            AnyStorage::Vec(_) => StorageKind::Backend(BackendKind::Vec),
            AnyStorage::SparseSet(_) => StorageKind::Backend(BackendKind::SparseSet),
            AnyStorage::HashMap(_) => StorageKind::Backend(BackendKind::HashMap),
            AnyStorage::Val(_) => StorageKind::Backend(BackendKind::Val),
            AnyStorage::View(v) => StorageKind::View(v.get_input_kind()),
        }
    }

    pub fn len(&self) -> (r: usize)
        ensures
            r as nat == self.spec_len(),
    {
        match self {
            AnyStorage::Vec(s) => s.len(),
            AnyStorage::SparseSet(s) => s.len(),
            AnyStorage::HashMap(s) => s.len(),
            AnyStorage::Val(s) => s.len(),
            AnyStorage::View(v) => v.len(),
        }
    }

    pub fn contains(&self, key: usize) -> (r: bool)
        requires
            self.is_backend(),
        ensures
            r == self.key_set().contains(key),
    {
        match self {
            AnyStorage::Vec(s) => s.contains(key),
            AnyStorage::SparseSet(s) => s.contains(key),
            AnyStorage::HashMap(s) => s.contains(key),
            AnyStorage::Val(s) => s.contains(key),
            AnyStorage::View(_) => false,
        }
    }

    pub fn get(&self, key: usize) -> (r: Option<i32>)
        requires
            self.is_backend(),
        ensures
            r == self.lookup(key),
    {
        match self {
            AnyStorage::Vec(s) => s.get(key),
            AnyStorage::SparseSet(s) => s.get(key),
            AnyStorage::HashMap(s) => s.get(key),
            AnyStorage::Val(s) => s.get(key),
            AnyStorage::View(_) => None,
        }
    }

    /// Every key of a backend once.
    pub fn keys(&self) -> (r: Vec<usize>)
        requires
            self.is_backend(),
        ensures
            r@.to_set() == self.key_set(),
            r@.no_duplicates(),
    {
        match self {
            AnyStorage::Vec(s) => s.keys(),
            AnyStorage::SparseSet(s) => s.keys(),
            AnyStorage::HashMap(s) => s.keys(),
            AnyStorage::Val(s) => s.keys(),
            AnyStorage::View(_) => Vec::new(),
        }
    }

    /// Every `(key, item)` pair of a backend once.
    pub fn key_items(&self) -> (r: Vec<(usize, i32)>)
        requires
            self.is_backend(),
        ensures
            forall|i: int|
                0 <= i < r@.len() ==> self.lookup(#[trigger] r@[i].0) == Some(r@[i].1),
            forall|k: usize| #[trigger]
                self.lookup(k) is Some ==> exists|i: int| 0 <= i < r@.len() && r@[i].0 == k,
            forall|i: int, j: int| 0 <= i < j < r@.len() ==> r@[i].0 != r@[j].0,
            self matches AnyStorage::Vec(v) ==> r@ == Seq::new(v@.len(), |i: int| (i as usize, v@[i])),
            self matches AnyStorage::SparseSet(v) ==> r@ == v@,
            self matches AnyStorage::Val(v) ==> r@ == seq![(0usize, v.data)],
    {
        match self {
            AnyStorage::Vec(s) => s.key_items(),
            AnyStorage::SparseSet(s) => s.key_items(),
            AnyStorage::HashMap(s) => s.key_items(),
            AnyStorage::Val(s) => s.key_items(),
            AnyStorage::View(_) => Vec::new(),
        }
    }

    pub fn as_item_slice(&self) -> (r: &[i32])
        requires
            self.kind() matches StorageKind::Backend(b) && contiguous_backend(b),
        ensures
            r@ == self.slice_items(),
    {
        match self {
            AnyStorage::Vec(s) => s.as_item_slice(),
            AnyStorage::SparseSet(s) => s.as_item_slice(),
            AnyStorage::Val(s) => s.as_item_slice(),
            AnyStorage::HashMap(_) => &[],
            AnyStorage::View(_) => &[],
        }
    }

    /// The contiguous items of a backend that has them, to be written in place.
    pub fn as_mut_slice(&mut self) -> (r: &mut [i32])
        requires
            old(self).kind() matches StorageKind::Backend(b) && contiguous_backend(b),
        ensures
            r@ == old(self).slice_items(),
            final(self).kind() == old(self).kind(),
            final(self).slice_items() == final(r)@,
    {
        match self {
            AnyStorage::Vec(s) => s.as_mut_slice(),
            AnyStorage::SparseSet(s) => s.as_mut_slice(),
            AnyStorage::Val(s) => s.as_mut_slice(),
            AnyStorage::HashMap(_) => &mut [],
            AnyStorage::View(_) => &mut [],
        }
    }

    /// Stores `item` under `key` in a writable backend.
    pub fn insert(&mut self, key: usize, item: i32)
        requires
            old(self).kind() matches StorageKind::Backend(b) && mutable_backend(b),
            old(self).can_insert(key),
        ensures
            final(self).kind() == old(self).kind(),
            final(self).lookup(key) == Some(item),
            inserted(*old(self), *final(self), key, item),
    {
        match self {
            AnyStorage::Vec(s) => s.insert(key, item),
            AnyStorage::SparseSet(s) => s.insert(key, item),
            AnyStorage::HashMap(s) => s.insert(key, item),
            AnyStorage::Val(_) => {},
            AnyStorage::View(_) => {},
        }
    }

    /// Overwrites the item under `key` in a writable backend, if it has that
    /// key, and returns the old item.
    pub fn replace(&mut self, key: usize, item: i32) -> (r: Option<i32>)
        requires
            old(self).kind() matches StorageKind::Backend(b) && mutable_backend(b),
        ensures
            final(self).kind() == old(self).kind(),
            r == old(self).lookup(key),
            forall|k: usize| #[trigger]
                final(self).lookup(k) == (if k == key && old(self).lookup(k) is Some {
                    Some(item)
                } else {
                    old(self).lookup(k)
                }),
    {
        match self {
            AnyStorage::Vec(s) => s.replace(key, item),
            AnyStorage::SparseSet(s) => s.replace(key, item),
            AnyStorage::HashMap(s) => s.replace(key, item),
            AnyStorage::Val(_) => None,
            AnyStorage::View(_) => None,
        }
    }

    /// Removes every item of a writable backend.
    pub fn clear(&mut self)
        requires
            old(self).kind() matches StorageKind::Backend(b) && mutable_backend(b),
        ensures
            final(self).kind() == old(self).kind(),
            final(self).spec_len() == 0,
    {
        match self {
            AnyStorage::Vec(s) => s.clear(),
            AnyStorage::SparseSet(s) => s.clear(),
            AnyStorage::HashMap(s) => s.clear(),
            AnyStorage::Val(_) => {},
            AnyStorage::View(_) => {},
        }
    }
}

} // verus!
