use flex_storage::any_storage::{AnyStorage, BackendKind, StorageKind};
use flex_storage::casting::{cast_candidates, check_cast, find_candidate, Capability};
use flex_storage::handle::builder;
use flex_storage::storage_pool::StoragePool;
use flex_storage::sparse_storage::SparseSetVecStorage;
use flex_storage::storage_traits::{ItemSliceStorage, KeyItemStorage, MutKeyItemStorage, Storage};
use flex_storage::vec_storage::VecStorage;
use flex_storage::StorageError;

const VEC: StorageKind = StorageKind::Backend(BackendKind::Vec);

#[test]
fn simple_downcast_to_sized() {
    let mut vec_storage = VecStorage::new_from_iter(vec![1, 2, 3]);
    vec_storage.set(0, 0);
    assert_eq!(vec_storage.get(0), Some(0));

    let mut pool = StoragePool::new();
    let handle = builder(AnyStorage::Vec(vec_storage)).build(&mut pool);
    let handle = handle
        .cast_to_sized_storage(&pool, VEC)
        .map_err(|_| "Cast error")
        .unwrap();
    let guard = handle.try_read(&mut pool).unwrap();
    assert_eq!(pool.len_of(&guard), 3);
}

#[test]
fn dyn_storage_into_sized_test() {
    let vec_storage = VecStorage::new_from_iter(vec![1, 2, 3]);
    let mut pool = StoragePool::new();
    let handle = builder(AnyStorage::Vec(vec_storage)).build(&mut pool);

    let handle = handle.cast_to_sized_storage(&pool, VEC).unwrap();
    let guard = handle.try_read(&mut pool).unwrap();
    assert_eq!(pool.len_of(&guard), 3);
}

#[test]
fn cast_to_dyn_itemslice_test() {
    let vec_storage = VecStorage::new_from_iter(vec![1, 2, 3]);
    let mut pool = StoragePool::new();
    let handle = builder(AnyStorage::Vec(vec_storage)).build(&mut pool);

    let slice_handle = handle.cast_to_slice_storage(&pool).unwrap();
    let guard = slice_handle.try_read(&mut pool).unwrap();
    assert_eq!(pool.as_item_slice(&guard).len(), 3);
}

#[test]
fn cast_to_dyn_getkeyitem_test() {
    let vec_storage = VecStorage::new_from_iter(vec![1, 2, 3]);
    let mut pool = StoragePool::new();
    let handle = builder(AnyStorage::Vec(vec_storage)).build(&mut pool);

    let key_item_handle = handle.cast_to_getitem_storage(&pool).unwrap();
    let guard = key_item_handle.try_read(&mut pool).unwrap();
    assert_eq!(pool.get(&guard, 0).unwrap(), 1);
}

#[test]
fn candidate_lists_keep_their_order() {
    assert_eq!(
        cast_candidates(Capability::ItemSlice),
        vec![
            StorageKind::Backend(BackendKind::Vec),
            StorageKind::Backend(BackendKind::SparseSet),
            StorageKind::Backend(BackendKind::Val),
        ]
    );
    assert_eq!(
        cast_candidates(Capability::ViewSetup),
        vec![
            StorageKind::View(BackendKind::Vec),
            StorageKind::View(BackendKind::SparseSet),
            StorageKind::View(BackendKind::HashMap),
            StorageKind::View(BackendKind::Val),
        ]
    );
    assert_eq!(cast_candidates(Capability::Root).len(), 8);
    assert_eq!(cast_candidates(Capability::MutKeyItem).len(), 6);
    assert_eq!(cast_candidates(Capability::Concrete(VEC)), vec![VEC]);
}

#[test]
fn find_candidate_gives_the_first_match() {
    assert_eq!(
        find_candidate(StorageKind::Backend(BackendKind::Val), Capability::ItemSlice),
        Some(2)
    );
    assert_eq!(
        find_candidate(StorageKind::View(BackendKind::HashMap), Capability::MutKeyItem),
        Some(5)
    );
    assert_eq!(
        find_candidate(StorageKind::Backend(BackendKind::HashMap), Capability::ItemSlice),
        None
    );
}

#[test]
fn check_cast_accepts_exactly_the_satisfied_capabilities() {
    let hash = StorageKind::Backend(BackendKind::HashMap);
    assert_eq!(check_cast(hash, Capability::KeyItem), Ok(hash));
    assert_eq!(check_cast(hash, Capability::MutKeyItem), Ok(hash));
    assert_eq!(check_cast(hash, Capability::ItemSlice), Err(StorageError::InvalidCast { from: hash, to: Capability::ItemSlice }));
    assert_eq!(check_cast(hash, Capability::ViewSetup), Err(StorageError::InvalidCast { from: hash, to: Capability::ViewSetup }));
    let val = StorageKind::Backend(BackendKind::Val);
    assert_eq!(check_cast(val, Capability::MutKeyItem), Err(StorageError::InvalidCast { from: val, to: Capability::MutKeyItem }));
    assert_eq!(check_cast(val, Capability::MutItemSlice), Ok(val));
    assert_eq!(check_cast(val, Capability::Concrete(VEC)), Err(StorageError::InvalidCast { from: val, to: Capability::Concrete(VEC) }));
    let view = StorageKind::View(BackendKind::Val);
    assert_eq!(check_cast(view, Capability::ViewSetup), Ok(view));
    assert_eq!(check_cast(view, Capability::MutKeyItem), Err(StorageError::InvalidCast { from: view, to: Capability::MutKeyItem }));
    assert_eq!(check_cast(view, Capability::ItemSlice), Err(StorageError::InvalidCast { from: view, to: Capability::ItemSlice }));
}

#[test]
fn vec_storage_len_through_trait() {
    let s = VecStorage::new_from_iter(vec![4, 5]);
    assert_eq!(s.len(), 2);
    assert!(!s.is_empty());
    assert!(VecStorage::new().is_empty());
}

#[test]
fn concrete_to_dyn_trait_implicit_coercions_test() {
    let vec_storage = VecStorage::new_from_iter(vec![1, 2, 3]);

    let mut sparse_storage = SparseSetVecStorage::new();
    sparse_storage.insert(0, 0);
    sparse_storage.insert(1, 1);
    sparse_storage.insert(2, 2);

    assert_eq!(vec_storage.as_item_slice().len(), 3);

    let mut pool = StoragePool::new();
    let vec_handle = builder(AnyStorage::Vec(vec_storage)).build(&mut pool);
    let sparse_handle = builder(AnyStorage::SparseSet(sparse_storage)).build(&mut pool);

    for handle in [vec_handle, sparse_handle] {
        let slice_handle = handle.cast_to_slice_storage(&pool).unwrap();
        let guard = slice_handle.try_read(&mut pool).unwrap();
        assert_eq!(pool.len_of(&guard), 3);
        assert_eq!(pool.as_item_slice(&guard).len(), 3);
        pool.release_read(guard);
    }
}
