use flex_storage::any_storage::{AnyStorage, BackendKind, StorageKind};
use flex_storage::casting::Capability;
use flex_storage::handle::{builder, storage_ptr_into_base, StorageHandle};
use flex_storage::hashmap_storage::HashMapStorage;
use flex_storage::sparse_storage::SparseSetVecStorage;
use flex_storage::storage_pool::StoragePool;
use flex_storage::storage_traits::MutKeyItemStorage;
use flex_storage::val_storage::ValStorage;
use flex_storage::vec_storage::VecStorage;
use flex_storage::StorageError;

const VEC: StorageKind = StorageKind::Backend(BackendKind::Vec);

#[test]
fn cast_to_sized_storage_test() {
    let storage = VecStorage::new_from_iter(vec![1, 2, 3]);
    let mut pool = StoragePool::new();
    let storage_ptr = builder(AnyStorage::Vec(storage)).build(&mut pool);

    let storage_ptr_concrete = storage_ptr.cast_to_sized_storage(&pool, VEC).unwrap();
    let guard = storage_ptr_concrete.try_read(&mut pool).unwrap();

    let mut sum: i32 = 0;
    for i in pool.as_item_slice(&guard) {
        sum += i;
    }
    assert_eq!(sum, 6);
}

#[test]
fn cast_to_itemslice_storage_test() {
    let storage = VecStorage::new_from_iter(vec![1, 2, 3]);
    let mut pool = StoragePool::new();
    let id = pool.add(AnyStorage::Vec(storage));

    let storage_ptr = StorageHandle::new(id);
    let storage_ptr = storage_ptr.cast_to_slice_storage(&pool).unwrap();
    let guard = storage_ptr.try_read(&mut pool).unwrap();

    let mut sum: i32 = 0;
    for i in pool.as_item_slice(&guard) {
        sum += i;
    }
    assert_eq!(sum, 6);
}

#[test]
fn cast_journey() {
    let storage = VecStorage::new_from_iter(vec![1, 2, 3]);
    let mut pool = StoragePool::new();
    let storage_handle = builder(AnyStorage::Vec(storage)).build(&mut pool);

    let slice_handle = storage_handle.cast_to_slice_storage(&pool).unwrap();
    {
        let guard = slice_handle.try_read(&mut pool).unwrap();
        let slice: &[i32] = pool.as_item_slice(&guard);
        assert_eq!(slice[0], 1);
        assert_eq!(slice[1], 2);
        assert_eq!(slice, &[1, 2, 3]);
        pool.release_read(guard);
    }

    let key_item_handle = slice_handle.cast_to_getitem_storage(&pool).unwrap();
    {
        let guard = key_item_handle.try_read(&mut pool).unwrap();
        assert_eq!(pool.get(&guard, 0).unwrap(), 1);
        assert_eq!(pool.get(&guard, 1).unwrap(), 2);
        pool.release_read(guard);
    }

    {
        let storage_ptr = key_item_handle.cast_to_sized_storage(&pool, VEC).unwrap();
        let guard = storage_ptr.try_read(&mut pool).unwrap();
        let mut sum: i32 = 0;
        for i in pool.as_item_slice(&guard) {
            sum += i;
        }
        assert_eq!(sum, 6);
    }
}

#[test]
fn into_base_storage_test() {
    let storage = VecStorage::new_from_iter(vec![1, 2, 3]);
    let mut pool = StoragePool::new();
    let id = pool.add(AnyStorage::Vec(storage));
    let storage_ptr = StorageHandle::new(id);

    let storage_ptr = storage_ptr.cast_to_getitem_storage(&pool).unwrap();
    let _ = storage_ptr_into_base(storage_ptr);
}

#[test]
fn test_storage_downcast() {
    let mut pool = StoragePool::new();
    let handle = builder(AnyStorage::Vec(VecStorage::new())).build(&mut pool);
    let concrete = handle.cast_to_sized_storage(&pool, VEC).unwrap();
    let guard = concrete.try_read(&mut pool).unwrap();
    assert!(pool.key_items(&guard).is_empty());
}

#[test]
fn test_downcast_to_iter_storage() {
    let mut pool = StoragePool::new();
    let handle = builder(AnyStorage::Vec(VecStorage::new_from_iter(vec![1, 2, 3]))).build(&mut pool);
    let key_item = handle.cast_to_getitem_storage(&pool).unwrap();
    let guard = key_item.try_read(&mut pool).unwrap();
    assert_eq!(pool.key_items(&guard), vec![(0, 1), (1, 2), (2, 3)]);
}

#[test]
fn round_trip_for_every_backend() {
    let mut sparse = SparseSetVecStorage::new();
    sparse.insert(7, 70);
    let mut map = HashMapStorage::new();
    map.insert(9, 90);
    let values = vec![
        (AnyStorage::Vec(VecStorage::new_from_iter(vec![5, 6])), StorageKind::Backend(BackendKind::Vec)),
        (AnyStorage::SparseSet(sparse), StorageKind::Backend(BackendKind::SparseSet)),
        (AnyStorage::HashMap(map), StorageKind::Backend(BackendKind::HashMap)),
        (AnyStorage::Val(ValStorage::new(4)), StorageKind::Backend(BackendKind::Val)),
    ];
    let mut pool = StoragePool::new();
    for (value, kind) in values {
        let handle = builder(value).build(&mut pool);
        let root = storage_ptr_into_base(handle).unwrap();
        assert_eq!(root.capability(), Capability::Root);
        let back = root.cast_to_sized_storage(&pool, kind).unwrap();
        assert_eq!(back.storage_id(), handle.storage_id());
        assert_eq!(back.capability(), Capability::Concrete(kind));
    }
    let first = StorageHandle::new(0);
    let guard = first.try_read(&mut pool).unwrap();
    assert_eq!(pool.key_items(&guard), vec![(0, 5), (1, 6)]);
}

#[test]
fn failed_cast_leaves_the_data_alone() {
    let mut map = HashMapStorage::new();
    map.insert(3, 30);
    let mut pool = StoragePool::new();
    let handle = builder(AnyStorage::HashMap(map)).build(&mut pool);
    let hash = StorageKind::Backend(BackendKind::HashMap);
    assert_eq!(
        handle.cast_to_slice_storage(&pool),
        Err(StorageError::InvalidCast { from: hash, to: Capability::ItemSlice })
    );
    assert_eq!(
        handle.cast_to_sized_storage(&pool, VEC),
        Err(StorageError::InvalidCast { from: hash, to: Capability::Concrete(VEC) })
    );
    assert_eq!(
        handle.cast_to_keyitemview_storage(&pool),
        Err(StorageError::InvalidCast { from: hash, to: Capability::ViewSetup })
    );
    let w = handle.try_write(&mut pool).unwrap();
    assert_eq!(handle.cast_to_getitem_storage(&pool), Err(StorageError::LockUnavailable));
    assert_eq!(handle.cast_to_slice_storage(&pool), Err(StorageError::LockUnavailable));
    pool.release_write(w);
    let guard = handle.try_read(&mut pool).unwrap();
    assert_eq!(pool.get(&guard, 3), Some(30));
    assert_eq!(pool.len_of(&guard), 1);
}

#[test]
fn cast_keeps_slot_and_controller() {
    let mut pool = StoragePool::new();
    let handle = builder(AnyStorage::Val(ValStorage::new(8))).build(&mut pool);
    let key = handle.cast_to_key_storage(&pool).unwrap();
    assert_eq!(key.storage_id(), handle.storage_id());
    assert_eq!(key.capability(), Capability::Key);
    assert_eq!(key.view_storage_controller(), None);
    assert_eq!(
        handle.cast_to_mut_getitem_storage(&pool),
        Err(StorageError::InvalidCast {
            from: StorageKind::Backend(BackendKind::Val),
            to: Capability::MutKeyItem,
        })
    );
}

#[test]
fn locks_are_tried_never_awaited() {
    let mut pool = StoragePool::new();
    let handle = builder(AnyStorage::Vec(VecStorage::new_from_iter(vec![1]))).build(&mut pool);
    let r1 = handle.try_read(&mut pool).unwrap();
    let r2 = handle.try_read(&mut pool).unwrap();
    assert_eq!(handle.try_write(&mut pool).err(), Some(StorageError::LockUnavailable));
    pool.release_read(r1);
    assert_eq!(handle.try_write(&mut pool).err(), Some(StorageError::LockUnavailable));
    pool.release_read(r2);
    let w = handle.try_write(&mut pool).unwrap();
    assert_eq!(handle.try_read(&mut pool).err(), Some(StorageError::LockUnavailable));
    pool.release_write(w);
    assert!(handle.try_read(&mut pool).is_ok());
}

#[test]
fn writes_through_a_handle() {
    let mut pool = StoragePool::new();
    let handle = builder(AnyStorage::Vec(VecStorage::new_from_iter(vec![1, 2]))).build(&mut pool);
    let mutable = handle.cast_to_mut_getitem_storage(&pool).unwrap();
    let w = mutable.try_write(&mut pool).unwrap();
    pool.insert(&w, 4, 9);
    assert_eq!(pool.replace(&w, 0, 7), Some(1));
    assert_eq!(pool.replace(&w, 40, 7), None);
    assert_eq!(pool.get_exclusive(&w, 4), Some(9));
    pool.release_write(w);
    let r = handle.try_read(&mut pool).unwrap();
    assert_eq!(pool.key_items(&r), vec![(0, 7), (1, 2), (2, 0), (3, 0), (4, 9)]);
    assert!(pool.contains(&r, 3));
    assert!(!pool.contains(&r, 5));
    pool.release_read(r);
    let w = mutable.try_write(&mut pool).unwrap();
    pool.clear(&w);
    pool.release_write(w);
    let r = handle.try_read(&mut pool).unwrap();
    assert_eq!(pool.len_of(&r), 0);
}

#[test]
fn slices_written_in_place_through_a_handle() {
    let mut sparse = SparseSetVecStorage::new();
    sparse.insert(4, 1);
    sparse.insert(2, 2);
    let mut pool = StoragePool::new();
    let handle = builder(AnyStorage::SparseSet(sparse)).build(&mut pool);
    let slice_handle = handle.cast_to(&pool, Capability::MutItemSlice).unwrap();
    let w = slice_handle.try_write(&mut pool).unwrap();
    pool.as_mut_item_slice(&w)[1] = 5;
    pool.release_write(w);
    let r = handle.try_read(&mut pool).unwrap();
    assert_eq!(pool.key_items(&r), vec![(4, 1), (2, 5)]);
    assert_eq!(pool.get(&r, 2), Some(5));
}

#[test]
fn root_handle_keeps_the_view_gate() {
    let mut pool = StoragePool::new();
    let mut b = flex_storage::handle::StorageHandleBuilder::new(AnyStorage::View(
        flex_storage::view_storage::KeyItemViewStorage::new(BackendKind::Vec),
    ));
    b.add_view_controller();
    let view = b.build(&mut pool);
    let key_item = view.cast_to_getitem_storage(&pool).unwrap();
    let root = storage_ptr_into_base(key_item).unwrap();
    assert_eq!(root.view_storage_controller(), view.view_storage_controller());
    assert_eq!(root.try_read(&mut pool).err(), Some(StorageError::ViewNotCreated));
    assert_eq!(root.try_write(&mut pool).err(), Some(StorageError::ViewNotCreated));
}
