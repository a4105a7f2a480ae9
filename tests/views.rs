use flex_storage::any_storage::{AnyStorage, BackendKind, StorageKind};
use flex_storage::casting::Capability;
use flex_storage::handle::{builder, StorageHandle, StorageHandleBuilder};
use flex_storage::keys_to_items_iter::KeysToItemsIter;
use flex_storage::sparse_storage::SparseSetVecStorage;
use flex_storage::storage_pool::StoragePool;
use flex_storage::storage_traits::{MutKeyItemStorage, ViewStorageSetup};
use flex_storage::val_storage::ValStorage;
use flex_storage::vec_storage::VecStorage;
use flex_storage::view_storage::{InputLockState, KeyItemViewStorage};
use flex_storage::view_storage_controller::{InputStorageLockStatus, ViewStorageController};
use flex_storage::StorageError;

fn view_handle(pool: &mut StoragePool, input_kind: BackendKind) -> StorageHandle {
    let mut b = StorageHandleBuilder::new(AnyStorage::View(KeyItemViewStorage::new(input_kind)));
    b.add_view_controller();
    b.build(pool)
}

#[test]
fn view_vec_storage_test() {
    let mut storage = VecStorage::new();
    storage.insert_and_shift(0, 0);
    storage.insert_and_shift(1, 1);
    storage.insert_and_shift(2, 2);
    storage.insert_and_shift(3, 3);

    let mut pool = StoragePool::new();
    let input = builder(AnyStorage::Vec(storage)).build(&mut pool);
    let view = view_handle(&mut pool, BackendKind::Vec);
    let controller = view.view_storage_controller().unwrap();

    controller.set_input(&mut pool, input).unwrap();
    controller.create_read_view(&mut pool, vec![2, 0, 1]).unwrap();

    let guard = view.try_read(&mut pool).unwrap();
    assert_eq!(pool.key_items(&guard), vec![(0, 2), (1, 0), (2, 1)]);
    assert_eq!(pool.get(&guard, 0).unwrap(), 2);
    assert_eq!(pool.get(&guard, 1).unwrap(), 0);
    assert_eq!(pool.get(&guard, 2).unwrap(), 1);
}

#[test]
fn view_sparse_storage_test() {
    let mut storage = SparseSetVecStorage::new();
    storage.insert(0, 0);
    storage.insert(1, 1);
    storage.insert(2, 2);
    storage.insert(3, 3);

    let mut pool = StoragePool::new();
    let input = builder(AnyStorage::SparseSet(storage)).build(&mut pool);
    let view = view_handle(&mut pool, BackendKind::SparseSet);
    let controller = view.view_storage_controller().unwrap();

    controller.set_input(&mut pool, input).unwrap();
    controller.create_read_view(&mut pool, vec![2, 0, 1]).unwrap();

    let guard = view.try_read(&mut pool).unwrap();
    assert_eq!(pool.key_items(&guard), vec![(0, 2), (1, 0), (2, 1)]);
    assert_eq!(pool.get(&guard, 0).unwrap(), 2);
    assert_eq!(pool.get(&guard, 1).unwrap(), 0);
    assert_eq!(pool.get(&guard, 2).unwrap(), 1);
}

#[test]
fn read_write_test() {
    let mut storage = VecStorage::new();
    storage.insert_and_shift(0, 0);
    storage.insert_and_shift(1, 1);

    let mut pool = StoragePool::new();
    let input = builder(AnyStorage::Vec(storage)).build(&mut pool);
    let view = view_handle(&mut pool, BackendKind::Vec);
    let controller = view.view_storage_controller().unwrap();

    controller.set_input(&mut pool, input).unwrap();
    controller.create_read_view(&mut pool, vec![0, 1]).unwrap();

    let guard = view.try_read(&mut pool).unwrap();
    assert_eq!(pool.len_of(&guard), 2);
    pool.release_read(guard);

    {
        let read_guard = input.try_read(&mut pool);
        assert!(read_guard.is_ok());
        let read_guard = read_guard.unwrap();
        assert_eq!(pool.key_items(&read_guard), vec![(0, 0), (1, 1)]);
        pool.release_read(read_guard);
    }

    {
        let write_guard = input.try_write(&mut pool);
        assert!(write_guard.is_err());
    }

    controller.clear_view(&mut pool).unwrap();

    {
        let write_guard = input.try_write(&mut pool);
        assert!(write_guard.is_ok());
    }
}

#[test]
fn view_storage_read_test() {
    let mut pool = StoragePool::new();
    let input_id = pool.add(AnyStorage::Vec(VecStorage::new_from_iter(vec![0, 1, 2, 3, 4])));
    let input_storage_ptr = StorageHandle::new(input_id);

    let view_id = pool.add(AnyStorage::View(KeyItemViewStorage::new(BackendKind::Vec)));
    let view_storage_ptr = StorageHandle::new_with_view_controller(view_id);

    {
        let view_controller: ViewStorageController =
            view_storage_ptr.view_storage_controller().unwrap();
        view_controller.set_input(&mut pool, input_storage_ptr).unwrap();
        let view_keys: Vec<usize> = vec![0, 2, 4];
        view_controller.create_read_view(&mut pool, view_keys).unwrap();
    }

    {
        let key_item = view_storage_ptr.cast_to_getitem_storage(&pool).unwrap();
        let guard = key_item.try_read(&mut pool).unwrap();
        assert_eq!(pool.get(&guard, 0).unwrap(), 0);
        assert_eq!(pool.get(&guard, 1).unwrap(), 2);
        assert_eq!(pool.get(&guard, 2).unwrap(), 4);
        pool.release_read(guard);
    }

    {
        let storage_ptr = view_storage_ptr
            .cast_to_sized_storage(&pool, StorageKind::View(BackendKind::Vec))
            .unwrap();
        let guard = storage_ptr.try_read(&mut pool).unwrap();
        let mut sum: i32 = 0;
        for (_key, item) in pool.key_items(&guard) {
            sum += item;
        }
        assert_eq!(sum, 6);
    }
}

#[test]
fn view_storage_write_test() {
    let mut pool = StoragePool::new();
    let input_id = pool.add(AnyStorage::Vec(VecStorage::new_from_iter(vec![0, 1, 2, 3, 4])));
    let input_storage_ptr = StorageHandle::new(input_id);

    let view_id = pool.add(AnyStorage::View(KeyItemViewStorage::new(BackendKind::Vec)));
    let view_storage_ptr = StorageHandle::new_with_view_controller(view_id);

    {
        let view_controller = view_storage_ptr.view_storage_controller().unwrap();
        view_controller.set_input(&mut pool, input_storage_ptr).unwrap();
        view_controller.create_write_view(&mut pool, vec![0, 2, 4]).unwrap();
    }

    {
        let mutable = view_storage_ptr.cast_to_mut_getitem_storage(&pool).unwrap();
        let guard = mutable.try_write(&mut pool).unwrap();

        assert_eq!(pool.replace(&guard, 0, 10), Some(0));

        assert_eq!(pool.get_exclusive(&guard, 0).unwrap(), 10);
        assert_eq!(pool.get_exclusive(&guard, 1).unwrap(), 2);
        assert_eq!(pool.get_exclusive(&guard, 2).unwrap(), 4);
        pool.insert(&guard, 1, 20);
        assert_eq!(pool.get_exclusive(&guard, 1).unwrap(), 20);
        pool.release_write(guard);
    }

    let controller = view_storage_ptr.view_storage_controller().unwrap();
    controller.clear_view(&mut pool).unwrap();
    let guard = input_storage_ptr.try_read(&mut pool).unwrap();
    assert_eq!(
        pool.key_items(&guard),
        vec![(0, 10), (1, 1), (2, 20), (3, 3), (4, 4)]
    );
}

#[test]
fn state_machine_of_the_controller() {
    let mut pool = StoragePool::new();
    let input = builder(AnyStorage::Vec(VecStorage::new_from_iter(vec![5, 6]))).build(&mut pool);
    let view = view_handle(&mut pool, BackendKind::Vec);
    let controller = view.view_storage_controller().unwrap();

    assert_eq!(controller.status(&pool), InputStorageLockStatus::Unset);
    assert_eq!(
        controller.create_read_view(&mut pool, vec![0]),
        Err(StorageError::InputNotSet)
    );
    assert_eq!(view.try_read(&mut pool).err(), Some(StorageError::ViewNotCreated));
    assert_eq!(view.try_write(&mut pool).err(), Some(StorageError::ViewNotCreated));

    controller.set_input(&mut pool, input).unwrap();
    controller.create_write_view(&mut pool, vec![1]).unwrap();
    assert_eq!(controller.status(&pool), InputStorageLockStatus::Writable);
    assert_eq!(
        controller.create_read_view(&mut pool, vec![0]),
        Err(StorageError::ViewActive)
    );
    assert_eq!(controller.set_input(&mut pool, input), Err(StorageError::ViewActive));
    assert_eq!(input.try_read(&mut pool).err(), Some(StorageError::LockUnavailable));

    controller.clear_view(&mut pool).unwrap();
    assert_eq!(controller.status(&pool), InputStorageLockStatus::Unset);

    controller.create_read_view(&mut pool, vec![1, 0]).unwrap();
    assert_eq!(controller.status(&pool), InputStorageLockStatus::Readable);
    let guard = view.try_read(&mut pool).unwrap();
    assert_eq!(pool.key_items(&guard), vec![(0, 6), (1, 5)]);
}

#[test]
fn view_lock_refused_while_input_is_written() {
    let mut pool = StoragePool::new();
    let input = builder(AnyStorage::Vec(VecStorage::new_from_iter(vec![5]))).build(&mut pool);
    let view = view_handle(&mut pool, BackendKind::Vec);
    let controller = view.view_storage_controller().unwrap();
    controller.set_input(&mut pool, input).unwrap();

    let w = input.try_write(&mut pool).unwrap();
    assert_eq!(
        controller.create_read_view(&mut pool, vec![0]),
        Err(StorageError::LockUnavailable)
    );
    pool.release_write(w);
    let r = input.try_read(&mut pool).unwrap();
    assert_eq!(
        controller.create_write_view(&mut pool, vec![0]),
        Err(StorageError::LockUnavailable)
    );
    controller.create_read_view(&mut pool, vec![0]).unwrap();
    pool.release_read(r);
}

#[test]
fn view_input_must_be_of_its_kind() {
    let mut pool = StoragePool::new();
    let input = builder(AnyStorage::Val(ValStorage::new(1))).build(&mut pool);
    let view = view_handle(&mut pool, BackendKind::Vec);
    let controller = view.view_storage_controller().unwrap();
    assert_eq!(
        controller.set_input(&mut pool, input),
        Err(StorageError::InvalidCast {
            from: StorageKind::Backend(BackendKind::Val),
            to: Capability::Concrete(StorageKind::Backend(BackendKind::Vec)),
        })
    );
    let not_a_view = ViewStorageController::new(input.storage_id());
    assert_eq!(
        not_a_view.clear_view(&mut pool),
        Err(StorageError::InvalidCast {
            from: StorageKind::Backend(BackendKind::Val),
            to: Capability::ViewSetup,
        })
    );
    assert_eq!(
        not_a_view.create_read_view(&mut pool, vec![0]),
        Err(StorageError::InvalidCast {
            from: StorageKind::Backend(BackendKind::Val),
            to: Capability::ViewSetup,
        })
    );
}

#[test]
fn view_skips_keys_the_input_lacks() {
    let mut pool = StoragePool::new();
    let input = builder(AnyStorage::Vec(VecStorage::new_from_iter(vec![5, 6]))).build(&mut pool);
    let view = view_handle(&mut pool, BackendKind::Vec);
    let controller = view.view_storage_controller().unwrap();
    controller.set_input(&mut pool, input).unwrap();
    controller.create_read_view(&mut pool, vec![9, 1]).unwrap();
    let guard = view.try_read(&mut pool).unwrap();
    assert_eq!(pool.len_of(&guard), 2);
    assert_eq!(pool.get(&guard, 0), None);
    assert!(!pool.contains(&guard, 0));
    assert_eq!(pool.get(&guard, 1), Some(6));
    assert_eq!(pool.key_items(&guard), vec![(1, 6)]);
}

#[test]
fn view_setup_on_the_view_itself() {
    let free = InputLockState {
        readers: 0,
        writer: false,
        retained_shared: false,
        retained_exclusive: false,
    };
    let shared = InputLockState { readers: 2, ..free };
    let exclusive = InputLockState { writer: true, ..free };
    let mut v = KeyItemViewStorage::new(BackendKind::HashMap);
    assert_eq!(v.create_read_view(vec![1], free), Err(StorageError::InputNotSet));
    v.set_input_storage(3);
    assert_eq!(v.get_input_storage(), Some(3));
    assert_eq!(v.create_read_view(vec![1], exclusive), Err(StorageError::LockUnavailable));
    assert_eq!(v.create_write_view(vec![1], shared), Err(StorageError::LockUnavailable));
    assert!(v.as_keys_slice().is_empty());
    assert_eq!(v.create_read_view(vec![4, 5], shared), Ok(()));
    assert_eq!(v.as_keys_slice(), &[4, 5]);
    assert_eq!(v.create_write_view(vec![1], free), Err(StorageError::ViewActive));
    v.clear_view();
    assert_eq!(v.status(), InputStorageLockStatus::Unset);
    assert!(v.as_keys_slice().is_empty());
    assert_eq!(v.create_write_view(vec![6], free), Ok(()));
    assert_eq!(v.status(), InputStorageLockStatus::Writable);
}

#[test]
fn lazy_walk_over_a_view() {
    let mut pool = StoragePool::new();
    let input = builder(AnyStorage::Vec(VecStorage::new_from_iter(vec![0, 1, 2, 3, 4]))).build(&mut pool);
    let view = view_handle(&mut pool, BackendKind::Vec);
    let controller = view.view_storage_controller().unwrap();
    controller.set_input(&mut pool, input).unwrap();
    controller.create_read_view(&mut pool, vec![2, 0, 8, 1]).unwrap();
    let guard = view.try_read(&mut pool).unwrap();
    let mut walk = KeysToItemsIter::new(&guard);
    assert_eq!(walk.next(&pool), Some((0, 2)));
    assert_eq!(walk.next(&pool), Some((1, 0)));
    assert_eq!(walk.next(&pool), Some((3, 1)));
    assert_eq!(walk.next(&pool), None);
    walk.restart();
    assert_eq!(walk.next(&pool), Some((0, 2)));
}
