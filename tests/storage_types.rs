use flex_storage::hashmap_storage::HashMapStorage;
use flex_storage::sparse_storage::SparseSetVecStorage;
use flex_storage::storage_traits::{
    ClearableStorage, ItemSliceStorage, KeyItemStorage, KeyStorage, MutItemSliceStorage,
    MutKeyItemStorage, Storage,
};
use flex_storage::val_storage::ValStorage;
use flex_storage::vec_storage::VecStorage;

#[test]
fn hashmap_storage_test() {
    let mut storage_a = HashMapStorage::new();

    let orig_entry_0 = 0;
    let orig_entry_1 = 1;

    storage_a.insert(0, orig_entry_0);
    storage_a.insert(1, orig_entry_1);

    let entry_0 = storage_a.get(0).unwrap();
    let entry_1 = storage_a.get(1).unwrap();

    assert_eq!(orig_entry_0, entry_0);
    assert_eq!(orig_entry_1, entry_1);

    let mut pairs = storage_a.key_items();
    pairs.sort();
    assert_eq!(pairs, vec![(0, 0), (1, 1)]);
}

#[test]
fn sparse_storage_test() {
    let mut storage_a = SparseSetVecStorage::new();

    let orig_entry_0 = 0;
    let orig_entry_1 = 1;

    storage_a.insert(0, orig_entry_0);
    storage_a.insert(1, orig_entry_1);

    let entry_0 = storage_a.get(0).unwrap();
    let entry_1 = storage_a.get(1).unwrap();

    assert_eq!(orig_entry_0, entry_0);
    assert_eq!(orig_entry_1, entry_1);

    assert_eq!(storage_a.key_items(), vec![(0, 0), (1, 1)]);
}

#[test]
fn val_storage_test() {
    let storage = ValStorage::new(1);

    let val = storage.data;

    assert_eq!(val, 1);
}

#[test]
fn vec_storage_test() {
    let mut storage_a = VecStorage::new();

    let orig_entry_0 = 0;
    let orig_entry_1 = 1;

    {
        storage_a.insert_and_shift(0, orig_entry_0);
        storage_a.insert_and_shift(1, orig_entry_1);

        let entry_0 = storage_a.get(0).unwrap();
        let entry_1 = storage_a.get(1).unwrap();

        assert_eq!(orig_entry_0, entry_0);
        assert_eq!(orig_entry_1, entry_1);
    }

    {
        storage_a.insert_and_shift(0, orig_entry_0);
        storage_a.insert_and_shift(1, orig_entry_1);

        let entry_0 = storage_a.get(0).unwrap();
        let entry_1 = storage_a.get(1).unwrap();

        assert_eq!(orig_entry_0, entry_0);
        assert_eq!(orig_entry_1, entry_1);
    }

    assert_eq!(storage_a.items(), vec![0, 1, 0, 1]);
}

#[test]
fn dense_insert_fills_gaps_with_zero_and_shifts() {
    let mut s = VecStorage::new_from_iter(vec![1, 2]);
    s.insert(4, 9);
    assert_eq!(s.items(), vec![1, 2, 0, 0, 9]);
    s.insert(1, 5);
    assert_eq!(s.items(), vec![1, 5, 2, 0, 0, 9]);
    s.insert(6, 3);
    assert_eq!(s.items(), vec![1, 5, 2, 0, 0, 9, 3]);
    assert_eq!(s.keys(), vec![0, 1, 2, 3, 4, 5, 6]);
    assert!(s.contains(6));
    assert!(!s.contains(7));
    assert_eq!(s.get(7), None);
}

#[test]
fn dense_slices() {
    let mut s = VecStorage::new_from_iter(vec![1, 2, 3]);
    assert_eq!(s.as_item_slice(), &[1, 2, 3]);
    s.as_mut_slice()[2] = 8;
    s.push(4);
    s.set(0, 6);
    assert_eq!(s.as_item_slice(), &[6, 2, 8, 4]);
    assert_eq!(s.replace(1, 7), Some(2));
    assert_eq!(s.replace(10, 7), None);
    assert_eq!(s.key_items(), vec![(0, 6), (1, 7), (2, 8), (3, 4)]);
    s.clear();
    assert!(s.is_empty());
}

#[test]
fn sparse_keeps_insertion_order_and_overwrites_in_place() {
    let mut s = SparseSetVecStorage::new();
    s.insert(10, 1);
    s.insert(3, 2);
    s.insert(7, 3);
    s.insert(3, 20);
    assert_eq!(s.len(), 3);
    assert_eq!(s.keys(), vec![10, 3, 7]);
    assert_eq!(s.as_item_slice(), &[1, 20, 3]);
    assert_eq!(s.key_items(), vec![(10, 1), (3, 20), (7, 3)]);
    assert!(s.contains(7));
    assert!(!s.contains(0));
    assert_eq!(s.get(0), None);
    assert_eq!(s.replace(7, 30), Some(3));
    assert_eq!(s.replace(8, 30), None);
    assert_eq!(s.as_item_slice(), &[1, 20, 30]);
    s.as_mut_slice()[0] = 11;
    assert_eq!(s.key_items(), vec![(10, 11), (3, 20), (7, 30)]);
    s.clear();
    assert!(s.is_empty());
    assert_eq!(s.get(10), None);
}

#[test]
fn hashmap_overwrites_and_clears() {
    let mut s = HashMapStorage::new();
    s.insert(100, 1);
    s.insert(5, 2);
    s.insert(100, 3);
    assert_eq!(s.len(), 2);
    assert_eq!(s.get(100), Some(3));
    let mut keys = s.keys();
    keys.sort();
    assert_eq!(keys, vec![5, 100]);
    assert_eq!(s.replace(5, 9), Some(2));
    assert_eq!(s.replace(6, 9), None);
    assert!(!s.contains(6));
    s.clear();
    assert!(s.is_empty());
}

#[test]
fn singleton_has_key_zero_only() {
    let mut s = ValStorage::new(42);
    assert_eq!(s.len(), 1);
    assert_eq!(s.get(0), Some(42));
    assert_eq!(s.get(1), None);
    assert!(s.contains(0));
    assert!(!s.contains(1));
    assert_eq!(s.keys(), vec![0]);
    assert_eq!(s.key_items(), vec![(0, 42)]);
    assert_eq!(s.as_item_slice(), &[42]);
    s.as_mut_slice()[0] = 43;
    assert_eq!(s.data, 43);
}
