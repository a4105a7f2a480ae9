//! A dense backend: the item under key `k` is the `k`-th element of a vector.
use vstd::prelude::*;

use crate::storage_traits::{
    ClearableStorage, ItemSliceStorage, ItemStorage, KeyItemStorage, KeyStorage,
    MutItemSliceStorage, MutKeyItemStorage, Storage,
};

verus! {

/// The items after a map-like insert of `item` at `key`: a key past the end
/// first grows the items with zeros up to `key`; the item then goes in at
/// `key` and the items from `key` on move one place to the right.
pub open spec fn dense_insert(items: Seq<i32>, key: nat, item: i32) -> Seq<i32> {
    if key <= items.len() {
        items.insert(key as int, item)
    } else {
        (items + Seq::new((key - items.len()) as nat, |i: int| 0i32)).push(item)
    }
}

/// The keys `0, 1, ..., n - 1` in order.
pub open spec fn index_keys(n: nat) -> Seq<usize> {
    Seq::new(n, |i: int| i as usize)
}

#[derive(Debug)]
pub struct VecStorage {
    data: Vec<i32>,
}

impl View for VecStorage {
    type V = Seq<i32>;

    closed spec fn view(&self) -> Seq<i32> {
        self.data@
    }
}

impl VecStorage {
    pub fn new() -> (r: Self)
        ensures
            r@ == Seq::<i32>::empty(),
    {
        VecStorage { data: Vec::new() }
    }

    pub fn new_from_iter(items: Vec<i32>) -> (r: Self)
        ensures
            r@ == items@,
    {
        VecStorage { data: items }
    }

    /// Overwrites the item at `index`.
    pub fn set(&mut self, index: usize, item: i32)
        requires
            index < old(self)@.len(),
        ensures
            final(self)@ == old(self)@.update(index as int, item),
    {
        self.data.set(index, item);
    }

    pub fn push(&mut self, item: i32)
        ensures
            final(self)@ == old(self)@.push(item),
    {
        self.data.push(item);
    }

    /// A vector-like insert: `item` goes in at `index` and the items from
    /// `index` on move one place to the right.
    pub fn insert_and_shift(&mut self, index: usize, item: i32)
        requires
            index <= old(self)@.len(),
        ensures
            final(self)@ == old(self)@.insert(index as int, item),
    {
        self.data.insert(index, item);
    }

    /// The items in key order.
    pub fn items(&self) -> (r: Vec<i32>)
        ensures
            r@ == self@,
    {
        self.data.clone()
    }
}

impl Storage for VecStorage {
    open spec fn spec_len(&self) -> nat {
        self@.len()
    }

    fn len(&self) -> (r: usize) {
        self.data.len()
    }
}

impl ClearableStorage for VecStorage {
    fn clear(&mut self)
        ensures
            final(self)@ == Seq::<i32>::empty(),
    {
        self.data.clear();
    }
}

impl KeyStorage for VecStorage {
    open spec fn spec_keys(&self) -> Set<usize> {
        Set::new(|k: usize| k < self@.len())
    }

    fn contains(&self, key: usize) -> (r: bool) {
        key < self.data.len()
    }

    fn keys(&self) -> (r: Vec<usize>)
        ensures
            r@ == index_keys(self@.len()),
    {
        let n = self.data.len();
        let mut out: Vec<usize> = Vec::new();
        let mut i: usize = 0;
        while i < n
            invariant
                n == self.data@.len(),
                i <= n,
                out@ == index_keys(i as nat),
            decreases n - i,
        {
            out.push(i);
            i = i + 1;
            assert(out@ =~= index_keys(i as nat));
        }
        proof {
            assert forall|k: usize| out@.contains(k) <==> self.spec_keys().contains(k) by {
                if k < n {
                    assert(out@[k as int] == k);
                }
            }
            assert(out@.to_set() =~= self.spec_keys());
        }
        out
    }
}

impl ItemStorage for VecStorage {
}

impl KeyItemStorage for VecStorage {
    open spec fn spec_item(&self, key: usize) -> i32 {
        self@[key as int]
    }

    fn get(&self, key: usize) -> (r: Option<i32>) {
        if key < self.data.len() {
            Some(self.data[key])
        } else {
            None
        }
    }

    fn key_items(&self) -> (r: Vec<(usize, i32)>)
        ensures
            r@ == Seq::new(self@.len(), |i: int| (i as usize, self@[i])),
    {
        let n = self.data.len();
        let mut out: Vec<(usize, i32)> = Vec::new();
        let mut i: usize = 0;
        while i < n
            invariant
                n == self.data@.len(),
                i <= n,
                out@ == Seq::new(i as nat, |j: int| (j as usize, self.data@[j])),
            decreases n - i,
        {
            out.push((i, self.data[i]));
            i = i + 1;
            assert(out@ =~= Seq::new(i as nat, |j: int| (j as usize, self.data@[j])));
        }
        proof {
            assert forall|k: usize| #[trigger]
                self.spec_keys().contains(k) implies exists|j: int|
                    0 <= j < out@.len() && out@[j].0 == k by {
                assert(out@[k as int].0 == k);
            }
        }
        out
    }
}

impl MutKeyItemStorage for VecStorage {
    open spec fn spec_can_insert(&self, key: usize) -> bool {
        key < usize::MAX
    }

    /// Inserts with the rule of `dense_insert`.
    fn insert(&mut self, key: usize, item: i32)
        ensures
            final(self)@ == dense_insert(old(self)@, key as nat, item),
    {
        if key > self.data.len() {
            self.data.resize(key, 0);
        }
        self.data.insert(key, item);
        proof {
            let o = old(self)@;
            if key > o.len() {
                let grown = o + Seq::new((key - o.len()) as nat, |i: int| 0i32);
                assert(self.data@ =~= grown.push(item));
            }
        }
    }

    fn replace(&mut self, key: usize, item: i32) -> (r: Option<i32>) {
        if key < self.data.len() {
            let prev = self.data[key];
            self.data.set(key, item);
            Some(prev)
        } else {
            None
        }
    }
}

impl ItemSliceStorage for VecStorage {
    open spec fn spec_items(&self) -> Seq<i32> {
        self@
    }

    fn as_item_slice(&self) -> (r: &[i32]) {
        self.data.as_slice()
    }
}

impl MutItemSliceStorage for VecStorage {
    fn as_mut_slice(&mut self) -> (r: &mut [i32]) {
        self.data.as_mut_slice()
    }
}

} // verus!
