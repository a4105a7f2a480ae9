//! An associative backend over a hash map; it offers no contiguous items.
use vstd::prelude::*;
use std::collections::HashMap;
use vstd::std_specs::iter::IteratorSpec;

use crate::storage_traits::{
    ClearableStorage, ItemStorage, KeyItemStorage, KeyStorage, MutKeyItemStorage, Storage,
};

verus! {

broadcast use vstd::std_specs::hash::group_hash_axioms;

#[derive(Debug)]
pub struct HashMapStorage {
    data: HashMap<usize, i32>,
}

impl View for HashMapStorage {
    type V = Map<usize, i32>;

    closed spec fn view(&self) -> Map<usize, i32> {
        self.data@
    }
}

impl HashMapStorage {
    pub fn new() -> (r: Self)
        ensures
            r@ == Map::<usize, i32>::empty(),
    {
        HashMapStorage { data: HashMap::new() }
    }
}

impl Storage for HashMapStorage {
    open spec fn spec_len(&self) -> nat {
        self@.dom().len()
    }

    fn len(&self) -> (r: usize) {
        self.data.len()
    }
}

impl ClearableStorage for HashMapStorage {
    fn clear(&mut self)
        ensures
            final(self)@ == Map::<usize, i32>::empty(),
    {
        self.data.clear();
    }
}

impl KeyStorage for HashMapStorage {
    open spec fn spec_keys(&self) -> Set<usize> {
        self@.dom()
    }

    fn contains(&self, key: usize) -> (r: bool) {
        self.data.contains_key(&key)
    }

    fn keys(&self) -> (r: Vec<usize>) {
        let mut out: Vec<usize> = Vec::new();
        let keys = self.data.keys();
        let ghost all = keys.remaining().unref();
        for k in it: keys
            invariant
                all == it.seq().unref(),
                out@ == all.take(it.index()),
        {
            out.push(*k);
            proof {
                assert(out@ =~= all.take(it.index() + 1));
            }
        }
        proof {
            assert(out@ =~= all);
        }
        out
    }
}

impl ItemStorage for HashMapStorage {
}

impl KeyItemStorage for HashMapStorage {
    open spec fn spec_item(&self, key: usize) -> i32 {
        self@[key]
    }

    fn get(&self, key: usize) -> (r: Option<i32>) {
        match self.data.get(&key) {
            Some(v) => Some(*v),
            None => None,
        }
    }

    fn key_items(&self) -> (r: Vec<(usize, i32)>) {
        let mut out: Vec<(usize, i32)> = Vec::new();
        let pairs = self.data.iter();
        let ghost all = pairs.remaining().unref();
        proof {
            let v = pairs.remaining();
            assert(v == vstd::std_specs::hash::spec_hash_map_iter(&self.data).remaining());
            assert forall|k: usize| #[trigger] self@.contains_key(k) implies exists|i: int|
                0 <= i < all.len() && all[i].0 == k by {
                assert(v.contains((&k, &self@[k])));
                let i = choose|i: int| 0 <= i < v.len() && v[i] == (&k, &self@[k]);
                assert(all[i].0 == k);
            }
            assert forall|i: int, j: int| 0 <= i < j < all.len() implies all[i].0 != all[j].0 by {
                assert(v[i] != v[j]);
                if all[i].0 == all[j].0 {
                    assert(self@[*v[i].0] == *v[i].1);
                    assert(self@[*v[j].0] == *v[j].1);
                    assert(v[i] == v[j]);
                }
            }
        }
        for p in it: pairs
            invariant
                all == it.seq().unref(),
                out@ == all.take(it.index()),
        {
            out.push((*p.0, *p.1));
            proof {
                assert(out@ =~= all.take(it.index() + 1));
            }
        }
        proof {
            assert(out@ =~= all);
        }
        out
    }
}

impl MutKeyItemStorage for HashMapStorage {
    open spec fn spec_can_insert(&self, key: usize) -> bool {
        true
    }

    /// Stores `item` under `key`, replacing any item there; no other key changes.
    fn insert(&mut self, key: usize, item: i32)
        ensures
            final(self)@ == old(self)@.insert(key, item),
    {
        self.data.insert(key, item);
    }

    fn replace(&mut self, key: usize, item: i32) -> (r: Option<i32>) {
        if self.data.contains_key(&key) {
            let r = self.data.insert(key, item);
            assert(self@.dom() =~= old(self)@.dom());
            r
        } else {
            None
        }
    }
}

} // verus!
