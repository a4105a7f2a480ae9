//! A singleton backend: exactly one item, under key `0`.
use vstd::prelude::*;

use crate::storage_traits::{
    ItemSliceStorage, ItemStorage, KeyItemStorage, KeyStorage, MutItemSliceStorage, Storage,
};

verus! {

#[derive(Clone, Copy, Debug)]
pub struct ValStorage {
    pub data: i32,
}

/// Relies on `core::slice::from_ref`: a slice of length one holding `*x`.
#[verifier::external_body]
fn single_item_slice(x: &i32) -> (r: &[i32])
    ensures
        r@ == seq![*x],
{
    core::slice::from_ref(x)
}

/// Relies on `core::slice::from_mut`: a slice of length one over `*x`, whose
/// element is the final value of `*x`.
#[verifier::external_body]
fn single_item_slice_mut(x: &mut i32) -> (r: &mut [i32])
    ensures
        r@ == seq![*old(x)],
        final(r)@ == seq![*final(x)],
{
    core::slice::from_mut(x)
}

impl ValStorage {
    pub fn new(val: i32) -> (r: Self)
        ensures
            r.data == val,
    {
        ValStorage { data: val }
    }
}

impl Storage for ValStorage {
    open spec fn spec_len(&self) -> nat {
        1
    }

    fn len(&self) -> (r: usize) {
        1
    }
}

impl KeyStorage for ValStorage {
    open spec fn spec_keys(&self) -> Set<usize> {
        set![0usize]
    }

    fn contains(&self, key: usize) -> (r: bool) {
        key == 0
    }

    fn keys(&self) -> (r: Vec<usize>)
        ensures
            r@ == seq![0usize],
    {
        let r = vec![0usize];
        assert(r@ =~= seq![0usize]);
        assert(r@.to_set() =~= set![0usize]) by {
            assert(r@[0] == 0usize);
        }
        r
    }
}

impl ItemStorage for ValStorage {
}

impl KeyItemStorage for ValStorage {
    open spec fn spec_item(&self, key: usize) -> i32 {
        self.data
    }

    fn get(&self, key: usize) -> (r: Option<i32>) {
        if key == 0 {
            Some(self.data)
        } else {
            None
        }
    }

    fn key_items(&self) -> (r: Vec<(usize, i32)>)
        ensures
            r@ == seq![(0usize, self.data)],
    {
        let r = vec![(0usize, self.data)];
        assert(r@ =~= seq![(0usize, self.data)]);
        assert(r@[0].0 == 0usize);
        r
    }
}

impl ItemSliceStorage for ValStorage {
    open spec fn spec_items(&self) -> Seq<i32> {
        seq![self.data]
    }

    fn as_item_slice(&self) -> (r: &[i32]) {
        single_item_slice(&self.data)
    }
}

impl MutItemSliceStorage for ValStorage {
    fn as_mut_slice(&mut self) -> (r: &mut [i32]) {
        single_item_slice_mut(&mut self.data)
    }
}

} // verus!
