//! A sparse backend: a sparse set that packs the present items densely, in
//! the order in which their keys were first inserted.
use vstd::prelude::*;
use xsparseset::SparseSetVec;

use crate::storage_traits::{
    ClearableStorage, ItemSliceStorage, ItemStorage, KeyItemStorage, KeyStorage,
    MutItemSliceStorage, MutKeyItemStorage, Storage,
};

verus! {

/// A sparse set of `xsparseset`, held whole: its sparse index stores
/// `NonZeroUsize`, a type that cannot be declared to Verus, so Verus sees only
/// the entries that `sparse_entries` names.
#[derive(Debug)]
#[verifier::external_body]
pub struct PackedSparseSet {
    inner: SparseSetVec<usize, i32>,
}

/// The `(key, item)` entries of a sparse set, in dense order.
pub uninterp spec fn sparse_entries(s: PackedSparseSet) -> Seq<(usize, i32)>;

/// Relies on `SparseSet::default`: a set with no entries.
#[verifier::external_body]
fn sparse_new() -> (r: PackedSparseSet)
    ensures
        sparse_entries(r) == Seq::<(usize, i32)>::empty(),
{
    PackedSparseSet { inner: SparseSetVec::default() }
}

/// Relies on `SparseSet::insert`: an id already present has its item replaced in
/// place and the old item returned; a new id is appended at the end of the dense
/// entries. The sparse index grows to `id + 1` slots of eight bytes, and a
/// vector past `isize::MAX` bytes panics: `id` stays well below that.
#[verifier::external_body]
fn sparse_insert(s: &mut PackedSparseSet, id: usize, item: i32) -> (r: Option<i32>)
    requires
        id < usize::MAX / 16,
    ensures
        match r {
            Some(v) => exists|i: int|
                0 <= i < sparse_entries(*old(s)).len() && (#[trigger] sparse_entries(*old(s))[i]).0
                    == id && v == sparse_entries(*old(s))[i].1 && sparse_entries(*final(s))
                    == sparse_entries(*old(s)).update(i, (id, item)),
            None => (forall|i: int|
                0 <= i < sparse_entries(*old(s)).len() ==> (#[trigger] sparse_entries(
                    *old(s),
                )[i]).0 != id) && sparse_entries(*final(s)) == sparse_entries(*old(s)).push(
                (id, item),
            ),
        },
    no_unwind
{
    s.inner.insert(id, item)
}

/// Relies on `SparseSet::get`: the item of the entry with this id, if any.
#[verifier::external_body]
fn sparse_get(s: &PackedSparseSet, id: usize) -> (r: Option<i32>)
    ensures
        match r {
            Some(v) => exists|i: int|
                0 <= i < sparse_entries(*s).len() && (#[trigger] sparse_entries(*s)[i]).0 == id
                    && sparse_entries(*s)[i].1 == v,
            None => forall|i: int|
                0 <= i < sparse_entries(*s).len() ==> (#[trigger] sparse_entries(*s)[i]).0 != id,
        },
{
    s.inner.get(id).copied()
}

/// Relies on `SparseSet::len`: the number of entries.
#[verifier::external_body]
fn sparse_len(s: &PackedSparseSet) -> (r: usize)
    ensures
        r == sparse_entries(*s).len(),
{
    s.inner.len()
}

/// Relies on `SparseSet::clear`: no entries are left.
#[verifier::external_body]
fn sparse_clear(s: &mut PackedSparseSet)
    ensures
        sparse_entries(*final(s)) == Seq::<(usize, i32)>::empty(),
    no_unwind
{
    s.inner.clear()
}

/// Relies on `SparseSet::ids`: the ids of the entries, in dense order.
#[verifier::external_body]
fn sparse_ids(s: &PackedSparseSet) -> (r: &[usize])
    ensures
        r@ == sparse_entries(*s).map_values(|e: (usize, i32)| e.0),
{
    s.inner.ids()
}

/// Relies on `SparseSet::data`: the items of the entries, in dense order.
#[verifier::external_body]
fn sparse_data(s: &PackedSparseSet) -> (r: &[i32])
    ensures
        r@ == sparse_entries(*s).map_values(|e: (usize, i32)| e.1),
{
    s.inner.data()
}

/// Relies on `SparseSet::data_mut`: the items of the entries, in dense order;
/// what is written there becomes the items, and the ids stay as they were.
#[verifier::external_body]
fn sparse_data_mut(s: &mut PackedSparseSet) -> (r: &mut [i32])
    ensures
        r@ == sparse_entries(*old(s)).map_values(|e: (usize, i32)| e.1),
        sparse_entries(*final(s)).map_values(|e: (usize, i32)| e.1) == final(r)@,
        sparse_entries(*final(s)).len() == sparse_entries(*old(s)).len(),
        forall|i: int|
            0 <= i < sparse_entries(*old(s)).len() ==> (#[trigger] sparse_entries(*final(s))[i]).0
                == sparse_entries(*old(s))[i].0,
    no_unwind
{
    s.inner.data_mut()
}

/// No key occurs in two entries.
pub open spec fn unique_keys(s: Seq<(usize, i32)>) -> bool {
    forall|i: int, j: int| 0 <= i < s.len() && 0 <= j < s.len() && i != j ==> s[i].0 != s[j].0
}

/// Whether some entry has key `k`.
pub open spec fn has_key(s: Seq<(usize, i32)>, k: usize) -> bool {
    exists|i: int| 0 <= i < s.len() && #[trigger] s[i].0 == k
}

/// The item of the entry with key `k`.
pub open spec fn item_at_key(s: Seq<(usize, i32)>, k: usize) -> i32 {
    s[choose|i: int| 0 <= i < s.len() && #[trigger] s[i].0 == k].1
}

/// `after` is `before` with `item` stored under `key`: an entry with that key
/// keeps its place and gets the item, else a new entry goes at the end.
pub open spec fn sparse_inserted(
    before: Seq<(usize, i32)>,
    after: Seq<(usize, i32)>,
    key: usize,
    item: i32,
) -> bool {
    if has_key(before, key) {
        exists|i: int|
            0 <= i < before.len() && (#[trigger] before[i]).0 == key && after == before.update(
                i,
                (key, item),
            )
    } else {
        after == before.push((key, item))
    }
}

#[derive(Debug)]
pub struct SparseSetVecStorage {
    data: PackedSparseSet,
}

impl View for SparseSetVecStorage {
    type V = Seq<(usize, i32)>;

    closed spec fn view(&self) -> Seq<(usize, i32)> {
        sparse_entries(self.data)
    }
}

impl SparseSetVecStorage {
    #[verifier::type_invariant]
    closed spec fn inv(self) -> bool {
        &&& unique_keys(sparse_entries(self.data))
        &&& forall|i: int|
            0 <= i < sparse_entries(self.data).len() ==> (#[trigger] sparse_entries(
                self.data,
            )[i]).0 < usize::MAX / 16
    }

    pub fn new() -> (r: Self)
        ensures
            r@ == Seq::<(usize, i32)>::empty(),
    {
        SparseSetVecStorage { data: sparse_new() }
    }
}

impl Storage for SparseSetVecStorage {
    open spec fn spec_len(&self) -> nat {
        self@.len()
    }

    fn len(&self) -> (r: usize) {
        sparse_len(&self.data)
    }
}

impl ClearableStorage for SparseSetVecStorage {
    fn clear(&mut self)
        ensures
            final(self)@ == Seq::<(usize, i32)>::empty(),
    {
        proof {
            use_type_invariant(&*self);
        }
        sparse_clear(&mut self.data);
    }
}

impl KeyStorage for SparseSetVecStorage {
    open spec fn spec_keys(&self) -> Set<usize> {
        Set::new(|k: usize| has_key(self@, k))
    }

    fn contains(&self, key: usize) -> (r: bool) {
        sparse_get(&self.data, key).is_some()
    }

    fn keys(&self) -> (r: Vec<usize>)
        ensures
            r@ == self@.map_values(|e: (usize, i32)| e.0),
    {
        proof {
            use_type_invariant(self);
        }
        let ids = sparse_ids(&self.data);
        let mut out: Vec<usize> = Vec::new();
        let mut i: usize = 0;
        while i < ids.len()
            invariant
                ids@ == self@.map_values(|e: (usize, i32)| e.0),
                i <= ids@.len(),
                out@ == ids@.take(i as int),
            decreases ids@.len() - i,
        {
            out.push(ids[i]);
            i = i + 1;
            assert(out@ =~= ids@.take(i as int));
        }
        proof {
            let s = self@;
            assert(out@ =~= ids@);
            assert forall|k: usize| out@.contains(k) <==> self.spec_keys().contains(k) by {
                if out@.contains(k) {
                    let j = choose|j: int| 0 <= j < out@.len() && out@[j] == k;
                    assert(s[j].0 == k);
                }
                if has_key(s, k) {
                    let j = choose|j: int| 0 <= j < s.len() && #[trigger] s[j].0 == k;
                    assert(out@[j] == k);
                }
            }
            assert(out@.to_set() =~= self.spec_keys());
            assert forall|a: int, b: int| 0 <= a < out@.len() && 0 <= b < out@.len() && a != b
                implies out@[a] != out@[b] by {
                assert(s[a].0 == out@[a] && s[b].0 == out@[b]);
            }
        }
        out
    }
}

impl ItemStorage for SparseSetVecStorage {
}

impl KeyItemStorage for SparseSetVecStorage {
    open spec fn spec_item(&self, key: usize) -> i32 {
        item_at_key(self@, key)
    }

    fn get(&self, key: usize) -> (r: Option<i32>) {
        proof {
            use_type_invariant(self);
        }
        let r = sparse_get(&self.data, key);
        proof {
            if r is Some {
                let s = self@;
                let i = choose|i: int| 0 <= i < s.len() && #[trigger] s[i].0 == key && s[i].1 == r->0;
                let j = choose|j: int| 0 <= j < s.len() && #[trigger] s[j].0 == key;
                assert(i == j);
                assert(self.spec_keys().contains(key));
            }
        }
        r
    }

    fn key_items(&self) -> (r: Vec<(usize, i32)>)
        ensures
            r@ == self@,
    {
        proof {
            use_type_invariant(self);
        }
        let ids = sparse_ids(&self.data);
        let items = sparse_data(&self.data);
        let mut out: Vec<(usize, i32)> = Vec::new();
        let mut i: usize = 0;
        while i < ids.len()
            invariant
                ids@ == self@.map_values(|e: (usize, i32)| e.0),
                items@ == self@.map_values(|e: (usize, i32)| e.1),
                i <= ids@.len(),
                out@ == self@.take(i as int),
            decreases ids@.len() - i,
        {
            out.push((ids[i], items[i]));
            i = i + 1;
            assert(out@ =~= self@.take(i as int));
        }
        proof {
            let s = self@;
            assert(out@ =~= s);
            assert forall|a: int| 0 <= a < s.len() implies self.spec_keys().contains(
                #[trigger] s[a].0,
            ) && s[a].1 == self.spec_item(s[a].0) by {
                assert(has_key(s, s[a].0));
                let j = choose|j: int| 0 <= j < s.len() && #[trigger] s[j].0 == s[a].0;
                assert(j == a);
            }
            assert forall|k: usize| #[trigger]
                self.spec_keys().contains(k) implies exists|a: int|
                    0 <= a < out@.len() && out@[a].0 == k by {
                let j = choose|j: int| 0 <= j < s.len() && #[trigger] s[j].0 == k;
                assert(out@[j].0 == k);
            }
        }
        out
    }
}

impl MutKeyItemStorage for SparseSetVecStorage {
    open spec fn spec_can_insert(&self, key: usize) -> bool {
        key < usize::MAX / 16
    }

    /// An existing key keeps its place and gets the new item; a new key is
    /// appended after the others.
    fn insert(&mut self, key: usize, item: i32)
        ensures
            sparse_inserted(old(self)@, final(self)@, key, item),
    {
        proof {
            use_type_invariant(&*self);
        }
        let ghost s = self@;
        let r = sparse_insert(&mut self.data, key, item);
        proof {
            let t = sparse_entries(self.data);
            match r {
                Some(v) => {
                    let i = choose|i: int|
                        0 <= i < s.len() && (#[trigger] s[i]).0 == key && v == s[i].1 && t
                            == s.update(i, (key, item));
                    assert(unique_keys(t)) by {
                        assert forall|a: int, b: int|
                            0 <= a < t.len() && 0 <= b < t.len() && a != b implies t[a].0
                            != t[b].0 by {
                            assert(t[a].0 == s[a].0 && t[b].0 == s[b].0);
                        }
                    }
                    assert(t[i].0 == key);
                    assert forall|a: int| 0 <= a < t.len() implies (#[trigger] t[a]).0 < usize::MAX
                        / 16 by {
                        assert(t[a].0 == s[a].0);
                    }
                    assert(has_key(t, key));
                    let j = choose|j: int| 0 <= j < t.len() && #[trigger] t[j].0 == key;
                    assert(j == i);
                }
                None => {
                    assert(unique_keys(t)) by {
                        assert forall|a: int, b: int|
                            0 <= a < t.len() && 0 <= b < t.len() && a != b implies t[a].0
                            != t[b].0 by {
                            if a < s.len() && b < s.len() {
                                assert(t[a] == s[a] && t[b] == s[b]);
                            } else if a < s.len() {
                                assert(t[a] == s[a]);
                            } else {
                                assert(t[b] == s[b]);
                            }
                        }
                    }
                    let n = s.len() as int;
                    assert(t[n].0 == key);
                    assert forall|a: int| 0 <= a < t.len() implies (#[trigger] t[a]).0 < usize::MAX
                        / 16 by {
                        if a < n {
                            assert(t[a] == s[a]);
                        }
                    }
                    assert(has_key(t, key));
                    let j = choose|j: int| 0 <= j < t.len() && #[trigger] t[j].0 == key;
                    assert(j == n);
                }
            }
        }
    }

    fn replace(&mut self, key: usize, item: i32) -> (r: Option<i32>) {
        proof {
            use_type_invariant(&*self);
        }
        let ghost s = self@;
        let r = sparse_get(&self.data, key);
        if r.is_none() {
            assert(!has_key(s, key));
            assert(!self.spec_keys().contains(key));
            return None;
        }
        let ghost i0 = choose|i: int| 0 <= i < s.len() && (#[trigger] s[i]).0 == key && s[i].1 == r->0;
        assert(s[i0].0 < usize::MAX / 16);
        let prev = sparse_insert(&mut self.data, key, item);
        proof {
            let t = sparse_entries(self.data);
            let i = choose|i: int|
                0 <= i < s.len() && (#[trigger] s[i]).0 == key && prev->0 == s[i].1 && t == s.update(
                    i,
                    (key, item),
                );
            assert(i == i0);
            assert(unique_keys(t)) by {
                assert forall|a: int, b: int|
                    0 <= a < t.len() && 0 <= b < t.len() && a != b implies t[a].0 != t[b].0 by {
                    assert(t[a].0 == s[a].0 && t[b].0 == s[b].0);
                }
            }
            assert forall|a: int| 0 <= a < t.len() implies (#[trigger] t[a]).0 < usize::MAX / 16 by {
                assert(t[a].0 == s[a].0);
            }
            assert forall|k: usize| has_key(t, k) <==> has_key(s, k) by {
                if has_key(t, k) {
                    let a = choose|a: int| 0 <= a < t.len() && #[trigger] t[a].0 == k;
                    assert(s[a].0 == k);
                }
                if has_key(s, k) {
                    let a = choose|a: int| 0 <= a < s.len() && #[trigger] s[a].0 == k;
                    assert(t[a].0 == k);
                }
            }
            assert(self.spec_keys() =~= old(self).spec_keys());
            assert(has_key(s, key));
            let j = choose|j: int| 0 <= j < s.len() && #[trigger] s[j].0 == key;
            assert(j == i);
            assert forall|k: usize| #[trigger] self.spec_keys().contains(k) implies self.spec_item(k)
                == (if k == key {
                item
            } else {
                old(self).spec_item(k)
            }) by {
                let a = choose|a: int| 0 <= a < t.len() && #[trigger] t[a].0 == k;
                let b = choose|b: int| 0 <= b < s.len() && #[trigger] s[b].0 == k;
                assert(s[a].0 == k);
                assert(a == b);
            }
        }
        prev
    }
}

impl ItemSliceStorage for SparseSetVecStorage {
    open spec fn spec_items(&self) -> Seq<i32> {
        self@.map_values(|e: (usize, i32)| e.1)
    }

    fn as_item_slice(&self) -> (r: &[i32]) {
        sparse_data(&self.data)
    }
}

impl MutItemSliceStorage for SparseSetVecStorage {
    fn as_mut_slice(&mut self) -> (r: &mut [i32]) {
        proof {
            use_type_invariant(&*self);
        }
        sparse_data_mut(&mut self.data)
    }
}

} // verus!
