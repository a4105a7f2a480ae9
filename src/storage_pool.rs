//! The pool of storage slots. Each slot holds one storage and its lock: the
//! number of shared guards out, whether an exclusive guard is out, and the
//! locks that filtering views retain on it. Locks are only ever tried: a mode
//! that is not available now is refused at once.
use vstd::prelude::*;

use crate::any_storage::{inserted, AnyStorage, StorageKind};
use crate::casting::{satisfies, Capability};
use crate::guards::{StorageReadGuard, StorageWriteGuard};
use crate::storage_traits::ViewStorageSetup;
use crate::view_storage::{
    lemma_view_pairs, view_lookup, view_pairs, InputLockState, InputStorageLockStatus,
};
use crate::StorageError;

verus! {

/// One storage with the state of its lock.
#[derive(Debug)]
pub struct Slot {
    pub storage: AnyStorage,
    pub readers: usize,
    pub writer: bool,
}

#[derive(Debug)]
pub struct StoragePool {
    slots: Vec<Slot>,
}

impl View for StoragePool {
    type V = Seq<Slot>;

    closed spec fn view(&self) -> Seq<Slot> {
        self.slots@
    }
}

/// A storage that can join a pool: a view must not have an input yet.
pub open spec fn fresh_storage(storage: AnyStorage) -> bool {
    storage matches AnyStorage::View(w) ==> w.input() is None && w.lock_status()
        == InputStorageLockStatus::Unset
}

/// `slots` with the lock of slot `s` set to `readers` and `writer`.
pub open spec fn with_lock(slots: Seq<Slot>, s: int, readers: usize, writer: bool) -> Seq<Slot> {
    slots.update(s, Slot { storage: slots[s].storage, readers, writer })
}

/// `after` differs from `before` at most in the storage of slot `s`, which
/// keeps its concrete type.
pub open spec fn only_storage_changed(before: Seq<Slot>, after: Seq<Slot>, s: int) -> bool {
    &&& after.len() == before.len()
    &&& forall|t: int| 0 <= t < before.len() && t != s ==> #[trigger] after[t] == before[t]
    &&& after[s].readers == before[s].readers
    &&& after[s].writer == before[s].writer
    &&& after[s].storage.kind() == before[s].storage.kind()
}

/// Where a write through slot `s` at `key` lands: the slot and key of the
/// backend item, when the item is there to be written. A backend writes to
/// itself; a writable view writes to its input under the selected key.
pub open spec fn write_target(slots: Seq<Slot>, s: int, key: usize) -> Option<(int, usize)> {
    match slots[s].storage {
        AnyStorage::View(w) => if w.lock_status() == InputStorageLockStatus::Writable && key
            < w.selected().len() && w.input() is Some {
            Some((w.input()->0 as int, w.selected()[key as int]))
        } else {
            None
        },
        _ => Some((s, key)),
    }
}

/// `after` differs from `before` only in the view of slot `v`, which now has
/// the selection `keys`, the input `input` and the retained lock `status`.
pub open spec fn view_updated(
    before: Seq<Slot>,
    after: Seq<Slot>,
    v: int,
    keys: Seq<usize>,
    input: Option<usize>,
    status: InputStorageLockStatus,
) -> bool {
    &&& after.len() == before.len()
    &&& forall|t: int| 0 <= t < before.len() && t != v ==> #[trigger] after[t] == before[t]
    &&& after[v].readers == before[v].readers
    &&& after[v].writer == before[v].writer
    &&& before[v].storage matches AnyStorage::View(w) && after[v].storage matches AnyStorage::View(w2)
        && w2.input_kind() == w.input_kind() && w2.selected() == keys && w2.input() == input
        && w2.lock_status() == status
}

/// While a view retains a shared lock on slot `s`, an exclusive lock on `s`
/// is not available.
pub proof fn lemma_read_view_excludes_writer(pool: StoragePool, v: int, s: int)
    requires
        0 <= v < pool@.len(),
        pool.holds_view_lock(v, s, InputStorageLockStatus::Readable),
    ensures
        !pool.can_write(s),
{
}

/// Clearing the only view that holds slot `s` makes an exclusive lock on `s`
/// available again, when no guard on `s` is out.
pub proof fn lemma_clear_view_frees_input(before: StoragePool, after: StoragePool, v: int, s: int)
    requires
        0 <= v < before@.len(),
        0 <= s < before@.len(),
        v != s,
        before@[s].readers == 0,
        !before@[s].writer,
        forall|u: int|
            0 <= u < before@.len() && u != v ==> !#[trigger] before.holds_view_lock(
                u,
                s,
                InputStorageLockStatus::Readable,
            ) && !before.holds_view_lock(u, s, InputStorageLockStatus::Writable),
        view_updated(
            before@,
            after@,
            v,
            Seq::empty(),
            before@[v].storage->View_0.input(),
            InputStorageLockStatus::Unset,
        ),
    ensures
        after.can_write(s),
{
    assert forall|u: int, st: InputStorageLockStatus|
        0 <= u < after@.len() && st != InputStorageLockStatus::Unset implies
        !#[trigger] after.holds_view_lock(
        u,
        s,
        st,
    ) by {
        if u != v {
            assert(after@[u] == before@[u]);
            assert(!before.holds_view_lock(u, s, InputStorageLockStatus::Readable));
            assert(!before.holds_view_lock(u, s, InputStorageLockStatus::Writable));
        }
    }
}

/// Once the view in slot `v` is created (its status is not `Unset`), creating
/// a view there again, readable or writable, fails with `ViewActive` until the
/// view is cleared.
pub proof fn lemma_second_view_refused(pool: StoragePool, v: int, write: bool)
    requires
        0 <= v < pool@.len(),
        pool.status_of(v) != InputStorageLockStatus::Unset,
    ensures
        pool.create_view_result(v, write) == Err::<(), StorageError>(StorageError::ViewActive),
{
}

impl StoragePool {
    pub open spec fn kind_of(&self, s: int) -> StorageKind {
        self@[s].storage.kind()
    }

    /// View slot `v` retains a lock of `status` on slot `s`.
    pub open spec fn holds_view_lock(&self, v: int, s: int, status: InputStorageLockStatus) -> bool {
        self@[v].storage matches AnyStorage::View(w) && w.input() == Some(s as usize)
            && w.lock_status() == status
    }

    /// Some view retains a lock of `status` on slot `s`.
    pub open spec fn retained(&self, s: int, status: InputStorageLockStatus) -> bool {
        exists|v: int| 0 <= v < self@.len() && #[trigger] self.holds_view_lock(v, s, status)
    }

    /// A shared lock on slot `s` is available: nobody holds it exclusively.
    pub open spec fn can_read(&self, s: int) -> bool {
        !self@[s].writer && !self.retained(s, InputStorageLockStatus::Writable)
    }

    /// An exclusive lock on slot `s` is available: nobody holds it at all.
    pub open spec fn can_write(&self, s: int) -> bool {
        &&& self@[s].readers == 0
        &&& !self@[s].writer
        &&& !self.retained(s, InputStorageLockStatus::Readable)
        &&& !self.retained(s, InputStorageLockStatus::Writable)
    }

    /// A transient shared lock on slot `s` can be taken now.
    pub open spec fn read_available(&self, s: int) -> bool {
        self.can_read(s) && self@[s].readers < usize::MAX
    }

    /// The lock that the view in slot `s` retains; `Unset` for a backend.
    pub open spec fn status_of(&self, s: int) -> InputStorageLockStatus {
        match self@[s].storage {
            AnyStorage::View(w) => w.lock_status(),
            _ => InputStorageLockStatus::Unset,
        }
    }

    /// The item under `key` in slot `s`; for a view, looked up through its
    /// selection in its input.
    pub open spec fn lookup(&self, s: int, key: usize) -> Option<i32> {
        match self@[s].storage {
            AnyStorage::View(w) => match w.input() {
                Some(i) => view_lookup(w.selected(), w.lock_status(), self@[i as int].storage, key),
                None => None,
            },
            _ => self@[s].storage.lookup(key),
        }
    }

    /// A view's input is a slot of the pool holding a backend of the kind the
    /// view reads, and a view with a retained lock has an input.
    pub open spec fn view_wf(&self, v: int) -> bool {
        self@[v].storage matches AnyStorage::View(w) ==> {
            &&& w.input() matches Some(i) ==> i < self@.len() && self@[i as int].storage.kind()
                == StorageKind::Backend(w.input_kind())
            &&& w.lock_status() != InputStorageLockStatus::Unset ==> w.input() is Some
        }
    }

    pub open spec fn wf(&self) -> bool {
        forall|v: int| 0 <= v < self@.len() ==> #[trigger] self.view_wf(v)
    }

    pub fn new() -> (r: Self)
        ensures
            r@ == Seq::<Slot>::empty(),
            r.wf(),
    {
        StoragePool { slots: Vec::new() }
    }

    pub fn len(&self) -> (r: usize)
        ensures
            r == self@.len(),
    {
        self.slots.len()
    }

    /// Puts `storage` into a new slot, unlocked, and returns the slot.
    pub fn add(&mut self, storage: AnyStorage) -> (id: usize)
        requires
            old(self).wf(),
            fresh_storage(storage),
            old(self)@.len() < usize::MAX,
        ensures
            final(self).wf(),
            id == old(self)@.len(),
            final(self)@ == old(self)@.push(Slot { storage, readers: 0, writer: false }),
            final(self).read_available(id as int),
    {
        let id = self.slots.len();
        self.slots.push(Slot { storage, readers: 0, writer: false });
        proof {
            assert forall|v: int| 0 <= v < self@.len() implies #[trigger] self.view_wf(v) by {
                if v < id {
                    assert(old(self).view_wf(v));
                    assert(self@[v] == old(self)@[v]);
                }
            }
            assert forall|v: int| 0 <= v < self@.len() implies !#[trigger] self.holds_view_lock(
                v,
                id as int,
                InputStorageLockStatus::Writable,
            ) by {
                if v < id {
                    assert(old(self).view_wf(v));
                    assert(self@[v] == old(self)@[v]);
                }
            }
        }
        id
    }

    pub fn kind(&self, s: usize) -> (r: StorageKind)
        requires
            s < self@.len(),
        ensures
            r == self.kind_of(s as int),
    {
        self.slots[s].storage.storage_kind()
    }

    pub fn status(&self, s: usize) -> (r: InputStorageLockStatus)
        requires
            s < self@.len(),
        ensures
            r == self.status_of(s as int),
    {
        match &self.slots[s].storage {
            AnyStorage::View(w) => w.status(),
            _ => InputStorageLockStatus::Unset,
        }
    }

    /// Whether some view retains a lock of `status` on slot `s`.
    fn is_retained(&self, s: usize, status: InputStorageLockStatus) -> (r: bool)
        ensures
            r == self.retained(s as int, status),
    {
        let n = self.slots.len();
        let mut v: usize = 0;
        while v < n
            invariant
                n == self@.len(),
                v <= n,
                forall|u: int| 0 <= u < v ==> !#[trigger] self.holds_view_lock(u, s as int, status),
            decreases n - v,
        {
            match &self.slots[v].storage {
                AnyStorage::View(w) => {
                    if w.get_input_storage() == Some(s) && w.status() == status {
                        assert(self.holds_view_lock(v as int, s as int, status));
                        return true;
                    }
                },
                _ => {},
            }
            v = v + 1;
        }
        false
    }

    proof fn lemma_lock_change_keeps_wf(&self, after: &Self, s: int, readers: usize, writer: bool)
        requires
            self.wf(),
            0 <= s < self@.len(),
            after@ == with_lock(self@, s, readers, writer),
        ensures
            after.wf(),
            forall|t: int, st: InputStorageLockStatus| #[trigger]
                after.retained(t, st) == self.retained(t, st),
            forall|t: int, k: usize|
                0 <= t < self@.len() ==> #[trigger] after.lookup(t, k) == self.lookup(t, k),
    {
        assert forall|t: int, k: usize| 0 <= t < self@.len() implies #[trigger] after.lookup(t, k)
            == self.lookup(t, k) by {
            assert(self.view_wf(t));
            assert(after@[t].storage == self@[t].storage);
            match self@[t].storage {
                AnyStorage::View(w) => {
                    if let Some(i) = w.input() {
                        assert(after@[i as int].storage == self@[i as int].storage);
                    }
                },
                _ => {},
            }
        }
        assert forall|v: int| 0 <= v < after@.len() implies #[trigger] after.view_wf(v) by {
            assert(self.view_wf(v));
        }
        assert forall|t: int, st: InputStorageLockStatus| #[trigger]
            after.retained(t, st) == self.retained(t, st) by {
            if self.retained(t, st) {
                let v = choose|v: int| 0 <= v < self@.len() && #[trigger] self.holds_view_lock(v, t, st);
                assert(after.holds_view_lock(v, t, st));
            }
            if after.retained(t, st) {
                let v = choose|v: int| 0 <= v < after@.len() && #[trigger] after.holds_view_lock(v, t, st);
                assert(self.holds_view_lock(v, t, st));
            }
        }
    }

    /// Whether a transient shared lock on slot `s` can be taken now.
    pub fn read_available_at(&self, s: usize) -> (r: bool)
        requires
            s < self@.len(),
        ensures
            r == self.read_available(s as int),
    {
        !self.slots[s].writer && self.slots[s].readers < usize::MAX && !self.is_retained(
            s,
            InputStorageLockStatus::Writable,
        )
    }

    /// Takes a shared lock on slot `s` if one is available now.
    pub fn try_lock_read(&mut self, s: usize) -> (r: Result<(), StorageError>)
        requires
            old(self).wf(),
            s < old(self)@.len(),
        ensures
            final(self).wf(),
            r is Ok <==> old(self).can_read(s as int) && old(self)@[s as int].readers < usize::MAX,
            r is Ok ==> final(self)@ == with_lock(
                old(self)@,
                s as int,
                (old(self)@[s as int].readers + 1) as usize,
                old(self)@[s as int].writer,
            ),
            r is Err ==> final(self)@ == old(self)@ && r == Err::<(), StorageError>(
                StorageError::LockUnavailable,
            ),
    {
        if self.slots[s].writer || self.slots[s].readers == usize::MAX || self.is_retained(
            s,
            InputStorageLockStatus::Writable,
        ) {
            return Err(StorageError::LockUnavailable);
        }
        let ghost before = *self;
        self.slots[s].readers = self.slots[s].readers + 1;
        proof {
            let n = (before@[s as int].readers + 1) as usize;
            assert(self@ =~= with_lock(before@, s as int, n, before@[s as int].writer));
            before.lemma_lock_change_keeps_wf(self, s as int, n, before@[s as int].writer);
        }
        Ok(())
    }

    /// Takes an exclusive lock on slot `s` if one is available now.
    pub fn try_lock_write(&mut self, s: usize) -> (r: Result<(), StorageError>)
        requires
            old(self).wf(),
            s < old(self)@.len(),
        ensures
            final(self).wf(),
            r is Ok <==> old(self).can_write(s as int),
            r is Ok ==> final(self)@ == with_lock(old(self)@, s as int, 0, true),
            r is Err ==> final(self)@ == old(self)@ && r == Err::<(), StorageError>(
                StorageError::LockUnavailable,
            ),
    {
        if self.slots[s].writer || self.slots[s].readers != 0 || self.is_retained(
            s,
            InputStorageLockStatus::Readable,
        ) || self.is_retained(s, InputStorageLockStatus::Writable) {
            return Err(StorageError::LockUnavailable);
        }
        let ghost before = *self;
        self.slots[s].writer = true;
        proof {
            assert(self@ =~= with_lock(before@, s as int, 0, true));
            before.lemma_lock_change_keeps_wf(self, s as int, 0, true);
        }
        Ok(())
    }

    /// Gives back the shared lock of `guard`.
    pub fn release_read(&mut self, guard: StorageReadGuard)
        requires
            old(self).wf(),
            guard.slot() < old(self)@.len(),
        ensures
            final(self).wf(),
            final(self)@ == with_lock(
                old(self)@,
                guard.slot(),
                (if old(self)@[guard.slot()].readers > 0 {
                    old(self)@[guard.slot()].readers - 1
                } else {
                    0
                }) as usize,
                old(self)@[guard.slot()].writer,
            ),
    {
        let s = guard.storage_id();
        let ghost before = *self;
        if self.slots[s].readers > 0 {
            self.slots[s].readers = self.slots[s].readers - 1;
        }
        proof {
            let n = (if before@[s as int].readers > 0 { before@[s as int].readers - 1 } else { 0 }) as usize;
            assert(self@ =~= with_lock(before@, s as int, n, before@[s as int].writer));
            before.lemma_lock_change_keeps_wf(self, s as int, n, before@[s as int].writer);
        }
    }

    /// Gives back the exclusive lock of `guard`.
    pub fn release_write(&mut self, guard: StorageWriteGuard)
        requires
            old(self).wf(),
            guard.slot() < old(self)@.len(),
        ensures
            final(self).wf(),
            final(self)@ == with_lock(
                old(self)@,
                guard.slot(),
                old(self)@[guard.slot()].readers,
                false,
            ),
    {
        let s = guard.storage_id();
        let ghost before = *self;
        self.slots[s].writer = false;
        proof {
            assert(self@ =~= with_lock(before@, s as int, before@[s as int].readers, false));
            before.lemma_lock_change_keeps_wf(self, s as int, before@[s as int].readers, false);
        }
    }

    /// The number of items in slot `s`; for a view, of selected keys.
    pub fn len_of(&self, guard: &StorageReadGuard) -> (r: usize)
        requires
            guard.slot() < self@.len(),
        ensures
            r == self@[guard.slot()].storage.spec_len(),
    {
        self.slots[guard.storage_id()].storage.len()
    }

    pub fn get(&self, guard: &StorageReadGuard, key: usize) -> (r: Option<i32>)
        requires
            self.wf(),
            guard.slot() < self@.len(),
        ensures
            r == self.lookup(guard.slot(), key),
    {
        self.lookup_at(guard.storage_id(), key)
    }

    pub fn contains(&self, guard: &StorageReadGuard, key: usize) -> (r: bool)
        requires
            self.wf(),
            guard.slot() < self@.len(),
        ensures
            r == self.lookup(guard.slot(), key) is Some,
    {
        self.lookup_at(guard.storage_id(), key).is_some()
    }

    /// Reads through an exclusive guard.
    pub fn get_exclusive(&self, guard: &StorageWriteGuard, key: usize) -> (r: Option<i32>)
        requires
            self.wf(),
            guard.slot() < self@.len(),
        ensures
            r == self.lookup(guard.slot(), key),
    {
        self.lookup_at(guard.storage_id(), key)
    }

    /// The number of items in slot `s`; for a view, of selected keys.
    pub fn slot_len(&self, s: usize) -> (r: usize)
        requires
            s < self@.len(),
        ensures
            r == self@[s as int].storage.spec_len(),
    {
        self.slots[s].storage.len()
    }

    /// The item under `key` in slot `s`.
    pub fn lookup_at(&self, s: usize, key: usize) -> (r: Option<i32>)
        requires
            self.wf(),
            s < self@.len(),
        ensures
            r == self.lookup(s as int, key),
    {
        proof {
            assert(self.view_wf(s as int));
        }
        match &self.slots[s].storage {
            AnyStorage::View(w) => match w.get_input_storage() {
                Some(i) => w.get(&self.slots[i].storage, key),
                None => None,
            },
            other => other.get(key),
        }
    }

    /// Every `(key, item)` pair of slot `s` once. A backend gives its own
    /// order; a view gives its view keys in selection order.
    pub fn key_items(&self, guard: &StorageReadGuard) -> (r: Vec<(usize, i32)>)
        requires
            self.wf(),
            guard.slot() < self@.len(),
        ensures
            forall|i: int|
                0 <= i < r@.len() ==> self.lookup(guard.slot(), #[trigger] r@[i].0) == Some(r@[i].1),
            forall|k: usize| #[trigger]
                self.lookup(guard.slot(), k) is Some ==> exists|i: int| 0 <= i < r@.len() && r@[i].0 == k,
            forall|i: int, j: int| 0 <= i < j < r@.len() ==> r@[i].0 != r@[j].0,
            self@[guard.slot()].storage matches AnyStorage::Vec(v) ==> r@ == Seq::new(
                v@.len(),
                |i: int| (i as usize, v@[i]),
            ),
            self@[guard.slot()].storage matches AnyStorage::SparseSet(v) ==> r@ == v@,
            self@[guard.slot()].storage matches AnyStorage::Val(v) ==> r@ == seq![(0usize, v.data)],
            self@[guard.slot()].storage matches AnyStorage::View(w) ==> r@ == (if w.lock_status()
                == InputStorageLockStatus::Unset {
                Seq::empty()
            } else {
                view_pairs(w.selected(), self@[w.input()->0 as int].storage, w.selected().len())
            }),
    {
        let s = guard.storage_id();
        proof {
            assert(self.view_wf(s as int));
        }
        match &self.slots[s].storage {
            AnyStorage::View(w) => match w.get_input_storage() {
                Some(i) => {
                    let r = w.key_items(&self.slots[i].storage);
                    proof {
                        let keys = w.selected();
                        let input = self@[i as int].storage;
                        if w.lock_status() != InputStorageLockStatus::Unset {
                            w.lemma_selected_bound();
                            lemma_view_pairs(keys, input, keys.len());
                            assert forall|k: usize| #[trigger]
                                self.lookup(s as int, k) is Some implies exists|j: int|
                                    0 <= j < r@.len() && r@[j].0 == k by {
                                assert(k < keys.len());
                                assert(input.lookup(keys[k as int]) is Some);
                                let j = choose|j: int|
                                    0 <= j < r@.len() && #[trigger] r@[j].0 == k as int;
                                assert(r@[j].0 == k);
                            }
                        }
                    }
                    r
                },
                None => Vec::new(),
            },
            other => other.key_items(),
        }
    }

    /// The contiguous items of slot `s`.
    pub fn as_item_slice(&self, guard: &StorageReadGuard) -> (r: &[i32])
        requires
            guard.slot() < self@.len(),
            satisfies(self.kind_of(guard.slot()), Capability::ItemSlice),
        ensures
            r@ == self@[guard.slot()].storage.slice_items(),
    {
        self.slots[guard.storage_id()].storage.as_item_slice()
    }

    /// The contiguous items of slot `s`, to be written in place. The pool stays
    /// well formed: see `lemma_storage_change_keeps_wf`.
    pub fn as_mut_item_slice(&mut self, guard: &StorageWriteGuard) -> (r: &mut [i32])
        requires
            old(self).wf(),
            guard.slot() < old(self)@.len(),
            satisfies(old(self).kind_of(guard.slot()), Capability::MutItemSlice),
        ensures
            r@ == old(self)@[guard.slot()].storage.slice_items(),
            only_storage_changed(old(self)@, final(self)@, guard.slot()),
            final(self)@[guard.slot()].storage.slice_items() == final(r)@,
    {
        self.slots[guard.storage_id()].storage.as_mut_slice()
    }

    /// Stores `item` under `key` through slot `s`. A backend inserts by its own
    /// rule; a writable view overwrites the input's item under the selected key,
    /// which must be there.
    pub fn insert(&mut self, guard: &StorageWriteGuard, key: usize, item: i32)
        requires
            old(self).wf(),
            guard.slot() < old(self)@.len(),
            satisfies(old(self).kind_of(guard.slot()), Capability::MutKeyItem),
            old(self)@[guard.slot()].storage is View ==> write_target(old(self)@, guard.slot(), key)
                is Some && old(self).lookup(guard.slot(), key) is Some,
            !(old(self)@[guard.slot()].storage is View) ==> old(self)@[guard.slot()].storage.can_insert(key),
        ensures
            final(self).wf(),
            final(self).lookup(guard.slot(), key) == Some(item),
            forall|t: int|
                0 <= t < old(self)@.len() ==> #[trigger] final(self).kind_of(t) == old(self).kind_of(
                    t,
                ),
            !(old(self)@[guard.slot()].storage is View) ==> only_storage_changed(
                old(self)@,
                final(self)@,
                guard.slot(),
            ) && inserted(
                old(self)@[guard.slot()].storage,
                final(self)@[guard.slot()].storage,
                key,
                item,
            ),
            old(self)@[guard.slot()].storage is View ==> (write_target(
                old(self)@,
                guard.slot(),
                key,
            ) matches Some((t, k))
                ==> only_storage_changed(old(self)@, final(self)@, t) && forall|k2: usize| #[trigger]
                final(self)@[t].storage.lookup(k2) == (if k2 == k {
                Some(item)
            } else {
                old(self)@[t].storage.lookup(k2)
            })),
    {
        let s = guard.storage_id();
        let ghost before = *self;
        proof {
            assert(self.view_wf(s as int));
        }
        let is_view = match &self.slots[s].storage {
            AnyStorage::View(_) => true,
            _ => false,
        };
        if is_view {
            let _ = self.replace_at(s, key, item);
        } else {
            self.slots[s].storage.insert(key, item);
            proof {
                assert(only_storage_changed(before@, self@, s as int));
                before.lemma_storage_change_keeps_wf(self, s as int);
            }
        }
    }

    /// Overwrites in place the item that a write through slot `s` at `key`
    /// reaches, if it is there, and returns the old item.
    pub fn replace(&mut self, guard: &StorageWriteGuard, key: usize, item: i32) -> (r: Option<i32>)
        requires
            old(self).wf(),
            guard.slot() < old(self)@.len(),
            satisfies(old(self).kind_of(guard.slot()), Capability::MutKeyItem),
        ensures
            final(self).wf(),
            match write_target(old(self)@, guard.slot(), key) {
                Some((t, k)) => {
                    &&& r == old(self)@[t].storage.lookup(k)
                    &&& only_storage_changed(old(self)@, final(self)@, t)
                    &&& forall|k2: usize| #[trigger] final(self)@[t].storage.lookup(k2) == (if k2 == k
                        && old(self)@[t].storage.lookup(k2) is Some {
                        Some(item)
                    } else {
                        old(self)@[t].storage.lookup(k2)
                    })
                },
                None => r is None && final(self)@ == old(self)@,
            },
    {
        self.replace_at(guard.storage_id(), key, item)
    }

    fn replace_at(&mut self, s: usize, key: usize, item: i32) -> (r: Option<i32>)
        requires
            old(self).wf(),
            s < old(self)@.len(),
            satisfies(old(self).kind_of(s as int), Capability::MutKeyItem),
        ensures
            final(self).wf(),
            match write_target(old(self)@, s as int, key) {
                Some((t, k)) => {
                    &&& r == old(self)@[t].storage.lookup(k)
                    &&& only_storage_changed(old(self)@, final(self)@, t)
                    &&& forall|k2: usize| #[trigger] final(self)@[t].storage.lookup(k2) == (if k2 == k
                        && old(self)@[t].storage.lookup(k2) is Some {
                        Some(item)
                    } else {
                        old(self)@[t].storage.lookup(k2)
                    })
                },
                None => r is None && final(self)@ == old(self)@,
            },
            old(self)@[s as int].storage is View && write_target(old(self)@, s as int, key) is Some
                && old(self).lookup(s as int, key) is Some ==> final(self).lookup(s as int, key)
                == Some(item),
            !(old(self)@[s as int].storage is View) && old(self).lookup(s as int, key) is Some
                ==> final(self).lookup(s as int, key) == Some(item),
            forall|t: int|
                0 <= t < old(self)@.len() ==> #[trigger] final(self).kind_of(t) == old(self).kind_of(
                    t,
                ),
    {
        let ghost before = *self;
        proof {
            assert(self.view_wf(s as int));
        }
        let target: Option<(usize, usize)> = match &self.slots[s].storage {
            AnyStorage::View(w) => {
                if w.status() == InputStorageLockStatus::Writable {
                    match (w.get_input_storage(), w.input_key(key)) {
                        (Some(i), Some(k)) => Some((i, k)),
                        _ => None,
                    }
                } else {
                    None
                }
            },
            _ => Some((s, key)),
        };
        match target {
            Some((t, k)) => {
                let r = self.slots[t].storage.replace(k, item);
                proof {
                    assert(only_storage_changed(before@, self@, t as int));
                    before.lemma_storage_change_keeps_wf(self, t as int);
                    if before@[s as int].storage is View {
                        assert(self@[s as int] == before@[s as int]);
                    }
                }
                r
            },
            None => None,
        }
    }

    /// Changing the items of a backend keeps the pool well formed.
    pub proof fn lemma_storage_change_keeps_wf(&self, after: &Self, s: int)
        requires
            self.wf(),
            0 <= s < self@.len(),
            only_storage_changed(self@, after@, s),
            !(self@[s].storage is View),
        ensures
            after.wf(),
            forall|t: int| 0 <= t < self@.len() ==> #[trigger] after.kind_of(t) == self.kind_of(t),
    {
        assert forall|v: int| 0 <= v < after@.len() implies #[trigger] after.view_wf(v) by {
            assert(self.view_wf(v));
            if v != s {
                assert(after@[v] == self@[v]);
            }
        }
        assert forall|t: int| 0 <= t < self@.len() implies #[trigger] after.kind_of(t) == self.kind_of(t) by {
            if t != s {
                assert(after@[t] == self@[t]);
            }
        }
    }

    /// Removes every item of the writable backend in slot `s`.
    pub fn clear(&mut self, guard: &StorageWriteGuard)
        requires
            old(self).wf(),
            guard.slot() < old(self)@.len(),
            satisfies(old(self).kind_of(guard.slot()), Capability::MutKeyItem),
            !(old(self)@[guard.slot()].storage is View),
        ensures
            final(self).wf(),
            final(self)@[guard.slot()].storage.spec_len() == 0,
            only_storage_changed(old(self)@, final(self)@, guard.slot()),
    {
        let s = guard.storage_id();
        let ghost before = *self;
        self.slots[s].storage.clear();
        proof {
            assert(only_storage_changed(before@, self@, s as int));
            before.lemma_storage_change_keeps_wf(self, s as int);
        }
    }

    proof fn lemma_view_change_keeps_wf(
        &self,
        after: &Self,
        v: int,
        keys: Seq<usize>,
        input: Option<usize>,
        status: InputStorageLockStatus,
    )
        requires
            self.wf(),
            0 <= v < self@.len(),
            view_updated(self@, after@, v, keys, input, status),
            input matches Some(i) ==> i < self@.len() && self.kind_of(i as int)
                == StorageKind::Backend(self@[v].storage->View_0.input_kind()),
            status != InputStorageLockStatus::Unset ==> input is Some,
        ensures
            after.wf(),
            forall|t: int| 0 <= t < self@.len() ==> #[trigger] after.kind_of(t) == self.kind_of(t),
    {
        assert forall|t: int| 0 <= t < self@.len() implies #[trigger] after.kind_of(t) == self.kind_of(t) by {
            if t != v {
                assert(after@[t] == self@[t]);
            }
        }
        assert forall|u: int| 0 <= u < after@.len() implies #[trigger] after.view_wf(u) by {
            assert(self.view_wf(u));
            if u != v {
                assert(after@[u] == self@[u]);
                if let AnyStorage::View(w) = self@[u].storage {
                    if let Some(i) = w.input() {
                        assert(after.kind_of(i as int) == self.kind_of(i as int));
                    }
                }
            } else {
                if let Some(i) = input {
                    assert(after.kind_of(i as int) == self.kind_of(i as int));
                }
            }
        }
    }

    /// Attaches slot `input` to the view in slot `v` as its input; the view is
    /// cleared.
    pub fn set_view_input(&mut self, v: usize, input: usize) -> (r: Result<(), StorageError>)
        requires
            old(self).wf(),
            v < old(self)@.len(),
            input < old(self)@.len(),
        ensures
            final(self).wf(),
            !(old(self)@[v as int].storage is View) ==> r == Err::<(), StorageError>(
                StorageError::InvalidCast { from: old(self).kind_of(v as int), to: Capability::ViewSetup },
            ),
            old(self)@[v as int].storage is View && old(self).status_of(v as int)
                != InputStorageLockStatus::Unset ==> r == Err::<(), StorageError>(StorageError::ViewActive),
            old(self)@[v as int].storage is View && old(self).status_of(v as int)
                == InputStorageLockStatus::Unset && old(self).kind_of(input as int)
                != StorageKind::Backend(old(self)@[v as int].storage->View_0.input_kind()) ==> r
                == Err::<(), StorageError>(
                StorageError::InvalidCast {
                    from: old(self).kind_of(input as int),
                    to: Capability::Concrete(
                        StorageKind::Backend(old(self)@[v as int].storage->View_0.input_kind()),
                    ),
                },
            ),
            r is Ok <==> old(self)@[v as int].storage is View && old(self).status_of(v as int)
                == InputStorageLockStatus::Unset && old(self).kind_of(input as int)
                == StorageKind::Backend(old(self)@[v as int].storage->View_0.input_kind()),
            r is Ok ==> view_updated(
                old(self)@,
                final(self)@,
                v as int,
                Seq::empty(),
                Some(input),
                InputStorageLockStatus::Unset,
            ),
            r is Err ==> final(self)@ == old(self)@,
    {
        let input_kind = self.slots[input].storage.storage_kind();
        match &self.slots[v].storage {
            AnyStorage::View(w) => {
                if w.status() != InputStorageLockStatus::Unset {
                    return Err(StorageError::ViewActive);
                }
                let wanted = StorageKind::Backend(w.get_input_kind());
                if input_kind != wanted {
                    return Err(
                        StorageError::InvalidCast {
                            from: input_kind,
                            to: Capability::Concrete(wanted),
                        },
                    );
                }
            },
            _ => {
                return Err(
                    StorageError::InvalidCast {
                        from: self.slots[v].storage.storage_kind(),
                        to: Capability::ViewSetup,
                    },
                );
            },
        }
        let ghost before = *self;
        match &mut self.slots[v].storage {
            AnyStorage::View(w) => {
                w.set_input_storage(input);
            },
            _ => {},
        }
        proof {
            before.lemma_view_change_keeps_wf(
                self,
                v as int,
                Seq::empty(),
                Some(input),
                InputStorageLockStatus::Unset,
            );
        }
        Ok(())
    }

    /// Creates a view in slot `v` over `keys`, retaining on its input a shared
    /// lock (`write` false) or an exclusive one (`write` true).
    pub fn create_view(&mut self, v: usize, keys: Vec<usize>, write: bool) -> (r: Result<(), StorageError>)
        requires
            old(self).wf(),
            v < old(self)@.len(),
        ensures
            final(self).wf(),
            r == old(self).create_view_result(v as int, write),
            r is Ok ==> view_updated(
                old(self)@,
                final(self)@,
                v as int,
                keys@,
                old(self)@[v as int].storage->View_0.input(),
                if write {
                    InputStorageLockStatus::Writable
                } else {
                    InputStorageLockStatus::Readable
                },
            ),
            r is Err ==> final(self)@ == old(self)@,
    {
        proof {
            assert(self.view_wf(v as int));
        }
        let input = match &self.slots[v].storage {
            AnyStorage::View(w) => {
                if w.status() != InputStorageLockStatus::Unset {
                    return Err(StorageError::ViewActive);
                }
                match w.get_input_storage() {
                    Some(i) => i,
                    None => {
                        return Err(StorageError::InputNotSet);
                    },
                }
            },
            _ => {
                return Err(
                    StorageError::InvalidCast {
                        from: self.slots[v].storage.storage_kind(),
                        to: Capability::ViewSetup,
                    },
                );
            },
        };
        let input_lock = self.input_lock_state(input);
        let available = if write {
            input_lock.readers == 0 && !input_lock.writer && !input_lock.retained_shared
                && !input_lock.retained_exclusive
        } else {
            !input_lock.writer && !input_lock.retained_exclusive
        };
        if !available {
            return Err(StorageError::LockUnavailable);
        }
        let ghost before = *self;
        match &mut self.slots[v].storage {
            AnyStorage::View(w) => {
                let _ = if write {
                    w.create_write_view(keys, input_lock)
                } else {
                    w.create_read_view(keys, input_lock)
                };
            },
            _ => {},
        }
        proof {
            before.lemma_view_change_keeps_wf(
                self,
                v as int,
                keys@,
                Some(input),
                if write {
                    InputStorageLockStatus::Writable
                } else {
                    InputStorageLockStatus::Readable
                },
            );
        }
        Ok(())
    }

    /// The outcome of `create_view(v, _, write)`.
    pub open spec fn create_view_result(&self, v: int, write: bool) -> Result<(), StorageError> {
        match self@[v].storage {
            AnyStorage::View(w) => if w.lock_status() != InputStorageLockStatus::Unset {
                Err(StorageError::ViewActive)
            } else {
                match w.input() {
                    None => Err(StorageError::InputNotSet),
                    Some(i) => if (write && self.can_write(i as int)) || (!write && self.can_read(
                        i as int,
                    )) {
                        Ok(())
                    } else {
                        Err(StorageError::LockUnavailable)
                    },
                }
            },
            _ => Err(StorageError::InvalidCast { from: self.kind_of(v), to: Capability::ViewSetup }),
        }
    }

    /// The lock state of slot `s`, as a view's input.
    pub open spec fn spec_input_lock(&self, s: int) -> InputLockState {
        InputLockState {
            readers: self@[s].readers,
            writer: self@[s].writer,
            retained_shared: self.retained(s, InputStorageLockStatus::Readable),
            retained_exclusive: self.retained(s, InputStorageLockStatus::Writable),
        }
    }

    pub fn input_lock_state(&self, s: usize) -> (r: InputLockState)
        requires
            s < self@.len(),
        ensures
            r == self.spec_input_lock(s as int),
            r.shared_available() == self.can_read(s as int),
            r.exclusive_available() == self.can_write(s as int),
    {
        InputLockState {
            readers: self.slots[s].readers,
            writer: self.slots[s].writer,
            retained_shared: self.is_retained(s, InputStorageLockStatus::Readable),
            retained_exclusive: self.is_retained(s, InputStorageLockStatus::Writable),
        }
    }

    /// Clears the view in slot `v`: its selection is dropped and the lock it
    /// retained on its input is released.
    pub fn clear_view(&mut self, v: usize) -> (r: Result<(), StorageError>)
        requires
            old(self).wf(),
            v < old(self)@.len(),
        ensures
            final(self).wf(),
            r is Ok <==> old(self)@[v as int].storage is View,
            r is Ok ==> view_updated(
                old(self)@,
                final(self)@,
                v as int,
                Seq::empty(),
                old(self)@[v as int].storage->View_0.input(),
                InputStorageLockStatus::Unset,
            ),
            r is Err ==> final(self)@ == old(self)@ && r == Err::<(), StorageError>(
                StorageError::InvalidCast { from: old(self).kind_of(v as int), to: Capability::ViewSetup },
            ),
    {
        proof {
            assert(self.view_wf(v as int));
        }
        match &self.slots[v].storage {
            AnyStorage::View(_) => {},
            other => {
                return Err(
                    StorageError::InvalidCast { from: other.storage_kind(), to: Capability::ViewSetup },
                );
            },
        }
        let ghost before = *self;
        match &mut self.slots[v].storage {
            AnyStorage::View(w) => {
                w.clear_view();
            },
            _ => {},
        }
        proof {
            let w = before@[v as int].storage->View_0;
            before.lemma_view_change_keeps_wf(
                self,
                v as int,
                Seq::empty(),
                w.input(),
                InputStorageLockStatus::Unset,
            );
        }
        Ok(())
    }
}

} // verus!
