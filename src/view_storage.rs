//! A filtering view: a re-keyed window onto an input backend. The view's key
//! `i` is the `i`-th selected input key. While a view is active it retains a
//! shared or an exclusive lock on its input.
use vstd::prelude::*;

use crate::any_storage::{AnyStorage, BackendKind};
use crate::storage_traits::{Storage, ViewStorageSetup};
use crate::StorageError;

verus! {

/// The lock that a view retains on its input: none (no view is created), a
/// shared one (the view is readable) or an exclusive one (it is writable).
#[derive(Clone, Copy, Debug, PartialEq, Eq, Structural)]
pub enum InputStorageLockStatus {
    Unset,
    Readable,
    Writable,
}

/// The lock state of a view's input at one moment: the shared and exclusive
/// guards out on it, and whether views retain a shared or an exclusive lock
/// on it.
#[derive(Clone, Copy, Debug, PartialEq, Eq, Structural)]
pub struct InputLockState {
    pub readers: usize,
    pub writer: bool,
    pub retained_shared: bool,
    pub retained_exclusive: bool,
}

impl InputLockState {
    /// A shared lock can be taken: nobody holds the input exclusively.
    pub open spec fn shared_available(&self) -> bool {
        !self.writer && !self.retained_exclusive
    }

    /// An exclusive lock can be taken: nobody holds the input at all.
    pub open spec fn exclusive_available(&self) -> bool {
        self.readers == 0 && !self.writer && !self.retained_shared && !self.retained_exclusive
    }
}

#[derive(Debug)]
pub struct KeyItemViewStorage {
    view_keys: Vec<usize>,
    input_kind: BackendKind,
    input_storage: Option<usize>,
    status: InputStorageLockStatus,
}

/// The item behind the view's key `key`: the input's item under the selected
/// key at position `key`, while a view is active.
pub open spec fn view_lookup(
    keys: Seq<usize>,
    status: InputStorageLockStatus,
    input: AnyStorage,
    key: usize,
) -> Option<i32> {
    if status != InputStorageLockStatus::Unset && key < keys.len() {
        input.lookup(keys[key as int])
    } else {
        None
    }
}

/// The `(view key, item)` pairs of the first `n` selected keys, in selection
/// order, leaving out the keys that the input does not have.
pub open spec fn view_pairs(keys: Seq<usize>, input: AnyStorage, n: nat) -> Seq<(usize, i32)>
    decreases n,
{
    if n == 0 {
        Seq::empty()
    } else {
        let prev = view_pairs(keys, input, (n - 1) as nat);
        match input.lookup(keys[n - 1]) {
            Some(item) => prev.push(((n - 1) as usize, item)),
            None => prev,
        }
    }
}

/// The pairs of `view_pairs` are, in increasing order of view key, exactly
/// the view keys below `n` whose selected key the input has, each with its
/// item.
pub proof fn lemma_view_pairs(keys: Seq<usize>, input: AnyStorage, n: nat)
    requires
        n <= keys.len(),
        n <= usize::MAX + 1,
    ensures
        forall|j: int|
            0 <= j < view_pairs(keys, input, n).len() ==> {
                let (k, item) = #[trigger] view_pairs(keys, input, n)[j];
                k < n && input.lookup(keys[k as int]) == Some(item)
            },
        forall|i: int|
            0 <= i < n && input.lookup(keys[i]) is Some ==> exists|j: int|
                0 <= j < view_pairs(keys, input, n).len() && #[trigger] view_pairs(keys, input, n)[j].0
                    == i,
        forall|a: int, b: int|
            0 <= a < b < view_pairs(keys, input, n).len() ==> view_pairs(keys, input, n)[a].0
                < view_pairs(keys, input, n)[b].0,
    decreases n,
{
    if n > 0 {
        let m = (n - 1) as nat;
        lemma_view_pairs(keys, input, m);
        let prev = view_pairs(keys, input, m);
        let cur = view_pairs(keys, input, n);
        match input.lookup(keys[m as int]) {
            Some(item) => {
                assert(cur == prev.push((m as usize, item)));
                assert forall|i: int| 0 <= i < n && input.lookup(keys[i]) is Some implies exists|j: int|
                    0 <= j < cur.len() && #[trigger] cur[j].0 == i by {
                    if i < m {
                        let j = choose|j: int| 0 <= j < prev.len() && #[trigger] prev[j].0 == i;
                        assert(cur[j] == prev[j]);
                    } else {
                        assert(cur[prev.len() as int].0 == i);
                    }
                }
            },
            None => {
                assert(cur == prev);
            },
        }
    }
}

impl KeyItemViewStorage {
    pub closed spec fn input_kind(&self) -> BackendKind {
        self.input_kind
    }

    /// The selected input keys.
    pub closed spec fn selected(&self) -> Seq<usize> {
        self.view_keys@
    }

    pub proof fn lemma_selected_bound(&self)
        ensures
            self.selected().len() <= usize::MAX,
    {
        assert(self.view_keys.len() == self.view_keys@.len());
    }

    /// The input storage, by slot.
    pub closed spec fn input(&self) -> Option<usize> {
        self.input_storage
    }

    /// The lock retained on the input.
    pub closed spec fn lock_status(&self) -> InputStorageLockStatus {
        self.status
    }

    /// A view over inputs of kind `input_kind`, with no input and no view yet.
    pub fn new(input_kind: BackendKind) -> (r: Self)
        ensures
            r.input_kind() == input_kind,
            r.selected() == Seq::<usize>::empty(),
            r.input() is None,
            r.lock_status() == InputStorageLockStatus::Unset,
    {
        KeyItemViewStorage {
            view_keys: Vec::new(),
            input_kind,
            input_storage: None,
            status: InputStorageLockStatus::Unset,
        }
    }

    pub fn get_input_kind(&self) -> (r: BackendKind)
        ensures
            r == self.input_kind(),
    {
        self.input_kind
    }

    pub fn status(&self) -> (r: InputStorageLockStatus)
        ensures
            r == self.lock_status(),
    {
        self.status
    }

    pub fn as_keys_slice(&self) -> (r: &[usize])
        ensures
            r@ == self.selected(),
    {
        self.view_keys.as_slice()
    }

    /// The input key selected at position `key`, if there is one.
    pub fn input_key(&self, key: usize) -> (r: Option<usize>)
        ensures
            r == (if key < self.selected().len() {
                Some(self.selected()[key as int])
            } else {
                None
            }),
    {
        if key < self.view_keys.len() {
            Some(self.view_keys[key])
        } else {
            None
        }
    }

    /// Looks `key` up through the selection in `input`.
    pub fn get(&self, input: &AnyStorage, key: usize) -> (r: Option<i32>)
        requires
            input.is_backend(),
        ensures
            r == view_lookup(self.selected(), self.lock_status(), *input, key),
    {
        if self.status == InputStorageLockStatus::Unset {
            return None;
        }
        match self.input_key(key) {
            Some(k) => input.get(k),
            None => None,
        }
    }

    /// The `(view key, item)` pairs in selection order.
    pub fn key_items(&self, input: &AnyStorage) -> (r: Vec<(usize, i32)>)
        requires
            input.is_backend(),
        ensures
            r@ == (if self.lock_status() == InputStorageLockStatus::Unset {
                Seq::empty()
            } else {
                view_pairs(self.selected(), *input, self.selected().len())
            }),
    {
        let mut out: Vec<(usize, i32)> = Vec::new();
        if self.status == InputStorageLockStatus::Unset {
            return out;
        }
        let n = self.view_keys.len();
        let mut i: usize = 0;
        while i < n
            invariant
                n == self.view_keys@.len(),
                i <= n,
                input.is_backend(),
                out@ == view_pairs(self.view_keys@, *input, i as nat),
            decreases n - i,
        {
            match input.get(self.view_keys[i]) {
                Some(item) => out.push((i, item)),
                None => {},
            }
            i = i + 1;
        }
        out
    }
}

impl Storage for KeyItemViewStorage {
    /// The number of selected keys.
    open spec fn spec_len(&self) -> nat {
        self.selected().len()
    }

    fn len(&self) -> (r: usize) {
        self.view_keys.len()
    }
}

impl ViewStorageSetup for KeyItemViewStorage {
    open spec fn spec_view_keys(&self) -> Seq<usize> {
        self.selected()
    }

    open spec fn spec_input(&self) -> Option<usize> {
        self.input()
    }

    open spec fn spec_status(&self) -> InputStorageLockStatus {
        self.lock_status()
    }

    fn clear_view(&mut self)
        ensures
            final(self).input_kind() == old(self).input_kind(),
    {
        self.view_keys.clear();
        self.status = InputStorageLockStatus::Unset;
    }

    fn set_input_storage(&mut self, input: usize)
        ensures
            final(self).input_kind() == old(self).input_kind(),
    {
        self.clear_view();
        self.input_storage = Some(input);
    }

    fn get_input_storage(&self) -> (r: Option<usize>) {
        self.input_storage
    }

    fn create_read_view(&mut self, keys: Vec<usize>, input_lock: InputLockState) -> (r: Result<
        (),
        StorageError,
    >)
        ensures
            final(self).input_kind() == old(self).input_kind(),
    {
        if self.status != InputStorageLockStatus::Unset {
            return Err(StorageError::ViewActive);
        }
        if self.input_storage.is_none() {
            return Err(StorageError::InputNotSet);
        }
        if input_lock.writer || input_lock.retained_exclusive {
            return Err(StorageError::LockUnavailable);
        }
        self.view_keys = keys;
        self.status = InputStorageLockStatus::Readable;
        Ok(())
    }

    fn create_write_view(&mut self, keys: Vec<usize>, input_lock: InputLockState) -> (r: Result<
        (),
        StorageError,
    >)
        ensures
            final(self).input_kind() == old(self).input_kind(),
    {
        if self.status != InputStorageLockStatus::Unset {
            return Err(StorageError::ViewActive);
        }
        if self.input_storage.is_none() {
            return Err(StorageError::InputNotSet);
        }
        if input_lock.readers != 0 || input_lock.writer || input_lock.retained_shared
            || input_lock.retained_exclusive {
            return Err(StorageError::LockUnavailable);
        }
        self.view_keys = keys;
        self.status = InputStorageLockStatus::Writable;
        Ok(())
    }
}

} // verus!
