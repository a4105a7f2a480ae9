//! A lazy, restartable walk over a view: it yields `(view key, item)` in
//! selection order, looking each item up in the input only when it is reached.
use vstd::prelude::*;

use crate::guards::StorageReadGuard;
use crate::storage_pool::StoragePool;

verus! {

/// The position of a walk over the view in slot `slot()`.
#[derive(Clone, Copy, Debug)]
pub struct KeysToItemsIter {
    view: usize,
    position: usize,
}

impl KeysToItemsIter {
    pub closed spec fn slot(&self) -> int {
        self.view as int
    }

    /// The next view key to look at.
    pub closed spec fn pos(&self) -> nat {
        self.position as nat
    }

    /// A walk from the start of the view read through `guard`.
    pub fn new(guard: &StorageReadGuard) -> (r: Self)
        ensures
            r.slot() == guard.slot(),
            r.pos() == 0,
    {
        KeysToItemsIter { view: guard.storage_id(), position: 0 }
    }

    /// The next view key from `pos()` on whose item the input has, with that
    /// item; the keys passed over have none. `None` once the selection is done.
    pub fn next(&mut self, pool: &StoragePool) -> (r: Option<(usize, i32)>)
        requires
            pool.wf(),
            old(self).slot() < pool@.len(),
            pool@[old(self).slot()].storage is View,
        ensures
            final(self).slot() == old(self).slot(),
            match r {
                Some((k, item)) => {
                    &&& old(self).pos() <= k < pool@[old(self).slot()].storage.spec_len()
                    &&& pool.lookup(old(self).slot(), k) == Some(item)
                    &&& forall|j: usize|
                        old(self).pos() <= j < k ==> #[trigger] pool.lookup(old(self).slot(), j) is None
                    &&& final(self).pos() == k + 1
                },
                None => {
                    &&& forall|j: usize|
                        old(self).pos() <= j < pool@[old(self).slot()].storage.spec_len()
                            ==> #[trigger] pool.lookup(old(self).slot(), j) is None
                    &&& final(self).pos() >= pool@[old(self).slot()].storage.spec_len()
                },
            },
    {
        let n = pool.slot_len(self.view);
        while self.position < n
            invariant
                pool.wf(),
                self.view == old(self).view,
                self.slot() < pool@.len(),
                n == pool@[self.slot()].storage.spec_len(),
                old(self).pos() <= self.pos(),
                forall|j: usize|
                    old(self).pos() <= j < self.pos() ==> #[trigger] pool.lookup(self.slot(), j) is None,
            decreases n - self.position,
        {
            let k = self.position;
            self.position = self.position + 1;
            match pool.lookup_at(self.view, k) {
                Some(item) => {
                    return Some((k, item));
                },
                None => {},
            }
        }
        None
    }

    /// Starts the walk over.
    pub fn restart(&mut self)
        ensures
            final(self).slot() == old(self).slot(),
            final(self).pos() == 0,
    {
        self.position = 0;
    }
}

} // verus!
