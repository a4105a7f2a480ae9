//! Casting between capabilities: each capability has an ordered list of the
//! concrete storage types known to satisfy it, and a cast succeeds when the
//! storage's concrete type is on the target's list.
use vstd::prelude::*;

use crate::any_storage::{contiguous_backend, mutable_backend, BackendKind, StorageKind};
use crate::StorageError;

verus! {

/// A capability under which a storage is used: one of the interfaces, or one
/// concrete type.
#[derive(Clone, Copy, Debug, PartialEq, Eq, Structural)]
pub enum Capability {
    /// The root interface that every storage satisfies.
    Root,
    Key,
    KeyItem,
    MutKeyItem,
    ItemSlice,
    MutItemSlice,
    ViewSetup,
    Concrete(StorageKind),
}

/// Whether a storage of concrete type `kind` satisfies `target`.
pub open spec fn satisfies(kind: StorageKind, target: Capability) -> bool {
    match target {
        Capability::Root => true,
        Capability::Key => true,
        Capability::KeyItem => true,
        Capability::MutKeyItem => match kind {
            StorageKind::Backend(b) => mutable_backend(b),
            StorageKind::View(b) => mutable_backend(b),
        },
        Capability::ItemSlice => kind matches StorageKind::Backend(b) && contiguous_backend(b),
        Capability::MutItemSlice => kind matches StorageKind::Backend(b) && contiguous_backend(b),
        Capability::ViewSetup => kind is View,
        Capability::Concrete(k) => kind == k,
    }
}

/// Every concrete type, backends first.
pub open spec fn all_kinds() -> Seq<StorageKind> {
    seq![
        StorageKind::Backend(BackendKind::Vec),
        StorageKind::Backend(BackendKind::SparseSet),
        StorageKind::Backend(BackendKind::HashMap),
        StorageKind::Backend(BackendKind::Val),
        StorageKind::View(BackendKind::Vec),
        StorageKind::View(BackendKind::SparseSet),
        StorageKind::View(BackendKind::HashMap),
        StorageKind::View(BackendKind::Val),
    ]
}

/// The candidates that a cast to `target` tries, in order: the concrete
/// types that satisfy it.
pub open spec fn candidates(target: Capability) -> Seq<StorageKind> {
    match target {
        Capability::Concrete(k) => seq![k],
        _ => all_kinds().filter(|k: StorageKind| satisfies(k, target)),
    }
}

pub fn all_storage_kinds() -> (r: Vec<StorageKind>)
    ensures
        r@ == all_kinds(),
{
    let r = vec![
        StorageKind::Backend(BackendKind::Vec),
        StorageKind::Backend(BackendKind::SparseSet),
        StorageKind::Backend(BackendKind::HashMap),
        StorageKind::Backend(BackendKind::Val),
        StorageKind::View(BackendKind::Vec),
        StorageKind::View(BackendKind::SparseSet),
        StorageKind::View(BackendKind::HashMap),
        StorageKind::View(BackendKind::Val),
    ];
    assert(r@ =~= all_kinds());
    r
}

/// Whether `kind` satisfies `target`, decided directly.
pub fn kind_satisfies(kind: StorageKind, target: Capability) -> (r: bool)
    ensures
        r == satisfies(kind, target),
{
    match target {
        Capability::Root => true,
        Capability::Key => true,
        Capability::KeyItem => true,
        Capability::MutKeyItem => match kind {
            StorageKind::Backend(b) => b != BackendKind::Val,
            StorageKind::View(b) => b != BackendKind::Val,
        },
        Capability::ItemSlice => match kind {
            StorageKind::Backend(b) => b != BackendKind::HashMap,
            StorageKind::View(_) => false,
        },
        Capability::MutItemSlice => match kind {
            StorageKind::Backend(b) => b != BackendKind::HashMap,
            StorageKind::View(_) => false,
        },
        Capability::ViewSetup => match kind {
            StorageKind::Backend(_) => false,
            StorageKind::View(_) => true,
        },
        Capability::Concrete(k) => kind == k,
    }
}

/// The candidate list of `target`.
pub fn cast_candidates(target: Capability) -> (r: Vec<StorageKind>)
    ensures
        r@ == candidates(target),
{
    match target {
        Capability::Concrete(k) => {
            let r = vec![k];
            assert(r@ =~= seq![k]);
            r
        },
        _ => {
            let all = all_storage_kinds();
            let mut r: Vec<StorageKind> = Vec::new();
            let mut i: usize = 0;
            while i < all.len()
                invariant
                    all@ == all_kinds(),
                    i <= all@.len(),
                    !(target is Concrete),
                    r@ == all@.take(i as int).filter(|k: StorageKind| satisfies(k, target)),
                decreases all@.len() - i,
            {
                let k = all[i];
                proof {
                    reveal(Seq::filter);
                    assert(all@.take(i + 1).drop_last() =~= all@.take(i as int));
                }
                if kind_satisfies(k, target) {
                    r.push(k);
                }
                i = i + 1;
            }
            assert(all@.take(all@.len() as int) =~= all@);
            r
        },
    }
}

/// Tries the candidates of `target` in order against the concrete type `kind`
/// of a storage, and returns the position of the first that matches.
pub fn find_candidate(kind: StorageKind, target: Capability) -> (r: Option<usize>)
    ensures
        match r {
            Some(i) => i < candidates(target).len() && candidates(target)[i as int] == kind
                && forall|j: int| 0 <= j < i ==> candidates(target)[j] != kind,
            None => !candidates(target).contains(kind),
        },
{
    let list = cast_candidates(target);
    let mut i: usize = 0;
    while i < list.len()
        invariant
            list@ == candidates(target),
            i <= list@.len(),
            forall|j: int| 0 <= j < i ==> list@[j] != kind,
        decreases list@.len() - i,
    {
        if list[i] == kind {
            return Some(i);
        }
        i = i + 1;
    }
    None
}

/// A storage of concrete type `kind` is on the candidate list of `target`
/// exactly when it satisfies `target`.
pub proof fn lemma_candidates_complete(kind: StorageKind, target: Capability)
    ensures
        candidates(target).contains(kind) <==> satisfies(kind, target),
{
    if !(target is Concrete) {
        let all = all_kinds();
        let idx: int = match kind {
            StorageKind::Backend(BackendKind::Vec) => 0,
            StorageKind::Backend(BackendKind::SparseSet) => 1,
            StorageKind::Backend(BackendKind::HashMap) => 2,
            StorageKind::Backend(BackendKind::Val) => 3,
            StorageKind::View(BackendKind::Vec) => 4,
            StorageKind::View(BackendKind::SparseSet) => 5,
            StorageKind::View(BackendKind::HashMap) => 6,
            StorageKind::View(BackendKind::Val) => 7,
        };
        assert(all[idx] == kind);
        assert(all.contains(kind));
        let pred = |k: StorageKind| satisfies(k, target);
        assert(candidates(target) == all.filter(pred));
        if satisfies(kind, target) {
            all.lemma_filter_contains(pred, idx);
        }
        if candidates(target).contains(kind) {
            let j = choose|j: int| 0 <= j < all.filter(pred).len() && all.filter(pred)[j] == kind;
            all.lemma_filter_pred(pred, j);
        }
    } else {
        if satisfies(kind, target) {
            assert(candidates(target)[0] == kind);
        }
    }
}

/// Checks a cast of a storage of concrete type `kind` to `target`: it
/// succeeds, keeping the concrete type, exactly when `kind` satisfies
/// `target`, and fails with `InvalidCast` naming both otherwise.
pub fn check_cast(kind: StorageKind, target: Capability) -> (r: Result<StorageKind, StorageError>)
    ensures
        r is Ok <==> satisfies(kind, target),
        r is Ok ==> r == Ok::<StorageKind, StorageError>(kind),
        r is Err ==> r == Err::<StorageKind, StorageError>(
            StorageError::InvalidCast { from: kind, to: target },
        ),
{
    proof {
        lemma_candidates_complete(kind, target);
    }
    match find_candidate(kind, target) {
        Some(_) => Ok(kind),
        None => Err(StorageError::InvalidCast { from: kind, to: target }),
    }
}

} // verus!
