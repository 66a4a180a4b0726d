//! The library's laws: properties that relate several operations, stated
//! over the spec-level views that the operations' own contracts use. Each
//! proof function takes the states and results of the calls it speaks about,
//! assumes exactly what the contracts of those calls guarantee, and proves
//! the composite claim.

use vstd::prelude::*;

use crate::cache::{CacheableRepr, ReprMutator};
use crate::repr::{pred_decides, CommitError, Repr};

verus! {

/// Construction performs no check: the container stores the given value even
/// when the predicate rejects it, so a read immediately after construction
/// returns that value. The premises are exactly what [`Repr::new`] and
/// [`Repr::with_msg`] ensure, which notably require nothing of the
/// predicate's verdict on the initial value.
pub proof fn lemma_construction_unchecked<T, I: Fn(&T) -> bool>(c: Repr<T, I>, v: T, p: I)
    requires
        c.value() == v,
        c.predicate() == p,
        call_ensures(p, (&v,), false),
    ensures
        c.value() == v,
{
}

/// A mutation ending in a state the predicate decides to be true commits:
/// the container that comes back reads the new state, its lazy registry is
/// empty (every lazy entry recomputes on next access) and its eager registry
/// is entirely stale (every eager entry awaits its scheduled recompute,
/// keeping its registration). The premises are what
/// [`ReprMutator::commit`] ensures.
pub proof fn lemma_committed_mutation_visible<T, I: Fn(&T) -> bool, R: Copy>(
    scope: ReprMutator<T, I, R>,
    r: Result<CacheableRepr<T, I, R>, CommitError<CacheableRepr<T, I, R>>>,
)
    requires
        pred_decides(scope.predicate(), &scope.value(), true),
        pred_decides(scope.predicate(), &scope.value(), true) ==> r is Ok,
        r is Ok ==> {
            &&& r->Ok_0.value() == scope.value()
            &&& r->Ok_0.lazy_cache() == Map::<u64, R>::empty()
            &&& r->Ok_0.eager_key_list() == scope.eager_key_list()
            &&& r->Ok_0.eager_fresh() == Map::<u64, R>::empty()
        },
    ensures
        r is Ok,
        r->Ok_0.value() == scope.value(),
        forall|k: u64| !r->Ok_0.lazy_cache().contains_key(k),
        forall|k: u64|
            scope.eager_key_list().to_set().contains(k) ==> r->Ok_0.eager_registered().contains(k)
                && !r->Ok_0.eager_fresh().contains_key(k),
{
    assert(r->Ok_0.eager_key_list().to_set() =~= scope.eager_key_list().to_set());
}

/// After a committed mutation the next lazy read of any token misses and so
/// runs its read function against the committed value; the result is what
/// the read function can return on that value, and it is what the registry
/// then stores under the token. The premises are the committed container's
/// state as [`ReprMutator::commit`] ensures it and the read's step as
/// [`CacheableRepr::lazy`] ensures it.
pub proof fn lemma_lazy_recomputes_after_commit<T, I: Fn(&T) -> bool, R: Copy, F: Fn(&T) -> R>(
    committed: CacheableRepr<T, I, R>,
    key: u64,
    read_fn: F,
    r: R,
    after: CacheableRepr<T, I, R>,
)
    requires
        committed.lazy_cache() == Map::<u64, R>::empty(),
        committed.lazy_cache().contains_key(key) ==> r == committed.lazy_cache()[key],
        !committed.lazy_cache().contains_key(key) ==> {
            &&& call_ensures(read_fn, (&committed.value(),), r)
            &&& after.lazy_cache() == committed.lazy_cache().insert(key, r)
        },
    ensures
        call_ensures(read_fn, (&committed.value(),), r),
        after.lazy_cache()[key] == r,
{
}

/// A mutation ending in a state the predicate decides to be false is
/// rejected with an `InvariantViolation`, and the container handed back in
/// the error still holds the mutated value: there is no rollback, and the
/// registries are exactly as they were before the attempt. The premises are
/// what [`ReprMutator::commit`] ensures.
pub proof fn lemma_rejected_mutation_not_rolled_back<T, I: Fn(&T) -> bool, R: Copy>(
    scope: ReprMutator<T, I, R>,
    r: Result<CacheableRepr<T, I, R>, CommitError<CacheableRepr<T, I, R>>>,
)
    requires
        pred_decides(scope.predicate(), &scope.value(), false),
        pred_decides(scope.predicate(), &scope.value(), false) ==> (r matches Err(
            CommitError::InvariantViolation { .. },
        )),
        match r {
            Err(CommitError::InvariantViolation { state, message }) => {
                &&& state.value() == scope.value()
                &&& message == scope.message()
                &&& state.lazy_cache() == scope.lazy_cache()
                &&& state.eager_key_list() == scope.eager_key_list()
                &&& state.eager_fresh() == scope.eager_fresh()
            },
            _ => true,
        },
    ensures
        r matches Err(CommitError::InvariantViolation { state, message }) && {
            &&& state.value() == scope.value()
            &&& message == scope.message()
            &&& state.lazy_cache() == scope.lazy_cache()
        },
{
}

/// Lazy reads are idempotent: two consecutive lazy reads of the same token
/// with no commit in between return the same value, and the second read
/// finds the registry unchanged with the token present, which by
/// [`CacheableRepr::lazy`]'s contract means its read function does not run
/// again. The premises are the two steps as `lazy` ensures them.
pub proof fn lemma_lazy_idempotent<R>(
    m0: Map<u64, R>,
    key: u64,
    r1: R,
    m1: Map<u64, R>,
    r2: R,
    m2: Map<u64, R>,
)
    requires
        m0.contains_key(key) ==> r1 == m0[key] && m1 == m0,
        !m0.contains_key(key) ==> m1 == m0.insert(key, r1),
        m1.contains_key(key) ==> r2 == m1[key] && m2 == m1,
        !m1.contains_key(key) ==> m2 == m1.insert(key, r2),
    ensures
        r2 == r1,
        m2 == m1,
        m1.contains_key(key),
{
}

/// Two distinct tokens own independent eager entries: registering both
/// stores both results side by side, and unregistering one of them leaves
/// the other entry exactly as it was. The premises are the registration and
/// removal steps as [`crate::eager::EagerCacheLookup`]'s contracts ensure
/// them.
pub proof fn lemma_eager_entries_independent<R>(
    reg0: Set<u64>,
    f0: Map<u64, R>,
    k1: u64,
    r1: R,
    reg1: Set<u64>,
    f1: Map<u64, R>,
    k2: u64,
    r2: R,
    reg2: Set<u64>,
    f2: Map<u64, R>,
    reg3: Set<u64>,
    f3: Map<u64, R>,
)
    requires
        k1 != k2,
        !reg0.contains(k1),
        reg1 == reg0.insert(k1),
        f1 == f0.insert(k1, r1),
        !reg1.contains(k2),
        reg2 == reg1.insert(k2),
        f2 == f1.insert(k2, r2),
        reg3 == reg2.remove(k2),
        f3 == f2.remove(k2),
    ensures
        f2[k1] == r1 && f2[k2] == r2,
        reg3.contains(k1) && f3.contains_key(k1) && f3[k1] == r1,
        !reg3.contains(k2) && !f3.contains_key(k2),
{
}

/// Eventual convergence of the eager registry: after a commit an eager entry
/// is stale; the single scheduled recompute of its token installs a value
/// its read function can return on the committed value, and every eager read
/// from then on (with no further commit) returns exactly that stored value.
/// The premises are the committed state and one refresh step as
/// [`ReprMutator::commit`] and [`CacheableRepr::refresh`] ensure them.
pub proof fn lemma_eager_converges_after_commit<T, I: Fn(&T) -> bool, R: Copy, F: Fn(&T) -> R>(
    committed: CacheableRepr<T, I, R>,
    key: u64,
    read_fn: F,
    v: R,
    refreshed: CacheableRepr<T, I, R>,
    r: R,
)
    requires
        committed.eager_fresh() == Map::<u64, R>::empty(),
        committed.eager_registered().contains(key),
        refreshed.value() == committed.value(),
        call_ensures(read_fn, (&committed.value(),), v),
        refreshed.eager_fresh() == committed.eager_fresh().insert(key, v),
        refreshed.eager_fresh().contains_key(key) ==> r == refreshed.eager_fresh()[key],
    ensures
        refreshed.eager_fresh().contains_key(key),
        r == v,
        call_ensures(read_fn, (&refreshed.value(),), r),
{
}

} // verus!
