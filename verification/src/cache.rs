//! The invariant-guarded container with cacheable reads.
//!
//! [`CacheableRepr`] wraps a [`Repr`] and adds two token-keyed registries of
//! memoized derived values. Each registered read function is identified by a
//! caller-chosen `u64` token; the caller contract is that one token always
//! stands for one pure read function of the value. The lazy registry
//! ([`CacheableRepr::lazy`]) is cleared on every commit and recomputes on the
//! next access; the eager registry (see [`crate::eager`]) keeps its
//! registrations across commits and is recomputed entry by entry off the
//! mutating path.

use std::collections::BTreeMap;
use vstd::prelude::*;

use crate::eager::EagerCacheLookup;
use crate::repr::{pred_callable, pred_decides, CommitError, Repr};

verus! {

/// Wraps a value and an invariant predicate, like [`Repr`], and additionally
/// memoizes derived values of type `R` under caller-chosen `u64` tokens.
pub struct CacheableRepr<T, I, R> where I: Fn(&T) -> bool {
    pub(crate) inner: Repr<T, I>,
    pub(crate) caches: BTreeMap<u64, R>,
    pub(crate) eager_keys: Vec<u64>,
    pub(crate) eager_vals: BTreeMap<u64, R>,
}

impl<T, I: Fn(&T) -> bool, R> CacheableRepr<T, I, R> {
    /// The wrapped value.
    pub closed spec fn value(&self) -> T {
        self.inner.value()
    }

    /// The invariant predicate.
    pub closed spec fn predicate(&self) -> I {
        self.inner.predicate()
    }

    /// The message carried by an `InvariantViolation`.
    pub closed spec fn message(&self) -> &'static str {
        self.inner.message()
    }

    /// The lazy registry: cached derived value per token. A token absent
    /// from the map is recomputed (and stored) on its next lazy read.
    pub closed spec fn lazy_cache(&self) -> Map<u64, R> {
        self.caches@
    }

    /// The eager registrations, in registration order.
    pub closed spec fn eager_key_list(&self) -> Seq<u64> {
        self.eager_keys@
    }

    /// The tokens with a registered eager entry.
    pub open spec fn eager_registered(&self) -> Set<u64> {
        self.eager_key_list().to_set()
    }

    /// The eager entries whose stored value is fresh: present since the last
    /// commit (or registration). A registered token absent from this map is
    /// stale, awaiting its scheduled recompute.
    pub closed spec fn eager_fresh(&self) -> Map<u64, R> {
        self.eager_vals@
    }

    /// Structural well-formedness: registrations are unique and every fresh
    /// value belongs to a registered token.
    pub open spec fn wf(&self) -> bool {
        &&& self.eager_key_list().no_duplicates()
        &&& self.eager_fresh().dom().subset_of(self.eager_registered())
    }
}

impl<T, I: Fn(&T) -> bool, R: Copy> CacheableRepr<T, I, R> {
    /// Creates a cacheable container with the given value and invariant
    /// predicate and no registered caches. As with [`Repr::new`], the
    /// predicate is not evaluated here.
    pub fn new(inner: T, pred: I) -> (r: Self)
        ensures
            r.value() == inner,
            r.predicate() == pred,
            r.message() == crate::repr::DEFAULT_VIOLATION_MESSAGE,
            r.lazy_cache() == Map::<u64, R>::empty(),
            r.eager_key_list() == Seq::<u64>::empty(),
            r.eager_fresh() == Map::<u64, R>::empty(),
            r.wf(),
    {
        CacheableRepr {
            inner: Repr::new(inner, pred),
            caches: BTreeMap::new(),
            eager_keys: Vec::new(),
            eager_vals: BTreeMap::new(),
        }
    }

    /// Creates a cacheable container with the given value, invariant
    /// predicate and violation message, and no registered caches.
    pub fn with_msg(inner: T, pred: I, violation_message: &'static str) -> (r: Self)
        ensures
            r.value() == inner,
            r.predicate() == pred,
            r.message() == violation_message,
            r.lazy_cache() == Map::<u64, R>::empty(),
            r.eager_key_list() == Seq::<u64>::empty(),
            r.eager_fresh() == Map::<u64, R>::empty(),
            r.wf(),
    {
        CacheableRepr {
            inner: Repr::with_msg(inner, pred, violation_message),
            caches: BTreeMap::new(),
            eager_keys: Vec::new(),
            eager_vals: BTreeMap::new(),
        }
    }

    /// Wraps an existing [`Repr`], adding empty cache registries: the
    /// counterpart of the plain container's conversion into a cacheable one.
    pub fn from_repr(repr: Repr<T, I>) -> (r: Self)
        ensures
            r.value() == repr.value(),
            r.predicate() == repr.predicate(),
            r.message() == repr.message(),
            r.lazy_cache() == Map::<u64, R>::empty(),
            r.eager_key_list() == Seq::<u64>::empty(),
            r.eager_fresh() == Map::<u64, R>::empty(),
            r.wf(),
    {
        CacheableRepr {
            inner: repr,
            caches: BTreeMap::new(),
            eager_keys: Vec::new(),
            eager_vals: BTreeMap::new(),
        }
    }

    /// Discards the cache registries and returns the plain guarded
    /// container, value and predicate untouched.
    pub fn into_repr(self) -> (r: Repr<T, I>)
        ensures
            r.value() == self.value(),
            r.predicate() == self.predicate(),
            r.message() == self.message(),
    {
        self.inner
    }

    /// Borrows a read-only view of the wrapped value, bypassing every cache.
    pub fn read(&self) -> (r: &T)
        ensures
            *r == self.value(),
    {
        self.inner.read()
    }

    /// Consumes the container and returns the value without checking the
    /// invariant.
    pub fn into_inner(self) -> (r: T)
        ensures
            r == self.value(),
    {
        self.inner.into_inner()
    }

    /// Reads a derived value through the lazy registry. `key` is the token
    /// for `read_fn`: if a value is cached under it, that value is returned
    /// and the read function does not run; otherwise `read_fn` runs once on
    /// the live value and its result is cached and returned.
    pub fn lazy<F: Fn(&T) -> R>(&mut self, key: u64, read_fn: F) -> (r: R)
        requires
            call_requires(read_fn, (&old(self).value(),)),
        ensures
            final(self).value() == old(self).value(),
            final(self).predicate() == old(self).predicate(),
            final(self).message() == old(self).message(),
            final(self).eager_key_list() == old(self).eager_key_list(),
            final(self).eager_fresh() == old(self).eager_fresh(),
            old(self).lazy_cache().contains_key(key) ==> {
                &&& r == old(self).lazy_cache()[key]
                &&& final(self).lazy_cache() == old(self).lazy_cache()
            },
            !old(self).lazy_cache().contains_key(key) ==> {
                &&& call_ensures(read_fn, (&old(self).value(),), r)
                &&& final(self).lazy_cache() == old(self).lazy_cache().insert(key, r)
            },
    {
        let cached = self.caches.get(&key);
        if let Some(v) = cached {
            return *v;
        }
        let r = read_fn(self.inner.read());
        self.caches.insert(key, r);
        r
    }

    /// Opens a mutation scope over the value, carrying the registries along
    /// so that the commit can notify them.
    pub fn write(self) -> (m: ReprMutator<T, I, R>)
        ensures
            m.value() == self.value(),
            m.predicate() == self.predicate(),
            m.message() == self.message(),
            m.lazy_cache() == self.lazy_cache(),
            m.eager_key_list() == self.eager_key_list(),
            m.eager_fresh() == self.eager_fresh(),
    {
        ReprMutator {
            scope: self.inner.write(),
            caches: self.caches,
            eager_keys: self.eager_keys,
            eager_vals: self.eager_vals,
        }
    }
}

/// An open mutation scope over a [`CacheableRepr`]. Closing it with
/// [`ReprMutator::commit`] checks the invariant exactly once and, on success,
/// notifies both registries: every lazy entry is cleared and every eager
/// entry is marked stale for its scheduled recompute. On failure nothing is
/// notified and the mutated value stays in place.
pub struct ReprMutator<T, I, R> where I: Fn(&T) -> bool {
    pub(crate) scope: crate::repr::ReprMutator<T, I>,
    pub(crate) caches: BTreeMap<u64, R>,
    pub(crate) eager_keys: Vec<u64>,
    pub(crate) eager_vals: BTreeMap<u64, R>,
}

impl<T, I: Fn(&T) -> bool, R> ReprMutator<T, I, R> {
    /// The value as mutated so far.
    pub closed spec fn value(&self) -> T {
        self.scope.value()
    }

    /// The invariant predicate, checked at commit.
    pub closed spec fn predicate(&self) -> I {
        self.scope.predicate()
    }

    /// The message carried by an `InvariantViolation`.
    pub closed spec fn message(&self) -> &'static str {
        self.scope.message()
    }

    /// The lazy registry carried through the scope.
    pub closed spec fn lazy_cache(&self) -> Map<u64, R> {
        self.caches@
    }

    /// The eager registrations carried through the scope.
    pub closed spec fn eager_key_list(&self) -> Seq<u64> {
        self.eager_keys@
    }

    /// The fresh eager values carried through the scope.
    pub closed spec fn eager_fresh(&self) -> Map<u64, R> {
        self.eager_vals@
    }
}

impl<T, I: Fn(&T) -> bool, R: Copy> ReprMutator<T, I, R> {
    /// Borrows the value as mutated so far.
    pub fn read(&self) -> (r: &T)
        ensures
            *r == self.value(),
    {
        self.scope.read()
    }

    /// Replaces the value. May be called any number of times before the
    /// scope closes.
    pub fn set(&mut self, value: T)
        ensures
            final(self).value() == value,
            final(self).predicate() == old(self).predicate(),
            final(self).message() == old(self).message(),
            final(self).lazy_cache() == old(self).lazy_cache(),
            final(self).eager_key_list() == old(self).eager_key_list(),
            final(self).eager_fresh() == old(self).eager_fresh(),
    {
        self.scope.set(value);
    }

    /// Closes the scope, checking the invariant as [`Repr`]'s commit does.
    /// On success both registries are notified: the lazy registry is cleared
    /// and every eager entry becomes stale (its registration survives, its
    /// value awaits recompute). On failure the registries are left exactly
    /// as they were, which means lazy entries may be stale with respect to
    /// the mutated value the container still holds.
    pub fn commit(self) -> (r: Result<CacheableRepr<T, I, R>, CommitError<CacheableRepr<T, I, R>>>)
        requires
            pred_callable::<T, I>(self.predicate()),
        ensures
            match r {
                Ok(c) => {
                    &&& c.value() == self.value()
                    &&& c.predicate() == self.predicate()
                    &&& c.message() == self.message()
                    &&& call_ensures(self.predicate(), (&self.value(),), true)
                    &&& c.lazy_cache() == Map::<u64, R>::empty()
                    &&& c.eager_key_list() == self.eager_key_list()
                    &&& c.eager_fresh() == Map::<u64, R>::empty()
                },
                Err(e) => match e {
                    CommitError::InvariantViolation { state, message } => {
                        &&& state.value() == self.value()
                        &&& state.predicate() == self.predicate()
                        &&& state.message() == self.message()
                        &&& message == self.message()
                        &&& call_ensures(self.predicate(), (&self.value(),), false)
                        &&& state.lazy_cache() == self.lazy_cache()
                        &&& state.eager_key_list() == self.eager_key_list()
                        &&& state.eager_fresh() == self.eager_fresh()
                    },
                    CommitError::NonDeterministicInvariant { state } => {
                        &&& state.value() == self.value()
                        &&& state.predicate() == self.predicate()
                        &&& state.message() == self.message()
                        &&& call_ensures(self.predicate(), (&self.value(),), true)
                        &&& call_ensures(self.predicate(), (&self.value(),), false)
                        &&& state.lazy_cache() == self.lazy_cache()
                        &&& state.eager_key_list() == self.eager_key_list()
                        &&& state.eager_fresh() == self.eager_fresh()
                    },
                },
            },
            pred_decides(self.predicate(), &self.value(), true) ==> r is Ok,
            pred_decides(self.predicate(), &self.value(), false) ==> (r matches Err(
                CommitError::InvariantViolation { .. },
            )),
    {
        let ReprMutator { scope, caches, eager_keys, eager_vals } = self;
        match scope.commit() {
            Ok(repr) => {
                let mut caches = caches;
                let mut eager_vals = eager_vals;
                caches.clear();
                eager_vals.clear();
                Ok(CacheableRepr { inner: repr, caches, eager_keys, eager_vals })
            },
            Err(CommitError::InvariantViolation { state, message }) => {
                Err(
                    CommitError::InvariantViolation {
                        state: CacheableRepr { inner: state, caches, eager_keys, eager_vals },
                        message,
                    },
                )
            },
            Err(CommitError::NonDeterministicInvariant { state }) => {
                Err(
                    CommitError::NonDeterministicInvariant {
                        state: CacheableRepr { inner: state, caches, eager_keys, eager_vals },
                    },
                )
            },
        }
    }
}

impl<T, I: Fn(&T) -> bool, R: Copy> CacheableRepr<T, I, R> {
    /// Whether an eager entry is registered under `key`.
    pub fn is_eager_registered(&self, key: u64) -> (found: bool)
        ensures
            found == self.eager_registered().contains(key),
    {
        let n = self.eager_keys.len();
        let mut i: usize = 0;
        while i < n
            invariant
                n == self.eager_keys.len(),
                i <= n,
                forall|j: int| 0 <= j < i ==> self.eager_keys@[j] != key,
            decreases n - i,
        {
            if self.eager_keys[i] == key {
                proof {
                    assert(self.eager_keys@[i as int] == key);
                    assert(self.eager_keys@.contains(key));
                }
                return true;
            }
            i += 1;
        }
        proof {
            assert(!self.eager_keys@.contains(key));
        }
        false
    }

    /// The registered tokens whose entry is stale: cleared by a commit and
    /// not yet recomputed. This is the work list a refresh driver schedules,
    /// one independent recompute per token.
    pub fn stale_eager_keys(&self) -> (keys: Vec<u64>)
        requires
            self.wf(),
        ensures
            keys@.no_duplicates(),
            forall|k: u64| #[trigger]
                keys@.contains(k) <==> (self.eager_registered().contains(k)
                    && !self.eager_fresh().contains_key(k)),
    {
        let n = self.eager_keys.len();
        let mut keys: Vec<u64> = Vec::new();
        let mut i: usize = 0;
        while i < n
            invariant
                self.wf(),
                n == self.eager_keys.len(),
                i <= n,
                keys@.no_duplicates(),
                forall|k: u64| #[trigger]
                    keys@.contains(k) ==> !self.eager_fresh().contains_key(k) && exists|j: int|
                        0 <= j < i && self.eager_keys@[j] == k,
                forall|j: int|
                    0 <= j < i ==> (self.eager_fresh().contains_key(#[trigger] self.eager_keys@[j])
                        || keys@.contains(self.eager_keys@[j])),
            decreases n - i,
        {
            let key = self.eager_keys[i];
            if !self.eager_vals.contains_key(&key) {
                proof {
                    if keys@.contains(key) {
                        let j = choose|j: int| 0 <= j < i && self.eager_keys@[j] == key;
                        assert(self.eager_keys@[j] == self.eager_keys@[i as int]);
                    }
                }
                let ghost prev = keys@;
                keys.push(key);
                proof {
                    assert forall|k: u64| #[trigger] keys@.contains(k) implies (prev.contains(k)
                        || k == key) by {
                        let j = choose|j: int| 0 <= j < keys@.len() && keys@[j] == k;
                        if j < prev.len() {
                            assert(prev[j] == k);
                        }
                    }
                    assert forall|k: u64| prev.contains(k) implies #[trigger] keys@.contains(
                        k,
                    ) by {
                        let j = choose|j: int| 0 <= j < prev.len() && prev[j] == k;
                        assert(keys@[j] == k);
                    }
                    assert(keys@[keys@.len() - 1] == key);
                    assert(keys@.contains(key));
                    assert(self.eager_keys@[i as int] == key);
                }
            }
            i += 1;
        }
        proof {
            assert forall|k: u64|
                self.eager_registered().contains(k) && !self.eager_fresh().contains_key(
                    k,
                ) implies #[trigger] keys@.contains(k) by {
                let j = choose|j: int| 0 <= j < self.eager_keys@.len() && self.eager_keys@[j] == k;
                assert(self.eager_fresh().contains_key(self.eager_keys@[j]) || keys@.contains(
                    self.eager_keys@[j],
                ));
            }
            assert forall|k: u64| #[trigger]
                keys@.contains(k) implies self.eager_registered().contains(k) by {
                let j = choose|j: int| 0 <= j < self.eager_keys@.len() && self.eager_keys@[j] == k;
                assert(self.eager_keys@.contains(k));
            }
        }
        keys
    }

    /// Recomputes the eager entry registered under `key` in place: runs
    /// `read_fn` once on the live value and installs the result as the new
    /// fresh value. Returns the recomputed value, or `None` when no entry is
    /// registered under `key`. Other entries are untouched, so a recompute
    /// that fails before reaching this point affects only its own entry.
    pub fn refresh<F: Fn(&T) -> R>(&mut self, key: u64, read_fn: F) -> (r: Option<R>)
        requires
            old(self).wf(),
            call_requires(read_fn, (&old(self).value(),)),
        ensures
            final(self).wf(),
            final(self).value() == old(self).value(),
            final(self).predicate() == old(self).predicate(),
            final(self).message() == old(self).message(),
            final(self).lazy_cache() == old(self).lazy_cache(),
            final(self).eager_key_list() == old(self).eager_key_list(),
            old(self).eager_registered().contains(key) ==> match r {
                Some(v) => {
                    &&& call_ensures(read_fn, (&old(self).value(),), v)
                    &&& final(self).eager_fresh() == old(self).eager_fresh().insert(key, v)
                },
                None => false,
            },
            !old(self).eager_registered().contains(key) ==> {
                &&& r is None
                &&& final(self).eager_fresh() == old(self).eager_fresh()
            },
    {
        if !self.is_eager_registered(key) {
            return None;
        }
        let v = read_fn(self.inner.read());
        self.eager_vals.insert(key, v);
        Some(v)
    }

    /// Installs a value computed elsewhere (typically by a background worker
    /// that ran the entry's read function on a snapshot of the value) as the
    /// fresh value of the eager entry registered under `key`. Returns whether
    /// an entry was registered; nothing is installed otherwise.
    pub fn complete_refresh(&mut self, key: u64, value: R) -> (installed: bool)
        requires
            old(self).wf(),
        ensures
            final(self).wf(),
            final(self).value() == old(self).value(),
            final(self).predicate() == old(self).predicate(),
            final(self).message() == old(self).message(),
            final(self).lazy_cache() == old(self).lazy_cache(),
            final(self).eager_key_list() == old(self).eager_key_list(),
            installed == old(self).eager_registered().contains(key),
            installed ==> final(self).eager_fresh() == old(self).eager_fresh().insert(key, value),
            !installed ==> final(self).eager_fresh() == old(self).eager_fresh(),
    {
        if !self.is_eager_registered(key) {
            return false;
        }
        self.eager_vals.insert(key, value);
        true
    }
}

impl<T, I: Fn(&T) -> bool, R: Copy> EagerCacheLookup<T, R> for CacheableRepr<T, I, R> {
    open spec fn current_value(&self) -> T {
        self.value()
    }

    open spec fn registered(&self) -> Set<u64> {
        self.eager_registered()
    }

    open spec fn fresh(&self) -> Map<u64, R> {
        self.eager_fresh()
    }

    open spec fn eager_wf(&self) -> bool {
        self.wf()
    }


    open spec fn same_but_eager(&self, other: &Self) -> bool {
        &&& other.value() == self.value()
        &&& other.predicate() == self.predicate()
        &&& other.message() == self.message()
        &&& other.lazy_cache() == self.lazy_cache()
    }

    fn eager<F: Fn(&T) -> R>(&mut self, key: u64, read_fn: F) -> (r: R) {
        if !self.is_eager_registered(key) {
            let r = read_fn(self.inner.read());
            self.eager_keys.push(key);
            self.eager_vals.insert(key, r);
            proof {
                let oldl = old(self).eager_keys@;
                let newl = self.eager_keys@;
                assert(newl == oldl.push(key));
                assert forall|k: u64| #[trigger] newl.contains(k) implies (oldl.contains(k) || k
                    == key) by {
                    let j = choose|j: int| 0 <= j < newl.len() && newl[j] == k;
                    if j < oldl.len() {
                        assert(oldl[j] == k);
                    }
                }
                assert forall|k: u64| oldl.contains(k) implies #[trigger] newl.contains(k) by {
                    let j = choose|j: int| 0 <= j < oldl.len() && oldl[j] == k;
                    assert(newl[j] == k);
                }
                assert(newl[newl.len() - 1] == key);
                assert(newl.to_set() =~= oldl.to_set().insert(key));
                assert(newl.no_duplicates()) by {
                    assert forall|a: int, b: int|
                        0 <= a < b < newl.len() implies newl[a] != newl[b] by {
                        if b < oldl.len() {
                            assert(oldl[a] != oldl[b]);
                        } else {
                            assert(oldl[a] == newl[a]);
                            assert(oldl.contains(oldl[a]));
                        }
                    }
                }
            }
            return r;
        }
        let cached = self.eager_vals.get(&key);
        if let Some(v) = cached {
            return *v;
        }
        read_fn(self.inner.read())
    }

    fn unregister(&mut self, key: u64) -> (found: bool) {
        let n = self.eager_keys.len();
        let mut i: usize = 0;
        while i < n
            invariant
                *self == *old(self),
                old(self).wf(),
                n == self.eager_keys.len(),
                i <= n,
                forall|j: int| 0 <= j < i ==> self.eager_keys@[j] != key,
            decreases n - i,
        {
            if self.eager_keys[i] == key {
                self.eager_keys.remove(i);
                self.eager_vals.remove(&key);
                proof {
                    let oldl = old(self).eager_keys@;
                    let newl = self.eager_keys@;
                    oldl.remove_ensures(i as int);
                    assert(oldl[i as int] == key);
                    assert forall|k: u64| #[trigger] newl.contains(k) implies (oldl.contains(k)
                        && k != key) by {
                        let j = choose|j: int| 0 <= j < newl.len() && newl[j] == k;
                        if j < i {
                            assert(oldl[j] == k);
                            assert(oldl[j] != key);
                        } else {
                            assert(oldl[j + 1] == k);
                            assert(oldl[j + 1] != oldl[i as int]);
                        }
                    }
                    assert forall|k: u64| oldl.contains(k) && k != key implies #[trigger]
                        newl.contains(k) by {
                        let j = choose|j: int| 0 <= j < oldl.len() && oldl[j] == k;
                        if j < i {
                            assert(newl[j] == k);
                        } else {
                            assert(j != i);
                            assert(newl[j - 1] == k);
                        }
                    }
                    assert(newl.to_set() =~= oldl.to_set().remove(key));
                    assert(newl.no_duplicates()) by {
                        assert forall|a: int, b: int|
                            0 <= a < b < newl.len() implies newl[a] != newl[b] by {
                            if b < i {
                                assert(oldl[a] != oldl[b]);
                            } else if a < i {
                                assert(oldl[a] != oldl[b + 1]);
                            } else {
                                assert(oldl[a + 1] != oldl[b + 1]);
                            }
                        }
                    }
                    assert(self.eager_fresh() =~= old(self).eager_fresh().remove(key));
                }
                return true;
            }
            i += 1;
        }
        proof {
            assert(!self.eager_keys@.contains(key));
            assert(self.eager_registered().remove(key) =~= self.eager_registered());
            assert(!self.eager_fresh().dom().contains(key));
            assert(self.eager_fresh().remove(key) =~= self.eager_fresh());
        }
        false
    }
}

/// The trait-level views of [`EagerCacheLookup`] coincide with the
/// container's own spec functions, so facts about one side carry over to the
/// other at call sites outside this module.
pub proof fn lemma_eager_lookup_views<T, I: Fn(&T) -> bool, R: Copy>(c: &CacheableRepr<T, I, R>)
    ensures
        c.eager_wf() == c.wf(),
        c.current_value() == c.value(),
        c.registered() == c.eager_registered(),
        c.fresh() == c.eager_fresh(),
        forall|other: &CacheableRepr<T, I, R>| #[trigger]
            c.same_but_eager(other) == (other.value() == c.value() && other.predicate()
                == c.predicate() && other.message() == c.message() && other.lazy_cache()
                == c.lazy_cache()),
{
}

} // verus!
