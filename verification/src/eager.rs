//! The eager cache strategy's interface.
//!
//! Eager entries keep their registration across commits. A commit marks every
//! eager entry stale (see [`crate::cache::ReprMutator::commit`]); the
//! recompute itself runs off the mutating path: a host driver asks for the
//! stale tokens with [`crate::cache::CacheableRepr::stale_eager_keys`] and
//! refreshes each entry independently, either in place with
//! [`crate::cache::CacheableRepr::refresh`] or by computing elsewhere and
//! installing the result with
//! [`crate::cache::CacheableRepr::complete_refresh`]. A failed recompute
//! simply never installs, leaving only that entry stale: failures are
//! isolated per entry.

use vstd::prelude::*;

verus! {

/// Read access through an eager, proactively recomputed cache registry,
/// implemented by [`crate::cache::CacheableRepr`].
///
/// `eager` registers a read function under a caller-chosen token and always
/// answers from the registry without waiting for recomputes in flight;
/// `unregister` removes one entry without touching the others.
pub trait EagerCacheLookup<T, R>: Sized {
    /// The live value the read functions run against.
    spec fn current_value(&self) -> T;

    /// The tokens with a registered eager entry.
    spec fn registered(&self) -> Set<u64>;

    /// The fresh (already recomputed) eager values by token.
    spec fn fresh(&self) -> Map<u64, R>;

    /// Structural well-formedness of the registry.
    spec fn eager_wf(&self) -> bool;

    /// Everything outside the eager registry is the same in `other`.
    spec fn same_but_eager(&self, other: &Self) -> bool;

    /// Reads a derived value through the eager registry. On the first call
    /// for `key` the read function runs once, synchronously, and its result
    /// is stored; the call does not return before that first computation is
    /// done. Afterwards the stored value is returned as long as it is fresh.
    /// While the entry is stale (after a commit, before its recompute) the
    /// read function runs on the live value just for this call, without
    /// being stored: the scheduled recompute remains the only writer.
    fn eager<F: Fn(&T) -> R>(&mut self, key: u64, read_fn: F) -> (r: R)
        requires
            old(self).eager_wf(),
            call_requires(read_fn, (&old(self).current_value(),)),
        ensures
            final(self).eager_wf(),
            old(self).same_but_eager(final(self)),
            final(self).current_value() == old(self).current_value(),
            !old(self).registered().contains(key) ==> {
                &&& call_ensures(read_fn, (&old(self).current_value(),), r)
                &&& final(self).registered() == old(self).registered().insert(key)
                &&& final(self).fresh() == old(self).fresh().insert(key, r)
            },
            old(self).registered().contains(key) ==> final(self).registered() == old(
                self,
            ).registered(),
            old(self).registered().contains(key) && old(self).fresh().contains_key(key) ==> {
                &&& r == old(self).fresh()[key]
                &&& final(self).fresh() == old(self).fresh()
            },
            old(self).registered().contains(key) && !old(self).fresh().contains_key(key) ==> {
                &&& call_ensures(read_fn, (&old(self).current_value(),), r)
                &&& final(self).fresh() == old(self).fresh()
            },
    ;

    /// Removes the eager entry registered under `key`, returning whether one
    /// existed. No other entry is touched.
    fn unregister(&mut self, key: u64) -> (found: bool)
        requires
            old(self).eager_wf(),
        ensures
            final(self).eager_wf(),
            old(self).same_but_eager(final(self)),
            final(self).current_value() == old(self).current_value(),
            found == old(self).registered().contains(key),
            final(self).registered() == old(self).registered().remove(key),
            final(self).fresh() == old(self).fresh().remove(key),
    ;
}

} // verus!
