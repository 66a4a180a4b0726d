//! An invariant-guarded container with memoized derived reads.
//!
//! [`repr::Repr`] wraps a value together with a caller-supplied predicate and
//! re-checks the predicate every time a mutation scope is committed.
//! [`cache::CacheableRepr`] adds token-keyed caching of derived values, with a
//! lazy strategy (cleared on commit, recomputed on next access) and an eager
//! strategy (marked stale on commit, recomputed by a background driver).

pub mod cache;
pub mod eager;
pub mod laws;
pub mod repr;

pub use cache::CacheableRepr;
pub use eager::EagerCacheLookup;
pub use repr::Repr;
