//! The invariant-guarded container and its mutation scope.
//!
//! A [`Repr`] owns a value and a predicate over it. The value can only be
//! edited through a [`ReprMutator`], an exclusive mutation scope obtained from
//! [`Repr::write`]; closing the scope with [`ReprMutator::commit`] runs the
//! predicate and either returns the container with the new value or a
//! [`CommitError`] that still carries the mutated (now invalid) value, since a
//! rejected mutation is not rolled back.

use vstd::prelude::*;

verus! {

/// Message carried by an `InvariantViolation` when none is supplied.
pub const DEFAULT_VIOLATION_MESSAGE: &'static str = "Invariant violated";

/// The predicate can be run on every value of `T`. Committing a mutation
/// scope evaluates the predicate on the value the scope produced, whatever it
/// is, so commit paths assume this of the stored predicate.
pub open spec fn pred_callable<T, I: Fn(&T) -> bool>(pred: I) -> bool {
    forall|v: &T| #[trigger] call_requires(pred, (v,))
}

/// Every run of `pred` on `v` returns `b`: the predicate is deterministic at
/// `v` and decides `b` there.
pub open spec fn pred_decides<T, I: Fn(&T) -> bool>(pred: I, v: &T, b: bool) -> bool {
    forall|r: bool| #[trigger] call_ensures(pred, (v,), r) ==> r == b
}

/// Why closing a mutation scope failed. `C` is the container type; the failed
/// container is handed back in `state`, still holding the mutated value:
/// there is no rollback, and callers must treat it as corrupted unless they
/// re-validate or discard it.
pub enum CommitError<C> {
    /// The predicate returned `false` on the mutated value.
    InvariantViolation { state: C, message: &'static str },
    /// Repeated runs of the predicate on the same value disagreed, which
    /// means the predicate itself is buggy, not the data.
    NonDeterministicInvariant { state: C },
}

impl<C> CommitError<C> {
    /// The container in the state the rejected mutation left it.
    pub fn into_state(self) -> (c: C)
        ensures
            match self {
                CommitError::InvariantViolation { state, .. } => c == state,
                CommitError::NonDeterministicInvariant { state } => c == state,
            },
    {
        match self {
            CommitError::InvariantViolation { state, .. } => state,
            CommitError::NonDeterministicInvariant { state } => state,
        }
    }

    /// The violation message, when the predicate rejected the value.
    pub fn message(&self) -> (m: Option<&'static str>)
        ensures
            match self {
                CommitError::InvariantViolation { message, .. } => m == Some(*message),
                CommitError::NonDeterministicInvariant { .. } => m is None,
            },
    {
        match self {
            CommitError::InvariantViolation { message, .. } => Some(*message),
            CommitError::NonDeterministicInvariant { .. } => None,
        }
    }

    /// Whether the predicate rejected the value (as opposed to disagreeing
    /// with itself).
    pub fn is_violation(&self) -> (b: bool)
        ensures
            b == (self matches CommitError::InvariantViolation { .. }),
    {
        match self {
            CommitError::InvariantViolation { .. } => true,
            CommitError::NonDeterministicInvariant { .. } => false,
        }
    }
}

/// Wraps a value and a predicate over it. While no mutation scope is open the
/// predicate held at the last committed mutation; construction alone performs
/// no check, so a container may deliberately start in a state the predicate
/// rejects.
pub struct Repr<T, I> where I: Fn(&T) -> bool {
    inner: T,
    pred: I,
    msg: &'static str,
}

impl<T, I: Fn(&T) -> bool> Repr<T, I> {
    /// The wrapped value.
    pub closed spec fn value(&self) -> T {
        self.inner
    }

    /// The invariant predicate.
    pub closed spec fn predicate(&self) -> I {
        self.pred
    }

    /// The message carried by an `InvariantViolation`.
    pub closed spec fn message(&self) -> &'static str {
        self.msg
    }

    /// Creates a container with the given value and invariant predicate. The
    /// predicate is deliberately not evaluated here: the first check happens
    /// at the first commit.
    pub fn new(inner: T, pred: I) -> (r: Self)
        ensures
            r.value() == inner,
            r.predicate() == pred,
            r.message() == DEFAULT_VIOLATION_MESSAGE,
    {
        Repr { inner, pred, msg: DEFAULT_VIOLATION_MESSAGE }
    }

    /// Creates a container with the given value, invariant predicate and
    /// violation message. Like `new`, performs no check.
    pub fn with_msg(inner: T, pred: I, violation_message: &'static str) -> (r: Self)
        ensures
            r.value() == inner,
            r.predicate() == pred,
            r.message() == violation_message,
    {
        Repr { inner, pred, msg: violation_message }
    }

    /// Borrows a read-only view of the wrapped value.
    pub fn read(&self) -> (r: &T)
        ensures
            *r == self.value(),
    {
        &self.inner
    }

    /// Opens a mutation scope. Consuming the container guarantees that at
    /// most one scope is open at a time and that no read can happen while it
    /// is.
    pub fn write(self) -> (m: ReprMutator<T, I>)
        ensures
            m.value() == self.value(),
            m.predicate() == self.predicate(),
            m.message() == self.message(),
    {
        ReprMutator { current: self.inner, pred: self.pred, msg: self.msg }
    }

    /// Consumes the container and returns the value without checking the
    /// invariant.
    pub fn into_inner(self) -> (r: T)
        ensures
            r == self.value(),
    {
        self.inner
    }
}

/// An open mutation scope over a [`Repr`]: exclusive ownership of the value,
/// edited freely through [`ReprMutator::read`] and [`ReprMutator::set`], with
/// exactly one invariant check when the scope closes in
/// [`ReprMutator::commit`], however many edits were made.
pub struct ReprMutator<T, I> where I: Fn(&T) -> bool {
    current: T,
    pred: I,
    msg: &'static str,
}

impl<T, I: Fn(&T) -> bool> ReprMutator<T, I> {
    /// The value as mutated so far.
    pub closed spec fn value(&self) -> T {
        self.current
    }

    /// The invariant predicate, checked at commit.
    pub closed spec fn predicate(&self) -> I {
        self.pred
    }

    /// The message carried by an `InvariantViolation`.
    pub closed spec fn message(&self) -> &'static str {
        self.msg
    }

    /// Borrows the value as mutated so far. Inside the scope it may violate
    /// the invariant: nothing is checked until commit.
    pub fn read(&self) -> (r: &T)
        ensures
            *r == self.value(),
    {
        &self.current
    }

    /// Replaces the value. May be called any number of times before the
    /// scope closes.
    pub fn set(&mut self, value: T)
        ensures
            final(self).value() == value,
            final(self).predicate() == old(self).predicate(),
            final(self).message() == old(self).message(),
    {
        self.current = value;
    }

    /// Closes the scope: runs the predicate once, and ten further times on
    /// the same value as a guard against non-deterministic predicates. If
    /// any two runs disagree the commit fails with
    /// `NonDeterministicInvariant`; if the runs agree on `false` it fails
    /// with `InvariantViolation`. Either error carries the container with
    /// the mutated value still in place: a rejected mutation is not rolled
    /// back.
    pub fn commit(self) -> (r: Result<Repr<T, I>, CommitError<Repr<T, I>>>)
        requires
            pred_callable::<T, I>(self.predicate()),
        ensures
            match r {
                Ok(repr) => {
                    &&& repr.value() == self.value()
                    &&& repr.predicate() == self.predicate()
                    &&& repr.message() == self.message()
                    &&& call_ensures(self.predicate(), (&self.value(),), true)
                },
                Err(e) => match e {
                    CommitError::InvariantViolation { state, message } => {
                        &&& state.value() == self.value()
                        &&& state.predicate() == self.predicate()
                        &&& state.message() == self.message()
                        &&& message == self.message()
                        &&& call_ensures(self.predicate(), (&self.value(),), false)
                    },
                    CommitError::NonDeterministicInvariant { state } => {
                        &&& state.value() == self.value()
                        &&& state.predicate() == self.predicate()
                        &&& state.message() == self.message()
                        &&& call_ensures(self.predicate(), (&self.value(),), true)
                        &&& call_ensures(self.predicate(), (&self.value(),), false)
                    },
                },
            },
            pred_decides(self.predicate(), &self.value(), true) ==> r is Ok,
            pred_decides(self.predicate(), &self.value(), false) ==> (r matches Err(
                CommitError::InvariantViolation { .. },
            )),
    {
        let first = (self.pred)(&self.current);
        let mut disagreed = false;
        let mut i: usize = 0;
        while i < 10
            invariant
                i <= 10,
                pred_callable::<T, I>(self.pred),
                call_ensures(self.pred, (&self.current,), first),
                disagreed ==> call_ensures(self.pred, (&self.current,), true) && call_ensures(
                    self.pred,
                    (&self.current,),
                    false,
                ),
            decreases 10 - i,
        {
            let again = (self.pred)(&self.current);
            if again != first {
                disagreed = true;
            }
            i += 1;
        }
        if disagreed {
            return Err(
                CommitError::NonDeterministicInvariant {
                    state: Repr { inner: self.current, pred: self.pred, msg: self.msg },
                },
            );
        }
        if first {
            Ok(Repr { inner: self.current, pred: self.pred, msg: self.msg })
        } else {
            Err(
                CommitError::InvariantViolation {
                    state: Repr { inner: self.current, pred: self.pred, msg: self.msg },
                    message: self.msg,
                },
            )
        }
    }
}

} // verus!
