use std::cell::Cell;
use std::rc::Rc;

use repr_rs::CacheableRepr;

#[derive(Debug, Copy, Clone, PartialEq, Eq, Hash)]
struct MinMax {
    min: i32,
    max: i32,
}

fn min_lt_max(mm: &MinMax) -> bool {
    mm.min < mm.max
}

fn get_min(mm: &MinMax) -> i32 {
    mm.min
}

#[test]
fn lib_should_read_from_cache() {
    let mut repr = CacheableRepr::new(MinMax { min: 1, max: 5 }, min_lt_max);
    assert_eq!(1, repr.lazy(1, get_min));
    assert_eq!(1, repr.lazy(1, get_min));
}

#[test]
fn lib_should_invalidate_cache_on_mutation() {
    let mut repr = CacheableRepr::new(MinMax { min: 1, max: 5 }, min_lt_max);
    assert_eq!(1, repr.lazy(1, get_min));
    assert_eq!(1, repr.lazy(1, get_min));
    let mut scope = repr.write();
    let mut v = *scope.read();
    v.min = 4;
    scope.set(v);
    let mut repr = match scope.commit() {
        Ok(r) => r,
        Err(_) => panic!("commit should succeed"),
    };
    assert_eq!(4, repr.lazy(1, get_min));
    assert_eq!(4, repr.lazy(1, get_min));
}

#[test]
fn lib_should_allow_static_closures_for_cache_reads() {
    let mut repr = CacheableRepr::new(MinMax { min: 1, max: 5 }, min_lt_max);
    assert_eq!(1, repr.lazy(1, |mm| mm.min));
    assert_eq!(1, repr.lazy(1, |mm| mm.min));
    let mut scope = repr.write();
    let mut v = *scope.read();
    v.min = 4;
    scope.set(v);
    let mut repr = match scope.commit() {
        Ok(r) => r,
        Err(_) => panic!("commit should succeed"),
    };
    assert_eq!(4, repr.lazy(1, |mm| mm.min));
    assert_eq!(4, repr.lazy(1, |mm| mm.min));
}

#[test]
fn lazy_runs_read_function_at_most_once_between_commits() {
    // The concrete scenario: {min:1, max:5} with predicate min < max, a
    // counting read function, one committed mutation and one rejected one.
    let mut repr = CacheableRepr::new(MinMax { min: 1, max: 5 }, min_lt_max);
    let calls = Rc::new(Cell::new(0u32));
    let counting_get_min = {
        let calls = calls.clone();
        move |mm: &MinMax| {
            calls.set(calls.get() + 1);
            mm.min
        }
    };

    assert_eq!(1, repr.lazy(1, &counting_get_min));
    assert_eq!(1, repr.lazy(1, &counting_get_min));
    assert_eq!(1, calls.get());

    let mut scope = repr.write();
    let mut v = *scope.read();
    v.min = 4;
    scope.set(v);
    let mut repr = match scope.commit() {
        Ok(r) => r,
        Err(_) => panic!("commit should succeed"),
    };
    assert_eq!(4, repr.lazy(1, &counting_get_min));
    assert_eq!(2, calls.get());

    let mut scope = repr.write();
    let mut v = *scope.read();
    v.min = 6;
    scope.set(v);
    match scope.commit() {
        Ok(_) => panic!("commit should be rejected"),
        Err(e) => {
            assert!(e.is_violation());
            let state = e.into_state();
            assert_eq!(6, state.read().min);
        }
    }
}

#[test]
fn distinct_tokens_have_independent_lazy_entries() {
    let mut repr = CacheableRepr::new(MinMax { min: 1, max: 5 }, min_lt_max);
    let min_calls = Rc::new(Cell::new(0u32));
    let max_calls = Rc::new(Cell::new(0u32));
    let counting_min = {
        let min_calls = min_calls.clone();
        move |mm: &MinMax| {
            min_calls.set(min_calls.get() + 1);
            mm.min
        }
    };
    let counting_max = {
        let max_calls = max_calls.clone();
        move |mm: &MinMax| {
            max_calls.set(max_calls.get() + 1);
            mm.max
        }
    };
    assert_eq!(1, repr.lazy(1, &counting_min));
    assert_eq!(5, repr.lazy(2, &counting_max));
    assert_eq!(1, repr.lazy(1, &counting_min));
    assert_eq!(5, repr.lazy(2, &counting_max));
    assert_eq!(1, min_calls.get());
    assert_eq!(1, max_calls.get());
}

#[test]
fn cacheable_construction_performs_no_check() {
    let mut repr = CacheableRepr::new(MinMax { min: 9, max: 1 }, min_lt_max);
    assert_eq!(9, repr.read().min);
    assert_eq!(1, repr.read().max);
    assert_eq!(9, repr.lazy(1, get_min));
}

#[test]
fn cacheable_into_inner_returns_value() {
    let repr: CacheableRepr<MinMax, _, i32> =
        CacheableRepr::new(MinMax { min: 1, max: 5 }, min_lt_max);
    let inner = repr.into_inner();
    assert_eq!(1, inner.min);
    assert_eq!(5, inner.max);
}

#[test]
fn cacheable_with_msg_carries_message() {
    let repr: CacheableRepr<MinMax, _, i32> = CacheableRepr::with_msg(
        MinMax { min: 1, max: 5 },
        min_lt_max,
        "min must always be less than max!",
    );
    let mut scope = repr.write();
    scope.set(MinMax { min: 6, max: 5 });
    match scope.commit() {
        Ok(_) => panic!("commit should be rejected"),
        Err(e) => {
            assert_eq!(Some("min must always be less than max!"), e.message());
            let state = e.into_state();
            assert_eq!(6, state.read().min);
        }
    }
}

#[test]
fn conversion_between_plain_and_cacheable() {
    let repr = repr_rs::Repr::new(MinMax { min: 1, max: 5 }, min_lt_max);
    let mut cacheable: CacheableRepr<MinMax, _, i32> = CacheableRepr::from_repr(repr);
    assert_eq!(1, cacheable.lazy(1, get_min));
    let plain = cacheable.into_repr();
    assert_eq!(1, plain.read().min);
    assert_eq!(5, plain.read().max);
}
