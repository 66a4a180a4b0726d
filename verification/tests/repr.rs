use std::borrow::Cow;
use std::cell::RefCell;
use std::collections::HashMap;
use std::rc::Rc;

use repr_rs::repr::CommitError;
use repr_rs::Repr;

#[derive(Debug, Copy, Clone, PartialEq, Eq, Hash)]
struct MinMax {
    min: i32,
    max: i32,
}

fn min_lt_max(mm: &MinMax) -> bool {
    mm.min < mm.max
}

fn get_min_ref(mm: &MinMax) -> i32 {
    mm.min
}

#[derive(Debug)]
struct Person<'a> {
    name: Cow<'a, str>,
    age: u8,
}

impl Person<'_> {
    fn is_valid(&self) -> bool {
        !self.name.is_empty() && self.age < 200
    }
}

#[test]
fn reading() {
    let repr = Repr::new(MinMax { min: 1, max: 5 }, min_lt_max);
    assert_eq!(repr.read().min, 1);
    assert_eq!(repr.read().max, 5);
}

#[test]
fn reading_as_ref() {
    let repr = Repr::new(MinMax { min: 1, max: 5 }, min_lt_max);
    assert_eq!(get_min_ref(repr.read()), 1);
    assert_eq!(repr.read().max, 5);
}

#[test]
fn allowed_mutation() {
    let repr = Repr::new(MinMax { min: 1, max: 5 }, min_lt_max);
    let a = repr.read().min;
    let mut scope = repr.write();
    let mut v = *scope.read();
    v.min = 4;
    scope.set(v);
    let repr = match scope.commit() {
        Ok(r) => r,
        Err(_) => panic!("commit should succeed"),
    };
    assert_eq!(4, repr.read().min);
    assert_eq!(1, a);
}

#[test]
#[should_panic]
fn should_propagate_panic() {
    let panicky = |mm: &MinMax| {
        if mm.max <= 5 {
            mm.min < mm.max
        } else {
            panic!("random panic")
        }
    };
    let repr = Repr::new(MinMax { min: 1, max: 5 }, panicky);
    let a = repr.read().min;
    let mut scope = repr.write();
    let mut v = *scope.read();
    v.min = 4;
    scope.set(v);
    let repr = match scope.commit() {
        Ok(r) => r,
        Err(_) => panic!("commit should succeed"),
    };
    assert_eq!(4, repr.read().min);
    assert_eq!(1, a);
    let mut scope = repr.write();
    let mut v = *scope.read();
    v.max = 10;
    scope.set(v);
    let _ = scope.commit();
}

#[test]
fn banned_mutation() {
    let repr = Repr::new(MinMax { min: 1, max: 5 }, min_lt_max);
    let mut scope = repr.write();
    let mut v = *scope.read();
    v.min = 6;
    scope.set(v);
    match scope.commit() {
        Ok(_) => panic!("commit should be rejected"),
        Err(e) => {
            assert!(e.is_violation());
            let state = e.into_state();
            assert_eq!(6, state.read().min);
        }
    }
}

#[test]
fn should_try_to_detect_non_deterministic_invariants() {
    let value = Rc::new(RefCell::new(true));
    let flaky = {
        let value = value.clone();
        move |_: &Rc<RefCell<bool>>| {
            let res = *value.borrow();
            value.replace(false);
            res
        }
    };
    let repr = Repr::new(value.clone(), flaky);
    let scope = repr.write();
    match scope.commit() {
        Ok(_) => panic!("commit should be rejected"),
        Err(e) => {
            assert!(matches!(e, CommitError::NonDeterministicInvariant { .. }));
        }
    }
}

#[test]
fn banned_mutation_with_msg() {
    let repr = Repr::with_msg(
        MinMax { min: 1, max: 5 },
        min_lt_max,
        "min must always be less than max!",
    );
    let mut scope = repr.write();
    let mut v = *scope.read();
    v.min = 6;
    scope.set(v);
    match scope.commit() {
        Ok(_) => panic!("commit should be rejected"),
        Err(e) => {
            assert_eq!(Some("min must always be less than max!"), e.message());
        }
    }
}

#[test]
fn should_work_with_borrowed_data() {
    let bob = String::from("Bob");
    let repr = Repr::with_msg(
        Person {
            name: bob.as_str().into(),
            age: 25,
        },
        Person::is_valid,
        "People must have a name and cannot be older than 200",
    );
    {
        let person = repr.read();
        assert_eq!("Bob", person.name);
        assert_eq!(25, person.age);
    }
    let mut scope = repr.write();
    scope.set(Person {
        name: "Alice".into(),
        age: 30,
    });
    let repr = match scope.commit() {
        Ok(r) => r,
        Err(_) => panic!("commit should succeed"),
    };
    {
        let person = repr.read();
        assert_eq!("Alice", person.name);
        assert_eq!(30, person.age);
    }
}

#[test]
fn should_work_with_borrowed_data_doing_a_bad_mutation() {
    let bob = String::from("Bob");
    let repr = Repr::with_msg(
        Person {
            name: bob.as_str().into(),
            age: 25,
        },
        Person::is_valid,
        "People must have a name and cannot be older than 200",
    );
    {
        let person = repr.read();
        assert_eq!("Bob", person.name);
        assert_eq!(25, person.age);
    }
    let mut scope = repr.write();
    scope.set(Person {
        name: "Alice".into(),
        age: 200,
    });
    match scope.commit() {
        Ok(_) => panic!("commit should be rejected"),
        Err(e) => {
            assert_eq!(
                Some("People must have a name and cannot be older than 200"),
                e.message()
            );
            let state = e.into_state();
            assert_eq!("Alice", state.read().name);
            assert_eq!(200, state.read().age);
        }
    }
}

#[test]
fn should_hash_by_inner() {
    let repr1 = Repr::new(MinMax { min: 1, max: 5 }, min_lt_max);
    let repr2 = Repr::new(MinMax { min: 1, max: 5 }, min_lt_max);
    let mut scope1 = repr1.write();
    let mut scope2 = repr2.write();
    let w1: MinMax = *scope1.read();
    let mut w2: MinMax = *scope2.read();
    let mut map = HashMap::new();
    map.insert(w1, 1);
    assert!(map.contains_key(&w1));
    assert!(map.contains_key(&w2));
    w2.max = 10;
    assert!(map.contains_key(&w1));
    assert!(!map.contains_key(&w2));
    scope1.set(w1);
    scope2.set(w2);
    assert!(scope1.commit().is_ok());
    assert!(scope2.commit().is_ok());
}

#[test]
fn construction_performs_no_check() {
    let repr = Repr::new(MinMax { min: 9, max: 1 }, min_lt_max);
    assert_eq!(9, repr.read().min);
    assert_eq!(1, repr.read().max);
}

#[test]
fn into_inner_returns_value_without_check() {
    let repr = Repr::new(MinMax { min: 9, max: 1 }, min_lt_max);
    let inner = repr.into_inner();
    assert_eq!(9, inner.min);
    assert_eq!(1, inner.max);
}

#[test]
fn default_violation_message() {
    let repr = Repr::new(MinMax { min: 1, max: 5 }, min_lt_max);
    let mut scope = repr.write();
    let mut v = *scope.read();
    v.min = 6;
    scope.set(v);
    match scope.commit() {
        Ok(_) => panic!("commit should be rejected"),
        Err(e) => {
            assert_eq!(Some("Invariant violated"), e.message());
        }
    }
}
