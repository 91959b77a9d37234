use pssm::state::State;
use pssm::truth::{Id, Truth};
use std::any::Any;
use std::collections::HashSet;

type Payload = Box<dyn Any>;

#[derive(Debug, PartialEq)]
struct A {
    value: i32,
}

#[derive(Debug, PartialEq)]
struct B {
    name: String,
}

impl Truth for A {
    type Value = Payload;

    fn spec_id() -> Id {
        1
    }

    fn spec_wrap(self) -> Payload {
        Box::new(self)
    }

    fn wrap_is_injective(_a: Self, _b: Self) {
    }

    fn id() -> Id {
        1
    }

    fn wrap(self) -> Payload {
        Box::new(self)
    }

    fn unwrap(payload: Payload) -> Self {
        *payload.downcast::<A>().expect("Invalid type stored for truth")
    }
}

impl Truth for B {
    type Value = Payload;

    fn spec_id() -> Id {
        2
    }

    fn spec_wrap(self) -> Payload {
        Box::new(self)
    }

    fn wrap_is_injective(_a: Self, _b: Self) {
    }

    fn id() -> Id {
        2
    }

    fn wrap(self) -> Payload {
        Box::new(self)
    }

    fn unwrap(payload: Payload) -> Self {
        *payload.downcast::<B>().expect("Invalid type stored for truth")
    }
}

#[test]
fn identifiers_differ_between_fact_types() {
    assert_ne!(A::id(), B::id());
}

#[test]
fn identifier_is_the_same_at_every_call() {
    assert_eq!(A::id(), A::id());
    assert_eq!(B::id(), B::id());
    assert_eq!(A::id(), 1);
    assert_eq!(B::id(), 2);
}

#[test]
fn new_store_is_empty() {
    let state: State<Payload> = State::new();
    assert!(!state.contains::<A>());
    assert!(!state.contains::<B>());
    assert!(!state.contains_id(1));
}

#[test]
fn insert_then_take_gives_the_value_back() {
    let mut state: State<Payload> = State::new();
    state.insert(A { value: 5 });
    assert!(state.contains::<A>());
    assert_eq!(state.take::<A>(), A { value: 5 });
    assert!(!state.contains::<A>());
}

#[test]
fn insert_overwrites_the_fact_of_the_same_type() {
    let mut state: State<Payload> = State::new();
    state.insert(A { value: 5 });
    state.insert(A { value: 7 });
    assert_eq!(state.take::<A>(), A { value: 7 });
    assert_eq!(state.take_optional::<A>(), None);
}

#[test]
fn take_optional_on_an_empty_store_gives_none() {
    let mut state: State<Payload> = State::new();
    assert_eq!(state.take_optional::<A>(), None);
    assert_eq!(state.take_optional::<B>(), None);
}

#[test]
fn take_optional_removes_what_is_there() {
    let mut state: State<Payload> = State::new();
    state.insert(B { name: String::from("b") });
    assert_eq!(state.take_optional::<B>(), Some(B { name: String::from("b") }));
    assert!(!state.contains::<B>());
    assert_eq!(state.take_optional::<B>(), None);
}

#[test]
fn facts_of_different_types_do_not_disturb_each_other() {
    let mut state: State<Payload> = State::new();
    state.insert(A { value: 1 });
    state.insert(B { name: String::from("b") });
    assert_eq!(state.take::<A>(), A { value: 1 });
    assert!(state.contains::<B>());
    assert_eq!(state.take::<B>(), B { name: String::from("b") });
}

#[test]
fn contains_id_follows_the_identifier() {
    let mut state: State<Payload> = State::new();
    state.insert(B { name: String::from("b") });
    assert!(state.contains_id(2));
    assert!(!state.contains_id(1));
}

#[test]
fn contains_all_asks_for_every_identifier() {
    let mut state: State<Payload> = State::new();
    state.insert(A { value: 1 });
    let none: HashSet<Id> = HashSet::new();
    let just_a: HashSet<Id> = [1].into_iter().collect();
    let both: HashSet<Id> = [1, 2].into_iter().collect();
    assert!(state.contains_all(&none));
    assert!(state.contains_all(&just_a));
    assert!(!state.contains_all(&both));
    state.insert(B { name: String::from("b") });
    assert!(state.contains_all(&both));
}
