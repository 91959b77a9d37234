use pssm::error::TransitionError;
use pssm::state::State;
use pssm::transition::{AndThenMut, TransitionMut};
use pssm::truth::{Id, Truth};
use std::any::Any;
use std::collections::HashSet;

type Payload = Box<dyn Any>;

#[derive(Debug, PartialEq)]
struct A {
    value: i32,
}

impl Truth for A {
    type Value = Payload;

    fn spec_id() -> Id {
        1
    }

    fn spec_wrap(self) -> Payload {
        Box::new(self)
    }

    fn wrap_is_injective(_a: Self, _b: Self) {
    }

    fn id() -> Id {
        1
    }

    fn wrap(self) -> Payload {
        Box::new(self)
    }

    fn unwrap(payload: Payload) -> Self {
        *payload.downcast::<A>().expect("Invalid type stored for truth")
    }
}

#[derive(Debug, PartialEq)]
struct B {
    value: i32,
}

impl Truth for B {
    type Value = Payload;

    fn spec_id() -> Id {
        2
    }

    fn spec_wrap(self) -> Payload {
        Box::new(self)
    }

    fn wrap_is_injective(_a: Self, _b: Self) {
    }

    fn id() -> Id {
        2
    }

    fn wrap(self) -> Payload {
        Box::new(self)
    }

    fn unwrap(payload: Payload) -> Self {
        *payload.downcast::<B>().expect("Invalid type stored for truth")
    }
}

#[derive(Debug, PartialEq)]
struct C {
    value: i32,
}

impl Truth for C {
    type Value = Payload;

    fn spec_id() -> Id {
        3
    }

    fn spec_wrap(self) -> Payload {
        Box::new(self)
    }

    fn wrap_is_injective(_a: Self, _b: Self) {
    }

    fn id() -> Id {
        3
    }

    fn wrap(self) -> Payload {
        Box::new(self)
    }

    fn unwrap(payload: Payload) -> Self {
        *payload.downcast::<C>().expect("Invalid type stored for truth")
    }
}

fn ids(list: &[Id]) -> HashSet<Id> {
    list.iter().copied().collect()
}

fn insert_a() -> A {
    A { value: 5 }
}

fn a_to_b(a: A) -> B {
    B { value: a.value * 2 }
}

fn a_to_c(a: A) -> C {
    C { value: a.value * 3 }
}

#[test]
fn a_stateful_chain_collects_what_runs_through() {
    let mut seen = Vec::new();
    {
        let collect = |a: A| {
            seen.push(a.value);
        };
        let mut chain: TransitionMut<Payload> = insert_a.and_then(collect).unwrap();
        assert_eq!(chain.requirements(), &ids(&[]));
        assert_eq!(chain.productions(), &ids(&[]));
        let mut state: State<Payload> = State::new();
        chain.run(&mut state);
        chain.run(&mut state);
        assert!(!state.contains::<A>());
    }
    assert_eq!(seen, vec![5, 5]);
}

#[test]
fn a_stateful_chain_is_checked_like_any_other() {
    let chain: Result<TransitionMut<Payload>, TransitionError> = a_to_b.and_then(a_to_c);
    assert_eq!(chain.err(), Some(TransitionError::UnsatisfiableReorder));
    let chain: TransitionMut<Payload> = insert_a.and_then(a_to_b).unwrap();
    assert_eq!(chain.requirements(), &ids(&[]));
    assert_eq!(chain.productions(), &ids(&[2]));
}
