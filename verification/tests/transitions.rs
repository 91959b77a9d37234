use pssm::error::TransitionError;
use pssm::state::State;
use pssm::transition::into::Bound;
use pssm::transition::{
    IntoTransition, IntoTransitionMut, IntoTransitionOnce, Transition, TransitionMut,
    TransitionOnce,
};
use pssm::truth::{Id, Truth};
use std::any::Any;
use std::collections::HashSet;
use std::marker::PhantomData;

type Payload = Box<dyn Any>;

#[derive(Debug, PartialEq)]
struct A {
    value: i32,
}

impl Truth for A {
    type Value = Payload;

    fn spec_id() -> Id {
        1
    }

    fn spec_wrap(self) -> Payload {
        Box::new(self)
    }

    fn wrap_is_injective(_a: Self, _b: Self) {
    }

    fn id() -> Id {
        1
    }

    fn wrap(self) -> Payload {
        Box::new(self)
    }

    fn unwrap(payload: Payload) -> Self {
        *payload.downcast::<A>().expect("Invalid type stored for truth")
    }
}

#[derive(Debug, PartialEq)]
struct B {
    value: i32,
}

impl Truth for B {
    type Value = Payload;

    fn spec_id() -> Id {
        2
    }

    fn spec_wrap(self) -> Payload {
        Box::new(self)
    }

    fn wrap_is_injective(_a: Self, _b: Self) {
    }

    fn id() -> Id {
        2
    }

    fn wrap(self) -> Payload {
        Box::new(self)
    }

    fn unwrap(payload: Payload) -> Self {
        *payload.downcast::<B>().expect("Invalid type stored for truth")
    }
}

#[derive(Debug, PartialEq)]
struct C {
    value: i32,
}

impl Truth for C {
    type Value = Payload;

    fn spec_id() -> Id {
        3
    }

    fn spec_wrap(self) -> Payload {
        Box::new(self)
    }

    fn wrap_is_injective(_a: Self, _b: Self) {
    }

    fn id() -> Id {
        3
    }

    fn wrap(self) -> Payload {
        Box::new(self)
    }

    fn unwrap(payload: Payload) -> Self {
        *payload.downcast::<C>().expect("Invalid type stored for truth")
    }
}

#[derive(Debug, PartialEq)]
struct D {
    value: i32,
}

impl Truth for D {
    type Value = Payload;

    fn spec_id() -> Id {
        4
    }

    fn spec_wrap(self) -> Payload {
        Box::new(self)
    }

    fn wrap_is_injective(_a: Self, _b: Self) {
    }

    fn id() -> Id {
        4
    }

    fn wrap(self) -> Payload {
        Box::new(self)
    }

    fn unwrap(payload: Payload) -> Self {
        *payload.downcast::<D>().expect("Invalid type stored for truth")
    }
}

#[derive(Debug, PartialEq)]
struct E {
    value: i32,
}

impl Truth for E {
    type Value = Payload;

    fn spec_id() -> Id {
        5
    }

    fn spec_wrap(self) -> Payload {
        Box::new(self)
    }

    fn wrap_is_injective(_a: Self, _b: Self) {
    }

    fn id() -> Id {
        5
    }

    fn wrap(self) -> Payload {
        Box::new(self)
    }

    fn unwrap(payload: Payload) -> Self {
        *payload.downcast::<E>().expect("Invalid type stored for truth")
    }
}

#[derive(Debug, PartialEq)]
struct F {
    value: i32,
}

impl Truth for F {
    type Value = Payload;

    fn spec_id() -> Id {
        6
    }

    fn spec_wrap(self) -> Payload {
        Box::new(self)
    }

    fn wrap_is_injective(_a: Self, _b: Self) {
    }

    fn id() -> Id {
        6
    }

    fn wrap(self) -> Payload {
        Box::new(self)
    }

    fn unwrap(payload: Payload) -> Self {
        *payload.downcast::<F>().expect("Invalid type stored for truth")
    }
}

#[derive(Debug, PartialEq)]
struct G {
    value: i32,
}

impl Truth for G {
    type Value = Payload;

    fn spec_id() -> Id {
        7
    }

    fn spec_wrap(self) -> Payload {
        Box::new(self)
    }

    fn wrap_is_injective(_a: Self, _b: Self) {
    }

    fn id() -> Id {
        7
    }

    fn wrap(self) -> Payload {
        Box::new(self)
    }

    fn unwrap(payload: Payload) -> Self {
        *payload.downcast::<G>().expect("Invalid type stored for truth")
    }
}

#[derive(Debug, PartialEq)]
struct H {
    value: i32,
}

impl Truth for H {
    type Value = Payload;

    fn spec_id() -> Id {
        8
    }

    fn spec_wrap(self) -> Payload {
        Box::new(self)
    }

    fn wrap_is_injective(_a: Self, _b: Self) {
    }

    fn id() -> Id {
        8
    }

    fn wrap(self) -> Payload {
        Box::new(self)
    }

    fn unwrap(payload: Payload) -> Self {
        *payload.downcast::<H>().expect("Invalid type stored for truth")
    }
}

fn ids(list: &[Id]) -> HashSet<Id> {
    list.iter().copied().collect()
}

fn insert_a() -> A {
    A { value: 5 }
}

fn add_one(a: A) -> A {
    A { value: a.value + 1 }
}

fn sum(a: A, b: B) -> C {
    C { value: a.value + b.value }
}

fn twice_a(_a: A, _again: A) {
}

fn two_a() -> (A, A) {
    (A { value: 1 }, A { value: 2 })
}

fn both_wrong(_a: A, _again: A) -> (B, B) {
    (B { value: 1 }, B { value: 2 })
}

#[test]
fn a_function_without_parameters_requires_nothing() {
    let transition: Transition<Payload> = insert_a.into_transition().unwrap();
    assert_eq!(transition.requirements(), &ids(&[]));
    assert_eq!(transition.productions(), &ids(&[1]));
}

#[test]
fn a_function_requires_its_parameters_and_produces_its_result() {
    let transition: Transition<Payload> = sum.into_transition().unwrap();
    assert_eq!(transition.requirements(), &ids(&[1, 2]));
    assert_eq!(transition.productions(), &ids(&[3]));
}

#[test]
fn an_optional_parameter_is_not_required() {
    let function = |a: Option<A>, b: B| -> Option<C> {
        a.map(|a| C { value: a.value + b.value })
    };
    let transition: Transition<Payload> = function.into_transition().unwrap();
    assert_eq!(transition.requirements(), &ids(&[2]));
    assert_eq!(transition.productions(), &ids(&[]));
}

#[test]
fn the_same_parameter_twice_is_refused() {
    let built: Result<Transition<Payload>, TransitionError> = twice_a.into_transition();
    assert_eq!(built.err(), Some(TransitionError::DuplicateRequirement));
    let built: Result<TransitionMut<Payload>, TransitionError> = twice_a.into_transition_mut();
    assert_eq!(built.err(), Some(TransitionError::DuplicateRequirement));
    let built: Result<TransitionOnce<Payload>, TransitionError> = twice_a.into_transition_once();
    assert_eq!(built.err(), Some(TransitionError::DuplicateRequirement));
}

#[test]
fn the_same_result_twice_is_refused() {
    let built: Result<Transition<Payload>, TransitionError> = two_a.into_transition();
    assert_eq!(built.err(), Some(TransitionError::DuplicateProduction));
    let built: Result<TransitionMut<Payload>, TransitionError> = two_a.into_transition_mut();
    assert_eq!(built.err(), Some(TransitionError::DuplicateProduction));
    let built: Result<TransitionOnce<Payload>, TransitionError> = two_a.into_transition_once();
    assert_eq!(built.err(), Some(TransitionError::DuplicateProduction));
}

#[test]
fn the_result_is_looked_at_before_the_parameters() {
    let built: Result<Transition<Payload>, TransitionError> = both_wrong.into_transition();
    assert_eq!(built.err(), Some(TransitionError::DuplicateProduction));
}

#[test]
fn run_takes_the_parameters_and_inserts_the_result() {
    let transition: Transition<Payload> = sum.into_transition().unwrap();
    let mut state: State<Payload> = State::new();
    state.insert(A { value: 2 });
    state.insert(B { value: 3 });
    transition.run(&mut state);
    assert!(!state.contains::<A>());
    assert!(!state.contains::<B>());
    assert_eq!(state.take::<C>(), C { value: 5 });
}

#[test]
fn a_transition_runs_again() {
    let transition: Transition<Payload> = add_one.into_transition().unwrap();
    let mut state: State<Payload> = State::new();
    state.insert(A { value: 0 });
    transition.run(&mut state);
    transition.run(&mut state);
    transition.run(&mut state);
    assert_eq!(state.take::<A>(), A { value: 3 });
}

#[test]
fn a_function_of_eight_parameters() {
    let function = |a: A, b: B, c: C, d: D, e: E, f: F, g: G, h: H| -> A {
        A {
            value: a.value
                + 10 * b.value
                + 100 * c.value
                + 1000 * d.value
                + 10000 * e.value
                + 100000 * f.value
                + 1000000 * g.value
                + 10000000 * h.value,
        }
    };
    let transition: Transition<Payload> = function.into_transition().unwrap();
    assert_eq!(transition.requirements(), &ids(&[1, 2, 3, 4, 5, 6, 7, 8]));
    assert_eq!(transition.productions(), &ids(&[1]));
    let mut state: State<Payload> = State::new();
    state.insert(A { value: 1 });
    state.insert(B { value: 2 });
    state.insert(C { value: 3 });
    state.insert(D { value: 4 });
    state.insert(E { value: 5 });
    state.insert(F { value: 6 });
    state.insert(G { value: 7 });
    state.insert(H { value: 8 });
    transition.run(&mut state);
    assert_eq!(state.take::<A>(), A { value: 87654321 });
    assert!(!state.contains::<H>());
}

#[test]
fn functions_of_three_to_seven_parameters() {
    let mut state: State<Payload> = State::new();
    let three = |a: A, b: B, c: C| -> (A, B, C) { (a, b, c) };
    let four = |a: A, b: B, c: C, d: D| -> (D, C, B, A) { (d, c, b, a) };
    let five = |a: A, b: B, c: C, d: D, _e: E| -> (A, B, C, D, E) {
        (a, b, c, d, E { value: 50 })
    };
    let six = |a: A, b: B, c: C, d: D, e: E, _f: F| -> (A, B, C, D, E, F) {
        (a, b, c, d, e, F { value: 60 })
    };
    let seven = |a: A, b: B, c: C, d: D, e: E, f: F, _g: G| -> (A, B, C, D, E, F, G) {
        (a, b, c, d, e, f, G { value: 70 })
    };
    state.insert(A { value: 1 });
    state.insert(B { value: 2 });
    state.insert(C { value: 3 });
    state.insert(D { value: 4 });
    state.insert(E { value: 5 });
    state.insert(F { value: 6 });
    state.insert(G { value: 7 });
    let three: Transition<Payload> = three.into_transition().unwrap();
    let four: Transition<Payload> = four.into_transition().unwrap();
    let five: Transition<Payload> = five.into_transition().unwrap();
    let six: Transition<Payload> = six.into_transition().unwrap();
    let seven: Transition<Payload> = seven.into_transition().unwrap();
    assert_eq!(three.requirements(), &ids(&[1, 2, 3]));
    assert_eq!(four.productions(), &ids(&[1, 2, 3, 4]));
    assert_eq!(five.requirements(), &ids(&[1, 2, 3, 4, 5]));
    assert_eq!(six.requirements(), &ids(&[1, 2, 3, 4, 5, 6]));
    assert_eq!(seven.productions(), &ids(&[1, 2, 3, 4, 5, 6, 7]));
    three.run(&mut state);
    four.run(&mut state);
    five.run(&mut state);
    six.run(&mut state);
    seven.run(&mut state);
    assert_eq!(state.take::<A>(), A { value: 1 });
    assert_eq!(state.take::<E>(), E { value: 50 });
    assert_eq!(state.take::<F>(), F { value: 60 });
    assert_eq!(state.take::<G>(), G { value: 70 });
}

#[test]
fn a_stateful_function_keeps_what_it_counts() {
    let mut seen = Vec::new();
    {
        let collect = |a: A| {
            seen.push(a.value);
        };
        let mut transition: TransitionMut<Payload> = collect.into_transition_mut().unwrap();
        assert_eq!(transition.requirements(), &ids(&[1]));
        assert_eq!(transition.productions(), &ids(&[]));
        let mut state: State<Payload> = State::new();
        state.insert(A { value: 1 });
        transition.run(&mut state);
        state.insert(A { value: 2 });
        transition.run(&mut state);
        assert!(!state.contains::<A>());
    }
    assert_eq!(seen, vec![1, 2]);
}

#[test]
fn a_function_that_runs_once_hands_over_what_it_owns() {
    let owned = B { value: 9 };
    let give = move || owned;
    let transition: TransitionOnce<Payload> = give.into_transition_once().unwrap();
    assert_eq!(transition.requirements(), &ids(&[]));
    assert_eq!(transition.productions(), &ids(&[2]));
    let mut state: State<Payload> = State::new();
    transition.run(&mut state);
    assert_eq!(state.take::<B>(), B { value: 9 });
}

#[test]
fn a_transition_converts_to_the_other_kinds() {
    let pure: Transition<Payload> = add_one.into_transition().unwrap();
    let mut stateful: TransitionMut<Payload> = pure.into_transition_mut().unwrap();
    assert_eq!(stateful.requirements(), &ids(&[1]));
    assert_eq!(stateful.productions(), &ids(&[1]));
    let mut state: State<Payload> = State::new();
    state.insert(A { value: 0 });
    stateful.run(&mut state);
    let once: TransitionOnce<Payload> = stateful.into_transition_once().unwrap();
    assert_eq!(once.requirements(), &ids(&[1]));
    assert_eq!(once.productions(), &ids(&[1]));
    once.run(&mut state);
    assert_eq!(state.take::<A>(), A { value: 2 });
}

#[test]
fn a_transition_converts_to_itself() {
    let pure: Transition<Payload> = sum.into_transition().unwrap();
    let again: Transition<Payload> = pure.into_transition().unwrap();
    assert_eq!(again.requirements(), &ids(&[1, 2]));
    let stateful: TransitionMut<Payload> = again.into_transition_mut().unwrap();
    let stateful: TransitionMut<Payload> = stateful.into_transition_mut().unwrap();
    let once: TransitionOnce<Payload> = stateful.into_transition_once().unwrap();
    let once: TransitionOnce<Payload> = once.into_transition_once().unwrap();
    assert_eq!(once.productions(), &ids(&[3]));
    let pure: Transition<Payload> = sum.into_transition().unwrap();
    let once: TransitionOnce<Payload> = pure.into_transition_once().unwrap();
    let mut state: State<Payload> = State::new();
    state.insert(A { value: 20 });
    state.insert(B { value: 22 });
    once.run(&mut state);
    assert_eq!(state.take::<C>(), C { value: 42 });
}

#[test]
fn new_keeps_the_sets_it_is_given() {
    let bound: Bound<fn(A) -> A, (A,), A> = Bound { func: add_one, marker: PhantomData };
    let transition: Transition<Payload> = Transition::new(bound, ids(&[1, 7]), ids(&[9]));
    assert_eq!(transition.requirements(), &ids(&[1, 7]));
    assert_eq!(transition.productions(), &ids(&[9]));
    let mut state: State<Payload> = State::new();
    state.insert(A { value: 1 });
    transition.run(&mut state);
    assert_eq!(state.take::<A>(), A { value: 2 });
}

#[test]
fn every_error_has_its_message() {
    assert_eq!(
        TransitionError::DuplicateRequirement.message(),
        "Transition requires the same truth multiple times"
    );
    assert_eq!(
        TransitionError::DuplicateProduction.message(),
        "Transition produces the same id multiple times."
    );
    assert_eq!(
        TransitionError::UnsatisfiableReorder.message(),
        "Both transitions require the same parameter, but the first transition does not produce it."
    );
    assert_eq!(TransitionError::MissingRequirement.message(), "Missing a required truth");
}
