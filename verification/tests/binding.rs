use pssm::error::TransitionError;
use pssm::state::State;
use pssm::transition::{IdCollector, TransitionParam, TransitionResult};
use pssm::truth::{Id, Truth};
use std::any::Any;
use std::collections::HashSet;

type Payload = Box<dyn Any>;

#[derive(Debug, PartialEq)]
struct A {
    value: i32,
}

impl Truth for A {
    type Value = Payload;

    fn spec_id() -> Id {
        1
    }

    fn spec_wrap(self) -> Payload {
        Box::new(self)
    }

    fn wrap_is_injective(_a: Self, _b: Self) {
    }

    fn id() -> Id {
        1
    }

    fn wrap(self) -> Payload {
        Box::new(self)
    }

    fn unwrap(payload: Payload) -> Self {
        *payload.downcast::<A>().expect("Invalid type stored for truth")
    }
}

#[derive(Debug, PartialEq)]
struct B {
    value: i32,
}

impl Truth for B {
    type Value = Payload;

    fn spec_id() -> Id {
        2
    }

    fn spec_wrap(self) -> Payload {
        Box::new(self)
    }

    fn wrap_is_injective(_a: Self, _b: Self) {
    }

    fn id() -> Id {
        2
    }

    fn wrap(self) -> Payload {
        Box::new(self)
    }

    fn unwrap(payload: Payload) -> Self {
        *payload.downcast::<B>().expect("Invalid type stored for truth")
    }
}

#[derive(Debug, PartialEq)]
struct C {
    value: i32,
}

impl Truth for C {
    type Value = Payload;

    fn spec_id() -> Id {
        3
    }

    fn spec_wrap(self) -> Payload {
        Box::new(self)
    }

    fn wrap_is_injective(_a: Self, _b: Self) {
    }

    fn id() -> Id {
        3
    }

    fn wrap(self) -> Payload {
        Box::new(self)
    }

    fn unwrap(payload: Payload) -> Self {
        *payload.downcast::<C>().expect("Invalid type stored for truth")
    }
}

#[derive(Debug, PartialEq)]
struct D {
    value: i32,
}

impl Truth for D {
    type Value = Payload;

    fn spec_id() -> Id {
        4
    }

    fn spec_wrap(self) -> Payload {
        Box::new(self)
    }

    fn wrap_is_injective(_a: Self, _b: Self) {
    }

    fn id() -> Id {
        4
    }

    fn wrap(self) -> Payload {
        Box::new(self)
    }

    fn unwrap(payload: Payload) -> Self {
        *payload.downcast::<D>().expect("Invalid type stored for truth")
    }
}

#[derive(Debug, PartialEq)]
struct E {
    value: i32,
}

impl Truth for E {
    type Value = Payload;

    fn spec_id() -> Id {
        5
    }

    fn spec_wrap(self) -> Payload {
        Box::new(self)
    }

    fn wrap_is_injective(_a: Self, _b: Self) {
    }

    fn id() -> Id {
        5
    }

    fn wrap(self) -> Payload {
        Box::new(self)
    }

    fn unwrap(payload: Payload) -> Self {
        *payload.downcast::<E>().expect("Invalid type stored for truth")
    }
}

#[derive(Debug, PartialEq)]
struct F {
    value: i32,
}

impl Truth for F {
    type Value = Payload;

    fn spec_id() -> Id {
        6
    }

    fn spec_wrap(self) -> Payload {
        Box::new(self)
    }

    fn wrap_is_injective(_a: Self, _b: Self) {
    }

    fn id() -> Id {
        6
    }

    fn wrap(self) -> Payload {
        Box::new(self)
    }

    fn unwrap(payload: Payload) -> Self {
        *payload.downcast::<F>().expect("Invalid type stored for truth")
    }
}

#[derive(Debug, PartialEq)]
struct G {
    value: i32,
}

impl Truth for G {
    type Value = Payload;

    fn spec_id() -> Id {
        7
    }

    fn spec_wrap(self) -> Payload {
        Box::new(self)
    }

    fn wrap_is_injective(_a: Self, _b: Self) {
    }

    fn id() -> Id {
        7
    }

    fn wrap(self) -> Payload {
        Box::new(self)
    }

    fn unwrap(payload: Payload) -> Self {
        *payload.downcast::<G>().expect("Invalid type stored for truth")
    }
}

#[derive(Debug, PartialEq)]
struct H {
    value: i32,
}

impl Truth for H {
    type Value = Payload;

    fn spec_id() -> Id {
        8
    }

    fn spec_wrap(self) -> Payload {
        Box::new(self)
    }

    fn wrap_is_injective(_a: Self, _b: Self) {
    }

    fn id() -> Id {
        8
    }

    fn wrap(self) -> Payload {
        Box::new(self)
    }

    fn unwrap(payload: Payload) -> Self {
        *payload.downcast::<H>().expect("Invalid type stored for truth")
    }
}

fn ids(list: &[Id]) -> HashSet<Id> {
    list.iter().copied().collect()
}

fn filled() -> State<Payload> {
    let mut state: State<Payload> = State::new();
    state.insert(A { value: 1 });
    state.insert(B { value: 2 });
    state.insert(C { value: 3 });
    state.insert(D { value: 4 });
    state.insert(E { value: 5 });
    state.insert(F { value: 6 });
    state.insert(G { value: 7 });
    state.insert(H { value: 8 });
    state
}

#[test]
fn a_fact_requires_itself() {
    assert_eq!(<A as TransitionParam<Payload>>::required(), Ok(ids(&[1])));
    assert_eq!(<(A,) as TransitionParam<Payload>>::required(), Ok(ids(&[1])));
}

#[test]
fn an_optional_fact_requires_nothing() {
    assert_eq!(<Option<A> as TransitionParam<Payload>>::required(), Ok(ids(&[])));
    assert_eq!(<(Option<A>, B) as TransitionParam<Payload>>::required(), Ok(ids(&[2])));
}

#[test]
fn unit_requires_nothing() {
    assert_eq!(<() as TransitionParam<Payload>>::required(), Ok(ids(&[])));
}

#[test]
fn a_tuple_requires_all_its_facts() {
    assert_eq!(<(A, B) as TransitionParam<Payload>>::required(), Ok(ids(&[1, 2])));
    assert_eq!(<(A, B, C) as TransitionParam<Payload>>::required(), Ok(ids(&[1, 2, 3])));
    assert_eq!(
        <(A, B, C, D, E, F, G, H) as TransitionParam<Payload>>::required(),
        Ok(ids(&[1, 2, 3, 4, 5, 6, 7, 8]))
    );
}

#[test]
fn the_same_fact_twice_is_a_duplicate_requirement() {
    assert_eq!(
        <(A, A) as TransitionParam<Payload>>::required(),
        Err(TransitionError::DuplicateRequirement)
    );
    assert_eq!(
        <(A, B, C, A) as TransitionParam<Payload>>::required(),
        Err(TransitionError::DuplicateRequirement)
    );
    assert_eq!(
        <(A, (B, A)) as TransitionParam<Payload>>::required(),
        Err(TransitionError::DuplicateRequirement)
    );
}

#[test]
fn an_optional_fact_is_no_duplicate() {
    assert_eq!(<(A, Option<A>) as TransitionParam<Payload>>::required(), Ok(ids(&[1])));
    assert_eq!(
        <(Option<A>, Option<A>) as TransitionParam<Payload>>::required(),
        Ok(ids(&[]))
    );
}

#[test]
fn collecting_stops_at_the_first_duplicate() {
    let mut collector = IdCollector::new(TransitionError::DuplicateRequirement);
    assert_eq!(collector.collect(2), Ok(()));
    assert_eq!(
        <(A, B, C) as TransitionParam<Payload>>::collect_required(&mut collector),
        Err(TransitionError::DuplicateRequirement)
    );
    assert_eq!(collector.into_ids(), ids(&[1, 2]));
}

#[test]
fn collector_answers_with_the_error_it_was_made_with() {
    let mut collector = IdCollector::new(TransitionError::DuplicateProduction);
    assert_eq!(collector.collect(9), Ok(()));
    assert_eq!(collector.collect(9), Err(TransitionError::DuplicateProduction));
    assert_eq!(collector.collect(4), Ok(()));
    assert_eq!(collector.into_ids(), ids(&[4, 9]));
}

#[test]
fn take_from_removes_the_fact() {
    let mut state = filled();
    assert_eq!(<A as TransitionParam<Payload>>::take_from(&mut state), A { value: 1 });
    assert!(!state.contains::<A>());
    assert!(state.contains::<B>());
}

#[test]
fn take_from_an_option_gives_none_when_absent() {
    let mut state: State<Payload> = State::new();
    assert_eq!(<Option<A> as TransitionParam<Payload>>::take_from(&mut state), None);
    state.insert(A { value: 3 });
    assert_eq!(
        <Option<A> as TransitionParam<Payload>>::take_from(&mut state),
        Some(A { value: 3 })
    );
    assert!(!state.contains::<A>());
}

#[test]
fn take_from_a_tuple_goes_from_left_to_right() {
    let mut state = filled();
    let taken = <(A, Option<A>, B) as TransitionParam<Payload>>::take_from(&mut state);
    assert_eq!(taken, (A { value: 1 }, None, B { value: 2 }));
    let mut state = filled();
    let taken = <(Option<A>, Option<A>) as TransitionParam<Payload>>::take_from(&mut state);
    assert_eq!(taken, (Some(A { value: 1 }), None));
}

#[test]
fn take_from_eight_facts() {
    let mut state = filled();
    let taken = <(A, B, C, D, E, F, G, H) as TransitionParam<Payload>>::take_from(&mut state);
    assert_eq!(
        taken,
        (
            A { value: 1 },
            B { value: 2 },
            C { value: 3 },
            D { value: 4 },
            E { value: 5 },
            F { value: 6 },
            G { value: 7 },
            H { value: 8 }
        )
    );
    assert!(!state.contains_id(1));
    assert!(!state.contains_id(8));
}

#[test]
fn take_from_unit_leaves_the_state() {
    let mut state = filled();
    let () = <() as TransitionParam<Payload>>::take_from(&mut state);
    assert!(state.contains_all(&ids(&[1, 2, 3, 4, 5, 6, 7, 8])));
}

#[test]
fn a_fact_produces_itself() {
    assert_eq!(<A as TransitionResult<Payload>>::produces(), Ok(ids(&[1])));
    assert_eq!(<(A, B) as TransitionResult<Payload>>::produces(), Ok(ids(&[1, 2])));
    assert_eq!(
        <(A, B, C, D, E, F, G, H) as TransitionResult<Payload>>::produces(),
        Ok(ids(&[1, 2, 3, 4, 5, 6, 7, 8]))
    );
}

#[test]
fn unit_and_option_produce_nothing() {
    assert_eq!(<() as TransitionResult<Payload>>::produces(), Ok(ids(&[])));
    assert_eq!(<Option<A> as TransitionResult<Payload>>::produces(), Ok(ids(&[])));
    assert_eq!(<Option<(A, A)> as TransitionResult<Payload>>::produces(), Ok(ids(&[])));
    assert_eq!(<(Option<A>, A) as TransitionResult<Payload>>::produces(), Ok(ids(&[1])));
}

#[test]
fn the_same_fact_twice_is_a_duplicate_production() {
    assert_eq!(
        <(A, A) as TransitionResult<Payload>>::produces(),
        Err(TransitionError::DuplicateProduction)
    );
    assert_eq!(
        <(B, (C, B)) as TransitionResult<Payload>>::produces(),
        Err(TransitionError::DuplicateProduction)
    );
}

#[test]
fn insert_into_puts_the_fact_into_the_state() {
    let mut state: State<Payload> = State::new();
    TransitionResult::<Payload>::insert_into(A { value: 4 }, &mut state);
    assert_eq!(state.take::<A>(), A { value: 4 });
}

#[test]
fn insert_into_of_an_option_inserts_what_is_there() {
    let mut state: State<Payload> = State::new();
    TransitionResult::<Payload>::insert_into(None::<A>, &mut state);
    assert!(!state.contains::<A>());
    TransitionResult::<Payload>::insert_into(Some(A { value: 4 }), &mut state);
    assert_eq!(state.take::<A>(), A { value: 4 });
}

#[test]
fn insert_into_of_a_tuple_goes_from_left_to_right() {
    let mut state: State<Payload> = State::new();
    TransitionResult::<Payload>::insert_into(
        (Some(A { value: 1 }), B { value: 2 }, A { value: 3 }),
        &mut state,
    );
    assert_eq!(state.take::<A>(), A { value: 3 });
    assert_eq!(state.take::<B>(), B { value: 2 });
}

#[test]
fn insert_into_of_unit_leaves_the_state() {
    let mut state: State<Payload> = State::new();
    TransitionResult::<Payload>::insert_into((), &mut state);
    assert!(!state.contains_id(1));
}

#[test]
fn insert_into_of_eight_facts() {
    let mut state: State<Payload> = State::new();
    TransitionResult::<Payload>::insert_into(
        (
            A { value: 1 },
            B { value: 2 },
            C { value: 3 },
            D { value: 4 },
            E { value: 5 },
            F { value: 6 },
            G { value: 7 },
            H { value: 8 },
        ),
        &mut state,
    );
    assert!(state.contains_all(&ids(&[1, 2, 3, 4, 5, 6, 7, 8])));
    assert_eq!(state.take::<H>(), H { value: 8 });
}
