use pssm::error::TransitionError;
use pssm::statemachine::StateMachine;
use pssm::transition::{IntoTransition, IntoTransitionMut, IntoTransitionOnce, Transition, TransitionMut, TransitionOnce};
use pssm::truth::{Id, Truth};
use std::any::Any;

type Payload = Box<dyn Any>;

#[derive(Debug, PartialEq)]
struct A {
    value: i32,
}

impl Truth for A {
    type Value = Payload;

    fn spec_id() -> Id {
        1
    }

    fn spec_wrap(self) -> Payload {
        Box::new(self)
    }

    fn wrap_is_injective(_a: Self, _b: Self) {
    }

    fn id() -> Id {
        1
    }

    fn wrap(self) -> Payload {
        Box::new(self)
    }

    fn unwrap(payload: Payload) -> Self {
        *payload.downcast::<A>().expect("Invalid type stored for truth")
    }
}

#[derive(Debug, PartialEq)]
struct B {
    value: i32,
}

impl Truth for B {
    type Value = Payload;

    fn spec_id() -> Id {
        2
    }

    fn spec_wrap(self) -> Payload {
        Box::new(self)
    }

    fn wrap_is_injective(_a: Self, _b: Self) {
    }

    fn id() -> Id {
        2
    }

    fn wrap(self) -> Payload {
        Box::new(self)
    }

    fn unwrap(payload: Payload) -> Self {
        *payload.downcast::<B>().expect("Invalid type stored for truth")
    }
}

fn insert_a() -> A {
    A { value: 5 }
}

fn insert_b() -> B {
    B { value: 10 }
}

fn add_one(a: A) -> A {
    A { value: a.value + 1 }
}

fn combine(a: A, b: B) -> A {
    A { value: a.value + b.value }
}

fn consume_a(_a: A) {
}

fn twice_a(_a: A, _again: A) {
}

#[test]
fn a_new_machine_has_no_fact() {
    let machine: StateMachine<Payload> = StateMachine::new();
    assert!(!machine.has_truth::<A>());
    assert!(!machine.has_truth::<B>());
}

#[test]
fn set_has_and_unset() {
    let mut machine: StateMachine<Payload> = StateMachine::new();
    machine.set_truth(A { value: 5 });
    assert!(machine.has_truth::<A>());
    assert!(!machine.has_truth::<B>());
    assert_eq!(machine.unset_truth::<A>(), Some(A { value: 5 }));
    assert!(!machine.has_truth::<A>());
    assert_eq!(machine.unset_truth::<A>(), None);
}

#[test]
fn can_run_follows_the_required_fact() {
    let mut machine: StateMachine<Payload> = StateMachine::new();
    assert_eq!(machine.can_run(&consume_a), Ok(false));
    machine.set_truth(B { value: 1 });
    assert_eq!(machine.can_run(&consume_a), Ok(false));
    machine.set_truth(A { value: 1 });
    assert_eq!(machine.can_run(&consume_a), Ok(true));
    assert_eq!(machine.can_run(&insert_a), Ok(true));
}

#[test]
fn can_run_reports_a_duplicate_requirement() {
    let machine: StateMachine<Payload> = StateMachine::new();
    assert_eq!(machine.can_run(&twice_a), Err(TransitionError::DuplicateRequirement));
}

#[test]
fn can_run_transition_follows_the_required_facts() {
    let mut machine: StateMachine<Payload> = StateMachine::new();
    let pure: Transition<Payload> = combine.into_transition().unwrap();
    let stateful: TransitionMut<Payload> = combine.into_transition_mut().unwrap();
    let once: TransitionOnce<Payload> = combine.into_transition_once().unwrap();
    assert!(!machine.can_run_transition(&pure));
    assert!(!machine.can_run_transition_mut(&stateful));
    assert!(!machine.can_run_transition_once(&once));
    machine.set_truth(A { value: 1 });
    assert!(!machine.can_run_transition(&pure));
    assert!(!machine.can_run_transition_mut(&stateful));
    assert!(!machine.can_run_transition_once(&once));
    machine.set_truth(B { value: 1 });
    assert!(machine.can_run_transition(&pure));
    assert!(machine.can_run_transition_mut(&stateful));
    assert!(machine.can_run_transition_once(&once));
}

#[test]
fn run_with_a_missing_fact_leaves_the_state() {
    let mut machine: StateMachine<Payload> = StateMachine::new();
    machine.set_truth(B { value: 3 });
    assert_eq!(machine.run(add_one), Err(TransitionError::MissingRequirement));
    assert_eq!(machine.run(combine), Err(TransitionError::MissingRequirement));
    assert!(!machine.has_truth::<A>());
    assert_eq!(machine.unset_truth::<B>(), Some(B { value: 3 }));
}

#[test]
fn run_reports_what_the_build_reports() {
    let mut machine: StateMachine<Payload> = StateMachine::new();
    machine.set_truth(A { value: 3 });
    assert_eq!(machine.run(twice_a), Err(TransitionError::DuplicateRequirement));
    assert_eq!(machine.unset_truth::<A>(), Some(A { value: 3 }));
}

#[test]
fn insert_then_add_one_gives_six() {
    let mut machine: StateMachine<Payload> = StateMachine::new();
    assert_eq!(machine.run(insert_a), Ok(()));
    assert_eq!(machine.run(add_one), Ok(()));
    assert_eq!(machine.unset_truth::<A>(), Some(A { value: 6 }));
}

#[test]
fn two_facts_are_combined() {
    let mut machine: StateMachine<Payload> = StateMachine::new();
    machine.run(insert_a).unwrap();
    machine.run(insert_b).unwrap();
    machine.run(combine).unwrap();
    assert_eq!(machine.unset_truth::<A>(), Some(A { value: 15 }));
    assert!(!machine.has_truth::<B>());
}

#[test]
fn run_takes_a_built_transition_too() {
    let mut machine: StateMachine<Payload> = StateMachine::new();
    machine.set_truth(A { value: 5 });
    let pure: Transition<Payload> = add_one.into_transition().unwrap();
    assert_eq!(machine.run(pure), Ok(()));
    assert_eq!(machine.unset_truth::<A>(), Some(A { value: 6 }));
}

#[test]
fn run_unchecked_runs_a_transition_once() {
    let mut machine: StateMachine<Payload> = StateMachine::new();
    let owned = A { value: 8 };
    let give = move || owned;
    let once: TransitionOnce<Payload> = give.into_transition_once().unwrap();
    machine.run_unchecked(once);
    assert_eq!(machine.unset_truth::<A>(), Some(A { value: 8 }));
}

#[test]
fn run_ref_unchecked_runs_a_transition_again() {
    let mut machine: StateMachine<Payload> = StateMachine::new();
    machine.set_truth(A { value: 0 });
    let pure: Transition<Payload> = add_one.into_transition().unwrap();
    machine.run_ref_unchecked(&pure);
    machine.run_ref_unchecked(&pure);
    assert_eq!(machine.unset_truth::<A>(), Some(A { value: 2 }));
}

#[test]
fn run_ref_mut_unchecked_lets_the_function_keep_its_own() {
    let mut machine: StateMachine<Payload> = StateMachine::new();
    let mut seen = Vec::new();
    {
        let collect = |a: A| {
            seen.push(a.value);
        };
        let mut stateful: TransitionMut<Payload> = collect.into_transition_mut().unwrap();
        machine.set_truth(A { value: 5 });
        machine.run_ref_mut_unchecked(&mut stateful);
        machine.set_truth(A { value: 6 });
        machine.run_ref_mut_unchecked(&mut stateful);
    }
    assert_eq!(seen, vec![5, 6]);
    assert!(!machine.has_truth::<A>());
}
