use pssm::parts::{Deconstructable, Requestable};
use pssm::truth::{Id, Truth};
use std::any::Any;

type Payload = Box<dyn Any>;

#[derive(Debug, PartialEq)]
struct A {
    value: i32,
}

impl Truth for A {
    type Value = Payload;

    fn spec_id() -> Id {
        1
    }

    fn spec_wrap(self) -> Payload {
        Box::new(self)
    }

    fn wrap_is_injective(_a: Self, _b: Self) {
    }

    fn id() -> Id {
        1
    }

    fn wrap(self) -> Payload {
        Box::new(self)
    }

    fn unwrap(payload: Payload) -> Self {
        *payload.downcast::<A>().expect("Invalid type stored for truth")
    }
}

#[derive(Debug, PartialEq)]
struct B {
    value: i32,
}

impl Truth for B {
    type Value = Payload;

    fn spec_id() -> Id {
        2
    }

    fn spec_wrap(self) -> Payload {
        Box::new(self)
    }

    fn wrap_is_injective(_a: Self, _b: Self) {
    }

    fn id() -> Id {
        2
    }

    fn wrap(self) -> Payload {
        Box::new(self)
    }

    fn unwrap(payload: Payload) -> Self {
        *payload.downcast::<B>().expect("Invalid type stored for truth")
    }
}

#[derive(Debug, PartialEq)]
struct C {
    value: i32,
}

impl Truth for C {
    type Value = Payload;

    fn spec_id() -> Id {
        3
    }

    fn spec_wrap(self) -> Payload {
        Box::new(self)
    }

    fn wrap_is_injective(_a: Self, _b: Self) {
    }

    fn id() -> Id {
        3
    }

    fn wrap(self) -> Payload {
        Box::new(self)
    }

    fn unwrap(payload: Payload) -> Self {
        *payload.downcast::<C>().expect("Invalid type stored for truth")
    }
}

#[test]
fn a_fact_is_one_part() {
    let parts = Deconstructable::<Payload>::deconstruct(A { value: 4 });
    assert_eq!(parts.len(), 1);
    assert_eq!(parts[0].0, 1);
    assert_eq!(parts[0].1.downcast_ref::<A>(), Some(&A { value: 4 }));
}

#[test]
fn unit_has_no_part() {
    let parts = Deconstructable::<Payload>::deconstruct(());
    assert!(parts.is_empty());
}

#[test]
fn a_tuple_is_taken_apart_from_left_to_right() {
    let parts = Deconstructable::<Payload>::deconstruct((B { value: 2 }, A { value: 1 }));
    let ids: Vec<Id> = parts.iter().map(|part| part.0).collect();
    assert_eq!(ids, vec![2, 1]);
    let parts = Deconstructable::<Payload>::deconstruct((
        A { value: 1 },
        (B { value: 2 }, A { value: 3 }),
        C { value: 4 },
    ));
    let ids: Vec<Id> = parts.iter().map(|part| part.0).collect();
    assert_eq!(ids, vec![1, 2, 1, 3]);
    assert_eq!(parts[2].1.downcast_ref::<A>(), Some(&A { value: 3 }));
}

#[test]
fn collect_deconstructed_appends() {
    let mut collector: Vec<(Id, Payload)> = Vec::new();
    Deconstructable::<Payload>::collect_deconstructed(C { value: 9 }, &mut collector);
    Deconstructable::<Payload>::collect_deconstructed((), &mut collector);
    Deconstructable::<Payload>::collect_deconstructed(
        (A { value: 1 }, B { value: 2 }),
        &mut collector,
    );
    let ids: Vec<Id> = collector.iter().map(|part| part.0).collect();
    assert_eq!(ids, vec![3, 1, 2]);
}

#[test]
fn ids_are_listed_from_left_to_right() {
    assert_eq!(<A as Requestable<Payload>>::ids(), vec![1]);
    assert_eq!(<() as Requestable<Payload>>::ids(), Vec::<Id>::new());
    assert_eq!(<(B, A) as Requestable<Payload>>::ids(), vec![2, 1]);
    assert_eq!(<(C, A, A) as Requestable<Payload>>::ids(), vec![3, 1, 1]);
    let mut collector = vec![7];
    <(A, B) as Requestable<Payload>>::collect_ids(&mut collector);
    assert_eq!(collector, vec![7, 1, 2]);
}

#[test]
fn a_value_is_built_from_the_next_payloads() {
    let payloads: Vec<Payload> = vec![
        Box::new(A { value: 1 }),
        Box::new(B { value: 2 }),
        Box::new(C { value: 3 }),
        Box::new(A { value: 4 }),
    ];
    let mut iter = payloads.into_iter();
    let () = <() as Requestable<Payload>>::take_from(&mut iter);
    let first = <A as Requestable<Payload>>::take_from(&mut iter);
    assert_eq!(first, A { value: 1 });
    let rest = <(B, C, A) as Requestable<Payload>>::take_from(&mut iter);
    assert_eq!(rest, (B { value: 2 }, C { value: 3 }, A { value: 4 }));
    assert!(iter.next().is_none());
}

#[test]
fn what_is_taken_apart_can_be_built_again() {
    let parts = Deconstructable::<Payload>::deconstruct((A { value: 1 }, B { value: 2 }));
    let mut iter = parts.into_iter().map(|part| part.1);
    let again = <(A, B) as Requestable<Payload>>::take_from(&mut iter);
    assert_eq!(again, (A { value: 1 }, B { value: 2 }));
}
