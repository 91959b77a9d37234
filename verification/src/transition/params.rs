use crate::error::TransitionError;
use crate::state::State;
use crate::transition::ids::{
    collects, lemma_collect_all, lemma_collect_concat, lemma_collect_none, IdCollector,
};
use crate::truth::{held, holds, Id, Truth};
use std::collections::HashSet;
use vstd::prelude::*;

verus! {

/// A parameter of a transition: something that can be taken out of a state.
///
/// Implemented for every fact type, for `Option` of a fact type, for `()` and
/// for tuples of up to eight parameters.
pub trait TransitionParam<V>: Sized {
    /// The identifiers of the facts that must be present, from left to right.
    /// An optional fact is not among them.
    spec fn required_ids() -> Seq<Id>;

    /// Whether the parameter can be taken out of `facts`: every fact that
    /// must be present is held, and every optional fact that is present has
    /// the payload of its type.
    spec fn can_take(facts: Map<Id, V>) -> bool;

    /// The value that taking the parameter out of `facts` gives.
    spec fn taken(facts: Map<Id, V>) -> Self;

    /// What is left of `facts` once the parameter was taken out.
    spec fn remaining(facts: Map<Id, V>) -> Map<Id, V>;

    /// A parameter that can be taken finds every required fact in `facts`.
    proof fn lemma_required_are_present(facts: Map<Id, V>)
        requires
            Self::can_take(facts),
        ensures
            forall|i: int|
                0 <= i < Self::required_ids().len() ==> facts.contains_key(
                    #[trigger] Self::required_ids()[i],
                ),
    ;

    /// Taking the parameter out adds nothing and changes no payload.
    proof fn lemma_remaining_is_part(facts: Map<Id, V>)
        ensures
            forall|id: Id| #[trigger]
                Self::remaining(facts).contains_key(id) ==> facts.contains_key(id)
                    && Self::remaining(facts)[id] == facts[id],
    ;

    /// Takes the parameter out of the state, fact by fact from left to right.
    fn take_from(state: &mut State<V>) -> (value: Self)
        requires
            Self::can_take(old(state)@),
        ensures
            value == Self::taken(old(state)@),
            final(state)@ == Self::remaining(old(state)@),
    ;

    /// Hands the identifiers of the required facts to the collector, from
    /// left to right, and stops at the first one that the collector refuses.
    fn collect_required(collector: &mut IdCollector) -> (outcome: Result<(), TransitionError>)
        ensures
            collects(*old(collector), Self::required_ids(), *final(collector), outcome),
    ;

    /// The set of the required facts, or `DuplicateRequirement` where one
    /// fact is required more than once.
    fn required() -> (ids: Result<HashSet<Id>, TransitionError>)
        ensures
            ids is Ok <==> Self::required_ids().no_duplicates(),
            ids matches Ok(set) ==> set@ == Self::required_ids().to_set(),
            ids matches Err(e) ==> e == TransitionError::DuplicateRequirement,
    {
        let mut collector = IdCollector::new(TransitionError::DuplicateRequirement);
        proof {
            lemma_collect_all(collector@, Self::required_ids());
            assert(Set::<Id>::empty().union(Self::required_ids().to_set())
                =~= Self::required_ids().to_set());
        }
        match Self::collect_required(&mut collector) {
            Ok(()) => Ok(collector.into_ids()),
            Err(e) => Err(e),
        }
    }
}

/// A parameter that can be taken finds the set of its required facts in the
/// state: where a required fact is missing, nothing can be taken.
pub proof fn lemma_taking_needs_the_required<V, In: TransitionParam<V>>(facts: Map<Id, V>)
    requires
        In::can_take(facts),
    ensures
        In::required_ids().to_set().subset_of(facts.dom()),
{
    In::lemma_required_are_present(facts);
    assert forall|id: Id| In::required_ids().to_set().contains(id) implies facts.dom().contains(
        id,
    ) by {
        let i = choose|i: int| 0 <= i < In::required_ids().len() && In::required_ids()[i] == id;
        assert(facts.contains_key(In::required_ids()[i]));
    }
}

/// An optional fact can be taken out of an empty state, and what is taken is
/// `None`.
pub proof fn lemma_nothing_optional_in_empty_state<T: Truth>()
    ensures
        <Option<T> as TransitionParam<T::Value>>::can_take(Map::empty()),
        <Option<T> as TransitionParam<T::Value>>::taken(Map::empty()) is None,
        <Option<T> as TransitionParam<T::Value>>::remaining(Map::empty()) == Map::<
            Id,
            T::Value,
        >::empty(),
{
    assert(Map::<Id, T::Value>::empty().remove(T::spec_id()) =~= Map::<Id, T::Value>::empty());
}

impl<T: Truth> TransitionParam<T::Value> for T {
    open spec fn required_ids() -> Seq<Id> {
        seq![T::spec_id()]
    }

    open spec fn can_take(facts: Map<Id, T::Value>) -> bool {
        holds::<T>(facts)
    }

    open spec fn taken(facts: Map<Id, T::Value>) -> Self {
        held::<T>(facts)
    }

    open spec fn remaining(facts: Map<Id, T::Value>) -> Map<Id, T::Value> {
        facts.remove(T::spec_id())
    }

    proof fn lemma_required_are_present(facts: Map<Id, T::Value>) {
    }

    proof fn lemma_remaining_is_part(facts: Map<Id, T::Value>) {
    }

    fn take_from(state: &mut State<T::Value>) -> (value: Self) {
        state.take::<T>()
    }

    fn collect_required(collector: &mut IdCollector) -> (outcome: Result<(), TransitionError>) {
        collector.collect(T::id())
    }
}

impl<T: Truth> TransitionParam<T::Value> for Option<T> {
    open spec fn required_ids() -> Seq<Id> {
        Seq::empty()
    }

    open spec fn can_take(facts: Map<Id, T::Value>) -> bool {
        facts.contains_key(T::spec_id()) ==> holds::<T>(facts)
    }

    open spec fn taken(facts: Map<Id, T::Value>) -> Self {
        if facts.contains_key(T::spec_id()) {
            Some(held::<T>(facts))
        } else {
            None
        }
    }

    open spec fn remaining(facts: Map<Id, T::Value>) -> Map<Id, T::Value> {
        facts.remove(T::spec_id())
    }

    proof fn lemma_required_are_present(facts: Map<Id, T::Value>) {
    }

    proof fn lemma_remaining_is_part(facts: Map<Id, T::Value>) {
    }

    fn take_from(state: &mut State<T::Value>) -> (value: Self) {
        state.take_optional::<T>()
    }

    fn collect_required(collector: &mut IdCollector) -> (outcome: Result<(), TransitionError>) {
        proof {
            lemma_collect_none(collector@);
        }
        Ok(())
    }
}

impl<V> TransitionParam<V> for () {
    open spec fn required_ids() -> Seq<Id> {
        Seq::empty()
    }

    open spec fn can_take(facts: Map<Id, V>) -> bool {
        true
    }

    open spec fn taken(facts: Map<Id, V>) -> Self {
        ()
    }

    open spec fn remaining(facts: Map<Id, V>) -> Map<Id, V> {
        facts
    }

    proof fn lemma_required_are_present(facts: Map<Id, V>) {
    }

    proof fn lemma_remaining_is_part(facts: Map<Id, V>) {
    }

    fn take_from(state: &mut State<V>) -> (value: Self) {
        ()
    }

    fn collect_required(collector: &mut IdCollector) -> (outcome: Result<(), TransitionError>) {
        proof {
            lemma_collect_none(collector@);
        }
        Ok(())
    }
}

impl<V, A> TransitionParam<V> for (A,) where
    A: TransitionParam<V>,
{
    open spec fn required_ids() -> Seq<Id> {
        A::required_ids()
    }

    open spec fn can_take(facts: Map<Id, V>) -> bool {
        &&& A::can_take(facts)
    }

    open spec fn taken(facts: Map<Id, V>) -> Self {
        (A::taken(facts),)
    }

    open spec fn remaining(facts: Map<Id, V>) -> Map<Id, V> {
        A::remaining(facts)
    }

    proof fn lemma_required_are_present(facts: Map<Id, V>) {
        A::lemma_required_are_present(facts);
    }

    proof fn lemma_remaining_is_part(facts: Map<Id, V>) {
        A::lemma_remaining_is_part(facts);
    }

    fn take_from(state: &mut State<V>) -> (value: Self) {
        let a = A::take_from(state);
        (a,)
    }

    fn collect_required(collector: &mut IdCollector) -> (outcome: Result<(), TransitionError>) {
        A::collect_required(collector)
    }
}

impl<V, A, B> TransitionParam<V> for (A, B) where
    A: TransitionParam<V>,
    B: TransitionParam<V>,
{
    open spec fn required_ids() -> Seq<Id> {
        A::required_ids() + B::required_ids()
    }

    open spec fn can_take(facts: Map<Id, V>) -> bool {
        let after_a = A::remaining(facts);
        &&& A::can_take(facts)
        &&& B::can_take(after_a)
    }

    open spec fn taken(facts: Map<Id, V>) -> Self {
        let after_a = A::remaining(facts);
        (
            A::taken(facts),
            B::taken(after_a),
        )
    }

    open spec fn remaining(facts: Map<Id, V>) -> Map<Id, V> {
        let after_a = A::remaining(facts);
        B::remaining(after_a)
    }

    proof fn lemma_required_are_present(facts: Map<Id, V>) {
        let after_a = A::remaining(facts);
        A::lemma_required_are_present(facts);
        A::lemma_remaining_is_part(facts);
        B::lemma_required_are_present(after_a);
    }

    proof fn lemma_remaining_is_part(facts: Map<Id, V>) {
        let after_a = A::remaining(facts);
        A::lemma_remaining_is_part(facts);
        B::lemma_remaining_is_part(after_a);
    }

    fn take_from(state: &mut State<V>) -> (value: Self) {
        let a = A::take_from(state);
        let b = B::take_from(state);
        (a, b)
    }

    fn collect_required(collector: &mut IdCollector) -> (outcome: Result<(), TransitionError>) {
        proof {
            lemma_collect_concat(collector@, A::required_ids(), B::required_ids());
        }
        A::collect_required(collector)?;
        B::collect_required(collector)
    }
}

impl<V, A, B, C> TransitionParam<V> for (A, B, C) where
    A: TransitionParam<V>,
    B: TransitionParam<V>,
    C: TransitionParam<V>,
{
    open spec fn required_ids() -> Seq<Id> {
        A::required_ids() + B::required_ids() + C::required_ids()
    }

    open spec fn can_take(facts: Map<Id, V>) -> bool {
        let after_a = A::remaining(facts);
        let after_b = B::remaining(after_a);
        &&& A::can_take(facts)
        &&& B::can_take(after_a)
        &&& C::can_take(after_b)
    }

    open spec fn taken(facts: Map<Id, V>) -> Self {
        let after_a = A::remaining(facts);
        let after_b = B::remaining(after_a);
        (
            A::taken(facts),
            B::taken(after_a),
            C::taken(after_b),
        )
    }

    open spec fn remaining(facts: Map<Id, V>) -> Map<Id, V> {
        let after_a = A::remaining(facts);
        let after_b = B::remaining(after_a);
        C::remaining(after_b)
    }

    proof fn lemma_required_are_present(facts: Map<Id, V>) {
        let after_a = A::remaining(facts);
        let after_b = B::remaining(after_a);
        A::lemma_required_are_present(facts);
        A::lemma_remaining_is_part(facts);
        B::lemma_required_are_present(after_a);
        B::lemma_remaining_is_part(after_a);
        assert(forall|i: int|
            0 <= i < B::required_ids().len() ==> facts.contains_key(
                #[trigger] B::required_ids()[i],
            ));
        let up_to_b = A::required_ids() + B::required_ids();
        assert(forall|i: int|
            0 <= i < up_to_b.len() ==> facts.contains_key(#[trigger] up_to_b[i]));
        C::lemma_required_are_present(after_b);
        assert(forall|i: int|
            0 <= i < C::required_ids().len() ==> facts.contains_key(
                #[trigger] C::required_ids()[i],
            ));
        let up_to_c = A::required_ids() + B::required_ids() + C::required_ids();
        assert(forall|i: int|
            0 <= i < up_to_c.len() ==> facts.contains_key(#[trigger] up_to_c[i]));
    }

    proof fn lemma_remaining_is_part(facts: Map<Id, V>) {
        let after_a = A::remaining(facts);
        let after_b = B::remaining(after_a);
        A::lemma_remaining_is_part(facts);
        B::lemma_remaining_is_part(after_a);
        C::lemma_remaining_is_part(after_b);
    }

    fn take_from(state: &mut State<V>) -> (value: Self) {
        let a = A::take_from(state);
        let b = B::take_from(state);
        let c = C::take_from(state);
        (a, b, c)
    }

    fn collect_required(collector: &mut IdCollector) -> (outcome: Result<(), TransitionError>) {
        proof {
            lemma_collect_concat(collector@, A::required_ids(), B::required_ids());
            lemma_collect_concat(collector@, A::required_ids() + B::required_ids(), C::required_ids());
        }
        A::collect_required(collector)?;
        B::collect_required(collector)?;
        C::collect_required(collector)
    }
}

impl<V, A, B, C, D> TransitionParam<V> for (A, B, C, D) where
    A: TransitionParam<V>,
    B: TransitionParam<V>,
    C: TransitionParam<V>,
    D: TransitionParam<V>,
{
    open spec fn required_ids() -> Seq<Id> {
        A::required_ids() + B::required_ids() + C::required_ids() + D::required_ids()
    }

    open spec fn can_take(facts: Map<Id, V>) -> bool {
        let after_a = A::remaining(facts);
        let after_b = B::remaining(after_a);
        let after_c = C::remaining(after_b);
        &&& A::can_take(facts)
        &&& B::can_take(after_a)
        &&& C::can_take(after_b)
        &&& D::can_take(after_c)
    }

    open spec fn taken(facts: Map<Id, V>) -> Self {
        let after_a = A::remaining(facts);
        let after_b = B::remaining(after_a);
        let after_c = C::remaining(after_b);
        (
            A::taken(facts),
            B::taken(after_a),
            C::taken(after_b),
            D::taken(after_c),
        )
    }

    open spec fn remaining(facts: Map<Id, V>) -> Map<Id, V> {
        let after_a = A::remaining(facts);
        let after_b = B::remaining(after_a);
        let after_c = C::remaining(after_b);
        D::remaining(after_c)
    }

    proof fn lemma_required_are_present(facts: Map<Id, V>) {
        let after_a = A::remaining(facts);
        let after_b = B::remaining(after_a);
        let after_c = C::remaining(after_b);
        A::lemma_required_are_present(facts);
        A::lemma_remaining_is_part(facts);
        B::lemma_required_are_present(after_a);
        B::lemma_remaining_is_part(after_a);
        assert(forall|i: int|
            0 <= i < B::required_ids().len() ==> facts.contains_key(
                #[trigger] B::required_ids()[i],
            ));
        let up_to_b = A::required_ids() + B::required_ids();
        assert(forall|i: int|
            0 <= i < up_to_b.len() ==> facts.contains_key(#[trigger] up_to_b[i]));
        C::lemma_required_are_present(after_b);
        C::lemma_remaining_is_part(after_b);
        assert(forall|i: int|
            0 <= i < C::required_ids().len() ==> facts.contains_key(
                #[trigger] C::required_ids()[i],
            ));
        let up_to_c = A::required_ids() + B::required_ids() + C::required_ids();
        assert(forall|i: int|
            0 <= i < up_to_c.len() ==> facts.contains_key(#[trigger] up_to_c[i]));
        D::lemma_required_are_present(after_c);
        assert(forall|i: int|
            0 <= i < D::required_ids().len() ==> facts.contains_key(
                #[trigger] D::required_ids()[i],
            ));
        let up_to_d = A::required_ids() + B::required_ids() + C::required_ids() + D::required_ids();
        assert(forall|i: int|
            0 <= i < up_to_d.len() ==> facts.contains_key(#[trigger] up_to_d[i]));
    }

    proof fn lemma_remaining_is_part(facts: Map<Id, V>) {
        let after_a = A::remaining(facts);
        let after_b = B::remaining(after_a);
        let after_c = C::remaining(after_b);
        A::lemma_remaining_is_part(facts);
        B::lemma_remaining_is_part(after_a);
        C::lemma_remaining_is_part(after_b);
        D::lemma_remaining_is_part(after_c);
    }

    fn take_from(state: &mut State<V>) -> (value: Self) {
        let a = A::take_from(state);
        let b = B::take_from(state);
        let c = C::take_from(state);
        let d = D::take_from(state);
        (a, b, c, d)
    }

    fn collect_required(collector: &mut IdCollector) -> (outcome: Result<(), TransitionError>) {
        proof {
            lemma_collect_concat(collector@, A::required_ids(), B::required_ids());
            lemma_collect_concat(collector@, A::required_ids() + B::required_ids(), C::required_ids());
            lemma_collect_concat(collector@, A::required_ids() + B::required_ids() + C::required_ids(), D::required_ids());
        }
        A::collect_required(collector)?;
        B::collect_required(collector)?;
        C::collect_required(collector)?;
        D::collect_required(collector)
    }
}

impl<V, A, B, C, D, E> TransitionParam<V> for (A, B, C, D, E) where
    A: TransitionParam<V>,
    B: TransitionParam<V>,
    C: TransitionParam<V>,
    D: TransitionParam<V>,
    E: TransitionParam<V>,
{
    open spec fn required_ids() -> Seq<Id> {
        A::required_ids() + B::required_ids() + C::required_ids() + D::required_ids() + E::required_ids()
    }

    open spec fn can_take(facts: Map<Id, V>) -> bool {
        let after_a = A::remaining(facts);
        let after_b = B::remaining(after_a);
        let after_c = C::remaining(after_b);
        let after_d = D::remaining(after_c);
        &&& A::can_take(facts)
        &&& B::can_take(after_a)
        &&& C::can_take(after_b)
        &&& D::can_take(after_c)
        &&& E::can_take(after_d)
    }

    open spec fn taken(facts: Map<Id, V>) -> Self {
        let after_a = A::remaining(facts);
        let after_b = B::remaining(after_a);
        let after_c = C::remaining(after_b);
        let after_d = D::remaining(after_c);
        (
            A::taken(facts),
            B::taken(after_a),
            C::taken(after_b),
            D::taken(after_c),
            E::taken(after_d),
        )
    }

    open spec fn remaining(facts: Map<Id, V>) -> Map<Id, V> {
        let after_a = A::remaining(facts);
        let after_b = B::remaining(after_a);
        let after_c = C::remaining(after_b);
        let after_d = D::remaining(after_c);
        E::remaining(after_d)
    }

    proof fn lemma_required_are_present(facts: Map<Id, V>) {
        let after_a = A::remaining(facts);
        let after_b = B::remaining(after_a);
        let after_c = C::remaining(after_b);
        let after_d = D::remaining(after_c);
        A::lemma_required_are_present(facts);
        A::lemma_remaining_is_part(facts);
        B::lemma_required_are_present(after_a);
        B::lemma_remaining_is_part(after_a);
        assert(forall|i: int|
            0 <= i < B::required_ids().len() ==> facts.contains_key(
                #[trigger] B::required_ids()[i],
            ));
        let up_to_b = A::required_ids() + B::required_ids();
        assert(forall|i: int|
            0 <= i < up_to_b.len() ==> facts.contains_key(#[trigger] up_to_b[i]));
        C::lemma_required_are_present(after_b);
        C::lemma_remaining_is_part(after_b);
        assert(forall|i: int|
            0 <= i < C::required_ids().len() ==> facts.contains_key(
                #[trigger] C::required_ids()[i],
            ));
        let up_to_c = A::required_ids() + B::required_ids() + C::required_ids();
        assert(forall|i: int|
            0 <= i < up_to_c.len() ==> facts.contains_key(#[trigger] up_to_c[i]));
        D::lemma_required_are_present(after_c);
        D::lemma_remaining_is_part(after_c);
        assert(forall|i: int|
            0 <= i < D::required_ids().len() ==> facts.contains_key(
                #[trigger] D::required_ids()[i],
            ));
        let up_to_d = A::required_ids() + B::required_ids() + C::required_ids() + D::required_ids();
        assert(forall|i: int|
            0 <= i < up_to_d.len() ==> facts.contains_key(#[trigger] up_to_d[i]));
        E::lemma_required_are_present(after_d);
        assert(forall|i: int|
            0 <= i < E::required_ids().len() ==> facts.contains_key(
                #[trigger] E::required_ids()[i],
            ));
        let up_to_e = A::required_ids() + B::required_ids() + C::required_ids() + D::required_ids() + E::required_ids();
        assert(forall|i: int|
            0 <= i < up_to_e.len() ==> facts.contains_key(#[trigger] up_to_e[i]));
    }

    proof fn lemma_remaining_is_part(facts: Map<Id, V>) {
        let after_a = A::remaining(facts);
        let after_b = B::remaining(after_a);
        let after_c = C::remaining(after_b);
        let after_d = D::remaining(after_c);
        A::lemma_remaining_is_part(facts);
        B::lemma_remaining_is_part(after_a);
        C::lemma_remaining_is_part(after_b);
        D::lemma_remaining_is_part(after_c);
        E::lemma_remaining_is_part(after_d);
    }

    fn take_from(state: &mut State<V>) -> (value: Self) {
        let a = A::take_from(state);
        let b = B::take_from(state);
        let c = C::take_from(state);
        let d = D::take_from(state);
        let e = E::take_from(state);
        (a, b, c, d, e)
    }

    fn collect_required(collector: &mut IdCollector) -> (outcome: Result<(), TransitionError>) {
        proof {
            lemma_collect_concat(collector@, A::required_ids(), B::required_ids());
            lemma_collect_concat(collector@, A::required_ids() + B::required_ids(), C::required_ids());
            lemma_collect_concat(collector@, A::required_ids() + B::required_ids() + C::required_ids(), D::required_ids());
            lemma_collect_concat(collector@, A::required_ids() + B::required_ids() + C::required_ids() + D::required_ids(), E::required_ids());
        }
        A::collect_required(collector)?;
        B::collect_required(collector)?;
        C::collect_required(collector)?;
        D::collect_required(collector)?;
        E::collect_required(collector)
    }
}

impl<V, A, B, C, D, E, F> TransitionParam<V> for (A, B, C, D, E, F) where
    A: TransitionParam<V>,
    B: TransitionParam<V>,
    C: TransitionParam<V>,
    D: TransitionParam<V>,
    E: TransitionParam<V>,
    F: TransitionParam<V>,
{
    open spec fn required_ids() -> Seq<Id> {
        A::required_ids() + B::required_ids() + C::required_ids() + D::required_ids() + E::required_ids() + F::required_ids()
    }

    open spec fn can_take(facts: Map<Id, V>) -> bool {
        let after_a = A::remaining(facts);
        let after_b = B::remaining(after_a);
        let after_c = C::remaining(after_b);
        let after_d = D::remaining(after_c);
        let after_e = E::remaining(after_d);
        &&& A::can_take(facts)
        &&& B::can_take(after_a)
        &&& C::can_take(after_b)
        &&& D::can_take(after_c)
        &&& E::can_take(after_d)
        &&& F::can_take(after_e)
    }

    open spec fn taken(facts: Map<Id, V>) -> Self {
        let after_a = A::remaining(facts);
        let after_b = B::remaining(after_a);
        let after_c = C::remaining(after_b);
        let after_d = D::remaining(after_c);
        let after_e = E::remaining(after_d);
        (
            A::taken(facts),
            B::taken(after_a),
            C::taken(after_b),
            D::taken(after_c),
            E::taken(after_d),
            F::taken(after_e),
        )
    }

    open spec fn remaining(facts: Map<Id, V>) -> Map<Id, V> {
        let after_a = A::remaining(facts);
        let after_b = B::remaining(after_a);
        let after_c = C::remaining(after_b);
        let after_d = D::remaining(after_c);
        let after_e = E::remaining(after_d);
        F::remaining(after_e)
    }

    proof fn lemma_required_are_present(facts: Map<Id, V>) {
        let after_a = A::remaining(facts);
        let after_b = B::remaining(after_a);
        let after_c = C::remaining(after_b);
        let after_d = D::remaining(after_c);
        let after_e = E::remaining(after_d);
        A::lemma_required_are_present(facts);
        A::lemma_remaining_is_part(facts);
        B::lemma_required_are_present(after_a);
        B::lemma_remaining_is_part(after_a);
        assert(forall|i: int|
            0 <= i < B::required_ids().len() ==> facts.contains_key(
                #[trigger] B::required_ids()[i],
            ));
        let up_to_b = A::required_ids() + B::required_ids();
        assert(forall|i: int|
            0 <= i < up_to_b.len() ==> facts.contains_key(#[trigger] up_to_b[i]));
        C::lemma_required_are_present(after_b);
        C::lemma_remaining_is_part(after_b);
        assert(forall|i: int|
            0 <= i < C::required_ids().len() ==> facts.contains_key(
                #[trigger] C::required_ids()[i],
            ));
        let up_to_c = A::required_ids() + B::required_ids() + C::required_ids();
        assert(forall|i: int|
            0 <= i < up_to_c.len() ==> facts.contains_key(#[trigger] up_to_c[i]));
        D::lemma_required_are_present(after_c);
        D::lemma_remaining_is_part(after_c);
        assert(forall|i: int|
            0 <= i < D::required_ids().len() ==> facts.contains_key(
                #[trigger] D::required_ids()[i],
            ));
        let up_to_d = A::required_ids() + B::required_ids() + C::required_ids() + D::required_ids();
        assert(forall|i: int|
            0 <= i < up_to_d.len() ==> facts.contains_key(#[trigger] up_to_d[i]));
        E::lemma_required_are_present(after_d);
        E::lemma_remaining_is_part(after_d);
        assert(forall|i: int|
            0 <= i < E::required_ids().len() ==> facts.contains_key(
                #[trigger] E::required_ids()[i],
            ));
        let up_to_e = A::required_ids() + B::required_ids() + C::required_ids() + D::required_ids() + E::required_ids();
        assert(forall|i: int|
            0 <= i < up_to_e.len() ==> facts.contains_key(#[trigger] up_to_e[i]));
        F::lemma_required_are_present(after_e);
        assert(forall|i: int|
            0 <= i < F::required_ids().len() ==> facts.contains_key(
                #[trigger] F::required_ids()[i],
            ));
        let up_to_f = A::required_ids() + B::required_ids() + C::required_ids() + D::required_ids() + E::required_ids() + F::required_ids();
        assert(forall|i: int|
            0 <= i < up_to_f.len() ==> facts.contains_key(#[trigger] up_to_f[i]));
    }

    proof fn lemma_remaining_is_part(facts: Map<Id, V>) {
        let after_a = A::remaining(facts);
        let after_b = B::remaining(after_a);
        let after_c = C::remaining(after_b);
        let after_d = D::remaining(after_c);
        let after_e = E::remaining(after_d);
        A::lemma_remaining_is_part(facts);
        B::lemma_remaining_is_part(after_a);
        C::lemma_remaining_is_part(after_b);
        D::lemma_remaining_is_part(after_c);
        E::lemma_remaining_is_part(after_d);
        F::lemma_remaining_is_part(after_e);
    }

    fn take_from(state: &mut State<V>) -> (value: Self) {
        let a = A::take_from(state);
        let b = B::take_from(state);
        let c = C::take_from(state);
        let d = D::take_from(state);
        let e = E::take_from(state);
        let f = F::take_from(state);
        (a, b, c, d, e, f)
    }

    fn collect_required(collector: &mut IdCollector) -> (outcome: Result<(), TransitionError>) {
        proof {
            lemma_collect_concat(collector@, A::required_ids(), B::required_ids());
            lemma_collect_concat(collector@, A::required_ids() + B::required_ids(), C::required_ids());
            lemma_collect_concat(collector@, A::required_ids() + B::required_ids() + C::required_ids(), D::required_ids());
            lemma_collect_concat(collector@, A::required_ids() + B::required_ids() + C::required_ids() + D::required_ids(), E::required_ids());
            lemma_collect_concat(collector@, A::required_ids() + B::required_ids() + C::required_ids() + D::required_ids() + E::required_ids(), F::required_ids());
        }
        A::collect_required(collector)?;
        B::collect_required(collector)?;
        C::collect_required(collector)?;
        D::collect_required(collector)?;
        E::collect_required(collector)?;
        F::collect_required(collector)
    }
}

impl<V, A, B, C, D, E, F, G> TransitionParam<V> for (A, B, C, D, E, F, G) where
    A: TransitionParam<V>,
    B: TransitionParam<V>,
    C: TransitionParam<V>,
    D: TransitionParam<V>,
    E: TransitionParam<V>,
    F: TransitionParam<V>,
    G: TransitionParam<V>,
{
    open spec fn required_ids() -> Seq<Id> {
        A::required_ids() + B::required_ids() + C::required_ids() + D::required_ids() + E::required_ids() + F::required_ids() + G::required_ids()
    }

    open spec fn can_take(facts: Map<Id, V>) -> bool {
        let after_a = A::remaining(facts);
        let after_b = B::remaining(after_a);
        let after_c = C::remaining(after_b);
        let after_d = D::remaining(after_c);
        let after_e = E::remaining(after_d);
        let after_f = F::remaining(after_e);
        &&& A::can_take(facts)
        &&& B::can_take(after_a)
        &&& C::can_take(after_b)
        &&& D::can_take(after_c)
        &&& E::can_take(after_d)
        &&& F::can_take(after_e)
        &&& G::can_take(after_f)
    }

    open spec fn taken(facts: Map<Id, V>) -> Self {
        let after_a = A::remaining(facts);
        let after_b = B::remaining(after_a);
        let after_c = C::remaining(after_b);
        let after_d = D::remaining(after_c);
        let after_e = E::remaining(after_d);
        let after_f = F::remaining(after_e);
        (
            A::taken(facts),
            B::taken(after_a),
            C::taken(after_b),
            D::taken(after_c),
            E::taken(after_d),
            F::taken(after_e),
            G::taken(after_f),
        )
    }

    open spec fn remaining(facts: Map<Id, V>) -> Map<Id, V> {
        let after_a = A::remaining(facts);
        let after_b = B::remaining(after_a);
        let after_c = C::remaining(after_b);
        let after_d = D::remaining(after_c);
        let after_e = E::remaining(after_d);
        let after_f = F::remaining(after_e);
        G::remaining(after_f)
    }

    proof fn lemma_required_are_present(facts: Map<Id, V>) {
        let after_a = A::remaining(facts);
        let after_b = B::remaining(after_a);
        let after_c = C::remaining(after_b);
        let after_d = D::remaining(after_c);
        let after_e = E::remaining(after_d);
        let after_f = F::remaining(after_e);
        A::lemma_required_are_present(facts);
        A::lemma_remaining_is_part(facts);
        B::lemma_required_are_present(after_a);
        B::lemma_remaining_is_part(after_a);
        assert(forall|i: int|
            0 <= i < B::required_ids().len() ==> facts.contains_key(
                #[trigger] B::required_ids()[i],
            ));
        let up_to_b = A::required_ids() + B::required_ids();
        assert(forall|i: int|
            0 <= i < up_to_b.len() ==> facts.contains_key(#[trigger] up_to_b[i]));
        C::lemma_required_are_present(after_b);
        C::lemma_remaining_is_part(after_b);
        assert(forall|i: int|
            0 <= i < C::required_ids().len() ==> facts.contains_key(
                #[trigger] C::required_ids()[i],
            ));
        let up_to_c = A::required_ids() + B::required_ids() + C::required_ids();
        assert(forall|i: int|
            0 <= i < up_to_c.len() ==> facts.contains_key(#[trigger] up_to_c[i]));
        D::lemma_required_are_present(after_c);
        D::lemma_remaining_is_part(after_c);
        assert(forall|i: int|
            0 <= i < D::required_ids().len() ==> facts.contains_key(
                #[trigger] D::required_ids()[i],
            ));
        let up_to_d = A::required_ids() + B::required_ids() + C::required_ids() + D::required_ids();
        assert(forall|i: int|
            0 <= i < up_to_d.len() ==> facts.contains_key(#[trigger] up_to_d[i]));
        E::lemma_required_are_present(after_d);
        E::lemma_remaining_is_part(after_d);
        assert(forall|i: int|
            0 <= i < E::required_ids().len() ==> facts.contains_key(
                #[trigger] E::required_ids()[i],
            ));
        let up_to_e = A::required_ids() + B::required_ids() + C::required_ids() + D::required_ids() + E::required_ids();
        assert(forall|i: int|
            0 <= i < up_to_e.len() ==> facts.contains_key(#[trigger] up_to_e[i]));
        F::lemma_required_are_present(after_e);
        F::lemma_remaining_is_part(after_e);
        assert(forall|i: int|
            0 <= i < F::required_ids().len() ==> facts.contains_key(
                #[trigger] F::required_ids()[i],
            ));
        let up_to_f = A::required_ids() + B::required_ids() + C::required_ids() + D::required_ids() + E::required_ids() + F::required_ids();
        assert(forall|i: int|
            0 <= i < up_to_f.len() ==> facts.contains_key(#[trigger] up_to_f[i]));
        G::lemma_required_are_present(after_f);
        assert(forall|i: int|
            0 <= i < G::required_ids().len() ==> facts.contains_key(
                #[trigger] G::required_ids()[i],
            ));
        let up_to_g = A::required_ids() + B::required_ids() + C::required_ids() + D::required_ids() + E::required_ids() + F::required_ids() + G::required_ids();
        assert(forall|i: int|
            0 <= i < up_to_g.len() ==> facts.contains_key(#[trigger] up_to_g[i]));
    }

    proof fn lemma_remaining_is_part(facts: Map<Id, V>) {
        let after_a = A::remaining(facts);
        let after_b = B::remaining(after_a);
        let after_c = C::remaining(after_b);
        let after_d = D::remaining(after_c);
        let after_e = E::remaining(after_d);
        let after_f = F::remaining(after_e);
        A::lemma_remaining_is_part(facts);
        B::lemma_remaining_is_part(after_a);
        C::lemma_remaining_is_part(after_b);
        D::lemma_remaining_is_part(after_c);
        E::lemma_remaining_is_part(after_d);
        F::lemma_remaining_is_part(after_e);
        G::lemma_remaining_is_part(after_f);
    }

    fn take_from(state: &mut State<V>) -> (value: Self) {
        let a = A::take_from(state);
        let b = B::take_from(state);
        let c = C::take_from(state);
        let d = D::take_from(state);
        let e = E::take_from(state);
        let f = F::take_from(state);
        let g = G::take_from(state);
        (a, b, c, d, e, f, g)
    }

    fn collect_required(collector: &mut IdCollector) -> (outcome: Result<(), TransitionError>) {
        proof {
            lemma_collect_concat(collector@, A::required_ids(), B::required_ids());
            lemma_collect_concat(collector@, A::required_ids() + B::required_ids(), C::required_ids());
            lemma_collect_concat(collector@, A::required_ids() + B::required_ids() + C::required_ids(), D::required_ids());
            lemma_collect_concat(collector@, A::required_ids() + B::required_ids() + C::required_ids() + D::required_ids(), E::required_ids());
            lemma_collect_concat(collector@, A::required_ids() + B::required_ids() + C::required_ids() + D::required_ids() + E::required_ids(), F::required_ids());
            lemma_collect_concat(collector@, A::required_ids() + B::required_ids() + C::required_ids() + D::required_ids() + E::required_ids() + F::required_ids(), G::required_ids());
        }
        A::collect_required(collector)?;
        B::collect_required(collector)?;
        C::collect_required(collector)?;
        D::collect_required(collector)?;
        E::collect_required(collector)?;
        F::collect_required(collector)?;
        G::collect_required(collector)
    }
}

impl<V, A, B, C, D, E, F, G, H> TransitionParam<V> for (A, B, C, D, E, F, G, H) where
    A: TransitionParam<V>,
    B: TransitionParam<V>,
    C: TransitionParam<V>,
    D: TransitionParam<V>,
    E: TransitionParam<V>,
    F: TransitionParam<V>,
    G: TransitionParam<V>,
    H: TransitionParam<V>,
{
    open spec fn required_ids() -> Seq<Id> {
        A::required_ids() + B::required_ids() + C::required_ids() + D::required_ids() + E::required_ids() + F::required_ids() + G::required_ids() + H::required_ids()
    }

    open spec fn can_take(facts: Map<Id, V>) -> bool {
        let after_a = A::remaining(facts);
        let after_b = B::remaining(after_a);
        let after_c = C::remaining(after_b);
        let after_d = D::remaining(after_c);
        let after_e = E::remaining(after_d);
        let after_f = F::remaining(after_e);
        let after_g = G::remaining(after_f);
        &&& A::can_take(facts)
        &&& B::can_take(after_a)
        &&& C::can_take(after_b)
        &&& D::can_take(after_c)
        &&& E::can_take(after_d)
        &&& F::can_take(after_e)
        &&& G::can_take(after_f)
        &&& H::can_take(after_g)
    }

    open spec fn taken(facts: Map<Id, V>) -> Self {
        let after_a = A::remaining(facts);
        let after_b = B::remaining(after_a);
        let after_c = C::remaining(after_b);
        let after_d = D::remaining(after_c);
        let after_e = E::remaining(after_d);
        let after_f = F::remaining(after_e);
        let after_g = G::remaining(after_f);
        (
            A::taken(facts),
            B::taken(after_a),
            C::taken(after_b),
            D::taken(after_c),
            E::taken(after_d),
            F::taken(after_e),
            G::taken(after_f),
            H::taken(after_g),
        )
    }

    open spec fn remaining(facts: Map<Id, V>) -> Map<Id, V> {
        let after_a = A::remaining(facts);
        let after_b = B::remaining(after_a);
        let after_c = C::remaining(after_b);
        let after_d = D::remaining(after_c);
        let after_e = E::remaining(after_d);
        let after_f = F::remaining(after_e);
        let after_g = G::remaining(after_f);
        H::remaining(after_g)
    }

    proof fn lemma_required_are_present(facts: Map<Id, V>) {
        let after_a = A::remaining(facts);
        let after_b = B::remaining(after_a);
        let after_c = C::remaining(after_b);
        let after_d = D::remaining(after_c);
        let after_e = E::remaining(after_d);
        let after_f = F::remaining(after_e);
        let after_g = G::remaining(after_f);
        A::lemma_required_are_present(facts);
        A::lemma_remaining_is_part(facts);
        B::lemma_required_are_present(after_a);
        B::lemma_remaining_is_part(after_a);
        assert(forall|i: int|
            0 <= i < B::required_ids().len() ==> facts.contains_key(
                #[trigger] B::required_ids()[i],
            ));
        let up_to_b = A::required_ids() + B::required_ids();
        assert(forall|i: int|
            0 <= i < up_to_b.len() ==> facts.contains_key(#[trigger] up_to_b[i]));
        C::lemma_required_are_present(after_b);
        C::lemma_remaining_is_part(after_b);
        assert(forall|i: int|
            0 <= i < C::required_ids().len() ==> facts.contains_key(
                #[trigger] C::required_ids()[i],
            ));
        let up_to_c = A::required_ids() + B::required_ids() + C::required_ids();
        assert(forall|i: int|
            0 <= i < up_to_c.len() ==> facts.contains_key(#[trigger] up_to_c[i]));
        D::lemma_required_are_present(after_c);
        D::lemma_remaining_is_part(after_c);
        assert(forall|i: int|
            0 <= i < D::required_ids().len() ==> facts.contains_key(
                #[trigger] D::required_ids()[i],
            ));
        let up_to_d = A::required_ids() + B::required_ids() + C::required_ids() + D::required_ids();
        assert(forall|i: int|
            0 <= i < up_to_d.len() ==> facts.contains_key(#[trigger] up_to_d[i]));
        E::lemma_required_are_present(after_d);
        E::lemma_remaining_is_part(after_d);
        assert(forall|i: int|
            0 <= i < E::required_ids().len() ==> facts.contains_key(
                #[trigger] E::required_ids()[i],
            ));
        let up_to_e = A::required_ids() + B::required_ids() + C::required_ids() + D::required_ids() + E::required_ids();
        assert(forall|i: int|
            0 <= i < up_to_e.len() ==> facts.contains_key(#[trigger] up_to_e[i]));
        F::lemma_required_are_present(after_e);
        F::lemma_remaining_is_part(after_e);
        assert(forall|i: int|
            0 <= i < F::required_ids().len() ==> facts.contains_key(
                #[trigger] F::required_ids()[i],
            ));
        let up_to_f = A::required_ids() + B::required_ids() + C::required_ids() + D::required_ids() + E::required_ids() + F::required_ids();
        assert(forall|i: int|
            0 <= i < up_to_f.len() ==> facts.contains_key(#[trigger] up_to_f[i]));
        G::lemma_required_are_present(after_f);
        G::lemma_remaining_is_part(after_f);
        assert(forall|i: int|
            0 <= i < G::required_ids().len() ==> facts.contains_key(
                #[trigger] G::required_ids()[i],
            ));
        let up_to_g = A::required_ids() + B::required_ids() + C::required_ids() + D::required_ids() + E::required_ids() + F::required_ids() + G::required_ids();
        assert(forall|i: int|
            0 <= i < up_to_g.len() ==> facts.contains_key(#[trigger] up_to_g[i]));
        H::lemma_required_are_present(after_g);
        assert(forall|i: int|
            0 <= i < H::required_ids().len() ==> facts.contains_key(
                #[trigger] H::required_ids()[i],
            ));
        let up_to_h = A::required_ids() + B::required_ids() + C::required_ids() + D::required_ids() + E::required_ids() + F::required_ids() + G::required_ids() + H::required_ids();
        assert(forall|i: int|
            0 <= i < up_to_h.len() ==> facts.contains_key(#[trigger] up_to_h[i]));
    }

    proof fn lemma_remaining_is_part(facts: Map<Id, V>) {
        let after_a = A::remaining(facts);
        let after_b = B::remaining(after_a);
        let after_c = C::remaining(after_b);
        let after_d = D::remaining(after_c);
        let after_e = E::remaining(after_d);
        let after_f = F::remaining(after_e);
        let after_g = G::remaining(after_f);
        A::lemma_remaining_is_part(facts);
        B::lemma_remaining_is_part(after_a);
        C::lemma_remaining_is_part(after_b);
        D::lemma_remaining_is_part(after_c);
        E::lemma_remaining_is_part(after_d);
        F::lemma_remaining_is_part(after_e);
        G::lemma_remaining_is_part(after_f);
        H::lemma_remaining_is_part(after_g);
    }

    fn take_from(state: &mut State<V>) -> (value: Self) {
        let a = A::take_from(state);
        let b = B::take_from(state);
        let c = C::take_from(state);
        let d = D::take_from(state);
        let e = E::take_from(state);
        let f = F::take_from(state);
        let g = G::take_from(state);
        let h = H::take_from(state);
        (a, b, c, d, e, f, g, h)
    }

    fn collect_required(collector: &mut IdCollector) -> (outcome: Result<(), TransitionError>) {
        proof {
            lemma_collect_concat(collector@, A::required_ids(), B::required_ids());
            lemma_collect_concat(collector@, A::required_ids() + B::required_ids(), C::required_ids());
            lemma_collect_concat(collector@, A::required_ids() + B::required_ids() + C::required_ids(), D::required_ids());
            lemma_collect_concat(collector@, A::required_ids() + B::required_ids() + C::required_ids() + D::required_ids(), E::required_ids());
            lemma_collect_concat(collector@, A::required_ids() + B::required_ids() + C::required_ids() + D::required_ids() + E::required_ids(), F::required_ids());
            lemma_collect_concat(collector@, A::required_ids() + B::required_ids() + C::required_ids() + D::required_ids() + E::required_ids() + F::required_ids(), G::required_ids());
            lemma_collect_concat(collector@, A::required_ids() + B::required_ids() + C::required_ids() + D::required_ids() + E::required_ids() + F::required_ids() + G::required_ids(), H::required_ids());
        }
        A::collect_required(collector)?;
        B::collect_required(collector)?;
        C::collect_required(collector)?;
        D::collect_required(collector)?;
        E::collect_required(collector)?;
        F::collect_required(collector)?;
        G::collect_required(collector)?;
        H::collect_required(collector)
    }
}

} // verus!
