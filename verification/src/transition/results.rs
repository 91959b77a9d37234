use crate::error::TransitionError;
use crate::state::State;
use crate::transition::ids::{
    collects, lemma_collect_all, lemma_collect_concat, lemma_collect_none, IdCollector,
};
use crate::truth::{Id, Truth};
use std::collections::HashSet;
use vstd::prelude::*;

verus! {

/// A result of a transition: something that can be put into a state.
///
/// Implemented for every fact type, for `Option` of a result, for `()` and
/// for tuples of up to eight results.
pub trait TransitionResult<V>: Sized {
    /// The identifiers of the facts that every value of this type puts into
    /// the state, from left to right. What an `Option` holds is not among
    /// them.
    spec fn produced_ids() -> Seq<Id>;

    /// What `facts` becomes once the result was put into it.
    spec fn inserted(self, facts: Map<Id, V>) -> Map<Id, V>;

    /// Once the result was put in, every produced fact is there, and whatever
    /// was stored before is still stored, under the same identifier.
    proof fn lemma_produced_are_present(self, facts: Map<Id, V>)
        ensures
            forall|i: int|
                0 <= i < Self::produced_ids().len() ==> self.inserted(facts).contains_key(
                    #[trigger] Self::produced_ids()[i],
                ),
            facts.dom().subset_of(self.inserted(facts).dom()),
    ;

    /// Puts the result into the state, fact by fact from left to right. A
    /// fact takes the place of what was stored under its identifier.
    fn insert_into(self, state: &mut State<V>)
        ensures
            final(state)@ == self.inserted(old(state)@),
    ;

    /// Hands the identifiers of the produced facts to the collector, from
    /// left to right, and stops at the first one that the collector refuses.
    fn collect_produces(collector: &mut IdCollector) -> (outcome: Result<(), TransitionError>)
        ensures
            collects(*old(collector), Self::produced_ids(), *final(collector), outcome),
    ;

    /// The set of the produced facts, or `DuplicateProduction` where one fact
    /// is produced more than once.
    fn produces() -> (ids: Result<HashSet<Id>, TransitionError>)
        ensures
            ids is Ok <==> Self::produced_ids().no_duplicates(),
            ids matches Ok(set) ==> set@ == Self::produced_ids().to_set(),
            ids matches Err(e) ==> e == TransitionError::DuplicateProduction,
    {
        let mut collector = IdCollector::new(TransitionError::DuplicateProduction);
        proof {
            lemma_collect_all(collector@, Self::produced_ids());
            assert(Set::<Id>::empty().union(Self::produced_ids().to_set())
                =~= Self::produced_ids().to_set());
        }
        match Self::collect_produces(&mut collector) {
            Ok(()) => Ok(collector.into_ids()),
            Err(e) => Err(e),
        }
    }
}

/// Once a result was put into the state, the set of its produced facts is
/// there, and nothing that was there is gone.
pub proof fn lemma_inserting_gives_the_produced<V, Res: TransitionResult<V>>(
    result: Res,
    facts: Map<Id, V>,
)
    ensures
        Res::produced_ids().to_set().subset_of(result.inserted(facts).dom()),
        facts.dom().subset_of(result.inserted(facts).dom()),
{
    result.lemma_produced_are_present(facts);
    assert forall|id: Id| Res::produced_ids().to_set().contains(id) implies result.inserted(
        facts,
    ).dom().contains(id) by {
        let i = choose|i: int| 0 <= i < Res::produced_ids().len() && Res::produced_ids()[i] == id;
        assert(result.inserted(facts).contains_key(Res::produced_ids()[i]));
    }
}

impl<T: Truth> TransitionResult<T::Value> for T {
    open spec fn produced_ids() -> Seq<Id> {
        seq![T::spec_id()]
    }

    open spec fn inserted(self, facts: Map<Id, T::Value>) -> Map<Id, T::Value> {
        facts.insert(T::spec_id(), self.spec_wrap())
    }

    proof fn lemma_produced_are_present(self, facts: Map<Id, T::Value>) {
    }

    fn insert_into(self, state: &mut State<T::Value>) {
        state.insert(self);
    }

    fn collect_produces(collector: &mut IdCollector) -> (outcome: Result<(), TransitionError>) {
        collector.collect(T::id())
    }
}

impl<V, A> TransitionResult<V> for Option<A> where
    A: TransitionResult<V>,
{
    open spec fn produced_ids() -> Seq<Id> {
        Seq::empty()
    }

    open spec fn inserted(self, facts: Map<Id, V>) -> Map<Id, V> {
        match self {
            Some(a) => a.inserted(facts),
            None => facts,
        }
    }

    proof fn lemma_produced_are_present(self, facts: Map<Id, V>) {
        if let Some(a) = self {
            a.lemma_produced_are_present(facts);
        }
    }

    fn insert_into(self, state: &mut State<V>) {
        if let Some(a) = self {
            a.insert_into(state);
        }
    }

    fn collect_produces(collector: &mut IdCollector) -> (outcome: Result<(), TransitionError>) {
        proof {
            lemma_collect_none(collector@);
        }
        Ok(())
    }
}

impl<V> TransitionResult<V> for () {
    open spec fn produced_ids() -> Seq<Id> {
        Seq::empty()
    }

    open spec fn inserted(self, facts: Map<Id, V>) -> Map<Id, V> {
        facts
    }

    proof fn lemma_produced_are_present(self, facts: Map<Id, V>) {
    }

    fn insert_into(self, state: &mut State<V>) {
    }

    fn collect_produces(collector: &mut IdCollector) -> (outcome: Result<(), TransitionError>) {
        proof {
            lemma_collect_none(collector@);
        }
        Ok(())
    }
}

impl<V, A> TransitionResult<V> for (A,) where
    A: TransitionResult<V>,
{
    open spec fn produced_ids() -> Seq<Id> {
        A::produced_ids()
    }

    open spec fn inserted(self, facts: Map<Id, V>) -> Map<Id, V> {
        self.0.inserted(facts)
    }

    proof fn lemma_produced_are_present(self, facts: Map<Id, V>) {
        self.0.lemma_produced_are_present(facts);
    }

    fn insert_into(self, state: &mut State<V>) {
        let (a,) = self;
        a.insert_into(state);
    }

    fn collect_produces(collector: &mut IdCollector) -> (outcome: Result<(), TransitionError>) {
        A::collect_produces(collector)
    }
}

impl<V, A, B> TransitionResult<V> for (A, B) where
    A: TransitionResult<V>,
    B: TransitionResult<V>,
{
    open spec fn produced_ids() -> Seq<Id> {
        A::produced_ids() + B::produced_ids()
    }

    open spec fn inserted(self, facts: Map<Id, V>) -> Map<Id, V> {
        let after_a = self.0.inserted(facts);
        self.1.inserted(after_a)
    }

    proof fn lemma_produced_are_present(self, facts: Map<Id, V>) {
        let after_a = self.0.inserted(facts);
        self.0.lemma_produced_are_present(facts);
        self.1.lemma_produced_are_present(after_a);
    }

    fn insert_into(self, state: &mut State<V>) {
        let (a, b) = self;
        a.insert_into(state);
        b.insert_into(state);
    }

    fn collect_produces(collector: &mut IdCollector) -> (outcome: Result<(), TransitionError>) {
        proof {
            lemma_collect_concat(collector@, A::produced_ids(), B::produced_ids());
        }
        A::collect_produces(collector)?;
        B::collect_produces(collector)
    }
}

impl<V, A, B, C> TransitionResult<V> for (A, B, C) where
    A: TransitionResult<V>,
    B: TransitionResult<V>,
    C: TransitionResult<V>,
{
    open spec fn produced_ids() -> Seq<Id> {
        A::produced_ids() + B::produced_ids() + C::produced_ids()
    }

    open spec fn inserted(self, facts: Map<Id, V>) -> Map<Id, V> {
        let after_a = self.0.inserted(facts);
        let after_b = self.1.inserted(after_a);
        self.2.inserted(after_b)
    }

    proof fn lemma_produced_are_present(self, facts: Map<Id, V>) {
        let after_a = self.0.inserted(facts);
        let after_b = self.1.inserted(after_a);
        self.0.lemma_produced_are_present(facts);
        self.1.lemma_produced_are_present(after_a);
        self.2.lemma_produced_are_present(after_b);
    }

    fn insert_into(self, state: &mut State<V>) {
        let (a, b, c) = self;
        a.insert_into(state);
        b.insert_into(state);
        c.insert_into(state);
    }

    fn collect_produces(collector: &mut IdCollector) -> (outcome: Result<(), TransitionError>) {
        proof {
            lemma_collect_concat(collector@, A::produced_ids(), B::produced_ids());
            lemma_collect_concat(collector@, A::produced_ids() + B::produced_ids(), C::produced_ids());
        }
        A::collect_produces(collector)?;
        B::collect_produces(collector)?;
        C::collect_produces(collector)
    }
}

impl<V, A, B, C, D> TransitionResult<V> for (A, B, C, D) where
    A: TransitionResult<V>,
    B: TransitionResult<V>,
    C: TransitionResult<V>,
    D: TransitionResult<V>,
{
    open spec fn produced_ids() -> Seq<Id> {
        A::produced_ids() + B::produced_ids() + C::produced_ids() + D::produced_ids()
    }

    open spec fn inserted(self, facts: Map<Id, V>) -> Map<Id, V> {
        let after_a = self.0.inserted(facts);
        let after_b = self.1.inserted(after_a);
        let after_c = self.2.inserted(after_b);
        self.3.inserted(after_c)
    }

    proof fn lemma_produced_are_present(self, facts: Map<Id, V>) {
        let after_a = self.0.inserted(facts);
        let after_b = self.1.inserted(after_a);
        let after_c = self.2.inserted(after_b);
        self.0.lemma_produced_are_present(facts);
        self.1.lemma_produced_are_present(after_a);
        self.2.lemma_produced_are_present(after_b);
        self.3.lemma_produced_are_present(after_c);
    }

    fn insert_into(self, state: &mut State<V>) {
        let (a, b, c, d) = self;
        a.insert_into(state);
        b.insert_into(state);
        c.insert_into(state);
        d.insert_into(state);
    }

    fn collect_produces(collector: &mut IdCollector) -> (outcome: Result<(), TransitionError>) {
        proof {
            lemma_collect_concat(collector@, A::produced_ids(), B::produced_ids());
            lemma_collect_concat(collector@, A::produced_ids() + B::produced_ids(), C::produced_ids());
            lemma_collect_concat(collector@, A::produced_ids() + B::produced_ids() + C::produced_ids(), D::produced_ids());
        }
        A::collect_produces(collector)?;
        B::collect_produces(collector)?;
        C::collect_produces(collector)?;
        D::collect_produces(collector)
    }
}

impl<V, A, B, C, D, E> TransitionResult<V> for (A, B, C, D, E) where
    A: TransitionResult<V>,
    B: TransitionResult<V>,
    C: TransitionResult<V>,
    D: TransitionResult<V>,
    E: TransitionResult<V>,
{
    open spec fn produced_ids() -> Seq<Id> {
        A::produced_ids() + B::produced_ids() + C::produced_ids() + D::produced_ids() + E::produced_ids()
    }

    open spec fn inserted(self, facts: Map<Id, V>) -> Map<Id, V> {
        let after_a = self.0.inserted(facts);
        let after_b = self.1.inserted(after_a);
        let after_c = self.2.inserted(after_b);
        let after_d = self.3.inserted(after_c);
        self.4.inserted(after_d)
    }

    proof fn lemma_produced_are_present(self, facts: Map<Id, V>) {
        let after_a = self.0.inserted(facts);
        let after_b = self.1.inserted(after_a);
        let after_c = self.2.inserted(after_b);
        let after_d = self.3.inserted(after_c);
        self.0.lemma_produced_are_present(facts);
        self.1.lemma_produced_are_present(after_a);
        self.2.lemma_produced_are_present(after_b);
        self.3.lemma_produced_are_present(after_c);
        self.4.lemma_produced_are_present(after_d);
    }

    fn insert_into(self, state: &mut State<V>) {
        let (a, b, c, d, e) = self;
        a.insert_into(state);
        b.insert_into(state);
        c.insert_into(state);
        d.insert_into(state);
        e.insert_into(state);
    }

    fn collect_produces(collector: &mut IdCollector) -> (outcome: Result<(), TransitionError>) {
        proof {
            lemma_collect_concat(collector@, A::produced_ids(), B::produced_ids());
            lemma_collect_concat(collector@, A::produced_ids() + B::produced_ids(), C::produced_ids());
            lemma_collect_concat(collector@, A::produced_ids() + B::produced_ids() + C::produced_ids(), D::produced_ids());
            lemma_collect_concat(collector@, A::produced_ids() + B::produced_ids() + C::produced_ids() + D::produced_ids(), E::produced_ids());
        }
        A::collect_produces(collector)?;
        B::collect_produces(collector)?;
        C::collect_produces(collector)?;
        D::collect_produces(collector)?;
        E::collect_produces(collector)
    }
}

impl<V, A, B, C, D, E, F> TransitionResult<V> for (A, B, C, D, E, F) where
    A: TransitionResult<V>,
    B: TransitionResult<V>,
    C: TransitionResult<V>,
    D: TransitionResult<V>,
    E: TransitionResult<V>,
    F: TransitionResult<V>,
{
    open spec fn produced_ids() -> Seq<Id> {
        A::produced_ids() + B::produced_ids() + C::produced_ids() + D::produced_ids() + E::produced_ids() + F::produced_ids()
    }

    open spec fn inserted(self, facts: Map<Id, V>) -> Map<Id, V> {
        let after_a = self.0.inserted(facts);
        let after_b = self.1.inserted(after_a);
        let after_c = self.2.inserted(after_b);
        let after_d = self.3.inserted(after_c);
        let after_e = self.4.inserted(after_d);
        self.5.inserted(after_e)
    }

    proof fn lemma_produced_are_present(self, facts: Map<Id, V>) {
        let after_a = self.0.inserted(facts);
        let after_b = self.1.inserted(after_a);
        let after_c = self.2.inserted(after_b);
        let after_d = self.3.inserted(after_c);
        let after_e = self.4.inserted(after_d);
        self.0.lemma_produced_are_present(facts);
        self.1.lemma_produced_are_present(after_a);
        self.2.lemma_produced_are_present(after_b);
        self.3.lemma_produced_are_present(after_c);
        self.4.lemma_produced_are_present(after_d);
        self.5.lemma_produced_are_present(after_e);
    }

    fn insert_into(self, state: &mut State<V>) {
        let (a, b, c, d, e, f) = self;
        a.insert_into(state);
        b.insert_into(state);
        c.insert_into(state);
        d.insert_into(state);
        e.insert_into(state);
        f.insert_into(state);
    }

    fn collect_produces(collector: &mut IdCollector) -> (outcome: Result<(), TransitionError>) {
        proof {
            lemma_collect_concat(collector@, A::produced_ids(), B::produced_ids());
            lemma_collect_concat(collector@, A::produced_ids() + B::produced_ids(), C::produced_ids());
            lemma_collect_concat(collector@, A::produced_ids() + B::produced_ids() + C::produced_ids(), D::produced_ids());
            lemma_collect_concat(collector@, A::produced_ids() + B::produced_ids() + C::produced_ids() + D::produced_ids(), E::produced_ids());
            lemma_collect_concat(collector@, A::produced_ids() + B::produced_ids() + C::produced_ids() + D::produced_ids() + E::produced_ids(), F::produced_ids());
        }
        A::collect_produces(collector)?;
        B::collect_produces(collector)?;
        C::collect_produces(collector)?;
        D::collect_produces(collector)?;
        E::collect_produces(collector)?;
        F::collect_produces(collector)
    }
}

impl<V, A, B, C, D, E, F, G> TransitionResult<V> for (A, B, C, D, E, F, G) where
    A: TransitionResult<V>,
    B: TransitionResult<V>,
    C: TransitionResult<V>,
    D: TransitionResult<V>,
    E: TransitionResult<V>,
    F: TransitionResult<V>,
    G: TransitionResult<V>,
{
    open spec fn produced_ids() -> Seq<Id> {
        A::produced_ids() + B::produced_ids() + C::produced_ids() + D::produced_ids() + E::produced_ids() + F::produced_ids() + G::produced_ids()
    }

    open spec fn inserted(self, facts: Map<Id, V>) -> Map<Id, V> {
        let after_a = self.0.inserted(facts);
        let after_b = self.1.inserted(after_a);
        let after_c = self.2.inserted(after_b);
        let after_d = self.3.inserted(after_c);
        let after_e = self.4.inserted(after_d);
        let after_f = self.5.inserted(after_e);
        self.6.inserted(after_f)
    }

    proof fn lemma_produced_are_present(self, facts: Map<Id, V>) {
        let after_a = self.0.inserted(facts);
        let after_b = self.1.inserted(after_a);
        let after_c = self.2.inserted(after_b);
        let after_d = self.3.inserted(after_c);
        let after_e = self.4.inserted(after_d);
        let after_f = self.5.inserted(after_e);
        self.0.lemma_produced_are_present(facts);
        self.1.lemma_produced_are_present(after_a);
        self.2.lemma_produced_are_present(after_b);
        self.3.lemma_produced_are_present(after_c);
        self.4.lemma_produced_are_present(after_d);
        self.5.lemma_produced_are_present(after_e);
        self.6.lemma_produced_are_present(after_f);
    }

    fn insert_into(self, state: &mut State<V>) {
        let (a, b, c, d, e, f, g) = self;
        a.insert_into(state);
        b.insert_into(state);
        c.insert_into(state);
        d.insert_into(state);
        e.insert_into(state);
        f.insert_into(state);
        g.insert_into(state);
    }

    fn collect_produces(collector: &mut IdCollector) -> (outcome: Result<(), TransitionError>) {
        proof {
            lemma_collect_concat(collector@, A::produced_ids(), B::produced_ids());
            lemma_collect_concat(collector@, A::produced_ids() + B::produced_ids(), C::produced_ids());
            lemma_collect_concat(collector@, A::produced_ids() + B::produced_ids() + C::produced_ids(), D::produced_ids());
            lemma_collect_concat(collector@, A::produced_ids() + B::produced_ids() + C::produced_ids() + D::produced_ids(), E::produced_ids());
            lemma_collect_concat(collector@, A::produced_ids() + B::produced_ids() + C::produced_ids() + D::produced_ids() + E::produced_ids(), F::produced_ids());
            lemma_collect_concat(collector@, A::produced_ids() + B::produced_ids() + C::produced_ids() + D::produced_ids() + E::produced_ids() + F::produced_ids(), G::produced_ids());
        }
        A::collect_produces(collector)?;
        B::collect_produces(collector)?;
        C::collect_produces(collector)?;
        D::collect_produces(collector)?;
        E::collect_produces(collector)?;
        F::collect_produces(collector)?;
        G::collect_produces(collector)
    }
}

impl<V, A, B, C, D, E, F, G, H> TransitionResult<V> for (A, B, C, D, E, F, G, H) where
    A: TransitionResult<V>,
    B: TransitionResult<V>,
    C: TransitionResult<V>,
    D: TransitionResult<V>,
    E: TransitionResult<V>,
    F: TransitionResult<V>,
    G: TransitionResult<V>,
    H: TransitionResult<V>,
{
    open spec fn produced_ids() -> Seq<Id> {
        A::produced_ids() + B::produced_ids() + C::produced_ids() + D::produced_ids() + E::produced_ids() + F::produced_ids() + G::produced_ids() + H::produced_ids()
    }

    open spec fn inserted(self, facts: Map<Id, V>) -> Map<Id, V> {
        let after_a = self.0.inserted(facts);
        let after_b = self.1.inserted(after_a);
        let after_c = self.2.inserted(after_b);
        let after_d = self.3.inserted(after_c);
        let after_e = self.4.inserted(after_d);
        let after_f = self.5.inserted(after_e);
        let after_g = self.6.inserted(after_f);
        self.7.inserted(after_g)
    }

    proof fn lemma_produced_are_present(self, facts: Map<Id, V>) {
        let after_a = self.0.inserted(facts);
        let after_b = self.1.inserted(after_a);
        let after_c = self.2.inserted(after_b);
        let after_d = self.3.inserted(after_c);
        let after_e = self.4.inserted(after_d);
        let after_f = self.5.inserted(after_e);
        let after_g = self.6.inserted(after_f);
        self.0.lemma_produced_are_present(facts);
        self.1.lemma_produced_are_present(after_a);
        self.2.lemma_produced_are_present(after_b);
        self.3.lemma_produced_are_present(after_c);
        self.4.lemma_produced_are_present(after_d);
        self.5.lemma_produced_are_present(after_e);
        self.6.lemma_produced_are_present(after_f);
        self.7.lemma_produced_are_present(after_g);
    }

    fn insert_into(self, state: &mut State<V>) {
        let (a, b, c, d, e, f, g, h) = self;
        a.insert_into(state);
        b.insert_into(state);
        c.insert_into(state);
        d.insert_into(state);
        e.insert_into(state);
        f.insert_into(state);
        g.insert_into(state);
        h.insert_into(state);
    }

    fn collect_produces(collector: &mut IdCollector) -> (outcome: Result<(), TransitionError>) {
        proof {
            lemma_collect_concat(collector@, A::produced_ids(), B::produced_ids());
            lemma_collect_concat(collector@, A::produced_ids() + B::produced_ids(), C::produced_ids());
            lemma_collect_concat(collector@, A::produced_ids() + B::produced_ids() + C::produced_ids(), D::produced_ids());
            lemma_collect_concat(collector@, A::produced_ids() + B::produced_ids() + C::produced_ids() + D::produced_ids(), E::produced_ids());
            lemma_collect_concat(collector@, A::produced_ids() + B::produced_ids() + C::produced_ids() + D::produced_ids() + E::produced_ids(), F::produced_ids());
            lemma_collect_concat(collector@, A::produced_ids() + B::produced_ids() + C::produced_ids() + D::produced_ids() + E::produced_ids() + F::produced_ids(), G::produced_ids());
            lemma_collect_concat(collector@, A::produced_ids() + B::produced_ids() + C::produced_ids() + D::produced_ids() + E::produced_ids() + F::produced_ids() + G::produced_ids(), H::produced_ids());
        }
        A::collect_produces(collector)?;
        B::collect_produces(collector)?;
        C::collect_produces(collector)?;
        D::collect_produces(collector)?;
        E::collect_produces(collector)?;
        F::collect_produces(collector)?;
        G::collect_produces(collector)?;
        H::collect_produces(collector)
    }
}

} // verus!
