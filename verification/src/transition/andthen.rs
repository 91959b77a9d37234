use crate::error::TransitionError;
use crate::state::State;
use crate::transition::ids::{copy_ids, lemma_single_id};
use crate::transition::into::{function_outline, IntoTransition};
use crate::transition::intomut::IntoTransitionMut;
use crate::transition::intoonce::IntoTransitionOnce;
use crate::transition::params::TransitionParam;
use crate::transition::procedure::{Procedure, ProcedureMut, ProcedureOnce};
use crate::transition::results::TransitionResult;
use crate::transition::{Outline, Transition, TransitionMut, TransitionOnce};
use crate::truth::{Id, Truth};
use std::collections::HashSet;
use vstd::prelude::*;

verus! {

/// The outline of a chain of two transitions, the first with the required
/// facts `required1` and the produced facts `produced1`, the second with
/// `required2` and `produced2`.
///
/// A fact that both require must be put back by the first. The chain then
/// requires what the first requires and what the second requires and the
/// first does not produce; it produces what the second produces and what the
/// first produces and the second does not require.
pub open spec fn combined(
    required1: Set<Id>,
    produced1: Set<Id>,
    required2: Set<Id>,
    produced2: Set<Id>,
) -> Outline {
    if required1.intersect(required2).subset_of(produced1) {
        Ok(
            (
                required1.union(required2.difference(produced1)),
                produced2.union(produced1.difference(required2)),
            ),
        )
    } else {
        Err(TransitionError::UnsatisfiableReorder)
    }
}

/// The outline of a chain, from the outlines of its two halves. An error of
/// the first half comes before one of the second, and both come before
/// `UnsatisfiableReorder`.
pub open spec fn chained(first: Outline, second: Outline) -> Outline {
    match first {
        Err(error) => Err(error),
        Ok(one) => match second {
            Err(error) => Err(error),
            Ok(two) => combined(one.0, one.1, two.0, two.1),
        },
    }
}

/// The outline of a function without parameters that returns the fact `A`:
/// nothing required, `A` produced.
proof fn lemma_outline_of_source<A: Truth>()
    ensures
        function_outline::<A::Value, (), A>() == Ok::<(Set<Id>, Set<Id>), TransitionError>(
            (Set::empty(), set![A::spec_id()]),
        ),
{
    let produced = <A as TransitionResult<A::Value>>::produced_ids();
    let required = <() as TransitionParam<A::Value>>::required_ids();
    lemma_single_id(A::spec_id());
    assert(produced == seq![A::spec_id()]);
    assert(required.to_set() =~= Set::<Id>::empty());
}

/// The outline of a function of the fact `A` that returns the fact `B`: `A`
/// required, `B` produced.
proof fn lemma_outline_of_step<A: Truth, B: Truth<Value = A::Value>>()
    ensures
        function_outline::<A::Value, (A,), B>() == Ok::<(Set<Id>, Set<Id>), TransitionError>(
            (set![A::spec_id()], set![B::spec_id()]),
        ),
{
    let produced = <B as TransitionResult<A::Value>>::produced_ids();
    let required = <(A,) as TransitionParam<A::Value>>::required_ids();
    lemma_single_id(A::spec_id());
    lemma_single_id(B::spec_id());
    assert(produced == seq![B::spec_id()]);
    assert(required == seq![A::spec_id()]);
}

/// A function that returns `A`, followed by a function of `A` that returns
/// `B`, is a transition that requires nothing and produces `B`: the `A` in
/// between does not show, unless `B` is `A` again.
pub proof fn lemma_chain_hides_what_is_passed_on<A: Truth, B: Truth<Value = A::Value>>()
    ensures
        chained(function_outline::<A::Value, (), A>(), function_outline::<A::Value, (A,), B>())
            == Ok::<(Set<Id>, Set<Id>), TransitionError>((Set::empty(), set![B::spec_id()])),
{
    lemma_outline_of_source::<A>();
    lemma_outline_of_step::<A, B>();
    let none = Set::<Id>::empty();
    let a = set![A::spec_id()];
    let b = set![B::spec_id()];
    assert(none.union(a.difference(a)) =~= none);
    assert(b.union(a.difference(a)) =~= b);
}

/// Two functions of the fact `A`, the first of which returns another fact,
/// cannot be chained: the second would find `A` gone.
pub proof fn lemma_chain_needs_what_is_used_up<
    A: Truth,
    B: Truth<Value = A::Value>,
    C: Truth<Value = A::Value>,
>()
    requires
        A::spec_id() != B::spec_id(),
    ensures
        chained(function_outline::<A::Value, (A,), B>(), function_outline::<A::Value, (A,), C>())
            == Err::<(Set<Id>, Set<Id>), TransitionError>(TransitionError::UnsatisfiableReorder),
{
    lemma_outline_of_step::<A, B>();
    lemma_outline_of_step::<A, C>();
    let a = set![A::spec_id()];
    assert(a.intersect(a).contains(A::spec_id()));
}

/// Whether `chain` runs as `first` followed by `second` on the same state: it
/// can run where `first` can run and `second` can run on whatever `first`
/// leaves, and it leaves what `second` leaves of what `first` left.
pub open spec fn runs_as_chain<V>(
    chain: Transition<V>,
    first: Transition<V>,
    second: Transition<V>,
) -> bool {
    &&& forall|facts: Map<Id, V>| #[trigger]
        chain.accepts(facts) == (first.accepts(facts) && forall|between: Map<Id, V>| #[trigger]
            first.effect(facts, between) ==> second.accepts(between))
    &&& forall|before: Map<Id, V>, after: Map<Id, V>| #[trigger]
        chain.effect(before, after) == exists|between: Map<Id, V>| #[trigger]
            first.effect(before, between) && second.effect(between, after)
}

/// Chaining is associative in what it does: three transitions chained as
/// `(f, g), h` accept the same states and lead to the same states as the
/// three chained as `f, (g, h)`. The required and the produced facts of the
/// two are not the same in general, and one of the two may be refused where
/// the other is not.
pub proof fn lemma_chaining_is_associative<V>(
    f: Transition<V>,
    g: Transition<V>,
    h: Transition<V>,
    fg: Transition<V>,
    gh: Transition<V>,
    left: Transition<V>,
    right: Transition<V>,
)
    requires
        runs_as_chain(fg, f, g),
        runs_as_chain(gh, g, h),
        runs_as_chain(left, fg, h),
        runs_as_chain(right, f, gh),
    ensures
        forall|facts: Map<Id, V>| left.accepts(facts) == right.accepts(facts),
        forall|before: Map<Id, V>, after: Map<Id, V>|
            left.effect(before, after) == right.effect(before, after),
{
    assert forall|before: Map<Id, V>, after: Map<Id, V>| left.effect(before, after)
        == right.effect(before, after) by {
        if left.effect(before, after) {
            let second = choose|second: Map<Id, V>|
                fg.effect(before, second) && h.effect(second, after);
            let first = choose|first: Map<Id, V>|
                f.effect(before, first) && g.effect(first, second);
            assert(gh.effect(first, after));
        }
        if right.effect(before, after) {
            let first = choose|first: Map<Id, V>|
                f.effect(before, first) && gh.effect(first, after);
            let second = choose|second: Map<Id, V>|
                g.effect(first, second) && h.effect(second, after);
            assert(fg.effect(before, second));
        }
    }
    assert forall|facts: Map<Id, V>| left.accepts(facts) == right.accepts(facts) by {
        if left.accepts(facts) {
            assert forall|first: Map<Id, V>| f.effect(facts, first) implies gh.accepts(first) by {
                assert forall|second: Map<Id, V>| g.effect(first, second) implies h.accepts(
                    second,
                ) by {
                    assert(fg.effect(facts, second));
                }
            }
        }
        if right.accepts(facts) {
            assert forall|second: Map<Id, V>| fg.effect(facts, second) implies h.accepts(
                second,
            ) by {
                let first = choose|first: Map<Id, V>|
                    f.effect(facts, first) && g.effect(first, second);
                assert(gh.accepts(first));
            }
        }
    }
}

/// Adds to `target` the identifiers of `source` that are not in `except`.
fn extend_without(target: &mut HashSet<Id>, source: &HashSet<Id>, except: &HashSet<Id>)
    ensures
        final(target)@ == old(target)@.union(source@.difference(except@)),
{
    for id in it: source.iter()
        invariant
            it.seq().unref().to_set() == source@,
            old(target)@.subset_of(target@),
            forall|i: int|
                0 <= i < it.index() && !except@.contains(#[trigger] it.seq().unref()[i])
                    ==> target@.contains(it.seq().unref()[i]),
            forall|other: Id|
                target@.contains(other) ==> old(target)@.contains(other) || (source@.contains(
                    other,
                ) && !except@.contains(other)),
    {
        assert(it.seq().unref()[it.index()] == *id);
        if !except.contains(id) {
            target.insert(*id);
        }
    }
    assert(final(target)@ =~= old(target)@.union(source@.difference(except@)));
}

/// Checks that two transitions can be chained and merges their required and
/// produced facts.
pub fn combine_requirements(
    required1: &HashSet<Id>,
    produced1: &HashSet<Id>,
    required2: &HashSet<Id>,
    produced2: &HashSet<Id>,
) -> (merged: Result<(HashSet<Id>, HashSet<Id>), TransitionError>)
    ensures
        match merged {
            Ok(sets) => combined(required1@, produced1@, required2@, produced2@) == Ok::<
                (Set<Id>, Set<Id>),
                TransitionError,
            >((sets.0@, sets.1@)),
            Err(error) => combined(required1@, produced1@, required2@, produced2@) == Err::<
                (Set<Id>, Set<Id>),
                TransitionError,
            >(error),
        },
{
    for id in it: required1.iter()
        invariant
            it.seq().unref().to_set() == required1@,
            forall|i: int|
                0 <= i < it.index() && required2@.contains(#[trigger] it.seq().unref()[i])
                    ==> produced1@.contains(it.seq().unref()[i]),
    {
        assert(it.seq().unref()[it.index()] == *id);
        if required2.contains(id) && !produced1.contains(id) {
            assert(required1@.intersect(required2@).contains(*id));
            return Err(TransitionError::UnsatisfiableReorder);
        }
    }
    assert(required1@.intersect(required2@).subset_of(produced1@));
    let mut required = copy_ids(required1);
    extend_without(&mut required, required2, produced1);
    let mut produced = copy_ids(produced2);
    extend_without(&mut produced, produced1, required2);
    Ok((required, produced))
}

/// Two transitions, run one after the other on
/// the same state.
#[verifier::reject_recursive_types(V)]
pub struct Chain<'a, V> {
    pub first: Transition<'a, V>,
    pub second: Transition<'a, V>,
}

impl<'a, V> Procedure<V> for Chain<'a, V> {
    open spec fn accepts(&self, facts: Map<Id, V>) -> bool {
        &&& self.first.accepts(facts)
        &&& forall|between: Map<Id, V>| #[trigger]
            self.first.effect(facts, between) ==> self.second.accepts(between)
    }

    open spec fn effect(&self, before: Map<Id, V>, after: Map<Id, V>) -> bool {
        exists|between: Map<Id, V>| #[trigger]
            self.first.effect(before, between) && self.second.effect(between, after)
    }

    fn call(&self, state: &mut State<V>) {
        self.first.run(state);
        self.second.run(state);
    }
}

/// Chaining: what can be made into a [`Transition`] can be followed by
/// another such thing, and the two together are a [`Transition`] again.
pub trait AndThen<'a, V, InA, MarkerA>: IntoTransition<'a, V, InA, MarkerA> {
    /// Builds both halves and chains them: the transition that runs `self`
    /// and then `next`, on the same state.
    ///
    /// Fails with the error of the first half that cannot be built, or with
    /// `UnsatisfiableReorder` where both halves require a fact that the first
    /// does not produce. The chain can run exactly where the first half can
    /// run and the second can run on whatever the first can leave.
    fn and_then<Next, InB, MarkerB>(self, next: Next) -> (chain: Result<
        Transition<'a, V>,
        TransitionError,
    >) where Next: IntoTransition<'a, V, InB, MarkerB>
        ensures
            match chain {
                Ok(transition) => {
                    &&& chained(self.shape(), next.shape()) == transition.outline()
                    &&& forall|facts: Map<Id, V>| #[trigger]
                        transition.accepts(facts) == (self.admits(facts) && forall|
                            between: Map<Id, V>,
                        | #[trigger]
                            self.yields(facts, between) ==> next.admits(between))
                    &&& forall|before: Map<Id, V>, after: Map<Id, V>| #[trigger]
                        transition.effect(before, after) == exists|between: Map<Id, V>| #[trigger]
                            self.yields(before, between) && next.yields(between, after)
                },
                Err(error) => chained(self.shape(), next.shape()) == Err::<
                    (Set<Id>, Set<Id>),
                    TransitionError,
                >(error),
            },
    ;
}

impl<'a, V: 'a, I, InA, MarkerA> AndThen<'a, V, InA, MarkerA> for I where
    I: IntoTransition<'a, V, InA, MarkerA>,
{
    fn and_then<Next, InB, MarkerB>(self, next: Next) -> (chain: Result<
        Transition<'a, V>,
        TransitionError,
    >) where Next: IntoTransition<'a, V, InB, MarkerB> {
        let first = self.into_transition()?;
        let second = next.into_transition()?;
        let (required, produced) = combine_requirements(
            first.requirements(),
            first.productions(),
            second.requirements(),
            second.productions(),
        )?;
        let ghost one = first;
        let ghost two = second;
        let transition = Transition::new(Chain { first, second }, required, produced);
        proof {
            assert forall|facts: Map<Id, V>| #[trigger]
                transition.accepts(facts) == (self.admits(facts) && forall|
                    between: Map<Id, V>,
                | #[trigger]
                    self.yields(facts, between) ==> next.admits(between)) by {
                assert(one.accepts(facts) == self.admits(facts));
                if transition.accepts(facts) {
                    assert forall|between: Map<Id, V>| #[trigger]
                        self.yields(facts, between) implies next.admits(between) by {
                        assert(one.effect(facts, between) == self.yields(facts, between));
                        assert(two.accepts(between) == next.admits(between));
                    }
                }
                if self.admits(facts) && forall|between: Map<Id, V>| #[trigger]
                    self.yields(facts, between) ==> next.admits(between) {
                    assert forall|between: Map<Id, V>| #[trigger]
                        one.effect(facts, between) implies two.accepts(between) by {
                        assert(one.effect(facts, between) == self.yields(facts, between));
                        assert(two.accepts(between) == next.admits(between));
                    }
                }
            }
            assert forall|before: Map<Id, V>, after: Map<Id, V>| #[trigger]
                transition.effect(before, after) == exists|between: Map<Id, V>| #[trigger]
                    self.yields(before, between) && next.yields(between, after) by {
                let leads = exists|between: Map<Id, V>| #[trigger]
                    self.yields(before, between) && next.yields(between, after);
                if transition.effect(before, after) {
                    let between = choose|between: Map<Id, V>| #[trigger]
                        one.effect(before, between) && two.effect(between, after);
                    assert(one.effect(before, between) == self.yields(before, between));
                    assert(two.effect(between, after) == next.yields(between, after));
                    assert(leads);
                }
                if leads {
                    let between = choose|between: Map<Id, V>| #[trigger]
                        self.yields(before, between) && next.yields(between, after);
                    assert(one.effect(before, between) == self.yields(before, between));
                    assert(two.effect(between, after) == next.yields(between, after));
                    let link = Chain { first: one, second: two };
                    assert(link.first.effect(before, between) && link.second.effect(
                        between,
                        after,
                    ));
                    assert(link.effect(before, after));
                }
            }
        }
        Ok(transition)
    }
}

/// Two transitions that may keep something of their own, run one after the other on
/// the same state.
#[verifier::reject_recursive_types(V)]
pub struct ChainMut<'a, V> {
    pub first: TransitionMut<'a, V>,
    pub second: TransitionMut<'a, V>,
}

impl<'a, V> ProcedureMut<V> for ChainMut<'a, V> {
    open spec fn accepts_mut(&self, facts: Map<Id, V>) -> bool {
        &&& self.first.accepts(facts)
        &&& forall|between: Map<Id, V>| #[trigger]
            self.first.effect(facts, between) ==> self.second.accepts(between)
    }

    open spec fn effect_mut(&self, before: Map<Id, V>, after: Map<Id, V>) -> bool {
        exists|between: Map<Id, V>| #[trigger]
            self.first.effect(before, between) && self.second.effect(between, after)
    }

    fn call_mut(&mut self, state: &mut State<V>) {
        self.first.run(state);
        self.second.run(state);
    }
}

/// Chaining: what can be made into a [`TransitionMut`] can be followed by
/// another such thing, and the two together are a [`TransitionMut`] again.
pub trait AndThenMut<'a, V, InA, MarkerA>: IntoTransitionMut<'a, V, InA, MarkerA> {
    /// Builds both halves and chains them: the transition that runs `self`
    /// and then `next`, on the same state.
    ///
    /// Fails with the error of the first half that cannot be built, or with
    /// `UnsatisfiableReorder` where both halves require a fact that the first
    /// does not produce. The chain can run exactly where the first half can
    /// run and the second can run on whatever the first can leave.
    fn and_then<Next, InB, MarkerB>(self, next: Next) -> (chain: Result<
        TransitionMut<'a, V>,
        TransitionError,
    >) where Next: IntoTransitionMut<'a, V, InB, MarkerB>
        ensures
            match chain {
                Ok(transition) => {
                    &&& chained(self.shape_mut(), next.shape_mut()) == transition.outline()
                    &&& forall|facts: Map<Id, V>| #[trigger]
                        transition.accepts(facts) == (self.admits_mut(facts) && forall|
                            between: Map<Id, V>,
                        | #[trigger]
                            self.yields_mut(facts, between) ==> next.admits_mut(between))
                    &&& forall|before: Map<Id, V>, after: Map<Id, V>| #[trigger]
                        transition.effect(before, after) == exists|between: Map<Id, V>| #[trigger]
                            self.yields_mut(before, between) && next.yields_mut(between, after)
                },
                Err(error) => chained(self.shape_mut(), next.shape_mut()) == Err::<
                    (Set<Id>, Set<Id>),
                    TransitionError,
                >(error),
            },
    ;
}

impl<'a, V: 'a, I, InA, MarkerA> AndThenMut<'a, V, InA, MarkerA> for I where
    I: IntoTransitionMut<'a, V, InA, MarkerA>,
{
    fn and_then<Next, InB, MarkerB>(self, next: Next) -> (chain: Result<
        TransitionMut<'a, V>,
        TransitionError,
    >) where Next: IntoTransitionMut<'a, V, InB, MarkerB> {
        let first = self.into_transition_mut()?;
        let second = next.into_transition_mut()?;
        let (required, produced) = combine_requirements(
            first.requirements(),
            first.productions(),
            second.requirements(),
            second.productions(),
        )?;
        let ghost one = first;
        let ghost two = second;
        let transition = TransitionMut::new(ChainMut { first, second }, required, produced);
        proof {
            assert forall|facts: Map<Id, V>| #[trigger]
                transition.accepts(facts) == (self.admits_mut(facts) && forall|
                    between: Map<Id, V>,
                | #[trigger]
                    self.yields_mut(facts, between) ==> next.admits_mut(between)) by {
                assert(one.accepts(facts) == self.admits_mut(facts));
                if transition.accepts(facts) {
                    assert forall|between: Map<Id, V>| #[trigger]
                        self.yields_mut(facts, between) implies next.admits_mut(between) by {
                        assert(one.effect(facts, between) == self.yields_mut(facts, between));
                        assert(two.accepts(between) == next.admits_mut(between));
                    }
                }
                if self.admits_mut(facts) && forall|between: Map<Id, V>| #[trigger]
                    self.yields_mut(facts, between) ==> next.admits_mut(between) {
                    assert forall|between: Map<Id, V>| #[trigger]
                        one.effect(facts, between) implies two.accepts(between) by {
                        assert(one.effect(facts, between) == self.yields_mut(facts, between));
                        assert(two.accepts(between) == next.admits_mut(between));
                    }
                }
            }
            assert forall|before: Map<Id, V>, after: Map<Id, V>| #[trigger]
                transition.effect(before, after) == exists|between: Map<Id, V>| #[trigger]
                    self.yields_mut(before, between) && next.yields_mut(between, after) by {
                let leads = exists|between: Map<Id, V>| #[trigger]
                    self.yields_mut(before, between) && next.yields_mut(between, after);
                if transition.effect(before, after) {
                    let between = choose|between: Map<Id, V>| #[trigger]
                        one.effect(before, between) && two.effect(between, after);
                    assert(one.effect(before, between) == self.yields_mut(before, between));
                    assert(two.effect(between, after) == next.yields_mut(between, after));
                    assert(leads);
                }
                if leads {
                    let between = choose|between: Map<Id, V>| #[trigger]
                        self.yields_mut(before, between) && next.yields_mut(between, after);
                    assert(one.effect(before, between) == self.yields_mut(before, between));
                    assert(two.effect(between, after) == next.yields_mut(between, after));
                    let link = ChainMut { first: one, second: two };
                    assert(link.first.effect(before, between) && link.second.effect(
                        between,
                        after,
                    ));
                    assert(link.effect_mut(before, after));
                }
            }
        }
        Ok(transition)
    }
}

/// Two transitions that run once, run one after the other on
/// the same state.
#[verifier::reject_recursive_types(V)]
pub struct ChainOnce<'a, V> {
    pub first: TransitionOnce<'a, V>,
    pub second: TransitionOnce<'a, V>,
}

impl<'a, V> ProcedureOnce<V> for ChainOnce<'a, V> {
    open spec fn accepts_once(&self, facts: Map<Id, V>) -> bool {
        &&& self.first.accepts(facts)
        &&& forall|between: Map<Id, V>| #[trigger]
            self.first.effect(facts, between) ==> self.second.accepts(between)
    }

    open spec fn effect_once(&self, before: Map<Id, V>, after: Map<Id, V>) -> bool {
        exists|between: Map<Id, V>| #[trigger]
            self.first.effect(before, between) && self.second.effect(between, after)
    }

    fn call_once(self: Box<Self>, state: &mut State<V>) {
        let chain = *self;
        chain.first.run(state);
        chain.second.run(state);
    }
}

/// Chaining: what can be made into a [`TransitionOnce`] can be followed by
/// another such thing, and the two together are a [`TransitionOnce`] again.
pub trait AndThenOnce<'a, V, InA, MarkerA>: IntoTransitionOnce<'a, V, InA, MarkerA> {
    /// Builds both halves and chains them: the transition that runs `self`
    /// and then `next`, on the same state.
    ///
    /// Fails with the error of the first half that cannot be built, or with
    /// `UnsatisfiableReorder` where both halves require a fact that the first
    /// does not produce. The chain can run exactly where the first half can
    /// run and the second can run on whatever the first can leave.
    fn and_then<Next, InB, MarkerB>(self, next: Next) -> (chain: Result<
        TransitionOnce<'a, V>,
        TransitionError,
    >) where Next: IntoTransitionOnce<'a, V, InB, MarkerB>
        ensures
            match chain {
                Ok(transition) => {
                    &&& chained(self.shape_once(), next.shape_once()) == transition.outline()
                    &&& forall|facts: Map<Id, V>| #[trigger]
                        transition.accepts(facts) == (self.admits_once(facts) && forall|
                            between: Map<Id, V>,
                        | #[trigger]
                            self.yields_once(facts, between) ==> next.admits_once(between))
                    &&& forall|before: Map<Id, V>, after: Map<Id, V>| #[trigger]
                        transition.effect(before, after) == exists|between: Map<Id, V>| #[trigger]
                            self.yields_once(before, between) && next.yields_once(between, after)
                },
                Err(error) => chained(self.shape_once(), next.shape_once()) == Err::<
                    (Set<Id>, Set<Id>),
                    TransitionError,
                >(error),
            },
    ;
}

impl<'a, V: 'a, I, InA, MarkerA> AndThenOnce<'a, V, InA, MarkerA> for I where
    I: IntoTransitionOnce<'a, V, InA, MarkerA>,
{
    fn and_then<Next, InB, MarkerB>(self, next: Next) -> (chain: Result<
        TransitionOnce<'a, V>,
        TransitionError,
    >) where Next: IntoTransitionOnce<'a, V, InB, MarkerB> {
        let first = self.into_transition_once()?;
        let second = next.into_transition_once()?;
        let (required, produced) = combine_requirements(
            first.requirements(),
            first.productions(),
            second.requirements(),
            second.productions(),
        )?;
        let ghost one = first;
        let ghost two = second;
        let transition = TransitionOnce::new(ChainOnce { first, second }, required, produced);
        proof {
            assert forall|facts: Map<Id, V>| #[trigger]
                transition.accepts(facts) == (self.admits_once(facts) && forall|
                    between: Map<Id, V>,
                | #[trigger]
                    self.yields_once(facts, between) ==> next.admits_once(between)) by {
                assert(one.accepts(facts) == self.admits_once(facts));
                if transition.accepts(facts) {
                    assert forall|between: Map<Id, V>| #[trigger]
                        self.yields_once(facts, between) implies next.admits_once(between) by {
                        assert(one.effect(facts, between) == self.yields_once(facts, between));
                        assert(two.accepts(between) == next.admits_once(between));
                    }
                }
                if self.admits_once(facts) && forall|between: Map<Id, V>| #[trigger]
                    self.yields_once(facts, between) ==> next.admits_once(between) {
                    assert forall|between: Map<Id, V>| #[trigger]
                        one.effect(facts, between) implies two.accepts(between) by {
                        assert(one.effect(facts, between) == self.yields_once(facts, between));
                        assert(two.accepts(between) == next.admits_once(between));
                    }
                }
            }
            assert forall|before: Map<Id, V>, after: Map<Id, V>| #[trigger]
                transition.effect(before, after) == exists|between: Map<Id, V>| #[trigger]
                    self.yields_once(before, between) && next.yields_once(between, after) by {
                let leads = exists|between: Map<Id, V>| #[trigger]
                    self.yields_once(before, between) && next.yields_once(between, after);
                if transition.effect(before, after) {
                    let between = choose|between: Map<Id, V>| #[trigger]
                        one.effect(before, between) && two.effect(between, after);
                    assert(one.effect(before, between) == self.yields_once(before, between));
                    assert(two.effect(between, after) == next.yields_once(between, after));
                    assert(leads);
                }
                if leads {
                    let between = choose|between: Map<Id, V>| #[trigger]
                        self.yields_once(before, between) && next.yields_once(between, after);
                    assert(one.effect(before, between) == self.yields_once(before, between));
                    assert(two.effect(between, after) == next.yields_once(between, after));
                    let link = ChainOnce { first: one, second: two };
                    assert(link.first.effect(before, between) && link.second.effect(
                        between,
                        after,
                    ));
                    assert(link.effect_once(before, after));
                }
            }
        }
        Ok(transition)
    }
}

} // verus!
