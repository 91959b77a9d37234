use crate::error::TransitionError;
use crate::state::State;
use crate::transition::{
    IntoTransitionOnce, Transition, TransitionMut, TransitionOnce, TransitionParam,
};
use crate::transition::ids::lemma_single_id;
use crate::truth::{held, holds, lemma_fact_of_wrap, Id, Truth};
use vstd::prelude::*;

verus! {

/// A state and the means to run transitions on it.
///
/// The machine holds at most one fact of each fact type. Before it runs a
/// transition it can look whether every fact that the transition requires is
/// there.
pub struct StateMachine<V> {
    state: State<V>,
}

impl<V> View for StateMachine<V> {
    type V = Map<Id, V>;

    closed spec fn view(&self) -> Map<Id, V> {
        self.state@
    }
}

impl<V> StateMachine<V> {
    /// Creates a machine with an empty state.
    pub fn new() -> (machine: Self)
        ensures
            machine@ == Map::<Id, V>::empty(),
    {
        StateMachine { state: State::new() }
    }

    /// Whether every fact that the parameters `In` require is in the state.
    /// Fails with `DuplicateRequirement` where they require one fact twice.
    pub fn can_run<'a, T, In, Marker>(&self, _transition: &T) -> (runnable: Result<
        bool,
        TransitionError,
    >) where In: TransitionParam<V>, T: IntoTransitionOnce<'a, V, In, Marker>
        ensures
            runnable is Ok <==> In::required_ids().no_duplicates(),
            runnable matches Ok(present) ==> present == In::required_ids().to_set().subset_of(
                self@.dom(),
            ),
            runnable matches Err(error) ==> error == TransitionError::DuplicateRequirement,
    {
        let required = In::required()?;
        Ok(self.state.contains_all(&required))
    }

    /// Whether every fact that the transition requires is in the state.
    pub fn can_run_transition(&self, transition: &Transition<V>) -> (runnable: bool)
        ensures
            runnable == transition.requirement().subset_of(self@.dom()),
    {
        self.state.contains_all(transition.requirements())
    }

    /// Whether every fact that the transition requires is in the state.
    pub fn can_run_transition_mut(&self, transition: &TransitionMut<V>) -> (runnable: bool)
        ensures
            runnable == transition.requirement().subset_of(self@.dom()),
    {
        self.state.contains_all(transition.requirements())
    }

    /// Whether every fact that the transition requires is in the state.
    pub fn can_run_transition_once(&self, transition: &TransitionOnce<V>) -> (runnable: bool)
        ensures
            runnable == transition.requirement().subset_of(self@.dom()),
    {
        self.state.contains_all(transition.requirements())
    }

    /// Builds the transition and runs it, if every fact that it requires is in
    /// the state.
    ///
    /// Fails, and leaves the state as it is, with the error of the build or
    /// with `MissingRequirement`. The caller sees to it that, with the
    /// required facts present, the run itself cannot fail: each fact that the
    /// run takes has the payload of its type, and the function accepts what it
    /// is given.
    pub fn run<'a, T, In, Marker>(&mut self, transition: T) -> (outcome: Result<
        (),
        TransitionError,
    >) where T: IntoTransitionOnce<'a, V, In, Marker>
        requires
            transition.shape_once() matches Ok(sets) && sets.0.subset_of(old(self)@.dom())
                ==> transition.admits_once(old(self)@),
        ensures
            match outcome {
                Ok(()) => {
                    &&& transition.shape_once() matches Ok(sets) && sets.0.subset_of(
                        old(self)@.dom(),
                    )
                    &&& transition.yields_once(old(self)@, final(self)@)
                },
                Err(error) => {
                    &&& final(self)@ == old(self)@
                    &&& match transition.shape_once() {
                        Ok(sets) => !sets.0.subset_of(old(self)@.dom()) && error
                            == TransitionError::MissingRequirement,
                        Err(failure) => error == failure,
                    }
                },
            },
    {
        let transition = transition.into_transition_once()?;
        if self.state.contains_all(transition.requirements()) {
            transition.run(&mut self.state);
            Ok(())
        } else {
            Err(TransitionError::MissingRequirement)
        }
    }

    /// Runs the transition without a look at the facts that it requires.
    pub fn run_unchecked(&mut self, transition: TransitionOnce<V>)
        requires
            transition.accepts(old(self)@),
        ensures
            transition.effect(old(self)@, final(self)@),
    {
        transition.run(&mut self.state);
    }

    /// Runs the transition without a look at the facts that it requires.
    pub fn run_ref_unchecked(&mut self, transition: &Transition<V>)
        requires
            transition.accepts(old(self)@),
        ensures
            transition.effect(old(self)@, final(self)@),
    {
        transition.run(&mut self.state);
    }

    /// Runs the transition without a look at the facts that it requires.
    pub fn run_ref_mut_unchecked(&mut self, transition: &mut TransitionMut<V>)
        requires
            old(transition).accepts(old(self)@),
        ensures
            old(transition).effect(old(self)@, final(self)@),
            final(transition).requirement() == old(transition).requirement(),
            final(transition).production() == old(transition).production(),
            forall|facts: Map<Id, V>|
                old(transition).accepts(facts) ==> #[trigger] final(transition).accepts(facts),
            forall|before: Map<Id, V>, after: Map<Id, V>| #[trigger]
                final(transition).effect(before, after) ==> old(transition).effect(before, after),
    {
        transition.run(&mut self.state);
    }

    /// Puts the fact into the state, in place of the fact of its type that was
    /// there.
    pub fn set_truth<T: Truth<Value = V>>(&mut self, element: T)
        ensures
            final(self)@ == old(self)@.insert(T::spec_id(), element.spec_wrap()),
    {
        self.state.insert(element);
    }

    /// Whether a fact of type `T` is in the state.
    pub fn has_truth<T: Truth<Value = V>>(&self) -> (present: bool)
        ensures
            present == self@.contains_key(T::spec_id()),
    {
        self.state.contains::<T>()
    }

    /// Takes the fact of type `T` out of the state, if there is one.
    pub fn unset_truth<T: Truth<Value = V>>(&mut self) -> (fact: Option<T>)
        requires
            old(self)@.contains_key(T::spec_id()) ==> holds::<T>(old(self)@),
        ensures
            fact == if old(self)@.contains_key(T::spec_id()) {
                Some(held::<T>(old(self)@))
            } else {
                None
            },
            final(self)@ == old(self)@.remove(T::spec_id()),
    {
        self.state.take_optional::<T>()
    }
}

/// A transition that requires the fact `T` and nothing else cannot run on a
/// state without a fact of that type, and can run once one is set.
pub proof fn lemma_setting_the_fact_enables<T: Truth>(facts: Map<Id, T::Value>, value: T)
    requires
        !facts.contains_key(T::spec_id()),
    ensures
        !<(T,) as TransitionParam<T::Value>>::required_ids().to_set().subset_of(facts.dom()),
        <(T,) as TransitionParam<T::Value>>::required_ids().to_set().subset_of(
            facts.insert(T::spec_id(), value.spec_wrap()).dom(),
        ),
        <(T,) as TransitionParam<T::Value>>::can_take(
            facts.insert(T::spec_id(), value.spec_wrap()),
        ),
{
    let required = <(T,) as TransitionParam<T::Value>>::required_ids();
    lemma_single_id(T::spec_id());
    assert(required == seq![T::spec_id()]);
    lemma_fact_of_wrap(value);
}

} // verus!
