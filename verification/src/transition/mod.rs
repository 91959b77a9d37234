use crate::state::State;
use crate::truth::Id;
use std::collections::HashSet;
use vstd::prelude::*;

pub mod andthen;
pub mod ids;
pub mod into;
pub mod intomut;
pub mod intoonce;
pub mod params;
pub mod procedure;
pub mod results;

pub use andthen::{AndThen, AndThenMut, AndThenOnce};
pub use ids::IdCollector;
pub use into::IntoTransition;
pub use intomut::IntoTransitionMut;
pub use intoonce::IntoTransitionOnce;
pub use params::TransitionParam;
pub use procedure::{Procedure, ProcedureMut, ProcedureOnce};
pub use results::TransitionResult;

verus! {

/// Marks the conversion of a function of one parameter.
pub struct SingleMarker();

/// Stands for the parameters of a transition that is already built.
pub struct UnknownParameter();

/// What building a transition gives, but for the procedure: the facts that
/// are required and the facts that are produced, or the error.
pub type Outline = Result<(Set<Id>, Set<Id>), crate::error::TransitionError>;

/// A procedure with the facts that it requires and the facts that it
/// produces. It can run any number of times and keeps nothing between two
/// runs.
///
/// For one that keeps something of its own see [`TransitionMut`], for one that
/// runs once see [`TransitionOnce`].
#[verifier::reject_recursive_types(V)]
pub struct Transition<'a, V> {
    pub(crate) func: Box<dyn Procedure<V> + 'a>,
    pub(crate) required: HashSet<Id>,
    pub(crate) produced: HashSet<Id>,
}

impl<'a, V> Transition<'a, V> {
    /// The facts that must be present before a run.
    pub closed spec fn requirement(&self) -> Set<Id> {
        self.required@
    }

    /// The facts that a run leaves in the state.
    pub closed spec fn production(&self) -> Set<Id> {
        self.produced@
    }

    /// The required and the produced facts together.
    pub open spec fn outline(&self) -> Outline {
        Ok((self.requirement(), self.production()))
    }

    /// Whether a run on `facts` does not fail.
    pub closed spec fn accepts(&self, facts: Map<Id, V>) -> bool {
        self.func.accepts(facts)
    }

    /// Whether a run that starts with `before` can end with `after`.
    pub closed spec fn effect(&self, before: Map<Id, V>, after: Map<Id, V>) -> bool {
        self.func.effect(before, after)
    }

    /// Puts a procedure together with the facts it requires and produces.
    pub fn new<F>(func: F, required: HashSet<Id>, produced: HashSet<Id>) -> (transition: Self) where
        F: Procedure<V> + 'a,

        ensures
            transition.requirement() == required@,
            transition.production() == produced@,
            forall|facts: Map<Id, V>| #[trigger]
                transition.accepts(facts) == func.accepts(facts),
            forall|before: Map<Id, V>, after: Map<Id, V>| #[trigger]
                transition.effect(before, after) == func.effect(before, after),
    {
        Transition { func: Box::new(procedure::Held { inner: func }), required, produced }
    }

    /// Runs the procedure on the state, without a look at the required facts.
    pub fn run(&self, state: &mut State<V>)
        requires
            self.accepts(old(state)@),
        ensures
            self.effect(old(state)@, final(state)@),
    {
        self.func.call(state);
    }

    /// The facts that must be present before a run.
    pub fn requirements(&self) -> (ids: &HashSet<Id>)
        ensures
            ids@ == self.requirement(),
    {
        &self.required
    }

    /// The facts that a run leaves in the state.
    pub fn productions(&self) -> (ids: &HashSet<Id>)
        ensures
            ids@ == self.production(),
    {
        &self.produced
    }
}

/// A procedure with the facts that it requires and the facts that it
/// produces. It can run any number of times and may keep something of its own
/// between two runs.
///
/// For one that keeps nothing see [`Transition`], for one that runs once see
/// [`TransitionOnce`].
#[verifier::reject_recursive_types(V)]
pub struct TransitionMut<'a, V> {
    pub(crate) func: Box<dyn ProcedureMut<V> + 'a>,
    pub(crate) required: HashSet<Id>,
    pub(crate) produced: HashSet<Id>,
}

impl<'a, V> TransitionMut<'a, V> {
    /// The facts that must be present before a run.
    pub closed spec fn requirement(&self) -> Set<Id> {
        self.required@
    }

    /// The facts that a run leaves in the state.
    pub closed spec fn production(&self) -> Set<Id> {
        self.produced@
    }

    /// The required and the produced facts together.
    pub open spec fn outline(&self) -> Outline {
        Ok((self.requirement(), self.production()))
    }

    /// Whether a run on `facts` does not fail.
    pub closed spec fn accepts(&self, facts: Map<Id, V>) -> bool {
        self.func.accepts_mut(facts)
    }

    /// Whether a run that starts with `before` can end with `after`.
    pub closed spec fn effect(&self, before: Map<Id, V>, after: Map<Id, V>) -> bool {
        self.func.effect_mut(before, after)
    }

    /// Puts a procedure together with the facts it requires and produces.
    pub fn new<F>(func: F, required: HashSet<Id>, produced: HashSet<Id>) -> (transition: Self) where
        F: ProcedureMut<V> + 'a,

        ensures
            transition.requirement() == required@,
            transition.production() == produced@,
            forall|facts: Map<Id, V>| #[trigger]
                transition.accepts(facts) == func.accepts_mut(facts),
            forall|before: Map<Id, V>, after: Map<Id, V>| #[trigger]
                transition.effect(before, after) == func.effect_mut(before, after),
    {
        TransitionMut { func: Box::new(procedure::Held { inner: func }), required, produced }
    }

    /// Runs the procedure on the state, without a look at the required facts.
    pub fn run(&mut self, state: &mut State<V>)
        requires
            old(self).accepts(old(state)@),
        ensures
            old(self).effect(old(state)@, final(state)@),
            final(self).requirement() == old(self).requirement(),
            final(self).production() == old(self).production(),
            forall|facts: Map<Id, V>|
                old(self).accepts(facts) ==> #[trigger] final(self).accepts(facts),
            forall|before: Map<Id, V>, after: Map<Id, V>| #[trigger]
                final(self).effect(before, after) ==> old(self).effect(before, after),
    {
        self.func.call_mut(state);
    }

    /// The facts that must be present before a run.
    pub fn requirements(&self) -> (ids: &HashSet<Id>)
        ensures
            ids@ == self.requirement(),
    {
        &self.required
    }

    /// The facts that a run leaves in the state.
    pub fn productions(&self) -> (ids: &HashSet<Id>)
        ensures
            ids@ == self.production(),
    {
        &self.produced
    }
}

/// A procedure with the facts that it requires and the facts that it
/// produces. It runs once: the run uses the transition up.
///
/// For one that can run again see [`Transition`] and [`TransitionMut`].
#[verifier::reject_recursive_types(V)]
pub struct TransitionOnce<'a, V> {
    pub(crate) func: Box<dyn ProcedureOnce<V> + 'a>,
    pub(crate) required: HashSet<Id>,
    pub(crate) produced: HashSet<Id>,
}

impl<'a, V> TransitionOnce<'a, V> {
    /// The facts that must be present before a run.
    pub closed spec fn requirement(&self) -> Set<Id> {
        self.required@
    }

    /// The facts that a run leaves in the state.
    pub closed spec fn production(&self) -> Set<Id> {
        self.produced@
    }

    /// The required and the produced facts together.
    pub open spec fn outline(&self) -> Outline {
        Ok((self.requirement(), self.production()))
    }

    /// Whether a run on `facts` does not fail.
    pub closed spec fn accepts(&self, facts: Map<Id, V>) -> bool {
        self.func.accepts_once(facts)
    }

    /// Whether a run that starts with `before` can end with `after`.
    pub closed spec fn effect(&self, before: Map<Id, V>, after: Map<Id, V>) -> bool {
        self.func.effect_once(before, after)
    }

    /// Puts a procedure together with the facts it requires and produces.
    pub fn new<F>(func: F, required: HashSet<Id>, produced: HashSet<Id>) -> (transition: Self) where
        F: ProcedureOnce<V> + 'a,

        ensures
            transition.requirement() == required@,
            transition.production() == produced@,
            forall|facts: Map<Id, V>| #[trigger]
                transition.accepts(facts) == func.accepts_once(facts),
            forall|before: Map<Id, V>, after: Map<Id, V>| #[trigger]
                transition.effect(before, after) == func.effect_once(before, after),
    {
        TransitionOnce { func: Box::new(procedure::Held { inner: func }), required, produced }
    }

    /// Runs the procedure on the state, without a look at the required facts.
    pub fn run(self, state: &mut State<V>)
        requires
            self.accepts(old(state)@),
        ensures
            self.effect(old(state)@, final(state)@),
    {
        self.func.call_once(state);
    }

    /// The facts that must be present before a run.
    pub fn requirements(&self) -> (ids: &HashSet<Id>)
        ensures
            ids@ == self.requirement(),
    {
        &self.required
    }

    /// The facts that a run leaves in the state.
    pub fn productions(&self) -> (ids: &HashSet<Id>)
        ensures
            ids@ == self.production(),
    {
        &self.produced
    }
}

} // verus!
