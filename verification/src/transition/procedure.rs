use crate::state::State;
use crate::transition::{Transition, TransitionMut};
use crate::truth::Id;
use vstd::prelude::*;

verus! {

/// A procedure on a state that can run any number of times and keeps nothing
/// between two runs.
pub trait Procedure<V> {
    /// Whether the procedure can run on `facts` without failing.
    spec fn accepts(&self, facts: Map<Id, V>) -> bool;

    /// Whether a run that starts with `before` can end with `after`.
    spec fn effect(&self, before: Map<Id, V>, after: Map<Id, V>) -> bool;

    /// Runs the procedure on the state.
    fn call(&self, state: &mut State<V>)
        requires
            self.accepts(old(state)@),
        ensures
            self.effect(old(state)@, final(state)@),
    ;
}

/// A procedure on a state that can run any number of times and may change
/// what it keeps for itself. What it accepts and what it can do to a state
/// stays within what held before the run.
pub trait ProcedureMut<V> {
    /// Whether the procedure can run on `facts` without failing.
    spec fn accepts_mut(&self, facts: Map<Id, V>) -> bool;

    /// Whether a run that starts with `before` can end with `after`.
    spec fn effect_mut(&self, before: Map<Id, V>, after: Map<Id, V>) -> bool;

    /// Runs the procedure on the state.
    fn call_mut(&mut self, state: &mut State<V>)
        requires
            old(self).accepts_mut(old(state)@),
        ensures
            old(self).effect_mut(old(state)@, final(state)@),
            forall|facts: Map<Id, V>|
                old(self).accepts_mut(facts) ==> #[trigger] final(self).accepts_mut(facts),
            forall|before: Map<Id, V>, after: Map<Id, V>| #[trigger]
                final(self).effect_mut(before, after) ==> old(self).effect_mut(before, after),
    ;
}

/// A procedure on a state that can run once.
pub trait ProcedureOnce<V> {
    /// Whether the procedure can run on `facts` without failing.
    spec fn accepts_once(&self, facts: Map<Id, V>) -> bool;

    /// Whether the run that starts with `before` can end with `after`.
    spec fn effect_once(&self, before: Map<Id, V>, after: Map<Id, V>) -> bool;

    /// Runs the procedure on the state and uses it up.
    fn call_once(self: Box<Self>, state: &mut State<V>)
        requires
            self.accepts_once(old(state)@),
        ensures
            self.effect_once(old(state)@, final(state)@),
    ;
}

/// A procedure of any type, held by value.
pub struct Held<F> {
    pub inner: F,
}

impl<V, F: Procedure<V>> Procedure<V> for Held<F> {
    open spec fn accepts(&self, facts: Map<Id, V>) -> bool {
        self.inner.accepts(facts)
    }

    open spec fn effect(&self, before: Map<Id, V>, after: Map<Id, V>) -> bool {
        self.inner.effect(before, after)
    }

    fn call(&self, state: &mut State<V>) {
        self.inner.call(state);
    }
}

impl<V, F: ProcedureMut<V>> ProcedureMut<V> for Held<F> {
    open spec fn accepts_mut(&self, facts: Map<Id, V>) -> bool {
        self.inner.accepts_mut(facts)
    }

    open spec fn effect_mut(&self, before: Map<Id, V>, after: Map<Id, V>) -> bool {
        self.inner.effect_mut(before, after)
    }

    fn call_mut(&mut self, state: &mut State<V>) {
        self.inner.call_mut(state);
    }
}

impl<V, F: ProcedureOnce<V>> ProcedureOnce<V> for Held<F> {
    open spec fn accepts_once(&self, facts: Map<Id, V>) -> bool {
        self.inner.accepts_once(facts)
    }

    open spec fn effect_once(&self, before: Map<Id, V>, after: Map<Id, V>) -> bool {
        self.inner.effect_once(before, after)
    }

    fn call_once(self: Box<Self>, state: &mut State<V>) {
        let held = *self;
        Box::new(held.inner).call_once(state);
    }
}

/// A transition that keeps nothing, taken for one that may.
#[verifier::reject_recursive_types(V)]
pub struct Pure<'a, V> {
    pub inner: Transition<'a, V>,
}

impl<'a, V> ProcedureMut<V> for Pure<'a, V> {
    open spec fn accepts_mut(&self, facts: Map<Id, V>) -> bool {
        self.inner.accepts(facts)
    }

    open spec fn effect_mut(&self, before: Map<Id, V>, after: Map<Id, V>) -> bool {
        self.inner.effect(before, after)
    }

    fn call_mut(&mut self, state: &mut State<V>) {
        self.inner.run(state);
    }
}

impl<'a, V> ProcedureOnce<V> for Pure<'a, V> {
    open spec fn accepts_once(&self, facts: Map<Id, V>) -> bool {
        self.inner.accepts(facts)
    }

    open spec fn effect_once(&self, before: Map<Id, V>, after: Map<Id, V>) -> bool {
        self.inner.effect(before, after)
    }

    fn call_once(self: Box<Self>, state: &mut State<V>) {
        self.inner.run(state);
    }
}

/// A transition that can run again, taken for one that runs once.
#[verifier::reject_recursive_types(V)]
pub struct Stateful<'a, V> {
    pub inner: TransitionMut<'a, V>,
}

impl<'a, V> ProcedureOnce<V> for Stateful<'a, V> {
    open spec fn accepts_once(&self, facts: Map<Id, V>) -> bool {
        self.inner.accepts(facts)
    }

    open spec fn effect_once(&self, before: Map<Id, V>, after: Map<Id, V>) -> bool {
        self.inner.effect(before, after)
    }

    fn call_once(self: Box<Self>, state: &mut State<V>) {
        let mut this = *self;
        this.inner.run(state);
    }
}

} // verus!
