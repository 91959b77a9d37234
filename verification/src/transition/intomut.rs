use crate::error::TransitionError;
use crate::state::State;
use crate::transition::ids::copy_ids;
use crate::transition::into::{function_outline, Bound};
use crate::transition::params::TransitionParam;
use crate::transition::procedure::{ProcedureMut, Pure};
use crate::transition::results::TransitionResult;
use crate::transition::{Outline, SingleMarker, Transition, TransitionMut, UnknownParameter};
use crate::truth::Id;
use std::marker::PhantomData;
use vstd::prelude::*;

verus! {

/// What can be made into a [`TransitionMut`].
///
/// Implemented for [`Transition`], for [`TransitionMut`] and for every `FnMut` function of up to
/// eight parameters, each a [`TransitionParam`], that returns a
/// [`TransitionResult`].
pub trait IntoTransitionMut<'a, V, In, Marker>: Sized {
    /// The facts that the transition will require and produce, or the error
    /// that building it ends with. A result that holds one fact twice is
    /// reported before parameters that ask for one fact twice.
    spec fn shape_mut(&self) -> Outline;

    /// Whether a run on `facts` does not fail: the parameters can be taken out
    /// of `facts` and the function accepts them.
    spec fn admits_mut(&self, facts: Map<Id, V>) -> bool;

    /// Whether a run that starts with `before` can end with `after`: the
    /// parameters are taken out of `before` from left to right, the function
    /// is called on them, and what it returns is put into what is left.
    spec fn yields_mut(&self, before: Map<Id, V>, after: Map<Id, V>) -> bool;

    /// Builds the transition, or fails where the result holds one fact twice
    /// or the parameters ask for one fact twice. The transition requires,
    /// produces, accepts and does what `self` is said to.
    fn into_transition_mut(self) -> (built: Result<TransitionMut<'a, V>, TransitionError>)
        ensures
            match built {
                Ok(transition) => {
                    &&& self.shape_mut() == transition.outline()
                    &&& forall|facts: Map<Id, V>| #[trigger]
                        transition.accepts(facts) == self.admits_mut(facts)
                    &&& forall|before: Map<Id, V>, after: Map<Id, V>| #[trigger]
                        transition.effect(before, after) == self.yields_mut(before, after)
                },
                Err(error) => self.shape_mut() == Err::<(Set<Id>, Set<Id>), TransitionError>(error),
            },
    ;
}

impl<'a, V: 'a> IntoTransitionMut<'a, V, UnknownParameter, ()> for Transition<'a, V> {
    open spec fn shape_mut(&self) -> Outline {
        self.outline()
    }

    open spec fn admits_mut(&self, facts: Map<Id, V>) -> bool {
        self.accepts(facts)
    }

    open spec fn yields_mut(&self, before: Map<Id, V>, after: Map<Id, V>) -> bool {
        self.effect(before, after)
    }

    fn into_transition_mut(self) -> (built: Result<TransitionMut<'a, V>, TransitionError>) {
        let required = copy_ids(self.requirements());
        let produced = copy_ids(self.productions());
        Ok(TransitionMut::new(Pure { inner: self }, required, produced))
    }
}

impl<'a, V: 'a> IntoTransitionMut<'a, V, UnknownParameter, ()> for TransitionMut<'a, V> {
    open spec fn shape_mut(&self) -> Outline {
        self.outline()
    }

    open spec fn admits_mut(&self, facts: Map<Id, V>) -> bool {
        self.accepts(facts)
    }

    open spec fn yields_mut(&self, before: Map<Id, V>, after: Map<Id, V>) -> bool {
        self.effect(before, after)
    }

    fn into_transition_mut(self) -> (built: Result<TransitionMut<'a, V>, TransitionError>) {
        Ok(self)
    }
}

impl<V, Res, Fun> ProcedureMut<V> for Bound<Fun, (), Res> where
    Res: TransitionResult<V>,
    Fun: FnMut() -> Res,
{
    open spec fn accepts_mut(&self, facts: Map<Id, V>) -> bool {
        <()>::can_take(facts) && call_requires(self.func, <()>::taken(facts))
    }

    open spec fn effect_mut(&self, before: Map<Id, V>, after: Map<Id, V>) -> bool {
        exists|result: Res|
            call_ensures(self.func, <()>::taken(before), result) && after == result.inserted(
                <()>::remaining(before),
            )
    }

    fn call_mut(&mut self, state: &mut State<V>) {
        let result = (self.func)();
        assert(<() as TransitionParam<V>>::taken(old(state)@) == ());
        assert(<() as TransitionParam<V>>::remaining(old(state)@) == old(state)@);
        result.insert_into(state);
    }
}

impl<'a, V, Res, Fun> IntoTransitionMut<'a, V, (), ()> for Fun where
    Res: TransitionResult<V> + 'a,
    Fun: FnMut() -> Res + 'a,
{
    open spec fn shape_mut(&self) -> Outline {
        function_outline::<V, (), Res>()
    }

    open spec fn admits_mut(&self, facts: Map<Id, V>) -> bool {
        <()>::can_take(facts) && call_requires(*self, <()>::taken(facts))
    }

    open spec fn yields_mut(&self, before: Map<Id, V>, after: Map<Id, V>) -> bool {
        exists|result: Res|
            call_ensures(*self, <()>::taken(before), result) && after == result.inserted(
                <()>::remaining(before),
            )
    }

    fn into_transition_mut(self) -> (built: Result<TransitionMut<'a, V>, TransitionError>) {
        let produced = <Res as TransitionResult<V>>::produces()?;
        let required = <() as TransitionParam<V>>::required()?;
        let bound: Bound<Fun, (), Res> = Bound { func: self, marker: PhantomData };
        Ok(TransitionMut::new(bound, required, produced))
    }
}

impl<V, A, Res, Fun> ProcedureMut<V> for Bound<Fun, (A,), Res> where
    A: TransitionParam<V>,
    Res: TransitionResult<V>,
    Fun: FnMut(A) -> Res,
{
    open spec fn accepts_mut(&self, facts: Map<Id, V>) -> bool {
        <(A,)>::can_take(facts) && call_requires(self.func, <(A,)>::taken(facts))
    }

    open spec fn effect_mut(&self, before: Map<Id, V>, after: Map<Id, V>) -> bool {
        exists|result: Res|
            call_ensures(self.func, <(A,)>::taken(before), result) && after == result.inserted(
                <(A,)>::remaining(before),
            )
    }

    fn call_mut(&mut self, state: &mut State<V>) {
        let args = <(A,)>::take_from(state);
        let result = (self.func)(args.0);
        result.insert_into(state);
    }
}

impl<'a, V, A, Res, Fun> IntoTransitionMut<'a, V, (A,), SingleMarker> for Fun where
    A: TransitionParam<V> + 'a,
    Res: TransitionResult<V> + 'a,
    Fun: FnMut(A) -> Res + 'a,
{
    open spec fn shape_mut(&self) -> Outline {
        function_outline::<V, (A,), Res>()
    }

    open spec fn admits_mut(&self, facts: Map<Id, V>) -> bool {
        <(A,)>::can_take(facts) && call_requires(*self, <(A,)>::taken(facts))
    }

    open spec fn yields_mut(&self, before: Map<Id, V>, after: Map<Id, V>) -> bool {
        exists|result: Res|
            call_ensures(*self, <(A,)>::taken(before), result) && after == result.inserted(
                <(A,)>::remaining(before),
            )
    }

    fn into_transition_mut(self) -> (built: Result<TransitionMut<'a, V>, TransitionError>) {
        let produced = <Res as TransitionResult<V>>::produces()?;
        let required = <(A,) as TransitionParam<V>>::required()?;
        let bound: Bound<Fun, (A,), Res> = Bound { func: self, marker: PhantomData };
        Ok(TransitionMut::new(bound, required, produced))
    }
}

impl<V, A, B, Res, Fun> ProcedureMut<V> for Bound<Fun, (A, B), Res> where
    A: TransitionParam<V>,
    B: TransitionParam<V>,
    Res: TransitionResult<V>,
    Fun: FnMut(A, B) -> Res,
{
    open spec fn accepts_mut(&self, facts: Map<Id, V>) -> bool {
        <(A, B)>::can_take(facts) && call_requires(self.func, <(A, B)>::taken(facts))
    }

    open spec fn effect_mut(&self, before: Map<Id, V>, after: Map<Id, V>) -> bool {
        exists|result: Res|
            call_ensures(self.func, <(A, B)>::taken(before), result) && after == result.inserted(
                <(A, B)>::remaining(before),
            )
    }

    fn call_mut(&mut self, state: &mut State<V>) {
        let args = <(A, B)>::take_from(state);
        let result = (self.func)(args.0, args.1);
        result.insert_into(state);
    }
}

impl<'a, V, A, B, Res, Fun> IntoTransitionMut<'a, V, (A, B), ()> for Fun where
    A: TransitionParam<V> + 'a,
    B: TransitionParam<V> + 'a,
    Res: TransitionResult<V> + 'a,
    Fun: FnMut(A, B) -> Res + 'a,
{
    open spec fn shape_mut(&self) -> Outline {
        function_outline::<V, (A, B), Res>()
    }

    open spec fn admits_mut(&self, facts: Map<Id, V>) -> bool {
        <(A, B)>::can_take(facts) && call_requires(*self, <(A, B)>::taken(facts))
    }

    open spec fn yields_mut(&self, before: Map<Id, V>, after: Map<Id, V>) -> bool {
        exists|result: Res|
            call_ensures(*self, <(A, B)>::taken(before), result) && after == result.inserted(
                <(A, B)>::remaining(before),
            )
    }

    fn into_transition_mut(self) -> (built: Result<TransitionMut<'a, V>, TransitionError>) {
        let produced = <Res as TransitionResult<V>>::produces()?;
        let required = <(A, B) as TransitionParam<V>>::required()?;
        let bound: Bound<Fun, (A, B), Res> = Bound { func: self, marker: PhantomData };
        Ok(TransitionMut::new(bound, required, produced))
    }
}

impl<V, A, B, C, Res, Fun> ProcedureMut<V> for Bound<Fun, (A, B, C), Res> where
    A: TransitionParam<V>,
    B: TransitionParam<V>,
    C: TransitionParam<V>,
    Res: TransitionResult<V>,
    Fun: FnMut(A, B, C) -> Res,
{
    open spec fn accepts_mut(&self, facts: Map<Id, V>) -> bool {
        <(A, B, C)>::can_take(facts) && call_requires(self.func, <(A, B, C)>::taken(facts))
    }

    open spec fn effect_mut(&self, before: Map<Id, V>, after: Map<Id, V>) -> bool {
        exists|result: Res|
            call_ensures(self.func, <(A, B, C)>::taken(before), result) && after == result.inserted(
                <(A, B, C)>::remaining(before),
            )
    }

    fn call_mut(&mut self, state: &mut State<V>) {
        let args = <(A, B, C)>::take_from(state);
        let result = (self.func)(args.0, args.1, args.2);
        result.insert_into(state);
    }
}

impl<'a, V, A, B, C, Res, Fun> IntoTransitionMut<'a, V, (A, B, C), ()> for Fun where
    A: TransitionParam<V> + 'a,
    B: TransitionParam<V> + 'a,
    C: TransitionParam<V> + 'a,
    Res: TransitionResult<V> + 'a,
    Fun: FnMut(A, B, C) -> Res + 'a,
{
    open spec fn shape_mut(&self) -> Outline {
        function_outline::<V, (A, B, C), Res>()
    }

    open spec fn admits_mut(&self, facts: Map<Id, V>) -> bool {
        <(A, B, C)>::can_take(facts) && call_requires(*self, <(A, B, C)>::taken(facts))
    }

    open spec fn yields_mut(&self, before: Map<Id, V>, after: Map<Id, V>) -> bool {
        exists|result: Res|
            call_ensures(*self, <(A, B, C)>::taken(before), result) && after == result.inserted(
                <(A, B, C)>::remaining(before),
            )
    }

    fn into_transition_mut(self) -> (built: Result<TransitionMut<'a, V>, TransitionError>) {
        let produced = <Res as TransitionResult<V>>::produces()?;
        let required = <(A, B, C) as TransitionParam<V>>::required()?;
        let bound: Bound<Fun, (A, B, C), Res> = Bound { func: self, marker: PhantomData };
        Ok(TransitionMut::new(bound, required, produced))
    }
}

impl<V, A, B, C, D, Res, Fun> ProcedureMut<V> for Bound<Fun, (A, B, C, D), Res> where
    A: TransitionParam<V>,
    B: TransitionParam<V>,
    C: TransitionParam<V>,
    D: TransitionParam<V>,
    Res: TransitionResult<V>,
    Fun: FnMut(A, B, C, D) -> Res,
{
    open spec fn accepts_mut(&self, facts: Map<Id, V>) -> bool {
        <(A, B, C, D)>::can_take(facts) && call_requires(self.func, <(A, B, C, D)>::taken(facts))
    }

    open spec fn effect_mut(&self, before: Map<Id, V>, after: Map<Id, V>) -> bool {
        exists|result: Res|
            call_ensures(self.func, <(A, B, C, D)>::taken(before), result) && after == result.inserted(
                <(A, B, C, D)>::remaining(before),
            )
    }

    fn call_mut(&mut self, state: &mut State<V>) {
        let args = <(A, B, C, D)>::take_from(state);
        let result = (self.func)(args.0, args.1, args.2, args.3);
        result.insert_into(state);
    }
}

impl<'a, V, A, B, C, D, Res, Fun> IntoTransitionMut<'a, V, (A, B, C, D), ()> for Fun where
    A: TransitionParam<V> + 'a,
    B: TransitionParam<V> + 'a,
    C: TransitionParam<V> + 'a,
    D: TransitionParam<V> + 'a,
    Res: TransitionResult<V> + 'a,
    Fun: FnMut(A, B, C, D) -> Res + 'a,
{
    open spec fn shape_mut(&self) -> Outline {
        function_outline::<V, (A, B, C, D), Res>()
    }

    open spec fn admits_mut(&self, facts: Map<Id, V>) -> bool {
        <(A, B, C, D)>::can_take(facts) && call_requires(*self, <(A, B, C, D)>::taken(facts))
    }

    open spec fn yields_mut(&self, before: Map<Id, V>, after: Map<Id, V>) -> bool {
        exists|result: Res|
            call_ensures(*self, <(A, B, C, D)>::taken(before), result) && after == result.inserted(
                <(A, B, C, D)>::remaining(before),
            )
    }

    fn into_transition_mut(self) -> (built: Result<TransitionMut<'a, V>, TransitionError>) {
        let produced = <Res as TransitionResult<V>>::produces()?;
        let required = <(A, B, C, D) as TransitionParam<V>>::required()?;
        let bound: Bound<Fun, (A, B, C, D), Res> = Bound { func: self, marker: PhantomData };
        Ok(TransitionMut::new(bound, required, produced))
    }
}

impl<V, A, B, C, D, E, Res, Fun> ProcedureMut<V> for Bound<Fun, (A, B, C, D, E), Res> where
    A: TransitionParam<V>,
    B: TransitionParam<V>,
    C: TransitionParam<V>,
    D: TransitionParam<V>,
    E: TransitionParam<V>,
    Res: TransitionResult<V>,
    Fun: FnMut(A, B, C, D, E) -> Res,
{
    open spec fn accepts_mut(&self, facts: Map<Id, V>) -> bool {
        <(A, B, C, D, E)>::can_take(facts) && call_requires(self.func, <(A, B, C, D, E)>::taken(facts))
    }

    open spec fn effect_mut(&self, before: Map<Id, V>, after: Map<Id, V>) -> bool {
        exists|result: Res|
            call_ensures(self.func, <(A, B, C, D, E)>::taken(before), result) && after == result.inserted(
                <(A, B, C, D, E)>::remaining(before),
            )
    }

    fn call_mut(&mut self, state: &mut State<V>) {
        let args = <(A, B, C, D, E)>::take_from(state);
        let result = (self.func)(args.0, args.1, args.2, args.3, args.4);
        result.insert_into(state);
    }
}

impl<'a, V, A, B, C, D, E, Res, Fun> IntoTransitionMut<'a, V, (A, B, C, D, E), ()> for Fun where
    A: TransitionParam<V> + 'a,
    B: TransitionParam<V> + 'a,
    C: TransitionParam<V> + 'a,
    D: TransitionParam<V> + 'a,
    E: TransitionParam<V> + 'a,
    Res: TransitionResult<V> + 'a,
    Fun: FnMut(A, B, C, D, E) -> Res + 'a,
{
    open spec fn shape_mut(&self) -> Outline {
        function_outline::<V, (A, B, C, D, E), Res>()
    }

    open spec fn admits_mut(&self, facts: Map<Id, V>) -> bool {
        <(A, B, C, D, E)>::can_take(facts) && call_requires(*self, <(A, B, C, D, E)>::taken(facts))
    }

    open spec fn yields_mut(&self, before: Map<Id, V>, after: Map<Id, V>) -> bool {
        exists|result: Res|
            call_ensures(*self, <(A, B, C, D, E)>::taken(before), result) && after == result.inserted(
                <(A, B, C, D, E)>::remaining(before),
            )
    }

    fn into_transition_mut(self) -> (built: Result<TransitionMut<'a, V>, TransitionError>) {
        let produced = <Res as TransitionResult<V>>::produces()?;
        let required = <(A, B, C, D, E) as TransitionParam<V>>::required()?;
        let bound: Bound<Fun, (A, B, C, D, E), Res> = Bound { func: self, marker: PhantomData };
        Ok(TransitionMut::new(bound, required, produced))
    }
}

impl<V, A, B, C, D, E, F, Res, Fun> ProcedureMut<V> for Bound<Fun, (A, B, C, D, E, F), Res> where
    A: TransitionParam<V>,
    B: TransitionParam<V>,
    C: TransitionParam<V>,
    D: TransitionParam<V>,
    E: TransitionParam<V>,
    F: TransitionParam<V>,
    Res: TransitionResult<V>,
    Fun: FnMut(A, B, C, D, E, F) -> Res,
{
    open spec fn accepts_mut(&self, facts: Map<Id, V>) -> bool {
        <(A, B, C, D, E, F)>::can_take(facts) && call_requires(self.func, <(A, B, C, D, E, F)>::taken(facts))
    }

    open spec fn effect_mut(&self, before: Map<Id, V>, after: Map<Id, V>) -> bool {
        exists|result: Res|
            call_ensures(self.func, <(A, B, C, D, E, F)>::taken(before), result) && after == result.inserted(
                <(A, B, C, D, E, F)>::remaining(before),
            )
    }

    fn call_mut(&mut self, state: &mut State<V>) {
        let args = <(A, B, C, D, E, F)>::take_from(state);
        let result = (self.func)(args.0, args.1, args.2, args.3, args.4, args.5);
        result.insert_into(state);
    }
}

impl<'a, V, A, B, C, D, E, F, Res, Fun> IntoTransitionMut<'a, V, (A, B, C, D, E, F), ()> for Fun where
    A: TransitionParam<V> + 'a,
    B: TransitionParam<V> + 'a,
    C: TransitionParam<V> + 'a,
    D: TransitionParam<V> + 'a,
    E: TransitionParam<V> + 'a,
    F: TransitionParam<V> + 'a,
    Res: TransitionResult<V> + 'a,
    Fun: FnMut(A, B, C, D, E, F) -> Res + 'a,
{
    open spec fn shape_mut(&self) -> Outline {
        function_outline::<V, (A, B, C, D, E, F), Res>()
    }

    open spec fn admits_mut(&self, facts: Map<Id, V>) -> bool {
        <(A, B, C, D, E, F)>::can_take(facts) && call_requires(*self, <(A, B, C, D, E, F)>::taken(facts))
    }

    open spec fn yields_mut(&self, before: Map<Id, V>, after: Map<Id, V>) -> bool {
        exists|result: Res|
            call_ensures(*self, <(A, B, C, D, E, F)>::taken(before), result) && after == result.inserted(
                <(A, B, C, D, E, F)>::remaining(before),
            )
    }

    fn into_transition_mut(self) -> (built: Result<TransitionMut<'a, V>, TransitionError>) {
        let produced = <Res as TransitionResult<V>>::produces()?;
        let required = <(A, B, C, D, E, F) as TransitionParam<V>>::required()?;
        let bound: Bound<Fun, (A, B, C, D, E, F), Res> = Bound { func: self, marker: PhantomData };
        Ok(TransitionMut::new(bound, required, produced))
    }
}

impl<V, A, B, C, D, E, F, G, Res, Fun> ProcedureMut<V> for Bound<Fun, (A, B, C, D, E, F, G), Res> where
    A: TransitionParam<V>,
    B: TransitionParam<V>,
    C: TransitionParam<V>,
    D: TransitionParam<V>,
    E: TransitionParam<V>,
    F: TransitionParam<V>,
    G: TransitionParam<V>,
    Res: TransitionResult<V>,
    Fun: FnMut(A, B, C, D, E, F, G) -> Res,
{
    open spec fn accepts_mut(&self, facts: Map<Id, V>) -> bool {
        <(A, B, C, D, E, F, G)>::can_take(facts) && call_requires(self.func, <(A, B, C, D, E, F, G)>::taken(facts))
    }

    open spec fn effect_mut(&self, before: Map<Id, V>, after: Map<Id, V>) -> bool {
        exists|result: Res|
            call_ensures(self.func, <(A, B, C, D, E, F, G)>::taken(before), result) && after == result.inserted(
                <(A, B, C, D, E, F, G)>::remaining(before),
            )
    }

    fn call_mut(&mut self, state: &mut State<V>) {
        let args = <(A, B, C, D, E, F, G)>::take_from(state);
        let result = (self.func)(args.0, args.1, args.2, args.3, args.4, args.5, args.6);
        result.insert_into(state);
    }
}

impl<'a, V, A, B, C, D, E, F, G, Res, Fun> IntoTransitionMut<'a, V, (A, B, C, D, E, F, G), ()> for Fun where
    A: TransitionParam<V> + 'a,
    B: TransitionParam<V> + 'a,
    C: TransitionParam<V> + 'a,
    D: TransitionParam<V> + 'a,
    E: TransitionParam<V> + 'a,
    F: TransitionParam<V> + 'a,
    G: TransitionParam<V> + 'a,
    Res: TransitionResult<V> + 'a,
    Fun: FnMut(A, B, C, D, E, F, G) -> Res + 'a,
{
    open spec fn shape_mut(&self) -> Outline {
        function_outline::<V, (A, B, C, D, E, F, G), Res>()
    }

    open spec fn admits_mut(&self, facts: Map<Id, V>) -> bool {
        <(A, B, C, D, E, F, G)>::can_take(facts) && call_requires(*self, <(A, B, C, D, E, F, G)>::taken(facts))
    }

    open spec fn yields_mut(&self, before: Map<Id, V>, after: Map<Id, V>) -> bool {
        exists|result: Res|
            call_ensures(*self, <(A, B, C, D, E, F, G)>::taken(before), result) && after == result.inserted(
                <(A, B, C, D, E, F, G)>::remaining(before),
            )
    }

    fn into_transition_mut(self) -> (built: Result<TransitionMut<'a, V>, TransitionError>) {
        let produced = <Res as TransitionResult<V>>::produces()?;
        let required = <(A, B, C, D, E, F, G) as TransitionParam<V>>::required()?;
        let bound: Bound<Fun, (A, B, C, D, E, F, G), Res> = Bound { func: self, marker: PhantomData };
        Ok(TransitionMut::new(bound, required, produced))
    }
}

impl<V, A, B, C, D, E, F, G, H, Res, Fun> ProcedureMut<V> for Bound<Fun, (A, B, C, D, E, F, G, H), Res> where
    A: TransitionParam<V>,
    B: TransitionParam<V>,
    C: TransitionParam<V>,
    D: TransitionParam<V>,
    E: TransitionParam<V>,
    F: TransitionParam<V>,
    G: TransitionParam<V>,
    H: TransitionParam<V>,
    Res: TransitionResult<V>,
    Fun: FnMut(A, B, C, D, E, F, G, H) -> Res,
{
    open spec fn accepts_mut(&self, facts: Map<Id, V>) -> bool {
        <(A, B, C, D, E, F, G, H)>::can_take(facts) && call_requires(self.func, <(A, B, C, D, E, F, G, H)>::taken(facts))
    }

    open spec fn effect_mut(&self, before: Map<Id, V>, after: Map<Id, V>) -> bool {
        exists|result: Res|
            call_ensures(self.func, <(A, B, C, D, E, F, G, H)>::taken(before), result) && after == result.inserted(
                <(A, B, C, D, E, F, G, H)>::remaining(before),
            )
    }

    fn call_mut(&mut self, state: &mut State<V>) {
        let args = <(A, B, C, D, E, F, G, H)>::take_from(state);
        let result = (self.func)(args.0, args.1, args.2, args.3, args.4, args.5, args.6, args.7);
        result.insert_into(state);
    }
}

impl<'a, V, A, B, C, D, E, F, G, H, Res, Fun> IntoTransitionMut<'a, V, (A, B, C, D, E, F, G, H), ()> for Fun where
    A: TransitionParam<V> + 'a,
    B: TransitionParam<V> + 'a,
    C: TransitionParam<V> + 'a,
    D: TransitionParam<V> + 'a,
    E: TransitionParam<V> + 'a,
    F: TransitionParam<V> + 'a,
    G: TransitionParam<V> + 'a,
    H: TransitionParam<V> + 'a,
    Res: TransitionResult<V> + 'a,
    Fun: FnMut(A, B, C, D, E, F, G, H) -> Res + 'a,
{
    open spec fn shape_mut(&self) -> Outline {
        function_outline::<V, (A, B, C, D, E, F, G, H), Res>()
    }

    open spec fn admits_mut(&self, facts: Map<Id, V>) -> bool {
        <(A, B, C, D, E, F, G, H)>::can_take(facts) && call_requires(*self, <(A, B, C, D, E, F, G, H)>::taken(facts))
    }

    open spec fn yields_mut(&self, before: Map<Id, V>, after: Map<Id, V>) -> bool {
        exists|result: Res|
            call_ensures(*self, <(A, B, C, D, E, F, G, H)>::taken(before), result) && after == result.inserted(
                <(A, B, C, D, E, F, G, H)>::remaining(before),
            )
    }

    fn into_transition_mut(self) -> (built: Result<TransitionMut<'a, V>, TransitionError>) {
        let produced = <Res as TransitionResult<V>>::produces()?;
        let required = <(A, B, C, D, E, F, G, H) as TransitionParam<V>>::required()?;
        let bound: Bound<Fun, (A, B, C, D, E, F, G, H), Res> = Bound { func: self, marker: PhantomData };
        Ok(TransitionMut::new(bound, required, produced))
    }
}

} // verus!
