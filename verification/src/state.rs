use crate::truth::{held, holds, lemma_fact_of_wrap, Id, Truth};
use std::collections::HashMap;
use std::collections::HashSet;
use vstd::prelude::*;

verus! {

/// The state store: at most one payload under each fact identifier.
pub struct State<V> {
    facts: HashMap<Id, V>,
}

impl<V> View for State<V> {
    type V = Map<Id, V>;

    closed spec fn view(&self) -> Map<Id, V> {
        self.facts@
    }
}

impl<V> State<V> {
    /// Creates an empty store.
    pub fn new() -> (state: Self)
        ensures
            state@ == Map::<Id, V>::empty(),
    {
        State { facts: HashMap::new() }
    }

    /// Stores `value` under the identifier of `T`, in place of whatever was
    /// stored there.
    pub fn insert<T: Truth<Value = V>>(&mut self, value: T)
        ensures
            final(self)@ == old(self)@.insert(T::spec_id(), value.spec_wrap()),
    {
        self.facts.insert(T::id(), value.wrap());
    }

    /// Removes the fact of type `T` and returns it.
    pub fn take<T: Truth<Value = V>>(&mut self) -> (fact: T)
        requires
            holds::<T>(old(self)@),
        ensures
            fact == held::<T>(old(self)@),
            final(self)@ == old(self)@.remove(T::spec_id()),
    {
        let id = T::id();
        let payload = self.facts.remove(&id);
        let fact = T::unwrap(payload.unwrap());
        proof {
            T::wrap_is_injective(fact, held::<T>(old(self)@));
        }
        fact
    }

    /// Removes the fact of type `T` and returns it, or returns `None` where
    /// nothing is stored under the identifier of `T`.
    pub fn take_optional<T: Truth<Value = V>>(&mut self) -> (fact: Option<T>)
        requires
            old(self)@.contains_key(T::spec_id()) ==> holds::<T>(old(self)@),
        ensures
            fact == if old(self)@.contains_key(T::spec_id()) {
                Some(held::<T>(old(self)@))
            } else {
                None
            },
            final(self)@ == old(self)@.remove(T::spec_id()),
    {
        let id = T::id();
        match self.facts.remove(&id) {
            Some(payload) => {
                let fact = T::unwrap(payload);
                proof {
                    T::wrap_is_injective(fact, held::<T>(old(self)@));
                }
                Some(fact)
            },
            None => {
                assert(final(self)@ =~= old(self)@.remove(T::spec_id()));
                None
            },
        }
    }

    /// Whether something is stored under the identifier of `T`.
    pub fn contains<T: Truth<Value = V>>(&self) -> (present: bool)
        ensures
            present == self@.contains_key(T::spec_id()),
    {
        let id = T::id();
        self.facts.contains_key(&id)
    }

    /// Whether something is stored under every identifier of `ids`.
    pub fn contains_all(&self, ids: &HashSet<Id>) -> (present: bool)
        ensures
            present == ids@.subset_of(self@.dom()),
    {
        for id in it: ids.iter()
            invariant
                it.seq().unref().to_set() == ids@,
                forall|i: int|
                    0 <= i < it.index() ==> self@.contains_key(#[trigger] it.seq().unref()[i]),
        {
            assert(it.seq().unref()[it.index()] == *id);
            if !self.facts.contains_key(id) {
                assert(ids@.contains(*id));
                return false;
            }
        }
        true
    }

    /// Whether something is stored under `id`.
    pub fn contains_id(&self, id: Id) -> (present: bool)
        ensures
            present == self@.contains_key(id),
    {
        self.facts.contains_key(&id)
    }
}

/// A fact that was inserted is held, and taking it gives it back and leaves
/// nothing under its identifier.
pub proof fn lemma_insert_then_take<T: Truth>(facts: Map<Id, T::Value>, value: T)
    ensures
        holds::<T>(facts.insert(T::spec_id(), value.spec_wrap())),
        held::<T>(facts.insert(T::spec_id(), value.spec_wrap())) == value,
        !facts.insert(T::spec_id(), value.spec_wrap()).remove(T::spec_id()).contains_key(
            T::spec_id(),
        ),
{
    lemma_fact_of_wrap(value);
}

/// Facts with different identifiers do not disturb each other: inserting or
/// removing a fact of type `T` changes nothing for the type `U`.
pub proof fn lemma_other_fact_untouched<T: Truth, U: Truth<Value = T::Value>>(
    facts: Map<Id, T::Value>,
    value: T,
)
    requires
        T::spec_id() != U::spec_id(),
    ensures
        holds::<U>(facts.insert(T::spec_id(), value.spec_wrap())) == holds::<U>(facts),
        holds::<U>(facts.remove(T::spec_id())) == holds::<U>(facts),
        holds::<U>(facts) ==> held::<U>(facts.insert(T::spec_id(), value.spec_wrap())) == held::<
            U,
        >(facts) && held::<U>(facts.remove(T::spec_id())) == held::<U>(facts),
{
}

} // verus!
