use vstd::prelude::*;

verus! {

/// The identifier of a fact type: the key under which its one value is stored.
pub type Id = u64;

/// A fact type: a type whose values can be stored in a state.
///
/// The implementor chooses the identifier and says how a value is packed into
/// the payload type of the store and unpacked again. Two fact types that are
/// kept in one store must not share an identifier.
pub trait Truth: Sized {
    /// The payload type of the stores that can hold this fact.
    type Value;

    /// The identifier of this fact type.
    spec fn spec_id() -> Id;

    /// The payload that stands for `self` in a store.
    spec fn spec_wrap(self) -> Self::Value;

    /// Distinct facts have distinct payloads.
    proof fn wrap_is_injective(a: Self, b: Self)
        requires
            a.spec_wrap() == b.spec_wrap(),
        ensures
            a == b,
    ;

    /// Returns the identifier of this fact type, the same at every call.
    fn id() -> (id: Id)
        ensures
            id == Self::spec_id(),
    ;

    /// Packs the fact into a payload.
    fn wrap(self) -> (payload: Self::Value)
        ensures
            payload == self.spec_wrap(),
    ;

    /// Unpacks a payload that was made from a fact of this type.
    fn unwrap(payload: Self::Value) -> (fact: Self)
        requires
            exists|fact: Self| fact.spec_wrap() == payload,
        ensures
            fact.spec_wrap() == payload,
    ;
}

/// Whether `payload` was made from a fact of type `T`.
pub open spec fn is_payload_of<T: Truth>(payload: T::Value) -> bool {
    exists|fact: T| fact.spec_wrap() == payload
}

/// The fact of type `T` that `payload` was made from.
pub open spec fn fact_of<T: Truth>(payload: T::Value) -> T {
    choose|fact: T| fact.spec_wrap() == payload
}

/// Whether `facts` holds a fact of type `T`: something is stored under the
/// identifier of `T`, and it is a payload of `T`.
pub open spec fn holds<T: Truth>(facts: Map<Id, T::Value>) -> bool {
    facts.contains_key(T::spec_id()) && is_payload_of::<T>(facts[T::spec_id()])
}

/// The fact of type `T` that `facts` holds.
pub open spec fn held<T: Truth>(facts: Map<Id, T::Value>) -> T {
    fact_of::<T>(facts[T::spec_id()])
}

/// Unpacking undoes packing.
pub proof fn lemma_fact_of_wrap<T: Truth>(fact: T)
    ensures
        is_payload_of::<T>(fact.spec_wrap()),
        fact_of::<T>(fact.spec_wrap()) == fact,
{
    assert(is_payload_of::<T>(fact.spec_wrap()));
    T::wrap_is_injective(fact_of::<T>(fact.spec_wrap()), fact);
}

} // verus!
