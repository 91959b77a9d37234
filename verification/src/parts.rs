use crate::truth::{fact_of, is_payload_of, Id, Truth};
use vstd::prelude::*;
use vstd::std_specs::iter::IteratorSpec;

verus! {

/// What can be taken apart into facts, each an identifier with its payload.
///
/// Implemented for every fact type, for `()` and for tuples of two and of
/// three such things.
pub trait Deconstructable<V>: Sized {
    /// The facts that the value is made of, from left to right.
    spec fn parts(self) -> Seq<(Id, V)>;

    /// Appends the facts that the value is made of to `collector`.
    fn collect_deconstructed(self, collector: &mut Vec<(Id, V)>)
        ensures
            final(collector)@ == old(collector)@ + self.parts(),
    ;

    /// The facts that the value is made of.
    fn deconstruct(self) -> (parts: Vec<(Id, V)>)
        ensures
            parts@ == self.parts(),
    {
        let mut collector = Vec::new();
        self.collect_deconstructed(&mut collector);
        assert(collector@ =~= self.parts());
        collector
    }
}

/// What can be built from a run of payloads, one for each of its facts.
///
/// Implemented for every fact type, for `()` and for tuples of two and of
/// three such things.
pub trait Requestable<V>: Sized {
    /// The identifiers of the facts that the value is built from, from left
    /// to right.
    spec fn id_list() -> Seq<Id>;

    /// Whether the value can be built from the first of `payloads`: there are
    /// as many as there are facts, each a payload of its fact's type.
    spec fn fits(payloads: Seq<V>) -> bool;

    /// The value that is built from the first of `payloads`.
    spec fn built(payloads: Seq<V>) -> Self;

    /// There are as many identifiers as payloads that building uses up.
    proof fn lemma_one_payload_each(payloads: Seq<V>)
        requires
            Self::fits(payloads),
        ensures
            Self::id_list().len() <= payloads.len(),
    ;

    /// Builds the value from the next payloads of `iter`, one for each fact.
    fn take_from<I>(iter: &mut I) -> (value: Self) where I: Iterator<Item = V>
        requires
            (*old(iter)).obeys_prophetic_iter_laws(),
            Self::fits((*old(iter)).remaining()),
        ensures
            value == Self::built((*old(iter)).remaining()),
            (*final(iter)).obeys_prophetic_iter_laws(),
            (*final(iter)).remaining() == (*old(iter)).remaining().skip(Self::id_list().len() as int),
    ;

    /// Appends the identifiers of the facts to `collector`.
    fn collect_ids(collector: &mut Vec<Id>)
        ensures
            final(collector)@ == old(collector)@ + Self::id_list(),
    ;

    /// The identifiers of the facts that the value is built from.
    fn ids() -> (ids: Vec<Id>)
        ensures
            ids@ == Self::id_list(),
    {
        let mut ids = Vec::new();
        Self::collect_ids(&mut ids);
        assert(ids@ =~= Self::id_list());
        ids
    }
}

impl<T: Truth> Deconstructable<T::Value> for T {
    open spec fn parts(self) -> Seq<(Id, T::Value)> {
        seq![(T::spec_id(), self.spec_wrap())]
    }

    fn collect_deconstructed(self, collector: &mut Vec<(Id, T::Value)>) {
        collector.push((T::id(), self.wrap()));
        assert(final(collector)@ =~= old(collector)@ + self.parts());
    }
}

impl<T: Truth> Requestable<T::Value> for T {
    open spec fn id_list() -> Seq<Id> {
        seq![T::spec_id()]
    }

    open spec fn fits(payloads: Seq<T::Value>) -> bool {
        payloads.len() >= 1 && is_payload_of::<T>(payloads[0])
    }

    open spec fn built(payloads: Seq<T::Value>) -> Self {
        fact_of::<T>(payloads[0])
    }

    proof fn lemma_one_payload_each(payloads: Seq<T::Value>) {
    }

    fn take_from<I>(iter: &mut I) -> (value: Self) where I: Iterator<Item = T::Value> {
        let next = iter.next();
        let fact = T::unwrap(next.unwrap());
        proof {
            T::wrap_is_injective(fact, fact_of::<T>((*old(iter)).remaining()[0]));
            assert((*old(iter)).remaining().drop_first() =~= (*old(iter)).remaining().skip(1));
        }
        fact
    }

    fn collect_ids(collector: &mut Vec<Id>) {
        collector.push(T::id());
        assert(final(collector)@ =~= old(collector)@ + Self::id_list());
    }
}

impl<V> Deconstructable<V> for () {
    open spec fn parts(self) -> Seq<(Id, V)> {
        Seq::empty()
    }

    fn collect_deconstructed(self, collector: &mut Vec<(Id, V)>) {
        assert(final(collector)@ =~= old(collector)@ + self.parts());
    }
}

impl<V> Requestable<V> for () {
    open spec fn id_list() -> Seq<Id> {
        Seq::empty()
    }

    open spec fn fits(payloads: Seq<V>) -> bool {
        true
    }

    open spec fn built(payloads: Seq<V>) -> Self {
        ()
    }

    proof fn lemma_one_payload_each(payloads: Seq<V>) {
    }

    fn take_from<I>(iter: &mut I) -> (value: Self) where I: Iterator<Item = V> {
        assert((*old(iter)).remaining().skip(0) =~= (*old(iter)).remaining());
        ()
    }

    fn collect_ids(collector: &mut Vec<Id>) {
        assert(final(collector)@ =~= old(collector)@ + Seq::<Id>::empty());
    }
}

impl<V, A, B> Deconstructable<V> for (A, B) where
    A: Deconstructable<V>,
    B: Deconstructable<V>,
{
    open spec fn parts(self) -> Seq<(Id, V)> {
        self.0.parts() + self.1.parts()
    }

    fn collect_deconstructed(self, collector: &mut Vec<(Id, V)>) {
        self.0.collect_deconstructed(collector);
        self.1.collect_deconstructed(collector);
        assert(final(collector)@ =~= old(collector)@ + self.parts());
    }
}

impl<V, A, B> Requestable<V> for (A, B) where
    A: Requestable<V>,
    B: Requestable<V>,
{
    open spec fn id_list() -> Seq<Id> {
        A::id_list() + B::id_list()
    }

    open spec fn fits(payloads: Seq<V>) -> bool {
        let after_a = payloads.skip(A::id_list().len() as int);
        &&& A::fits(payloads)
        &&& B::fits(after_a)
    }

    open spec fn built(payloads: Seq<V>) -> Self {
        let after_a = payloads.skip(A::id_list().len() as int);
        (A::built(payloads), B::built(after_a))
    }

    proof fn lemma_one_payload_each(payloads: Seq<V>) {
        let after_a = payloads.skip(A::id_list().len() as int);
        A::lemma_one_payload_each(payloads);
        B::lemma_one_payload_each(after_a);
    }

    fn take_from<I>(iter: &mut I) -> (value: Self) where I: Iterator<Item = V> {
        proof {
            Self::lemma_one_payload_each((*old(iter)).remaining());
            A::lemma_one_payload_each((*old(iter)).remaining());
        }
        let a = A::take_from(iter);
        let b = B::take_from(iter);
        assert((*final(iter)).remaining() =~= (*old(iter)).remaining().skip(
            Self::id_list().len() as int,
        ));
        (a, b)
    }

    fn collect_ids(collector: &mut Vec<Id>) {
        A::collect_ids(collector);
        B::collect_ids(collector);
        assert(final(collector)@ =~= old(collector)@ + Self::id_list());
    }
}

impl<V, A, B, C> Deconstructable<V> for (A, B, C) where
    A: Deconstructable<V>,
    B: Deconstructable<V>,
    C: Deconstructable<V>,
{
    open spec fn parts(self) -> Seq<(Id, V)> {
        self.0.parts() + self.1.parts() + self.2.parts()
    }

    fn collect_deconstructed(self, collector: &mut Vec<(Id, V)>) {
        self.0.collect_deconstructed(collector);
        self.1.collect_deconstructed(collector);
        self.2.collect_deconstructed(collector);
        assert(final(collector)@ =~= old(collector)@ + self.parts());
    }
}

impl<V, A, B, C> Requestable<V> for (A, B, C) where
    A: Requestable<V>,
    B: Requestable<V>,
    C: Requestable<V>,
{
    open spec fn id_list() -> Seq<Id> {
        A::id_list() + B::id_list() + C::id_list()
    }

    open spec fn fits(payloads: Seq<V>) -> bool {
        let after_a = payloads.skip(A::id_list().len() as int);
        let after_b = after_a.skip(B::id_list().len() as int);
        &&& A::fits(payloads)
        &&& B::fits(after_a)
        &&& C::fits(after_b)
    }

    open spec fn built(payloads: Seq<V>) -> Self {
        let after_a = payloads.skip(A::id_list().len() as int);
        let after_b = after_a.skip(B::id_list().len() as int);
        (A::built(payloads), B::built(after_a), C::built(after_b))
    }

    proof fn lemma_one_payload_each(payloads: Seq<V>) {
        let after_a = payloads.skip(A::id_list().len() as int);
        let after_b = after_a.skip(B::id_list().len() as int);
        A::lemma_one_payload_each(payloads);
        B::lemma_one_payload_each(after_a);
        C::lemma_one_payload_each(after_b);
    }

    fn take_from<I>(iter: &mut I) -> (value: Self) where I: Iterator<Item = V> {
        proof {
            let payloads = (*old(iter)).remaining();
            let after_a = payloads.skip(A::id_list().len() as int);
            Self::lemma_one_payload_each(payloads);
            A::lemma_one_payload_each(payloads);
            B::lemma_one_payload_each(after_a);
        }
        let a = A::take_from(iter);
        let b = B::take_from(iter);
        let c = C::take_from(iter);
        assert((*final(iter)).remaining() =~= (*old(iter)).remaining().skip(
            Self::id_list().len() as int,
        ));
        (a, b, c)
    }

    fn collect_ids(collector: &mut Vec<Id>) {
        A::collect_ids(collector);
        B::collect_ids(collector);
        C::collect_ids(collector);
        assert(final(collector)@ =~= old(collector)@ + Self::id_list());
    }
}

} // verus!
