use crate::dictionary::{Dictionary, Tree};
use crate::error::TransitionError;
use crate::statemachine::StateMachine;
use crate::transition::{IntoTransitionMut, TransitionMut};
use crate::truth::Id;
use std::hash::Hash;
use vstd::pervasive::cloned;
use vstd::prelude::*;
use vstd::std_specs::hash::obeys_key_model;

verus! {

/// A dictionary of transitions, filed under names and in folders.
pub type TransitionDictionary<'a, K, V> = Dictionary<K, TransitionMut<'a, V>>;

/// The part of `source` that can run when the facts `present` are in the
/// state: the transitions whose required facts are all present, each under
/// its key, and of the folders those in which something is left, each cut
/// down in the same way.
pub open spec fn runnable<'a, 'b, K, V>(
    source: Tree<K, TransitionMut<'a, V>>,
    present: Set<Id>,
) -> Tree<K, &'b TransitionMut<'a, V>>
    decreases source,
{
    Tree {
        values: Map::new(
            |key: K|
                source.values.contains_key(key) && source.values[key].requirement().subset_of(
                    present,
                ),
            |key: K| &source.values[key],
        ),
        folders: Map::new(
            |key: K|
                source.folders.contains_key(key) && !runnable::<K, V>(
                    source.folders[key],
                    present,
                ).is_empty(),
            |key: K|
                if source.folders.contains_key(key) {
                    runnable::<K, V>(source.folders[key], present)
                } else {
                    arbitrary()
                },
        ),
    }
}

impl<'a, K: Hash + Eq + Clone, V> TransitionDictionary<'a, K, V> {
    /// The transitions that can run on the state of `state`, under their keys
    /// and in their folders; a folder in which none can run is left out.
    ///
    /// A key must clone to a key that is equal to it.
    pub fn runnable_transitions<'b>(&'b self, state: &StateMachine<V>) -> (runnables: Dictionary<
        K,
        &'b TransitionMut<'a, V>,
    >)
        requires
            obeys_key_model::<K>(),
            forall|key: K, copy: K| cloned(key, copy) ==> key == copy,
        ensures
            runnables@ == runnable::<K, V>(self@, state@.dom()),
        decreases self,
    {
        proof {
            self.lemma_view();
        }
        let ghost present = state@.dom();
        let ghost goal = runnable::<K, V>(self@, present);
        let mut runnables: Dictionary<K, &'b TransitionMut<'a, V>> = Dictionary::new();
        for entry in it: self.entries.iter()
            invariant
                obeys_key_model::<K>(),
                forall|key: K, copy: K| cloned(key, copy) ==> key == copy,
                present == state@.dom(),
                goal == runnable::<K, V>(self@, present),
                self@.values == self.entries@,
                forall|i: int|
                    0 <= i < it.seq().len() ==> self.entries@.contains_key(*it.seq()[i].0)
                        && self.entries@[*it.seq()[i].0] == *(#[trigger] it.seq()[i]).1,
                runnables@.folders == Map::<K, Tree<K, &'b TransitionMut<'a, V>>>::empty(),
                forall|key: K| #[trigger]
                    runnables@.values.contains_key(key) ==> goal.values.contains_key(key)
                        && runnables@.values[key] == goal.values[key],
                forall|key: K| #[trigger]
                    goal.values.contains_key(key) ==> runnables@.values.contains_key(key)
                        || exists|i: int|
                        it.index() <= i < it.seq().len() && *(#[trigger] it.seq()[i]).0 == key,
        {
            let (key, transition) = entry;
            if state.can_run_transition_mut(transition) {
                let copy = key.clone();
                assert(cloned(*key, copy));
                runnables.insert(copy, transition);
            }
        }
        assert(runnables@.values =~= goal.values);
        for entry in it: self.folders.iter()
            invariant
                obeys_key_model::<K>(),
                forall|key: K, copy: K| cloned(key, copy) ==> key == copy,
                present == state@.dom(),
                goal == runnable::<K, V>(self@, present),
                self@.folders.dom() == self.folders@.dom(),
                forall|key: K|
                    self.folders@.contains_key(key) ==> #[trigger] self@.folders[key]
                        == self.folders@[key]@,
                forall|i: int|
                    0 <= i < it.seq().len() ==> self.folders@.contains_key(*it.seq()[i].0)
                        && self.folders@[*it.seq()[i].0] == *(#[trigger] it.seq()[i]).1,
                runnables@.values == goal.values,
                forall|key: K| #[trigger]
                    runnables@.folders.contains_key(key) ==> goal.folders.contains_key(key)
                        && runnables@.folders[key] == goal.folders[key],
                forall|key: K| #[trigger]
                    goal.folders.contains_key(key) ==> runnables@.folders.contains_key(key)
                        || exists|i: int|
                        it.index() <= i < it.seq().len() && *(#[trigger] it.seq()[i]).0 == key,
        {
            let (key, folder) = entry;
            let inner = folder.runnable_transitions(state);
            if !(inner.no_values() && inner.no_folders()) {
                let copy = key.clone();
                assert(cloned(*key, copy));
                runnables.insert_folder(copy, inner);
            }
        }
        assert(runnables@.folders =~= goal.folders);
        runnables
    }

    /// Builds the transition and files it under `key`, in place of the
    /// transition that was there, which is returned. Where the transition
    /// cannot be built the dictionary stays as it is.
    pub fn add_transition<T, In, Marker>(&mut self, key: K, transition: T) -> (previous: Result<
        Option<TransitionMut<'a, V>>,
        TransitionError,
    >) where T: IntoTransitionMut<'a, V, In, Marker>
        requires
            obeys_key_model::<K>(),
        ensures
            match previous {
                Ok(replaced) => {
                    let built = final(self)@.values[key];
                    &&& replaced == old(self)@.value_at(key)
                    &&& final(self)@ == (Tree {
                        values: old(self)@.values.insert(key, built),
                        folders: old(self)@.folders,
                    })
                    &&& transition.shape_mut() == built.outline()
                    &&& forall|facts: Map<Id, V>| #[trigger]
                        built.accepts(facts) == transition.admits_mut(facts)
                    &&& forall|before: Map<Id, V>, after: Map<Id, V>| #[trigger]
                        built.effect(before, after) == transition.yields_mut(before, after)
                },
                Err(error) => {
                    &&& final(self)@ == old(self)@
                    &&& transition.shape_mut() == Err::<(Set<Id>, Set<Id>), TransitionError>(error)
                },
            },
    {
        let built = transition.into_transition_mut()?;
        Ok(self.insert(key, built))
    }
}

impl<'a, K: Hash + Eq, V> Dictionary<K, TransitionMut<'a, V>> {
    /// Runs the transition under `key` on the state of `state`, without a look
    /// at the facts that it requires. Returns `None`, and runs nothing, where
    /// no transition is filed under `key`. The dictionary keeps its keys; the
    /// transition that ran may have changed what it keeps for itself.
    pub fn run(&mut self, key: &K, state: &mut StateMachine<V>) -> (ran: Option<()>)
        requires
            obeys_key_model::<K>(),
            old(self)@.values.contains_key(*key) ==> old(self)@.values[*key].accepts(old(state)@),
        ensures
            ran is Some <==> old(self)@.values.contains_key(*key),
            ran is None ==> final(state)@ == old(state)@ && final(self)@ == old(self)@,
            ran is Some ==> {
                let before = old(self)@.values[*key];
                let after = final(self)@.values[*key];
                &&& before.effect(old(state)@, final(state)@)
                &&& final(self)@ == (Tree {
                    values: old(self)@.values.insert(*key, after),
                    folders: old(self)@.folders,
                })
                &&& after.requirement() == before.requirement()
                &&& after.production() == before.production()
                &&& forall|facts: Map<Id, V>|
                    before.accepts(facts) ==> #[trigger] after.accepts(facts)
                &&& forall|from: Map<Id, V>, to: Map<Id, V>| #[trigger]
                    after.effect(from, to) ==> before.effect(from, to)
            },
    {
        if let Some(transition) = self.get_mut(key) {
            state.run_ref_mut_unchecked(transition);
            Some(())
        } else {
            None
        }
    }
}

} // verus!
