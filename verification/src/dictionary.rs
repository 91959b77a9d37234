use std::collections::hash_map::{Iter, IterMut};
use std::collections::HashMap;
use std::hash::Hash;
use vstd::prelude::*;
use vstd::std_specs::hash::obeys_key_model;
use vstd::std_specs::iter::IteratorSpec;

verus! {

/// What a dictionary holds: values by their keys, and folders by their keys,
/// each folder again such a tree.
#[verifier::reject_recursive_types(K)]
pub struct Tree<K, V> {
    pub values: Map<K, V>,
    pub folders: Map<K, Tree<K, V>>,
}

impl<K, V> Tree<K, V> {
    /// The tree without values and without folders.
    pub open spec fn empty() -> Self {
        Tree { values: Map::empty(), folders: Map::empty() }
    }

    /// Whether the tree has neither a value nor a folder of its own.
    pub open spec fn is_empty(self) -> bool {
        self.values.is_empty() && self.folders.is_empty()
    }

    /// The value under `key`, if there is one.
    pub open spec fn value_at(self, key: K) -> Option<V> {
        if self.values.contains_key(key) {
            Some(self.values[key])
        } else {
            None
        }
    }

    /// The folder under `key`, if there is one.
    pub open spec fn folder_at(self, key: K) -> Option<Tree<K, V>> {
        if self.folders.contains_key(key) {
            Some(self.folders[key])
        } else {
            None
        }
    }

    /// The value at the end of `path`: every key but the last names a folder,
    /// the last one a value in the innermost folder.
    pub open spec fn lookup(self, path: Seq<K>) -> Option<V>
        decreases path.len(),
    {
        if path.len() <= 1 {
            if path.len() == 1 {
                self.value_at(path[0])
            } else {
                None
            }
        } else if self.folders.contains_key(path[0]) {
            self.folders[path[0]].lookup(path.subrange(1, path.len() as int))
        } else {
            None
        }
    }

    /// The tree with `value` at the end of `path`, where the folders on the
    /// path are there; the tree itself where they are not.
    pub open spec fn with_value(self, path: Seq<K>, value: V) -> Self
        decreases path.len(),
    {
        if path.len() <= 1 {
            if path.len() == 1 {
                Tree { values: self.values.insert(path[0], value), folders: self.folders }
            } else {
                self
            }
        } else if self.folders.contains_key(path[0]) {
            Tree {
                values: self.values,
                folders: self.folders.insert(
                    path[0],
                    self.folders[path[0]].with_value(path.subrange(1, path.len() as int), value),
                ),
            }
        } else {
            self
        }
    }

    /// The tree without the value at the end of `path`.
    pub open spec fn without(self, path: Seq<K>) -> Self
        decreases path.len(),
    {
        if path.len() <= 1 {
            if path.len() == 1 {
                Tree { values: self.values.remove(path[0]), folders: self.folders }
            } else {
                self
            }
        } else if self.folders.contains_key(path[0]) {
            Tree {
                values: self.values,
                folders: self.folders.insert(
                    path[0],
                    self.folders[path[0]].without(path.subrange(1, path.len() as int)),
                ),
            }
        } else {
            self
        }
    }
}

/// A dictionary of values and of nested dictionaries, the folders.
///
/// A value is found under a key, or under a path of keys. Values and folders
/// have their keys apart: one key can name both a value and a folder.
///
/// The contracts ask for a key type whose hashing and equality agree with each
/// other and with `==` in contracts, which is what `obeys_key_model` says.
pub struct Dictionary<K: Hash + Eq, V> {
    pub(crate) entries: HashMap<K, V>,
    pub(crate) folders: HashMap<K, Dictionary<K, V>>,
}

impl<K: Hash + Eq, V> View for Dictionary<K, V> {
    type V = Tree<K, V>;

    closed spec fn view(&self) -> Tree<K, V> {
        self.tree()
    }
}

/// `HashMap::get_mut`: a mutable reference to the value under `key`. The map
/// after the borrow is the map before it with whatever the reference is left
/// holding under `key`; without a value under `key` the map stays as it is.
#[verifier::external_body]
fn value_mut<'a, K: Hash + Eq, V>(map: &'a mut HashMap<K, V>, key: &K) -> (value: Option<
    &'a mut V,
>)
    ensures
        obeys_key_model::<K>() ==> (value is Some <==> old(map)@.contains_key(*key)),
        obeys_key_model::<K>() ==> (value matches Some(found) ==> *found == old(map)@[*key]
            && final(map)@ == old(map)@.insert(*key, *final(found))),
        obeys_key_model::<K>() ==> (value is None ==> final(map)@ == old(map)@),
{
    map.get_mut(key)
}

/// The iterator that `HashMap::iter_mut` returns.
#[verifier::external_type_specification]
#[verifier::external_body]
#[verifier::reject_recursive_types(K)]
#[verifier::reject_recursive_types(V)]
pub struct ExIterMut<'a, K: 'a, V: 'a>(std::collections::hash_map::IterMut<'a, K, V>);

/// `HashMap::iter_mut`: an iterator that visits every pair of the map once,
/// in no particular order, each as the key and a mutable reference to the
/// value. `remaining()` is the run of these pairs. The map after the borrow
/// has the keys it had, and under each key what the reference to its value is
/// left holding.
#[verifier::external_body]
fn values_mut<'a, K: Hash + Eq, V>(map: &'a mut HashMap<K, V>) -> (items: IterMut<'a, K, V>)
    ensures
        obeys_key_model::<K>() ==> final(map)@.dom() == old(map)@.dom(),
        obeys_key_model::<K>() ==> items.remaining().len() == old(map)@.len(),
        obeys_key_model::<K>() ==> forall|i: int|
            0 <= i < items.remaining().len() ==> {
                let item = #[trigger] items.remaining()[i];
                &&& old(map)@.contains_key(*item.0)
                &&& *item.1 == old(map)@[*item.0]
                &&& final(map)@[*item.0] == *final(item.1)
            },
        obeys_key_model::<K>() ==> forall|i: int, j: int|
            0 <= i < j < items.remaining().len() ==> *(#[trigger] items.remaining()[i]).0 != *(
            #[trigger] items.remaining()[j]).0,
        obeys_key_model::<K>() ==> forall|key: K| #[trigger]
            old(map)@.contains_key(key) ==> exists|i: int|
                0 <= i < items.remaining().len() && *(#[trigger] items.remaining()[i]).0 == key,
{
    map.iter_mut()
}

impl<K: Hash + Eq, V> Dictionary<K, V> {
    /// What the dictionary holds.
    pub closed spec fn tree(&self) -> Tree<K, V>
        decreases self,
    {
        Tree {
            values: self.entries@,
            folders: Map::new(
                |key: K| self.folders@.contains_key(key),
                |key: K|
                    if self.folders@.contains_key(key) {
                        self.folders@[key].tree()
                    } else {
                        arbitrary()
                    },
            ),
        }
    }

    /// The tree in terms of the two maps.
    pub(crate) proof fn lemma_view(&self)
        ensures
            self@.values == self.entries@,
            self@.folders.dom() == self.folders@.dom(),
            forall|key: K|
                self.folders@.contains_key(key) ==> #[trigger] self@.folders[key]
                    == self.folders@[key]@,
    {
        assert(self.tree().folders.dom() =~= self.folders@.dom());
    }

    proof fn lemma_values_changed(&self)
        ensures
            forall|after: Self|
                after.folders@ == self.folders@ ==> #[trigger] after@ == (Tree {
                    values: after.entries@,
                    folders: self@.folders,
                }),
    {
        assert forall|after: Self| after.folders@ == self.folders@ implies #[trigger] after@
            == (Tree { values: after.entries@, folders: self@.folders }) by {
            self.lemma_view();
            after.lemma_view();
            assert(after@.folders =~= self@.folders);
        }
    }

    proof fn lemma_folder_changed(&self, key: K)
        ensures
            forall|after: Self, folder: Self|
                #![trigger after@, self.folders@.insert(key, folder)]
                after.entries@ == self.entries@ && after.folders@ == self.folders@.insert(
                    key,
                    folder,
                ) ==> after@ == (Tree {
                    values: self@.values,
                    folders: self@.folders.insert(key, folder@),
                }),
    {
        assert forall|after: Self, folder: Self|
            #![trigger after@, self.folders@.insert(key, folder)]
            after.entries@ == self.entries@ && after.folders@ == self.folders@.insert(
                key,
                folder,
            ) implies after@ == (Tree {
            values: self@.values,
            folders: self@.folders.insert(key, folder@),
        }) by {
            self.lemma_view();
            after.lemma_view();
            assert(after@.folders =~= self@.folders.insert(key, folder@));
        }
    }

    proof fn lemma_folders_changed(&self)
        ensures
            forall|after: Self|
                after.entries@ == self.entries@ ==> (#[trigger] after@).values == self@.values
                    && after@.folders.dom() == after.folders@.dom(),
            forall|after: Self, key: K|
                after.folders@.contains_key(key) ==> #[trigger] after@.folders[key]
                    == after.folders@[key]@,
    {
        assert forall|after: Self| after.entries@ == self.entries@ implies (#[trigger] after@).values
            == self@.values && after@.folders.dom() == after.folders@.dom() by {
            self.lemma_view();
            after.lemma_view();
        }
        assert forall|after: Self, key: K| after.folders@.contains_key(key) implies #[trigger] after@.folders[key]
            == after.folders@[key]@ by {
            after.lemma_view();
        }
    }

    /// Creates a dictionary without values and without folders.
    pub fn new() -> (dict: Self)
        ensures
            dict@ == Tree::<K, V>::empty(),
    {
        let dict = Dictionary { entries: HashMap::new(), folders: HashMap::new() };
        proof {
            dict.lemma_view();
            assert(dict@.folders =~= Map::<K, Tree<K, V>>::empty());
        }
        dict
    }

    /// Puts `value` under `key` and returns the value that was there.
    pub fn insert(&mut self, key: K, value: V) -> (previous: Option<V>)
        requires
            obeys_key_model::<K>(),
        ensures
            final(self)@ == (Tree {
                values: old(self)@.values.insert(key, value),
                folders: old(self)@.folders,
            }),
            previous == old(self)@.value_at(key),
    {
        proof {
            self.lemma_view();
        }
        let previous = self.entries.insert(key, value);
        proof {
            self.lemma_view();
            assert(self@.folders =~= old(self)@.folders);
        }
        previous
    }

    /// Puts `folder` under `key` and returns the folder that was there.
    pub fn insert_folder(&mut self, key: K, folder: Dictionary<K, V>) -> (previous: Option<
        Dictionary<K, V>,
    >)
        requires
            obeys_key_model::<K>(),
        ensures
            final(self)@ == (Tree {
                values: old(self)@.values,
                folders: old(self)@.folders.insert(key, folder@),
            }),
            match previous {
                Some(replaced) => old(self)@.folder_at(key) == Some(replaced@),
                None => old(self)@.folder_at(key) is None,
            },
    {
        proof {
            self.lemma_view();
        }
        let previous = self.folders.insert(key, folder);
        proof {
            self.lemma_view();
            assert(self@.folders =~= old(self)@.folders.insert(key, folder@));
        }
        previous
    }

    /// The value under `key`.
    pub fn get(&self, key: &K) -> (value: Option<&V>)
        requires
            obeys_key_model::<K>(),
        ensures
            match value {
                Some(found) => self@.value_at(*key) == Some(*found),
                None => self@.value_at(*key) is None,
            },
    {
        proof {
            self.lemma_view();
        }
        self.entries.get(key)
    }

    /// A mutable reference to the value under `key`. What the reference is
    /// left holding is the value under `key` afterwards.
    pub fn get_mut(&mut self, key: &K) -> (value: Option<&mut V>)
        requires
            obeys_key_model::<K>(),
        ensures
            match value {
                Some(found) => old(self)@.value_at(*key) == Some(*found) && final(self)@ == (Tree {
                    values: old(self)@.values.insert(*key, *final(found)),
                    folders: old(self)@.folders,
                }),
                None => old(self)@.value_at(*key) is None && final(self)@ == old(self)@,
            },
    {
        proof {
            self.lemma_view();
            self.lemma_values_changed();
        }
        value_mut(&mut self.entries, key)
    }

    /// The folder under `key`.
    pub fn get_folder(&self, key: &K) -> (folder: Option<&Dictionary<K, V>>)
        requires
            obeys_key_model::<K>(),
        ensures
            match folder {
                Some(found) => self@.folder_at(*key) == Some(found@),
                None => self@.folder_at(*key) is None,
            },
    {
        proof {
            self.lemma_view();
        }
        self.folders.get(key)
    }

    /// A mutable reference to the folder under `key`. What the reference is
    /// left holding is the folder under `key` afterwards.
    pub fn get_folder_mut(&mut self, key: &K) -> (folder: Option<&mut Dictionary<K, V>>)
        requires
            obeys_key_model::<K>(),
        ensures
            match folder {
                Some(found) => old(self)@.folder_at(*key) == Some(found@) && final(self)@ == (Tree {
                    values: old(self)@.values,
                    folders: old(self)@.folders.insert(*key, final(found)@),
                }),
                None => old(self)@.folder_at(*key) is None && final(self)@ == old(self)@,
            },
    {
        proof {
            self.lemma_view();
            self.lemma_values_changed();
            self.lemma_folder_changed(*key);
        }
        value_mut(&mut self.folders, key)
    }

    /// The value at the end of the path `keys`.
    pub fn get_deep(&self, keys: &[K]) -> (value: Option<&V>)
        requires
            obeys_key_model::<K>(),
            keys@.len() >= 1,
        ensures
            match value {
                Some(found) => self@.lookup(keys@) == Some(*found),
                None => self@.lookup(keys@) is None,
            },
        decreases keys@.len(),
    {
        if keys.len() == 1 {
            self.get(&keys[0])
        } else {
            if let Some(folder) = self.get_folder(&keys[0]) {
                let rest = vstd::slice::slice_subrange(keys, 1, keys.len());
                folder.get_deep(rest)
            } else {
                None
            }
        }
    }

    /// A mutable reference to the value at the end of the path `keys`. What
    /// the reference is left holding is the value at the end of the path
    /// afterwards.
    pub fn get_deep_mut(&mut self, keys: &[K]) -> (value: Option<&mut V>)
        requires
            obeys_key_model::<K>(),
            keys@.len() >= 1,
        ensures
            match value {
                Some(found) => old(self)@.lookup(keys@) == Some(*found) && final(self)@ == old(
                    self,
                )@.with_value(keys@, *final(found)),
                None => old(self)@.lookup(keys@) is None && final(self)@ == old(self)@,
            },
        decreases keys@.len(),
    {
        proof {
            assert forall|folders: Map<K, Tree<K, V>>, key: K|
                folders.contains_key(key) implies #[trigger] folders.insert(key, folders[key])
                == folders by {
                assert(folders.insert(key, folders[key]) =~= folders);
            }
        }
        if keys.len() == 1 {
            self.get_mut(&keys[0])
        } else {
            if let Some(folder) = self.get_folder_mut(&keys[0]) {
                let rest = vstd::slice::slice_subrange(keys, 1, keys.len());
                folder.get_deep_mut(rest)
            } else {
                None
            }
        }
    }

    /// Takes the value under `key` out of the dictionary.
    pub fn remove(&mut self, key: &K) -> (removed: Option<V>)
        requires
            obeys_key_model::<K>(),
        ensures
            removed == old(self)@.value_at(*key),
            final(self)@ == (Tree {
                values: old(self)@.values.remove(*key),
                folders: old(self)@.folders,
            }),
    {
        proof {
            self.lemma_view();
        }
        let removed = self.entries.remove(key);
        proof {
            self.lemma_view();
            assert(self@.folders =~= old(self)@.folders);
        }
        removed
    }

    /// Takes the folder under `key` out of the dictionary.
    pub fn remove_folder(&mut self, key: &K) -> (removed: Option<Dictionary<K, V>>)
        requires
            obeys_key_model::<K>(),
        ensures
            match removed {
                Some(folder) => old(self)@.folder_at(*key) == Some(folder@),
                None => old(self)@.folder_at(*key) is None,
            },
            final(self)@ == (Tree {
                values: old(self)@.values,
                folders: old(self)@.folders.remove(*key),
            }),
    {
        proof {
            self.lemma_view();
        }
        let removed = self.folders.remove(key);
        proof {
            self.lemma_view();
            assert(self@.folders =~= old(self)@.folders.remove(*key));
        }
        removed
    }

    /// Takes the value at the end of the path `keys` out of the dictionary.
    pub fn remove_deep(&mut self, keys: &[K]) -> (removed: Option<V>)
        requires
            obeys_key_model::<K>(),
            keys@.len() >= 1,
        ensures
            removed == old(self)@.lookup(keys@),
            final(self)@ == old(self)@.without(keys@),
        decreases keys@.len(),
    {
        if keys.len() == 1 {
            self.remove(&keys[0])
        } else {
            if let Some(folder) = self.get_folder_mut(&keys[0]) {
                let rest = vstd::slice::slice_subrange(keys, 1, keys.len());
                folder.remove_deep(rest)
            } else {
                None
            }
        }
    }

    /// Whether there is a value under `key`.
    pub fn has(&self, key: &K) -> (present: bool)
        requires
            obeys_key_model::<K>(),
        ensures
            present == self@.values.contains_key(*key),
    {
        proof {
            self.lemma_view();
        }
        self.entries.contains_key(key)
    }

    /// Whether there is a folder under `key`.
    pub fn has_folder(&self, key: &K) -> (present: bool)
        requires
            obeys_key_model::<K>(),
        ensures
            present == self@.folders.contains_key(*key),
    {
        proof {
            self.lemma_view();
        }
        self.folders.contains_key(key)
    }

    /// Whether there is a value at the end of the path `keys`.
    pub fn has_deep(&self, keys: &[K]) -> (present: bool)
        requires
            obeys_key_model::<K>(),
            keys@.len() >= 1,
        ensures
            present == self@.lookup(keys@) is Some,
        decreases keys@.len(),
    {
        if keys.len() == 1 {
            self.has(&keys[0])
        } else {
            if let Some(folder) = self.get_folder(&keys[0]) {
                let rest = vstd::slice::slice_subrange(keys, 1, keys.len());
                folder.has_deep(rest)
            } else {
                false
            }
        }
    }

    /// The number of values, those in folders not counted.
    pub fn value_count(&self) -> (count: usize)
        requires
            obeys_key_model::<K>(),
        ensures
            count == self@.values.len(),
    {
        proof {
            self.lemma_view();
        }
        self.entries.len()
    }

    /// The number of folders, those in folders not counted.
    pub fn folder_count(&self) -> (count: usize)
        requires
            obeys_key_model::<K>(),
        ensures
            count == self@.folders.len(),
    {
        proof {
            self.lemma_view();
        }
        self.folders.len()
    }

    /// Whether the dictionary has no value of its own.
    pub fn no_values(&self) -> (empty: bool)
        ensures
            empty == self@.values.is_empty(),
    {
        proof {
            self.lemma_view();
        }
        self.entries.is_empty()
    }

    /// Whether the dictionary has no folder of its own.
    pub fn no_folders(&self) -> (empty: bool)
        ensures
            empty == self@.folders.is_empty(),
    {
        proof {
            self.lemma_view();
        }
        self.folders.is_empty()
    }

    /// An iterator over the values of the dictionary itself, each with its
    /// key, in no particular order.
    pub fn iter(&self) -> (items: Iter<'_, K, V>)
        requires
            obeys_key_model::<K>(),
        ensures
            items.remaining().no_duplicates(),
            items.remaining().unref().to_set() == self@.values.kv_pairs(),
    {
        proof {
            self.lemma_view();
        }
        self.entries.iter()
    }

    /// An iterator that visits every value of the dictionary itself once, in
    /// no particular order, each as its key and a mutable reference to it.
    /// The dictionary keeps its keys and its folders, and has under each key
    /// what the reference to its value is left holding.
    pub fn iter_mut(&mut self) -> (items: IterMut<'_, K, V>)
        requires
            obeys_key_model::<K>(),
        ensures
            items.remaining().len() == old(self)@.values.len(),
            forall|i: int|
                0 <= i < items.remaining().len() ==> {
                    let item = #[trigger] items.remaining()[i];
                    &&& old(self)@.values.contains_key(*item.0)
                    &&& *item.1 == old(self)@.values[*item.0]
                    &&& final(self)@.values[*item.0] == *final(item.1)
                },
            forall|i: int, j: int|
                0 <= i < j < items.remaining().len() ==> *(#[trigger] items.remaining()[i]).0
                    != *(#[trigger] items.remaining()[j]).0,
            forall|key: K| #[trigger]
                old(self)@.values.contains_key(key) ==> exists|i: int|
                    0 <= i < items.remaining().len() && *(#[trigger] items.remaining()[i]).0
                        == key,
            final(self)@.values.dom() == old(self)@.values.dom(),
            final(self)@.folders == old(self)@.folders,
    {
        proof {
            self.lemma_view();
            self.lemma_values_changed();
        }
        values_mut(&mut self.entries)
    }

    /// An iterator over the folders of the dictionary itself, each with its
    /// key, in no particular order.
    pub fn iter_folders(&self) -> (items: Iter<'_, K, Dictionary<K, V>>)
        requires
            obeys_key_model::<K>(),
        ensures
            items.remaining().no_duplicates(),
            items.remaining().len() == self@.folders.len(),
            forall|i: int|
                0 <= i < items.remaining().len() ==> self@.folders.contains_key(
                    *items.remaining()[i].0,
                ) && self@.folders[*items.remaining()[i].0] == (#[trigger] items.remaining()[i]).1@,
            forall|key: K| #[trigger]
                self@.folders.contains_key(key) ==> exists|i: int|
                    0 <= i < items.remaining().len() && *(#[trigger] items.remaining()[i]).0
                        == key,
    {
        proof {
            self.lemma_view();
        }
        let items = self.folders.iter();
        proof {
            assert forall|key: K| #[trigger] self@.folders.contains_key(key) implies exists|i: int|
                0 <= i < items.remaining().len() && *(#[trigger] items.remaining()[i]).0
                    == key by {
                assert(self.folders@.contains_key(key));
                let i = choose|i: int|
                    0 <= i < items.remaining().len() && items.remaining()[i] == (
                        &key,
                        &self.folders@[key],
                    );
                assert(*items.remaining()[i].0 == key);
            }
        }
        items
    }

    /// An iterator that visits every folder of the dictionary itself once, in
    /// no particular order, each as its key and a mutable reference to it.
    /// The dictionary keeps its values and the keys of its folders, and has
    /// under each of these keys what the reference to its folder is left
    /// holding.
    pub fn iter_folders_mut(&mut self) -> (items: IterMut<'_, K, Dictionary<K, V>>)
        requires
            obeys_key_model::<K>(),
        ensures
            items.remaining().len() == old(self)@.folders.len(),
            forall|i: int|
                0 <= i < items.remaining().len() ==> {
                    let item = #[trigger] items.remaining()[i];
                    &&& old(self)@.folders.contains_key(*item.0)
                    &&& (*item.1)@ == old(self)@.folders[*item.0]
                    &&& final(self)@.folders[*item.0] == (*final(item.1))@
                },
            forall|i: int, j: int|
                0 <= i < j < items.remaining().len() ==> *(#[trigger] items.remaining()[i]).0
                    != *(#[trigger] items.remaining()[j]).0,
            forall|key: K| #[trigger]
                old(self)@.folders.contains_key(key) ==> exists|i: int|
                    0 <= i < items.remaining().len() && *(#[trigger] items.remaining()[i]).0
                        == key,
            final(self)@.values == old(self)@.values,
            final(self)@.folders.dom() == old(self)@.folders.dom(),
    {
        proof {
            self.lemma_view();
            self.lemma_folders_changed();
        }
        values_mut(&mut self.folders)
    }
}

} // verus!
