use crate::error::TransitionError;
use crate::truth::Id;
use std::collections::HashSet;
use vstd::prelude::*;

verus! {

/// What collecting `ids` one by one into `start` leaves: the set that was
/// reached, and whether every identifier was new when its turn came.
/// Collecting stops at the first identifier that is already in the set.
pub open spec fn collect_ids(start: Set<Id>, ids: Seq<Id>) -> (Set<Id>, bool)
    decreases ids.len(),
{
    if ids.len() == 0 {
        (start, true)
    } else if start.contains(ids[0]) {
        (start, false)
    } else {
        collect_ids(start.insert(ids[0]), ids.subrange(1, ids.len() as int))
    }
}

/// Collecting nothing changes nothing.
pub proof fn lemma_collect_none(start: Set<Id>)
    ensures
        collect_ids(start, Seq::<Id>::empty()) == (start, true),
{
}

/// Collecting one identifier succeeds exactly when it is new.
pub proof fn lemma_collect_one(start: Set<Id>, id: Id)
    ensures
        collect_ids(start, seq![id]) == if start.contains(id) {
            (start, false)
        } else {
            (start.insert(id), true)
        },
{
    let ids = seq![id];
    assert(ids.subrange(1, ids.len() as int) =~= Seq::<Id>::empty());
    assert(collect_ids(start.insert(id), Seq::<Id>::empty()) == (start.insert(id), true));
}

/// One identifier alone: no duplicate, and as a set just that identifier.
pub proof fn lemma_single_id(id: Id)
    ensures
        seq![id].no_duplicates(),
        seq![id].to_set() == set![id],
{
    let ids = seq![id];
    assert(ids[0] == id);
    assert forall|other: Id| ids.to_set().contains(other) == set![id].contains(other) by {
        if other == id {
            assert(ids.contains(id));
        }
    }
    assert(ids.to_set() =~= set![id]);
}

/// Collecting `first + second` is collecting `first` and then, if that went
/// through, `second`.
pub proof fn lemma_collect_concat(start: Set<Id>, first: Seq<Id>, second: Seq<Id>)
    ensures
        collect_ids(start, first + second) == if collect_ids(start, first).1 {
            collect_ids(collect_ids(start, first).0, second)
        } else {
            collect_ids(start, first)
        },
    decreases first.len(),
{
    if first.len() == 0 {
        assert(first + second =~= second);
    } else {
        let all = first + second;
        assert(all[0] == first[0]);
        assert(all.subrange(1, all.len() as int) =~= first.subrange(1, first.len() as int)
            + second);
        if !start.contains(first[0]) {
            lemma_collect_concat(
                start.insert(first[0]),
                first.subrange(1, first.len() as int),
                second,
            );
        }
    }
}

/// Collecting succeeds exactly when no identifier occurs twice and none is in
/// the set already; it then adds them all.
pub proof fn lemma_collect_all(start: Set<Id>, ids: Seq<Id>)
    ensures
        collect_ids(start, ids).1 <==> ids.no_duplicates() && forall|i: int|
            0 <= i < ids.len() ==> !start.contains(#[trigger] ids[i]),
        collect_ids(start, ids).1 ==> collect_ids(start, ids).0 == start.union(ids.to_set()),
    decreases ids.len(),
{
    if ids.len() == 0 {
        assert(start.union(ids.to_set()) =~= start);
    } else if start.contains(ids[0]) {
    } else {
        let rest = ids.subrange(1, ids.len() as int);
        let next = start.insert(ids[0]);
        lemma_collect_all(next, rest);
        assert(forall|i: int| 0 <= i < rest.len() ==> rest[i] == ids[i + 1]);
        if collect_ids(start, ids).1 {
            assert forall|i: int, j: int| 0 <= i < ids.len() && 0 <= j < ids.len() && i != j
                implies ids[i] != ids[j] by {
                if i == 0 {
                    assert(!next.contains(rest[j - 1]));
                } else if j == 0 {
                    assert(!next.contains(rest[i - 1]));
                } else {
                    assert(rest[i - 1] != rest[j - 1]);
                }
            }
            assert forall|i: int| 0 <= i < ids.len() implies !start.contains(
                #[trigger] ids[i],
            ) by {
                if i > 0 {
                    assert(!next.contains(rest[i - 1]));
                }
            }
            assert forall|id: Id| next.union(rest.to_set()).contains(id) == start.union(
                ids.to_set(),
            ).contains(id) by {
                if rest.to_set().contains(id) {
                    let k = choose|k: int| 0 <= k < rest.len() && rest[k] == id;
                    assert(ids[k + 1] == id);
                }
                if ids.to_set().contains(id) {
                    let k = choose|k: int| 0 <= k < ids.len() && ids[k] == id;
                    if k > 0 {
                        assert(rest[k - 1] == id);
                    }
                }
            }
            assert(next.union(rest.to_set()) =~= start.union(ids.to_set()));
        } else {
            if ids.no_duplicates() && forall|i: int|
                0 <= i < ids.len() ==> !start.contains(#[trigger] ids[i]) {
                assert forall|i: int, j: int|
                    0 <= i < rest.len() && 0 <= j < rest.len() && i != j implies rest[i]
                    != rest[j] by {
                    assert(ids[i + 1] != ids[j + 1]);
                }
                assert forall|i: int| 0 <= i < rest.len() implies !next.contains(
                    #[trigger] rest[i],
                ) by {
                    assert(ids[i + 1] != ids[0]);
                    assert(!start.contains(ids[i + 1]));
                }
            }
        }
    }
}

/// A set under construction that refuses an identifier it already holds.
pub struct IdCollector {
    ids: HashSet<Id>,
    on_duplicate: TransitionError,
}

impl View for IdCollector {
    type V = Set<Id>;

    closed spec fn view(&self) -> Set<Id> {
        self.ids@
    }
}

impl IdCollector {
    /// The error that a duplicate is answered with.
    pub closed spec fn error(&self) -> TransitionError {
        self.on_duplicate
    }

    /// Creates an empty collector that answers a duplicate with
    /// `on_duplicate`.
    pub fn new(on_duplicate: TransitionError) -> (collector: Self)
        ensures
            collector@ == Set::<Id>::empty(),
            collector.error() == on_duplicate,
    {
        IdCollector { ids: HashSet::new(), on_duplicate }
    }

    /// Adds `id`, or fails and changes nothing where `id` was added before.
    pub fn collect(&mut self, id: Id) -> (outcome: Result<(), TransitionError>)
        ensures
            collects(*old(self), seq![id], *final(self), outcome),
    {
        proof {
            lemma_collect_one(self@, id);
        }
        if self.ids.contains(&id) {
            Err(self.on_duplicate)
        } else {
            self.ids.insert(id);
            Ok(())
        }
    }

    /// The identifiers that were collected.
    pub fn into_ids(self) -> (ids: HashSet<Id>)
        ensures
            ids@ == self@,
    {
        self.ids
    }
}

/// Whether handing `ids` to the collector `before`, one by one and up to the
/// first duplicate, leaves the collector `after` and the answer `outcome`.
pub open spec fn collects(
    before: IdCollector,
    ids: Seq<Id>,
    after: IdCollector,
    outcome: Result<(), TransitionError>,
) -> bool {
    &&& after.error() == before.error()
    &&& after@ == collect_ids(before@, ids).0
    &&& outcome == if collect_ids(before@, ids).1 {
        Ok::<(), TransitionError>(())
    } else {
        Err::<(), TransitionError>(before.error())
    }
}

/// A set with the same identifiers.
pub fn copy_ids(ids: &HashSet<Id>) -> (copy: HashSet<Id>)
    ensures
        copy@ == ids@,
{
    let mut copy: HashSet<Id> = HashSet::new();
    for id in it: ids.iter()
        invariant
            it.seq().unref().to_set() == ids@,
            forall|i: int| 0 <= i < it.index() ==> copy@.contains(#[trigger] it.seq().unref()[i]),
            forall|other: Id| copy@.contains(other) ==> ids@.contains(other),
    {
        assert(it.seq().unref()[it.index()] == *id);
        copy.insert(*id);
    }
    assert(copy@ =~= ids@);
    copy
}

} // verus!
