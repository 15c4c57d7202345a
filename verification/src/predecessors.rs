//! The set of predecessors of a block.

use vstd::prelude::*;
use crate::key::{CodeType, FunctionBlockKey};

verus! {

/// A predecessor as contracts see it: the key of a block and the index of
/// one of its instances.
pub type Edge = ((CodeType, nat), usize);

/// The entries of a set as contracts see them, in the order of the list.
pub open spec fn edges(entries: Seq<(FunctionBlockKey, usize)>) -> Seq<Edge> {
    Seq::new(entries.len(), |i: int| (entries[i].0@, entries[i].1))
}

/// The blocks from which control can reach a block, each named by its key and
/// the index of its instance. A set: no pair is held twice. It remembers the
/// order in which the pairs came, so that it reads the same on every run.
#[derive(Debug)]
pub struct PredecessorSet {
    entries: Vec<(FunctionBlockKey, usize)>,
}

impl View for PredecessorSet {
    type V = Set<Edge>;

    closed spec fn view(&self) -> Set<Edge> {
        edges(self.entries@).to_set()
    }
}

impl PredecessorSet {
    /// Whether the set is well formed: it lists no pair twice. Every set that
    /// this module hands out is.
    pub closed spec fn wf(&self) -> bool {
        edges(self.entries@).no_duplicates()
    }

    /// The pairs in the order in which they came.
    pub closed spec fn ordered(&self) -> Seq<Edge> {
        edges(self.entries@)
    }

    /// The set with no pair.
    pub fn new() -> (set: PredecessorSet)
        ensures
            set.wf(),
            set@ == Set::<Edge>::empty(),
            set.ordered() == Seq::<Edge>::empty(),
    {
        let set = PredecessorSet { entries: Vec::new() };
        assert(edges(set.entries@) =~= Seq::<Edge>::empty());
        assert(set@ =~= Set::<Edge>::empty());
        set
    }

    /// The set with no pair, with room for `capacity` pairs.
    pub fn with_capacity(capacity: usize) -> (set: PredecessorSet)
        ensures
            set.wf(),
            set@ == Set::<Edge>::empty(),
            set.ordered() == Seq::<Edge>::empty(),
    {
        let set = PredecessorSet { entries: Vec::with_capacity(capacity) };
        assert(edges(set.entries@) =~= Seq::<Edge>::empty());
        assert(set@ =~= Set::<Edge>::empty());
        set
    }

    /// What the order and the set have to do with each other: the order
    /// lists each pair of the set once.
    pub proof fn lemma_ordered(&self)
        requires
            self.wf(),
        ensures
            self.ordered().no_duplicates(),
            self.ordered().to_set() == self@,
            self@.finite(),
            self@.len() == self.ordered().len(),
    {
        self.ordered().unique_seq_to_set();
    }

    /// The number of pairs.
    pub fn len(&self) -> (count: usize)
        ensures
            count == self.ordered().len(),
            self.wf() ==> count == self@.len(),
    {
        proof {
            if self.wf() {
                edges(self.entries@).unique_seq_to_set();
            }
        }
        self.entries.len()
    }

    /// Whether the set holds no pair.
    pub fn is_empty(&self) -> (empty: bool)
        ensures
            empty == (self@ == Set::<Edge>::empty()),
    {
        proof {
            if self.entries@.len() == 0 {
                assert(self@ =~= Set::<Edge>::empty());
            } else {
                assert(edges(self.entries@)[0] == edges(self.entries@)[0]);
                assert(self@.contains(edges(self.entries@)[0]));
            }
        }
        self.entries.len() == 0
    }

    /// Whether the set holds the pair.
    pub fn contains(&self, key: &FunctionBlockKey, instance: usize) -> (held: bool)
        ensures
            held == self@.contains((key@, instance)),
    {
        let count: usize = self.entries.len();
        let mut index: usize = 0;
        while index < count
            invariant
                count == self.entries@.len(),
                index <= count,
                forall|i: int| 0 <= i < index ==> edges(self.entries@)[i] != (key@, instance),
            decreases count - index,
        {
            if self.entries[index].1 == instance && self.entries[index].0 == *key {
                assert(edges(self.entries@)[index as int] == (key@, instance));
                return true;
            }
            index += 1;
        }
        false
    }

    /// The pair at `index` in the order in which the pairs came.
    pub fn get(&self, index: usize) -> (entry: &(FunctionBlockKey, usize))
        requires
            index < self.ordered().len(),
        ensures
            (entry.0@, entry.1) == self.ordered()[index as int],
    {
        &self.entries[index]
    }

    /// Puts the pair into the set, and says whether it was new. A pair that
    /// the set holds already changes nothing.
    pub fn insert(&mut self, key: FunctionBlockKey, instance: usize) -> (fresh: bool)
        requires
            old(self).wf(),
        ensures
            final(self).wf(),
            final(self)@ == old(self)@.insert((key@, instance)),
            fresh == !old(self)@.contains((key@, instance)),
            !fresh ==> final(self)@ == old(self)@,
            final(self).ordered() == if fresh {
                old(self).ordered().push((key@, instance))
            } else {
                old(self).ordered()
            },
    {
        if self.contains(&key, instance) {
            assert(self@ =~= self@.insert((key@, instance)));
            return false;
        }
        proof {
            let before = edges(self.entries@);
            let after = edges(self.entries@.push((key, instance)));
            assert(after =~= before.push((key@, instance)));
            assert(after.to_set() =~= before.to_set().insert((key@, instance))) by {
                assert forall|edge: Edge| after.to_set().contains(edge) implies before.to_set().insert(
                    (key@, instance),
                ).contains(edge) by {
                    let i = choose|i: int| 0 <= i < after.len() && after[i] == edge;
                    if i < before.len() {
                        assert(before[i] == edge);
                    }
                }
                assert forall|edge: Edge|
                    before.to_set().insert((key@, instance)).contains(edge) implies after.to_set().contains(
                    edge,
                ) by {
                    if edge == (key@, instance) {
                        assert(after[before.len() as int] == edge);
                    } else {
                        let i = choose|i: int| 0 <= i < before.len() && before[i] == edge;
                        assert(after[i] == edge);
                    }
                }
            }
        }
        self.entries.push((key, instance));
        true
    }
}

impl Clone for PredecessorSet {
    fn clone(&self) -> (copy: PredecessorSet)
        ensures
            copy@ == self@,
            copy.ordered() == self.ordered(),
            copy.wf() == self.wf(),
    {
        let count: usize = self.entries.len();
        let mut entries: Vec<(FunctionBlockKey, usize)> = Vec::with_capacity(count);
        let mut index: usize = 0;
        while index < count
            invariant
                count == self.entries@.len(),
                index <= count,
                entries@.len() == index,
                forall|i: int| 0 <= i < index ==> entries@[i] == self.entries@[i],
            decreases count - index,
        {
            entries.push((self.entries[index].0.clone(), self.entries[index].1));
            index += 1;
        }
        assert(edges(entries@) =~= edges(self.entries@));
        PredecessorSet { entries }
    }
}

/// Putting a pair into a set that holds it already changes neither the set
/// nor its size: a pair that is put in twice is held once.
pub proof fn lemma_insert_twice(set: Set<Edge>, edge: Edge)
    requires
        set.finite(),
    ensures
        set.insert(edge).insert(edge) == set.insert(edge),
        set.insert(edge).insert(edge).len() == set.insert(edge).len(),
        set.contains(edge) ==> set.insert(edge) == set && set.insert(edge).len() == set.len(),
{
    assert(set.insert(edge).insert(edge) =~= set.insert(edge));
    if set.contains(edge) {
        assert(set.insert(edge) =~= set);
    }
}

} // verus!
