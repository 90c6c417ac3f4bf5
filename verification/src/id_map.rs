//! A verified map from source ids to canonical indices.
//!
//! The interner's deduplication tables need only insertion and lookup, and
//! their keys are small ids, so the map is an association list whose model is
//! a `Map<usize, usize>`. A later insertion of an existing key overrides the
//! earlier one, which is exactly the behaviour the interner needs when a
//! failed reservation is retried.

use vstd::prelude::*;

verus! {

/// The map modelled by an association list: later entries win.
pub open spec fn id_map_of(entries: Seq<(usize, usize)>) -> Map<usize, usize>
    decreases entries.len(),
{
    if entries.len() == 0 {
        Map::empty()
    } else {
        id_map_of(entries.drop_last()).insert(entries.last().0, entries.last().1)
    }
}

/// If no entry at position `i` or later has key `k`, the first `i` entries
/// already determine `k`'s binding.
proof fn lemma_id_map_of_skip_tail(entries: Seq<(usize, usize)>, i: int, k: usize)
    requires
        0 <= i <= entries.len(),
        forall|j: int| i <= j < entries.len() ==> (#[trigger] entries[j]).0 != k,
    ensures
        id_map_of(entries).contains_key(k) == id_map_of(entries.take(i)).contains_key(k),
        id_map_of(entries).contains_key(k) ==> id_map_of(entries)[k] == id_map_of(
            entries.take(i),
        )[k],
    decreases entries.len() - i,
{
    if i < entries.len() {
        lemma_id_map_of_skip_tail(entries, i + 1, k);
        assert(entries.take(i + 1).drop_last() =~= entries.take(i));
        assert(entries.take(i + 1).last() == entries[i]);
    } else {
        assert(entries.take(i) =~= entries);
    }
}

/// A key is bound exactly when some entry carries it.
proof fn lemma_id_map_of_dom(entries: Seq<(usize, usize)>, k: usize)
    ensures
        id_map_of(entries).contains_key(k) == exists|j: int|
            0 <= j < entries.len() && (#[trigger] entries[j]).0 == k,
    decreases entries.len(),
{
    if entries.len() > 0 {
        lemma_id_map_of_dom(entries.drop_last(), k);
        if entries.last().0 == k {
            assert((entries[entries.len() - 1]).0 == k);
        } else if id_map_of(entries.drop_last()).contains_key(k) {
            let j = choose|j: int|
                0 <= j < entries.drop_last().len() && (#[trigger] entries.drop_last()[j]).0 == k;
            assert((entries[j]).0 == k);
        } else if exists|j: int| 0 <= j < entries.len() && (#[trigger] entries[j]).0 == k {
            let j = choose|j: int| 0 <= j < entries.len() && (#[trigger] entries[j]).0 == k;
            assert((entries.drop_last()[j]).0 == k);
        }
    }
}

/// A deduplication table from source-side ids to canonical indices.
#[derive(Clone, Debug)]
pub struct IdMap {
    pub entries: Vec<(usize, usize)>,
}

impl View for IdMap {
    type V = Map<usize, usize>;

    open spec fn view(&self) -> Map<usize, usize> {
        id_map_of(self.entries@)
    }
}

impl IdMap {
    /// An empty table.
    pub fn new() -> (r: IdMap)
        ensures
            r@ == Map::<usize, usize>::empty(),
    {
        IdMap { entries: Vec::new() }
    }

    /// Bind `key` to `value`, overriding any earlier binding.
    pub fn insert(&mut self, key: usize, value: usize)
        ensures
            final(self)@ == old(self)@.insert(key, value),
    {
        self.entries.push((key, value));
        proof {
            assert(self.entries@.drop_last() =~= old(self).entries@);
        }
    }

    /// Look up the binding of `key`, if any.
    pub fn get(&self, key: usize) -> (r: Option<usize>)
        ensures
            r == if self@.contains_key(key) {
                Some(self@[key])
            } else {
                None::<usize>
            },
    {
        let n = self.entries.len();
        let mut i = n;
        while i > 0
            invariant
                0 <= i <= n,
                n == self.entries.len(),
                forall|j: int| i <= j < n ==> (#[trigger] self.entries@[j]).0 != key,
            decreases i,
        {
            i = i - 1;
            let (k, v) = self.entries[i];
            if k == key {
                proof {
                    lemma_id_map_of_skip_tail(self.entries@, i + 1, key);
                    lemma_id_map_of_dom(self.entries@.take(i + 1), key);
                    assert(self.entries@.take(i + 1).drop_last() =~= self.entries@.take(i as int));
                    assert(self.entries@.take(i + 1).last() == self.entries@[i as int]);
                }
                return Some(v);
            }
        }
        proof {
            lemma_id_map_of_dom(self.entries@, key);
        }
        None
    }

    /// Whether `key` is bound.
    pub fn contains_key(&self, key: usize) -> (r: bool)
        ensures
            r == self@.contains_key(key),
    {
        match self.get(key) {
            Some(_) => true,
            None => false,
        }
    }
}

} // verus!
