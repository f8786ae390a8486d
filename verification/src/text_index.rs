use vstd::prelude::*;
use std::collections::HashSet;
use crate::text::str_eq;

verus! {

broadcast use vstd::std_specs::hash::group_hash_axioms;

/// An index from text keys to sets of ids, kept as a list of entries with
/// distinct keys.
#[derive(Debug)]
pub struct TextIndex {
    entries: Vec<(String, HashSet<u32>)>,
}

/// Whether the keys of the entries are pairwise distinct.
pub open spec fn distinct_keys(entries: Seq<(String, HashSet<u32>)>) -> bool {
    forall|i: int, j: int|
        0 <= i < entries.len() && 0 <= j < entries.len() && i != j ==> #[trigger] entries[i].0@
            != #[trigger] entries[j].0@
}

/// Whether some entry has key `k`.
pub open spec fn has_key(entries: Seq<(String, HashSet<u32>)>, k: Seq<char>) -> bool {
    exists|i: int| 0 <= i < entries.len() && #[trigger] entries[i].0@ == k
}

/// The map from keys to id sets that the entries hold.
pub open spec fn entries_map(entries: Seq<(String, HashSet<u32>)>) -> Map<Seq<char>, Set<u32>> {
    Map::new(
        |k: Seq<char>| has_key(entries, k),
        |k: Seq<char>| entries[choose|i: int| 0 <= i < entries.len() && #[trigger] entries[i].0@ == k].1@,
    )
}

/// With distinct keys, the entry at `i` gives the set of its key.
proof fn lemma_entry_lookup(entries: Seq<(String, HashSet<u32>)>, i: int)
    requires
        distinct_keys(entries),
        0 <= i < entries.len(),
    ensures
        entries_map(entries).contains_key(entries[i].0@),
        entries_map(entries)[entries[i].0@] == entries[i].1@,
{
    let k = entries[i].0@;
    assert(has_key(entries, k));
    let j = choose|j: int| 0 <= j < entries.len() && #[trigger] entries[j].0@ == k;
    assert(j == i);
}


/// Replacing the set of one entry changes the map at that entry's key only.
proof fn lemma_replace_set(
    before: Seq<(String, HashSet<u32>)>,
    after: Seq<(String, HashSet<u32>)>,
    i: int,
)
    requires
        distinct_keys(before),
        0 <= i < before.len(),
        after.len() == before.len(),
        after[i].0 == before[i].0,
        forall|j: int| 0 <= j < before.len() && j != i ==> after[j] == before[j],
    ensures
        distinct_keys(after),
        entries_map(after) == entries_map(before).insert(before[i].0@, after[i].1@),
{
    assert(distinct_keys(after)) by {
        assert forall|a: int, b: int|
            0 <= a < after.len() && 0 <= b < after.len() && a != b implies #[trigger] after[a].0@
            != #[trigger] after[b].0@ by {
            assert(after[a].0 == before[a].0 && after[b].0 == before[b].0);
        }
    }
    lemma_entry_lookup(after, i);
    assert forall|q: Seq<char>| #[trigger] has_key(after, q) == has_key(before, q) by {
        if has_key(before, q) {
            let j = choose|j: int| 0 <= j < before.len() && #[trigger] before[j].0@ == q;
            assert(after[j].0 == before[j].0);
        }
        if has_key(after, q) {
            let j = choose|j: int| 0 <= j < after.len() && #[trigger] after[j].0@ == q;
            assert(after[j].0 == before[j].0);
        }
    }
    assert forall|q: Seq<char>| q != before[i].0@ && #[trigger] has_key(before, q) implies entries_map(
        after,
    )[q] == entries_map(before)[q] by {
        let j = choose|j: int| 0 <= j < before.len() && #[trigger] before[j].0@ == q;
        lemma_entry_lookup(before, j);
        lemma_entry_lookup(after, j);
    }
    assert(entries_map(after) =~= entries_map(before).insert(before[i].0@, after[i].1@));
}

/// Removing an entry removes its key from the map and nothing else.
proof fn lemma_remove_entry(before: Seq<(String, HashSet<u32>)>, i: int)
    requires
        distinct_keys(before),
        0 <= i < before.len(),
    ensures
        distinct_keys(before.remove(i)),
        entries_map(before.remove(i)) == entries_map(before).remove(before[i].0@),
{
    let after = before.remove(i);
    assert(distinct_keys(after)) by {
        assert forall|a: int, b: int|
            0 <= a < after.len() && 0 <= b < after.len() && a != b implies #[trigger] after[a].0@
            != #[trigger] after[b].0@ by {
            let a2 = if a < i { a } else { a + 1 };
            let b2 = if b < i { b } else { b + 1 };
            assert(after[a] == before[a2] && after[b] == before[b2]);
        }
    }
    let key = before[i].0@;
    assert forall|q: Seq<char>| #[trigger] has_key(after, q) == (has_key(before, q) && q != key) by {
        if has_key(before, q) && q != key {
            let j = choose|j: int| 0 <= j < before.len() && #[trigger] before[j].0@ == q;
            let j2 = if j < i { j } else { j - 1 };
            assert(after[j2] == before[j]);
        }
        if has_key(after, q) {
            let j = choose|j: int| 0 <= j < after.len() && #[trigger] after[j].0@ == q;
            let j2 = if j < i { j } else { j + 1 };
            assert(after[j] == before[j2]);
        }
    }
    assert forall|q: Seq<char>| #[trigger] has_key(after, q) implies entries_map(after)[q]
        == entries_map(before)[q] by {
        let j = choose|j: int| 0 <= j < after.len() && #[trigger] after[j].0@ == q;
        let j2 = if j < i { j } else { j + 1 };
        assert(after[j] == before[j2]);
        lemma_entry_lookup(before, j2);
        lemma_entry_lookup(after, j);
    }
    assert(entries_map(after) =~= entries_map(before).remove(key));
}

impl View for TextIndex {
    type V = Map<Seq<char>, Set<u32>>;

    closed spec fn view(&self) -> Map<Seq<char>, Set<u32>> {
        entries_map(self.entries@)
    }
}

impl TextIndex {
    /// The index is well formed: keys are distinct.
    pub closed spec fn wf(&self) -> bool {
        distinct_keys(self.entries@)
    }

    /// An empty index.
    pub fn new() -> (r: Self)
        ensures
            r.wf(),
            r@ == Map::<Seq<char>, Set<u32>>::empty(),
    {
        let r = TextIndex { entries: Vec::new() };
        assert(r@ =~= Map::<Seq<char>, Set<u32>>::empty());
        r
    }

    /// The position of the entry for `key`.
    fn position(&self, key: &str) -> (r: Option<usize>)
        requires
            self.wf(),
        ensures
            match r {
                Some(i) => i < self.entries@.len() && self.entries@[i as int].0@ == key@,
                None => !has_key(self.entries@, key@),
            },
    {
        let mut i: usize = 0;
        while i < self.entries.len()
            invariant
                i <= self.entries@.len(),
                forall|j: int| 0 <= j < i ==> #[trigger] self.entries@[j].0@ != key@,
            decreases self.entries@.len() - i,
        {
            if str_eq(self.entries[i].0.as_str(), key) {
                return Some(i);
            }
            i += 1;
        }
        None
    }

    /// The set of ids under `key`, if the key is present.
    pub fn get(&self, key: &str) -> (r: Option<&HashSet<u32>>)
        requires
            self.wf(),
        ensures
            match r {
                Some(s) => self@.contains_key(key@) && s@ == self@[key@],
                None => !self@.contains_key(key@),
            },
    {
        match self.position(key) {
            Some(i) => {
                proof {
                    lemma_entry_lookup(self.entries@, i as int);
                }
                Some(&self.entries[i].1)
            },
            None => None,
        }
    }

    /// Adds `id` to the set under `key`, creating the key with just `id` when absent.
    pub fn add(&mut self, key: &str, id: u32)
        requires
            old(self).wf(),
        ensures
            final(self).wf(),
            final(self)@ == old(self)@.insert(
                key@,
                if old(self)@.contains_key(key@) {
                    old(self)@[key@].insert(id)
                } else {
                    set![id]
                },
            ),
    {
        let ghost before = self.entries@;
        match self.position(key) {
            Some(i) => {
                proof {
                    lemma_entry_lookup(before, i as int);
                }
                let (k, mut ids) = self.entries.remove(i);
                ids.insert(id);
                self.entries.insert(i, (k, ids));
                proof {
                    lemma_replace_set(before, self.entries@, i as int);
                }
            },
            None => {
                let mut ids: HashSet<u32> = HashSet::new();
                ids.insert(id);
                self.entries.push((String::from_str(key), ids));
                let ghost after = self.entries@;
                let ghost n = before.len() as int;
                assert forall|i: int, j: int|
                    0 <= i < after.len() && 0 <= j < after.len() && i != j implies #[trigger] after[i].0@
                    != #[trigger] after[j].0@ by {
                    if i == n {
                        assert(before[j].0@ != key@);
                    } else if j == n {
                        assert(before[i].0@ != key@);
                    }
                }
                proof {
                    lemma_entry_lookup(after, n);
                    assert forall|q: Seq<char>| #[trigger] has_key(after, q) == (has_key(before, q) || q
                        == key@) by {
                        if has_key(before, q) {
                            let j = choose|j: int| 0 <= j < before.len() && #[trigger] before[j].0@ == q;
                            assert(after[j].0@ == q);
                        }
                        if has_key(after, q) {
                            let j = choose|j: int| 0 <= j < after.len() && #[trigger] after[j].0@ == q;
                            if j < n {
                                assert(before[j].0@ == q);
                            }
                        }
                    }
                    assert forall|q: Seq<char>| q != key@ && #[trigger] has_key(before, q) implies entries_map(
                        after,
                    )[q] == entries_map(before)[q] by {
                        let j = choose|j: int| 0 <= j < before.len() && #[trigger] before[j].0@ == q;
                        lemma_entry_lookup(before, j);
                        lemma_entry_lookup(after, j);
                    }
                }
                assert(entries_map(after) =~= entries_map(before).insert(key@, set![id]));
            },
        }
    }

    /// Removes `id` from the set under `key`; the key stays, even with an empty set.
    pub fn remove_id(&mut self, key: &str, id: u32)
        requires
            old(self).wf(),
            old(self)@.contains_key(key@),
        ensures
            final(self).wf(),
            final(self)@ == old(self)@.insert(key@, old(self)@[key@].remove(id)),
    {
        let ghost before = self.entries@;
        match self.position(key) {
            Some(i) => {
                proof {
                    lemma_entry_lookup(before, i as int);
                }
                let (k, mut ids) = self.entries.remove(i);
                ids.remove(&id);
                self.entries.insert(i, (k, ids));
                proof {
                    lemma_replace_set(before, self.entries@, i as int);
                }
            },
            None => {},
        }
    }

    /// Drops every key whose set is empty.
    pub fn drop_empty(&mut self)
        requires
            old(self).wf(),
        ensures
            final(self).wf(),
            final(self)@ == old(self)@.restrict(
                Set::new(|k: Seq<char>| old(self)@.contains_key(k) && !old(self)@[k].is_empty()),
            ),
    {
        let ghost m = entries_map(self.entries@);
        let mut i: usize = 0;
        while i < self.entries.len()
            invariant
                i <= self.entries@.len(),
                distinct_keys(self.entries@),
                forall|j: int| 0 <= j < i ==> !(#[trigger] self.entries@[j]).1@.is_empty(),
                forall|k: Seq<char>|
                    #[trigger] entries_map(self.entries@).contains_key(k) ==> m.contains_key(k)
                        && entries_map(self.entries@)[k] == m[k],
                forall|k: Seq<char>|
                    m.contains_key(k) && !m[k].is_empty() ==> #[trigger] entries_map(
                        self.entries@,
                    ).contains_key(k),
            decreases self.entries@.len() - i,
        {
            if self.entries[i].1.is_empty() {
                let ghost before = self.entries@;
                proof {
                    lemma_entry_lookup(before, i as int);
                }
                self.entries.remove(i);
                proof {
                    lemma_remove_entry(before, i as int);
                }
            } else {
                i += 1;
            }
        }
        proof {
            let after = self.entries@;
            let target = m.restrict(Set::new(|k: Seq<char>| m.contains_key(k) && !m[k].is_empty()));
            assert forall|q: Seq<char>| #[trigger] entries_map(after).contains_key(q) implies !m[q].is_empty() by {
                let j = choose|j: int| 0 <= j < after.len() && #[trigger] after[j].0@ == q;
                lemma_entry_lookup(after, j);
            }
            assert(entries_map(after) =~= target);
        }
    }
}

} // verus!
