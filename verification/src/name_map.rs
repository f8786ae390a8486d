use vstd::prelude::*;
use crate::text::{str_eq, views_of};

verus! {

/// A map from names to values, kept as a list of entries whose names are
/// pairwise distinct.
#[derive(Debug)]
pub struct NameMap<V: View> {
    entries: Vec<(String, V)>,
}

/// Whether the names of the entries are pairwise distinct.
pub open spec fn distinct_names<V>(entries: Seq<(String, V)>) -> bool {
    forall|i: int, j: int|
        0 <= i < entries.len() && 0 <= j < entries.len() && i != j ==> #[trigger] entries[i].0@
            != #[trigger] entries[j].0@
}

/// Whether some entry has name `k`.
pub open spec fn has_name<V>(entries: Seq<(String, V)>, k: Seq<char>) -> bool {
    exists|i: int| 0 <= i < entries.len() && #[trigger] entries[i].0@ == k
}

/// The map from names to value views that the entries hold.
pub open spec fn entries_map<V: View>(entries: Seq<(String, V)>) -> Map<Seq<char>, V::V> {
    Map::new(
        |k: Seq<char>| has_name(entries, k),
        |k: Seq<char>| entries[choose|i: int| 0 <= i < entries.len() && #[trigger] entries[i].0@ == k].1@,
    )
}

/// With distinct names, the entry at `i` gives the value of its name.
proof fn lemma_entry_lookup<V: View>(entries: Seq<(String, V)>, i: int)
    requires
        distinct_names(entries),
        0 <= i < entries.len(),
    ensures
        entries_map(entries).contains_key(entries[i].0@),
        entries_map(entries)[entries[i].0@] == entries[i].1@,
{
    let k = entries[i].0@;
    assert(has_name(entries, k));
    let j = choose|j: int| 0 <= j < entries.len() && #[trigger] entries[j].0@ == k;
    assert(j == i);
}

/// Replacing the value of one entry changes the map at that entry's name only.
proof fn lemma_replace_value<V: View>(before: Seq<(String, V)>, after: Seq<(String, V)>, i: int)
    requires
        distinct_names(before),
        0 <= i < before.len(),
        after.len() == before.len(),
        after[i].0@ == before[i].0@,
        forall|j: int| 0 <= j < before.len() && j != i ==> after[j] == before[j],
    ensures
        distinct_names(after),
        entries_map(after) == entries_map(before).insert(before[i].0@, after[i].1@),
{
    assert(distinct_names(after)) by {
        assert forall|a: int, b: int|
            0 <= a < after.len() && 0 <= b < after.len() && a != b implies #[trigger] after[a].0@
            != #[trigger] after[b].0@ by {
            assert(after[a].0@ == before[a].0@ && after[b].0@ == before[b].0@);
        }
    }
    lemma_entry_lookup(after, i);
    assert forall|q: Seq<char>| #[trigger] has_name(after, q) == has_name(before, q) by {
        if has_name(before, q) {
            let j = choose|j: int| 0 <= j < before.len() && #[trigger] before[j].0@ == q;
            assert(after[j].0@ == before[j].0@);
        }
        if has_name(after, q) {
            let j = choose|j: int| 0 <= j < after.len() && #[trigger] after[j].0@ == q;
            assert(after[j].0@ == before[j].0@);
        }
    }
    assert forall|q: Seq<char>| q != before[i].0@ && #[trigger] has_name(before, q) implies entries_map(
        after,
    )[q] == entries_map(before)[q] by {
        let j = choose|j: int| 0 <= j < before.len() && #[trigger] before[j].0@ == q;
        lemma_entry_lookup(before, j);
        lemma_entry_lookup(after, j);
    }
    assert(entries_map(after) =~= entries_map(before).insert(before[i].0@, after[i].1@));
}

/// Removing an entry removes its name from the map and nothing else.
proof fn lemma_remove_entry<V: View>(before: Seq<(String, V)>, i: int)
    requires
        distinct_names(before),
        0 <= i < before.len(),
    ensures
        distinct_names(before.remove(i)),
        entries_map(before.remove(i)) == entries_map(before).remove(before[i].0@),
{
    let after = before.remove(i);
    assert(distinct_names(after)) by {
        assert forall|a: int, b: int|
            0 <= a < after.len() && 0 <= b < after.len() && a != b implies #[trigger] after[a].0@
            != #[trigger] after[b].0@ by {
            let a2 = if a < i { a } else { a + 1 };
            let b2 = if b < i { b } else { b + 1 };
            assert(after[a] == before[a2] && after[b] == before[b2]);
        }
    }
    let key = before[i].0@;
    assert forall|q: Seq<char>| #[trigger] has_name(after, q) == (has_name(before, q) && q != key) by {
        if has_name(before, q) && q != key {
            let j = choose|j: int| 0 <= j < before.len() && #[trigger] before[j].0@ == q;
            let j2 = if j < i { j } else { j - 1 };
            assert(after[j2] == before[j]);
        }
        if has_name(after, q) {
            let j = choose|j: int| 0 <= j < after.len() && #[trigger] after[j].0@ == q;
            let j2 = if j < i { j } else { j + 1 };
            assert(after[j] == before[j2]);
        }
    }
    assert forall|q: Seq<char>| #[trigger] has_name(after, q) implies entries_map(after)[q]
        == entries_map(before)[q] by {
        let j = choose|j: int| 0 <= j < after.len() && #[trigger] after[j].0@ == q;
        let j2 = if j < i { j } else { j + 1 };
        assert(after[j] == before[j2]);
        lemma_entry_lookup(before, j2);
        lemma_entry_lookup(after, j);
    }
    assert(entries_map(after) =~= entries_map(before).remove(key));
}

/// Appending an entry with a new name adds that name to the map.
proof fn lemma_push_entry<V: View>(before: Seq<(String, V)>, e: (String, V))
    requires
        distinct_names(before),
        !has_name(before, e.0@),
    ensures
        distinct_names(before.push(e)),
        entries_map(before.push(e)) == entries_map(before).insert(e.0@, e.1@),
{
    let after = before.push(e);
    let n = before.len() as int;
    assert forall|i: int, j: int|
        0 <= i < after.len() && 0 <= j < after.len() && i != j implies #[trigger] after[i].0@
        != #[trigger] after[j].0@ by {
        if i == n {
            assert(after[j] == before[j]);
        } else if j == n {
            assert(after[i] == before[i]);
        } else {
            assert(after[i] == before[i] && after[j] == before[j]);
        }
    }
    lemma_entry_lookup(after, n);
    assert forall|q: Seq<char>| #[trigger] has_name(after, q) == (has_name(before, q) || q == e.0@) by {
        if has_name(before, q) {
            let j = choose|j: int| 0 <= j < before.len() && #[trigger] before[j].0@ == q;
            assert(after[j] == before[j]);
        }
        if has_name(after, q) {
            let j = choose|j: int| 0 <= j < after.len() && #[trigger] after[j].0@ == q;
            if j < n {
                assert(after[j] == before[j]);
            }
        }
    }
    assert forall|q: Seq<char>| q != e.0@ && #[trigger] has_name(before, q) implies entries_map(
        after,
    )[q] == entries_map(before)[q] by {
        let j = choose|j: int| 0 <= j < before.len() && #[trigger] before[j].0@ == q;
        assert(after[j] == before[j]);
        lemma_entry_lookup(before, j);
        lemma_entry_lookup(after, j);
    }
    assert(entries_map(after) =~= entries_map(before).insert(e.0@, e.1@));
}

impl<V: View> View for NameMap<V> {
    type V = Map<Seq<char>, V::V>;

    closed spec fn view(&self) -> Map<Seq<char>, V::V> {
        entries_map(self.entries@)
    }
}

impl<V: View> NameMap<V> {
    /// Names are never repeated.
    #[verifier::type_invariant]
    spec fn names_distinct(&self) -> bool {
        distinct_names(self.entries@)
    }

    /// An empty map.
    pub fn new() -> (r: Self)
        ensures
            r@ == Map::<Seq<char>, V::V>::empty(),
    {
        let r = NameMap { entries: Vec::new() };
        assert(r@ =~= Map::<Seq<char>, V::V>::empty());
        r
    }

    /// The position of the entry named `key`.
    fn position(&self, key: &str) -> (r: Option<usize>)
        ensures
            match r {
                Some(i) => i < self.entries@.len() && self.entries@[i as int].0@ == key@,
                None => !has_name(self.entries@, key@),
            },
    {
        let mut i: usize = 0;
        while i < self.entries.len()
            invariant
                i <= self.entries@.len(),
                forall|j: int| 0 <= j < i ==> #[trigger] self.entries@[j].0@ != key@,
            decreases self.entries@.len() - i,
        {
            if str_eq(self.entries[i].0.as_str(), key) {
                return Some(i);
            }
            i += 1;
        }
        None
    }

    /// Whether `key` has a value.
    pub fn contains_key(&self, key: &str) -> (r: bool)
        ensures
            r == self@.contains_key(key@),
    {
        self.position(key).is_some()
    }

    /// The value of `key`, if it has one.
    pub fn get(&self, key: &str) -> (r: Option<&V>)
        ensures
            match r {
                Some(v) => self@.contains_key(key@) && v@ == self@[key@],
                None => !self@.contains_key(key@),
            },
    {
        proof {
            use_type_invariant(self);
        }
        match self.position(key) {
            Some(i) => {
                proof {
                    lemma_entry_lookup(self.entries@, i as int);
                }
                Some(&self.entries[i].1)
            },
            None => None,
        }
    }

    /// Sets the value of `key`, handing back the value it had before.
    pub fn insert(&mut self, key: &str, value: V) -> (r: Option<V>)
        ensures
            final(self)@ == old(self)@.insert(key@, value@),
            match r {
                Some(v) => old(self)@.contains_key(key@) && v@ == old(self)@[key@],
                None => !old(self)@.contains_key(key@),
            },
    {
        proof {
            use_type_invariant(&*self);
        }
        let ghost before = self.entries@;
        match self.position(key) {
            Some(i) => {
                proof {
                    lemma_entry_lookup(before, i as int);
                    lemma_remove_entry(before, i as int);
                }
                let mut entries: Vec<(String, V)> = Vec::new();
                std::mem::swap(&mut entries, &mut self.entries);
                let (k, previous) = entries.remove(i);
                entries.insert(i, (k, value));
                proof {
                    lemma_replace_value(before, entries@, i as int);
                }
                self.entries = entries;
                Some(previous)
            },
            None => {
                let name = String::from_str(key);
                proof {
                    lemma_push_entry(before, (name, value));
                }
                let mut entries: Vec<(String, V)> = Vec::new();
                std::mem::swap(&mut entries, &mut self.entries);
                entries.push((name, value));
                self.entries = entries;
                None
            },
        }
    }

    /// Removes `key`, handing back its value.
    pub fn remove(&mut self, key: &str) -> (r: Option<V>)
        ensures
            final(self)@ == old(self)@.remove(key@),
            match r {
                Some(v) => old(self)@.contains_key(key@) && v@ == old(self)@[key@],
                None => !old(self)@.contains_key(key@),
            },
    {
        proof {
            use_type_invariant(&*self);
        }
        let ghost before = self.entries@;
        match self.position(key) {
            Some(i) => {
                proof {
                    lemma_entry_lookup(before, i as int);
                    lemma_remove_entry(before, i as int);
                }
                let mut entries: Vec<(String, V)> = Vec::new();
                std::mem::swap(&mut entries, &mut self.entries);
                let (_, previous) = entries.remove(i);
                self.entries = entries;
                Some(previous)
            },
            None => {
                assert(entries_map(before).remove(key@) =~= entries_map(before));
                None
            },
        }
    }

    /// The names that have a value, each once.
    pub fn keys(&self) -> (r: Vec<String>)
        ensures
            views_of(r@).no_duplicates(),
            forall|k: Seq<char>| #[trigger] views_of(r@).contains(k) == self@.contains_key(k),
    {
        proof {
            use_type_invariant(self);
        }
        let mut out: Vec<String> = Vec::new();
        let mut i: usize = 0;
        while i < self.entries.len()
            invariant
                i <= self.entries@.len(),
                distinct_names(self.entries@),
                out@.len() == i,
                forall|j: int| 0 <= j < i ==> (#[trigger] out@[j])@ == self.entries@[j].0@,
            decreases self.entries@.len() - i,
        {
            out.push(self.entries[i].0.clone());
            i += 1;
        }
        let ghost names = views_of(out@);
        assert forall|a: int, b: int| 0 <= a < names.len() && 0 <= b < names.len() && a != b implies names[a]
            != names[b] by {
            assert(names[a] == self.entries@[a].0@ && names[b] == self.entries@[b].0@);
        }
        assert forall|k: Seq<char>| #[trigger] names.contains(k) == self@.contains_key(k) by {
            if names.contains(k) {
                let a = choose|a: int| 0 <= a < names.len() && names[a] == k;
                assert(self.entries@[a].0@ == k);
            }
            if has_name(self.entries@, k) {
                let a = choose|a: int| 0 <= a < self.entries@.len() && #[trigger] self.entries@[a].0@ == k;
                assert(names[a] == k);
            }
        }
        out
    }
}

} // verus!
