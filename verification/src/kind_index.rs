use vstd::prelude::*;
use std::collections::HashSet;
use crate::artifact::ArtifactKindName;

verus! {

broadcast use vstd::std_specs::hash::group_hash_axioms;

/// An index from artifact kinds to sets of ids; a kind, once added, keeps its
/// entry even when its set becomes empty.
#[derive(Debug)]
pub struct KindIndex {
    book: Option<HashSet<u32>>,
    audio_book: Option<HashSet<u32>>,
    statue: Option<HashSet<u32>>,
    painting: Option<HashSet<u32>>,
}

/// The ids in a slot, when the slot is in use.
pub open spec fn slot_view(slot: Option<HashSet<u32>>) -> Option<Set<u32>> {
    match slot {
        Some(s) => Some(s@),
        None => None,
    }
}

impl KindIndex {
    /// The slot of a kind.
    pub closed spec fn slot(&self, k: ArtifactKindName) -> Option<Set<u32>> {
        match k {
            ArtifactKindName::Book => slot_view(self.book),
            ArtifactKindName::AudioBook => slot_view(self.audio_book),
            ArtifactKindName::Statue => slot_view(self.statue),
            ArtifactKindName::Painting => slot_view(self.painting),
        }
    }
}

impl View for KindIndex {
    type V = Map<ArtifactKindName, Set<u32>>;

    closed spec fn view(&self) -> Map<ArtifactKindName, Set<u32>> {
        Map::new(|k: ArtifactKindName| self.slot(k) is Some, |k: ArtifactKindName| self.slot(k)->0)
    }
}

/// Adds `id` to a slot, opening the slot when unused.
fn add_to_slot(slot: &mut Option<HashSet<u32>>, id: u32)
    ensures
        slot_view(*final(slot)) == Some(
            match slot_view(*old(slot)) {
                Some(s) => s.insert(id),
                None => set![id],
            },
        ),
{
    match slot {
        Some(ids) => {
            ids.insert(id);
        },
        None => {
            let mut ids: HashSet<u32> = HashSet::new();
            ids.insert(id);
            *slot = Some(ids);
        },
    }
}

/// Removes `id` from a slot in use.
fn remove_from_slot(slot: &mut Option<HashSet<u32>>, id: u32)
    requires
        slot_view(*old(slot)) is Some,
    ensures
        slot_view(*final(slot)) == Some(slot_view(*old(slot))->0.remove(id)),
{
    match slot {
        Some(ids) => {
            ids.remove(&id);
        },
        None => {},
    }
}

impl KindIndex {
    /// An index with no kinds.
    pub fn new() -> (r: Self)
        ensures
            r@ == Map::<ArtifactKindName, Set<u32>>::empty(),
    {
        let r = KindIndex { book: None, audio_book: None, statue: None, painting: None };
        assert(r@ =~= Map::<ArtifactKindName, Set<u32>>::empty());
        r
    }

    /// The ids under kind `k`, if the kind has an entry.
    pub fn get(&self, k: ArtifactKindName) -> (r: Option<&HashSet<u32>>)
        ensures
            match r {
                Some(s) => self@.contains_key(k) && s@ == self@[k],
                None => !self@.contains_key(k),
            },
    {
        match k {
            ArtifactKindName::Book => self.book.as_ref(),
            ArtifactKindName::AudioBook => self.audio_book.as_ref(),
            ArtifactKindName::Statue => self.statue.as_ref(),
            ArtifactKindName::Painting => self.painting.as_ref(),
        }
    }

    /// Adds `id` under kind `k`, creating the entry when absent.
    pub fn add(&mut self, k: ArtifactKindName, id: u32)
        ensures
            final(self)@ == old(self)@.insert(
                k,
                if old(self)@.contains_key(k) {
                    old(self)@[k].insert(id)
                } else {
                    set![id]
                },
            ),
    {
        let ghost before = *self;
        match k {
            ArtifactKindName::Book => add_to_slot(&mut self.book, id),
            ArtifactKindName::AudioBook => add_to_slot(&mut self.audio_book, id),
            ArtifactKindName::Statue => add_to_slot(&mut self.statue, id),
            ArtifactKindName::Painting => add_to_slot(&mut self.painting, id),
        }
        assert(self@ =~= before@.insert(
            k,
            if before@.contains_key(k) {
                before@[k].insert(id)
            } else {
                set![id]
            },
        ));
    }

    /// Removes `id` from the entry of kind `k`; the entry stays.
    pub fn remove_id(&mut self, k: ArtifactKindName, id: u32)
        requires
            old(self)@.contains_key(k),
        ensures
            final(self)@ == old(self)@.insert(k, old(self)@[k].remove(id)),
    {
        let ghost before = *self;
        match k {
            ArtifactKindName::Book => remove_from_slot(&mut self.book, id),
            ArtifactKindName::AudioBook => remove_from_slot(&mut self.audio_book, id),
            ArtifactKindName::Statue => remove_from_slot(&mut self.statue, id),
            ArtifactKindName::Painting => remove_from_slot(&mut self.painting, id),
        }
        assert(self@ =~= before@.insert(k, before@[k].remove(id)));
    }
}

} // verus!
