use vstd::prelude::*;
use std::collections::{HashMap, HashSet};
use crate::artifact::{
    str_views,
    kind_label, kind_name_of, lendable, Artifact, ArtifactKind, ArtifactKindName, ArtifactView, KindView,
    Measure,
};
use crate::keyed_sets::{
    grow, index_by, lemma_empty_keys, lemma_grow_one, lemma_grow_twice, lemma_index_insert,
    lemma_index_remove, lemma_index_same_keys, lemma_shrink_one, lemma_shrink_twice, prune, shrink,
};
use crate::kind_index::KindIndex;
use crate::id_sets::{add_all_ids, copy_ids, intersect_ids};
use crate::text::{split_words, str_eq, views_of, words};
use crate::text_index::TextIndex;
use vstd::std_specs::iter::IteratorSpec;

verus! {

broadcast use vstd::std_specs::hash::group_hash_axioms;

/// What can go wrong in the library.
#[derive(Debug)]
pub enum LibraryError {
    /// The field (first) does not exist for artifacts of the kind (second).
    FieldNotAvailable(String, String),
    /// The id is not registered; the registered ids follow.
    IdNotAvailable(u32, Vec<u32>),
    /// The id is registered already; the registered ids follow.
    DuplicatedId(u32, Vec<u32>),
    /// A query with this many keywords (first) and operators (second) does
    /// not alternate them.
    MalformedQuery(usize, usize),
    /// A query used an operator other than `AND` and `OR`.
    UnknownOperator(String),
    /// Units requested (first) and units available (second).
    NotEnoughUnitsAvailable(u32, u32),
    /// Artifacts of this kind cannot be lent.
    CannotLoan(ArtifactKindName),
}

/// The title under which an artifact is filed.
pub open spec fn title_keys(a: ArtifactView) -> Set<Seq<char>> {
    set![a.title]
}

/// The author under which an artifact is filed.
pub open spec fn author_keys(a: ArtifactView) -> Set<Seq<char>> {
    set![a.author]
}

/// The keywords under which an artifact is filed.
pub open spec fn keyword_keys(a: ArtifactView) -> Set<Seq<char>> {
    a.keywords.to_set()
}

/// The ids of the artifacts of kind `k`.
pub open spec fn ids_of_kind(arts: Map<u32, ArtifactView>, k: ArtifactKindName) -> Set<u32> {
    Set::new(|id: u32| arts.contains_key(id) && kind_name_of(arts[id].kind) == k)
}

/// Looking up a kind finds exactly the artifacts of that variant: an id is
/// among the books exactly when the library holds an artifact under it that is
/// a book, and likewise for audio books, statues and paintings.
pub proof fn law_kind_lookup_finds_that_variant(arts: Map<u32, ArtifactView>, id: u32)
    ensures
        ids_of_kind(arts, ArtifactKindName::Book).contains(id) <==> arts.contains_key(id)
            && arts[id].kind is Book,
        ids_of_kind(arts, ArtifactKindName::AudioBook).contains(id) <==> arts.contains_key(id)
            && arts[id].kind is AudioBook,
        ids_of_kind(arts, ArtifactKindName::Statue).contains(id) <==> arts.contains_key(id)
            && arts[id].kind is Statue,
        ids_of_kind(arts, ArtifactKindName::Painting).contains(id) <==> arts.contains_key(id)
            && arts[id].kind is Painting,
{
}

/// What a library holds: its artifacts by id, and the kinds it has ever held.
pub struct LibraryView {
    pub artifacts: Map<u32, ArtifactView>,
    pub kinds_seen: Set<ArtifactKindName>,
}

/// The library after registering a new artifact.
pub open spec fn with_artifact(v: LibraryView, a: ArtifactView) -> LibraryView {
    LibraryView {
        artifacts: v.artifacts.insert(a.id, a),
        kinds_seen: v.kinds_seen.insert(kind_name_of(a.kind)),
    }
}

/// The library after registering, in order, each artifact whose id is not taken yet.
pub open spec fn with_artifacts(v: LibraryView, arts: Seq<ArtifactView>) -> LibraryView
    decreases arts.len(),
{
    if arts.len() == 0 {
        v
    } else {
        let prev = with_artifacts(v, arts.drop_last());
        if prev.artifacts.contains_key(arts.last().id) {
            prev
        } else {
            with_artifact(prev, arts.last())
        }
    }
}

/// The library with nothing in it.
pub open spec fn empty_library() -> LibraryView {
    LibraryView { artifacts: Map::empty(), kinds_seen: Set::empty() }
}

/// An artifact's view with a new unit count.
pub open spec fn with_units(a: ArtifactView, units: u32) -> ArtifactView {
    ArtifactView { units, ..a }
}

/// The library with the unit count of artifact `id` set to `units`.
pub open spec fn with_unit_count(v: LibraryView, id: u32, units: u32) -> LibraryView {
    LibraryView {
        artifacts: v.artifacts.insert(id, with_units(v.artifacts[id], units)),
        kinds_seen: v.kinds_seen,
    }
}

/// The library without artifact `id`; the kinds seen stay.
pub open spec fn without_artifact(v: LibraryView, id: u32) -> LibraryView {
    LibraryView { artifacts: v.artifacts.remove(id), kinds_seen: v.kinds_seen }
}

/// Returning the units just lent gives back the library as it was.
pub proof fn law_return_undoes_lend(v: LibraryView, id: u32, units: u32)
    requires
        v.artifacts.contains_key(id),
        units <= v.artifacts[id].units,
    ensures
        ({
            let lent = with_unit_count(v, id, (v.artifacts[id].units - units) as u32);
            with_unit_count(lent, id, (lent.artifacts[id].units + units) as u32)
        }) == v,
{
    let lent = with_unit_count(v, id, (v.artifacts[id].units - units) as u32);
    let back = with_unit_count(lent, id, (lent.artifacts[id].units + units) as u32);
    assert(back.artifacts =~= v.artifacts);
}

/// Lending the units just returned gives back the library as it was.
pub proof fn law_lend_undoes_return(v: LibraryView, id: u32, units: u32)
    requires
        v.artifacts.contains_key(id),
        v.artifacts[id].units + units <= u32::MAX,
    ensures
        ({
            let returned = with_unit_count(v, id, (v.artifacts[id].units + units) as u32);
            with_unit_count(returned, id, (returned.artifacts[id].units - units) as u32)
        }) == v,
{
    let returned = with_unit_count(v, id, (v.artifacts[id].units + units) as u32);
    let back = with_unit_count(returned, id, (returned.artifacts[id].units - units) as u32);
    assert(back.artifacts =~= v.artifacts);
}

/// An artifact just registered is found by its id, its title, its author, each
/// of its keywords and its kind.
pub proof fn law_added_artifact_is_found(v: LibraryView, a: ArtifactView)
    requires
        !v.artifacts.contains_key(a.id),
    ensures
        with_artifact(v, a).artifacts.contains_key(a.id),
        with_artifact(v, a).artifacts[a.id] == a,
        index_by(with_artifact(v, a).artifacts, |x: ArtifactView| title_keys(x))[a.title].contains(a.id),
        index_by(with_artifact(v, a).artifacts, |x: ArtifactView| author_keys(x))[a.author].contains(a.id),
        forall|i: int|
            0 <= i < a.keywords.len() ==> index_by(
                with_artifact(v, a).artifacts,
                |x: ArtifactView| keyword_keys(x),
            )[#[trigger] a.keywords[i]].contains(a.id),
        ids_of_kind(with_artifact(v, a).artifacts, kind_name_of(a.kind)).contains(a.id),
        with_artifact(v, a).kinds_seen.contains(kind_name_of(a.kind)),
{
    let arts = with_artifact(v, a).artifacts;
    assert(arts[a.id] == a);
    let tk = |x: ArtifactView| title_keys(x);
    let ak = |x: ArtifactView| author_keys(x);
    assert(arts.contains_key(a.id) && tk(arts[a.id]).contains(a.title));
    assert(index_by(arts, tk).contains_key(a.title));
    assert(arts.contains_key(a.id) && ak(arts[a.id]).contains(a.author));
    assert(index_by(arts, ak).contains_key(a.author));
    assert forall|i: int| 0 <= i < a.keywords.len() implies index_by(arts, |x: ArtifactView| keyword_keys(x))[
        #[trigger] a.keywords[i]].contains(a.id) by {
        let k = a.keywords[i];
        let kk = |x: ArtifactView| keyword_keys(x);
        assert(a.keywords.contains(k));
        assert(a.keywords.to_set().contains(k));
        assert(arts.contains_key(a.id) && kk(arts[a.id]).contains(k));
        assert(index_by(arts, kk).contains_key(k));
        assert(index_by(arts, kk)[k].contains(a.id));
    }
}

/// Removing an artifact just registered gives back the artifacts as they were;
/// the whole library comes back when its kind had been seen before.
pub proof fn law_remove_undoes_add(v: LibraryView, a: ArtifactView)
    requires
        !v.artifacts.contains_key(a.id),
    ensures
        without_artifact(with_artifact(v, a), a.id).artifacts == v.artifacts,
        v.kinds_seen.contains(kind_name_of(a.kind)) ==> without_artifact(with_artifact(v, a), a.id)
            == v,
{
    let back = without_artifact(with_artifact(v, a), a.id);
    assert(back.artifacts =~= v.artifacts);
    if v.kinds_seen.contains(kind_name_of(a.kind)) {
        assert(back.kinds_seen =~= v.kinds_seen);
    }
}

/// The views of the artifacts of a map.
pub open spec fn art_views(m: Map<u32, Artifact>) -> Map<u32, ArtifactView> {
    Map::new(|id: u32| m.contains_key(id), |id: u32| m[id]@)
}

/// The views of a sequence of artifacts.
pub open spec fn artifact_views(s: Seq<Artifact>) -> Seq<ArtifactView> {
    s.map_values(|a: Artifact| a@)
}

/// Whether `ids` lists the registered ids, each once.
pub open spec fn lists_ids(ids: Seq<u32>, v: LibraryView) -> bool {
    ids.to_set() == v.artifacts.dom() && ids.no_duplicates()
}

/// A library of books, audio books, statues and paintings, with reverse
/// indexes from titles, authors, keywords and kinds to ids.
#[derive(Debug)]
pub struct Library {
    artifacts: HashMap<u32, Artifact>,
    artifacts_by_title: TextIndex,
    artifacts_by_author: TextIndex,
    artifacts_by_keyword: TextIndex,
    artifacts_by_kind: KindIndex,
}

impl View for Library {
    type V = LibraryView;

    closed spec fn view(&self) -> LibraryView {
        LibraryView {
            artifacts: art_views(self.artifacts@),
            kinds_seen: self.artifacts_by_kind@.dom(),
        }
    }
}

impl Library {
    /// The indexes agree with the artifacts, and each artifact is stored under its own id.
    pub closed spec fn wf(&self) -> bool {
        let arts = art_views(self.artifacts@);
        &&& forall|id: u32| #[trigger] self.artifacts@.contains_key(id) ==> self.artifacts@[id].id == id
        &&& self.artifacts_by_title.wf()
        &&& self.artifacts_by_author.wf()
        &&& self.artifacts_by_keyword.wf()
        &&& self.artifacts_by_title@ == index_by(arts, |a: ArtifactView| title_keys(a))
        &&& self.artifacts_by_author@ == index_by(arts, |a: ArtifactView| author_keys(a))
        &&& self.artifacts_by_keyword@ == index_by(arts, |a: ArtifactView| keyword_keys(a))
        &&& forall|id: u32| #[trigger]
            arts.contains_key(id) ==> self.artifacts_by_kind@.contains_key(
                kind_name_of(arts[id].kind),
            )
        &&& forall|k: ArtifactKindName| #[trigger]
            self.artifacts_by_kind@.contains_key(k) ==> self.artifacts_by_kind@[k] == ids_of_kind(
                arts,
                k,
            )
    }

    /// A library with no artifacts.
    fn empty() -> (lib: Self)
        ensures
            lib.wf(),
            lib@ == empty_library(),
    {
        let lib = Library {
            artifacts: HashMap::new(),
            artifacts_by_title: TextIndex::new(),
            artifacts_by_author: TextIndex::new(),
            artifacts_by_keyword: TextIndex::new(),
            artifacts_by_kind: KindIndex::new(),
        };
        assert(art_views(lib.artifacts@) =~= Map::empty());
        assert(index_by(Map::empty(), |a: ArtifactView| title_keys(a)) =~= Map::empty());
        assert(index_by(Map::empty(), |a: ArtifactView| author_keys(a)) =~= Map::empty());
        assert(index_by(Map::empty(), |a: ArtifactView| keyword_keys(a)) =~= Map::empty());
        assert(lib@.kinds_seen =~= Set::empty());
        lib
    }

    /// Whether an artifact with this id is registered.
    pub fn has_artifact(&self, id: u32) -> (r: bool)
        requires
            self.wf(),
        ensures
            r == self@.artifacts.contains_key(id),
    {
        self.artifacts.contains_key(&id)
    }

    /// The registered ids, each once, in no particular order.
    pub fn list_ids(&self) -> (ids: Vec<u32>)
        requires
            self.wf(),
        ensures
            lists_ids(ids@, self@),
    {
        let mut ids: Vec<u32> = Vec::new();
        let keys = self.artifacts.keys();
        assert(keys.remaining().unref().to_set() == self.artifacts@.dom());
        for k in it: keys
            invariant
                it.seq() == keys.remaining(),
                ids@ == it.seq().unref().take(it.index()),
        {
            let ghost before = ids@;
            ids.push(*k);
            assert(ids@ =~= it.seq().unref().take(it.index() + 1));
        }
        assert(ids@ =~= keys.remaining().unref());
        assert(art_views(self.artifacts@).dom() =~= self.artifacts@.dom());
        ids
    }

    /// Files `artifact` in the title, author, keyword and kind indexes.
    fn update_shared_reverse_maps_on_add(&mut self, artifact: &Artifact)
        requires
            old(self).artifacts_by_title.wf(),
            old(self).artifacts_by_author.wf(),
            old(self).artifacts_by_keyword.wf(),
        ensures
            final(self).artifacts == old(self).artifacts,
            final(self).artifacts_by_title.wf(),
            final(self).artifacts_by_author.wf(),
            final(self).artifacts_by_keyword.wf(),
            final(self).artifacts_by_title@ == grow(
                old(self).artifacts_by_title@,
                title_keys(artifact@),
                artifact.id,
            ),
            final(self).artifacts_by_author@ == grow(
                old(self).artifacts_by_author@,
                author_keys(artifact@),
                artifact.id,
            ),
            final(self).artifacts_by_keyword@ == grow(
                old(self).artifacts_by_keyword@,
                keyword_keys(artifact@),
                artifact.id,
            ),
            final(self).artifacts_by_kind@ == old(self).artifacts_by_kind@.insert(
                kind_name_of(artifact@.kind),
                if old(self).artifacts_by_kind@.contains_key(kind_name_of(artifact@.kind)) {
                    old(self).artifacts_by_kind@[kind_name_of(artifact@.kind)].insert(artifact.id)
                } else {
                    set![artifact.id]
                },
            ),
    {
        let id = artifact.id;
        proof {
            lemma_grow_one(self.artifacts_by_title@, artifact.title@, id);
            lemma_grow_one(self.artifacts_by_author@, artifact.author@, id);
        }
        self.artifacts_by_title.add(artifact.title.as_str(), id);
        self.artifacts_by_author.add(artifact.author.as_str(), id);

        let ghost m0 = self.artifacts_by_keyword@;
        let ghost kws = views_of(artifact.keywords@);
        let ghost titles = self.artifacts_by_title;
        let ghost authors = self.artifacts_by_author;
        let ghost kinds = self.artifacts_by_kind;
        proof {
            lemma_empty_keys(m0, id);
            assert(kws.take(0).to_set() =~= Set::<Seq<char>>::empty());
        }
        let mut j: usize = 0;
        while j < artifact.keywords.len()
            invariant
                j <= artifact.keywords@.len(),
                kws == views_of(artifact.keywords@),
                self.artifacts == old(self).artifacts,
                self.artifacts_by_title == titles,
                self.artifacts_by_author == authors,
                self.artifacts_by_kind == kinds,
                self.artifacts_by_keyword.wf(),
                self.artifacts_by_keyword@ == grow(m0, kws.take(j as int).to_set(), id),
            decreases artifact.keywords@.len() - j,
        {
            let ghost m = self.artifacts_by_keyword@;
            let ghost k = artifact.keywords@[j as int]@;
            proof {
                lemma_grow_one(m, k, id);
                lemma_grow_twice(m0, kws.take(j as int).to_set(), set![k], id);
                assert(kws[j as int] == k);
                assert(kws.take(j + 1) =~= kws.take(j as int).push(k));
                assert(kws.take(j + 1).to_set() =~= kws.take(j as int).to_set() + set![k]) by {
                    broadcast use vstd::seq_lib::group_seq_properties;
                }
            }
            self.artifacts_by_keyword.add(artifact.keywords[j].as_str(), id);
            j += 1;
        }
        assert(kws.take(kws.len() as int) =~= kws);
        self.artifacts_by_kind.add(artifact.kind.name(), id);
    }

    /// Files `artifact` in every index.
    fn update_reverse_maps_on_add(&mut self, artifact: &Artifact)
        requires
            old(self).artifacts_by_title.wf(),
            old(self).artifacts_by_author.wf(),
            old(self).artifacts_by_keyword.wf(),
        ensures
            final(self).artifacts == old(self).artifacts,
            final(self).artifacts_by_title.wf(),
            final(self).artifacts_by_author.wf(),
            final(self).artifacts_by_keyword.wf(),
            final(self).artifacts_by_title@ == grow(
                old(self).artifacts_by_title@,
                title_keys(artifact@),
                artifact.id,
            ),
            final(self).artifacts_by_author@ == grow(
                old(self).artifacts_by_author@,
                author_keys(artifact@),
                artifact.id,
            ),
            final(self).artifacts_by_keyword@ == grow(
                old(self).artifacts_by_keyword@,
                keyword_keys(artifact@),
                artifact.id,
            ),
            final(self).artifacts_by_kind@ == old(self).artifacts_by_kind@.insert(
                kind_name_of(artifact@.kind),
                if old(self).artifacts_by_kind@.contains_key(kind_name_of(artifact@.kind)) {
                    old(self).artifacts_by_kind@[kind_name_of(artifact@.kind)].insert(artifact.id)
                } else {
                    set![artifact.id]
                },
            ),
    {
        self.update_shared_reverse_maps_on_add(artifact);
    }

    /// Registers a new artifact; an id already registered is refused.
    pub fn add_artifact(&mut self, artifact: Artifact) -> (r: Result<(), LibraryError>)
        requires
            old(self).wf(),
        ensures
            final(self).wf(),
            match r {
                Ok(()) => !old(self)@.artifacts.contains_key(artifact.id) && final(self)@
                    == with_artifact(old(self)@, artifact@),
                Err(LibraryError::DuplicatedId(id, ids)) => old(self)@.artifacts.contains_key(
                    artifact.id,
                ) && id == artifact.id && lists_ids(ids@, old(self)@) && final(self)@ == old(self)@,
                Err(_) => false,
            },
    {
        if self.has_artifact(artifact.id) {
            let ids = self.list_ids();
            return Err(LibraryError::DuplicatedId(artifact.id, ids));
        }
        let ghost arts = art_views(self.artifacts@);
        let ghost a = artifact@;
        let ghost old_kind = self.artifacts_by_kind@;
        self.update_reverse_maps_on_add(&artifact);
        let id = artifact.id;
        self.artifacts.insert(id, artifact);
        proof {
            let new_arts = art_views(self.artifacts@);
            assert(new_arts =~= arts.insert(id, a));
            lemma_index_insert(arts, |x: ArtifactView| title_keys(x), id, a);
            lemma_index_insert(arts, |x: ArtifactView| author_keys(x), id, a);
            lemma_index_insert(arts, |x: ArtifactView| keyword_keys(x), id, a);
            assert forall|k: ArtifactKindName| #[trigger]
                self.artifacts_by_kind@.contains_key(k) implies self.artifacts_by_kind@[k]
                == ids_of_kind(new_arts, k) by {
                assert(self.artifacts_by_kind@[k] =~= ids_of_kind(new_arts, k));
            }
            assert(self@.kinds_seen =~= old_kind.dom().insert(kind_name_of(a.kind)));
        }
        Ok(())
    }

    /// Takes the artifact with this id out of the title, author, keyword and
    /// kind indexes; keys may be left with empty sets.
    fn update_shared_reverse_maps_on_remove(&mut self, id: u32) -> (r: Result<(), LibraryError>)
        requires
            old(self).wf(),
        ensures
            final(self).artifacts == old(self).artifacts,
            match r {
                Ok(()) => {
                    let a = art_views(old(self).artifacts@)[id];
                    &&& old(self)@.artifacts.contains_key(id)
                    &&& final(self).artifacts_by_title.wf()
                    &&& final(self).artifacts_by_author.wf()
                    &&& final(self).artifacts_by_keyword.wf()
                    &&& final(self).artifacts_by_title@ == shrink(
                        old(self).artifacts_by_title@,
                        title_keys(a),
                        id,
                    )
                    &&& final(self).artifacts_by_author@ == shrink(
                        old(self).artifacts_by_author@,
                        author_keys(a),
                        id,
                    )
                    &&& final(self).artifacts_by_keyword@ == shrink(
                        old(self).artifacts_by_keyword@,
                        keyword_keys(a),
                        id,
                    )
                    &&& final(self).artifacts_by_kind@ == old(self).artifacts_by_kind@.insert(
                        kind_name_of(a.kind),
                        old(self).artifacts_by_kind@[kind_name_of(a.kind)].remove(id),
                    )
                },
                Err(LibraryError::IdNotAvailable(i, ids)) => !old(self)@.artifacts.contains_key(id)
                    && i == id && lists_ids(ids@, old(self)@) && *final(self) == *old(self),
                Err(_) => false,
            },
    {
        let ghost arts = art_views(self.artifacts@);
        let artifact = match self.artifacts.get(&id) {
            Some(a) => a,
            None => {
                let ids = self.list_ids();
                return Err(LibraryError::IdNotAvailable(id, ids));
            },
        };
        let ghost a = artifact@;
        assert(arts.contains_key(id) && arts[id] == a);
        proof {
            assert(title_keys(a).contains(a.title));
            assert(author_keys(a).contains(a.author));
            lemma_shrink_one(self.artifacts_by_title@, a.title, id);
            lemma_shrink_one(self.artifacts_by_author@, a.author, id);
        }
        self.artifacts_by_title.remove_id(artifact.title.as_str(), id);
        self.artifacts_by_author.remove_id(artifact.author.as_str(), id);

        let ghost m0 = self.artifacts_by_keyword@;
        let ghost kws = a.keywords;
        let ghost titles = self.artifacts_by_title;
        let ghost authors = self.artifacts_by_author;
        let ghost kinds = self.artifacts_by_kind;
        proof {
            lemma_empty_keys(m0, id);
            assert(kws.take(0).to_set() =~= Set::<Seq<char>>::empty());
        }
        let mut j: usize = 0;
        while j < artifact.keywords.len()
            invariant
                j <= artifact.keywords@.len(),
                kws == views_of(artifact.keywords@),
                arts.contains_key(id) && arts[id] == a,
                a == artifact@,
                m0 == index_by(arts, |x: ArtifactView| keyword_keys(x)),
                self.artifacts == old(self).artifacts,
                self.artifacts_by_title == titles,
                self.artifacts_by_author == authors,
                self.artifacts_by_kind == kinds,
                self.artifacts_by_keyword.wf(),
                self.artifacts_by_keyword@ == shrink(m0, kws.take(j as int).to_set(), id),
            decreases artifact.keywords@.len() - j,
        {
            let ghost m = self.artifacts_by_keyword@;
            let ghost k = artifact.keywords@[j as int]@;
            proof {
                assert(kws[j as int] == k);
                assert(keyword_keys(a).contains(k));
                assert(m0.contains_key(k));
                lemma_shrink_one(m, k, id);
                lemma_shrink_twice(m0, kws.take(j as int).to_set(), set![k], id);
                assert(kws.take(j + 1) =~= kws.take(j as int).push(k));
                assert(kws.take(j + 1).to_set() =~= kws.take(j as int).to_set() + set![k]) by {
                    broadcast use vstd::seq_lib::group_seq_properties;
                }
            }
            self.artifacts_by_keyword.remove_id(artifact.keywords[j].as_str(), id);
            j += 1;
        }
        assert(kws.take(kws.len() as int) =~= kws);
        let kind = artifact.kind.name();
        assert(self.artifacts_by_kind@.contains_key(kind));
        self.artifacts_by_kind.remove_id(kind, id);
        Ok(())
    }

    /// Drops the keys left with empty sets from the title, author and keyword indexes.
    fn cleanup_reverse_maps(&mut self)
        requires
            old(self).artifacts_by_title.wf(),
            old(self).artifacts_by_author.wf(),
            old(self).artifacts_by_keyword.wf(),
        ensures
            final(self).artifacts == old(self).artifacts,
            final(self).artifacts_by_kind == old(self).artifacts_by_kind,
            final(self).artifacts_by_title.wf(),
            final(self).artifacts_by_author.wf(),
            final(self).artifacts_by_keyword.wf(),
            final(self).artifacts_by_title@ == prune(old(self).artifacts_by_title@),
            final(self).artifacts_by_author@ == prune(old(self).artifacts_by_author@),
            final(self).artifacts_by_keyword@ == prune(old(self).artifacts_by_keyword@),
    {
        self.artifacts_by_title.drop_empty();
        self.artifacts_by_author.drop_empty();
        self.artifacts_by_keyword.drop_empty();
    }

    /// Takes the artifact with this id out of every index, dropping keys left empty.
    fn update_reverse_maps_on_remove(&mut self, id: u32) -> (r: Result<(), LibraryError>)
        requires
            old(self).wf(),
        ensures
            final(self).artifacts == old(self).artifacts,
            match r {
                Ok(()) => {
                    let a = art_views(old(self).artifacts@)[id];
                    &&& old(self)@.artifacts.contains_key(id)
                    &&& final(self).artifacts_by_title.wf()
                    &&& final(self).artifacts_by_author.wf()
                    &&& final(self).artifacts_by_keyword.wf()
                    &&& final(self).artifacts_by_title@ == prune(
                        shrink(old(self).artifacts_by_title@, title_keys(a), id),
                    )
                    &&& final(self).artifacts_by_author@ == prune(
                        shrink(old(self).artifacts_by_author@, author_keys(a), id),
                    )
                    &&& final(self).artifacts_by_keyword@ == prune(
                        shrink(old(self).artifacts_by_keyword@, keyword_keys(a), id),
                    )
                    &&& final(self).artifacts_by_kind@ == old(self).artifacts_by_kind@.insert(
                        kind_name_of(a.kind),
                        old(self).artifacts_by_kind@[kind_name_of(a.kind)].remove(id),
                    )
                },
                Err(LibraryError::IdNotAvailable(i, ids)) => !old(self)@.artifacts.contains_key(id)
                    && i == id && lists_ids(ids@, old(self)@) && *final(self) == *old(self),
                Err(_) => false,
            },
    {
        match self.update_shared_reverse_maps_on_remove(id) {
            Ok(()) => {},
            Err(e) => {
                return Err(e);
            },
        }
        self.cleanup_reverse_maps();
        Ok(())
    }

    /// Removes the artifact with this id; an unknown id is refused.
    pub fn remove_artifact(&mut self, id: u32) -> (r: Result<(), LibraryError>)
        requires
            old(self).wf(),
        ensures
            final(self).wf(),
            match r {
                Ok(()) => old(self)@.artifacts.contains_key(id) && final(self)@ == without_artifact(old(self)@, id),
                Err(LibraryError::IdNotAvailable(i, ids)) => !old(self)@.artifacts.contains_key(id)
                    && i == id && lists_ids(ids@, old(self)@) && final(self)@ == old(self)@,
                Err(_) => false,
            },
    {
        if !self.has_artifact(id) {
            let ids = self.list_ids();
            return Err(LibraryError::IdNotAvailable(id, ids));
        }
        let ghost arts = art_views(self.artifacts@);
        let ghost old_kind = self.artifacts_by_kind@;
        match self.update_reverse_maps_on_remove(id) {
            Ok(()) => {},
            Err(e) => {
                return Err(e);
            },
        }
        self.artifacts.remove(&id);
        proof {
            let new_arts = art_views(self.artifacts@);
            assert(new_arts =~= arts.remove(id));
            lemma_index_remove(arts, |x: ArtifactView| title_keys(x), id);
            lemma_index_remove(arts, |x: ArtifactView| author_keys(x), id);
            lemma_index_remove(arts, |x: ArtifactView| keyword_keys(x), id);
            assert forall|k: ArtifactKindName| #[trigger]
                self.artifacts_by_kind@.contains_key(k) implies self.artifacts_by_kind@[k]
                == ids_of_kind(new_arts, k) by {
                assert(self.artifacts_by_kind@[k] =~= ids_of_kind(new_arts, k));
            }
            assert(self@.kinds_seen =~= old_kind.dom());
        }
        Ok(())
    }

    /// Whether the artifact is registered with at least `units` units.
    pub fn has_available_artifact(&self, id: u32, units: u32) -> (r: bool)
        requires
            self.wf(),
        ensures
            r == (self@.artifacts.contains_key(id) && self@.artifacts[id].units >= units),
    {
        if self.has_artifact(id) {
            match self.artifacts.get(&id) {
                Some(artifact) => artifact.units >= units,
                None => false,
            }
        } else {
            false
        }
    }

    /// Whether the artifact is registered and of a kind that may be lent.
    pub fn can_lend(&self, id: u32) -> (r: bool)
        requires
            self.wf(),
        ensures
            r == (self@.artifacts.contains_key(id) && lendable(
                kind_name_of(self@.artifacts[id].kind),
            )),
    {
        match self.artifacts.get(&id) {
            Some(artifact) => match &artifact.kind {
                ArtifactKind::Book { .. } | ArtifactKind::AudioBook { .. } => true,
                ArtifactKind::Statue { .. } | ArtifactKind::Painting { .. } => false,
            },
            None => false,
        }
    }

    /// The ids of the artifacts with this title; `None` when there is none.
    pub fn find_artifact_by_title(&self, title: &str) -> (r: Option<&HashSet<u32>>)
        requires
            self.wf(),
        ensures
            match r {
                Some(s) => index_by(self@.artifacts, |a: ArtifactView| title_keys(a)).contains_key(
                    title@,
                ) && s@ == index_by(self@.artifacts, |a: ArtifactView| title_keys(a))[title@],
                None => !index_by(self@.artifacts, |a: ArtifactView| title_keys(a)).contains_key(
                    title@,
                ),
            },
    {
        self.artifacts_by_title.get(title)
    }

    /// The ids of the artifacts by this author; `None` when there is none.
    pub fn find_artifact_by_author(&self, author: &str) -> (r: Option<&HashSet<u32>>)
        requires
            self.wf(),
        ensures
            match r {
                Some(s) => index_by(self@.artifacts, |a: ArtifactView| author_keys(a)).contains_key(
                    author@,
                ) && s@ == index_by(self@.artifacts, |a: ArtifactView| author_keys(a))[author@],
                None => !index_by(self@.artifacts, |a: ArtifactView| author_keys(a)).contains_key(
                    author@,
                ),
            },
    {
        self.artifacts_by_author.get(author)
    }

    /// The ids of the artifacts of this kind; `None` when the library has never
    /// held an artifact of the kind (a kind once held keeps an entry, possibly empty).
    pub fn find_artifact_by_kind(&self, kind: ArtifactKindName) -> (r: Option<&HashSet<u32>>)
        requires
            self.wf(),
        ensures
            match r {
                Some(s) => self@.kinds_seen.contains(kind) && s@ == ids_of_kind(self@.artifacts, kind),
                None => !self@.kinds_seen.contains(kind),
            },
    {
        self.artifacts_by_kind.get(kind)
    }

    /// A copy of the artifact with this id, if registered.
    pub fn get_artifact_clone_by_id(&self, id: u32) -> (r: Option<Artifact>)
        requires
            self.wf(),
        ensures
            match r {
                Some(a) => self@.artifacts.contains_key(id) && a@ == self@.artifacts[id],
                None => !self@.artifacts.contains_key(id),
            },
    {
        if let Some(artifact) = self.artifacts.get(&id) {
            return Some(artifact.duplicate());
        }
        None
    }

    /// Sets the unit count of a registered artifact; the indexes do not change.
    fn set_units(&mut self, id: u32, units: u32)
        requires
            old(self).wf(),
            old(self)@.artifacts.contains_key(id),
        ensures
            final(self).wf(),
            final(self)@ == (LibraryView {
                artifacts: old(self)@.artifacts.insert(
                    id,
                    with_units(old(self)@.artifacts[id], units),
                ),
                kinds_seen: old(self)@.kinds_seen,
            }),
    {
        let ghost arts = art_views(self.artifacts@);
        match self.artifacts.remove(&id) {
            Some(mut artifact) => {
                artifact.units = units;
                self.artifacts.insert(id, artifact);
            },
            None => {},
        }
        proof {
            let new_arts = art_views(self.artifacts@);
            assert(new_arts =~= arts.insert(id, with_units(arts[id], units)));
            let b = with_units(arts[id], units);
            lemma_index_same_keys(arts, |x: ArtifactView| title_keys(x), id, b);
            lemma_index_same_keys(arts, |x: ArtifactView| author_keys(x), id, b);
            lemma_index_same_keys(arts, |x: ArtifactView| keyword_keys(x), id, b);
            assert forall|k: ArtifactKindName| #[trigger]
                self.artifacts_by_kind@.contains_key(k) implies self.artifacts_by_kind@[k]
                == ids_of_kind(new_arts, k) by {
                assert(ids_of_kind(new_arts, k) =~= ids_of_kind(arts, k));
            }
        }
    }

    /// Adds `units` units to a registered artifact; an unknown id is refused.
    pub fn increment_artifact_units(&mut self, id: u32, units: u32) -> (r: Result<
        (),
        LibraryError,
    >)
        requires
            old(self).wf(),
            old(self)@.artifacts.contains_key(id) ==> old(self)@.artifacts[id].units + units
                <= u32::MAX,
        ensures
            final(self).wf(),
            match r {
                Ok(()) => old(self)@.artifacts.contains_key(id) && final(self)@ == with_unit_count(old(self)@, id, (old(self)@.artifacts[id].units + units) as u32),
                Err(LibraryError::IdNotAvailable(i, ids)) => !old(self)@.artifacts.contains_key(id)
                    && i == id && lists_ids(ids@, old(self)@) && final(self)@ == old(self)@,
                Err(_) => false,
            },
    {
        let current = match self.artifacts.get(&id) {
            Some(artifact) => artifact.units,
            None => {
                let ids = self.list_ids();
                return Err(LibraryError::IdNotAvailable(id, ids));
            },
        };
        self.set_units(id, current + units);
        Ok(())
    }

    /// Takes `units` units from a registered artifact; an unknown id is refused.
    pub fn decrement_artifact_units(&mut self, id: u32, units: u32) -> (r: Result<
        (),
        LibraryError,
    >)
        requires
            old(self).wf(),
            old(self)@.artifacts.contains_key(id) ==> units <= old(self)@.artifacts[id].units,
        ensures
            final(self).wf(),
            match r {
                Ok(()) => old(self)@.artifacts.contains_key(id) && final(self)@ == with_unit_count(old(self)@, id, (old(self)@.artifacts[id].units - units) as u32),
                Err(LibraryError::IdNotAvailable(i, ids)) => !old(self)@.artifacts.contains_key(id)
                    && i == id && lists_ids(ids@, old(self)@) && final(self)@ == old(self)@,
                Err(_) => false,
            },
    {
        let current = match self.artifacts.get(&id) {
            Some(artifact) => artifact.units,
            None => {
                let ids = self.list_ids();
                return Err(LibraryError::IdNotAvailable(id, ids));
            },
        };
        self.set_units(id, current - units);
        Ok(())
    }

    /// Lends `units` units of an artifact. Refused, in this order of checks,
    /// for an unknown id, for a kind that cannot be lent, and when fewer units
    /// are on the shelf.
    pub fn lend_artifact(&mut self, id: u32, units: u32) -> (r: Result<(), LibraryError>)
        requires
            old(self).wf(),
        ensures
            final(self).wf(),
            match r {
                Ok(()) => old(self)@.artifacts.contains_key(id) && lendable(
                    kind_name_of(old(self)@.artifacts[id].kind),
                ) && old(self)@.artifacts[id].units >= units && final(self)@ == with_unit_count(old(self)@, id, (old(self)@.artifacts[id].units - units) as u32),
                Err(e) => final(self)@ == old(self)@ && match e {
                    LibraryError::IdNotAvailable(i, ids) => !old(self)@.artifacts.contains_key(id)
                        && i == id && lists_ids(ids@, old(self)@),
                    LibraryError::CannotLoan(name) => old(self)@.artifacts.contains_key(id) && name
                        == kind_name_of(old(self)@.artifacts[id].kind) && !lendable(name),
                    LibraryError::NotEnoughUnitsAvailable(requested, available) => old(
                        self,
                    )@.artifacts.contains_key(id) && lendable(
                        kind_name_of(old(self)@.artifacts[id].kind),
                    ) && requested == units && available == old(self)@.artifacts[id].units
                        && available < units,
                    _ => false,
                },
            },
    {
        if !self.has_artifact(id) {
            let ids = self.list_ids();
            return Err(LibraryError::IdNotAvailable(id, ids));
        }
        if !self.can_lend(id) {
            let name = match self.get_artifact_clone_by_id(id) {
                Some(artifact) => artifact.kind.name(),
                None => ArtifactKindName::Book,
            };
            return Err(LibraryError::CannotLoan(name));
        }
        if !self.has_available_artifact(id, units) {
            let available = match self.get_artifact_clone_by_id(id) {
                Some(artifact) => artifact.units,
                None => 0,
            };
            return Err(LibraryError::NotEnoughUnitsAvailable(units, available));
        }
        match self.decrement_artifact_units(id, units) {
            Ok(()) => Ok(()),
            Err(e) => Err(e),
        }
    }

    /// Takes back `units` units of an artifact. Refused, in this order of
    /// checks, for an unknown id and for a kind that cannot be lent.
    pub fn return_artifact(&mut self, id: u32, units: u32) -> (r: Result<(), LibraryError>)
        requires
            old(self).wf(),
            old(self)@.artifacts.contains_key(id) && lendable(
                kind_name_of(old(self)@.artifacts[id].kind),
            ) ==> old(self)@.artifacts[id].units + units <= u32::MAX,
        ensures
            final(self).wf(),
            match r {
                Ok(()) => old(self)@.artifacts.contains_key(id) && lendable(
                    kind_name_of(old(self)@.artifacts[id].kind),
                ) && final(self)@ == with_unit_count(old(self)@, id, (old(self)@.artifacts[id].units + units) as u32),
                Err(e) => final(self)@ == old(self)@ && match e {
                    LibraryError::IdNotAvailable(i, ids) => !old(self)@.artifacts.contains_key(id)
                        && i == id && lists_ids(ids@, old(self)@),
                    LibraryError::CannotLoan(name) => old(self)@.artifacts.contains_key(id) && name
                        == kind_name_of(old(self)@.artifacts[id].kind) && !lendable(name),
                    _ => false,
                },
            },
    {
        if !self.has_artifact(id) {
            let ids = self.list_ids();
            return Err(LibraryError::IdNotAvailable(id, ids));
        }
        if !self.can_lend(id) {
            let name = match self.get_artifact_clone_by_id(id) {
                Some(artifact) => artifact.kind.name(),
                None => ArtifactKindName::Book,
            };
            return Err(LibraryError::CannotLoan(name));
        }
        match self.increment_artifact_units(id, units) {
            Ok(()) => Ok(()),
            Err(e) => Err(e),
        }
    }

    /// Answers a keyword query such as `"rust OR go AND programming"`: the
    /// keywords and the operators `AND` / `OR` are told apart, and the query
    /// must have exactly one operator fewer than keywords, else it is
    /// malformed. The id sets of the keywords are then combined from left to
    /// right, the first with the second by the first operator, and so on; a
    /// keyword that no artifact has stands for the empty set. An empty query
    /// gives `None`.
    pub fn find_artifact_by_keyword(&self, query: &str) -> (r: Result<
        Option<HashSet<u32>>,
        LibraryError,
    >)
        requires
            self.wf(),
        ensures
            ({
                let tokens = words(query@);
                let ops = query_operators(tokens);
                let kws = query_keywords(tokens);
                let sets = keyword_sets(
                    kws,
                    index_by(self@.artifacts, |a: ArtifactView| keyword_keys(a)),
                );
                match r {
                    Ok(None) => ops.len() == 0 && kws.len() == 0,
                    Ok(Some(ids)) => kws.len() > 0 && ops.len() + 1 == kws.len() && ids@
                        == fold_query(sets[0], sets.drop_first(), ops),
                    Err(LibraryError::MalformedQuery(nk, no)) => (ops.len() > 0 || kws.len() > 0)
                        && ops.len() + 1 != kws.len() && nk == kws.len() && no == ops.len(),
                    Err(_) => false,
                }
            }),
    {
        proof {
            reveal_strlit("AND");
            reveal_strlit("OR");
        }
        let (operators, keywords) = split_query(query);
        if operators.len() == 0 && keywords.len() == 0 {
            return Ok(None);
        }
        if keywords.len() == 0 || operators.len() != keywords.len() - 1 {
            return Err(LibraryError::MalformedQuery(keywords.len(), operators.len()));
        }
        let ghost idx = index_by(art_views(self.artifacts@), |a: ArtifactView| keyword_keys(a));
        let ghost kws = views_of(keywords@);
        let ghost sets = keyword_sets(kws, idx);
        let ghost ops = operators@;
        assert(kws[0] == keywords@[0]@);
        let mut acc = match self.artifacts_by_keyword.get(keywords[0].as_str()) {
            Some(ids) => copy_ids(ids),
            None => HashSet::new(),
        };
        assert(acc@ =~= sets[0]);
        let mut k: usize = 1;
        assert(sets.skip(1) =~= sets.drop_first());
        assert(ops.skip(0) =~= ops);
        while k < keywords.len()
            invariant
                self.wf(),
                idx == self.artifacts_by_keyword@,
                kws == views_of(keywords@),
                sets == keyword_sets(kws, idx),
                ops == operators@,
                operators@.len() + 1 == keywords@.len(),
                1 <= k <= keywords@.len(),
                fold_query(acc@, sets.skip(k as int), ops.skip(k - 1)) == fold_query(
                    sets[0],
                    sets.drop_first(),
                    ops,
                ),
            decreases keywords@.len() - k,
        {
            assert(kws[k as int] == keywords@[k as int]@);
            assert(sets.skip(k as int)[0] == sets[k as int]);
            assert(sets.skip(k as int).drop_first() =~= sets.skip(k + 1));
            assert(ops.skip(k - 1)[0] == operators@[k - 1]);
            assert(ops.skip(k - 1).drop_first() =~= ops.skip(k as int));
            let found = self.artifacts_by_keyword.get(keywords[k].as_str());
            match operators[k - 1] {
                QueryOp::And => {
                    match found {
                        Some(ids) => {
                            acc = intersect_ids(&acc, ids);
                        },
                        None => {
                            let ghost before = acc@;
                            acc = HashSet::new();
                            assert(acc@ =~= before.intersect(Set::<u32>::empty()));
                        },
                    }
                },
                QueryOp::Or => {
                    match found {
                        Some(ids) => {
                            add_all_ids(&mut acc, ids);
                        },
                        None => {
                            assert(acc@.union(Set::<u32>::empty()) =~= acc@);
                        },
                    }
                },
            }
            k += 1;
        }
        assert(sets.skip(keywords@.len() as int).len() == 0);
        Ok(Some(acc))
    }
}

/// The error for a field that artifacts of the kind do not have.
pub open spec fn is_field_not_available(e: LibraryError, field: Seq<char>, kind: KindView) -> bool {
    match e {
        LibraryError::FieldNotAvailable(f, k) => f@ == field && k@ == kind_label(kind_name_of(kind)),
        _ => false,
    }
}

/// Builds the error for a field that artifacts of the kind do not have.
fn field_not_available(field: &str, kind: &ArtifactKind) -> (e: LibraryError)
    ensures
        is_field_not_available(e, field@, kind@),
{
    LibraryError::FieldNotAvailable(String::from_str(field), kind.name().label())
}

/// The operators and the keywords of a query, each in order.
fn split_query(query: &str) -> (r: (Vec<QueryOp>, Vec<String>))
    ensures
        r.0@ == query_operators(words(query@)),
        views_of(r.1@) == query_keywords(words(query@)),
{
        let tokens = split_words(query);
        let ghost ts = words(query@);
        let mut operators: Vec<QueryOp> = Vec::new();
        let mut keywords: Vec<String> = Vec::new();
        let mut i: usize = 0;
        while i < tokens.len()
            invariant
                views_of(tokens@) == ts,
                i <= tokens@.len(),
                operators@ == query_operators(ts.take(i as int)),
                views_of(keywords@) == query_keywords(ts.take(i as int)),
            decreases tokens@.len() - i,
        {
            let ghost t = ts[i as int];
            assert(tokens@[i as int]@ == t);
            assert(ts.take(i + 1).drop_last() =~= ts.take(i as int));
            assert(ts.take(i + 1).last() == t);
            if str_eq(tokens[i].as_str(), "AND") {
                operators.push(QueryOp::And);
            } else if str_eq(tokens[i].as_str(), "OR") {
                operators.push(QueryOp::Or);
            } else {
                let ghost before = keywords@;
                keywords.push(tokens[i].clone());
                assert(views_of(keywords@) =~= views_of(before).push(t));
            }
            i += 1;
        }
        assert(ts.take(ts.len() as int) =~= ts);
        (operators, keywords)
}

impl Library {
    /// A library holding the given artifacts; an artifact whose id is taken
    /// already is skipped. Always succeeds.
    pub fn new(artifacts: Vec<Artifact>) -> (r: Result<Library, LibraryError>)
        ensures
            match r {
                Ok(lib) => lib.wf() && lib@ == with_artifacts(
                    empty_library(),
                    artifact_views(artifacts@),
                ),
                Err(_) => false,
            },
    {
        let ghost all = artifact_views(artifacts@);
        let mut instance = Library::empty();
        let n = artifacts.len();
        let mut pending = artifacts;
        let mut i: usize = 0;
        while pending.len() > 0
            invariant
                instance.wf(),
                n == all.len(),
                i + pending@.len() == all.len(),
                artifact_views(pending@) == all.skip(i as int),
                instance@ == with_artifacts(empty_library(), all.take(i as int)),
            decreases pending@.len(),
        {
            let ghost before = pending@;
            let artifact = pending.remove(0);
            assert(artifact_views(before)[0] == artifact@);
            assert(pending@ =~= before.subrange(1, before.len() as int));
            assert(all.take(i + 1).drop_last() =~= all.take(i as int));
            assert(all.take(i + 1).last() == artifact@);
            assert forall|k: int| 0 <= k < pending@.len() implies #[trigger] artifact_views(pending@)[k]
                == all.skip(i + 1)[k] by {
                assert(pending@[k] == before[k + 1]);
                assert(artifact_views(before)[k + 1] == all.skip(i as int)[k + 1]);
            }
            assert(artifact_views(pending@) =~= all.skip(i + 1));
            match instance.add_artifact(artifact) {
                Ok(()) => {},
                Err(_) => {},
            }
            i += 1;
        }
        assert(all.take(i as int) =~= all);
        Ok(instance)
    }

    /// The page count of a book.
    pub fn get_pages(&self, artifact: &Artifact) -> (r: Result<u32, LibraryError>)
        ensures
            match (artifact@.kind, r) {
                (KindView::Book { pages, .. }, Ok(v)) => v == pages,
                (KindView::Book { .. }, Err(_)) => false,
                (_, Ok(_)) => false,
                (k, Err(e)) => is_field_not_available(e, "pages"@, k),
            },
    {
        match &artifact.kind {
            ArtifactKind::Book { pages, .. } => Ok(*pages),
            other => Err(field_not_available("pages", other)),
        }
    }

    /// The ISBN of a book.
    pub fn get_isbn(&self, artifact: &Artifact) -> (r: Result<String, LibraryError>)
        ensures
            match (artifact@.kind, r) {
                (KindView::Book { isbn, .. }, Ok(v)) => v@ == isbn,
                (KindView::Book { .. }, Err(_)) => false,
                (_, Ok(_)) => false,
                (k, Err(e)) => is_field_not_available(e, "isbn"@, k),
            },
    {
        match &artifact.kind {
            ArtifactKind::Book { isbn, .. } => Ok(isbn.clone()),
            other => Err(field_not_available("isbn", other)),
        }
    }

    /// The running time of an audio book.
    pub fn get_duration_minutes(&self, artifact: &Artifact) -> (r: Result<Measure, LibraryError>)
        ensures
            match (artifact@.kind, r) {
                (KindView::AudioBook { duration_minutes, .. }, Ok(v)) => v == duration_minutes,
                (KindView::AudioBook { .. }, Err(_)) => false,
                (_, Ok(_)) => false,
                (k, Err(e)) => is_field_not_available(e, "duration_minutes"@, k),
            },
    {
        match &artifact.kind {
            ArtifactKind::AudioBook { duration_minutes, .. } => Ok(*duration_minutes),
            other => Err(field_not_available("duration_minutes", other)),
        }
    }

    /// The narrator of an audio book.
    pub fn get_narrator(&self, artifact: &Artifact) -> (r: Result<String, LibraryError>)
        ensures
            match (artifact@.kind, r) {
                (KindView::AudioBook { narrator, .. }, Ok(v)) => v@ == narrator,
                (KindView::AudioBook { .. }, Err(_)) => false,
                (_, Ok(_)) => false,
                (k, Err(e)) => is_field_not_available(e, "narrator"@, k),
            },
    {
        match &artifact.kind {
            ArtifactKind::AudioBook { narrator, .. } => Ok(narrator.clone()),
            other => Err(field_not_available("narrator", other)),
        }
    }

    /// The width and depth of a statue or a painting.
    pub fn get_dimensions_cm(&self, artifact: &Artifact) -> (r: Result<
        (Measure, Measure),
        LibraryError,
    >)
        ensures
            match (artifact@.kind, r) {
                (KindView::Statue { dimensions_cm, .. }, Ok(v)) => v == dimensions_cm,
                (KindView::Painting { dimensions_cm, .. }, Ok(v)) => v == dimensions_cm,
                (KindView::Statue { .. }, Err(_)) => false,
                (KindView::Painting { .. }, Err(_)) => false,
                (_, Ok(_)) => false,
                (k, Err(e)) => is_field_not_available(e, "dimensions_cm"@, k),
            },
    {
        match &artifact.kind {
            ArtifactKind::Statue { dimensions_cm, .. } => Ok(*dimensions_cm),
            ArtifactKind::Painting { dimensions_cm, .. } => Ok(*dimensions_cm),
            other => Err(field_not_available("dimensions_cm", other)),
        }
    }

    /// The height of a statue.
    pub fn get_height_cm(&self, artifact: &Artifact) -> (r: Result<Measure, LibraryError>)
        ensures
            match (artifact@.kind, r) {
                (KindView::Statue { height_cm, .. }, Ok(v)) => v == height_cm,
                (KindView::Statue { .. }, Err(_)) => false,
                (_, Ok(_)) => false,
                (k, Err(e)) => is_field_not_available(e, "height_cm"@, k),
            },
    {
        match &artifact.kind {
            ArtifactKind::Statue { height_cm, .. } => Ok(*height_cm),
            other => Err(field_not_available("height_cm", other)),
        }
    }

    /// The weight of a statue.
    pub fn get_weight_kg(&self, artifact: &Artifact) -> (r: Result<Measure, LibraryError>)
        ensures
            match (artifact@.kind, r) {
                (KindView::Statue { weight_kg, .. }, Ok(v)) => v == weight_kg,
                (KindView::Statue { .. }, Err(_)) => false,
                (_, Ok(_)) => false,
                (k, Err(e)) => is_field_not_available(e, "weight_kg"@, k),
            },
    {
        match &artifact.kind {
            ArtifactKind::Statue { weight_kg, .. } => Ok(*weight_kg),
            other => Err(field_not_available("weight_kg", other)),
        }
    }

    /// The material of a statue.
    pub fn get_material(&self, artifact: &Artifact) -> (r: Result<String, LibraryError>)
        ensures
            match (artifact@.kind, r) {
                (KindView::Statue { material, .. }, Ok(v)) => v@ == material,
                (KindView::Statue { .. }, Err(_)) => false,
                (_, Ok(_)) => false,
                (k, Err(e)) => is_field_not_available(e, "material"@, k),
            },
    {
        match &artifact.kind {
            ArtifactKind::Statue { material, .. } => Ok(material.clone()),
            other => Err(field_not_available("material", other)),
        }
    }

    /// The style of a painting.
    pub fn get_style(&self, artifact: &Artifact) -> (r: Result<String, LibraryError>)
        ensures
            match (artifact@.kind, r) {
                (KindView::Painting { style, .. }, Ok(v)) => v@ == style,
                (KindView::Painting { .. }, Err(_)) => false,
                (_, Ok(_)) => false,
                (k, Err(e)) => is_field_not_available(e, "style"@, k),
            },
    {
        match &artifact.kind {
            ArtifactKind::Painting { style, .. } => Ok(style.clone()),
            other => Err(field_not_available("style", other)),
        }
    }

    /// The medium of a painting.
    pub fn get_medium(&self, artifact: &Artifact) -> (r: Result<String, LibraryError>)
        ensures
            match (artifact@.kind, r) {
                (KindView::Painting { medium, .. }, Ok(v)) => v@ == medium,
                (KindView::Painting { .. }, Err(_)) => false,
                (_, Ok(_)) => false,
                (k, Err(e)) => is_field_not_available(e, "medium"@, k),
            },
    {
        match &artifact.kind {
            ArtifactKind::Painting { medium, .. } => Ok(medium.clone()),
            other => Err(field_not_available("medium", other)),
        }
    }
}

/// The two operators of a keyword query.
#[derive(Debug, Clone, Copy, PartialEq, Eq, Structural)]
pub enum QueryOp {
    And,
    Or,
}

/// Whether a query token is an operator.
pub open spec fn is_operator(t: Seq<char>) -> bool {
    t == "AND"@ || t == "OR"@
}

/// The operator a token names.
pub open spec fn op_of(t: Seq<char>) -> QueryOp {
    if t == "AND"@ {
        QueryOp::And
    } else {
        QueryOp::Or
    }
}

/// The operators of a query, in order.
pub open spec fn query_operators(ts: Seq<Seq<char>>) -> Seq<QueryOp>
    decreases ts.len(),
{
    if ts.len() == 0 {
        seq![]
    } else if is_operator(ts.last()) {
        query_operators(ts.drop_last()).push(op_of(ts.last()))
    } else {
        query_operators(ts.drop_last())
    }
}

/// The keywords of a query (every token that is not an operator), in order.
pub open spec fn query_keywords(ts: Seq<Seq<char>>) -> Seq<Seq<char>>
    decreases ts.len(),
{
    if ts.len() == 0 {
        seq![]
    } else if is_operator(ts.last()) {
        query_keywords(ts.drop_last())
    } else {
        query_keywords(ts.drop_last()).push(ts.last())
    }
}

/// The id set of each keyword, in order; a keyword missing from the index
/// stands for the empty set.
pub open spec fn keyword_sets(kws: Seq<Seq<char>>, idx: Map<Seq<char>, Set<u32>>) -> Seq<Set<u32>> {
    Seq::new(
        kws.len(),
        |i: int|
            if idx.contains_key(kws[i]) {
                idx[kws[i]]
            } else {
                Set::empty()
            },
    )
}

/// One step of a query: intersect for `AND`, unite for `OR`.
pub open spec fn apply_op(acc: Set<u32>, op: QueryOp, s: Set<u32>) -> Set<u32> {
    match op {
        QueryOp::And => acc.intersect(s),
        QueryOp::Or => acc.union(s),
    }
}

/// `OR` keeps every id found so far and adds those of the next keyword, and
/// nothing else; `AND` keeps exactly the ids found so far that the next keyword
/// has too. So `k1 OR k2` answers the ids having either keyword and
/// `k1 AND k2` those having both.
pub proof fn law_query_operators(acc: Set<u32>, s: Set<u32>, x: u32)
    ensures
        apply_op(acc, QueryOp::Or, s).contains(x) <==> (acc.contains(x) || s.contains(x)),
        apply_op(acc, QueryOp::And, s).contains(x) <==> (acc.contains(x) && s.contains(x)),
        fold_query(acc, seq![s], seq![QueryOp::Or]).contains(x) <==> (acc.contains(x) || s.contains(x)),
        fold_query(acc, seq![s], seq![QueryOp::And]).contains(x) <==> (acc.contains(x) && s.contains(
            x,
        )),
        fold_query(acc, Seq::empty(), Seq::empty()) == acc,
{
    assert(seq![s].drop_first() =~= Seq::<Set<u32>>::empty());
    assert(seq![QueryOp::Or].drop_first() =~= Seq::<QueryOp>::empty());
    assert(seq![QueryOp::And].drop_first() =~= Seq::<QueryOp>::empty());
    reveal_with_fuel(fold_query, 2);
}

/// A query is read from left to right: one more keyword and operator at the
/// end combine the answer to the shorter query with that keyword's ids.
pub proof fn law_query_reads_left_to_right(acc: Set<u32>, sets: Seq<Set<u32>>, ops: Seq<QueryOp>, t: Set<u32>, op: QueryOp)
    requires
        sets.len() == ops.len(),
    ensures
        fold_query(acc, sets.push(t), ops.push(op)) == apply_op(fold_query(acc, sets, ops), op, t),
    decreases sets.len(),
{
    if sets.len() == 0 {
        assert(sets.push(t).drop_first() =~= Seq::<Set<u32>>::empty());
        assert(ops.push(op).drop_first() =~= Seq::<QueryOp>::empty());
        reveal_with_fuel(fold_query, 2);
    } else {
        assert(sets.push(t).drop_first() =~= sets.drop_first().push(t));
        assert(ops.push(op).drop_first() =~= ops.drop_first().push(op));
        law_query_reads_left_to_right(apply_op(acc, ops[0], sets[0]), sets.drop_first(), ops.drop_first(), t, op);
    }
}

/// Combines `acc` with the sets in turn, the `i`-th set by the `i`-th operator,
/// until either list runs out.
pub open spec fn fold_query(acc: Set<u32>, sets: Seq<Set<u32>>, ops: Seq<QueryOp>) -> Set<u32>
    decreases sets.len(),
{
    if sets.len() == 0 || ops.len() == 0 {
        acc
    } else {
        fold_query(apply_op(acc, ops[0], sets[0]), sets.drop_first(), ops.drop_first())
    }
}

/// The four sample artifacts: a book, an audio book, a statue and a painting.
pub open spec fn example_artifacts() -> Seq<ArtifactView> {
    seq![
        ArtifactView {
            id: 1,
            units: 2,
            title: "The Rust Book"@,
            author: "Steve Klabnik"@,
            keywords: seq!["rust"@, "programming"@, "learning"@],
            kind: KindView::Book { pages: 552, isbn: "9781098122539"@ },
        },
        ArtifactView {
            id: 2,
            units: 1,
            title: "Rust Audio Guide"@,
            author: "Carol Nichols"@,
            keywords: seq!["rust"@, "audio"@, "learning"@],
            kind: KindView::AudioBook {
                duration_minutes: Measure { bits: 0x43a0_0000 },
                narrator: "Carol Nichols"@,
            },
        },
        ArtifactView {
            id: 3,
            units: 1,
            title: "Statue of Liberty"@,
            author: "Frédéric Auguste Bartholdi"@,
            keywords: seq!["monument"@, "art"@, "history"@],
            kind: KindView::Statue {
                dimensions_cm: (Measure { bits: 0x457a_0000 }, Measure { bits: 0x456d_8000 }),
                height_cm: Measure { bits: 0x4611_5000 },
                weight_kg: Measure { bits: 0x461c_4000 },
                material: "Copper"@,
            },
        },
        ArtifactView {
            id: 4,
            units: 1,
            title: "Starry Night"@,
            author: "Vincent van Gogh"@,
            keywords: seq!["painting"@, "art"@, "history"@],
            kind: KindView::Painting {
                dimensions_cm: (Measure { bits: 0x4348_0000 }, Measure { bits: 0x42c8_0000 }),
                style: "Post-Impressionism"@,
                medium: "Oil on canvas"@,
            },
        },
    ]
}

/// The four sample artifacts, built one by one.
pub fn example_artifact_list() -> (v: Vec<Artifact>)
    ensures
        artifact_views(v@) == example_artifacts(),
{
    let k1 = vec!["rust", "programming", "learning"];
    assert(str_views(k1@) =~= seq!["rust"@, "programming"@, "learning"@]);
    let a1 = Artifact::new(
        1,
        Some(2),
        "The Rust Book",
        "Steve Klabnik",
        k1,
        ArtifactKind::Book { pages: 552, isbn: String::from_str("9781098122539") },
    );
    let k2 = vec!["rust", "audio", "learning"];
    assert(str_views(k2@) =~= seq!["rust"@, "audio"@, "learning"@]);
    let a2 = Artifact::new(
        2,
        Some(1),
        "Rust Audio Guide",
        "Carol Nichols",
        k2,
        ArtifactKind::AudioBook {
            duration_minutes: Measure::from_bits(0x43a0_0000),
            narrator: String::from_str("Carol Nichols"),
        },
    );
    let k3 = vec!["monument", "art", "history"];
    assert(str_views(k3@) =~= seq!["monument"@, "art"@, "history"@]);
    let a3 = Artifact::new(
        3,
        None,
        "Statue of Liberty",
        "Frédéric Auguste Bartholdi",
        k3,
        ArtifactKind::Statue {
            material: String::from_str("Copper"),
            dimensions_cm: (Measure::from_bits(0x457a_0000), Measure::from_bits(0x456d_8000)),
            height_cm: Measure::from_bits(0x4611_5000),
            weight_kg: Measure::from_bits(0x461c_4000),
        },
    );
    let k4 = vec!["painting", "art", "history"];
    assert(str_views(k4@) =~= seq!["painting"@, "art"@, "history"@]);
    let a4 = Artifact::new(
        4,
        None,
        "Starry Night",
        "Vincent van Gogh",
        k4,
        ArtifactKind::Painting {
            dimensions_cm: (Measure::from_bits(0x4348_0000), Measure::from_bits(0x42c8_0000)),
            style: String::from_str("Post-Impressionism"),
            medium: String::from_str("Oil on canvas"),
        },
    );
    let v = vec![a1, a2, a3, a4];
    assert(artifact_views(v@) =~= example_artifacts());
    v
}

/// A library holding the four sample artifacts.
pub fn create_example_library() -> (lib: Library)
    ensures
        lib.wf(),
        lib@ == with_artifacts(empty_library(), example_artifacts()),
{
    match Library::new(example_artifact_list()) {
        Ok(lib) => lib,
        Err(_) => Library::empty(),
    }
}

} // verus!
