use vstd::prelude::*;
use std::collections::HashSet;
use crate::artifact::{kind_name_of, lendable, Artifact, ArtifactKindName, ArtifactView};
use crate::artifact_library::{
    with_unit_count, without_artifact,
    artifact_views, author_keys, empty_library, example_artifact_list, example_artifacts,
    fold_query, ids_of_kind, keyword_keys, keyword_sets, lists_ids, query_keywords,
    query_operators, title_keys, with_artifact, with_artifacts, with_units, LibraryError,
    LibraryView,
};
use crate::keyed_sets::index_by;
use crate::text::words;

verus! {

/// The same library of artifacts, with an interface that does not report
/// errors: operations on unknown ids do nothing, lookups of absent keys are
/// ruled out by their preconditions, and a malformed query gives `None`.
#[derive(Debug)]
pub struct Library {
    inner: crate::artifact_library::Library,
}

impl View for Library {
    type V = LibraryView;

    closed spec fn view(&self) -> LibraryView {
        self.inner@
    }
}

/// Whether no two artifacts of the list share an id.
pub open spec fn distinct_ids(arts: Seq<ArtifactView>) -> bool {
    forall|i: int, j: int| 0 <= i < j < arts.len() ==> #[trigger] arts[i].id != #[trigger] arts[j].id
}

impl Library {
    /// The library is well formed.
    pub closed spec fn wf(&self) -> bool {
        self.inner.wf()
    }

    /// A library holding the given artifacts, whose ids must be distinct.
    pub fn new(artifacts: Vec<Artifact>) -> (lib: Self)
        requires
            distinct_ids(artifact_views(artifacts@)),
        ensures
            lib.wf(),
            lib@ == with_artifacts(empty_library(), artifact_views(artifacts@)),
    {
        let inner = crate::artifact_library::Library::new(artifacts).unwrap();
        Library { inner }
    }

    /// The registered ids, each once, in no particular order.
    pub fn list_ids(&self) -> (ids: Vec<u32>)
        requires
            self.wf(),
        ensures
            lists_ids(ids@, self@),
    {
        self.inner.list_ids()
    }

    /// Whether an artifact with this id is registered.
    pub fn has_artifact(&self, id: u32) -> (r: bool)
        requires
            self.wf(),
        ensures
            r == self@.artifacts.contains_key(id),
    {
        self.inner.has_artifact(id)
    }

    /// Whether the artifact is registered with at least `units` units.
    pub fn has_available_artifact(&self, id: u32, units: u32) -> (r: bool)
        requires
            self.wf(),
        ensures
            r == (self@.artifacts.contains_key(id) && self@.artifacts[id].units >= units),
    {
        self.inner.has_available_artifact(id, units)
    }

    /// Whether the registered artifact is of a kind that may be lent.
    pub fn can_lend(&self, id: u32) -> (r: bool)
        requires
            self.wf(),
            self@.artifacts.contains_key(id),
        ensures
            r == lendable(kind_name_of(self@.artifacts[id].kind)),
    {
        self.inner.can_lend(id)
    }

    /// The ids of the artifacts with this title, which some artifact must have.
    pub fn find_artifact_by_title(&self, title: &str) -> (r: &HashSet<u32>)
        requires
            self.wf(),
            index_by(self@.artifacts, |a: ArtifactView| title_keys(a)).contains_key(title@),
        ensures
            r@ == index_by(self@.artifacts, |a: ArtifactView| title_keys(a))[title@],
    {
        self.inner.find_artifact_by_title(title).unwrap()
    }

    /// The ids of the artifacts by this author, which some artifact must have.
    pub fn find_artifact_by_author(&self, author: &str) -> (r: &HashSet<u32>)
        requires
            self.wf(),
            index_by(self@.artifacts, |a: ArtifactView| author_keys(a)).contains_key(author@),
        ensures
            r@ == index_by(self@.artifacts, |a: ArtifactView| author_keys(a))[author@],
    {
        self.inner.find_artifact_by_author(author).unwrap()
    }

    /// Answers a keyword query as the error-reporting library does, but gives
    /// `None` both for an empty and for a malformed query.
    pub fn find_artifact_by_keyword(&self, query: &str) -> (r: Option<HashSet<u32>>)
        requires
            self.wf(),
        ensures
            ({
                let tokens = words(query@);
                let ops = query_operators(tokens);
                let kws = query_keywords(tokens);
                let sets = keyword_sets(kws, index_by(self@.artifacts, |a: ArtifactView| keyword_keys(a)));
                match r {
                    None => ops.len() + 1 != kws.len(),
                    Some(ids) => ops.len() + 1 == kws.len() && ids@ == fold_query(
                        sets[0],
                        sets.drop_first(),
                        ops,
                    ),
                }
            }),
    {
        match self.inner.find_artifact_by_keyword(query) {
            Ok(found) => found,
            Err(_) => None,
        }
    }

    /// The ids of the artifacts of a kind the library has held.
    pub fn find_artifact_by_kind(&self, kind: ArtifactKindName) -> (r: &HashSet<u32>)
        requires
            self.wf(),
            self@.kinds_seen.contains(kind),
        ensures
            r@ == ids_of_kind(self@.artifacts, kind),
    {
        self.inner.find_artifact_by_kind(kind).unwrap()
    }

    /// A copy of the artifact with this id, if registered.
    pub fn get_artifact_clone_by_id(&self, id: u32) -> (r: Option<Artifact>)
        requires
            self.wf(),
        ensures
            match r {
                Some(a) => self@.artifacts.contains_key(id) && a@ == self@.artifacts[id],
                None => !self@.artifacts.contains_key(id),
            },
    {
        self.inner.get_artifact_clone_by_id(id)
    }

    /// Registers an artifact whose id is not taken yet.
    pub fn add_artifact(&mut self, artifact: Artifact)
        requires
            old(self).wf(),
            !old(self)@.artifacts.contains_key(artifact.id),
        ensures
            final(self).wf(),
            final(self)@ == with_artifact(old(self)@, artifact@),
    {
        let _ = self.inner.add_artifact(artifact);
    }

    /// Adds `units` units to a registered artifact.
    pub fn increment_artifact_units(&mut self, id: u32, units: u32)
        requires
            old(self).wf(),
            old(self)@.artifacts.contains_key(id),
            old(self)@.artifacts[id].units + units <= u32::MAX,
        ensures
            final(self).wf(),
            final(self)@ == with_unit_count(old(self)@, id, (old(self)@.artifacts[id].units + units) as u32),
    {
        let _ = self.inner.increment_artifact_units(id, units);
    }

    /// Takes `units` units from a registered artifact that has them.
    pub fn decrement_artifact_units(&mut self, id: u32, units: u32)
        requires
            old(self).wf(),
            old(self)@.artifacts.contains_key(id),
            units <= old(self)@.artifacts[id].units,
        ensures
            final(self).wf(),
            final(self)@ == with_unit_count(old(self)@, id, (old(self)@.artifacts[id].units - units) as u32),
    {
        let _ = self.inner.decrement_artifact_units(id, units);
    }

    /// Removes the artifact with this id; an unknown id changes nothing.
    pub fn remove_artifact(&mut self, id: u32)
        requires
            old(self).wf(),
        ensures
            final(self).wf(),
            final(self)@ == without_artifact(old(self)@, id),
    {
        if self.has_artifact(id) {
            let _ = self.inner.remove_artifact(id);
        } else {
            assert(self@.artifacts.remove(id) =~= self@.artifacts);
        }
    }

    /// Lends `units` units when the artifact has them and may be lent;
    /// otherwise nothing changes.
    pub fn lend_artifact(&mut self, id: u32, units: u32)
        requires
            old(self).wf(),
        ensures
            final(self).wf(),
            final(self)@ == (if old(self)@.artifacts.contains_key(id) && old(self)@.artifacts[id].units
                >= units && lendable(kind_name_of(old(self)@.artifacts[id].kind)) {
                with_unit_count(old(self)@, id, (old(self)@.artifacts[id].units - units) as u32)
            } else {
                old(self)@
            }),
    {
        if self.has_available_artifact(id, units) && self.can_lend(id) {
            self.decrement_artifact_units(id, units);
        }
    }

    /// Takes back `units` units of a registered artifact that may be lent;
    /// otherwise nothing changes.
    pub fn return_artifact(&mut self, id: u32, units: u32)
        requires
            old(self).wf(),
            old(self)@.artifacts.contains_key(id) && lendable(
                kind_name_of(old(self)@.artifacts[id].kind),
            ) ==> old(self)@.artifacts[id].units + units <= u32::MAX,
        ensures
            final(self).wf(),
            final(self)@ == (if old(self)@.artifacts.contains_key(id) && lendable(
                kind_name_of(old(self)@.artifacts[id].kind),
            ) {
                with_unit_count(old(self)@, id, (old(self)@.artifacts[id].units + units) as u32)
            } else {
                old(self)@
            }),
    {
        if self.has_artifact(id) && self.can_lend(id) {
            self.increment_artifact_units(id, units);
        }
    }
}

/// A library holding the four sample artifacts.
pub fn create_example_library() -> (lib: Library)
    ensures
        lib.wf(),
        lib@ == with_artifacts(empty_library(), example_artifacts()),
{
    let artifacts = example_artifact_list();
    assert(distinct_ids(artifact_views(artifacts@)));
    Library::new(artifacts)
}

} // verus!
