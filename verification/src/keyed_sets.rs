use vstd::prelude::*;
use crate::artifact::ArtifactView;

verus! {

/// For every key, the ids of the artifacts that `keys` files under it; a key
/// is present exactly when some artifact is filed under it.
pub open spec fn index_by(
    arts: Map<u32, ArtifactView>,
    keys: spec_fn(ArtifactView) -> Set<Seq<char>>,
) -> Map<Seq<char>, Set<u32>> {
    Map::new(
        |k: Seq<char>| exists|id: u32| #[trigger] arts.contains_key(id) && keys(arts[id]).contains(k),
        |k: Seq<char>| Set::new(|id: u32| arts.contains_key(id) && keys(arts[id]).contains(k)),
    )
}

/// The index after filing `id` under every key of `ks`.
pub open spec fn grow(m: Map<Seq<char>, Set<u32>>, ks: Set<Seq<char>>, id: u32) -> Map<
    Seq<char>,
    Set<u32>,
> {
    Map::new(
        |k: Seq<char>| m.contains_key(k) || ks.contains(k),
        |k: Seq<char>|
            if ks.contains(k) {
                (if m.contains_key(k) {
                    m[k]
                } else {
                    Set::empty()
                }).insert(id)
            } else {
                m[k]
            },
    )
}

/// The index after taking `id` out of the sets of every key of `ks`; keys stay.
pub open spec fn shrink(m: Map<Seq<char>, Set<u32>>, ks: Set<Seq<char>>, id: u32) -> Map<
    Seq<char>,
    Set<u32>,
> {
    Map::new(
        |k: Seq<char>| m.contains_key(k),
        |k: Seq<char>|
            if ks.contains(k) {
                m[k].remove(id)
            } else {
                m[k]
            },
    )
}

/// The index without its keys whose sets are empty.
pub open spec fn prune(m: Map<Seq<char>, Set<u32>>) -> Map<Seq<char>, Set<u32>> {
    m.restrict(Set::new(|k: Seq<char>| m.contains_key(k) && !m[k].is_empty()))
}

/// Filing a new artifact grows the index by its keys.
pub proof fn lemma_index_insert(
    arts: Map<u32, ArtifactView>,
    keys: spec_fn(ArtifactView) -> Set<Seq<char>>,
    id: u32,
    a: ArtifactView,
)
    requires
        !arts.contains_key(id),
    ensures
        index_by(arts.insert(id, a), keys) == grow(index_by(arts, keys), keys(a), id),
{
    let new_arts = arts.insert(id, a);
    let lhs = index_by(new_arts, keys);
    let rhs = grow(index_by(arts, keys), keys(a), id);
    assert forall|k: Seq<char>| #[trigger] lhs.contains_key(k) == rhs.contains_key(k) by {
        if lhs.contains_key(k) {
            let i = choose|i: u32| #[trigger] new_arts.contains_key(i) && keys(new_arts[i]).contains(k);
            if i != id {
                assert(arts.contains_key(i) && keys(arts[i]).contains(k));
            }
        }
        if rhs.contains_key(k) {
            if keys(a).contains(k) {
                assert(new_arts.contains_key(id) && keys(new_arts[id]).contains(k));
            } else {
                let i = choose|i: u32| #[trigger] arts.contains_key(i) && keys(arts[i]).contains(k);
                assert(new_arts.contains_key(i) && keys(new_arts[i]).contains(k));
            }
        }
    }
    assert forall|k: Seq<char>| #[trigger] lhs.contains_key(k) implies lhs[k] == rhs[k] by {
        assert(lhs[k] =~= rhs[k]);
    }
    assert(lhs =~= rhs);
}

/// Removing an artifact shrinks the index by its keys and drops keys left empty,
/// provided every key of the index has some artifact.
pub proof fn lemma_index_remove(
    arts: Map<u32, ArtifactView>,
    keys: spec_fn(ArtifactView) -> Set<Seq<char>>,
    id: u32,
)
    requires
        arts.contains_key(id),
    ensures
        index_by(arts.remove(id), keys) == prune(shrink(index_by(arts, keys), keys(arts[id]), id)),
{
    let new_arts = arts.remove(id);
    let m = index_by(arts, keys);
    let lhs = index_by(new_arts, keys);
    let s = shrink(m, keys(arts[id]), id);
    let rhs = prune(s);
    assert forall|k: Seq<char>| #[trigger] lhs.contains_key(k) == rhs.contains_key(k) by {
        if lhs.contains_key(k) {
            let i = choose|i: u32| #[trigger] new_arts.contains_key(i) && keys(new_arts[i]).contains(k);
            assert(arts.contains_key(i) && keys(arts[i]).contains(k));
            assert(s[k].contains(i));
        }
        if rhs.contains_key(k) {
            let i = s[k].choose();
            assert(s[k].contains(i));
            assert(new_arts.contains_key(i) && keys(new_arts[i]).contains(k));
        }
    }
    assert forall|k: Seq<char>| #[trigger] lhs.contains_key(k) implies lhs[k] == rhs[k] by {
        assert(lhs[k] =~= rhs[k]);
    }
    assert(lhs =~= rhs);
}

/// Growing by two key sets in turn is growing by their union.
pub proof fn lemma_grow_twice(m: Map<Seq<char>, Set<u32>>, s: Set<Seq<char>>, t: Set<Seq<char>>, id: u32)
    ensures
        grow(grow(m, s, id), t, id) == grow(m, s + t, id),
{
    let lhs = grow(grow(m, s, id), t, id);
    let rhs = grow(m, s + t, id);
    assert forall|k: Seq<char>| #[trigger] lhs.contains_key(k) implies lhs[k] == rhs[k] by {
        assert(lhs[k] =~= rhs[k]);
    }
    assert(lhs =~= rhs);
}

/// Shrinking by two key sets in turn is shrinking by their union.
pub proof fn lemma_shrink_twice(
    m: Map<Seq<char>, Set<u32>>,
    s: Set<Seq<char>>,
    t: Set<Seq<char>>,
    id: u32,
)
    ensures
        shrink(shrink(m, s, id), t, id) == shrink(m, s + t, id),
{
    let lhs = shrink(shrink(m, s, id), t, id);
    let rhs = shrink(m, s + t, id);
    assert forall|k: Seq<char>| #[trigger] lhs.contains_key(k) implies lhs[k] == rhs[k] by {
        assert(lhs[k] =~= rhs[k]);
    }
    assert(lhs =~= rhs);
}

/// Growing by one key is inserting the grown set under it.
pub proof fn lemma_grow_one(m: Map<Seq<char>, Set<u32>>, k: Seq<char>, id: u32)
    ensures
        grow(m, set![k], id) == m.insert(
            k,
            if m.contains_key(k) {
                m[k].insert(id)
            } else {
                set![id]
            },
        ),
{
    let lhs = grow(m, set![k], id);
    let rhs = m.insert(k, if m.contains_key(k) { m[k].insert(id) } else { set![id] });
    assert forall|q: Seq<char>| #[trigger] lhs.contains_key(q) implies lhs[q] == rhs[q] by {
        assert(lhs[q] =~= rhs[q]);
    }
    assert(lhs =~= rhs);
}

/// Shrinking by one present key is inserting the shrunk set under it.
pub proof fn lemma_shrink_one(m: Map<Seq<char>, Set<u32>>, k: Seq<char>, id: u32)
    requires
        m.contains_key(k),
    ensures
        shrink(m, set![k], id) == m.insert(k, m[k].remove(id)),
{
    let lhs = shrink(m, set![k], id);
    let rhs = m.insert(k, m[k].remove(id));
    assert(lhs =~= rhs);
}

/// Growing by no keys, or shrinking by none, changes nothing.
pub proof fn lemma_empty_keys(m: Map<Seq<char>, Set<u32>>, id: u32)
    ensures
        grow(m, Set::empty(), id) == m,
        shrink(m, Set::empty(), id) == m,
{
    assert(grow(m, Set::empty(), id) =~= m);
    assert(shrink(m, Set::empty(), id) =~= m);
}

/// Replacing an artifact by one filed under the same keys leaves the index as it is.
pub proof fn lemma_index_same_keys(
    arts: Map<u32, ArtifactView>,
    keys: spec_fn(ArtifactView) -> Set<Seq<char>>,
    id: u32,
    b: ArtifactView,
)
    requires
        arts.contains_key(id),
        keys(b) == keys(arts[id]),
    ensures
        index_by(arts.insert(id, b), keys) == index_by(arts, keys),
{
    let new_arts = arts.insert(id, b);
    let lhs = index_by(new_arts, keys);
    let rhs = index_by(arts, keys);
    assert forall|k: Seq<char>| #[trigger] lhs.contains_key(k) == rhs.contains_key(k) by {
        if lhs.contains_key(k) {
            let i = choose|i: u32| #[trigger] new_arts.contains_key(i) && keys(new_arts[i]).contains(k);
            assert(arts.contains_key(i) && keys(arts[i]).contains(k));
        }
        if rhs.contains_key(k) {
            let i = choose|i: u32| #[trigger] arts.contains_key(i) && keys(arts[i]).contains(k);
            assert(new_arts.contains_key(i) && keys(new_arts[i]).contains(k));
        }
    }
    assert forall|k: Seq<char>| #[trigger] lhs.contains_key(k) implies lhs[k] == rhs[k] by {
        assert(lhs[k] =~= rhs[k]);
    }
    assert(lhs =~= rhs);
}

} // verus!
