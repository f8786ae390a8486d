use vstd::prelude::*;
use std::collections::HashSet;
use vstd::std_specs::iter::IteratorSpec;

verus! {

broadcast use vstd::std_specs::hash::group_hash_axioms;

/// A copy of a set of ids.
pub fn copy_ids(s: &HashSet<u32>) -> (r: HashSet<u32>)
    ensures
        r@ == s@,
{
    let mut r: HashSet<u32> = HashSet::new();
    let items = s.iter();
    let ghost all = items.remaining().unref();
    assert(all.to_set() == s@);
    for x in it: items
        invariant
            it.seq() == items.remaining(),
            all == items.remaining().unref(),
            r@ == all.take(it.index()).to_set(),
    {
        proof {
            assert(all.take(it.index() + 1) =~= all.take(it.index()).push(*x));
            broadcast use vstd::seq_lib::group_seq_properties;
        }
        r.insert(*x);
        assert(r@ =~= all.take(it.index() + 1).to_set()) by {
            broadcast use vstd::seq_lib::group_seq_properties;
        }
    }
    assert(all.take(all.len() as int) =~= all);
    r
}

/// The ids of `a` that are also in `b`.
pub fn intersect_ids(a: &HashSet<u32>, b: &HashSet<u32>) -> (r: HashSet<u32>)
    ensures
        r@ == a@.intersect(b@),
{
    let mut r: HashSet<u32> = HashSet::new();
    let items = a.iter();
    let ghost all = items.remaining().unref();
    assert(all.to_set() == a@);
    for x in it: items
        invariant
            it.seq() == items.remaining(),
            all == items.remaining().unref(),
            r@ == all.take(it.index()).to_set().intersect(b@),
    {
        let ghost before = r@;
        proof {
            assert(all.take(it.index() + 1) =~= all.take(it.index()).push(*x));
        }
        if b.contains(x) {
            r.insert(*x);
        }
        assert(r@ =~= all.take(it.index() + 1).to_set().intersect(b@)) by {
            broadcast use vstd::seq_lib::group_seq_properties;
        }
    }
    assert(all.take(all.len() as int) =~= all);
    r
}

/// Adds every id of `b` to `a`.
pub fn add_all_ids(a: &mut HashSet<u32>, b: &HashSet<u32>)
    ensures
        final(a)@ == old(a)@.union(b@),
{
    let items = b.iter();
    let ghost all = items.remaining().unref();
    let ghost start = a@;
    assert(all.to_set() == b@);
    for x in it: items
        invariant
            it.seq() == items.remaining(),
            all == items.remaining().unref(),
            a@ == start.union(all.take(it.index()).to_set()),
    {
        proof {
            assert(all.take(it.index() + 1) =~= all.take(it.index()).push(*x));
        }
        a.insert(*x);
        assert(a@ =~= start.union(all.take(it.index() + 1).to_set())) by {
            broadcast use vstd::seq_lib::group_seq_properties;
        }
    }
    assert(all.take(all.len() as int) =~= all);
}

} // verus!
