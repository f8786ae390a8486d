use vstd::prelude::*;
use vstd::laws_cmp::{obeys_cmp, obeys_cmp_ord, obeys_cmp_partial_ord, obeys_partial_cmp_spec_properties};
use vstd::laws_eq::obeys_eq_spec_properties;
use vstd::std_specs::cmp::{OrdSpec, PartialOrdSpec};
use core::cmp::Ordering;

verus! {

/// `a` may stand before `b` in sorted order: `a` is not greater than `b`.
pub open spec fn in_order<T: PartialOrd>(a: T, b: T) -> bool {
    a.partial_cmp_spec(&b) != Some(Ordering::Greater)
}

/// Every value of `s` within `lo..hi` stands in order with every later one there.
pub open spec fn sorted_between<T: PartialOrd>(s: Seq<T>, lo: int, hi: int) -> bool {
    forall|a: int, b: int| lo <= a < b < hi ==> in_order(#[trigger] s[a], #[trigger] s[b])
}

/// The whole sequence is sorted.
pub open spec fn sorted<T: PartialOrd>(s: Seq<T>) -> bool {
    sorted_between(s, 0, s.len() as int)
}

/// Neighbouring values are in order.
pub open spec fn adjacent_in_order<T: PartialOrd>(s: Seq<T>) -> bool {
    forall|k: int| 0 < k < s.len() ==> in_order(s[k - 1], #[trigger] s[k])
}

/// `a` and `b` compare equal: each is in order with the other.
pub open spec fn equivalent<T: PartialOrd>(a: T, b: T) -> bool {
    in_order(a, b) && in_order(b, a)
}

/// The values of `s` that compare equal to `x`, in the order `s` holds them.
pub open spec fn equals_of<T: PartialOrd>(s: Seq<T>, x: T) -> Seq<T> {
    s.filter(|y: T| equivalent(y, x))
}

/// `t` holds the values that compare equal in the same order as `s` does:
/// the order a stable sort keeps.
pub open spec fn keeps_order_of_equals<T: PartialOrd>(t: Seq<T>, s: Seq<T>) -> bool {
    forall|x: T| #[trigger] equals_of(t, x) == equals_of(s, x)
}

/// The values of `s` in order with `pivot`, in the order `s` holds them.
pub open spec fn lower_part<T: PartialOrd>(s: Seq<T>, pivot: T) -> Seq<T> {
    s.filter(|y: T| in_order(y, pivot))
}

/// "In order" is reflexive, and of two values one is in order with the other.
pub proof fn lemma_in_order_total<T: Ord>(a: T, b: T)
    requires
        obeys_cmp::<T>(),
    ensures
        in_order(a, a),
        !in_order(a, b) ==> in_order(b, a),
{
    reveal(obeys_cmp_ord);
    reveal(obeys_partial_cmp_spec_properties);
    assert(a.partial_cmp_spec(&b) == Some(a.cmp_spec(&b)));
    assert(a.partial_cmp_spec(&a) == Some(a.cmp_spec(&a)));
    assert(b.partial_cmp_spec(&a) == Some(b.cmp_spec(&a)));
}

/// "In order" is transitive.
pub proof fn lemma_in_order_transitive<T: Ord>(a: T, b: T, c: T)
    requires
        obeys_cmp::<T>(),
        in_order(a, b),
        in_order(b, c),
    ensures
        in_order(a, c),
{
    reveal(obeys_cmp_ord);
    reveal(obeys_partial_cmp_spec_properties);
    reveal(obeys_eq_spec_properties);
    assert(a.partial_cmp_spec(&b) == Some(a.cmp_spec(&b)));
    assert(b.partial_cmp_spec(&c) == Some(b.cmp_spec(&c)));
    assert(a.partial_cmp_spec(&c) == Some(a.cmp_spec(&c)));
    assert(c.partial_cmp_spec(&a) == Some(c.cmp_spec(&a)));
    assert(b.partial_cmp_spec(&a) == Some(b.cmp_spec(&a)));
    assert(c.partial_cmp_spec(&b) == Some(c.cmp_spec(&b)));
}

/// A sequence whose neighbours are in order is sorted.
pub proof fn lemma_adjacent_sorted<T: Ord>(s: Seq<T>)
    requires
        obeys_cmp::<T>(),
        adjacent_in_order(s),
    ensures
        sorted(s),
{
    assert forall|a: int, b: int| 0 <= a < b < s.len() implies in_order(
        #[trigger] s[a],
        #[trigger] s[b],
    ) by {
        lemma_adjacent_chain(s, a, b);
    }
}

proof fn lemma_adjacent_chain<T: Ord>(s: Seq<T>, a: int, b: int)
    requires
        obeys_cmp::<T>(),
        adjacent_in_order(s),
        0 <= a < b < s.len(),
    ensures
        in_order(s[a], s[b]),
    decreases b - a,
{
    if b == a + 1 {
        assert(in_order(s[b - 1], s[b]));
    } else {
        lemma_adjacent_chain(s, a, b - 1);
        assert(in_order(s[b - 1], s[b]));
        lemma_in_order_transitive(s[a], s[b - 1], s[b]);
    }
}

/// `T`'s `Ord` is a lawful total order, as vstd's laws for `Ord` state it
/// (they hold of the integer types, for instance).
pub open spec fn lawful_order<T: Ord>() -> bool {
    obeys_cmp::<T>()
}

/// `a > b`, decided by `T`'s comparison.
pub fn is_greater<T: Ord>(a: &T, b: &T) -> (r: bool)
    requires
        lawful_order::<T>(),
    ensures
        r == !in_order(*a, *b),
{
    reveal(obeys_cmp_partial_ord);
    *a > *b
}

/// `a <= b`, decided by `T`'s comparison.
pub fn is_not_greater<T: Ord>(a: &T, b: &T) -> (r: bool)
    requires
        lawful_order::<T>(),
    ensures
        r == in_order(*a, *b),
{
    reveal(obeys_cmp_partial_ord);
    reveal(obeys_cmp_ord);
    assert(a.partial_cmp_spec(b) == Some(a.cmp_spec(b)));
    *a <= *b
}

} // verus!
