use vstd::prelude::*;
use crate::order::{
    adjacent_in_order, equals_of, equivalent, in_order, is_greater, is_not_greater,
    keeps_order_of_equals, lawful_order, lemma_adjacent_sorted, lemma_in_order_total,
    lemma_in_order_transitive, lower_part, sorted, sorted_between,
};

verus! {

/// Swapping two positions keeps the same values.
pub proof fn lemma_swap_multiset<T>(s: Seq<T>, i: int, j: int)
    requires
        0 <= i < s.len(),
        0 <= j < s.len(),
    ensures
        s.update(i, s[j]).update(j, s[i]).to_multiset() == s.to_multiset(),
{
    broadcast use vstd::seq_lib::group_to_multiset_ensures;
    broadcast use vstd::multiset::group_multiset_axioms;

    let s1 = s.update(i, s[j]);
    assert(s1.to_multiset() == s.to_multiset().insert(s[j]).remove(s[i]));
    assert(s1.update(j, s[i]).to_multiset() == s1.to_multiset().insert(s[i]).remove(s1[j]));
    if i == j {
        assert(s.update(i, s[j]).update(j, s[i]) =~= s);
    } else {
        assert(s1[j] == s[j]);
        assert(s1.update(j, s[i]).to_multiset() =~= s.to_multiset());
    }
}

/// Swapping two neighbours that are out of order keeps the order of the values
/// that compare equal.
pub proof fn lemma_swap_keeps_equals<T: Ord>(s: Seq<T>, j: int)
    requires
        lawful_order::<T>(),
        0 < j < s.len(),
        !in_order(s[j - 1], s[j]),
    ensures
        keeps_order_of_equals(s.update(j - 1, s[j]).update(j, s[j - 1]), s),
{
    let a = s[j - 1];
    let b = s[j];
    let t = s.update(j - 1, b).update(j, a);
    let pre = s.take(j - 1);
    let post = s.skip(j + 1);
    assert(s =~= pre + seq![a, b] + post);
    assert(t =~= pre + seq![b, a] + post);
    assert forall|x: T| #[trigger] equals_of(t, x) == equals_of(s, x) by {
        let pred = |y: T| equivalent(y, x);
        Seq::filter_distributes_over_add(pre + seq![a, b], post, pred);
        Seq::filter_distributes_over_add(pre, seq![a, b], pred);
        Seq::filter_distributes_over_add(pre + seq![b, a], post, pred);
        Seq::filter_distributes_over_add(pre, seq![b, a], pred);
        if pred(a) && pred(b) {
            lemma_in_order_transitive(a, x, b);
        }
        reveal_with_fuel(Seq::filter, 3);
        assert(seq![a, b].drop_last() =~= seq![a]);
        assert(seq![b, a].drop_last() =~= seq![b]);
        assert(seq![a].drop_last() =~= Seq::<T>::empty());
        assert(seq![b].drop_last() =~= Seq::<T>::empty());
        assert(seq![a, b].filter(pred) =~= seq![b, a].filter(pred));
    }
}

/// Two sorted sequences with the same values, keeping values that compare
/// equal in the same order, are the same sequence.
proof fn lemma_sorted_stable_unique<T: Ord>(a: Seq<T>, b: Seq<T>)
    requires
        lawful_order::<T>(),
        sorted(a),
        sorted(b),
        a.to_multiset() == b.to_multiset(),
        keeps_order_of_equals(a, b),
    ensures
        a == b,
    decreases a.len(),
{
    broadcast use vstd::seq_lib::group_to_multiset_ensures;
    broadcast use vstd::multiset::group_multiset_axioms;

    a.to_multiset_ensures();
    b.to_multiset_ensures();
    if a.len() == 0 {
        assert(b.to_multiset().len() == 0);
        assert(b.len() == 0);
        assert(a =~= b);
    } else {
        assert(b.len() == a.len());
        let m = a.last();
        let n = b.last();
        let a1 = a.drop_last();
        let b1 = b.drop_last();
        assert(a =~= a1.push(m));
        assert(b =~= b1.push(n));
        a1.to_multiset_ensures();
        b1.to_multiset_ensures();
        assert(a[a.len() - 1] == m);
        assert(b[b.len() - 1] == n);
        assert(a.contains(m));
        assert(a.to_multiset().count(m) > 0);
        assert(b.to_multiset().count(m) > 0);
        assert(b.contains(n));
        assert(b.to_multiset().count(n) > 0);
        assert(a.to_multiset().count(n) > 0);
        assert(b.contains(m));
        assert(b.contains(n));
        assert(a.contains(n));
        let k = choose|k: int| 0 <= k < b.len() && b[k] == m;
        let q = choose|q: int| 0 <= q < a.len() && a[q] == n;
        lemma_in_order_total(m, n);
        if k < b.len() - 1 {
            assert(in_order(b[k], b[b.len() - 1]));
        }
        if q < a.len() - 1 {
            assert(in_order(a[q], a[a.len() - 1]));
        }
        assert(equivalent(n, m));
        assert(equivalent(m, m));
        reveal(Seq::filter);
        assert(equals_of(a, m) == equals_of(a1, m).push(m));
        assert(equals_of(b, m) == equals_of(b1, m).push(n));
        assert(equals_of(a, m) == equals_of(b, m));
        assert(m == equals_of(a, m).last());
        assert(m == n);
        assert forall|x: T| #[trigger] equals_of(a1, x) == equals_of(b1, x) by {
            assert(equals_of(a, x) == equals_of(b, x));
            if equivalent(m, x) {
                assert(equals_of(a, x) == equals_of(a1, x).push(m));
                assert(equals_of(b, x) == equals_of(b1, x).push(m));
                assert(equals_of(a1, x) =~= equals_of(a, x).drop_last());
                assert(equals_of(b1, x) =~= equals_of(b, x).drop_last());
            } else {
                assert(equals_of(a, x) == equals_of(a1, x));
                assert(equals_of(b, x) == equals_of(b1, x));
            }
        }
        assert(a1.to_multiset() =~= b1.to_multiset()) by {
            assert(a.to_multiset() == a1.to_multiset().insert(m));
            assert(b.to_multiset() == b1.to_multiset().insert(m));
            assert forall|x: T| a1.to_multiset().count(x) == b1.to_multiset().count(x) by {
                assert(a.to_multiset().count(x) == b.to_multiset().count(x));
                assert(a1.to_multiset().insert(m).count(x) == b1.to_multiset().insert(m).count(x));
                if x == m {
                    assert(a1.to_multiset().insert(m).count(x) == a1.to_multiset().count(x) + 1);
                    assert(b1.to_multiset().insert(m).count(x) == b1.to_multiset().count(x) + 1);
                } else {
                    assert(a1.to_multiset().insert(m).count(x) == a1.to_multiset().count(x));
                    assert(b1.to_multiset().insert(m).count(x) == b1.to_multiset().count(x));
                }
            }
        }
        lemma_sorted_stable_unique(a1, b1);
    }
}

/// A stable sort's result is fixed by its input: two sorted arrangements of the
/// same values that both keep the input's order among values comparing equal
/// are the same. So `bubble_sort` and `better_bubble_sort` give equal results.
pub proof fn law_stable_sorts_agree<T: Ord>(a: Seq<T>, b: Seq<T>, input: Seq<T>)
    requires
        lawful_order::<T>(),
        sorted(a),
        sorted(b),
        a.to_multiset() == input.to_multiset(),
        b.to_multiset() == input.to_multiset(),
        keeps_order_of_equals(a, input),
        keeps_order_of_equals(b, input),
    ensures
        a == b,
{
    assert forall|x: T| #[trigger] equals_of(a, x) == equals_of(b, x) by {
        assert(equals_of(a, x) == equals_of(input, x));
        assert(equals_of(b, x) == equals_of(input, x));
    }
    lemma_sorted_stable_unique(a, b);
}

/// Calls `<[T]>::swap`, which exchanges the values at two positions.
#[verifier::external_body]
fn swap_positions<T>(s: &mut [T], i: usize, j: usize)
    requires
        i < old(s)@.len(),
        j < old(s)@.len(),
    ensures
        final(s)@ == old(s)@.update(i as int, old(s)@[j as int]).update(j as int, old(s)@[i as int]),
{
    s.swap(i, j);
}

/// The value at `j` is in order with every value after it.
pub open spec fn least_from<T: PartialOrd>(s: Seq<T>, j: int) -> bool {
    forall|k: int| j < k < s.len() ==> in_order(s[j], #[trigger] s[k])
}

/// The first `p` values are in their final places: each is in order with every later value.
pub open spec fn prefix_settled<T: PartialOrd>(s: Seq<T>, p: int) -> bool {
    forall|a: int, b: int| 0 <= a < p && a < b < s.len() ==> in_order(#[trigger] s[a], #[trigger] s[b])
}

/// Sorts `collection` in place by repeated passes from the back that swap
/// neighbours out of order, until a pass swaps nothing.
pub fn bubble_sort<T: Ord>(collection: &mut Vec<T>)
    requires
        lawful_order::<T>(),
    ensures
        final(collection)@.to_multiset() == old(collection)@.to_multiset(),
        sorted(final(collection)@),
        keeps_order_of_equals(final(collection)@, old(collection)@),
{
    let size = collection.len();
    let ghost mut p: int = 0;
    loop
        invariant
            lawful_order::<T>(),
            collection@.len() == size,
            collection@.to_multiset() == old(collection)@.to_multiset(),
            keeps_order_of_equals(collection@, old(collection)@),
            0 <= p <= size,
            prefix_settled(collection@, p),
        ensures
            collection@.to_multiset() == old(collection)@.to_multiset(),
            keeps_order_of_equals(collection@, old(collection)@),
            sorted(collection@),
        decreases size - p,
    {
        let ghost start = collection@;
        let mut swapped = false;
        let mut i: usize = size;
        while i > 1
            invariant
                lawful_order::<T>(),
                collection@.len() == size,
                collection@.to_multiset() == old(collection)@.to_multiset(),
                keeps_order_of_equals(collection@, old(collection)@),
            keeps_order_of_equals(collection@, old(collection)@),
                0 <= p <= size,
                i <= size,
                prefix_settled(collection@, p),
                least_from(collection@, if i - 1 >= p { i - 1 } else { p }),
                swapped ==> p + 2 <= size,
                !swapped ==> collection@ == start,
                !swapped ==> forall|k: int|
                    i <= k < size ==> in_order(collection@[k - 1], #[trigger] collection@[k]),
            decreases i,
        {
            i = i - 1;
            let ghost v = collection@;
            let ghost j = i as int;
            proof {
                if j - 1 < p {
                    assert(in_order(v[j - 1], v[j]));
                }
            }
            if is_greater(&collection[i - 1], &collection[i]) {
                proof {
                    lemma_swap_multiset(v, j - 1, j);
                    lemma_in_order_total(v[j - 1], v[j]);
                    lemma_swap_keeps_equals(v, j);
                }
                swap_positions(collection.as_mut_slice(), i - 1, i);
                swapped = true;
                let ghost w = collection@;
                assert(w[j - 1] == v[j] && w[j] == v[j - 1]);
                assert forall|k: int| j - 1 < k < w.len() implies in_order(w[j - 1], #[trigger] w[k]) by {
                    if k > j {
                        assert(w[k] == v[k]);
                    }
                }
                assert forall|a: int, b: int| 0 <= a < p && a < b < w.len() implies in_order(
                    #[trigger] w[a],
                    #[trigger] w[b],
                ) by {
                    assert(w[a] == v[a]);
                    if b == j - 1 {
                        assert(in_order(v[a], v[j]));
                    } else if b == j {
                        assert(in_order(v[a], v[j - 1]));
                    } else {
                        assert(w[b] == v[b]);
                    }
                }
            } else {
                proof {
                    if j - 1 >= p {
                        assert forall|k: int| j - 1 < k < v.len() implies in_order(
                            v[j - 1],
                            #[trigger] v[k],
                        ) by {
                            if k > j {
                                lemma_in_order_transitive(v[j - 1], v[j], v[k]);
                            }
                        }
                    }
                }
            }
        }
        if !swapped {
            proof {
                lemma_adjacent_sorted(collection@);
            }
            break;
        }
        proof {
            let v = collection@;
            assert forall|a: int, b: int| 0 <= a < p + 1 && a < b < v.len() implies in_order(
                #[trigger] v[a],
                #[trigger] v[b],
            ) by {
                if a == p {
                    assert(least_from(v, p));
                }
            }
            p = p + 1;
        }
    }
}

/// The value at `k` is in order after every value before it.
pub open spec fn greatest_upto<T: PartialOrd>(s: Seq<T>, k: int) -> bool {
    forall|j: int| 0 <= j < k ==> in_order(#[trigger] s[j], s[k])
}

/// Every value before `size` is in order with every value from `size` on.
pub open spec fn below_suffix<T: PartialOrd>(s: Seq<T>, size: int) -> bool {
    forall|a: int, b: int| 0 <= a < size <= b < s.len() ==> in_order(#[trigger] s[a], #[trigger] s[b])
}

/// Sorts `collection` in place by forward passes that swap neighbours out of
/// order; each pass stops where the previous one made its last swap.
pub fn better_bubble_sort<T: Ord>(collection: &mut Vec<T>)
    requires
        lawful_order::<T>(),
    ensures
        final(collection)@.to_multiset() == old(collection)@.to_multiset(),
        sorted(final(collection)@),
        keeps_order_of_equals(final(collection)@, old(collection)@),
{
    let n = collection.len();
    let mut size = n;
    loop
        invariant
            lawful_order::<T>(),
            collection@.len() == n,
            collection@.to_multiset() == old(collection)@.to_multiset(),
            keeps_order_of_equals(collection@, old(collection)@),
            size <= n,
            sorted_between(collection@, size as int, n as int),
            below_suffix(collection@, size as int),
        ensures
            collection@.to_multiset() == old(collection)@.to_multiset(),
            keeps_order_of_equals(collection@, old(collection)@),
            sorted(collection@),
        decreases size,
    {
        let mut new_size: usize = 0;
        let mut i: usize = 1;
        while i < size
            invariant
                lawful_order::<T>(),
                collection@.len() == n,
                collection@.to_multiset() == old(collection)@.to_multiset(),
                keeps_order_of_equals(collection@, old(collection)@),
            keeps_order_of_equals(collection@, old(collection)@),
                size <= n,
                1 <= i,
                i <= size || (size == 0 && i == 1),
                new_size < i,
                sorted_between(collection@, size as int, n as int),
                below_suffix(collection@, size as int),
                greatest_upto(collection@, i - 1),
                forall|k: int| new_size <= k < i ==> #[trigger] greatest_upto(collection@, k),
            decreases size - i,
        {
            let ghost v = collection@;
            let ghost j = i as int;
            if is_greater(&collection[i - 1], &collection[i]) {
                proof {
                    lemma_swap_multiset(v, j - 1, j);
                    lemma_in_order_total(v[j - 1], v[j]);
                    lemma_swap_keeps_equals(v, j);
                }
                swap_positions(collection.as_mut_slice(), i - 1, i);
                new_size = i;
                let ghost w = collection@;
                assert(w[j - 1] == v[j] && w[j] == v[j - 1]);
                assert forall|a: int| 0 <= a < j implies in_order(#[trigger] w[a], w[j]) by {
                    if a < j - 1 {
                        assert(w[a] == v[a]);
                        assert(in_order(v[a], v[j - 1]));
                    }
                }
                assert(greatest_upto(w, j));
                assert forall|a: int, b: int| size <= a < b < n implies in_order(
                    #[trigger] w[a],
                    #[trigger] w[b],
                ) by {
                    assert(w[a] == v[a] && w[b] == v[b]);
                }
                assert forall|a: int, b: int| 0 <= a < size <= b < n implies in_order(
                    #[trigger] w[a],
                    #[trigger] w[b],
                ) by {
                    assert(w[b] == v[b]);
                    if a == j - 1 {
                        assert(in_order(v[j], v[b]));
                    } else if a == j {
                        assert(in_order(v[j - 1], v[b]));
                    } else {
                        assert(w[a] == v[a]);
                    }
                }
            } else {
                assert forall|a: int| 0 <= a < j implies in_order(#[trigger] v[a], v[j]) by {
                    if a < j - 1 {
                        lemma_in_order_transitive(v[a], v[j - 1], v[j]);
                    }
                }
                assert(greatest_upto(v, j));
            }
            i += 1;
        }
        let ghost v = collection@;
        let ghost old_size = size as int;
        size = new_size;
        assert forall|a: int, b: int| size <= a < b < n implies in_order(
            #[trigger] v[a],
            #[trigger] v[b],
        ) by {
            if b < old_size {
                assert(greatest_upto(v, b));
            }
        }
        assert forall|a: int, b: int| 0 <= a < size <= b < n implies in_order(
            #[trigger] v[a],
            #[trigger] v[b],
        ) by {
            if b < old_size {
                assert(greatest_upto(v, b));
            }
        }
        if size <= 1 {
            assert forall|a: int, b: int| 0 <= a < b < n implies in_order(
                #[trigger] v[a],
                #[trigger] v[b],
            ) by {
                if a >= size {
                } else {
                    assert(b >= size);
                }
            }
            break;
        }
    }
}

/// Two sequences with the same values: whatever holds of every value of one
/// holds of every value of the other.
proof fn lemma_same_values_transfer<T>(s: Seq<T>, t: Seq<T>, k: int)
    requires
        s.to_multiset() == t.to_multiset(),
        0 <= k < t.len(),
    ensures
        s.contains(t[k]),
{
    broadcast use vstd::seq_lib::to_multiset_contains;

    assert(t.contains(t[k]));
    assert(t.to_multiset().count(t[k]) > 0);
}

/// The sequence with its first element moved to the end.
pub open spec fn rotated<T>(b: Seq<T>) -> Seq<T> {
    if b.len() == 0 {
        b
    } else {
        b.drop_first().push(b[0])
    }
}

/// The values greater than `pivot` as a Lomuto scan of `s` leaves them
/// between the front part and the scan position: a greater value joins the
/// end, and a value in order with the pivot is swapped with the first of them,
/// which moves that one to the end.
pub open spec fn lomuto_block<T: PartialOrd>(s: Seq<T>, pivot: T) -> Seq<T>
    decreases s.len(),
{
    if s.len() == 0 {
        s
    } else if in_order(s.last(), pivot) {
        rotated(lomuto_block(s.drop_last(), pivot))
    } else {
        lomuto_block(s.drop_last(), pivot).push(s.last())
    }
}

/// Lomuto partition around the last value: values in order before it move to
/// the front, the pivot lands right after them, and the greater values follow.
/// Returns the pivot's final position.
/// The values after the pivot are the greater values in the order the scan
/// leaves them, the first of them last (the final swap with the pivot).
pub fn partition<T: Ord>(slice: &mut [T]) -> (r: usize)
    requires
        lawful_order::<T>(),
        old(slice)@.len() >= 1,
    ensures
        final(slice)@.len() == old(slice)@.len(),
        final(slice)@.to_multiset() == old(slice)@.to_multiset(),
        r < final(slice)@.len(),
        final(slice)@[r as int] == old(slice)@.last(),
        forall|k: int| 0 <= k < r ==> in_order(#[trigger] final(slice)@[k], final(slice)@[r as int]),
        forall|k: int|
            r < k < final(slice)@.len() ==> !in_order(#[trigger] final(slice)@[k], final(slice)@[r as int]),
        final(slice)@.take(r as int) == lower_part(old(slice)@.drop_last(), old(slice)@.last()),
        r == lower_part(old(slice)@.drop_last(), old(slice)@.last()).len(),
        final(slice)@.skip(r + 1) == rotated(lomuto_block(old(slice)@.drop_last(), old(slice)@.last())),
{
    let pivot_index = slice.len() - 1;
    let ghost pivot = slice@[pivot_index as int];
    let mut i: usize = 0;
    let mut j: usize = 0;
    while j < pivot_index
        invariant
            lawful_order::<T>(),
            slice@.len() == old(slice)@.len(),
            pivot_index == slice@.len() - 1,
            pivot == old(slice)@.last(),
            slice@.to_multiset() == old(slice)@.to_multiset(),
            i <= j <= pivot_index,
            slice@[pivot_index as int] == pivot,
            forall|k: int| 0 <= k < i ==> in_order(#[trigger] slice@[k], pivot),
            forall|k: int| i <= k < j ==> !in_order(#[trigger] slice@[k], pivot),
            forall|k: int| j <= k < slice@.len() ==> #[trigger] slice@[k] == old(slice)@[k],
            slice@.take(i as int) == lower_part(old(slice)@.take(j as int), pivot),
            slice@.subrange(i as int, j as int) == lomuto_block(old(slice)@.take(j as int), pivot),
        decreases pivot_index - j,
    {
        let ghost v = slice@;
        proof {
            let o = old(slice)@;
            reveal(Seq::filter);
            assert(o.take(j + 1).drop_last() =~= o.take(j as int));
            assert(o.take(j + 1).last() == o[j as int]);
        }
        if is_not_greater(&slice[j], &slice[pivot_index]) {
            proof {
                lemma_swap_multiset(v, i as int, j as int);
            }
            swap_positions(slice, i, j);
            let ghost w = slice@;
            assert forall|k: int| 0 <= k < i + 1 implies in_order(#[trigger] w[k], pivot) by {
                if k == i {
                    assert(w[k] == v[j as int]);
                } else {
                    assert(w[k] == v[k]);
                }
            }
            assert forall|k: int| i + 1 <= k < j + 1 implies !in_order(#[trigger] w[k], pivot) by {
                if k == j {
                    assert(w[k] == v[i as int]);
                } else {
                    assert(w[k] == v[k]);
                }
            }
            assert(w.take(i + 1) =~= v.take(i as int).push(v[j as int]));
            assert(w.subrange(i + 1, j + 1) =~= rotated(v.subrange(i as int, j as int)));
            i += 1;
        } else {
            assert(v.subrange(i as int, j + 1) =~= v.subrange(i as int, j as int).push(v[j as int]));
        }
        j += 1;
    }
    assert(old(slice)@.take(pivot_index as int) =~= old(slice)@.drop_last());
    let ghost v = slice@;
    proof {
        lemma_swap_multiset(v, i as int, pivot_index as int);
    }
    swap_positions(slice, i, pivot_index);
    let ghost w = slice@;
    assert(w.take(i as int) =~= v.take(i as int));
    assert(w[i as int] == pivot);
    assert(w.skip(i + 1) =~= rotated(v.subrange(i as int, pivot_index as int)));
    assert forall|k: int| 0 <= k < i implies in_order(#[trigger] w[k], w[i as int]) by {
        assert(w[k] == v[k]);
    }
    assert forall|k: int| i < k < w.len() implies !in_order(#[trigger] w[k], w[i as int]) by {
        if k == pivot_index {
            assert(w[k] == v[i as int]);
        } else {
            assert(w[k] == v[k]);
        }
    }
    i
}

/// Sorts the slice in place by quicksort: partition, then sort each side.
pub fn quick_sort<T: Ord>(slice: &mut [T])
    requires
        lawful_order::<T>(),
    ensures
        final(slice)@.to_multiset() == old(slice)@.to_multiset(),
        sorted(final(slice)@),
    decreases old(slice)@.len(),
{
    if slice.len() <= 1 {
        return;
    }
    let p = partition(slice);
    let ghost mid = slice@;
    let ghost pivot = mid[p as int];
    let (left, right) = slice.split_at_mut(p);
    quick_sort(left);
    let (head, rest) = right.split_at_mut(1);
    assert(rest@ =~= mid.subrange(p + 1, mid.len() as int));
    assert(head@ =~= mid.subrange(p as int, p + 1));
    quick_sort(rest);
    let ghost l = left@;
    let ghost h = head@;
    let ghost r = rest@;
    proof {
        let n = mid.len();
        let sub_l = mid.subrange(0, p as int);
        let sub_r = mid.subrange(p + 1, n as int);
        assert(h =~= seq![pivot]);
        assert forall|k: int| 0 <= k < l.len() implies in_order(#[trigger] l[k], pivot) by {
            lemma_same_values_transfer(sub_l, l, k);
            let idx = choose|idx: int| 0 <= idx < sub_l.len() && sub_l[idx] == l[k];
            assert(mid[idx] == l[k]);
        }
        assert forall|k: int| 0 <= k < r.len() implies !in_order(#[trigger] r[k], pivot) by {
            lemma_same_values_transfer(sub_r, r, k);
            let idx = choose|idx: int| 0 <= idx < sub_r.len() && sub_r[idx] == r[k];
            assert(mid[p + 1 + idx] == r[k]);
        }
        let whole = l + h + r;
        assert forall|a: int, b: int| 0 <= a < b < whole.len() implies in_order(
            #[trigger] whole[a],
            #[trigger] whole[b],
        ) by {
            let pl = l.len() as int;
            if b < pl {
                assert(whole[a] == l[a] && whole[b] == l[b]);
            } else if b == pl {
                assert(whole[a] == l[a] && whole[b] == pivot);
            } else if a < pl {
                assert(whole[a] == l[a] && whole[b] == r[b - pl - 1]);
                lemma_in_order_total(r[b - pl - 1], pivot);
                lemma_in_order_transitive(l[a], pivot, r[b - pl - 1]);
            } else if a == pl {
                assert(whole[a] == pivot && whole[b] == r[b - pl - 1]);
                lemma_in_order_total(r[b - pl - 1], pivot);
            } else {
                assert(whole[a] == r[a - pl - 1] && whole[b] == r[b - pl - 1]);
            }
        }
        vstd::seq_lib::lemma_multiset_commutative(l, h);
        vstd::seq_lib::lemma_multiset_commutative(l + h, r);
        vstd::seq_lib::lemma_multiset_commutative(sub_l, mid.subrange(p as int, p + 1));
        vstd::seq_lib::lemma_multiset_commutative(sub_l + mid.subrange(p as int, p + 1), sub_r);
        assert(sub_l + mid.subrange(p as int, p + 1) + sub_r =~= mid);
    }
    assert(slice@ == l + h + r);
}

} // verus!
