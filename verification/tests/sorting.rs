use rust_exercises::sorting::{better_bubble_sort, bubble_sort, partition, quick_sort};

#[test]
fn test_bubble_sort() {
    let mut test_integer = vec![10, 7, 3, 8, 1];
    let mut test_str = vec!["orange", "apple", "strawberry", "banana", "coconut"];
    bubble_sort(&mut test_integer);
    assert_eq!(test_integer, vec![1, 3, 7, 8, 10]);
    bubble_sort(&mut test_str);
    assert_eq!(test_str, vec!["apple", "banana", "coconut", "orange", "strawberry"]);
}

#[test]
fn test_better_bubble_sort() {
    let mut test_integer = vec![10, 7, 3, 8, 1];
    let mut test_str = vec!["orange", "apple", "strawberry", "banana", "coconut"];
    better_bubble_sort(&mut test_integer);
    assert_eq!(test_integer, vec![1, 3, 7, 8, 10]);
    better_bubble_sort(&mut test_str);
    assert_eq!(test_str, vec!["apple", "banana", "coconut", "orange", "strawberry"]);
}

#[test]
fn test_quick_sort() {
    let mut test_integer = vec![10, 7, 3, 8, 1];
    let mut test_str = vec!["orange", "apple", "strawberry", "banana", "coconut"];
    quick_sort(&mut test_integer);
    assert_eq!(test_integer, vec![1, 3, 7, 8, 10]);
    quick_sort(&mut test_str);
    assert_eq!(test_str, vec!["apple", "banana", "coconut", "orange", "strawberry"]);
}

#[test]
fn sorts_keep_duplicates_and_handle_edges() {
    let mut empty: Vec<i64> = vec![];
    bubble_sort(&mut empty);
    assert!(empty.is_empty());
    let mut one = vec![5u8];
    better_bubble_sort(&mut one);
    assert_eq!(one, vec![5]);
    let mut dups = vec![3, 1, 3, 2, 1];
    quick_sort(&mut dups);
    assert_eq!(dups, vec![1, 1, 2, 3, 3]);
    let mut dups2 = vec![3, 1, 3, 2, 1];
    bubble_sort(&mut dups2);
    assert_eq!(dups2, vec![1, 1, 2, 3, 3]);
}

#[test]
fn partition_places_the_last_element_as_pivot() {
    let mut v = vec![9, 2, 7, 1, 5];
    let p = partition(&mut v);
    assert_eq!(p, 2);
    assert_eq!(v[p], 5);
    assert!(v[..p].iter().all(|x| *x <= 5));
    assert!(v[p + 1..].iter().all(|x| *x > 5));
}

#[derive(Debug, Clone, Copy, PartialEq, Eq)]
struct Keyed {
    key: u8,
    tag: char,
}

impl PartialOrd for Keyed {
    fn partial_cmp(&self, other: &Self) -> Option<std::cmp::Ordering> {
        Some(self.cmp(other))
    }
}

impl Ord for Keyed {
    fn cmp(&self, other: &Self) -> std::cmp::Ordering {
        self.key.cmp(&other.key)
    }
}

fn keyed(v: &[(u8, char)]) -> Vec<Keyed> {
    v.iter().map(|(key, tag)| Keyed { key: *key, tag: *tag }).collect()
}

#[test]
fn bubble_sorts_keep_the_order_of_equal_keys() {
    let input = keyed(&[(2, 'a'), (1, 'b'), (2, 'c'), (1, 'd'), (0, 'e')]);
    let expected = keyed(&[(0, 'e'), (1, 'b'), (1, 'd'), (2, 'a'), (2, 'c')]);
    let mut v = input.clone();
    bubble_sort(&mut v);
    assert_eq!(v, expected);
    let mut w = input.clone();
    better_bubble_sort(&mut w);
    assert_eq!(w, expected);
}

#[test]
fn partition_keeps_the_scan_order_on_the_left() {
    let mut s = vec![5, 1, 4, 2, 3];
    assert_eq!(partition(&mut s), 2);
    assert_eq!(s, vec![1, 2, 3, 5, 4]);
    let mut t = vec![4, 8, 1, 9, 3, 5];
    assert_eq!(partition(&mut t), 3);
    assert_eq!(&t[..3], &[4, 1, 3]);
}

#[test]
fn partition_leaves_the_greater_values_as_the_scan_swaps_them() {
    let mut t = vec![4, 8, 1, 9, 3, 5];
    assert_eq!(partition(&mut t), 3);
    assert_eq!(t, vec![4, 1, 3, 5, 8, 9]);
    let mut u = vec![7, 6, 1];
    assert_eq!(partition(&mut u), 0);
    assert_eq!(u, vec![1, 6, 7]);
}
