use asyncfs::product::{cartesian_product, CartesianIterator};
use std::collections::HashSet;

fn drain<A: Copy, B: Copy>(mut it: CartesianIterator<A, B>) -> Vec<(A, B)> {
    let mut out = Vec::new();
    while let Some(p) = it.next() {
        out.push(p);
    }
    out
}

#[test]
fn cartesian_product_test() {
    let h1: HashSet<i32> = [1, 2].into_iter().collect();
    let h2: HashSet<i32> = [3, 4].into_iter().collect();
    let v1: Vec<i32> = h1.into_iter().collect();
    let v2: Vec<i32> = h2.into_iter().collect();
    let product: HashSet<(i32, i32)> = cartesian_product(&v1, &v2).into_iter().collect();
    let expected: HashSet<(i32, i32)> = [(1, 3), (1, 4), (2, 3), (2, 4)].into_iter().collect();
    assert_eq!(product, expected);

    let v1 = vec![1, 2, 3];
    let v2 = vec![4, 5];
    let product = cartesian_product(&v1, &v2);
    assert_eq!(product, vec![(1, 4), (1, 5), (2, 4), (2, 5), (3, 4), (3, 5)]);
}

#[test]
fn iterator_yields_product_in_order() {
    let it = CartesianIterator::new(vec![1, 2, 3], vec!['a', 'b']);
    assert_eq!(
        drain(it),
        vec![(1, 'a'), (1, 'b'), (2, 'a'), (2, 'b'), (3, 'a'), (3, 'b')]
    );
}

#[test]
fn iterator_matches_collected_product() {
    let a = vec![7u8, 8, 9, 10];
    let b = vec![1u16, 2, 3];
    assert_eq!(drain(CartesianIterator::new(a.clone(), b.clone())), cartesian_product(&a, &b));
}

#[test]
fn product_with_empty_side_is_empty() {
    let empty: Vec<i32> = vec![];
    assert!(cartesian_product(&empty, &vec![1, 2]).is_empty());
    assert!(cartesian_product(&vec![1, 2], &empty).is_empty());
    let mut it = CartesianIterator::new(vec![1, 2, 3], empty.clone());
    assert_eq!(it.next(), None);
    let mut it = CartesianIterator::new(empty, vec![1]);
    assert_eq!(it.next(), None);
}

#[test]
fn iterator_stays_exhausted() {
    let mut it = CartesianIterator::new(vec![1], vec![2]);
    assert_eq!(it.next(), Some((1, 2)));
    assert_eq!(it.next(), None);
    assert_eq!(it.next(), None);
}
