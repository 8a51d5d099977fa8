use std::cmp::Ordering;

use stats::{Commute, MinMax};

#[test]
fn minmax() {
    let minmax: MinMax<usize> = MinMax::from_vec(vec![1usize, 4, 2, 3, 10]);
    assert_eq!(minmax.min(), Some(&1usize));
    assert_eq!(minmax.max(), Some(&10usize));
}

#[test]
fn empty_state() {
    let m: MinMax<u64> = MinMax::new();
    assert_eq!(m.len(), 0);
    assert_eq!(m.min(), None);
    assert_eq!(m.max(), None);
}

#[test]
fn default_is_empty() {
    let m: MinMax<i64> = MinMax::default();
    assert_eq!(m.len(), 0);
    assert_eq!(m.min(), None);
    assert_eq!(m.max(), None);
}

#[test]
fn single_add() {
    let mut m = MinMax::new();
    m.add(7i64);
    assert_eq!(m.len(), 1);
    assert_eq!(m.min(), Some(&7));
    assert_eq!(m.max(), Some(&7));
}

#[test]
fn five_samples_scenario() {
    let mut m = MinMax::new();
    for x in [1u64, 4, 2, 3, 10] {
        m.add(x);
    }
    assert_eq!(m.min(), Some(&1));
    assert_eq!(m.max(), Some(&10));
    assert_eq!(m.len(), 5);
}

#[test]
fn equal_samples_scenario() {
    let m = MinMax::from_vec(vec![5u64, 5, 5]);
    assert_eq!(m.min(), Some(&5));
    assert_eq!(m.max(), Some(&5));
    assert_eq!(m.len(), 3);
}

#[test]
fn merge_scenario() {
    let mut a = MinMax::from_vec(vec![1u64, 2]);
    let b = MinMax::from_vec(vec![0u64, 3]);
    a.merge(b);
    assert_eq!(a.min(), Some(&0));
    assert_eq!(a.max(), Some(&3));
    assert_eq!(a.len(), 4);
}

#[test]
fn order_does_not_matter() {
    let orders = [
        vec![3i64, -1, 8, 0, 8],
        vec![8i64, 8, 0, -1, 3],
        vec![0i64, 3, 8, -1, 8],
    ];
    for samples in orders {
        let m = MinMax::from_vec(samples);
        assert_eq!(m.min(), Some(&-1));
        assert_eq!(m.max(), Some(&8));
        assert_eq!(m.len(), 5);
    }
}

#[test]
fn merge_adds_counts_and_widens_bounds() {
    let mut a = MinMax::from_vec(vec![4u64, 6]);
    let b = MinMax::from_vec(vec![5u64, 9, 1]);
    a.merge(b);
    assert_eq!(a.len(), 5);
    assert_eq!(a.min(), Some(&1));
    assert_eq!(a.max(), Some(&9));
}

#[test]
fn merge_commutes() {
    let mut ab = MinMax::from_vec(vec![4u64, 6]);
    ab.merge(MinMax::from_vec(vec![5u64, 9, 1]));
    let mut ba = MinMax::from_vec(vec![5u64, 9, 1]);
    ba.merge(MinMax::from_vec(vec![4u64, 6]));
    assert_eq!(ab.len(), ba.len());
    assert_eq!(ab.min(), ba.min());
    assert_eq!(ab.max(), ba.max());
}

#[test]
fn merge_with_empty_is_identity() {
    let mut t = MinMax::from_vec(vec![2u64, 7, 3]);
    t.merge(MinMax::new());
    assert_eq!(t.len(), 3);
    assert_eq!(t.min(), Some(&2));
    assert_eq!(t.max(), Some(&7));

    let mut e = MinMax::new();
    e.merge(MinMax::from_vec(vec![2u64, 7, 3]));
    assert_eq!(e.len(), 3);
    assert_eq!(e.min(), Some(&2));
    assert_eq!(e.max(), Some(&7));
}

#[test]
fn merge_two_empties() {
    let mut e: MinMax<u64> = MinMax::new();
    e.merge(MinMax::new());
    assert_eq!(e.len(), 0);
    assert_eq!(e.min(), None);
    assert_eq!(e.max(), None);
}

#[test]
fn extend_continues_from_current_state() {
    let mut m = MinMax::from_vec(vec![10u64]);
    m.extend(vec![12, 3, 11]);
    assert_eq!(m.len(), 4);
    assert_eq!(m.min(), Some(&3));
    assert_eq!(m.max(), Some(&12));
    m.extend(Vec::new());
    assert_eq!(m.len(), 4);
}

#[test]
fn extreme_values() {
    let m = MinMax::from_vec(vec![u64::MAX, 0, 1]);
    assert_eq!(m.min(), Some(&0));
    assert_eq!(m.max(), Some(&u64::MAX));
}

#[test]
fn from_empty_vec() {
    let m: MinMax<u64> = MinMax::from_vec(Vec::new());
    assert_eq!(m.len(), 0);
    assert_eq!(m.min(), None);
    assert_eq!(m.max(), None);
}

#[test]
fn summary_of_empty() {
    let m: MinMax<u64> = MinMax::new();
    assert_eq!(m.summary(), "N/A");
}

#[test]
fn summary_of_samples() {
    let m = MinMax::from_vec(vec![1u64, 4, 2, 3, 10]);
    assert_eq!(m.summary(), "[1, 10]");
}

/// A sample ordered by `key` alone, so that equal keys can be told apart.
#[derive(Clone, Debug, PartialEq)]
struct Tagged {
    key: u32,
    tag: char,
}

impl PartialOrd for Tagged {
    fn partial_cmp(&self, other: &Tagged) -> Option<Ordering> {
        self.key.partial_cmp(&other.key)
    }
}

fn tagged(key: u32, tag: char) -> Tagged {
    Tagged { key, tag }
}

#[test]
fn ties_keep_earliest_sample() {
    let m = MinMax::from_vec(vec![tagged(5, 'a'), tagged(5, 'b'), tagged(5, 'c')]);
    assert_eq!(m.min().map(|t| t.tag), Some('a'));
    assert_eq!(m.max().map(|t| t.tag), Some('a'));
    assert_eq!(m.len(), 3);
}

#[test]
fn merge_ties_keep_own_bounds() {
    let mut a = MinMax::from_vec(vec![tagged(1, 'a'), tagged(9, 'a')]);
    let b = MinMax::from_vec(vec![tagged(1, 'b'), tagged(9, 'b')]);
    a.merge(b);
    assert_eq!(a.min().map(|t| t.tag), Some('a'));
    assert_eq!(a.max().map(|t| t.tag), Some('a'));
    assert_eq!(a.len(), 4);
}

fn combine_all<C: Commute>(mut first: C, rest: Vec<C>) -> C {
    for part in rest {
        Commute::merge(&mut first, part);
    }
    first
}

#[test]
fn merge_through_commute() {
    let parts = vec![
        MinMax::from_vec(vec![7u64, 2]),
        MinMax::new(),
        MinMax::from_vec(vec![11u64]),
    ];
    let all = combine_all(MinMax::from_vec(vec![5u64]), parts);
    assert_eq!(all.len(), 4);
    assert_eq!(all.min(), Some(&2));
    assert_eq!(all.max(), Some(&11));
}

#[test]
fn extend_in_any_order_from_a_started_tracker() {
    let mut a = MinMax::from_vec(vec![6i64, 2]);
    a.extend(vec![9, -4, 7]);
    let mut b = MinMax::from_vec(vec![6i64, 2]);
    b.extend(vec![7, 9, -4]);
    assert_eq!(a.len(), b.len());
    assert_eq!(a.min(), Some(&-4));
    assert_eq!(b.min(), Some(&-4));
    assert_eq!(a.max(), Some(&9));
    assert_eq!(b.max(), Some(&9));
}

#[test]
fn merge_equals_building_from_both() {
    let mut merged = MinMax::from_vec(vec![3u64, 8, 5]);
    merged.merge(MinMax::from_vec(vec![1u64, 4]));
    let whole = MinMax::from_vec(vec![3u64, 8, 5, 1, 4]);
    assert_eq!(merged.len(), whole.len());
    assert_eq!(merged.min(), whole.min());
    assert_eq!(merged.max(), whole.max());
}

#[test]
fn summary_uses_debug_forms() {
    let m = MinMax::from_vec(vec![tagged(2, 'x'), tagged(9, 'y')]);
    assert_eq!(
        m.summary(),
        "[Tagged { key: 2, tag: 'x' }, Tagged { key: 9, tag: 'y' }]"
    );
}
