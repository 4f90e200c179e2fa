use typelist::merge::greater;
use typelist::slices;
use typelist::{List, Pair};

fn list_of(values: &[i64]) -> List {
    List::from_slice(values)
}

#[test]
fn greater_is_strict() {
    assert!(greater(2, 1));
    assert!(!greater(1, 1));
    assert!(!greater(-3, 1));
}

#[test]
fn merge_interleaves_sorted_lists() {
    assert_eq!(list_of(&[1, 3, 5]).merge(list_of(&[2, 4, 6])).to_vec(), vec![1, 2, 3, 4, 5, 6]);
    assert_eq!(list_of(&[2, 4, 6]).merge(list_of(&[1, 3, 5])).to_vec(), vec![1, 2, 3, 4, 5, 6]);
    assert_eq!(list_of(&[1, 2, 2]).merge(list_of(&[2, 3])).to_vec(), vec![1, 2, 2, 2, 3]);
}

#[test]
fn merge_with_empty_is_identity() {
    let l = list_of(&[3, 1, 2]);
    assert_eq!(l.clone().merge(List::Empty), l);
    assert_eq!(List::Empty.merge(l.clone()), l);
    assert_eq!(List::Empty.merge(List::Empty), List::Empty);
}

#[test]
fn merge_follows_the_last_elements_of_unsorted_input() {
    assert_eq!(list_of(&[3, 1]).merge(list_of(&[0, 2])).to_vec(), vec![0, 3, 1, 2]);
    assert_eq!(list_of(&[1, 3]).merge(list_of(&[2, 0])).to_vec(), vec![2, 0, 1, 3]);
}

#[test]
fn compare_swap_defers_the_element_that_the_verdict_names() {
    let pair = Pair { left: list_of(&[1, 3]), right: list_of(&[2, 4]) };
    assert_eq!(pair.compare_swap(false).to_vec(), vec![1, 2, 3, 4]);
    let pair = Pair { left: list_of(&[1, 3]), right: list_of(&[2, 4]) };
    assert_eq!(pair.compare_swap(true).to_vec(), vec![1, 2, 4, 3]);
    let pair = Pair { left: list_of(&[6]), right: list_of(&[5]) };
    assert_eq!(pair.compare_swap(true).to_vec(), vec![5, 6]);
}

#[test]
fn merge_sort_nine_elements() {
    assert_eq!(
        list_of(&[5, 3, -2, 1, 2, 1, 2, 3, 4]).merge_sort().to_vec(),
        vec![-2, 1, 1, 2, 2, 3, 3, 4, 5]
    );
}

#[test]
fn merge_sort_five_elements() {
    assert_eq!(list_of(&[5, 100, 3, 10, -1]).merge_sort().to_vec(), vec![-1, 3, 5, 10, 100]);
}

#[test]
fn merge_sort_trivial_lists() {
    assert_eq!(List::Empty.merge_sort(), List::Empty);
    assert_eq!(list_of(&[7]).merge_sort(), list_of(&[7]));
}

#[test]
fn merge_sort_two_elements() {
    assert_eq!(list_of(&[2, 1]).merge_sort().to_vec(), vec![1, 2]);
    assert_eq!(list_of(&[1, 2]).merge_sort().to_vec(), vec![1, 2]);
    assert_eq!(list_of(&[i64::MAX, i64::MIN]).merge_sort().to_vec(), vec![i64::MIN, i64::MAX]);
}

#[test]
fn merge_sort_is_idempotent() {
    let once = list_of(&[50, -100, 5, 100, 3, 10, -1, 100]).merge_sort();
    assert_eq!(once.to_vec(), vec![-100, -1, 3, 5, 10, 50, 100, 100]);
    assert_eq!(once.clone().merge_sort(), once);
}

#[test]
fn merge_sort_gives_a_sorted_permutation() {
    let input: Vec<i64> = vec![9, -7, 3, 3, 0, 12, -7, 5, 1, 8, 2];
    let out = list_of(&input).merge_sort().to_vec();
    let mut expected = input.clone();
    expected.sort();
    assert_eq!(out, expected);
}

#[test]
fn merge_sort_agrees_with_the_slice_version() {
    let small: [i8; 8] = [50, -100, 5, 100, 3, 10, -1, 100];
    let wide: Vec<i64> = small.iter().map(|v| i64::from(*v)).collect();
    let from_list = list_of(&wide).merge_sort().to_vec();
    let from_slice: Vec<i64> = slices::merge_sort(&small).iter().map(|v| i64::from(*v)).collect();
    assert_eq!(from_list, from_slice);
}

#[test]
fn array_min_and_max() {
    let l = list_of(&[5, 100, 3, 10, -1]);
    assert_eq!(l.array_min(), -1);
    assert_eq!(l.array_max(), 100);
    assert_eq!(list_of(&[4]).array_min(), 4);
    assert_eq!(list_of(&[4]).array_max(), 4);
    assert_eq!(list_of(&[-1, 5, 100]).array_min(), -1);
    assert_eq!(list_of(&[100, 5, -1]).array_max(), 100);
}

#[test]
fn array_value_min_and_max_take_the_seed_into_account() {
    let l = list_of(&[5, 3, 10]);
    assert_eq!(l.array_value_min(1), 1);
    assert_eq!(l.array_value_min(7), 3);
    assert_eq!(l.array_value_max(11), 11);
    assert_eq!(l.array_value_max(7), 10);
    assert_eq!(List::Empty.array_value_min(2), 2);
    assert_eq!(List::Empty.array_value_max(2), 2);
}
