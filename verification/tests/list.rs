use typelist::{List, Pair};

fn list(values: &[i64]) -> List {
    List::from_slice(values)
}

#[test]
fn from_slice_puts_the_last_value_outermost() {
    let l = list(&[1, 2, 3]);
    let expected = List::Cons(
        Box::new(List::Cons(
            Box::new(List::Cons(Box::new(List::Empty), 1)),
            2,
        )),
        3,
    );
    assert_eq!(l, expected);
    assert_eq!(l.to_vec(), vec![1, 2, 3]);
    assert_eq!(list(&[]), List::Empty);
}

#[test]
fn new_is_empty() {
    assert_eq!(List::new(), List::Empty);
    assert!(List::new().is_empty());
    assert!(!list(&[0]).is_empty());
}

#[test]
fn length_counts_elements() {
    assert_eq!(List::Empty.length(), 0);
    assert_eq!(list(&[4]).length(), 1);
    assert_eq!(list(&[5, 3, -2, 1, 2, 1, 2, 3, 4]).length(), 9);
}

#[test]
fn checked_length_counts_elements() {
    assert_eq!(List::Empty.checked_length(), Some(0));
    assert_eq!(list(&[4, 4, 4]).checked_length(), Some(3));
}

#[test]
fn length_of_concatenation_is_the_sum() {
    let a = list(&[1, 2, 3]);
    let b = list(&[4, 5]);
    let joined = a.clone().concatenate(b.clone());
    assert_eq!(joined.length(), a.length() + b.length());
    assert_eq!(joined.length(), 5);
}

#[test]
fn concatenate_keeps_order() {
    assert_eq!(list(&[1, 2]).concatenate(list(&[3, 4, 5])).to_vec(), vec![1, 2, 3, 4, 5]);
    assert_eq!(list(&[1, 2]).concatenate(List::Empty), list(&[1, 2]));
    assert_eq!(List::Empty.concatenate(list(&[1, 2])), list(&[1, 2]));
    assert_eq!(List::Empty.concatenate(List::Empty), List::Empty);
}

#[test]
fn concatenate_is_associative() {
    let a = list(&[1]);
    let b = list(&[2, 3]);
    let c = list(&[4, 5, 6]);
    let left_first = a.clone().concatenate(b.clone()).concatenate(c.clone());
    let right_first = a.concatenate(b.concatenate(c));
    assert_eq!(left_first, right_first);
}

#[test]
fn push_then_pop_gives_the_value_back() {
    let l = list(&[8, 9]).push(-4);
    assert_eq!(l.pop(), -4);
    assert_eq!(l.length(), 3);
    assert_eq!(l.to_vec(), vec![8, 9, -4]);
    assert_eq!(List::Empty.push(i64::MIN).pop(), i64::MIN);
}

#[test]
fn pop_reads_the_last_element() {
    assert_eq!(list(&[1, 2, 3]).pop(), 3);
}

#[test]
fn duplicate_is_equal() {
    let l = list(&[3, 1, 2]);
    assert_eq!(l.duplicate(), l);
    assert_eq!(l.clone(), l);
}

#[test]
fn mirror_reverses() {
    assert_eq!(list(&[1, 2, 3]).mirror().to_vec(), vec![3, 2, 1]);
    assert_eq!(List::Empty.mirror(), List::Empty);
    assert_eq!(list(&[7]).mirror(), list(&[7]));
}

#[test]
fn mirror_twice_is_identity() {
    let l = list(&[5, 3, -2, 1, 2]);
    assert_eq!(l.clone().mirror().mirror(), l);
}

#[test]
fn inverse_appends_reversed_to_buffer() {
    assert_eq!(list(&[1, 2, 3]).inverse(list(&[9, 8])).to_vec(), vec![9, 8, 3, 2, 1]);
    assert_eq!(List::Empty.inverse(list(&[9, 8])).to_vec(), vec![9, 8]);
}

#[test]
fn split_in_the_middle() {
    let Pair { left, right } = list(&[1, 2, 3, 4, 5, 4, 1, 0]).split(4);
    assert_eq!(left.to_vec(), vec![1, 2, 3, 4]);
    assert_eq!(right.to_vec(), vec![5, 4, 1, 0]);
}

#[test]
fn split_at_zero_keeps_the_list_on_the_right() {
    let l = list(&[1, 2, 3]);
    let Pair { left, right } = l.clone().split(0);
    assert_eq!(left, List::Empty);
    assert_eq!(right, l);
}

#[test]
fn split_at_length_keeps_the_list_on_the_left() {
    let l = list(&[1, 2, 3]);
    let Pair { left, right } = l.clone().split(3);
    assert_eq!(left, l);
    assert_eq!(right, List::Empty);
}

#[test]
fn split_then_concatenate_round_trip() {
    let l = list(&[1, 2, 3, 4, 5, 4, 1, 0]);
    let mut mid: usize = 0;
    while mid <= 8 {
        let Pair { left, right } = l.clone().split(mid);
        assert_eq!(left.length(), mid);
        assert_eq!(left.concatenate(right), l);
        mid += 1;
    }
}

#[test]
fn split_inner_peels_budget_elements() {
    let Pair { left, right } = list(&[1, 2, 3, 4, 5]).split_inner(list(&[7, 6]), 2);
    assert_eq!(left.to_vec(), vec![1, 2, 3]);
    assert_eq!(right.to_vec(), vec![4, 5, 6, 7]);
}

#[test]
fn split_half_gives_the_left_part_the_odd_element() {
    let Pair { left, right } = list(&[1, 2, 3, 4, 5]).split_half();
    assert_eq!(left.to_vec(), vec![1, 2, 3]);
    assert_eq!(right.to_vec(), vec![4, 5]);
    let Pair { left, right } = list(&[1, 2, 3, 4]).split_half();
    assert_eq!(left.to_vec(), vec![1, 2]);
    assert_eq!(right.to_vec(), vec![3, 4]);
    let Pair { left, right } = list(&[1]).split_half();
    assert_eq!(left.to_vec(), vec![1]);
    assert_eq!(right, List::Empty);
    let Pair { left, right } = List::Empty.split_half();
    assert_eq!(left, List::Empty);
    assert_eq!(right, List::Empty);
}
