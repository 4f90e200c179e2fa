//! The same algorithms on plain slices of small integers, working from the
//! front: an independent, directly executable statement of what merging,
//! sorting and splitting mean.

use vstd::prelude::*;
use vstd::seq_lib::lemma_multiset_commutative;
use vstd::slice::{slice_subrange, slice_to_vec};

verus! {

/// No element is greater than a later one.
pub open spec fn ascending(s: Seq<i8>) -> bool {
    forall|i: int, j: int| 0 <= i <= j < s.len() ==> s[i] <= s[j]
}

/// No element of `s` is less than `bound`.
pub open spec fn bounded_below(s: Seq<i8>, bound: i8) -> bool {
    forall|i: int| 0 <= i < s.len() ==> bound <= s[i]
}

/// The two-way merge from the front: the smaller of the two first elements
/// starts the result, the one from `left` where they are equal.
pub open spec fn merged_front(left: Seq<i8>, right: Seq<i8>) -> Seq<i8>
    decreases left.len() + right.len(),
{
    if right.len() == 0 {
        left
    } else if left.len() == 0 {
        right
    } else if left[0] <= right[0] {
        seq![left[0]] + merged_front(left.skip(1), right)
    } else {
        seq![right[0]] + merged_front(left, right.skip(1))
    }
}

/// Merge sort with the cut at half the length, rounded down.
pub open spec fn sorted_front(s: Seq<i8>) -> Seq<i8>
    decreases s.len(),
{
    if s.len() < 2 {
        s
    } else {
        merged_front(
            sorted_front(s.take((s.len() / 2) as int)),
            sorted_front(s.skip((s.len() / 2) as int)),
        )
    }
}

/// Merging from the front keeps every element of both operands and adds none.
pub proof fn lemma_merged_front_permutes(left: Seq<i8>, right: Seq<i8>)
    ensures
        merged_front(left, right).to_multiset() == left.to_multiset().add(right.to_multiset()),
        merged_front(left, right).len() == left.len() + right.len(),
    decreases left.len() + right.len(),
{
    broadcast use vstd::multiset::group_multiset_axioms;

    lemma_multiset_commutative(left, right);
    if right.len() == 0 {
        assert(left + right =~= left);
    } else if left.len() == 0 {
        assert(left + right =~= right);
    } else if left[0] <= right[0] {
        let head = seq![left[0]];
        let inner = merged_front(left.skip(1), right);
        lemma_merged_front_permutes(left.skip(1), right);
        lemma_multiset_commutative(head, inner);
        lemma_multiset_commutative(head, left.skip(1));
        assert(head + left.skip(1) =~= left);
        assert(head.to_multiset().add(left.skip(1).to_multiset().add(right.to_multiset()))
            =~= head.to_multiset().add(left.skip(1).to_multiset()).add(right.to_multiset()));
    } else {
        let head = seq![right[0]];
        let inner = merged_front(left, right.skip(1));
        lemma_merged_front_permutes(left, right.skip(1));
        lemma_multiset_commutative(head, inner);
        lemma_multiset_commutative(head, right.skip(1));
        assert(head + right.skip(1) =~= right);
        assert(head.to_multiset().add(left.to_multiset().add(right.skip(1).to_multiset()))
            =~= left.to_multiset().add(head.to_multiset().add(right.skip(1).to_multiset())));
    }
}

/// A lower bound on both operands is one on their merge.
pub proof fn lemma_merged_front_bounded(left: Seq<i8>, right: Seq<i8>, bound: i8)
    requires
        bounded_below(left, bound),
        bounded_below(right, bound),
    ensures
        bounded_below(merged_front(left, right), bound),
    decreases left.len() + right.len(),
{
    if right.len() == 0 || left.len() == 0 {
    } else if left[0] <= right[0] {
        lemma_merged_front_bounded(left.skip(1), right, bound);
    } else {
        lemma_merged_front_bounded(left, right.skip(1), bound);
    }
}

/// Merging two ascending sequences from the front gives an ascending one.
pub proof fn lemma_merged_front_ascending(left: Seq<i8>, right: Seq<i8>)
    requires
        ascending(left),
        ascending(right),
    ensures
        ascending(merged_front(left, right)),
    decreases left.len() + right.len(),
{
    if right.len() == 0 || left.len() == 0 {
    } else if left[0] <= right[0] {
        lemma_merged_front_ascending(left.skip(1), right);
        lemma_merged_front_bounded(left.skip(1), right, left[0]);
    } else {
        lemma_merged_front_ascending(left, right.skip(1));
        lemma_merged_front_bounded(left, right.skip(1), right[0]);
    }
}

/// Sorting from the front returns an ascending permutation of its input.
pub proof fn lemma_sorted_front_sorts(s: Seq<i8>)
    ensures
        ascending(sorted_front(s)),
        sorted_front(s).to_multiset() == s.to_multiset(),
        sorted_front(s).len() == s.len(),
    decreases s.len(),
{
    if s.len() >= 2 {
        let mid = (s.len() / 2) as int;
        let front = s.take(mid);
        let back = s.skip(mid);
        lemma_sorted_front_sorts(front);
        lemma_sorted_front_sorts(back);
        lemma_merged_front_ascending(sorted_front(front), sorted_front(back));
        lemma_merged_front_permutes(sorted_front(front), sorted_front(back));
        lemma_multiset_commutative(front, back);
        assert(front + back =~= s);
    }
}

/// The same values as 64-bit integers, the element type of a list.
pub open spec fn widened(s: Seq<i8>) -> Seq<i64> {
    s.map_values(|v: i8| v as i64)
}

/// Widening keeps a permutation a permutation.
pub proof fn lemma_widened_permutes(a: Seq<i8>, b: Seq<i8>)
    requires
        a.to_multiset() == b.to_multiset(),
    ensures
        widened(a).to_multiset() == widened(b).to_multiset(),
    decreases a.len(),
{
    broadcast use vstd::multiset::group_multiset_axioms;

    a.to_multiset_ensures();
    b.to_multiset_ensures();
    if a.len() == 0 {
        assert(widened(a) =~= widened(b));
    } else {
        let x = a.last();
        let front = a.drop_last();
        assert(a =~= front.push(x));
        front.to_multiset_ensures();
        assert(a[a.len() - 1] == x);
        assert(a.contains(x));
        assert(a.to_multiset().count(x) > 0);
        assert(b.to_multiset().count(x) > 0);
        assert(b.contains(x));
        let k = choose|k: int| 0 <= k < b.len() && b[k] == x;
        let others = b.remove(k);
        assert(front.to_multiset() =~= a.to_multiset().remove(x));
        assert(front.to_multiset() =~= others.to_multiset());
        lemma_widened_permutes(front, others);
        let wide = x as i64;
        assert(widened(a) =~= widened(front).push(wide));
        assert(widened(b).remove(k) =~= widened(others));
        assert(widened(b)[k] == wide);
        widened(b).to_multiset_ensures();
        widened(front).to_multiset_ensures();
        assert(widened(b).to_multiset().count(wide) > 0);
        assert(widened(a).to_multiset() =~= widened(b).to_multiset());
    }
}

/// Merges two slices from the front. The result holds every element of
/// both; where both are ascending it is ascending too.
pub fn merge(left: &[i8], right: &[i8]) -> (out: Vec<i8>)
    ensures
        out@ == merged_front(left@, right@),
        out@.to_multiset() == left@.to_multiset().add(right@.to_multiset()),
        ascending(left@) && ascending(right@) ==> ascending(out@),
    decreases left@.len() + right@.len(),
{
    proof {
        lemma_merged_front_permutes(left@, right@);
        if ascending(left@) && ascending(right@) {
            lemma_merged_front_ascending(left@, right@);
        }
    }
    if right.len() == 0 {
        slice_to_vec(left)
    } else if left.len() == 0 {
        slice_to_vec(right)
    } else if left[0] <= right[0] {
        let mut out: Vec<i8> = Vec::new();
        out.push(left[0]);
        let mut tail: Vec<i8> = merge(slice_subrange(left, 1, left.len()), right);
        out.append(&mut tail);
        assert(out@ =~= seq![left@[0]] + merged_front(left@.skip(1), right@));
        out
    } else {
        let mut out: Vec<i8> = Vec::new();
        out.push(right[0]);
        let mut tail: Vec<i8> = merge(left, slice_subrange(right, 1, right.len()));
        out.append(&mut tail);
        assert(out@ =~= seq![right@[0]] + merged_front(left@, right@.skip(1)));
        out
    }
}

/// Sorts a slice in ascending order: the result is the ascending
/// permutation of the input.
pub fn merge_sort(slice: &[i8]) -> (out: Vec<i8>)
    ensures
        out@ == sorted_front(slice@),
        ascending(out@),
        out@.to_multiset() == slice@.to_multiset(),
    decreases slice@.len(),
{
    proof {
        lemma_sorted_front_sorts(slice@);
    }
    if slice.len() < 2 {
        slice_to_vec(slice)
    } else {
        let mid: usize = slice.len() / 2;
        let left: Vec<i8> = merge_sort(slice_subrange(slice, 0, mid));
        let right: Vec<i8> = merge_sort(slice_subrange(slice, mid, slice.len()));
        merge(left.as_slice(), right.as_slice())
    }
}

/// Moves the first `i` elements of `slice` onto the end of `rest` and
/// returns the grown `rest` with what is left of `slice`.
pub fn split_inner(rest: &[i8], slice: &[i8], i: usize) -> (out: (Vec<i8>, Vec<i8>))
    requires
        i <= slice@.len(),
    ensures
        out.0@ == rest@ + slice@.take(i as int),
        out.1@ == slice@.skip(i as int),
    decreases i,
{
    if i == 0 {
        assert(rest@ + slice@.take(0) =~= rest@);
        assert(slice@.skip(0) =~= slice@);
        (slice_to_vec(rest), slice_to_vec(slice))
    } else {
        let mut grown: Vec<i8> = slice_to_vec(rest);
        grown.push(slice[0]);
        let tail: &[i8] = slice_subrange(slice, 1, slice.len());
        assert(grown@ + tail@.take(i - 1) =~= rest@ + slice@.take(i as int));
        assert(tail@.skip(i - 1) =~= slice@.skip(i as int));
        split_inner(grown.as_slice(), tail, i - 1)
    }
}

/// Cuts `slice` after its first `i` elements.
pub fn split(slice: &[i8], i: usize) -> (out: (Vec<i8>, Vec<i8>))
    requires
        i <= slice@.len(),
    ensures
        out.0@ == slice@.take(i as int),
        out.1@ == slice@.skip(i as int),
        out.0@ + out.1@ == slice@,
{
    let empty: Vec<i8> = Vec::new();
    assert(empty@ + slice@.take(i as int) =~= slice@.take(i as int));
    assert(slice@.take(i as int) + slice@.skip(i as int) =~= slice@);
    split_inner(empty.as_slice(), slice, i)
}

} // verus!
