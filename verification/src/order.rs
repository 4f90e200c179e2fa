//! What it means for a sequence to be sorted, what merging and sorting
//! compute, and why the results are sorted permutations.

use vstd::prelude::*;
use vstd::relations::{sorted_by, total_ordering};
use vstd::seq_lib::{lemma_multiset_commutative, lemma_sorted_unique, to_multiset_build};
use crate::split::midpoint;

verus! {

/// The verdict that merging acts on: whether `a` is strictly greater than `b`.
pub open spec fn is_greater(a: i64, b: i64) -> bool {
    a > b
}

/// No element is greater than a later one.
pub open spec fn is_sorted(s: Seq<i64>) -> bool {
    forall|i: int, j: int| 0 <= i <= j < s.len() ==> s[i] <= s[j]
}

/// No element of `s` is greater than `bound`.
pub open spec fn bounded_above(s: Seq<i64>, bound: i64) -> bool {
    forall|i: int| 0 <= i < s.len() ==> s[i] <= bound
}

/// `a` and `b` hold the same elements, each as many times.
pub open spec fn is_permutation(a: Seq<i64>, b: Seq<i64>) -> bool {
    a.to_multiset() == b.to_multiset()
}

/// The two-way merge, working from the last elements towards the first.
///
/// Whichever of the two last elements is strictly greater ends the result;
/// when neither is, the last element of `right` does.
pub open spec fn merged(left: Seq<i64>, right: Seq<i64>) -> Seq<i64>
    decreases left.len() + right.len(), 1int,
{
    if right.len() == 0 {
        left
    } else if left.len() == 0 {
        right
    } else {
        swapped(left, right, is_greater(left.last(), right.last()))
    }
}

/// One step of the merge of two non-empty sequences, once the verdict on
/// their last elements is known: the operand that the verdict names gives up
/// its last element, the rest is merged, and that element ends the result.
pub open spec fn swapped(left: Seq<i64>, right: Seq<i64>, left_greater: bool) -> Seq<i64>
    recommends
        left.len() > 0,
        right.len() > 0,
    decreases left.len() + right.len(), 0int,
{
    if left.len() == 0 || right.len() == 0 {
        left + right
    } else if left_greater {
        merged(left.drop_last(), right).push(left.last())
    } else {
        merged(left, right.drop_last()).push(right.last())
    }
}

/// Merge sort: a sequence of fewer than two elements is its own result; a
/// longer one is cut at its midpoint and the sorted halves are merged.
pub open spec fn merge_sorted(s: Seq<i64>) -> Seq<i64>
    decreases s.len(),
{
    if s.len() < 2 {
        s
    } else {
        merged(
            merge_sorted(s.take(midpoint(s.len()))),
            merge_sorted(s.skip(midpoint(s.len()))),
        )
    }
}

/// Merging keeps every element of both operands and adds none.
pub proof fn lemma_merged_permutes(left: Seq<i64>, right: Seq<i64>)
    ensures
        merged(left, right).to_multiset() == left.to_multiset().add(right.to_multiset()),
        merged(left, right).len() == left.len() + right.len(),
    decreases left.len() + right.len(),
{
    broadcast use vstd::multiset::group_multiset_axioms;

    lemma_multiset_commutative(left, right);
    if right.len() == 0 {
        assert(left + right =~= left);
    } else if left.len() == 0 {
        assert(left + right =~= right);
    } else if is_greater(left.last(), right.last()) {
        let rest = left.drop_last();
        let inner = merged(rest, right);
        lemma_merged_permutes(rest, right);
        assert(left =~= rest.push(left.last()));
        to_multiset_build(inner, left.last());
        to_multiset_build(rest, left.last());
        assert(rest.to_multiset().insert(left.last()).add(right.to_multiset())
            =~= rest.to_multiset().add(right.to_multiset()).insert(left.last()));
    } else {
        let rest = right.drop_last();
        let inner = merged(left, rest);
        lemma_merged_permutes(left, rest);
        assert(right =~= rest.push(right.last()));
        to_multiset_build(inner, right.last());
        to_multiset_build(rest, right.last());
        assert(left.to_multiset().add(rest.to_multiset().insert(right.last()))
            =~= left.to_multiset().add(rest.to_multiset()).insert(right.last()));
    }
}

/// A bound on both operands bounds their merge.
pub proof fn lemma_merged_bounded(left: Seq<i64>, right: Seq<i64>, bound: i64)
    requires
        bounded_above(left, bound),
        bounded_above(right, bound),
    ensures
        bounded_above(merged(left, right), bound),
    decreases left.len() + right.len(),
{
    if right.len() == 0 || left.len() == 0 {
    } else if is_greater(left.last(), right.last()) {
        lemma_merged_bounded(left.drop_last(), right, bound);
    } else {
        lemma_merged_bounded(left, right.drop_last(), bound);
    }
}

/// Merging two sorted sequences gives a sorted sequence.
pub proof fn lemma_merged_sorted(left: Seq<i64>, right: Seq<i64>)
    requires
        is_sorted(left),
        is_sorted(right),
    ensures
        is_sorted(merged(left, right)),
    decreases left.len() + right.len(),
{
    if right.len() == 0 || left.len() == 0 {
    } else if is_greater(left.last(), right.last()) {
        let rest = left.drop_last();
        lemma_merged_sorted(rest, right);
        lemma_merged_bounded(rest, right, left.last());
    } else {
        let rest = right.drop_last();
        lemma_merged_sorted(left, rest);
        lemma_merged_bounded(left, rest, right.last());
    }
}

/// Where `left` followed by `right` is already sorted, merging them gives
/// exactly that sequence.
pub proof fn lemma_merged_in_order(left: Seq<i64>, right: Seq<i64>)
    requires
        is_sorted(left + right),
    ensures
        merged(left, right) == left + right,
    decreases right.len(),
{
    let whole = left + right;
    if right.len() == 0 {
        assert(whole =~= left);
    } else if left.len() == 0 {
        assert(whole =~= right);
    } else {
        assert(whole[left.len() - 1] == left.last());
        assert(whole[whole.len() - 1] == right.last());
        let rest = right.drop_last();
        assert(left + rest =~= whole.drop_last());
        lemma_merged_in_order(left, rest);
        assert((left + rest).push(right.last()) =~= whole);
    }
}

/// Merge sort returns a sorted permutation of its input.
pub proof fn lemma_merge_sorted_sorts(s: Seq<i64>)
    ensures
        is_sorted(merge_sorted(s)),
        is_permutation(merge_sorted(s), s),
        merge_sorted(s).len() == s.len(),
    decreases s.len(),
{
    if s.len() >= 2 {
        let mid = midpoint(s.len());
        let front = s.take(mid);
        let back = s.skip(mid);
        lemma_merge_sorted_sorts(front);
        lemma_merge_sorted_sorts(back);
        lemma_merged_sorted(merge_sorted(front), merge_sorted(back));
        lemma_merged_permutes(merge_sorted(front), merge_sorted(back));
        lemma_multiset_commutative(front, back);
        assert(front + back =~= s);
    }
}

/// Two sorted sequences with the same elements are the same sequence.
pub proof fn lemma_sorted_permutation_unique(a: Seq<i64>, b: Seq<i64>)
    requires
        is_sorted(a),
        is_sorted(b),
        is_permutation(a, b),
    ensures
        a == b,
{
    let at_most = |x: i64, y: i64| x <= y;
    assert(total_ordering(at_most));
    assert(sorted_by(a, at_most));
    assert(sorted_by(b, at_most));
    lemma_sorted_unique(a, b, at_most);
}

/// Merge sort leaves a sorted sequence as it is.
pub proof fn lemma_merge_sorted_keeps_sorted(s: Seq<i64>)
    requires
        is_sorted(s),
    ensures
        merge_sorted(s) == s,
    decreases s.len(),
{
    if s.len() >= 2 {
        let mid = midpoint(s.len());
        let front = s.take(mid);
        let back = s.skip(mid);
        lemma_merge_sorted_keeps_sorted(front);
        lemma_merge_sorted_keeps_sorted(back);
        assert(front + back =~= s);
        lemma_merged_in_order(front, back);
    }
}

} // verus!
