//! Merging two lists and sorting one.

use vstd::prelude::*;
use crate::list::List;
use crate::order::{
    is_greater, is_permutation, is_sorted, lemma_merge_sorted_sorts, lemma_merged_permutes,
    lemma_merged_sorted, merge_sorted, merged, swapped,
};
use crate::split::Pair;

verus! {

/// Whether `a` is strictly greater than `b`: the verdict that decides which
/// of two candidates a merge puts last.
pub fn greater(a: i64, b: i64) -> (verdict: bool)
    ensures
        verdict == is_greater(a, b),
{
    a > b
}

impl Pair {
    /// One step of the merge of two non-empty lists, once the verdict on
    /// their last elements is known. With `left_greater` the left list gives
    /// up its last element, else the right one does; the rest is merged and
    /// that element is pushed onto the result.
    pub fn compare_swap(self, left_greater: bool) -> (out: List)
        requires
            self.left@.len() > 0,
            self.right@.len() > 0,
        ensures
            out@ == swapped(self.left@, self.right@, left_greater),
            out@.len() == self.left@.len() + self.right@.len(),
        decreases self.left@.len() + self.right@.len(), 0int,
    {
        proof {
            self.left.lemma_view_shape();
            self.right.lemma_view_shape();
        }
        let Pair { left, right } = self;
        if left_greater {
            match left {
                List::Empty => right,
                List::Cons(left_rest, left_last) => (*left_rest).merge(right).push(left_last),
            }
        } else {
            match right {
                List::Empty => left,
                List::Cons(right_rest, right_last) => left.merge(*right_rest).push(right_last),
            }
        }
    }
}

impl List {
    /// Merges two lists, comparing their last elements and recursing from
    /// there. The result holds every element of both; where both are sorted
    /// it is sorted too. Of two equal candidates the one from `right` comes
    /// later in the result.
    pub fn merge(self, right: List) -> (out: List)
        ensures
            out@ == merged(self@, right@),
            out@.len() == self@.len() + right@.len(),
            out@.to_multiset() == self@.to_multiset().add(right@.to_multiset()),
            is_sorted(self@) && is_sorted(right@) ==> is_sorted(out@),
            right@.len() == 0 ==> out@ == self@,
            self@.len() == 0 ==> out@ == right@,
        decreases self@.len() + right@.len(), 1int,
    {
        proof {
            self.lemma_view_shape();
            right.lemma_view_shape();
            lemma_merged_permutes(self@, right@);
            if is_sorted(self@) && is_sorted(right@) {
                lemma_merged_sorted(self@, right@);
            }
        }
        if right.is_empty() {
            self
        } else if self.is_empty() {
            right
        } else {
            let verdict: bool = greater(self.pop(), right.pop());
            (Pair { left: self, right: right }).compare_swap(verdict)
        }
    }

    /// Sorts the list in ascending order: the result is the sorted
    /// permutation of `self`.
    pub fn merge_sort(self) -> (out: List)
        requires
            self@.len() <= usize::MAX,
        ensures
            out@ == merge_sorted(self@),
            is_sorted(out@),
            is_permutation(out@, self@),
            out@.len() == self@.len(),
        decreases self@.len(),
    {
        proof {
            self.lemma_view_shape();
            lemma_merge_sorted_sorts(self@);
        }
        let trivial: bool = match &self {
            List::Empty => true,
            List::Cons(rest, _) => rest.is_empty(),
        };
        if trivial {
            self
        } else {
            let halves = self.split_half();
            let left: List = halves.left.merge_sort();
            let right: List = halves.right.merge_sort();
            left.merge(right)
        }
    }
}

} // verus!
