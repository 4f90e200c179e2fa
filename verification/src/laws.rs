//! Laws of the list algebra, stated over the views that the contracts of the
//! operations speak of.

use vstd::prelude::*;
use vstd::seq_lib::lemma_multiset_commutative;
use crate::list::List;
use crate::slices::{lemma_sorted_front_sorts, lemma_widened_permutes, sorted_front, widened};
use crate::order::{
    is_permutation, is_sorted, lemma_merge_sorted_keeps_sorted, lemma_merge_sorted_sorts,
    lemma_merged_permutes, lemma_merged_sorted, lemma_sorted_permutation_unique, merge_sorted,
    merged,
};

verus! {

/// The length of a concatenation is the sum of the lengths of its parts.
pub proof fn law_concatenate_length(a: List, b: List)
    ensures
        (a@ + b@).len() == a@.len() + b@.len(),
{
}

/// Concatenation is associative.
pub proof fn law_concatenate_associative(a: List, b: List, c: List)
    ensures
        (a@ + b@) + c@ == a@ + (b@ + c@),
{
    assert((a@ + b@) + c@ =~= a@ + (b@ + c@));
}

/// Concatenating the two parts of a split gives the list back, element for
/// element, wherever the cut is made.
pub proof fn law_split_concatenate(l: List, mid: nat)
    requires
        mid <= l@.len(),
    ensures
        l@.take(mid as int) + l@.skip(mid as int) == l@,
        l@.take(mid as int).len() == mid,
{
    assert(l@.take(mid as int) + l@.skip(mid as int) =~= l@);
}

/// A split before the first element leaves the left part empty and the right
/// part equal to the whole list.
pub proof fn law_split_at_zero(l: List)
    ensures
        l@.take(0) == Seq::<i64>::empty(),
        l@.skip(0) == l@,
{
    assert(l@.take(0) =~= Seq::<i64>::empty());
    assert(l@.skip(0) =~= l@);
}

/// Merging with the empty list, on either side, changes nothing.
pub proof fn law_merge_empty(l: List)
    ensures
        merged(l@, Seq::empty()) == l@,
        merged(Seq::empty(), l@) == l@,
{
}

/// Sorting a sorted list changes nothing; so sorting twice is sorting once.
pub proof fn law_sort_idempotent(l: List)
    ensures
        merge_sorted(merge_sorted(l@)) == merge_sorted(l@),
{
    lemma_merge_sorted_sorts(l@);
    lemma_merge_sorted_keeps_sorted(merge_sorted(l@));
}

/// The result of sorting is in ascending order and holds exactly the
/// elements of the input, each as often as the input does.
pub proof fn law_sort_correct(l: List)
    ensures
        is_sorted(merge_sorted(l@)),
        is_permutation(merge_sorted(l@), l@),
{
    lemma_merge_sorted_sorts(l@);
}

/// There is one ascending arrangement of the elements of a list, and sorting
/// returns it: how equal elements were ordered on the way does not show.
pub proof fn law_sort_unique(l: List, arranged: Seq<i64>)
    requires
        is_sorted(arranged),
        is_permutation(arranged, l@),
    ensures
        merge_sorted(l@) == arranged,
{
    lemma_merge_sorted_sorts(l@);
    lemma_sorted_permutation_unique(merge_sorted(l@), arranged);
}

/// Merging two sorted lists gives the sorted arrangement of all their
/// elements, whichever of the two stands on the left.
pub proof fn law_merge_symmetric(a: List, b: List)
    requires
        is_sorted(a@),
        is_sorted(b@),
    ensures
        merged(a@, b@) == merged(b@, a@),
        is_sorted(merged(a@, b@)),
        is_permutation(merged(a@, b@), a@ + b@),
{
    broadcast use vstd::multiset::group_multiset_axioms;

    lemma_merged_sorted(a@, b@);
    lemma_merged_sorted(b@, a@);
    lemma_merged_permutes(a@, b@);
    lemma_merged_permutes(b@, a@);
    lemma_multiset_commutative(a@, b@);
    assert(a@.to_multiset().add(b@.to_multiset()) =~= b@.to_multiset().add(a@.to_multiset()));
    lemma_sorted_permutation_unique(merged(a@, b@), merged(b@, a@));
}

/// Sorting a slice from the front and sorting the list of the same values
/// give the same arrangement, although the two cut at different places and
/// settle ties differently.
pub proof fn law_slice_sort_agrees(s: Seq<i8>)
    ensures
        widened(sorted_front(s)) == merge_sorted(widened(s)),
{
    lemma_sorted_front_sorts(s);
    lemma_widened_permutes(sorted_front(s), s);
    lemma_merge_sorted_sorts(widened(s));
    lemma_sorted_permutation_unique(widened(sorted_front(s)), merge_sorted(widened(s)));
}

/// The element that was pushed last is the one that pop returns, and a push
/// makes the list longer by exactly one element while keeping the others.
pub proof fn law_push_pop(l: List, v: i64)
    ensures
        l@.push(v).last() == v,
        l@.push(v).len() == l@.len() + 1,
        l@.push(v).drop_last() == l@,
{
    assert(l@.push(v).drop_last() =~= l@);
}

/// Mirroring twice gives the list back.
pub proof fn law_mirror_involution(l: List)
    ensures
        l@.reverse().reverse() == l@,
{
    assert(l@.reverse().reverse() =~= l@);
}

/// Two lists with the same view are the same list.
pub proof fn law_view_injective(a: List, b: List)
    requires
        a@ == b@,
    ensures
        a == b,
    decreases a,
{
    a.lemma_view_shape();
    b.lemma_view_shape();
    match (a, b) {
        (List::Cons(rest_a, _), List::Cons(rest_b, _)) => {
            law_view_injective(*rest_a, *rest_b);
        },
        _ => {},
    }
}

} // verus!
