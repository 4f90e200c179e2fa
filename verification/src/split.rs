//! Mirroring a list and cutting it in two.

use vstd::prelude::*;
use crate::list::List;

verus! {

/// The two parts that a split produces: `left` holds the elements before the
/// cut, `right` those after it.
#[derive(Debug, PartialEq, Eq)]
pub struct Pair {
    pub left: List,
    pub right: List,
}

/// Where a list of `len` elements is cut in the middle: half of `len`,
/// rounded up.
pub open spec fn midpoint(len: nat) -> int {
    (len + 1) as int / 2
}

impl List {
    /// Moves the elements of `self`, last one first, onto the end of `buf`:
    /// the result is `buf` followed by `self` in reverse order.
    pub fn inverse(self, buf: List) -> (out: List)
        ensures
            out@ == buf@ + self@.reverse(),
        decreases self,
    {
        proof {
            self.lemma_view_shape();
        }
        match self {
            List::Empty => {
                assert(buf@ + self@.reverse() =~= buf@);
                buf
            },
            List::Cons(rest, last) => {
                assert(buf@.push(last) + rest@.reverse() =~= buf@ + self@.reverse());
                (*rest).inverse(buf.push(last))
            },
        }
    }

    /// The same elements in the opposite order.
    pub fn mirror(self) -> (out: List)
        ensures
            out@ == self@.reverse(),
            out@.len() == self@.len(),
    {
        assert(Seq::<i64>::empty() + self@.reverse() =~= self@.reverse());
        self.inverse(List::Empty)
    }

    /// Peels the last `budget` elements off `self` onto `buf`, then returns
    /// what remains of `self` as the left part and the mirrored buffer as the
    /// right part.
    pub fn split_inner(self, buf: List, budget: usize) -> (out: Pair)
        requires
            budget <= self@.len(),
        ensures
            out.left@ == self@.take(self@.len() - budget),
            out.right@ == self@.skip(self@.len() - budget) + buf@.reverse(),
        decreases budget,
    {
        proof {
            self.lemma_view_shape();
        }
        if budget == 0 {
            assert(self@.take(self@.len() as int) =~= self@);
            assert(self@.skip(self@.len() as int) + buf@.reverse() =~= buf@.reverse());
            Pair { left: self, right: buf.mirror() }
        } else {
            match self {
                List::Empty => Pair { left: List::Empty, right: buf.mirror() },
                List::Cons(rest, last) => {
                    let ghost cut = self@.len() - budget;
                    assert(rest@.take(cut) =~= self@.take(cut));
                    assert(rest@.skip(cut) + buf@.push(last).reverse() =~= self@.skip(cut)
                        + buf@.reverse());
                    (*rest).split_inner(buf.push(last), budget - 1)
                },
            }
        }
    }

    /// Cuts the list after its first `mid` elements.
    pub fn split(self, mid: usize) -> (out: Pair)
        requires
            mid <= self@.len() <= usize::MAX,
        ensures
            out.left@ == self@.take(mid as int),
            out.right@ == self@.skip(mid as int),
            out.left@.len() == mid,
            out.left@ + out.right@ == self@,
    {
        let count: usize = self.length();
        assert(self@.skip(mid as int) + Seq::<i64>::empty().reverse() =~= self@.skip(mid as int));
        assert(self@.take(mid as int) + self@.skip(mid as int) =~= self@);
        self.split_inner(List::Empty, count - mid)
    }

    /// Cuts the list in the middle. With an odd number of elements the left
    /// part is the longer one.
    pub fn split_half(self) -> (out: Pair)
        requires
            self@.len() <= usize::MAX,
        ensures
            out.left@ == self@.take(midpoint(self@.len())),
            out.right@ == self@.skip(midpoint(self@.len())),
            out.left@.len() == midpoint(self@.len()),
            out.right@.len() == self@.len() / 2,
            out.left@ + out.right@ == self@,
    {
        let count: usize = self.length();
        let mid: usize = count - count / 2;
        self.split(mid)
    }
}

} // verus!
