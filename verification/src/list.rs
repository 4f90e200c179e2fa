//! The list representation and the primitives that do not look at order.

use vstd::prelude::*;

verus! {

/// A finite sequence of integers, encoded as nested pairs.
///
/// `Cons(rest, last)` is the list `rest` followed by `last`; walking towards
/// `Empty` visits the elements from the last one to the first.
#[derive(Debug, PartialEq, Eq)]
pub enum List {
    Empty,
    Cons(Box<List>, i64),
}

impl View for List {
    type V = Seq<i64>;

    /// The elements in logical order: first appended first.
    open spec fn view(&self) -> Seq<i64>
        decreases self,
    {
        match self {
            List::Empty => Seq::empty(),
            List::Cons(rest, last) => (**rest).view().push(*last),
        }
    }
}

impl Clone for List {
    /// A structurally equal copy.
    fn clone(&self) -> (out: Self)
        ensures
            out == *self,
        decreases self,
    {
        self.duplicate()
    }
}

impl List {
    /// How the view follows the shape of the list: the empty list has the
    /// empty view, and a node contributes its element at the end.
    pub proof fn lemma_view_shape(self)
        ensures
            self is Empty <==> self@.len() == 0,
            self matches List::Cons(rest, last) ==> {
                &&& self@ == rest@.push(last)
                &&& self@.last() == last
                &&& self@.drop_last() == rest@
            },
    {
        match self {
            List::Empty => {
                assert(self.view() == Seq::<i64>::empty());
            },
            List::Cons(rest, last) => {
                assert(self.view() == (*rest).view().push(last));
                assert(rest@.push(last).drop_last() =~= rest@);
            },
        }
    }

    /// A new list with the same elements in the same order.
    pub fn duplicate(&self) -> (out: List)
        ensures
            out == *self,
        decreases self,
    {
        match self {
            List::Empty => List::Empty,
            List::Cons(rest, last) => {
                let inner: List = rest.duplicate();
                List::Cons(Box::new(inner), *last)
            },
        }
    }

    /// The list without elements.
    pub fn new() -> (out: List)
        ensures
            out@ == Seq::<i64>::empty(),
            out is Empty,
    {
        List::Empty
    }

    /// Whether the list has no element.
    pub fn is_empty(&self) -> (out: bool)
        ensures
            out == (self@.len() == 0),
            out == (self is Empty),
    {
        proof {
            self.lemma_view_shape();
        }
        match self {
            List::Empty => true,
            List::Cons(_, _) => false,
        }
    }

    /// The number of elements: zero for the empty list, one more than the
    /// length of the rest otherwise.
    pub fn length(&self) -> (count: usize)
        requires
            self@.len() <= usize::MAX,
        ensures
            count == self@.len(),
        decreases self,
    {
        match self {
            List::Empty => 0,
            List::Cons(rest, _) => {
                let shorter: usize = rest.length();
                shorter + 1
            },
        }
    }

    /// The number of elements where a `usize` can hold it, `None` where it
    /// cannot.
    pub fn checked_length(&self) -> (count: Option<usize>)
        ensures
            count.is_some() == (self@.len() <= usize::MAX),
            count matches Some(n) ==> n == self@.len(),
        decreases self,
    {
        proof {
            self.lemma_view_shape();
        }
        match self {
            List::Empty => Some(0),
            List::Cons(rest, _) => match rest.checked_length() {
                Some(shorter) => if shorter < usize::MAX {
                    Some(shorter + 1)
                } else {
                    None
                },
                None => None,
            },
        }
    }

    /// Appends `value`: the result is `self` followed by `value`.
    pub fn push(self, value: i64) -> (out: List)
        ensures
            out@ == self@.push(value),
            out@.len() == self@.len() + 1,
            out == List::Cons(Box::new(self), value),
    {
        List::Cons(Box::new(self), value)
    }

    /// The last element, the one appended most recently.
    pub fn pop(&self) -> (value: i64)
        requires
            self@.len() > 0,
        ensures
            value == self@.last(),
    {
        proof {
            self.lemma_view_shape();
        }
        match self {
            List::Empty => 0,
            List::Cons(_, last) => *last,
        }
    }

    /// The elements of `self` followed by those of `right`, order kept.
    pub fn concatenate(self, right: List) -> (out: List)
        ensures
            out@ == self@ + right@,
            out@.len() == self@.len() + right@.len(),
        decreases right,
    {
        match right {
            List::Empty => {
                assert(self@ + right@ =~= self@);
                self
            },
            List::Cons(right_rest, right_last) => {
                let ghost rest_view = (*right_rest)@;
                let inner: List = self.concatenate(*right_rest);
                assert(self@ + right@ =~= (self@ + rest_view).push(right_last));
                List::Cons(Box::new(inner), right_last)
            },
        }
    }

    /// Builds the list whose elements are those of `values`, in the same
    /// order: the first of `values` ends up innermost, the last outermost.
    pub fn from_slice(values: &[i64]) -> (out: List)
        ensures
            out@ == values@,
    {
        let mut out: List = List::Empty;
        let mut i: usize = 0;
        while i < values.len()
            invariant
                i <= values.len(),
                out@ == values@.take(i as int),
            decreases values.len() - i,
        {
            assert(values@.take(i + 1) =~= values@.take(i as int).push(values@[i as int]));
            out = out.push(values[i]);
            i = i + 1;
        }
        assert(values@.take(i as int) =~= values@);
        out
    }

    /// The elements in logical order, first to last.
    pub fn to_vec(&self) -> (out: Vec<i64>)
        ensures
            out@ == self@,
        decreases self,
    {
        match self {
            List::Empty => Vec::new(),
            List::Cons(rest, last) => {
                let mut out: Vec<i64> = rest.to_vec();
                out.push(*last);
                out
            },
        }
    }
}

} // verus!
