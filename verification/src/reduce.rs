//! The least and the greatest element of a list.

use vstd::prelude::*;
use crate::list::List;

verus! {

/// `m` occurs in `s` and no element of `s` is less.
pub open spec fn is_minimum(s: Seq<i64>, m: i64) -> bool {
    &&& s.contains(m)
    &&& forall|i: int| 0 <= i < s.len() ==> m <= s[i]
}

/// `m` occurs in `s` and no element of `s` is greater.
pub open spec fn is_maximum(s: Seq<i64>, m: i64) -> bool {
    &&& s.contains(m)
    &&& forall|i: int| 0 <= i < s.len() ==> m >= s[i]
}

impl List {
    /// The least among the elements of the list and `value`.
    pub fn array_value_min(&self, value: i64) -> (out: i64)
        ensures
            is_minimum(self@.push(value), out),
        decreases self,
    {
        proof {
            self.lemma_view_shape();
        }
        match self {
            List::Empty => {
                assert(self@.push(value)[0] == value);
                value
            },
            List::Cons(rest, last) => {
                let inner: i64 = rest.array_value_min(*last);
                let out: i64 = if inner < value { inner } else { value };
                proof {
                    let at = choose|i: int| 0 <= i < self@.len() && self@[i] == inner;
                    assert(self@.push(value)[at] == inner);
                    assert(self@.push(value)[self@.len() as int] == value);
                }
                out
            },
        }
    }

    /// The least element of a list that has one.
    pub fn array_min(&self) -> (out: i64)
        requires
            self@.len() > 0,
        ensures
            is_minimum(self@, out),
    {
        proof {
            self.lemma_view_shape();
        }
        match self {
            List::Empty => 0,
            List::Cons(rest, last) => rest.array_value_min(*last),
        }
    }

    /// The greatest among the elements of the list and `value`.
    pub fn array_value_max(&self, value: i64) -> (out: i64)
        ensures
            is_maximum(self@.push(value), out),
        decreases self,
    {
        proof {
            self.lemma_view_shape();
        }
        match self {
            List::Empty => {
                assert(self@.push(value)[0] == value);
                value
            },
            List::Cons(rest, last) => {
                let inner: i64 = rest.array_value_max(*last);
                let out: i64 = if inner > value { inner } else { value };
                proof {
                    let at = choose|i: int| 0 <= i < self@.len() && self@[i] == inner;
                    assert(self@.push(value)[at] == inner);
                    assert(self@.push(value)[self@.len() as int] == value);
                }
                out
            },
        }
    }

    /// The greatest element of a list that has one.
    pub fn array_max(&self) -> (out: i64)
        requires
            self@.len() > 0,
        ensures
            is_maximum(self@, out),
    {
        proof {
            self.lemma_view_shape();
        }
        match self {
            List::Empty => 0,
            List::Cons(rest, last) => rest.array_value_max(*last),
        }
    }
}

} // verus!
