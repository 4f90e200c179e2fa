//! An immutable, append-ordered list of signed integers with a verified
//! list algebra: length, push, pop, concatenation, splitting, mirroring,
//! two-way merge, merge sort and minimum / maximum folds.
//!
//! A list is either empty or a shorter list followed by its last element, so
//! the outermost node always holds the most recently appended value. Every
//! operation builds a new list; none changes one in place. Contracts are
//! stated over the view of a list, the mathematical sequence of its elements
//! written first to last.
//!
//! - [`list`]: the representation, length, push, pop and concatenation.
//! - [`split`]: mirroring and cutting a list in two.
//! - [`order`]: what sorted, merged and sorted-by-merging mean, with the
//!   lemmas that the sorting functions rest on.
//! - [`merge`]: two-way merge and merge sort.
//! - [`reduce`]: least and greatest element.
//! - [`slices`]: merging, sorting and splitting on plain slices, from the
//!   front.
//! - [`laws`]: what holds between the operations.

pub mod laws;
pub mod list;
pub mod merge;
pub mod order;
pub mod reduce;
pub mod slices;
pub mod split;

pub use list::List;
pub use split::Pair;
