//! The order of costed points in a solved field.

use crate::point::Point;
use core::cmp::Ordering;
use itertools::Itertools;
use vstd::prelude::*;

verus! {

/// Compares two costed points by cost alone.
pub fn by_cost(a: &(u64, Point), b: &(u64, Point)) -> (r: Ordering)
    ensures
        (r == Ordering::Less) == (a.0 < b.0),
        (r == Ordering::Equal) == (a.0 == b.0),
        (r == Ordering::Greater) == (a.0 > b.0),
{
    if a.0 < b.0 {
        Ordering::Less
    } else if a.0 == b.0 {
        Ordering::Equal
    } else {
        Ordering::Greater
    }
}

/// Calls `Itertools::sorted_unstable_by` with `by_cost`, which sorts the
/// items with `slice::sort_unstable_by`: the result holds the same items,
/// each the same number of times, in ascending order of cost. Items of
/// equal cost may come in any order.
#[verifier::external_body]
pub(crate) fn sorted_by_cost(items: Vec<(u64, Point)>) -> (r: Vec<(u64, Point)>)
    ensures
        r@.to_multiset() == items@.to_multiset(),
        forall|i: int, j: int| 0 <= i < j < r@.len() ==> r@[i].0 <= r@[j].0,
{
    items.into_iter().sorted_unstable_by(by_cost).collect()
}

} // verus!
