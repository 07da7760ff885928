//! Storage indices in row-major order.
//!
//! The indices of a grid are walked with the cartesian product of two index
//! ranges. What the product does is not verified here: the contracts below
//! state what it is taken to do.

use core::ops::Range;
use itertools::Itertools;
use itertools::Product;
use vstd::arithmetic::div_mod::lemma_fundamental_div_mod_converse;
use vstd::prelude::*;

verus! {

/// The cartesian product of two iterators.
#[verifier::external_type_specification]
#[verifier::external_body]
#[verifier::reject_recursive_types(I)]
#[verifier::reject_recursive_types(J)]
pub struct ExProduct<I: Iterator, J>(Product<I, J>);

/// The pairs that a product of two index ranges has yet to yield, in the
/// order in which it yields them.
pub uninterp spec fn pairs_left(p: Product<Range<usize>, Range<usize>>) -> Seq<(usize, usize)>;

/// The position of index `(i, j)` in the row-major order of a grid whose
/// second axis has extent `h`.
pub open spec fn flat_index(i: int, j: int, h: int) -> int {
    i * h + j
}

/// All indices of a grid of `w` by `h` cells in row-major order: the first
/// component changes slowest.
pub open spec fn row_major(w: nat, h: nat) -> Seq<(usize, usize)> {
    Seq::new(w * h, |k: int| ((k / h as int) as usize, (k % h as int) as usize))
}

/// The size hint of a walk that has exactly `n` items left.
pub open spec fn size_hint_of(n: nat) -> (usize, Option<usize>) {
    if n <= usize::MAX {
        (n as usize, Some(n as usize))
    } else {
        (usize::MAX, None)
    }
}

/// Calls `Itertools::cartesian_product` on the ranges `0..w` and `0..h`. The
/// product pairs every element of the first range, in order, with every
/// element of the second, in order.
#[verifier::external_body]
pub(crate) fn index_pairs(w: usize, h: usize) -> (p: Product<Range<usize>, Range<usize>>)
    ensures
        pairs_left(p) == row_major(w as nat, h as nat),
{
    (0..w).cartesian_product(0..h)
}

/// Calls `Iterator::next` on a product of two index ranges, which yields the
/// first of the pairs that are left, or nothing once none is left.
#[verifier::external_body]
pub(crate) fn next_pair(p: &mut Product<Range<usize>, Range<usize>>) -> (r: Option<(usize, usize)>)
    ensures
        match r {
            Some(pair) => pairs_left(*old(p)).len() > 0 && pair == pairs_left(*old(p))[0]
                && pairs_left(*final(p)) == pairs_left(*old(p)).skip(1),
            None => pairs_left(*old(p)).len() == 0 && pairs_left(*final(p)).len() == 0,
        },
{
    p.next()
}

/// Calls `Iterator::size_hint` on a product of two index ranges. The product
/// computes both bounds from the exact lengths of its ranges: the lower
/// bound with sums and products that stop at the largest `usize`, the upper
/// bound with sums and products that give nothing once they pass it. So both
/// are the number of pairs that are left where that number fits in `usize`;
/// else the lower bound is the largest `usize` and no upper bound is given.
#[verifier::external_body]
pub(crate) fn pairs_size_hint(p: &Product<Range<usize>, Range<usize>>) -> (r: (usize, Option<usize>))
    ensures
        r == size_hint_of(pairs_left(*p).len()),
{
    p.size_hint()
}

/// Every index of the grid has its place in the row-major order, and no two
/// indices share one.
pub proof fn flat_index_is_in_range(i: int, j: int, w: int, h: int)
    requires
        0 <= i < w,
        0 <= j < h,
    ensures
        0 <= flat_index(i, j, h) < w * h,
        flat_index(i, j, h) / h == i,
        flat_index(i, j, h) % h == j,
{
    assert(0 <= i * h + j < w * h) by (nonlinear_arith)
        requires
            0 <= i < w,
            0 <= j < h,
    ;
    lemma_fundamental_div_mod_converse(flat_index(i, j, h), h, i, j);
}

/// The pair at place `k` of the row-major order is an index of the grid, and
/// `k` is its place.
pub proof fn row_major_at(k: int, w: nat, h: nat)
    requires
        0 <= k < w * h,
    ensures
        h > 0,
        0 <= k / (h as int) < w,
        0 <= k % (h as int) < h,
        flat_index(k / (h as int), k % (h as int), h as int) == k,
        row_major(w, h)[k] == ((k / (h as int)) as usize, (k % (h as int)) as usize),
{
    let d = h as int;
    assert(0 <= k / d < w && 0 <= k % d < d && (k / d) * d + k % d == k) by (nonlinear_arith)
        requires
            0 <= k < w * d,
            d > 0,
    ;
}

} // verus!
