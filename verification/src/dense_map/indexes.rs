//! Translation between absolute coordinates and storage indices.
//!
//! An absolute coordinate is any signed integer. Along each axis the grid
//! has an origin and an extent: without wrap, the coordinates from the
//! origin up to the origin plus the extent have an index and all others
//! have none; with wrap, every coordinate has one, taken modulo the extent.

use vstd::arithmetic::div_mod::{lemma_mod_multiples_vanish, lemma_small_mod};
use vstd::prelude::*;

verus! {

/// The storage index of coordinate `c` along one axis, if it has one.
pub open spec fn axis_index(c: int, origin: int, extent: int, cycle: bool) -> Option<int> {
    let d = c - origin;
    if cycle {
        if extent > 0 {
            Some(d % extent)
        } else {
            None
        }
    } else if 0 <= d < extent {
        Some(d)
    } else {
        None
    }
}

/// The storage index of the absolute coordinate `(x, y)`, if it has one:
/// both axes must give an index.
pub open spec fn relative_index(
    x: int,
    y: int,
    origin_x: int,
    origin_y: int,
    w: int,
    h: int,
    cycle_x: bool,
    cycle_y: bool,
) -> Option<(int, int)> {
    match (axis_index(x, origin_x, w, cycle_x), axis_index(y, origin_y, h, cycle_y)) {
        (Some(i), Some(j)) => Some((i, j)),
        _ => None,
    }
}

/// The canonical absolute coordinate of the storage index `(i, j)`.
pub open spec fn canonical(i: int, j: int, origin_x: int, origin_y: int) -> (int, int) {
    (i + origin_x, j + origin_y)
}

/// Translates one coordinate to its index along one axis.
fn axis_to_relative(c: isize, origin: isize, extent: isize, cycle: bool) -> (r: Option<usize>)
    requires
        cycle ==> extent > 0,
    ensures
        match r {
            Some(i) => axis_index(c as int, origin as int, extent as int, cycle) == Some(i as int),
            None => axis_index(c as int, origin as int, extent as int, cycle).is_none(),
        },
{
    let d: i128 = c as i128 - origin as i128;
    if cycle {
        match d.checked_rem_euclid(extent as i128) {
            Some(m) => Some(m as usize),
            None => None,
        }
    } else if d < 0 || d >= extent as i128 {
        None
    } else {
        Some(d as usize)
    }
}

/// Translates the absolute coordinate `(x, y)` to a storage index of a grid
/// of `w` by `h` cells whose first cell lies at the origin.
///
/// An axis that wraps must have a positive extent.
pub fn absolute_to_relative(
    x: isize,
    y: isize,
    origin_x: isize,
    origin_y: isize,
    w: isize,
    h: isize,
    cycle_x: bool,
    cycle_y: bool,
) -> (r: Option<(usize, usize)>)
    requires
        cycle_x ==> w > 0,
        cycle_y ==> h > 0,
    ensures
        match r {
            Some((i, j)) => relative_index(
                x as int,
                y as int,
                origin_x as int,
                origin_y as int,
                w as int,
                h as int,
                cycle_x,
                cycle_y,
            ) == Some((i as int, j as int)),
            None => relative_index(
                x as int,
                y as int,
                origin_x as int,
                origin_y as int,
                w as int,
                h as int,
                cycle_x,
                cycle_y,
            ).is_none(),
        },
{
    match axis_to_relative(x, origin_x, w, cycle_x) {
        None => None,
        Some(i) => match axis_to_relative(y, origin_y, h, cycle_y) {
            None => None,
            Some(j) => Some((i, j)),
        },
    }
}

/// Translates a storage index to its canonical absolute coordinate.
///
/// The coordinate must not exceed the largest `isize`.
pub fn relative_to_absolute(x: usize, y: usize, origin_x: isize, origin_y: isize) -> (r: (
    isize,
    isize,
))
    requires
        x + origin_x <= isize::MAX,
        y + origin_y <= isize::MAX,
    ensures
        (r.0 as int, r.1 as int) == canonical(x as int, y as int, origin_x as int, origin_y as int),
{
    let ax: i128 = x as i128 + origin_x as i128;
    let ay: i128 = y as i128 + origin_y as i128;
    (ax as isize, ay as isize)
}

/// The index of a coordinate always lies inside the grid.
pub proof fn index_is_in_range(
    x: int,
    y: int,
    origin_x: int,
    origin_y: int,
    w: int,
    h: int,
    cycle_x: bool,
    cycle_y: bool,
)
    ensures
        relative_index(x, y, origin_x, origin_y, w, h, cycle_x, cycle_y) matches Some((i, j)) ==> 0
            <= i < w && 0 <= j < h,
{
}

/// Translating a valid index to its canonical coordinate and back gives the
/// index again, whether or not the axes wrap.
pub proof fn index_round_trip(
    i: int,
    j: int,
    origin_x: int,
    origin_y: int,
    w: int,
    h: int,
    cycle_x: bool,
    cycle_y: bool,
)
    requires
        0 <= i < w,
        0 <= j < h,
    ensures
        ({
            let (x, y) = canonical(i, j, origin_x, origin_y);
            relative_index(x, y, origin_x, origin_y, w, h, cycle_x, cycle_y) == Some((i, j))
        }),
{
    lemma_small_mod(i as nat, w as nat);
    lemma_small_mod(j as nat, h as nat);
}

/// Without wrap on either axis, translating a valid index to its canonical
/// coordinate and back gives the index again.
pub proof fn index_round_trip_without_wrap(
    i: int,
    j: int,
    origin_x: int,
    origin_y: int,
    w: int,
    h: int,
)
    requires
        0 <= i < w,
        0 <= j < h,
    ensures
        ({
            let (x, y) = canonical(i, j, origin_x, origin_y);
            relative_index(x, y, origin_x, origin_y, w, h, false, false) == Some((i, j))
        }),
{
}

/// On an axis that wraps, adding a multiple of the extent to a coordinate
/// does not change its index.
pub proof fn wrap_ignores_multiples_of_extent(c: int, k: int, origin: int, extent: int)
    requires
        extent > 0,
    ensures
        axis_index(c + k * extent, origin, extent, true) == axis_index(c, origin, extent, true),
{
    assert(c + k * extent - origin == extent * k + (c - origin)) by (nonlinear_arith);
    lemma_mod_multiples_vanish(k, c - origin, extent);
}

/// With wrap on the x axis, shifting `x` by a multiple of the width leaves
/// the index of `(x, y)` unchanged; likewise for `y` and the height.
pub proof fn index_ignores_multiples_of_extent(
    x: int,
    y: int,
    kx: int,
    ky: int,
    origin_x: int,
    origin_y: int,
    w: int,
    h: int,
    cycle_x: bool,
    cycle_y: bool,
)
    requires
        cycle_x ==> w > 0,
        cycle_y ==> h > 0,
    ensures
        cycle_x ==> relative_index(x + kx * w, y, origin_x, origin_y, w, h, cycle_x, cycle_y)
            == relative_index(x, y, origin_x, origin_y, w, h, cycle_x, cycle_y),
        cycle_y ==> relative_index(x, y + ky * h, origin_x, origin_y, w, h, cycle_x, cycle_y)
            == relative_index(x, y, origin_x, origin_y, w, h, cycle_x, cycle_y),
{
    if cycle_x {
        wrap_ignores_multiples_of_extent(x, kx, origin_x, w);
    }
    if cycle_y {
        wrap_ignores_multiples_of_extent(y, ky, origin_y, h);
    }
}

/// On an axis that does not wrap, exactly the coordinates from the origin up
/// to the origin plus the extent have an index; the index of such a
/// coordinate is its offset from the origin, and the canonical coordinate of
/// that index is the coordinate itself.
pub proof fn bounds_without_wrap(c: int, origin: int, extent: int)
    ensures
        !(origin <= c < origin + extent) ==> axis_index(c, origin, extent, false).is_none(),
        origin <= c < origin + extent ==> axis_index(c, origin, extent, false) == Some(c - origin),
        origin <= c < origin + extent ==> 0 <= c - origin < extent && (c - origin) + origin == c,
{
}

/// A coordinate that lies outside the extent of an axis without wrap has no
/// index, wherever it lies along the other axis; a coordinate that lies
/// inside the extent of both axes has the index that its offsets from the
/// origin give, and the canonical coordinate of that index is the coordinate
/// itself.
pub proof fn index_bounds_without_wrap(
    x: int,
    y: int,
    origin_x: int,
    origin_y: int,
    w: int,
    h: int,
    cycle_x: bool,
    cycle_y: bool,
)
    ensures
        !cycle_x && !(origin_x <= x < origin_x + w) ==> relative_index(
            x,
            y,
            origin_x,
            origin_y,
            w,
            h,
            cycle_x,
            cycle_y,
        ).is_none(),
        !cycle_y && !(origin_y <= y < origin_y + h) ==> relative_index(
            x,
            y,
            origin_x,
            origin_y,
            w,
            h,
            cycle_x,
            cycle_y,
        ).is_none(),
        origin_x <= x < origin_x + w && origin_y <= y < origin_y + h ==> ({
            let i = x - origin_x;
            let j = y - origin_y;
            &&& relative_index(x, y, origin_x, origin_y, w, h, cycle_x, cycle_y) == Some((i, j))
            &&& 0 <= i < w && 0 <= j < h
            &&& canonical(i, j, origin_x, origin_y) == (x, y)
        }),
{
    if origin_x <= x < origin_x + w && origin_y <= y < origin_y + h {
        lemma_small_mod((x - origin_x) as nat, w as nat);
        lemma_small_mod((y - origin_y) as nat, h as nat);
    }
}

} // verus!
