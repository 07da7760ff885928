//! Walks over the cells of a map and over the ring of points around a
//! centre.

use crate::dense_map::indexes::{absolute_to_relative, relative_to_absolute};
use crate::dense_map::product::{
    index_pairs, next_pair, pairs_left, pairs_size_hint, row_major, row_major_at,
};
use crate::dense_map::{cell_exists, dims_fit_bounds, TaxicabMap};
use crate::point::taxicab_distance;
use core::ops::Range;
use itertools::Product;
use vstd::prelude::*;

verus! {

/// The number of points of the taxicab ring of radius `n`: one for radius
/// zero, four for each unit of a positive radius, none for a negative one.
pub open spec fn ring_len(n: int) -> nat {
    if n == 0 {
        1
    } else if n > 0 {
        (4 * n) as nat
    } else {
        0
    }
}

/// The point at place `k` of the taxicab ring of radius `n` around `(x, y)`.
///
/// The ring starts at `(x + n, y)` and runs along four edges of `n` points
/// each: to `(x, y + n)`, on to `(x - n, y)`, on to `(x, y - n)`, and back
/// towards the start, which it does not repeat.
pub open spec fn ring_point(x: int, y: int, n: int, k: int) -> (int, int) {
    if n == 0 {
        (x, y)
    } else if k < n {
        (x + n - k, y + k)
    } else if k < 2 * n {
        (x - (k - n), y + n - (k - n))
    } else if k < 3 * n {
        (x - n + (k - 2 * n), y - (k - 2 * n))
    } else {
        (x + (k - 3 * n), y - n + (k - 3 * n))
    }
}

/// The taxicab ring of radius `n` around `(x, y)`, in order.
pub open spec fn ring(x: int, y: int, n: int) -> Seq<(int, int)> {
    Seq::new(ring_len(n), |k: int| ring_point(x, y, n, k))
}

/// Whether every point of the ring of radius `n` around `(x, y)` can be
/// represented.
pub open spec fn ring_fits(x: int, y: int, n: int) -> bool {
    n > 0 ==> isize::MIN <= x - n && x + n <= isize::MAX && isize::MIN <= y - n && y + n
        <= isize::MAX
}

/// The points of a taxicab ring, one after the other.
pub struct DiamondPoints {
    x: isize,
    y: isize,
    n: isize,
    index: i128,
}

impl DiamondPoints {
    /// The invariant of the walk: it has not run past the end of its ring,
    /// and every point of the ring can be represented.
    pub closed spec fn wf(&self) -> bool {
        &&& 0 <= self.index <= ring_len(self.n as int)
        &&& ring_fits(self.x as int, self.y as int, self.n as int)
    }

    /// The ring that is walked.
    pub closed spec fn whole(&self) -> Seq<(int, int)> {
        ring(self.x as int, self.y as int, self.n as int)
    }

    /// The number of points that were yielded so far.
    pub closed spec fn position(&self) -> int {
        self.index as int
    }

    /// The points that are yet to come, in order.
    pub open spec fn remaining(&self) -> Seq<(int, int)> {
        self.whole().skip(self.position())
    }

    /// A walk over the ring of radius `n` around `(x, y)`, from its start.
    pub fn new(x: isize, y: isize, n: isize) -> (points: Self)
        requires
            ring_fits(x as int, y as int, n as int),
        ensures
            points.wf(),
            points.whole() == ring(x as int, y as int, n as int),
            points.position() == 0,
    {
        Self { x, y, n, index: 0 }
    }

    /// Yields the next point of the ring, or `None` after the last one.
    pub fn next(&mut self) -> (r: Option<(isize, isize)>)
        requires
            old(self).wf(),
        ensures
            final(self).wf(),
            final(self).whole() == old(self).whole(),
            0 <= old(self).position() <= old(self).whole().len(),
            match r {
                Some(p) => old(self).position() < old(self).whole().len() && (p.0 as int, p.1 as int)
                    == old(self).whole()[old(self).position()] && final(self).position() == old(
                    self,
                ).position() + 1,
                None => old(self).position() == old(self).whole().len() && final(self).position()
                    == old(self).position(),
            },
    {
        let n: i128 = self.n as i128;
        let x: i128 = self.x as i128;
        let y: i128 = self.y as i128;
        let k: i128 = self.index;
        let out: Option<(isize, isize)> = if n == 0 && k == 0 {
            Some((self.x, self.y))
        } else if n <= 0 {
            None
        } else if k < n {
            Some(((x + n - k) as isize, (y + k) as isize))
        } else if k < 2 * n {
            Some(((x - (k - n)) as isize, (y + n - (k - n)) as isize))
        } else if k < 3 * n {
            Some(((x - n + (k - 2 * n)) as isize, (y - (k - 2 * n)) as isize))
        } else if k < 4 * n {
            Some(((x + (k - 3 * n)) as isize, (y - n + (k - 3 * n)) as isize))
        } else {
            None
        };
        if out.is_some() {
            self.index = k + 1;
        }
        out
    }
}

/// The points of a taxicab ring at which a map has a cell, one after the
/// other, in the order of the ring.
pub struct GetTaxicabPointsAround {
    points: DiamondPoints,
    origin_x: isize,
    origin_y: isize,
    w: usize,
    h: usize,
    cycle_x: bool,
    cycle_y: bool,
}

impl GetTaxicabPointsAround {
    /// The invariant of the walk: the ring is walked in order, and the grid
    /// that it is held against can be looked up at every coordinate.
    pub closed spec fn wf(&self) -> bool {
        &&& self.points.wf()
        &&& self.w <= isize::MAX
        &&& self.h <= isize::MAX
        &&& self.cycle_x ==> self.w > 0
        &&& self.cycle_y ==> self.h > 0
    }

    /// The points of the ring that are yet to be looked at, in order.
    pub closed spec fn candidates(&self) -> Seq<(int, int)> {
        self.points.remaining()
    }

    /// Tells for every coordinate whether the map has a cell there.
    pub closed spec fn visible(&self) -> spec_fn((int, int)) -> bool {
        cell_exists(
            self.origin_x as int,
            self.origin_y as int,
            self.w as int,
            self.h as int,
            self.cycle_x,
            self.cycle_y,
        )
    }

    /// The points that are yet to come: the candidates at which the map has
    /// a cell, in the order of the ring.
    pub open spec fn remaining(&self) -> Seq<(int, int)> {
        self.candidates().filter(self.visible())
    }

    /// Yields the next point of the ring at which the map has a cell, or
    /// `None` when no such point is left.
    pub fn next(&mut self) -> (r: Option<(isize, isize)>)
        requires
            old(self).wf(),
        ensures
            final(self).wf(),
            final(self).visible() == old(self).visible(),
            match r {
                Some(p) => old(self).remaining().len() > 0 && (p.0 as int, p.1 as int) == old(
                    self,
                ).remaining()[0] && final(self).remaining() == old(self).remaining().skip(1),
                None => old(self).remaining().len() == 0 && final(self).remaining().len() == 0,
            },
    {
        loop
            invariant
                self.wf(),
                self.visible() == old(self).visible(),
                self.remaining() == old(self).remaining(),
            decreases self.points.whole().len() - self.points.position(),
        {
            let ghost before = self.points.remaining();
            match self.points.next() {
                None => {
                    return None;
                },
                Some((x, y)) => {
                    proof {
                        let rest = self.points.remaining();
                        assert(before =~= seq![before[0]] + rest);
                        rest.lemma_filter_prepend(before[0], self.visible());
                    }
                    let found = absolute_to_relative(
                        x,
                        y,
                        self.origin_x,
                        self.origin_y,
                        self.w as isize,
                        self.h as isize,
                        self.cycle_x,
                        self.cycle_y,
                    );
                    if found.is_some() {
                        return Some((x, y));
                    }
                },
            }
        }
    }
}

/// The cells of a map with their canonical coordinates, one after the other
/// in row-major order of the storage indices.
pub struct GetTaxicabPoints<'i, T> {
    map: &'i TaxicabMap<T>,
    cartesian: Product<Range<usize>, Range<usize>>,
}

impl<'i, T> GetTaxicabPoints<'i, T> {
    /// The invariant of the walk: the indices that are left are the tail of
    /// the row-major order, and every canonical coordinate can be
    /// represented.
    pub closed spec fn wf(&self) -> bool {
        &&& self.map.wf()
        &&& self.map@.spans_fit()
        &&& pairs_left(self.cartesian).len() <= self.map@.width() * self.map@.height
        &&& pairs_left(self.cartesian) == row_major(self.map@.width(), self.map@.height).skip(
            self.position(),
        )
    }

    /// All cells of the map with their canonical coordinates, in order.
    pub closed spec fn whole(&self) -> Seq<(int, int, T)> {
        self.map@.all_points()
    }

    /// The number of cells that were yielded so far.
    pub closed spec fn position(&self) -> int {
        self.map@.width() * self.map@.height - pairs_left(self.cartesian).len()
    }

    /// The cells that are yet to come, in order.
    pub open spec fn remaining(&self) -> Seq<(int, int, T)> {
        self.whole().skip(self.position())
    }

    /// Yields the next cell: its canonical coordinates and its value; `None`
    /// after the last one.
    pub fn next(&mut self) -> (r: Option<(isize, isize, &'i T)>)
        requires
            old(self).wf(),
        ensures
            final(self).wf(),
            final(self).whole() == old(self).whole(),
            0 <= old(self).position() <= old(self).whole().len(),
            match r {
                Some((x, y, v)) => old(self).position() < old(self).whole().len() && (
                    x as int,
                    y as int,
                    *v,
                ) == old(self).whole()[old(self).position()] && final(self).position() == old(
                    self,
                ).position() + 1,
                None => old(self).position() == old(self).whole().len() && final(self).position()
                    == old(self).position(),
            },
    {
        let ghost k = self.position();
        let ghost w = self.map@.width();
        let ghost h = self.map@.height;
        match next_pair(&mut self.cartesian) {
            None => {
                proof {
                    assert(pairs_left(self.cartesian) =~= row_major(w, h).skip(k));
                }
                None
            },
            Some((i, j)) => {
                proof {
                    row_major_at(k, w, h);
                    assert(row_major(w, h).skip(k).skip(1) =~= row_major(w, h).skip(k + 1));
                }
                let (ox, oy) = self.map.get_origin();
                let (x, y) = relative_to_absolute(i, j, ox, oy);
                let v = self.map.cell(i, j);
                Some((x, y, v))
            },
        }
    }

    /// The number of cells that are yet to come, as a lower bound and as an
    /// upper bound: the walk knows it exactly.
    pub fn size_hint(&self) -> (r: (usize, Option<usize>))
        requires
            self.wf(),
        ensures
            r.0 == self.remaining().len(),
            r.1 == Some(r.0),
    {
        proof {
            dims_fit_bounds(self.map@.width() as int, self.map@.height as int);
        }
        pairs_size_hint(&self.cartesian)
    }
}

/// The cells of a map with their canonical coordinates, one after the other
/// in row-major order of the storage indices, each open for writing.
///
/// The fields are public so that contracts can speak of the map behind the
/// walk, as it is while the walk goes on and as it is left in the end.
pub struct MutGetTaxicabPoints<'i, T> {
    /// The map that is walked.
    pub map: &'i mut TaxicabMap<T>,
    /// The storage indices that are yet to come.
    pub cartesian: Product<Range<usize>, Range<usize>>,
}

impl<'i, T> MutGetTaxicabPoints<'i, T> {
    /// The invariant of the walk: the indices that are left are the tail of
    /// the row-major order, and every canonical coordinate can be
    /// represented.
    pub closed spec fn wf(&self) -> bool {
        &&& self.map.wf()
        &&& self.map@.spans_fit()
        &&& pairs_left(self.cartesian).len() <= self.map@.width() * self.map@.height
        &&& pairs_left(self.cartesian) == row_major(self.map@.width(), self.map@.height).skip(
            self.position(),
        )
    }

    /// The number of cells that were yielded so far.
    pub closed spec fn position(&self) -> int {
        self.map@.width() * self.map@.height - pairs_left(self.cartesian).len()
    }

    /// The number of cells that are yet to come.
    pub open spec fn count_left(&self) -> nat {
        pairs_left(self.cartesian).len()
    }

    /// Yields the next cell: its canonical coordinates and its value, which
    /// can be written through the reference; `None` after the last cell.
    /// The reference must be given up before the next cell is asked for, so
    /// no two references to one cell are ever held.
    pub fn next(&mut self) -> (r: Option<(isize, isize, &mut T)>)
        requires
            old(self).wf(),
        ensures
            0 <= old(self).position() <= old(self).map@.all_points().len(),
            match r {
                Some((x, y, v)) => {
                    let k = old(self).position();
                    let h = old(self).map@.height as int;
                    &&& k < old(self).map@.all_points().len()
                    &&& (x as int, y as int, *v) == old(self).map@.all_points()[k]
                    &&& final(self).position() == k + 1
                    &&& final(self).count_left() == old(self).count_left() - 1
                    &&& final(self).map@ == old(self).map@.with_cell(k / h, k % h, *final(v))
                    &&& *final(final(self).map) == *final(old(self).map)
                },
                None => {
                    &&& old(self).position() == old(self).map@.all_points().len()
                    &&& final(self).position() == old(self).position()
                    &&& final(self).count_left() == 0
                    &&& final(self).map@ == old(self).map@
                    &&& *final(final(self).map) == *final(old(self).map)
                },
            },
            final(self).wf(),
    {
        let ghost k = self.position();
        let ghost w = self.map@.width();
        let ghost h = self.map@.height;
        match next_pair(&mut self.cartesian) {
            None => {
                proof {
                    assert(pairs_left(self.cartesian) =~= row_major(w, h).skip(k));
                }
                None
            },
            Some((i, j)) => {
                proof {
                    row_major_at(k, w, h);
                    assert(row_major(w, h).skip(k).skip(1) =~= row_major(w, h).skip(k + 1));
                }
                let (ox, oy) = self.map.get_origin();
                let (x, y) = relative_to_absolute(i, j, ox, oy);
                let v = self.map.cell_mut(i, j);
                Some((x, y, v))
            },
        }
    }

    /// The number of cells that are yet to come, as a lower bound and as an
    /// upper bound: the walk knows it exactly.
    pub fn size_hint(&self) -> (r: (usize, Option<usize>))
        requires
            self.wf(),
        ensures
            r.0 == self.count_left(),
            r.1 == Some(r.0),
    {
        proof {
            dims_fit_bounds(self.map@.width() as int, self.map@.height as int);
        }
        pairs_size_hint(&self.cartesian)
    }
}

/// The ring of radius zero is the centre alone.
pub proof fn ring_of_radius_zero(x: int, y: int)
    ensures
        ring(x, y, 0) == seq![(x, y)],
{
}

/// The ring of a radius `n` of at least one has exactly `4 * n` points, all
/// at taxicab distance `n` from the centre and no two of them equal. Its four
/// edges start at `(x + n, y)`, `(x, y + n)`, `(x - n, y)` and `(x, y - n)`,
/// in this order, and along each edge both coordinates change by one from
/// point to point.
pub proof fn ring_is_a_diamond(x: int, y: int, n: int)
    requires
        n >= 1,
    ensures
        ring(x, y, n).len() == 4 * n,
        forall|k: int| 0 <= k < 4 * n ==> taxicab_distance((x, y), #[trigger] ring(x, y, n)[k]) == n,
        forall|k1: int, k2: int|
            0 <= k1 < k2 < 4 * n ==> #[trigger] ring(x, y, n)[k1] != #[trigger] ring(x, y, n)[k2],
        forall|k: int| 0 <= k < n ==> #[trigger] ring(x, y, n)[k] == (x + n - k, y + k),
        forall|k: int| 0 <= k < n ==> #[trigger] ring(x, y, n)[n + k] == (x - k, y + n - k),
        forall|k: int| 0 <= k < n ==> #[trigger] ring(x, y, n)[2 * n + k] == (x - n + k, y - k),
        forall|k: int| 0 <= k < n ==> #[trigger] ring(x, y, n)[3 * n + k] == (x + k, y - n + k),
{
}

impl<T> TaxicabMap<T> {
    /// Walks over all cells of the map with their canonical coordinates, in
    /// row-major order of the storage indices. Every call starts a new walk.
    pub fn points_all(&self) -> (points: GetTaxicabPoints<'_, T>)
        requires
            self.wf(),
            self@.spans_fit(),
        ensures
            points.wf(),
            points.whole() == self@.all_points(),
            points.position() == 0,
    {
        let (w, h) = self.get_size();
        let cartesian = index_pairs(w, h);
        proof {
            assert(pairs_left(cartesian) =~= row_major(w as nat, h as nat).skip(0));
        }
        GetTaxicabPoints { map: self, cartesian }
    }

    /// Walks over all cells of the map as `points_all` does, with every
    /// cell open for writing. What is written becomes the map's content.
    pub fn points_mut(&mut self) -> (points: MutGetTaxicabPoints<'_, T>)
        requires
            old(self).wf(),
            old(self)@.spans_fit(),
        ensures
            points.wf(),
            points.map@ == old(self)@,
            points.position() == 0,
            points.count_left() == old(self)@.all_points().len(),
            *final(self) == *final(points.map),
    {
        let (w, h) = self.get_size();
        let cartesian = index_pairs(w, h);
        proof {
            assert(pairs_left(cartesian) =~= row_major(w as nat, h as nat).skip(0));
        }
        MutGetTaxicabPoints { map: self, cartesian }
    }

    /// Walks over the direct neighbours of `(x, y)` at which the map has a
    /// cell: at most four.
    pub fn points_nearby(&self, x: isize, y: isize) -> (points: GetTaxicabPointsAround)
        requires
            self.wf(),
            self@.addressable(),
            ring_fits(x as int, y as int, 1),
        ensures
            points.wf(),
            points.candidates() == ring(x as int, y as int, 1),
            points.visible() == self@.shows(),
    {
        self.points_around(x, y, 1)
    }

    /// Walks over the points at taxicab distance `steps` from `(x, y)` at
    /// which the map has a cell, in the order of the ring.
    pub fn points_around(&self, x: isize, y: isize, steps: usize) -> (points:
        GetTaxicabPointsAround)
        requires
            self.wf(),
            self@.addressable(),
            steps <= isize::MAX,
            ring_fits(x as int, y as int, steps as int),
        ensures
            points.wf(),
            points.candidates() == ring(x as int, y as int, steps as int),
            points.visible() == self@.shows(),
    {
        let (w, h) = self.get_size();
        let (origin_x, origin_y) = self.get_origin();
        let (cycle_x, cycle_y) = self.get_cycle();
        proof {
            dims_fit_bounds(w as int, h as int);
        }
        GetTaxicabPointsAround {
            points: DiamondPoints::new(x, y, steps as isize),
            origin_x,
            origin_y,
            w,
            h,
            cycle_x,
            cycle_y,
        }
    }
}

} // verus!
