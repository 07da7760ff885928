//! The dense map: a grid of cells, an origin and the wrap of each axis.

use crate::dense_map::indexes::{
    absolute_to_relative, index_ignores_multiples_of_extent, relative_index,
};
use crate::dense_map::product::{
    flat_index, flat_index_is_in_range, index_pairs, next_pair, pairs_left, row_major,
    row_major_at,
};
use crate::direction::Direction;
use crate::point::Point;
use vstd::pervasive::cloned;
use vstd::prelude::*;

pub mod action_field;
pub mod cost_table;
pub mod field;
pub mod indexes;
pub mod iters;
pub mod product;
pub mod sorting;

verus! {

/// Whether a grid of `w` by `h` cells can be stored: the product of the
/// extents, each zero extent counted as one, must not exceed the largest
/// `isize`.
pub open spec fn dims_fit(w: int, h: int) -> bool {
    &&& 0 <= w
    &&& 0 <= h
    &&& (if w == 0 { 1 } else { w }) * (if h == 0 { 1 } else { h }) <= isize::MAX
}

/// Tells for every absolute coordinate whether a grid of `w` by `h` cells
/// with the given origin and wrap has a cell there.
pub open spec fn cell_exists(
    origin_x: int,
    origin_y: int,
    w: int,
    h: int,
    cycle_x: bool,
    cycle_y: bool,
) -> spec_fn((int, int)) -> bool {
    |p: (int, int)| relative_index(p.0, p.1, origin_x, origin_y, w, h, cycle_x, cycle_y).is_some()
}

/// What a map holds: the cells by storage index, the extent of the second
/// axis, the origin and the wrap of each axis.
#[verifier::ext_equal]
pub struct GridView<T> {
    /// The cells: `cells[i][j]` is the one at storage index `(i, j)`.
    pub cells: Seq<Seq<T>>,
    pub height: nat,
    pub origin_x: int,
    pub origin_y: int,
    pub cycle_x: bool,
    pub cycle_y: bool,
}

impl<T> GridView<T> {
    /// The extent of the first axis.
    pub open spec fn width(self) -> nat {
        self.cells.len()
    }

    /// Every row has the same extent, and the grid can be stored.
    pub open spec fn wf(self) -> bool {
        &&& forall|i: int| 0 <= i < self.cells.len() ==> (#[trigger] self.cells[i]).len() == self.height
        &&& dims_fit(self.width() as int, self.height as int)
    }

    /// Every axis that wraps has at least one cell, so that every coordinate
    /// can be looked up.
    pub open spec fn addressable(self) -> bool {
        &&& self.cycle_x ==> self.width() > 0
        &&& self.cycle_y ==> self.height > 0
    }

    /// The storage index of the absolute coordinate `(x, y)`, if a cell
    /// exists there.
    pub open spec fn index_of(self, x: int, y: int) -> Option<(int, int)> {
        relative_index(
            x,
            y,
            self.origin_x,
            self.origin_y,
            self.width() as int,
            self.height as int,
            self.cycle_x,
            self.cycle_y,
        )
    }

    /// Whether a cell exists at the absolute coordinate `(x, y)`.
    pub open spec fn has(self, x: int, y: int) -> bool {
        self.index_of(x, y).is_some()
    }

    /// Tells for every absolute coordinate whether a cell exists there.
    pub open spec fn shows(self) -> spec_fn((int, int)) -> bool {
        cell_exists(
            self.origin_x,
            self.origin_y,
            self.width() as int,
            self.height as int,
            self.cycle_x,
            self.cycle_y,
        )
    }

    /// Whether the canonical coordinate of every cell can be represented.
    pub open spec fn spans_fit(self) -> bool {
        self.width() > 0 && self.height > 0 ==> self.origin_x + self.width() - 1 <= isize::MAX
            && self.origin_y + self.height - 1 <= isize::MAX
    }

    /// All cells with their canonical coordinates, in row-major order of
    /// the storage indices: the first index changes slowest.
    pub open spec fn all_points(self) -> Seq<(int, int, T)> {
        Seq::new(
            self.width() * self.height,
            |k: int|
                {
                    let i = k / (self.height as int);
                    let j = k % (self.height as int);
                    (i + self.origin_x, j + self.origin_y, self.cells[i][j])
                },
        )
    }

    /// Whether a cell exists at the point `q`.
    pub open spec fn holds(self, q: Point) -> bool {
        self.has(q.x as int, q.y as int)
    }

    /// The value of the cell at the point `q`, where one exists.
    pub open spec fn value(self, q: Point) -> T
        recommends
            self.holds(q),
    {
        self.at(q.x as int, q.y as int)
    }

    /// The value of the cell at the absolute coordinate `(x, y)`, where one
    /// exists.
    pub open spec fn at(self, x: int, y: int) -> T
        recommends
            self.has(x, y),
    {
        let (i, j) = self.index_of(x, y).unwrap();
        self.cells[i][j]
    }

    /// The grid with `value` in the cell at storage index `(i, j)` and every
    /// other cell as it is.
    pub open spec fn with_cell(self, i: int, j: int, value: T) -> GridView<T> {
        GridView { cells: self.cells.update(i, self.cells[i].update(j, value)), ..self }
    }

    /// The grid with `value` in the cell at the absolute coordinate
    /// `(x, y)` and every other cell as it is.
    pub open spec fn with_value(self, x: int, y: int, value: T) -> GridView<T>
        recommends
            self.has(x, y),
    {
        let (i, j) = self.index_of(x, y).unwrap();
        self.with_cell(i, j, value)
    }
}

/// A dense taxicab map: every cell of a grid of fixed extents holds a value.
///
/// Absolute coordinates are translated to storage indices by subtracting the
/// origin; on an axis that wraps they are then taken modulo the extent.
#[derive(Clone, Debug, PartialEq, Eq, Hash)]
pub struct TaxicabMap<T> {
    dense: Vec<Vec<T>>,
    height: usize,
    cycle_x: bool,
    cycle_y: bool,
    origin_x: isize,
    origin_y: isize,
}

impl<T> View for TaxicabMap<T> {
    type V = GridView<T>;

    closed spec fn view(&self) -> GridView<T> {
        GridView {
            cells: Seq::new(self.dense@.len(), |i: int| self.dense@[i]@),
            height: self.height as nat,
            origin_x: self.origin_x as int,
            origin_y: self.origin_y as int,
            cycle_x: self.cycle_x,
            cycle_y: self.cycle_y,
        }
    }
}

/// A grid that wraps on both axes has a cell at every coordinate.
pub proof fn wrapping_grid_has_every_point<T>(grid: GridView<T>, x: int, y: int)
    requires
        grid.cycle_x,
        grid.cycle_y,
        grid.addressable(),
    ensures
        grid.has(x, y),
{
}

/// On an axis that wraps, coordinates that differ by a multiple of the
/// extent name the same cell.
pub proof fn wrapped_coordinates_share_a_cell<T>(grid: GridView<T>, x: int, y: int, kx: int, ky: int)
    requires
        grid.addressable(),
    ensures
        grid.cycle_x ==> grid.index_of(x + kx * grid.width(), y) == grid.index_of(x, y),
        grid.cycle_y ==> grid.index_of(x, y + ky * grid.height) == grid.index_of(x, y),
{
    index_ignores_multiples_of_extent(
        x,
        y,
        kx,
        ky,
        grid.origin_x,
        grid.origin_y,
        grid.width() as int,
        grid.height as int,
        grid.cycle_x,
        grid.cycle_y,
    );
}

/// The extents fit in `isize` where the grid can be stored.
pub proof fn dims_fit_bounds(w: int, h: int)
    requires
        dims_fit(w, h),
    ensures
        0 <= w <= isize::MAX,
        0 <= h <= isize::MAX,
        0 <= w * h <= isize::MAX,
{
    let a = if w == 0 { 1 } else { w };
    let b = if h == 0 { 1 } else { h };
    assert(a <= a * b && b <= a * b && 0 <= w * h <= a * b) by (nonlinear_arith)
        requires
            a >= 1,
            b >= 1,
            0 <= w <= a,
            0 <= h <= b,
    ;
}

/// The storage index that the cell at index `(i, j)` had before the grid
/// grew by `size` cells in `direction`. The new cells lie at the edge that
/// the direction points to: growing towards larger coordinates appends them
/// behind the old cells, which keep their indices; growing towards smaller
/// coordinates puts them in front of the old cells, which move up by `size`.
pub open spec fn index_before_extend(direction: Direction, size: int, i: int, j: int) -> (int, int) {
    match direction {
        Direction::X(false) => (i - size, j),
        Direction::Y(false) => (i, j - size),
        _ => (i, j),
    }
}

/// The extents of a grid of `w` by `h` cells after it grew by `size` cells
/// in `direction`.
pub open spec fn dims_after_extend(direction: Direction, size: int, w: int, h: int) -> (int, int) {
    match direction {
        Direction::X(_) => (w + size, h),
        Direction::Y(_) => (w, h + size),
    }
}

/// The cell at storage index `(i, j)` of a grid in storage.
pub open spec fn grid_cell<T>(g: Seq<Vec<T>>, i: int, j: int) -> T {
    g[i]@[j]
}

/// A grid of `width` by `height` cells, each a clone of `fill`.
fn filled<T: Clone>(width: usize, height: usize, fill: &T) -> (dense: Vec<Vec<T>>)
    ensures
        dense@.len() == width,
        forall|i: int| 0 <= i < width ==> (#[trigger] dense@[i]).len() == height,
        forall|i: int, j: int|
            0 <= i < width && 0 <= j < height ==> cloned(*fill, #[trigger] dense@[i]@[j]),
{
    let mut dense: Vec<Vec<T>> = Vec::new();
    let mut i: usize = 0;
    while i < width
        invariant
            i <= width,
            dense@.len() == i,
            forall|r: int| 0 <= r < i ==> (#[trigger] dense@[r]).len() == height,
            forall|r: int, c: int|
                0 <= r < i && 0 <= c < height ==> cloned(*fill, #[trigger] dense@[r]@[c]),
        decreases width - i,
    {
        let mut row: Vec<T> = Vec::new();
        let mut j: usize = 0;
        while j < height
            invariant
                j <= height,
                row@.len() == j,
                forall|c: int| 0 <= c < j ==> cloned(*fill, #[trigger] row@[c]),
            decreases height - j,
        {
            row.push(fill.clone());
            j += 1;
        }
        dense.push(row);
        i += 1;
    }
    dense
}

impl<T> TaxicabMap<T> {
    /// The invariant of the map: see [`GridView::wf`].
    pub open spec fn wf(&self) -> bool {
        self@.wf()
    }

    /// The wrap of the x axis and of the y axis.
    pub fn get_cycle(&self) -> (r: (bool, bool))
        ensures
            r == (self@.cycle_x, self@.cycle_y),
    {
        (self.cycle_x, self.cycle_y)
    }

    /// Sets the wrap of each axis. Every later lookup goes by the new wrap;
    /// the cells stay as they are.
    pub fn set_cycle(&mut self, cycle_x: bool, cycle_y: bool)
        ensures
            final(self)@ == (GridView { cycle_x, cycle_y, ..old(self)@ }),
    {
        self.cycle_x = cycle_x;
        self.cycle_y = cycle_y;
    }

    /// The map with the wrap of each axis set.
    pub fn with_cycle(self, cycle_x: bool, cycle_y: bool) -> (map: Self)
        ensures
            map@ == (GridView { cycle_x, cycle_y, ..self@ }),
    {
        let mut map = self;
        map.cycle_x = cycle_x;
        map.cycle_y = cycle_y;
        map
    }

    /// The absolute coordinate of the cell at storage index `(0, 0)`.
    pub fn get_origin(&self) -> (r: (isize, isize))
        ensures
            r.0 == self@.origin_x,
            r.1 == self@.origin_y,
    {
        (self.origin_x, self.origin_y)
    }

    /// Sets the origin. Every later lookup goes by the new origin; the cells
    /// stay as they are.
    pub fn set_origin(&mut self, x: isize, y: isize)
        ensures
            final(self)@ == (GridView { origin_x: x as int, origin_y: y as int, ..old(self)@ }),
    {
        self.origin_x = x;
        self.origin_y = y;
    }

    /// The map with the origin set.
    pub fn with_origin(self, x: isize, y: isize) -> (map: Self)
        ensures
            map@ == (GridView { origin_x: x as int, origin_y: y as int, ..self@ }),
    {
        let mut map = self;
        map.set_origin(x, y);
        map
    }

    /// Moves the origin by `(x, y)`. The new origin must be representable.
    pub fn shift_origin(&mut self, x: isize, y: isize)
        requires
            isize::MIN <= old(self)@.origin_x + x <= isize::MAX,
            isize::MIN <= old(self)@.origin_y + y <= isize::MAX,
        ensures
            final(self)@ == (GridView {
                origin_x: old(self)@.origin_x + x,
                origin_y: old(self)@.origin_y + y,
                ..old(self)@
            }),
    {
        self.origin_x = self.origin_x + x;
        self.origin_y = self.origin_y + y;
    }

    /// The extents of the map along the x axis and along the y axis.
    pub fn get_size(&self) -> (r: (usize, usize))
        ensures
            r.0 == self@.width(),
            r.1 == self@.height,
    {
        (self.dense.len(), self.height)
    }

    /// The extents of the map as signed integers.
    pub(crate) fn get_isize(&self) -> (r: (isize, isize))
        requires
            self.wf(),
        ensures
            r.0 == self@.width(),
            r.1 == self@.height,
    {
        proof {
            dims_fit_bounds(self@.width() as int, self@.height as int);
        }
        (self.dense.len() as isize, self.height as isize)
    }

    /// The cell at storage index `(i, j)` for writing.
    pub(crate) fn cell_mut(&mut self, i: usize, j: usize) -> (v: &mut T)
        requires
            old(self).wf(),
            i < old(self)@.width(),
            j < old(self)@.height,
        ensures
            *v == old(self)@.cells[i as int][j as int],
            final(self)@ == old(self)@.with_cell(i as int, j as int, *final(v)),
            final(self).wf(),
    {
        assert(self@.cells[i as int].len() == self@.height);
        &mut self.dense[i][j]
    }

    /// The value of the cell at storage index `(i, j)`.
    pub(crate) fn cell(&self, i: usize, j: usize) -> (v: &T)
        requires
            self.wf(),
            i < self@.width(),
            j < self@.height,
        ensures
            *v == self@.cells[i as int][j as int],
    {
        assert(self@.cells[i as int].len() == self@.height);
        &self.dense[i][j]
    }

    /// The storage index of the absolute coordinate `(x, y)`, if a cell
    /// exists there.
    fn locate(&self, x: isize, y: isize) -> (r: Option<(usize, usize)>)
        requires
            self.wf(),
            self@.addressable(),
        ensures
            match r {
                Some((i, j)) => self@.index_of(x as int, y as int) == Some((i as int, j as int))
                    && i < self@.width() && j < self@.height,
                None => !self@.has(x as int, y as int),
            },
    {
        let (w, h) = self.get_isize();
        absolute_to_relative(x, y, self.origin_x, self.origin_y, w, h, self.cycle_x, self.cycle_y)
    }

    /// Whether a cell exists at the absolute coordinate `(x, y)`.
    pub fn has_point(&self, x: isize, y: isize) -> (r: bool)
        requires
            self.wf(),
            self@.addressable(),
        ensures
            r == self@.has(x as int, y as int),
    {
        self.locate(x, y).is_some()
    }

    /// The value of the cell at the absolute coordinate `(x, y)`, or `None`
    /// where no cell exists there.
    pub fn get_point(&self, x: isize, y: isize) -> (r: Option<&T>)
        requires
            self.wf(),
            self@.addressable(),
        ensures
            match r {
                Some(v) => self@.has(x as int, y as int) && *v == self@.at(x as int, y as int),
                None => !self@.has(x as int, y as int),
            },
    {
        match self.locate(x, y) {
            Some((i, j)) => {
                assert(self@.cells[i as int].len() == self@.height);
                Some(&self.dense[i][j])
            },
            None => None,
        }
    }

    /// The cell at the absolute coordinate `(x, y)` for writing, or `None`
    /// where no cell exists there. What is written through the reference
    /// becomes the value of that cell; nothing else changes.
    pub fn mut_point(&mut self, x: isize, y: isize) -> (r: Option<&mut T>)
        requires
            old(self).wf(),
            old(self)@.addressable(),
        ensures
            match r {
                Some(v) => old(self)@.has(x as int, y as int) && *v == old(self)@.at(
                    x as int,
                    y as int,
                ) && final(self)@ == old(self)@.with_value(x as int, y as int, *final(v)),
                None => !old(self)@.has(x as int, y as int) && *final(self) == *old(self),
            },
            final(self).wf(),
    {
        match self.locate(x, y) {
            Some((i, j)) => Some(self.cell_mut(i, j)),
            None => None,
        }
    }

    /// Writes `value` to the cell at the absolute coordinate `(x, y)` and
    /// returns `true`; where no cell exists there, changes nothing and
    /// returns `false`.
    pub fn set_point(&mut self, x: isize, y: isize, value: T) -> (r: bool)
        requires
            old(self).wf(),
            old(self)@.addressable(),
        ensures
            final(self).wf(),
            r == old(self)@.has(x as int, y as int),
            r ==> final(self)@ == old(self)@.with_value(x as int, y as int, value),
            !r ==> *final(self) == *old(self),
    {
        match self.mut_point(x, y) {
            Some(v) => {
                *v = value;
                true
            },
            None => false,
        }
    }

    /// The number of cells of the map: every cell of the grid counts.
    pub fn count_points(&self) -> (r: usize)
        requires
            self.wf(),
        ensures
            r == self@.width() * self@.height,
    {
        proof {
            dims_fit_bounds(self@.width() as int, self@.height as int);
        }
        self.dense.len() * self.height
    }
}

impl<T: Clone> TaxicabMap<T> {
    /// Creates a square map of `width` by `width` cells, each a clone of
    /// `fill`, with the origin at `(0, 0)` and no wrap.
    pub fn square(width: usize, fill: &T) -> (map: Self)
        requires
            dims_fit(width as int, width as int),
        ensures
            map.wf(),
            map@.width() == width,
            map@.height == width,
            map@.origin_x == 0 && map@.origin_y == 0,
            !map@.cycle_x && !map@.cycle_y,
            forall|i: int, j: int|
                0 <= i < width && 0 <= j < width ==> cloned(*fill, #[trigger] map@.cells[i][j]),
    {
        Self::rectangle(width, width, fill)
    }

    /// Creates a map of `width` by `height` cells, each a clone of `fill`,
    /// with the origin at `(0, 0)` and no wrap.
    pub fn rectangle(width: usize, height: usize, fill: &T) -> (map: Self)
        requires
            dims_fit(width as int, height as int),
        ensures
            map.wf(),
            map@.width() == width,
            map@.height == height,
            map@.origin_x == 0 && map@.origin_y == 0,
            !map@.cycle_x && !map@.cycle_y,
            forall|i: int, j: int|
                0 <= i < width && 0 <= j < height ==> cloned(*fill, #[trigger] map@.cells[i][j]),
    {
        let dense = filled(width, height, fill);
        TaxicabMap { dense, height, cycle_x: false, cycle_y: false, origin_x: 0, origin_y: 0 }
    }

    /// Grows the map by `size` cells along the axis of `direction`.
    ///
    /// Every cell keeps its value, which is moved and not cloned; every new
    /// cell holds a clone of `fill`. The new cells lie at the edge that the
    /// direction points to. Towards larger coordinates the old cells keep
    /// their storage indices and the new cells follow them. Towards smaller
    /// coordinates the new cells take the lowest indices and the old cells
    /// move up by `size`. The origin stays as it is: after growing towards
    /// smaller coordinates, a caller who wants the old cells to keep their
    /// absolute coordinates shifts the origin down by `size`.
    pub fn extend(&mut self, direction: Direction, size: usize, fill: &T)
        requires
            old(self).wf(),
            ({
                let (w, h) = dims_after_extend(
                    direction,
                    size as int,
                    old(self)@.width() as int,
                    old(self)@.height as int,
                );
                dims_fit(w, h)
            }),
        ensures
            final(self).wf(),
            (final(self)@.width() as int, final(self)@.height as int) == dims_after_extend(
                direction,
                size as int,
                old(self)@.width() as int,
                old(self)@.height as int,
            ),
            final(self)@.origin_x == old(self)@.origin_x,
            final(self)@.origin_y == old(self)@.origin_y,
            final(self)@.cycle_x == old(self)@.cycle_x,
            final(self)@.cycle_y == old(self)@.cycle_y,
            forall|i: int, j: int|
                0 <= i < final(self)@.width() && 0 <= j < final(self)@.height ==> ({
                    let (oi, oj) = index_before_extend(direction, size as int, i, j);
                    if 0 <= oi < old(self)@.width() && 0 <= oj < old(self)@.height {
                        #[trigger] final(self)@.cells[i][j] == old(self)@.cells[oi][oj]
                    } else {
                        cloned(*fill, final(self)@.cells[i][j])
                    }
                }),
    {
        let w: usize = self.dense.len();
        let h: usize = self.height;
        proof {
            let (nw, nh) = dims_after_extend(direction, size as int, w as int, h as int);
            dims_fit_bounds(nw, nh);
        }
        let (nw, nh): (usize, usize) = match direction {
            Direction::X(_) => (w + size, h),
            Direction::Y(_) => (w, h + size),
        };
        let (dx, dy): (usize, usize) = match direction {
            Direction::X(false) => (size, 0),
            Direction::Y(false) => (0, size),
            _ => (0, 0),
        };
        let mut grown = filled(nw, nh, fill);
        let mut pairs = index_pairs(w, h);
        let ghost before = self.dense@;
        let ghost done: int = 0;
        proof {
            assert forall|i: int| 0 <= i < w implies (#[trigger] self.dense@[i]).len() == h by {
                assert(self@.cells[i].len() == h);
            }
        }
        loop
            invariant
                0 <= done <= w * h,
                pairs_left(pairs) == row_major(w as nat, h as nat).skip(done),
                dx + w <= nw,
                dy + h <= nh,
                self.dense@.len() == w,
                forall|i: int| 0 <= i < w ==> (#[trigger] self.dense@[i]).len() == h,
                before.len() == w,
                grown@.len() == nw,
                forall|i: int| 0 <= i < nw ==> (#[trigger] grown@[i]).len() == nh,
                forall|i: int, j: int|
                    0 <= i < w && 0 <= j < h && flat_index(i, j, h as int) >= done
                        ==> #[trigger] grid_cell(self.dense@, i, j) == grid_cell(before, i, j),
                forall|i: int, j: int|
                    0 <= i < nw && 0 <= j < nh ==> ({
                        let (oi, oj) = (i - dx, j - dy);
                        if 0 <= oi < w && 0 <= oj < h && flat_index(oi, oj, h as int) < done {
                            #[trigger] grid_cell(grown@, i, j) == grid_cell(before, oi, oj)
                        } else {
                            cloned(*fill, grid_cell(grown@, i, j))
                        }
                    }),
                self.height == old(self).height,
                self.origin_x == old(self).origin_x,
                self.origin_y == old(self).origin_y,
                self.cycle_x == old(self).cycle_x,
                self.cycle_y == old(self).cycle_y,
            ensures
                done == w * h,
            decreases w * h - done,
        {
            match next_pair(&mut pairs) {
                Some((x, y)) => {
                    proof {
                        row_major_at(done, w as nat, h as nat);
                        assert(grid_cell(self.dense@, x as int, y as int) == grid_cell(
                            before,
                            x as int,
                            y as int,
                        ));
                    }
                    let ghost grown_before = grown@;
                    let ghost dense_before = self.dense@;
                    core::mem::swap(&mut grown[x + dx][y + dy], &mut self.dense[x][y]);
                    proof {
                        assert forall|i: int, j: int| 0 <= i < nw && 0 <= j < nh implies ({
                            let (oi, oj) = (i - dx, j - dy);
                            if 0 <= oi < w && 0 <= oj < h && flat_index(oi, oj, h as int) < done + 1 {
                                #[trigger] grid_cell(grown@, i, j) == grid_cell(before, oi, oj)
                            } else {
                                cloned(*fill, grid_cell(grown@, i, j))
                            }
                        }) by {
                            let (oi, oj) = (i - dx, j - dy);
                            if 0 <= oi < w && 0 <= oj < h {
                                flat_index_is_in_range(oi, oj, w as int, h as int);
                            }
                            if i != x + dx || j != y + dy {
                                assert(grid_cell(grown@, i, j) == grid_cell(grown_before, i, j));
                            }
                        }
                        assert forall|i: int, j: int|
                            0 <= i < w && 0 <= j < h && flat_index(i, j, h as int) >= done + 1
                            implies #[trigger] grid_cell(self.dense@, i, j) == grid_cell(
                            before,
                            i,
                            j,
                        ) by {
                            assert(grid_cell(self.dense@, i, j) == grid_cell(dense_before, i, j));
                        }
                        done = done + 1;
                    }
                },
                None => {
                    break ;
                },
            }
        }
        self.dense = grown;
        self.height = nh;
        proof {
            assert forall|i: int, j: int|
                0 <= i < self@.width() && 0 <= j < self@.height implies ({
                let (oi, oj) = index_before_extend(direction, size as int, i, j);
                if 0 <= oi < old(self)@.width() && 0 <= oj < old(self)@.height {
                    #[trigger] self@.cells[i][j] == old(self)@.cells[oi][oj]
                } else {
                    cloned(*fill, self@.cells[i][j])
                }
            }) by {
                let (oi, oj) = index_before_extend(direction, size as int, i, j);
                if 0 <= oi < w && 0 <= oj < h {
                    flat_index_is_in_range(oi, oj, w as int, h as int);
                }
                assert(self@.cells[i][j] == grid_cell(grown@, i, j));
            }
        }
    }
}

} // verus!
