//! Points of the absolute coordinate space.

use crate::direction::Direction;
use vstd::prelude::*;

verus! {

/// A cell position in absolute coordinates.
///
/// Points are ordered by `x` first and by `y` second; the order serves as a
/// key for sorting and says nothing about distance.
#[derive(Copy, Clone, Debug, PartialEq, Eq, Structural, PartialOrd, Ord, Hash)]
pub struct Point {
    pub x: isize,
    pub y: isize,
}

/// The taxicab distance between two positions: the number of single steps
/// along the axes that lead from one to the other.
pub open spec fn taxicab_distance(a: (int, int), b: (int, int)) -> int {
    (if a.0 >= b.0 { a.0 - b.0 } else { b.0 - a.0 })
        + (if a.1 >= b.1 { a.1 - b.1 } else { b.1 - a.1 })
}

impl Point {
    /// The point as a pair of mathematical integers.
    pub open spec fn coords(self) -> (int, int) {
        (self.x as int, self.y as int)
    }

    /// Whether `self` comes strictly before `other`: smaller `x`, or equal
    /// `x` and smaller `y`.
    pub open spec fn before(self, other: Point) -> bool {
        self.x < other.x || (self.x == other.x && self.y < other.y)
    }

    /// Whether `self` comes before `other` or equals it.
    pub open spec fn not_after(self, other: Point) -> bool {
        self.before(other) || self == other
    }

    pub fn new(x: isize, y: isize) -> (p: Point)
        ensures
            p.x == x,
            p.y == y,
    {
        Point { x, y }
    }

    /// Decides `self.before(*other)`.
    pub fn precedes(&self, other: &Point) -> (r: bool)
        ensures
            r == self.before(*other),
    {
        self.x < other.x || (self.x == other.x && self.y < other.y)
    }

    /// The neighbouring point one cell away in `direction`.
    pub fn go(self, direction: Direction) -> (p: Point)
        requires
            direction.can_step(self),
        ensures
            p.coords() == direction.moved(self.coords()),
    {
        direction.step(self)
    }
}

/// The order of points is a strict total order.
pub proof fn point_order_is_total(a: Point, b: Point, c: Point)
    ensures
        !a.before(a),
        a.before(b) && b.before(c) ==> a.before(c),
        a.before(b) || b.before(a) || a == b,
        !(a.before(b) && b.before(a)),
{
}

} // verus!
