//! The four directions of travel on the grid.

use crate::point::Point;
use vstd::prelude::*;

mod display;

pub use self::display::lowercase_of;

verus! {

/// A direction of travel: along the x axis or along the y axis, towards
/// larger coordinates (`true`) or towards smaller ones (`false`).
#[derive(Copy, Clone, Debug, PartialEq, Eq, Structural, PartialOrd, Ord, Hash)]
pub enum Direction {
    X(bool),
    Y(bool),
}

impl Direction {
    /// The change of coordinates that one step makes.
    pub open spec fn offset(self) -> (int, int) {
        match self {
            Direction::X(true) => (1, 0),
            Direction::X(false) => (-1, 0),
            Direction::Y(true) => (0, 1),
            Direction::Y(false) => (0, -1),
        }
    }

    /// The position one step away from `p`.
    pub open spec fn moved(self, p: (int, int)) -> (int, int) {
        (p.0 + self.offset().0, p.1 + self.offset().1)
    }

    /// Whether the position one step away from `p` can be represented.
    pub open spec fn can_step(self, p: Point) -> bool {
        let q = self.moved(p.coords());
        isize::MIN <= q.0 <= isize::MAX && isize::MIN <= q.1 <= isize::MAX
    }

    /// All four directions: east, west, north, south.
    pub open spec fn all_spec() -> Seq<Direction> {
        seq![Direction::X(true), Direction::X(false), Direction::Y(true), Direction::Y(false)]
    }

    /// All four directions: east, west, north, south.
    pub fn all() -> (r: [Direction; 4])
        ensures
            r@ == Direction::all_spec(),
    {
        [Direction::X(true), Direction::X(false), Direction::Y(true), Direction::Y(false)]
    }

    /// The point one cell away from `point` in this direction.
    pub fn step(self, point: Point) -> (p: Point)
        requires
            self.can_step(point),
        ensures
            p.coords() == self.moved(point.coords()),
    {
        match self {
            Direction::X(true) => Point { x: point.x + 1, y: point.y },
            Direction::X(false) => Point { x: point.x - 1, y: point.y },
            Direction::Y(true) => Point { x: point.x, y: point.y + 1 },
            Direction::Y(false) => Point { x: point.x, y: point.y - 1 },
        }
    }

    /// The point one cell away from `point` in this direction, or `None`
    /// where that position lies beyond the range of the coordinates.
    pub fn checked_step(self, point: Point) -> (r: Option<Point>)
        ensures
            r.is_some() == self.can_step(point),
            r matches Some(p) ==> p.coords() == self.moved(point.coords()),
    {
        let fits: bool = match self {
            Direction::X(true) => point.x < isize::MAX,
            Direction::X(false) => point.x > isize::MIN,
            Direction::Y(true) => point.y < isize::MAX,
            Direction::Y(false) => point.y > isize::MIN,
        };
        if fits {
            Some(self.step(point))
        } else {
            None
        }
    }
}

/// A step changes the taxicab distance to the starting point from 0 to 1.
pub proof fn step_is_one_cell(d: Direction, p: (int, int))
    ensures
        crate::point::taxicab_distance(p, d.moved(p)) == 1,
{
}

} // verus!
