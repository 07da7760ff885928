//! Directed edges between neighbouring cells.

use crate::direction::Direction;
use crate::point::Point;
use vstd::prelude::*;

verus! {

/// A directed edge of the grid: the point it leaves and the direction it
/// takes from there.
#[derive(Copy, Clone, Debug, PartialEq, Eq, Structural, PartialOrd, Ord, Hash)]
pub struct Joint {
    pub point: Point,
    pub direction: Direction,
}

impl Joint {
    pub fn new(point: &Point, direction: Direction) -> (j: Joint)
        ensures
            j.point == *point,
            j.direction == direction,
    {
        Joint { point: *point, direction }
    }

    /// The point that the edge leaves.
    pub fn source(&self) -> (p: Point)
        ensures
            p == self.point,
    {
        self.point
    }

    /// The point that the edge reaches: one step from the source in the
    /// edge's direction.
    pub fn target(&self) -> (p: Point)
        requires
            self.direction.can_step(self.point),
        ensures
            p.coords() == self.direction.moved(self.point.coords()),
    {
        self.point.go(self.direction)
    }
}

} // verus!
