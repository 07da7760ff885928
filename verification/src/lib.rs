//! A dense two-dimensional tile map addressed by taxicab coordinates.
//!
//! The map translates unbounded absolute coordinates to storage indices,
//! optionally wrapping around on either axis, lists the ring of cells at a
//! given taxicab distance from a centre, and computes which cells an actor
//! can reach within a budget of action points.
//!
//! Every function states what it returns or changes over a mathematical
//! view of the data: a map is seen as a [`GridView`], a table of costs as a
//! `Map` from points to costs, a walk as the sequence of what is yet to
//! come. The modules are public so that the specification functions and the
//! lemmas that the contracts speak of can be named.

pub mod dense_map;
pub mod direction;
pub mod joint;
pub mod point;

pub use crate::dense_map::action_field::{record_offers, ActionFieldSolver};
pub use crate::dense_map::cost_table::CostTable;
pub use crate::dense_map::indexes::{absolute_to_relative, relative_to_absolute};
pub use crate::dense_map::iters::{
    DiamondPoints, GetTaxicabPoints, GetTaxicabPointsAround, MutGetTaxicabPoints,
};
pub use crate::dense_map::sorting::by_cost;
pub use crate::dense_map::{GridView, TaxicabMap};
pub use crate::direction::Direction;
pub use crate::joint::Joint;
pub use crate::point::Point;
