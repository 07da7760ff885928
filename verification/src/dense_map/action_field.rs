//! The solver of the action field: it grows the field of a map from a
//! starting point by the answers of two functions, one that tells whether a
//! point is passable and one that gives the cost of entering it.

use crate::dense_map::cost_table::{listing_survives_reordering, lists, CostTable};
use crate::dense_map::field::{
    first_key_is_unique, neighbour, neighbours_are_open_to_entry, neighbours_of, neighbours_upto,
    reach, reach_is_closed_when_settled, relax, relax_keeps_or_offers, run, settled, settles,
    sound, start_state, FieldState, Rules,
};
use crate::dense_map::product::flat_index_is_in_range;
use crate::dense_map::sorting::sorted_by_cost;
use crate::dense_map::{GridView, TaxicabMap};
use crate::direction::Direction;
use crate::point::{taxicab_distance, Point};
use vstd::prelude::*;
use vstd::set_lib::{lemma_int_range, lemma_len_subset, lemma_set_subset_finite, set_int_range};

verus! {

/// Tells for every point whether it can be entered: the grid has a cell
/// there and `passable` accepts the point with the value of its cell.
pub open spec fn can_enter<T, P: Fn(&Point, &T) -> bool>(grid: GridView<T>, passable: P) -> spec_fn(
    Point,
) -> bool {
    |q: Point| grid.holds(q) && call_ensures(passable, (&q, &grid.value(q)), true)
}

/// Gives for every point the cost of entering it: what `cost` returns for
/// the point with the value of its cell.
pub open spec fn entry_cost<T, C: Fn(&Point, &T) -> u64>(grid: GridView<T>, cost: C) -> spec_fn(
    Point,
) -> u64 {
    |q: Point| choose|e: u64| call_ensures(cost, (&q, &grid.value(q)), e)
}

/// Whether `passable` and `cost` can be asked about every cell of the grid
/// and give one answer each.
pub open spec fn rules_apply<T, P: Fn(&Point, &T) -> bool, C: Fn(&Point, &T) -> u64>(
    grid: GridView<T>,
    passable: P,
    cost: C,
) -> bool {
    forall|q: Point| #[trigger]
        grid.holds(q) ==> {
            let v = grid.value(q);
            &&& call_requires(passable, (&q, &v))
            &&& call_requires(cost, (&q, &v))
            &&& !(call_ensures(passable, (&q, &v), true) && call_ensures(passable, (&q, &v), false))
            &&& forall|e1: u64, e2: u64|
                call_ensures(cost, (&q, &v), e1) && call_ensures(cost, (&q, &v), e2) ==> e1 == e2
        }
}

/// Whether `passable` was asked about the point `q` and gave the answer
/// that `can_enter` goes by; and, where `q` can be entered and is not the
/// start, `cost` was asked about it and gave the cost that `entry_cost`
/// goes by. The start is never entered, so its cost is never asked for.
pub open spec fn answered<T, P: Fn(&Point, &T) -> bool, C: Fn(&Point, &T) -> u64>(
    grid: GridView<T>,
    passable: P,
    cost: C,
    start: Point,
    q: Point,
) -> bool {
    &&& call_ensures(passable, (&q, &grid.value(q)), can_enter(grid, passable)(q))
    &&& can_enter(grid, passable)(q) && q != start ==> call_ensures(
        cost,
        (&q, &grid.value(q)),
        entry_cost(grid, cost)(q),
    )
}

/// The points at which the grid has a cell.
pub open spec fn grid_points<T>(grid: GridView<T>) -> Set<Point> {
    Set::new(|q: Point| grid.holds(q))
}

/// The points of the box that starts at `(x0, y0)` and spans `w` by `h`
/// points.
pub open spec fn box_points(x0: int, y0: int, w: int, h: int) -> Set<Point> {
    Set::new(|q: Point| x0 <= q.x < x0 + w && y0 <= q.y < y0 + h)
}

/// The points within taxicab distance `radius` of `centre`.
pub open spec fn ball_points(centre: Point, radius: int) -> Set<Point> {
    Set::new(|q: Point| taxicab_distance(centre.coords(), q.coords()) <= radius)
}

/// Whether `cost` answers zero for no cell of the grid.
pub open spec fn positive_costs<T, C: Fn(&Point, &T) -> u64>(grid: GridView<T>, cost: C) -> bool {
    forall|q: Point, e: u64|
        grid.holds(q) && #[trigger] call_ensures(cost, (&q, &grid.value(q)), e) ==> e >= 1
}

/// A set of points that holds every point a field can reach: on a grid that
/// wraps on neither axis, the points with a cell and the start; else the
/// points within a taxicab distance of the budget from the start.
pub open spec fn search_space<T>(grid: GridView<T>, start: Point, budget: u64) -> Set<Point> {
    if !grid.cycle_x && !grid.cycle_y {
        grid_points(grid).insert(start)
    } else {
        ball_points(start, budget as int)
    }
}

/// A box has finitely many points.
pub proof fn box_is_finite(x0: int, y0: int, w: int, h: int)
    ensures
        box_points(x0, y0, w, h).finite(),
{
    if w <= 0 || h <= 0 {
        assert(box_points(x0, y0, w, h) =~= Set::<Point>::empty());
    } else {
        let range = set_int_range(0, w * h);
        let f = |k: int| Point { x: (k / h + x0) as isize, y: (k % h + y0) as isize };
        lemma_int_range(0, w * h);
        range.lemma_map_finite(f);
        assert forall|q: Point| box_points(x0, y0, w, h).contains(q) implies range.map(f).contains(
            q,
        ) by {
            let i = q.x - x0;
            let j = q.y - y0;
            flat_index_is_in_range(i, j, w, h);
            let k = i * h + j;
            assert(range.contains(k));
        }
        lemma_set_subset_finite(range.map(f), box_points(x0, y0, w, h));
    }
}

/// The search space of a field is finite.
pub proof fn search_space_is_finite<T>(grid: GridView<T>, start: Point, budget: u64)
    ensures
        search_space(grid, start, budget).finite(),
{
    if !grid.cycle_x && !grid.cycle_y {
        let cells = box_points(grid.origin_x, grid.origin_y, grid.width() as int, grid.height as int);
        box_is_finite(grid.origin_x, grid.origin_y, grid.width() as int, grid.height as int);
        lemma_set_subset_finite(cells, grid_points(grid));
    } else {
        let side = 2 * budget + 1;
        let around = box_points(start.x - budget, start.y - budget, side, side);
        box_is_finite(start.x - budget, start.y - budget, side, side);
        lemma_set_subset_finite(around, ball_points(start, budget as int));
    }
}

/// A point that is always passable.
pub fn always_passable<T>(point: &Point, value: &T) -> (r: bool)
    ensures
        r,
{
    true
}

/// Entering a point costs nothing.
pub fn no_cost<T>(point: &Point, value: &T) -> (r: u64)
    ensures
        r == 0,
{
    0
}

/// Records in `open` the offers that a point of cost `cost` makes to the
/// neighbours in `found`, each given with the cost of entering it: an offer
/// is the sum of the two costs; one that exceeds `budget` is dropped, any
/// other sets the cost of the neighbour, whatever it was before.
pub fn record_offers(open: &mut CostTable, cost: u64, budget: u64, found: &Vec<(Point, u64)>)
    requires
        old(open).wf(),
    ensures
        final(open).wf(),
        final(open)@ == relax(old(open)@, cost, budget, found@),
{
    let mut k: usize = 0;
    while k < found.len()
        invariant
            k <= found@.len(),
            open.wf(),
            open@ == relax(old(open)@, cost, budget, found@.take(k as int)),
        decreases found@.len() - k,
    {
        let (neighbor, neighbor_cost) = found[k];
        proof {
            let upto = found@.take(k + 1);
            assert(upto.drop_last() =~= found@.take(k as int));
        }
        match cost.checked_add(neighbor_cost) {
            Some(new_cost) => {
                if new_cost <= budget {
                    open.insert(neighbor, new_cost);
                }
            },
            None => {},
        }
        k += 1;
    }
    proof {
        assert(found@.take(found@.len() as int) =~= found@);
    }
}

/// Computes the action field of a map from a starting point.
///
/// `passable` decides from a point and the value of its cell whether the
/// point can be entered; `action_cost` gives the cost of entering it. Both
/// are asked about the neighbour that is entered.
pub struct ActionFieldSolver<'a, T, P, C> {
    map: &'a TaxicabMap<T>,
    open: CostTable,
    close: CostTable,
    passable: P,
    action_cost: C,
    action_points: u64,
    start: Point,
}

impl<'a, T, P: Fn(&Point, &T) -> bool, C: Fn(&Point, &T) -> u64> ActionFieldSolver<'a, T, P, C> {
    /// The grid that the field is computed on.
    pub closed spec fn grid(&self) -> GridView<T> {
        self.map@
    }

    /// The open points with their costs.
    pub closed spec fn frontier(&self) -> Map<Point, u64> {
        self.open@
    }

    /// The closed points with their costs.
    pub closed spec fn closed(&self) -> Map<Point, u64> {
        self.close@
    }

    /// The point from which the field grows.
    pub closed spec fn start(&self) -> Point {
        self.start
    }

    /// The largest cost at which a point counts as reached.
    pub closed spec fn budget(&self) -> u64 {
        self.action_points
    }

    /// The function that decides whether a point can be entered.
    pub closed spec fn passable_fn(&self) -> P {
        self.passable
    }

    /// The function that gives the cost of entering a point.
    pub closed spec fn cost_fn(&self) -> C {
        self.action_cost
    }

    /// The rules by which the field grows.
    pub open spec fn rules(&self) -> Rules {
        Rules {
            gate: can_enter(self.grid(), self.passable_fn()),
            toll: entry_cost(self.grid(), self.cost_fn()),
            budget: self.budget(),
        }
    }

    /// The tables of the solver are in order and the map can be looked up
    /// at every coordinate.
    pub closed spec fn tables_wf(&self) -> bool {
        &&& self.map.wf()
        &&& self.map@.addressable()
        &&& self.open.wf()
        &&& self.close.wf()
    }

    /// The solver can work: its tables are in order, and the two functions
    /// can be asked about every cell and give one answer each.
    pub open spec fn ready(&self) -> bool {
        &&& self.tables_wf()
        &&& rules_apply(self.grid(), self.passable_fn(), self.cost_fn())
    }

    /// The solver is ready and has not started: the start is the one open
    /// point, at cost zero, and no point is closed.
    pub open spec fn wf(&self) -> bool {
        &&& self.ready()
        &&& self.frontier() == start_state(self.start()).open
        &&& self.closed() == start_state(self.start()).closed
    }

    /// Replaces the function that decides whether a point can be entered.
    pub fn with_passable<F>(self, passable: F) -> (solver: ActionFieldSolver<'a, T, F, C>) where
        F: Fn(&Point, &T) -> bool,

        requires
            self.tables_wf(),
        ensures
            solver.tables_wf(),
            solver.passable_fn() == passable,
            solver.cost_fn() == self.cost_fn(),
            solver.grid() == self.grid(),
            solver.frontier() == self.frontier(),
            solver.closed() == self.closed(),
            solver.start() == self.start(),
            solver.budget() == self.budget(),
    {
        ActionFieldSolver {
            map: self.map,
            open: self.open,
            close: self.close,
            passable,
            action_cost: self.action_cost,
            action_points: self.action_points,
            start: self.start,
        }
    }

    /// Replaces the function that gives the cost of entering a point.
    pub fn with_cost<F>(self, cost: F) -> (solver: ActionFieldSolver<'a, T, P, F>) where
        F: Fn(&Point, &T) -> u64,

        requires
            self.tables_wf(),
        ensures
            solver.tables_wf(),
            solver.passable_fn() == self.passable_fn(),
            solver.cost_fn() == cost,
            solver.grid() == self.grid(),
            solver.frontier() == self.frontier(),
            solver.closed() == self.closed(),
            solver.start() == self.start(),
            solver.budget() == self.budget(),
    {
        ActionFieldSolver {
            map: self.map,
            open: self.open,
            close: self.close,
            passable: self.passable,
            action_cost: cost,
            action_points: self.action_points,
            start: self.start,
        }
    }

    /// The neighbours of `point` that can be entered and are not closed,
    /// each with the cost of entering it, in the order of the directions.
    ///
    /// `passable` is asked about every neighbour that has a cell, and `cost`
    /// about every one that is listed.
    pub fn neighbors(&self, point: &Point) -> (r: Vec<(Point, u64)>)
        requires
            self.ready(),
        ensures
            r@ == neighbours_of(self.rules(), self.closed(), *point),
            forall|d: Direction|
                d.can_step(*point) && self.grid().holds(#[trigger] neighbour(*point, d)) ==> {
                    let q = neighbour(*point, d);
                    &&& call_ensures(self.passable_fn(), (&q, &self.grid().value(q)), (self.rules().gate)(q))
                    &&& (self.rules().gate)(q) && !self.closed().contains_key(q) ==> call_ensures(
                        self.cost_fn(),
                        (&q, &self.grid().value(q)),
                        (self.rules().toll)(q),
                    )
                },
    {
        let mut neighbors: Vec<(Point, u64)> = Vec::with_capacity(4);
        let directions = Direction::all();
        let ghost rules = self.rules();
        let mut i: usize = 0;
        while i < 4
            invariant
                i <= 4,
                directions@ == Direction::all_spec(),
                self.ready(),
                rules == self.rules(),
                neighbors@ == neighbours_upto(rules, self.closed(), *point, i as nat),
                forall|k: int|
                    0 <= k < i && Direction::all_spec()[k].can_step(*point) && self.grid().holds(
                        #[trigger] neighbour(*point, Direction::all_spec()[k]),
                    ) ==> {
                        let q = neighbour(*point, Direction::all_spec()[k]);
                        &&& call_ensures(self.passable_fn(), (&q, &self.grid().value(q)), (rules.gate)(q))
                        &&& (rules.gate)(q) && !self.closed().contains_key(q) ==> call_ensures(
                            self.cost_fn(),
                            (&q, &self.grid().value(q)),
                            (rules.toll)(q),
                        )
                    },
            decreases 4 - i,
        {
            let direction = directions[i];
            if let Some(key) = direction.checked_step(*point) {
                if let Some(value) = self.map.get_point(key.x, key.y) {
                    assert(self.grid().holds(key));
                    if (self.passable)(&key, value) {
                        if !self.close.contains_key(&key) {
                            let cost = (self.action_cost)(&key, value);
                            neighbors.push((key, cost));
                        }
                    }
                }
            }
            i += 1;
        }
        neighbors
    }

    /// Whether the field is sure to settle: the grid wraps on neither axis,
    /// or entering a point always costs something. Either way only finitely
    /// many points can be reached within the budget.
    pub open spec fn bounded(&self) -> bool {
        (!self.grid().cycle_x && !self.grid().cycle_y) || positive_costs(
            self.grid(),
            self.cost_fn(),
        )
    }

    /// Grows the field until no point is open, and returns the closed points
    /// with their costs in ascending order of cost. Points of equal cost
    /// come in no particular order.
    ///
    /// The result lists the reach of the start under the rules of the
    /// solver. The rules go by what the two functions answer, and the last
    /// clause says where they were asked: about every neighbour of a point
    /// of the result.
    pub fn solve(self) -> (out: Vec<(u64, Point)>)
        requires
            self.wf(),
            self.bounded(),
        ensures
            settles(self.rules(), self.start()),
            lists(out@, reach(self.rules(), self.start())),
            forall|i: int, j: int| 0 <= i < j < out@.len() ==> out@[i].0 <= out@[j].0,
            forall|i: int| 0 <= i < out@.len() ==> (#[trigger] out@[i]).0 <= self.budget(),
            exists|i: int| 0 <= i < out@.len() && out@[i] == (0u64, self.start()),
            forall|i: int|
                0 <= i < out@.len() && (#[trigger] out@[i]).1 != self.start() ==> self.grid().holds(
                    out@[i].1,
                ) && call_ensures(
                    self.passable_fn(),
                    (&out@[i].1, &self.grid().value(out@[i].1)),
                    true,
                ),
            forall|p: Point, d: Direction|
                reach(self.rules(), self.start()).contains_key(p) && d.can_step(p)
                    && self.grid().holds(#[trigger] neighbour(p, d)) ==> answered(
                    self.grid(),
                    self.passable_fn(),
                    self.cost_fn(),
                    self.start(),
                    neighbour(p, d),
                ),
    {
        let mut solver = self;
        let ghost rules = solver.rules();
        let ghost start = solver.start;
        let ghost grid = solver.grid();
        let ghost universe = search_space(grid, start, rules.budget);
        let ghost flat = !grid.cycle_x && !grid.cycle_y;
        let ghost n: nat = 0;
        proof {
            search_space_is_finite(grid, start, rules.budget);
        }
        loop
            invariant
                solver.ready(),
                solver.rules() == rules,
                solver.start == start,
                solver.grid() == grid,
                solver.passable_fn() == self.passable_fn(),
                solver.cost_fn() == self.cost_fn(),
                grid == self.grid(),
                rules == self.rules(),
                start == self.start(),
                universe == search_space(grid, start, rules.budget),
                universe.finite(),
                flat == (!grid.cycle_x && !grid.cycle_y),
                !flat ==> positive_costs(grid, solver.cost_fn()),
                !flat ==> forall|q: Point| #[trigger]
                    solver.frontier().contains_key(q) ==> taxicab_distance(
                        start.coords(),
                        q.coords(),
                    ) <= solver.frontier()[q],
                !flat ==> forall|q: Point| #[trigger]
                    solver.closed().contains_key(q) ==> taxicab_distance(start.coords(), q.coords())
                        <= solver.closed()[q],
                (FieldState { open: solver.frontier(), closed: solver.closed() }) == run(
                    rules,
                    start,
                    n,
                ),
                sound(rules, start, run(rules, start, n)),
                solver.closed().dom().subset_of(universe),
                forall|q: Point|
                    (#[trigger] solver.frontier().contains_key(q)
                        || #[trigger] solver.closed().contains_key(q)) && q != start ==> call_ensures(
                        solver.cost_fn(),
                        (&q, &grid.value(q)),
                        (rules.toll)(q),
                    ),
                forall|p: Point, d: Direction|
                    solver.closed().contains_key(p) && d.can_step(p) && grid.holds(
                        #[trigger] neighbour(p, d),
                    ) ==> answered(grid, solver.passable_fn(), solver.cost_fn(), start, neighbour(p, d)),
            ensures
                solver.ready(),
                settled(run(rules, start, n)),
                solver.closed() == run(rules, start, n).closed,
                sound(rules, start, run(rules, start, n)),
                forall|p: Point, d: Direction|
                    solver.closed().contains_key(p) && d.can_step(p) && grid.holds(
                        #[trigger] neighbour(p, d),
                    ) ==> answered(grid, self.passable_fn(), self.cost_fn(), start, neighbour(p, d)),
            decreases universe.len() - solver.closed().dom().len(),
        {
            let ghost before = run(rules, start, n);
            match solver.open.pop_first() {
                None => {
                    break ;
                },
                Some((point, cost)) => {
                    proof {
                        first_key_is_unique(before.open, point);
                    }
                    let found = solver.neighbors(&point);
                    let ghost rest = before.open.remove(point);
                    record_offers(&mut solver.open, cost, solver.action_points, &found);
                    solver.close.insert(point, cost);
                    proof {
                        neighbours_are_open_to_entry(rules, before.closed, point, 4);
                        relax_keeps_or_offers(rest, cost, rules.budget, found@);
                        lemma_len_subset(solver.closed().dom(), universe);
                        n = n + 1;
                    }
                },
            }
        }
        let items = solver.close.listing();
        let out = sorted_by_cost(items);
        proof {
            let last = run(rules, start, n);
            reach_is_closed_when_settled(rules, start, n);
            listing_survives_reordering(items@, out@, last.closed);
            assert(last != start_state(start)) by {
                assert(start_state(start).open.contains_key(start));
            }
        }
        out
    }
}

impl<T> TaxicabMap<T> {
    /// Prepares the action field from `start` with a budget of `action`
    /// points. Until they are replaced, every point is passable and
    /// entering a point costs nothing.
    pub fn action_field(&self, start: Point, action: u64) -> (solver: ActionFieldSolver<
        '_,
        T,
        impl Fn(&Point, &T) -> bool,
        impl Fn(&Point, &T) -> u64,
    >)
        requires
            self.wf(),
            self@.addressable(),
        ensures
            solver.wf(),
            solver.grid() == self@,
            solver.start() == start,
            solver.budget() == action,
            forall|q: Point, v: T, r: bool|
                call_ensures(solver.passable_fn(), (&q, &v), r) ==> r,
            forall|q: Point, v: T, e: u64|
                call_ensures(solver.cost_fn(), (&q, &v), e) ==> e == 0,
    {
        let mut open = CostTable::new();
        open.insert(start, 0);
        ActionFieldSolver {
            map: self,
            open,
            close: CostTable::new(),
            passable: always_passable::<T>,
            action_cost: no_cost::<T>,
            action_points: action,
            start,
        }
    }
}

} // verus!
