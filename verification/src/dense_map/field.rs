//! The action field as a mathematical object: the points that an actor can
//! reach from a starting point within a budget of action points, each with
//! the cost at which it is reached.
//!
//! The field grows from the start. The open points are those reached but
//! not yet expanded; the closed points are final. A step takes the first
//! open point in the order of points, offers each of its neighbours that
//! can be entered and is not closed the cost of the point plus the cost of
//! entering the neighbour, and closes the point. An offer that exceeds the
//! budget is dropped; any other replaces what the neighbour was offered
//! before, whether or not it is cheaper.

use crate::dense_map::cost_table::is_first;
use crate::direction::Direction;
use crate::point::Point;
use vstd::prelude::*;

verus! {

/// What decides how a field grows: which points can be entered, what it
/// costs to enter each, and the budget.
pub struct Rules {
    /// Whether a point can be entered: it has a cell and the cell is
    /// passable.
    pub gate: spec_fn(Point) -> bool,
    /// The cost of entering a point.
    pub toll: spec_fn(Point) -> u64,
    /// The largest cost at which a point counts as reached.
    pub budget: u64,
}

/// The open and the closed points of a field, each with its cost.
#[verifier::ext_equal]
pub struct FieldState {
    pub open: Map<Point, u64>,
    pub closed: Map<Point, u64>,
}

/// The first key of `m` in the order of points, where `m` has a key.
pub open spec fn first_key(m: Map<Point, u64>) -> Point {
    choose|p: Point| is_first(m, p)
}

/// The point one step from `p` in direction `d`.
pub open spec fn neighbour(p: Point, d: Direction) -> Point {
    let q = d.moved(p.coords());
    Point { x: q.0 as isize, y: q.1 as isize }
}

/// The neighbour of `p` in direction `d` with the cost of entering it, where
/// it can be represented, can be entered and is not closed; else nothing.
pub open spec fn toward(rules: Rules, closed: Map<Point, u64>, p: Point, d: Direction) -> Seq<
    (Point, u64),
> {
    let q = neighbour(p, d);
    if d.can_step(p) && (rules.gate)(q) && !closed.contains_key(q) {
        seq![(q, (rules.toll)(q))]
    } else {
        Seq::empty()
    }
}

/// The neighbours of `p` in the first `n` directions that can be entered and
/// are not closed, each with the cost of entering it.
pub open spec fn neighbours_upto(rules: Rules, closed: Map<Point, u64>, p: Point, n: nat) -> Seq<
    (Point, u64),
>
    decreases n,
{
    if n == 0 || n > 4 {
        Seq::empty()
    } else {
        neighbours_upto(rules, closed, p, (n - 1) as nat) + toward(
            rules,
            closed,
            p,
            Direction::all_spec()[n - 1],
        )
    }
}

/// The neighbours of `p` that can be entered and are not closed, each with
/// the cost of entering it, in the order of the directions.
pub open spec fn neighbours_of(rules: Rules, closed: Map<Point, u64>, p: Point) -> Seq<(Point, u64)> {
    neighbours_upto(rules, closed, p, 4)
}

/// The open points after a point of cost `cost` offered its neighbour
/// `entry.0` the cost of entering it, `entry.1`, on top of its own.
pub open spec fn offer(open: Map<Point, u64>, cost: u64, budget: u64, entry: (Point, u64)) -> Map<
    Point,
    u64,
> {
    if cost + entry.1 <= budget {
        open.insert(entry.0, (cost + entry.1) as u64)
    } else {
        open
    }
}

/// The open points after a point of cost `cost` made an offer to each of
/// `entries`, from the first to the last.
pub open spec fn relax(open: Map<Point, u64>, cost: u64, budget: u64, entries: Seq<(Point, u64)>) -> Map<
    Point,
    u64,
>
    decreases entries.len(),
{
    if entries.len() == 0 {
        open
    } else {
        offer(relax(open, cost, budget, entries.drop_last()), cost, budget, entries.last())
    }
}

/// The field after one step: the first open point made its offers and was
/// closed at its cost.
pub open spec fn expand(rules: Rules, s: FieldState) -> FieldState {
    let p = first_key(s.open);
    let cost = s.open[p];
    FieldState {
        open: relax(s.open.remove(p), cost, rules.budget, neighbours_of(rules, s.closed, p)),
        closed: s.closed.insert(p, cost),
    }
}

/// The field before the first step: the start is open at cost zero.
pub open spec fn start_state(start: Point) -> FieldState {
    FieldState { open: Map::<Point, u64>::empty().insert(start, 0), closed: Map::empty() }
}

/// Whether no point of the field is open.
pub open spec fn settled(s: FieldState) -> bool {
    s.open == Map::<Point, u64>::empty()
}

/// The field after `n` steps from the start; once no point is open, further
/// steps change nothing.
pub open spec fn run(rules: Rules, start: Point, n: nat) -> FieldState
    decreases n,
{
    if n == 0 {
        start_state(start)
    } else {
        let before = run(rules, start, (n - 1) as nat);
        if settled(before) {
            before
        } else {
            expand(rules, before)
        }
    }
}

/// Whether the field from `start` settles after some number of steps.
pub open spec fn settles(rules: Rules, start: Point) -> bool {
    exists|n: nat| settled(#[trigger] run(rules, start, n))
}

/// The closed points of the settled field from `start`, each with its cost.
pub open spec fn reach(rules: Rules, start: Point) -> Map<Point, u64> {
    let n = choose|n: nat| settled(#[trigger] run(rules, start, n));
    run(rules, start, n).closed
}

/// What holds of a field at every step: no point is both open and closed;
/// no cost exceeds the budget; every point but the start can be entered;
/// and the start is either the one open point, at cost zero, or closed at
/// cost zero.
pub open spec fn sound(rules: Rules, start: Point, s: FieldState) -> bool {
    &&& s.open.dom().finite()
    &&& s.closed.dom().finite()
    &&& forall|q: Point| !(s.open.contains_key(q) && s.closed.contains_key(q))
    &&& forall|q: Point| #[trigger]
        s.open.contains_key(q) ==> s.open[q] <= rules.budget && (q == start || (rules.gate)(q))
    &&& forall|q: Point| #[trigger]
        s.closed.contains_key(q) ==> s.closed[q] <= rules.budget && (q == start || (rules.gate)(q))
    &&& s == start_state(start) || (s.closed.contains_key(start) && s.closed[start] == 0)
}

/// A map has at most one first key.
pub proof fn first_key_is_unique(m: Map<Point, u64>, p: Point)
    requires
        is_first(m, p),
    ensures
        first_key(m) == p,
{
    let q = first_key(m);
    assert(p.not_after(q) && q.not_after(p));
}

/// Every neighbour that is listed can be entered, is not closed, differs
/// from the point itself and comes with the cost of entering it.
pub proof fn neighbours_are_open_to_entry(rules: Rules, closed: Map<Point, u64>, p: Point, n: nat)
    ensures
        forall|i: int|
            0 <= i < neighbours_upto(rules, closed, p, n).len() ==> {
                let e = #[trigger] neighbours_upto(rules, closed, p, n)[i];
                &&& (rules.gate)(e.0)
                &&& !closed.contains_key(e.0)
                &&& e.0 != p
                &&& e.1 == (rules.toll)(e.0)
                &&& exists|d: Direction| d.can_step(p) && e.0 == neighbour(p, d)
            },
    decreases n,
{
    if 0 < n <= 4 {
        neighbours_are_open_to_entry(rules, closed, p, (n - 1) as nat);
        let head = neighbours_upto(rules, closed, p, (n - 1) as nat);
        let all = neighbours_upto(rules, closed, p, n);
        assert(forall|i: int| 0 <= i < head.len() ==> all[i] == head[i]);
    }
}

/// After the offers, every open point either was open before, at the same
/// cost, or got an offer within the budget and has the cost of that offer.
pub proof fn relax_keeps_or_offers(
    open: Map<Point, u64>,
    cost: u64,
    budget: u64,
    entries: Seq<(Point, u64)>,
)
    requires
        open.dom().finite(),
    ensures
        relax(open, cost, budget, entries).dom().finite(),
        forall|q: Point| #[trigger]
            relax(open, cost, budget, entries).contains_key(q) ==> {
                ||| open.contains_key(q) && relax(open, cost, budget, entries)[q] == open[q]
                ||| exists|i: int|
                    0 <= i < entries.len() && (#[trigger] entries[i]).0 == q && cost + entries[i].1
                        <= budget && relax(open, cost, budget, entries)[q] == cost + entries[i].1
            },
        forall|q: Point|
            open.contains_key(q) ==> #[trigger] relax(open, cost, budget, entries).contains_key(q),
        forall|i: int|
            0 <= i < entries.len() && cost + (#[trigger] entries[i]).1 <= budget ==> relax(
                open,
                cost,
                budget,
                entries,
            ).contains_key(entries[i].0),
    decreases entries.len(),
{
    if entries.len() > 0 {
        let init = entries.drop_last();
        relax_keeps_or_offers(open, cost, budget, init);
        let end = relax(open, cost, budget, entries);
        assert forall|i: int|
            0 <= i < entries.len() && cost + (#[trigger] entries[i]).1 <= budget implies end.contains_key(
            entries[i].0,
        ) by {
            if i < init.len() {
                assert(entries[i] == init[i]);
            }
        }
    }
}

/// A step keeps a sound field sound, and closes a point that was not closed
/// before.
pub proof fn expand_keeps_sound(rules: Rules, start: Point, s: FieldState)
    requires
        sound(rules, start, s),
        !settled(s),
        exists|p: Point| is_first(s.open, p),
    ensures
        sound(rules, start, expand(rules, s)),
        !s.closed.contains_key(first_key(s.open)),
        s.open.contains_key(first_key(s.open)),
{
    let p = first_key(s.open);
    let cost = s.open[p];
    let entries = neighbours_of(rules, s.closed, p);
    let rest = s.open.remove(p);
    neighbours_are_open_to_entry(rules, s.closed, p, 4);
    relax_keeps_or_offers(rest, cost, rules.budget, entries);
}

/// Once no point is open, further steps change nothing.
pub proof fn settled_field_stays(rules: Rules, start: Point, n: nat, m: nat)
    requires
        settled(run(rules, start, n)),
        n <= m,
    ensures
        run(rules, start, m) == run(rules, start, n),
    decreases m,
{
    if m > n {
        settled_field_stays(rules, start, n, (m - 1) as nat);
    }
}

/// The closed points of a field that settled after `n` steps are the reach
/// of the start, however many steps were counted.
pub proof fn reach_is_closed_when_settled(rules: Rules, start: Point, n: nat)
    requires
        settled(run(rules, start, n)),
    ensures
        settles(rules, start),
        reach(rules, start) == run(rules, start, n).closed,
{
    let m = choose|m: nat| settled(#[trigger] run(rules, start, m));
    if m <= n {
        settled_field_stays(rules, start, m, n);
    } else {
        settled_field_stays(rules, start, n, m);
    }
}

/// The field is sound at every step.
pub proof fn run_is_sound(rules: Rules, start: Point, n: nat)
    ensures
        sound(rules, start, run(rules, start, n)),
    decreases n,
{
    if n > 0 {
        run_is_sound(rules, start, (n - 1) as nat);
        let before = run(rules, start, (n - 1) as nat);
        if !settled(before) {
            finite_map_has_first(before.open);
            expand_keeps_sound(rules, start, before);
        }
    }
}

/// A map with finitely many keys, and at least one, has a first key.
pub proof fn finite_map_has_first(m: Map<Point, u64>)
    requires
        m.dom().finite(),
        m != Map::<Point, u64>::empty(),
    ensures
        exists|p: Point| is_first(m, p),
    decreases m.dom().len(),
{
    assert(m.dom().len() != 0) by {
        if m.dom().len() == 0 {
            assert(m =~= Map::<Point, u64>::empty());
        }
    }
    let k = m.dom().choose();
    let rest = m.remove(k);
    if rest == Map::<Point, u64>::empty() {
        assert forall|q: Point| m.contains_key(q) implies k.not_after(q) by {
            if q != k {
                assert(rest.contains_key(q));
            }
        }
        assert(is_first(m, k));
    } else {
        finite_map_has_first(rest);
        let r = choose|p: Point| is_first(rest, p);
        let best = if k.before(r) { k } else { r };
        assert forall|q: Point| m.contains_key(q) implies best.not_after(q) by {
            if q != k {
                assert(r.not_after(q));
            }
        }
        assert(is_first(m, best));
    }
}

/// A point that is closed stays closed, at the same cost.
pub proof fn closed_points_stay(rules: Rules, start: Point, k: nat, n: nat, p: Point)
    requires
        k <= n,
        run(rules, start, k).closed.contains_key(p),
    ensures
        run(rules, start, n).closed.contains_key(p),
        run(rules, start, n).closed[p] == run(rules, start, k).closed[p],
    decreases n,
{
    if n > k {
        closed_points_stay(rules, start, k, (n - 1) as nat, p);
        let before = run(rules, start, (n - 1) as nat);
        if !settled(before) {
            run_is_sound(rules, start, (n - 1) as nat);
            finite_map_has_first(before.open);
        }
    }
}

/// Where the field settles, every point that is closed at some step belongs
/// to the reach of the start, at the cost at which it was closed.
pub proof fn closed_points_are_reached(rules: Rules, start: Point, k: nat, p: Point)
    requires
        settles(rules, start),
        run(rules, start, k).closed.contains_key(p),
    ensures
        reach(rules, start).contains_key(p),
        reach(rules, start)[p] == run(rules, start, k).closed[p],
{
    let n = choose|n: nat| settled(#[trigger] run(rules, start, n));
    if k <= n {
        closed_points_stay(rules, start, k, n, p);
    } else {
        settled_field_stays(rules, start, n, k);
    }
}

} // verus!
