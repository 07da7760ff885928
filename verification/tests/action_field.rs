use std::cmp::Ordering;
use taxicab_map::{by_cost, record_offers, CostTable, Point, TaxicabMap};

fn p(x: isize, y: isize) -> Point {
    Point::new(x, y)
}

fn by_point(mut field: Vec<(u64, Point)>) -> Vec<(u64, Point)> {
    field.sort_by_key(|e| e.1);
    field
}

fn is_sorted_by_cost(field: &[(u64, Point)]) -> bool {
    field.windows(2).all(|w| w[0].0 <= w[1].0)
}

#[test]
fn zero_budget_and_zero_cost_reaches_every_cell() {
    let map = TaxicabMap::square(3, &0u8);
    let field = map.action_field(p(1, 1), 0).solve();
    assert!(field.contains(&(0, p(1, 1))));
    assert_eq!(field.len(), 9);
    assert!(field.iter().all(|e| e.0 == 0));
    let mut expected = Vec::new();
    for x in 0..3 {
        for y in 0..3 {
            expected.push((0, p(x, y)));
        }
    }
    assert_eq!(by_point(field), expected);
}

#[test]
fn zero_budget_with_a_cost_reaches_the_start_alone() {
    let map = TaxicabMap::square(3, &0u8);
    let field = map.action_field(p(1, 1), 0).with_cost(|_, _| 1).solve();
    assert_eq!(field, vec![(0, p(1, 1))]);
}

#[test]
fn unit_cost_labels_points_with_their_distance() {
    let map = TaxicabMap::square(5, &0u8);
    let field = map.action_field(p(0, 0), 2).with_cost(|_, _| 1).solve();
    assert!(is_sorted_by_cost(&field));
    assert_eq!(field[0], (0, p(0, 0)));
    assert_eq!(
        by_point(field),
        vec![(0, p(0, 0)), (1, p(0, 1)), (2, p(0, 2)), (1, p(1, 0)), (2, p(1, 1)), (2, p(2, 0))]
    );
}

#[test]
fn unit_cost_from_the_middle_is_a_diamond() {
    let map = TaxicabMap::square(5, &0u8);
    let field = map.action_field(p(2, 2), 2).with_cost(|_, _| 1).solve();
    assert_eq!(field.len(), 13);
    assert!(is_sorted_by_cost(&field));
    for (cost, point) in &field {
        let distance = (point.x - 2).abs() + (point.y - 2).abs();
        assert_eq!(*cost, distance as u64);
    }
    let costs: Vec<u64> = field.iter().map(|e| e.0).collect();
    assert_eq!(costs, vec![0, 1, 1, 1, 1, 2, 2, 2, 2, 2, 2, 2, 2]);
}

#[test]
fn impassable_cells_stay_out() {
    let mut map = TaxicabMap::rectangle(3, 3, &false);
    map.set_point(1, 0, true);
    map.set_point(1, 1, true);
    let field = map.action_field(p(0, 0), 10).with_passable(|_, wall| !*wall).with_cost(|_, _| 1).solve();
    assert!(is_sorted_by_cost(&field));
    assert!(field.iter().all(|e| e.0 <= 10));
    assert!(field.iter().all(|e| e.1 != p(1, 0) && e.1 != p(1, 1)));
    assert_eq!(
        by_point(field),
        vec![
            (0, p(0, 0)),
            (1, p(0, 1)),
            (2, p(0, 2)),
            (3, p(1, 2)),
            (6, p(2, 0)),
            (5, p(2, 1)),
            (4, p(2, 2))
        ]
    );
}

#[test]
fn passable_is_asked_with_the_point() {
    let map = TaxicabMap::square(4, &0u8);
    let solver = map.action_field(p(0, 0), 100);
    let field = solver.with_passable(|point, _| point.y == 0).with_cost(|_, _| 2).solve();
    assert_eq!(field, vec![(0, p(0, 0)), (2, p(1, 0)), (4, p(2, 0)), (6, p(3, 0))]);
}

#[test]
fn the_start_is_not_asked_whether_it_is_passable() {
    let map = TaxicabMap::square(2, &0u8);
    let field = map.action_field(p(0, 0), 5).with_passable(|_, _| false).solve();
    assert_eq!(field, vec![(0, p(0, 0))]);
}

#[test]
fn cost_goes_by_the_cell_that_is_entered() {
    let mut map = TaxicabMap::rectangle(3, 1, &0u64);
    map.set_point(0, 0, 100);
    map.set_point(1, 0, 3);
    map.set_point(2, 0, 4);
    let field = map.action_field(p(0, 0), 7).with_cost(|_, toll| *toll).solve();
    assert_eq!(field, vec![(0, p(0, 0)), (3, p(1, 0)), (7, p(2, 0))]);
    let short = map.action_field(p(0, 0), 6).with_cost(|_, toll| *toll).solve();
    assert_eq!(short, vec![(0, p(0, 0)), (3, p(1, 0))]);
}

#[test]
fn a_later_offer_replaces_an_earlier_one() {
    let mut map = TaxicabMap::square(2, &1u64);
    map.set_point(1, 0, 5);
    let field = map.action_field(p(0, 0), 20).with_cost(|_, toll| *toll).solve();
    assert_eq!(field, vec![(0, p(0, 0)), (1, p(0, 1)), (5, p(1, 0)), (6, p(1, 1))]);
}

#[test]
fn a_later_offer_may_also_be_cheaper() {
    let mut map = TaxicabMap::rectangle(2, 3, &1u64);
    map.set_point(0, 1, 5);
    let field = map.action_field(p(0, 0), 20).with_cost(|_, toll| *toll).solve();
    assert!(is_sorted_by_cost(&field));
    assert_eq!(
        by_point(field),
        vec![(0, p(0, 0)), (5, p(0, 1)), (6, p(0, 2)), (1, p(1, 0)), (2, p(1, 1)), (3, p(1, 2))]
    );
}

#[test]
fn a_cost_that_overflows_is_over_budget() {
    let map = TaxicabMap::rectangle(3, 1, &0u8);
    let field = map.action_field(p(0, 0), u64::MAX).with_cost(|_, _| u64::MAX).solve();
    assert_eq!(field, vec![(0, p(0, 0)), (u64::MAX, p(1, 0))]);
}

#[test]
fn a_start_outside_the_map_reaches_its_neighbours() {
    let map = TaxicabMap::square(2, &0u8);
    let field = map.action_field(p(-1, 0), 1).with_cost(|_, _| 1).solve();
    assert_eq!(field, vec![(0, p(-1, 0)), (1, p(0, 0))]);
    let lost = map.action_field(p(9, 9), 5).solve();
    assert_eq!(lost, vec![(0, p(9, 9))]);
}

#[test]
fn a_wrapping_map_with_costs_is_walked_round() {
    let map = TaxicabMap::rectangle(4, 1, &0u8).with_cycle(true, false);
    let field = map.action_field(p(0, 0), 2).with_cost(|_, _| 1).solve();
    assert!(is_sorted_by_cost(&field));
    assert_eq!(
        by_point(field),
        vec![(2, p(-2, 0)), (1, p(-1, 0)), (0, p(0, 0)), (1, p(1, 0)), (2, p(2, 0))]
    );
}

#[test]
fn neighbors_lists_what_can_be_entered() {
    let mut map = TaxicabMap::square(3, &1u64);
    map.set_point(2, 1, 7);
    map.set_point(1, 2, 0);
    let solver = map.action_field(p(1, 1), 5).with_passable(|_, v| *v != 0).with_cost(|_, v| *v);
    assert_eq!(solver.neighbors(&p(1, 1)), vec![(p(2, 1), 7), (p(0, 1), 1), (p(1, 0), 1)]);
    assert_eq!(solver.neighbors(&p(0, 0)), vec![(p(1, 0), 1), (p(0, 1), 1)]);
    assert_eq!(solver.neighbors(&p(9, 9)), vec![]);
    assert_eq!(solver.neighbors(&p(isize::MAX, 0)), vec![]);
}

#[test]
fn default_rules_pass_everything_for_nothing() {
    let map = TaxicabMap::square(2, &0u8);
    let solver = map.action_field(p(0, 0), 0);
    assert_eq!(solver.neighbors(&p(0, 0)), vec![(p(1, 0), 0), (p(0, 1), 0)]);
}

#[test]
fn cost_table_pops_in_the_order_of_points() {
    let mut table = CostTable::new();
    assert_eq!(table.pop_first(), None);
    table.insert(p(1, 0), 5);
    table.insert(p(0, 3), 3);
    table.insert(p(-1, 9), 8);
    table.insert(p(0, -3), 1);
    assert!(table.contains_key(&p(0, 3)));
    assert!(!table.contains_key(&p(3, 0)));
    assert_eq!(table.listing(), vec![(8, p(-1, 9)), (1, p(0, -3)), (3, p(0, 3)), (5, p(1, 0))]);
    assert_eq!(table.pop_first(), Some((p(-1, 9), 8)));
    assert_eq!(table.pop_first(), Some((p(0, -3), 1)));
    assert!(!table.contains_key(&p(0, -3)));
    assert_eq!(table.pop_first(), Some((p(0, 3), 3)));
    assert_eq!(table.pop_first(), Some((p(1, 0), 5)));
    assert_eq!(table.pop_first(), None);
    assert_eq!(table.listing(), vec![]);
}

#[test]
fn cost_table_insert_replaces_the_cost() {
    let mut table = CostTable::new();
    table.insert(p(1, 0), 5);
    table.insert(p(0, 0), 2);
    table.insert(p(1, 0), 9);
    table.insert(p(0, 0), 1);
    assert_eq!(table.listing(), vec![(1, p(0, 0)), (9, p(1, 0))]);
}

#[test]
fn offers_over_budget_are_dropped() {
    let mut open = CostTable::new();
    open.insert(p(0, 0), 1);
    open.insert(p(5, 5), 2);
    record_offers(&mut open, 3, 6, &vec![(p(0, 0), 3), (p(1, 1), 4), (p(2, 2), 0), (p(5, 5), 9)]);
    assert_eq!(open.listing(), vec![(6, p(0, 0)), (3, p(2, 2)), (2, p(5, 5))]);
    record_offers(&mut open, u64::MAX, u64::MAX, &vec![(p(7, 7), 1), (p(8, 8), 0)]);
    assert_eq!(open.listing(), vec![(6, p(0, 0)), (3, p(2, 2)), (2, p(5, 5)), (u64::MAX, p(8, 8))]);
}

#[test]
fn by_cost_ignores_the_point() {
    assert_eq!(by_cost(&(1, p(9, 9)), &(2, p(0, 0))), Ordering::Less);
    assert_eq!(by_cost(&(2, p(0, 0)), &(2, p(9, 9))), Ordering::Equal);
    assert_eq!(by_cost(&(3, p(0, 0)), &(2, p(9, 9))), Ordering::Greater);
}
