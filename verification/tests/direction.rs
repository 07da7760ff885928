use std::str::FromStr;
use taxicab_map::{Direction, Joint, Point};

#[test]
fn east_in_capitals_equals_the_arrow() {
    let word = Direction::from_str("EAST");
    let arrow = Direction::from_str("→");
    assert!(word.is_ok());
    assert_eq!(word, arrow);
    assert_eq!(word, Ok(Direction::X(true)));
}

#[test]
fn unknown_name_fails_with_the_lowered_text() {
    assert_eq!(Direction::from_str("up-left"), Err("up-left".to_string()));
    assert_eq!(Direction::from_str("Up-LEFT"), Err("up-left".to_string()));
    assert_eq!(Direction::from_str(""), Err(String::new()));
    assert_eq!(Direction::from_str("easts"), Err("easts".to_string()));
}

#[test]
fn every_name_parses() {
    for name in ["east", "right", "→", "East", "RIGHT"] {
        assert_eq!(Direction::from_str(name), Ok(Direction::X(true)));
    }
    for name in ["west", "left", "←", "WeSt", "Left"] {
        assert_eq!(Direction::from_str(name), Ok(Direction::X(false)));
    }
    for name in ["north", "up", "↑", "NORTH", "Up"] {
        assert_eq!(Direction::from_str(name), Ok(Direction::Y(true)));
    }
    for name in ["south", "down", "↓", "South", "DOWN"] {
        assert_eq!(Direction::from_str(name), Ok(Direction::Y(false)));
    }
}

#[test]
fn parse_goes_through_the_trait() {
    let parsed: Result<Direction, String> = "north".parse();
    assert_eq!(parsed, Ok(Direction::Y(true)));
    let failed: Result<Direction, String> = "Nowhere".parse();
    assert_eq!(failed, Err("nowhere".to_string()));
}

#[test]
fn from_name_takes_lower_case_only() {
    assert_eq!(Direction::from_name(&"east".to_string()), Some(Direction::X(true)));
    assert_eq!(Direction::from_name(&"EAST".to_string()), None);
    assert_eq!(Direction::from_name(&"↓".to_string()), Some(Direction::Y(false)));
    assert_eq!(Direction::from_name(&"".to_string()), None);
}

#[test]
fn symbols_are_arrows() {
    assert_eq!(Direction::X(true).to_string(), "→");
    assert_eq!(Direction::X(false).to_string(), "←");
    assert_eq!(Direction::Y(true).to_string(), "↑");
    assert_eq!(Direction::Y(false).to_string(), "↓");
}

#[test]
fn symbol_parses_back() {
    for d in Direction::all() {
        assert_eq!(Direction::from_str(&d.to_string()), Ok(d));
    }
}

#[test]
fn all_lists_four_directions() {
    assert_eq!(
        Direction::all(),
        [Direction::X(true), Direction::X(false), Direction::Y(true), Direction::Y(false)]
    );
}

#[test]
fn step_moves_one_cell() {
    let p = Point::new(3, -2);
    assert_eq!(Direction::X(true).step(p), Point::new(4, -2));
    assert_eq!(Direction::X(false).step(p), Point::new(2, -2));
    assert_eq!(Direction::Y(true).step(p), Point::new(3, -1));
    assert_eq!(Direction::Y(false).step(p), Point::new(3, -3));
    assert_eq!(p.go(Direction::Y(true)), Point::new(3, -1));
}

#[test]
fn checked_step_stops_at_the_edge_of_the_coordinates() {
    let corner = Point::new(isize::MAX, isize::MIN);
    assert_eq!(Direction::X(true).checked_step(corner), None);
    assert_eq!(Direction::Y(false).checked_step(corner), None);
    assert_eq!(Direction::X(false).checked_step(corner), Some(Point::new(isize::MAX - 1, isize::MIN)));
    assert_eq!(Direction::Y(true).checked_step(corner), Some(Point::new(isize::MAX, isize::MIN + 1)));
    assert_eq!(Direction::X(true).checked_step(Point::new(0, 0)), Some(Point::new(1, 0)));
}

#[test]
fn points_are_ordered_by_x_then_y() {
    let a = Point::new(0, 5);
    let b = Point::new(1, -5);
    let c = Point::new(1, 0);
    assert!(a.precedes(&b));
    assert!(b.precedes(&c));
    assert!(a.precedes(&c));
    assert!(!b.precedes(&a));
    assert!(!a.precedes(&a));
    assert!(a < b && b < c);
    let mut sorted = vec![c, a, b];
    sorted.sort();
    assert_eq!(sorted, vec![a, b, c]);
}

#[test]
fn joint_leads_from_source_to_target() {
    let p = Point::new(2, 2);
    let j = Joint::new(&p, Direction::X(false));
    assert_eq!(j.source(), p);
    assert_eq!(j.target(), Point::new(1, 2));
    assert_eq!(j.point, p);
    assert_eq!(j.direction, Direction::X(false));
    let up = Joint::new(&p, Direction::Y(true));
    assert_eq!(up.target(), Point::new(2, 3));
    assert_eq!(up.target(), up.direction.step(up.source()));
}
