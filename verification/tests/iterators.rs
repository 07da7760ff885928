use taxicab_map::{DiamondPoints, TaxicabMap};

fn ring(x: isize, y: isize, n: isize) -> Vec<(isize, isize)> {
    let mut points = DiamondPoints::new(x, y, n);
    let mut out = Vec::new();
    while let Some(p) = points.next() {
        out.push(p);
    }
    assert_eq!(points.next(), None);
    assert_eq!(points.next(), None);
    out
}

fn around(map: &TaxicabMap<u8>, x: isize, y: isize, steps: usize) -> Vec<(isize, isize)> {
    let mut points = map.points_around(x, y, steps);
    let mut out = Vec::new();
    while let Some(p) = points.next() {
        out.push(p);
    }
    assert_eq!(points.next(), None);
    out
}

#[test]
fn ring_of_radius_zero_is_the_centre() {
    assert_eq!(ring(3, -4, 0), vec![(3, -4)]);
}

#[test]
fn ring_of_radius_one_is_the_four_neighbours() {
    assert_eq!(ring(0, 0, 1), vec![(1, 0), (0, 1), (-1, 0), (0, -1)]);
}

#[test]
fn ring_of_radius_two_runs_in_order() {
    assert_eq!(
        ring(1, 1, 2),
        vec![(3, 1), (2, 2), (1, 3), (0, 2), (-1, 1), (0, 0), (1, -1), (2, 0)]
    );
}

#[test]
fn ring_of_negative_radius_is_empty() {
    assert_eq!(ring(0, 0, -1), vec![]);
    assert_eq!(ring(5, 5, -7), vec![]);
}

#[test]
fn ring_has_four_points_per_unit_of_radius() {
    for n in 1isize..=6 {
        let points = ring(-2, 7, n);
        assert_eq!(points.len(), 4 * n as usize);
        for (i, p) in points.iter().enumerate() {
            assert_eq!((p.0 + 2).abs() + (p.1 - 7).abs(), n);
            for q in &points[i + 1..] {
                assert_ne!(p, q);
            }
        }
        assert_eq!(points[0], (-2 + n, 7));
        assert_eq!(points[n as usize], (-2, 7 + n));
        assert_eq!(points[2 * n as usize], (-2 - n, 7));
        assert_eq!(points[3 * n as usize], (-2, 7 - n));
    }
}

#[test]
fn ring_at_the_edge_of_the_coordinates() {
    assert_eq!(
        ring(isize::MAX - 1, isize::MIN + 1, 1),
        vec![
            (isize::MAX, isize::MIN + 1),
            (isize::MAX - 1, isize::MIN + 2),
            (isize::MAX - 2, isize::MIN + 1),
            (isize::MAX - 1, isize::MIN)
        ]
    );
}

#[test]
fn nearby_in_the_middle_is_all_four() {
    let map = TaxicabMap::square(3, &0u8);
    let mut points = map.points_nearby(1, 1);
    assert_eq!(points.next(), Some((2, 1)));
    assert_eq!(points.next(), Some((1, 2)));
    assert_eq!(points.next(), Some((0, 1)));
    assert_eq!(points.next(), Some((1, 0)));
    assert_eq!(points.next(), None);
}

#[test]
fn nearby_in_a_corner_skips_what_is_outside() {
    let map = TaxicabMap::square(3, &0u8);
    let mut points = map.points_nearby(0, 0);
    assert_eq!(points.next(), Some((1, 0)));
    assert_eq!(points.next(), Some((0, 1)));
    assert_eq!(points.next(), None);
    let mut far = map.points_nearby(10, 10);
    assert_eq!(far.next(), None);
}

#[test]
fn around_keeps_the_order_of_the_ring() {
    let map = TaxicabMap::square(3, &0u8);
    assert_eq!(around(&map, 1, 1, 0), vec![(1, 1)]);
    assert_eq!(around(&map, 1, 1, 2), vec![(2, 2), (0, 2), (0, 0), (2, 0)]);
    assert_eq!(around(&map, 0, 0, 2), vec![(2, 0), (1, 1), (0, 2)]);
    assert_eq!(around(&map, 1, 1, 3), vec![]);
    assert_eq!(around(&map, 5, 5, 0), vec![]);
}

#[test]
fn around_on_a_wrapping_map_keeps_every_candidate() {
    let map = TaxicabMap::square(3, &0u8).with_cycle(true, true);
    assert_eq!(around(&map, 0, 0, 1), vec![(1, 0), (0, 1), (-1, 0), (0, -1)]);
    assert_eq!(around(&map, 0, 0, 2).len(), 8);
    let half = TaxicabMap::square(3, &0u8).with_cycle(true, false);
    assert_eq!(around(&half, 0, 0, 1), vec![(1, 0), (0, 1), (-1, 0)]);
}

#[test]
fn around_goes_by_the_origin() {
    let map = TaxicabMap::square(2, &0u8).with_origin(10, 10);
    assert_eq!(around(&map, 10, 10, 1), vec![(11, 10), (10, 11)]);
    assert_eq!(around(&map, 0, 0, 1), vec![]);
}

#[test]
fn points_all_walks_in_row_major_order() {
    let mut map = TaxicabMap::rectangle(2, 3, &0u8).with_origin(5, -1);
    let mut n = 0;
    for x in 5..7 {
        for y in -1..2 {
            map.set_point(x, y, n);
            n += 1;
        }
    }
    let mut points = map.points_all();
    let mut seen = Vec::new();
    while let Some((x, y, v)) = points.next() {
        seen.push((x, y, *v));
    }
    assert_eq!(points.next().is_none(), true);
    assert_eq!(seen, vec![(5, -1, 0), (5, 0, 1), (5, 1, 2), (6, -1, 3), (6, 0, 4), (6, 1, 5)]);
}

#[test]
fn points_all_starts_anew_with_every_call() {
    let map = TaxicabMap::rectangle(2, 1, &3u8);
    let mut first = map.points_all();
    assert_eq!(first.next(), Some((0, 0, &3)));
    let mut second = map.points_all();
    assert_eq!(second.next(), Some((0, 0, &3)));
    assert_eq!(second.next(), Some((1, 0, &3)));
    assert_eq!(second.next(), None);
    assert_eq!(first.next(), Some((1, 0, &3)));
    assert_eq!(first.next(), None);
}

#[test]
fn points_all_of_an_empty_map_yields_nothing() {
    let map = TaxicabMap::rectangle(0, 3, &0u8);
    assert!(map.points_all().next().is_none());
    let flat = TaxicabMap::rectangle(3, 0, &0u8);
    assert!(flat.points_all().next().is_none());
}

#[test]
fn points_all_lists_canonical_coordinates_on_a_wrapping_map() {
    let map = TaxicabMap::rectangle(2, 1, &0u8).with_cycle(true, true).with_origin(-1, 0);
    let mut points = map.points_all();
    assert_eq!(points.next(), Some((-1, 0, &0)));
    assert_eq!(points.next(), Some((0, 0, &0)));
    assert_eq!(points.next(), None);
}

#[test]
fn points_mut_writes_every_cell_once() {
    let mut map = TaxicabMap::rectangle(2, 2, &0i64).with_origin(1, 1);
    {
        let mut points = map.points_mut();
        let mut count = 0;
        while let Some((x, y, v)) = points.next() {
            *v += (10 * x + y) as i64;
            count += 1;
        }
        assert_eq!(count, 4);
        assert!(points.next().is_none());
    }
    assert_eq!(map.get_point(1, 1), Some(&11));
    assert_eq!(map.get_point(1, 2), Some(&12));
    assert_eq!(map.get_point(2, 1), Some(&21));
    assert_eq!(map.get_point(2, 2), Some(&22));
}

#[test]
fn size_hint_counts_the_cells_that_are_left() {
    let map = TaxicabMap::rectangle(2, 3, &0u8);
    let mut points = map.points_all();
    assert_eq!(points.size_hint(), (6, Some(6)));
    points.next();
    assert_eq!(points.size_hint(), (5, Some(5)));
    points.next();
    points.next();
    assert_eq!(points.size_hint(), (3, Some(3)));
    while points.next().is_some() {}
    assert_eq!(points.size_hint(), (0, Some(0)));
    let empty = TaxicabMap::rectangle(0, 3, &0u8);
    assert_eq!(empty.points_all().size_hint(), (0, Some(0)));
}

#[test]
fn size_hint_of_the_writing_walk() {
    let mut map = TaxicabMap::rectangle(3, 1, &0u8);
    let mut points = map.points_mut();
    assert_eq!(points.size_hint(), (3, Some(3)));
    points.next();
    assert_eq!(points.size_hint(), (2, Some(2)));
    points.next();
    points.next();
    assert_eq!(points.size_hint(), (0, Some(0)));
    assert!(points.next().is_none());
    assert_eq!(points.size_hint(), (0, Some(0)));
}
