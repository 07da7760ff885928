use taxicab_map::{absolute_to_relative, relative_to_absolute};

#[test]
fn inside_without_wrap_is_offset_from_origin() {
    assert_eq!(absolute_to_relative(0, 0, 0, 0, 3, 2, false, false), Some((0, 0)));
    assert_eq!(absolute_to_relative(2, 1, 0, 0, 3, 2, false, false), Some((2, 1)));
    assert_eq!(absolute_to_relative(7, -3, 5, -4, 3, 2, false, false), Some((2, 1)));
}

#[test]
fn outside_without_wrap_has_no_index() {
    assert_eq!(absolute_to_relative(3, 0, 0, 0, 3, 2, false, false), None);
    assert_eq!(absolute_to_relative(-1, 0, 0, 0, 3, 2, false, false), None);
    assert_eq!(absolute_to_relative(0, 2, 0, 0, 3, 2, false, false), None);
    assert_eq!(absolute_to_relative(0, -1, 0, 0, 3, 2, false, false), None);
    assert_eq!(absolute_to_relative(4, 0, 5, 0, 3, 2, false, false), None);
    assert_eq!(absolute_to_relative(8, 0, 5, 0, 3, 2, false, false), None);
}

#[test]
fn empty_axis_without_wrap_has_no_index() {
    assert_eq!(absolute_to_relative(0, 0, 0, 0, 0, 2, false, false), None);
    assert_eq!(absolute_to_relative(0, 0, 0, 0, 2, 0, false, false), None);
    assert_eq!(absolute_to_relative(0, 0, 0, 0, -1, 2, false, false), None);
}

#[test]
fn wrap_takes_the_euclidean_remainder() {
    assert_eq!(absolute_to_relative(4, 0, 0, 0, 4, 1, true, false), Some((0, 0)));
    assert_eq!(absolute_to_relative(-1, 0, 0, 0, 4, 1, true, false), Some((3, 0)));
    assert_eq!(absolute_to_relative(-4, 0, 0, 0, 4, 1, true, false), Some((0, 0)));
    assert_eq!(absolute_to_relative(-5, 0, 0, 0, 4, 1, true, false), Some((3, 0)));
    assert_eq!(absolute_to_relative(9, 0, 0, 0, 4, 1, true, false), Some((1, 0)));
    assert_eq!(absolute_to_relative(0, 7, 0, 0, 1, 3, false, true), Some((0, 1)));
    assert_eq!(absolute_to_relative(0, -7, 0, 0, 1, 3, false, true), Some((0, 2)));
    assert_eq!(absolute_to_relative(1, 1, 2, 3, 5, 4, true, true), Some((4, 2)));
}

#[test]
fn wrap_on_one_axis_leaves_the_other_bounded() {
    assert_eq!(absolute_to_relative(9, 1, 0, 0, 4, 1, true, false), None);
    assert_eq!(absolute_to_relative(9, -1, 0, 0, 4, 1, true, false), None);
    assert_eq!(absolute_to_relative(4, 9, 0, 0, 4, 3, false, true), None);
}

#[test]
fn wrap_ignores_multiples_of_the_extent() {
    for k in -3isize..=3 {
        for x in -6isize..=6 {
            assert_eq!(
                absolute_to_relative(x + k * 5, 2, 1, 0, 5, 3, true, false),
                absolute_to_relative(x, 2, 1, 0, 5, 3, true, false)
            );
            assert_eq!(
                absolute_to_relative(1, x + k * 3, 1, 0, 5, 3, false, true),
                absolute_to_relative(1, x, 1, 0, 5, 3, false, true)
            );
        }
    }
}

#[test]
fn extreme_coordinates_do_not_overflow() {
    assert_eq!(absolute_to_relative(isize::MIN, 0, isize::MAX, 0, 4, 1, false, false), None);
    assert_eq!(absolute_to_relative(isize::MAX, 0, isize::MIN, 0, 4, 1, false, false), None);
    assert_eq!(absolute_to_relative(isize::MAX, 0, isize::MAX - 3, 0, 4, 1, false, false), Some((3, 0)));
    let wrapped = absolute_to_relative(isize::MIN, 0, isize::MAX, 0, 4, 1, true, false);
    assert_eq!(wrapped, Some((1, 0)));
}

#[test]
fn canonical_coordinate_adds_the_origin() {
    assert_eq!(relative_to_absolute(0, 0, 0, 0), (0, 0));
    assert_eq!(relative_to_absolute(2, 1, 5, -4), (7, -3));
    assert_eq!(relative_to_absolute(3, 0, isize::MAX - 3, isize::MIN), (isize::MAX, isize::MIN));
}

#[test]
fn round_trip_reproduces_every_index() {
    let (w, h) = (4usize, 3usize);
    for (ox, oy) in [(0isize, 0isize), (-7, 11), (100, -100)] {
        for (cx, cy) in [(false, false), (true, false), (false, true), (true, true)] {
            for i in 0..w {
                for j in 0..h {
                    let (x, y) = relative_to_absolute(i, j, ox, oy);
                    let back = absolute_to_relative(x, y, ox, oy, w as isize, h as isize, cx, cy);
                    assert_eq!(back, Some((i, j)));
                }
            }
        }
    }
}

#[test]
fn bounds_without_wrap_are_exact() {
    let (ox, w) = (-2isize, 5isize);
    for x in -10isize..=10 {
        let found = absolute_to_relative(x, 0, ox, 0, w, 1, false, false);
        if ox <= x && x < ox + w {
            assert_eq!(found, Some(((x - ox) as usize, 0)));
        } else {
            assert_eq!(found, None);
        }
    }
}
