use ruggle::bitgrid::BitGrid;
use ruggle::components::FieldOfView;
use ruggle::geometry::{dist2, within_range};
use ruggle::vision::{recompute, update_fov};

fn open_grid(w: i32, h: i32) -> BitGrid {
    BitGrid::new(w, h)
}

#[test]
fn squared_distance() {
    assert_eq!(dist2((0, 0), (3, 4)), 25);
    assert_eq!(dist2((3, 4), (0, 0)), 25);
    assert_eq!(dist2((-2, 5), (-2, 5)), 0);
    assert_eq!(dist2((10, 10), (5, 10)), 25);
}

#[test]
fn the_range_rule_has_a_sharp_edge() {
    // 6 * 6 + 6 * 6 == 72 == 8 * 9, and 8 * 8 + 3 * 3 == 73.
    assert!(within_range((0, 0), (6, 6), 8));
    assert!(!within_range((0, 0), (8, 3), 8));
    assert!(within_range((6, 6), (0, 0), 8));
    assert!(!within_range((8, 3), (0, 0), 8));
    assert!(within_range((0, 0), (1, 1), 1));
    assert!(!within_range((0, 0), (2, 0), 1));
    assert!(within_range((4, 4), (4, 4), 0));
    assert!(!within_range((4, 4), (4, 5), 0));
    assert!(!within_range((4, 4), (4, 4), -1));
}

#[test]
fn an_open_field_is_seen_up_to_the_edge_of_the_circle() {
    let grid = open_grid(21, 21);
    let seen = recompute((10, 10), 8, &grid);
    assert!(seen.get(16, 16));
    assert!(seen.get(4, 4));
    assert!(!seen.get(18, 13));
    assert!(!seen.get(13, 18));
    assert!(!seen.get(2, 7));
    for y in 0..21 {
        for x in 0..21 {
            assert_eq!(seen.get(x, y), within_range((10, 10), (x, y), 8), "tile ({}, {})", x, y);
        }
    }
}

#[test]
fn visibility_is_the_same_every_time() {
    let mut grid = open_grid(30, 20);
    for (x, y) in [(5, 5), (6, 5), (7, 5), (12, 9), (12, 10), (3, 14), (20, 3)] {
        grid.set(x, y, true);
    }
    let first = recompute((9, 9), 8, &grid);
    let second = recompute((9, 9), 8, &grid);
    assert_eq!(first.tiles(), second.tiles());
    assert_eq!(first.bits, second.bits);
}

#[test]
fn a_wall_is_seen_and_hides_what_is_behind_it() {
    let mut grid = open_grid(21, 21);
    grid.set(10, 9, true);
    let seen = recompute((10, 10), 8, &grid);
    assert!(seen.get(10, 10));
    assert!(seen.get(10, 9));
    assert!(!seen.get(10, 8));
    assert!(!seen.get(10, 5));
    assert!(seen.get(11, 8));
    assert!(seen.get(9, 8));
    assert!(seen.get(10, 11));
}

#[test]
fn a_closed_room_hides_the_outside() {
    let mut grid = open_grid(15, 15);
    for i in 4..=10 {
        grid.set(i, 4, true);
        grid.set(i, 10, true);
        grid.set(4, i, true);
        grid.set(10, i, true);
    }
    let seen = recompute((7, 7), 8, &grid);
    for y in 0..15 {
        for x in 0..15 {
            let inside = 4 <= x && x <= 10 && 4 <= y && y <= 10;
            if !inside {
                assert!(!seen.get(x, y), "tile ({}, {}) lies outside the walls", x, y);
            }
        }
    }
    for y in 5..=9 {
        for x in 5..=9 {
            assert!(seen.get(x, y), "tile ({}, {}) lies inside the room", x, y);
        }
    }
    assert!(seen.get(7, 4));
    assert!(seen.get(4, 7));
}

#[test]
fn the_neighbours_are_always_seen() {
    let mut grid = open_grid(5, 5);
    for y in 0..5 {
        for x in 0..5 {
            grid.set(x, y, true);
        }
    }
    let seen = recompute((2, 2), 1, &grid);
    for y in 1..=3 {
        for x in 1..=3 {
            assert!(seen.get(x, y));
        }
    }
    assert!(!seen.get(0, 2));
    assert!(!seen.get(2, 4));
}

#[test]
fn nothing_is_seen_off_the_grid_or_within_a_negative_radius() {
    let grid = open_grid(4, 3);
    let seen = recompute((0, 0), 8, &grid);
    assert_eq!(seen.tiles().len(), 12);
    assert!(!seen.get(-1, 0));
    assert!(!seen.get(4, 0));
    let none = recompute((1, 1), -1, &grid);
    assert!(none.tiles().is_empty());
    let outside = recompute((-3, 1), 2, &grid);
    assert!(outside.tiles().is_empty());
    let here = recompute((1, 1), 0, &grid);
    assert_eq!(here.tiles(), vec![(1, 1)]);
}

#[test]
fn what_was_seen_stays_seen() {
    let grid = open_grid(30, 21);
    let mut fov = FieldOfView::new(5, 30, 21);
    assert!(!fov.is_visible(5, 10));
    update_fov(&mut fov, (10, 10), &grid);
    assert!(fov.is_visible(5, 10));
    assert!(fov.is_seen(5, 10));
    assert!(!fov.is_visible(16, 10));
    update_fov(&mut fov, (11, 10), &grid);
    assert!(!fov.is_visible(5, 10));
    assert!(fov.is_seen(5, 10));
    assert!(fov.is_visible(16, 10));
    assert!(fov.is_seen(16, 10));
    assert_eq!(fov.range, 5);
}
