use hell_game::geometry::{
    advance, in_radius, isqrt, squared_distance, step_toward, displace, Point,
};

#[test]
fn squared_distance_of_a_three_four_five_triangle() {
    let a = Point { x: 0, y: 0 };
    let b = Point { x: 3, y: -4 };
    assert_eq!(squared_distance(a, b), 25);
    assert_eq!(squared_distance(b, a), 25);
}

#[test]
fn squared_distance_across_the_whole_grid_does_not_overflow() {
    let a = Point { x: i32::MIN, y: i32::MIN };
    let b = Point { x: i32::MAX, y: i32::MAX };
    assert_eq!(squared_distance(a, b), 2 * 4294967295u128 * 4294967295u128);
}

#[test]
fn radius_test_includes_the_boundary() {
    let c = Point { x: 10, y: 10 };
    assert!(in_radius(Point { x: 13, y: 14 }, c, 5));
    assert!(!in_radius(Point { x: 13, y: 14 }, c, 4));
    assert!(in_radius(c, c, 0));
    assert!(!in_radius(Point { x: 11, y: 10 }, c, 0));
}

#[test]
fn isqrt_rounds_down() {
    assert_eq!(isqrt(0), 0);
    assert_eq!(isqrt(1), 1);
    assert_eq!(isqrt(24), 4);
    assert_eq!(isqrt(25), 5);
    assert_eq!(isqrt(26), 5);
    assert_eq!(isqrt(u128::MAX), u64::MAX);
}

#[test]
fn advance_with_zero_direction_stays_put() {
    let p = Point { x: 7, y: -9 };
    assert_eq!(advance(p, Point { x: 0, y: 0 }, 1500), p);
}

#[test]
fn advance_scales_the_direction_to_the_speed() {
    let p = Point { x: 0, y: 0 };
    assert_eq!(advance(p, Point { x: 3, y: 4 }, 10), Point { x: 6, y: 8 });
    assert_eq!(advance(p, Point { x: -3, y: -4 }, 10), Point { x: -6, y: -8 });
    assert_eq!(advance(p, Point { x: 5, y: 0 }, 1500), Point { x: 1500, y: 0 });
    assert_eq!(advance(p, Point { x: 0, y: -1 }, 1500), Point { x: 0, y: -1500 });
}

#[test]
fn advance_normalises_short_diagonals_accurately() {
    let p = Point { x: 0, y: 0 };
    // 1000 / sqrt(2) = 707.1..., rounded toward zero.
    assert_eq!(advance(p, Point { x: 1, y: 1 }, 1000), Point { x: 707, y: 707 });
    assert_eq!(advance(p, Point { x: -1, y: 1 }, 1000), Point { x: -707, y: 707 });
}

#[test]
fn advance_copes_with_the_longest_direction() {
    let p = Point { x: 0, y: 0 };
    let dir = Point { x: i32::MIN, y: i32::MIN };
    assert_eq!(advance(p, dir, 1000), Point { x: -707, y: -707 });
    assert_eq!(advance(p, Point { x: i32::MAX, y: 0 }, u32::MAX), Point { x: i32::MAX, y: 0 });
}

#[test]
fn displace_adds_the_offset_and_stops_at_the_edge() {
    let c = Point { x: 200_000, y: 0 };
    assert_eq!(displace(c, Point { x: -3_000_000, y: 4_000_000 }), Point { x: -2_800_000, y: 4_000_000 });
    let far = Point { x: i32::MAX - 1, y: i32::MIN + 1 };
    assert_eq!(displace(far, Point { x: 5, y: -5 }), Point { x: i32::MAX, y: i32::MIN });
}

#[test]
fn advance_stops_at_the_edge_of_the_grid() {
    let p = Point { x: i32::MAX - 10, y: i32::MIN + 10 };
    assert_eq!(advance(p, Point { x: 1, y: -1 }, 1000), Point { x: i32::MAX, y: i32::MIN });
}

#[test]
fn step_toward_a_target_at_the_same_place_does_not_move() {
    let p = Point { x: 200_000, y: 0 };
    assert_eq!(step_toward(p, p, 1500), p);
}

#[test]
fn step_toward_moves_along_the_straight_line() {
    let p = Point { x: 0, y: 0 };
    let t = Point { x: 30_000, y: 40_000 };
    assert_eq!(step_toward(p, t, 1500), Point { x: 900, y: 1200 });
}

#[test]
fn step_toward_spans_the_whole_grid() {
    let p = Point { x: i32::MIN, y: i32::MIN };
    let t = Point { x: i32::MAX, y: i32::MAX };
    assert_eq!(step_toward(p, t, 1000), Point { x: i32::MIN + 707, y: i32::MIN + 707 });
}
