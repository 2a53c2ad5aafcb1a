use hell_game::geometry::Point;
use hell_game::index::{IndexedPoint, SpatialIndex};

fn at(x: i32, y: i32, id: u64) -> IndexedPoint {
    IndexedPoint { pos: Point { x, y }, id }
}

fn sorted_ids(found: &Vec<IndexedPoint>) -> Vec<u64> {
    let mut ids: Vec<u64> = found.iter().map(|p| p.id).collect();
    ids.sort();
    ids
}

fn brute_force(points: &Vec<IndexedPoint>, center: Point, radius: u32) -> Vec<u64> {
    let mut ids: Vec<u64> = Vec::new();
    for p in points.iter() {
        let dx = p.pos.x as i128 - center.x as i128;
        let dy = p.pos.y as i128 - center.y as i128;
        if dx * dx + dy * dy <= (radius as i128) * (radius as i128) {
            ids.push(p.id);
        }
    }
    ids.sort();
    ids
}

#[test]
fn empty_index_answers_with_nothing() {
    let index = SpatialIndex::new();
    assert!(index.query_radius(Point { x: 0, y: 0 }, u32::MAX).is_empty());
    let built = SpatialIndex::build(Vec::new());
    assert!(built.query_radius(Point { x: 5, y: 5 }, 100).is_empty());
}

#[test]
fn query_returns_the_points_within_the_radius() {
    let points = vec![at(0, 0, 1), at(10, 0, 2), at(0, 10, 3), at(30, 40, 4), at(-7, -7, 5)];
    let index = SpatialIndex::build(points);
    let found = index.query_radius(Point { x: 0, y: 0 }, 10);
    assert_eq!(sorted_ids(&found), vec![1, 2, 3, 5]);
}

#[test]
fn query_includes_the_boundary_of_the_circle() {
    let index = SpatialIndex::build(vec![at(3, 4, 1), at(6, 8, 2)]);
    let c = Point { x: 0, y: 0 };
    assert_eq!(sorted_ids(&index.query_radius(c, 5)), vec![1]);
    assert_eq!(sorted_ids(&index.query_radius(c, 4)), Vec::<u64>::new());
    assert_eq!(sorted_ids(&index.query_radius(c, 10)), vec![1, 2]);
    assert_eq!(sorted_ids(&index.query_radius(c, 9)), vec![1]);
}

#[test]
fn query_excludes_points_just_beyond_the_radius() {
    // Squared distance 2 lies between 1 and 4: within radius 2, beyond radius 1.
    let index = SpatialIndex::build(vec![at(1, 1, 7)]);
    let c = Point { x: 0, y: 0 };
    assert!(index.query_radius(c, 1).is_empty());
    assert_eq!(sorted_ids(&index.query_radius(c, 2)), vec![7]);
}

#[test]
fn query_with_radius_zero_finds_only_the_center() {
    let index = SpatialIndex::build(vec![at(5, 5, 1), at(5, 6, 2)]);
    let found = index.query_radius(Point { x: 5, y: 5 }, 0);
    assert_eq!(found, vec![at(5, 5, 1)]);
}

#[test]
fn query_hands_back_positions_and_identities_unchanged() {
    let index = SpatialIndex::build(vec![at(-123_456, 654_321, 42)]);
    let found = index.query_radius(Point { x: -123_000, y: 654_000 }, 1_000);
    assert_eq!(found, vec![at(-123_456, 654_321, 42)]);
}

#[test]
fn query_returns_every_copy_of_a_repeated_point() {
    let index = SpatialIndex::build(vec![at(1, 1, 9), at(1, 1, 9), at(1, 1, 8)]);
    let found = index.query_radius(Point { x: 0, y: 0 }, 2);
    assert_eq!(sorted_ids(&found), vec![8, 9, 9]);
}

#[test]
fn query_does_not_depend_on_insertion_order() {
    let points = vec![at(0, 0, 1), at(10, 0, 2), at(0, 10, 3), at(30, 40, 4), at(-7, -7, 5)];
    let mut reversed = points.clone();
    reversed.reverse();
    let first = SpatialIndex::build(points);
    let second = SpatialIndex::build(reversed);
    for radius in [0u32, 5, 10, 49, 50, 51] {
        let c = Point { x: 0, y: 0 };
        assert_eq!(
            sorted_ids(&first.query_radius(c, radius)),
            sorted_ids(&second.query_radius(c, radius))
        );
    }
}

#[test]
fn rebuilding_from_the_same_points_gives_the_same_answers() {
    let points = vec![at(100, 100, 1), at(-100, 100, 2), at(100, -100, 3), at(0, 0, 4)];
    let first = SpatialIndex::build(points.clone());
    let second = SpatialIndex::build(points);
    let c = Point { x: 50, y: 50 };
    assert_eq!(sorted_ids(&first.query_radius(c, 71)), sorted_ids(&second.query_radius(c, 71)));
    assert_eq!(sorted_ids(&first.query_radius(c, 71)), vec![1, 4]);
}

#[test]
fn query_agrees_with_a_plain_scan_on_a_grid_of_points() {
    let mut points: Vec<IndexedPoint> = Vec::new();
    let mut id: u64 = 0;
    for x in -6..=6 {
        for y in -6..=6 {
            points.push(at(x * 7, y * 5, id));
            id += 1;
        }
    }
    let index = SpatialIndex::build(points.clone());
    for (cx, cy, radius) in [(0, 0, 0u32), (0, 0, 12), (3, -4, 25), (-40, 30, 17), (100, 100, 200)] {
        let c = Point { x: cx, y: cy };
        assert_eq!(sorted_ids(&index.query_radius(c, radius)), brute_force(&points, c, radius));
    }
}

#[test]
fn query_works_at_the_corners_of_the_grid() {
    let points = vec![
        at(i32::MIN, i32::MIN, 1),
        at(i32::MAX, i32::MAX, 2),
        at(i32::MIN, i32::MAX, 3),
        at(0, 0, 4),
    ];
    let index = SpatialIndex::build(points.clone());
    let corner = Point { x: i32::MIN, y: i32::MIN };
    assert_eq!(sorted_ids(&index.query_radius(corner, 0)), vec![1]);
    // The far side is 2^32 - 1 away along one axis: exactly the largest radius.
    assert_eq!(sorted_ids(&index.query_radius(corner, u32::MAX)), vec![1, 3, 4]);
    assert_eq!(sorted_ids(&index.query_radius(corner, u32::MAX - 1)), vec![1, 4]);
    let center = Point { x: 0, y: 0 };
    assert_eq!(
        sorted_ids(&index.query_radius(center, u32::MAX)),
        brute_force(&points, center, u32::MAX)
    );
}
