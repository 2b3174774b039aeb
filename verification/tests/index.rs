use shooter2d::collision::{Collidable, SpatialIndex};
use shooter2d::geom::Pos;

/// A small deterministic generator so the cross-check runs the same way
/// every time.
struct Lcg(u64);

impl Lcg {
    fn next(&mut self) -> u64 {
        self.0 = self.0.wrapping_mul(6364136223846793005).wrapping_add(1442695040888963407);
        self.0 >> 33
    }

    fn in_range(&mut self, lo: i64, hi: i64) -> i64 {
        lo + (self.next() % ((hi - lo) as u64)) as i64
    }
}

fn brute_force(points: &[(i64, i64, u64)], center: Pos, radius: i64) -> Vec<u64> {
    let mut ids: Vec<u64> = points
        .iter()
        .filter(|(x, y, _)| {
            let dx = center.x - x;
            let dy = center.y - y;
            dx * dx + dy * dy <= radius * radius
        })
        .map(|(_, _, id)| *id)
        .collect();
    ids.sort();
    ids
}

#[test]
fn query_radius_matches_brute_force() {
    let mut rng = Lcg(42);
    let mut points: Vec<(i64, i64, u64)> = Vec::new();
    let mut entries: Vec<Collidable> = Vec::new();
    for id in 0..200u64 {
        let x = rng.in_range(-1000, 1000);
        let y = rng.in_range(-1000, 1000);
        points.push((x, y, id));
        entries.push(Collidable { pos: Pos { x, y }, id });
    }
    let mut index = SpatialIndex::empty();
    index.rebuild(&entries);
    for _ in 0..50 {
        let center = Pos { x: rng.in_range(-1200, 1200), y: rng.in_range(-1200, 1200) };
        let radius = rng.in_range(0, 400);
        let mut got = index.query_radius(center, radius);
        got.sort();
        let expected = brute_force(&points, center, radius);
        assert_eq!(got, expected, "center {:?} radius {}", center, radius);
    }
}

#[test]
fn query_radius_boundary_is_inclusive() {
    let entries = vec![
        Collidable { pos: Pos { x: 30, y: 40 }, id: 1 },  // distance exactly 50
        Collidable { pos: Pos { x: 30, y: 41 }, id: 2 },  // just outside
    ];
    let mut index = SpatialIndex::empty();
    index.rebuild(&entries);
    let ids = index.query_radius(Pos { x: 0, y: 0 }, 50);
    assert_eq!(ids, vec![1]);
}

#[test]
fn rebuild_replaces_content_fully() {
    let mut index = SpatialIndex::empty();
    let first = vec![
        Collidable { pos: Pos { x: 0, y: 0 }, id: 1 },
        Collidable { pos: Pos { x: 5, y: 5 }, id: 2 },
        Collidable { pos: Pos { x: -5, y: 3 }, id: 3 },
    ];
    index.rebuild(&first);
    let second = vec![
        Collidable { pos: Pos { x: -5, y: 3 }, id: 3 },
        Collidable { pos: Pos { x: 7, y: 1 }, id: 4 },
    ];
    index.rebuild(&second);
    let mut ids = index.query_radius(Pos { x: 0, y: 0 }, 1_000_000);
    ids.sort();
    assert_eq!(ids, vec![3, 4]);
    assert!(!ids.contains(&1));
    assert!(!ids.contains(&2));
}

#[test]
fn empty_index_returns_nothing() {
    let index = SpatialIndex::empty();
    assert!(index.query_radius(Pos { x: 0, y: 0 }, 1_000_000).is_empty());
}

#[test]
fn query_far_from_points_returns_nothing() {
    let entries = vec![
        Collidable { pos: Pos { x: 100, y: 100 }, id: 1 },
        Collidable { pos: Pos { x: -100, y: 50 }, id: 2 },
    ];
    let mut index = SpatialIndex::empty();
    index.rebuild(&entries);
    assert!(index.query_radius(Pos { x: 10_000, y: 10_000 }, 50).is_empty());
}
