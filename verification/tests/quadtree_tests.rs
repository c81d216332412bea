use quadtree::geometry::Position;
use quadtree::node::{QTInner, SpatialData};
use quadtree::strategy::{AllocStrategy, InsertError, StorageKind};
use quadtree::tree::Quadtree;

use std::cell::Cell;
use std::rc::Rc;

/// Fixed-point coordinate of roughly 0.1 of the unit square.
const LOW: u32 = 429496729;
/// Fixed-point coordinate of roughly 0.9 of the unit square.
const HIGH: u32 = 3865470566;

fn sd(x: u32, y: u32, v: u64) -> SpatialData<u64> {
    SpatialData { data: v, position: Position { x, y } }
}

#[test]
fn single_insert_is_root_leaf() {
    let mut t: Quadtree<u64> = Quadtree::new();
    assert_eq!(t.insert(sd(LOW, LOW, 7)), Ok(()));
    assert_eq!(t.storage.granted, 0);
    assert!(matches!(t.root, QTInner::Value(_)));
    assert_eq!(t.traverse(), vec![(0usize, 7u64)]);
}

#[test]
fn opposite_sides_split_once() {
    let mut t: Quadtree<u64> = Quadtree::new();
    assert_eq!(t.insert(sd(LOW, LOW, 1)), Ok(()));
    assert_eq!(t.insert(sd(HIGH, HIGH, 2)), Ok(()));
    assert_eq!(t.storage.granted, 1);
    assert!(matches!(t.root, QTInner::Subdivision(_)));
    assert_eq!(t.traverse(), vec![(1usize, 1u64), (1usize, 2u64)]);
}

#[test]
fn four_corners_fixed_order() {
    let mut t: Quadtree<u64> = Quadtree::new();
    assert_eq!(t.insert(sd(LOW, LOW, 10)), Ok(()));
    assert_eq!(t.insert(sd(HIGH, LOW, 11)), Ok(()));
    assert_eq!(t.insert(sd(LOW, HIGH, 12)), Ok(()));
    assert_eq!(t.insert(sd(HIGH, HIGH, 13)), Ok(()));
    assert_eq!(t.storage.granted, 1);
    match &t.root {
        QTInner::Subdivision(q) => {
            assert!(matches!(q.nw, QTInner::Value(SpatialData { data: 10, .. })));
            assert!(matches!(q.ne, QTInner::Value(SpatialData { data: 11, .. })));
            assert!(matches!(q.sw, QTInner::Value(SpatialData { data: 12, .. })));
            assert!(matches!(q.se, QTInner::Value(SpatialData { data: 13, .. })));
        }
        _ => panic!("root should be a subdivision"),
    }
    assert_eq!(
        t.traverse(),
        vec![(1usize, 10u64), (1usize, 11u64), (1usize, 12u64), (1usize, 13u64)]
    );
}

#[test]
fn same_quadrant_collision_goes_deeper() {
    let mut t: Quadtree<u64> = Quadtree::new();
    // Both in the NW quadrant of the root; they separate one level further
    // down, so two blocks are consumed and both sit at depth 2.
    assert_eq!(t.insert(sd(100, 100, 1)), Ok(()));
    assert_eq!(t.insert(sd(1 << 30, 1 << 30, 2)), Ok(()));
    assert_eq!(t.storage.granted, 2);
    assert_eq!(t.traverse(), vec![(2usize, 1u64), (2usize, 2u64)]);
}

#[test]
fn traversal_is_deterministic() {
    let mut t: Quadtree<u64> = Quadtree::new();
    for (i, (x, y)) in [(LOW, LOW), (HIGH, LOW), (LOW, HIGH), (HIGH, HIGH), (7, 9)]
        .iter()
        .enumerate()
    {
        assert_eq!(t.insert(sd(*x, *y, i as u64)), Ok(()));
    }
    let first = t.traverse();
    let second = t.traverse();
    assert_eq!(first, second);
}

#[test]
fn traversal_visits_every_inserted_value() {
    let mut t: Quadtree<u64> = Quadtree::new();
    let points = [
        (LOW, LOW, 1u64),
        (HIGH, LOW, 2),
        (LOW, HIGH, 3),
        (HIGH, HIGH, 4),
        (1, 1, 5),
        (2, 2, 6),
        (u32::MAX, u32::MAX, 7),
    ];
    for (x, y, v) in points.iter() {
        assert_eq!(t.insert(sd(*x, *y, *v)), Ok(()));
    }
    let mut got: Vec<u64> = t.traverse().into_iter().map(|p| p.1).collect();
    got.sort();
    assert_eq!(got, vec![1, 2, 3, 4, 5, 6, 7]);
}

#[test]
fn coincident_positions_exhaust_subdivision() {
    let mut t: Quadtree<u64> = Quadtree::new();
    assert_eq!(t.insert(sd(LOW, LOW, 1)), Ok(()));
    // The exact same position can never classify into a different quadrant,
    // so the subdivision chain runs out of fuel and the second value is
    // rejected rather than looping forever; the stored values are unchanged
    // (the first value now sits at the bottom of the chain).
    assert_eq!(t.insert(sd(LOW, LOW, 2)), Err(InsertError::DepthExhausted));
    assert_eq!(t.storage.granted, 32);
    assert_eq!(t.traverse(), vec![(32usize, 1u64)]);
}

#[test]
fn bounded_allocator_failure_is_propagated() {
    let mut t: Quadtree<u64> = Quadtree::new_in(AllocStrategy::bounded(0));
    assert_eq!(t.insert(sd(LOW, LOW, 1)), Ok(()));
    assert_eq!(t.insert(sd(HIGH, HIGH, 2)), Err(InsertError::AllocFailure));
    assert_eq!(t.storage.granted, 0);
    assert_eq!(t.traverse(), vec![(0usize, 1u64)]);
}

#[test]
fn coordinate_extremes_split() {
    let mut t: Quadtree<u64> = Quadtree::new();
    assert_eq!(t.insert(sd(0, 0, 1)), Ok(()));
    assert_eq!(t.insert(sd(u32::MAX, u32::MAX, 2)), Ok(()));
    assert_eq!(t.storage.granted, 1);
    assert_eq!(t.traverse(), vec![(1usize, 1u64), (1usize, 2u64)]);
}

struct Token {
    hits: Rc<Cell<usize>>,
}

impl Drop for Token {
    fn drop(&mut self) {
        self.hits.set(self.hits.get() + 1);
    }
}

#[test]
fn structured_release_runs_each_teardown_once() {
    let hits = Rc::new(Cell::new(0usize));
    let mut t: Quadtree<Token> = Quadtree::new();
    let positions = [(LOW, LOW), (HIGH, LOW), (LOW, HIGH)];
    for (x, y) in positions.iter() {
        let token = Token { hits: hits.clone() };
        assert!(t.insert(SpatialData { data: token, position: Position { x: *x, y: *y } }).is_ok());
    }
    assert_eq!(hits.get(), 0);
    t.release();
    assert_eq!(hits.get(), 3);
}

#[test]
fn bulk_release_of_arena_tree() {
    let mut t: Quadtree<u64> = Quadtree::new_in(AllocStrategy::arena());
    assert_eq!(t.insert(sd(LOW, LOW, 1)), Ok(()));
    assert_eq!(t.insert(sd(HIGH, HIGH, 2)), Ok(()));
    assert_eq!(t.storage.kind, StorageKind::Arena);
    // The value type is plain data (`Copy`), so abandoning the node graph
    // and dropping the whole region at once skips no teardown.
    t.release_bulk();
}
