//! The general laws of the tree, stated and proved over the same
//! specifications that the executable contracts use.

use vstd::prelude::*;

use vstd::arithmetic::power2::lemma_pow2_unfold;
use vstd::arithmetic::power2::lemma2_to64;
use vstd::arithmetic::power2::pow2;
use vstd::multiset::Multiset;
use vstd::multiset::group_multiset_axioms;
use vstd::multiset::lemma_multiset_empty_len;
use vstd::seq_lib::group_to_multiset_ensures;
use vstd::seq_lib::lemma_multiset_commutative;

use crate::geometry::{child_region_of, quadrant_of, Quadrant, Region};
use crate::node::{inserted, node_height, node_values, node_visits, blocks_needed, quad_child,
    QTInner, SpatialData};
use crate::tree::Quadtree;

verus! {

/// The values of a visit sequence, with the depths dropped.
pub open spec fn visit_values<T>(s: Seq<(usize, T)>) -> Seq<T> {
    s.map_values(|p: (usize, T)| p.1)
}

/// The empty sequence carries the empty multiset.
proof fn lemma_to_multiset_empty<T>()
    ensures
        Seq::<T>::empty().to_multiset() == Multiset::<T>::empty(),
{
    broadcast use group_to_multiset_ensures;
    broadcast use group_multiset_axioms;

    lemma_multiset_empty_len(Seq::<T>::empty().to_multiset());
}

/// A one-element sequence carries the one-element multiset.
proof fn lemma_to_multiset_singleton<T>(x: T)
    ensures
        seq![x].to_multiset() == Multiset::<T>::empty().insert(x),
{
    broadcast use group_to_multiset_ensures;
    broadcast use group_multiset_axioms;

    lemma_to_multiset_empty::<T>();
    assert(seq![x] =~= Seq::<T>::empty().push(x));
}

/// The multiset of a four-way concatenation is the sum of the parts.
proof fn lemma_concat4_multiset<T>(a: Seq<T>, b: Seq<T>, c: Seq<T>, d: Seq<T>)
    ensures
        (a + b + c + d).to_multiset() == a.to_multiset().add(b.to_multiset()).add(
            c.to_multiset(),
        ).add(d.to_multiset()),
{
    broadcast use group_multiset_axioms;

    lemma_multiset_commutative(a, b);
    lemma_multiset_commutative(a + b, c);
    lemma_multiset_commutative(a + b + c, d);
}

/// Mapping a function over a concatenation maps it over each part.
proof fn lemma_map_values_concat<T>(x: Seq<(usize, T)>, y: Seq<(usize, T)>)
    ensures
        visit_values(x + y) == visit_values(x) + visit_values(y),
{
    assert(visit_values(x + y) =~= visit_values(x) + visit_values(y));
}

/// A traversal visits exactly the stored values: dropping the depths from
/// the visit sequence gives the value sequence, whatever base depth the
/// traversal starts from.
pub proof fn lemma_visits_are_values<T>(n: QTInner<T>, d: int)
    ensures
        visit_values(node_visits(n, d)) == node_values(n),
    decreases n,
{
    match n {
        QTInner::Empty => {
            assert(visit_values(node_visits(n, d)) =~= node_values(n));
        },
        QTInner::Value(sd) => {
            assert(visit_values(node_visits(n, d)) =~= node_values(n));
        },
        QTInner::Subdivision(q) => {
            let a = node_visits(q.nw, d + 1);
            let b = node_visits(q.ne, d + 1);
            let c = node_visits(q.sw, d + 1);
            let e = node_visits(q.se, d + 1);
            lemma_visits_are_values(q.nw, d + 1);
            lemma_visits_are_values(q.ne, d + 1);
            lemma_visits_are_values(q.sw, d + 1);
            lemma_visits_are_values(q.se, d + 1);
            lemma_map_values_concat(a, b);
            lemma_map_values_concat(a + b, c);
            lemma_map_values_concat(a + b + c, e);
        },
    }
}

/// A successful insertion changes the stored values by exactly one copy of
/// the inserted value: together with `lemma_visits_are_values` and the
/// contract of `traverse`, a traversal after any sequence of insertions
/// visits exactly the multiset of the values that were inserted, each once.
pub proof fn lemma_insert_adds_value<T>(
    n0: QTInner<T>,
    r: Region,
    sd: SpatialData<T>,
    n1: QTInner<T>,
    k: nat,
)
    requires
        inserted(n0, r, sd, n1, k),
    ensures
        node_values(n1).to_multiset() == node_values(n0).to_multiset().insert(sd.data),
    decreases r.fuel,
{
    broadcast use group_multiset_axioms;

    match n0 {
        QTInner::Empty => {
            lemma_to_multiset_empty::<T>();
            lemma_to_multiset_singleton(sd.data);
        },
        QTInner::Value(ex) => {
            let q1 = n1->Subdivision_0;
            let qe = quadrant_of(ex.position, r);
            let qn = quadrant_of(sd.position, r);
            lemma_concat4_multiset(
                node_values(q1.nw),
                node_values(q1.ne),
                node_values(q1.sw),
                node_values(q1.se),
            );
            lemma_to_multiset_empty::<T>();
            lemma_to_multiset_singleton(ex.data);
            lemma_to_multiset_singleton(sd.data);
            if qe != qn {
                assert(node_values(n1).to_multiset() =~= node_values(n0).to_multiset().insert(
                    sd.data,
                ));
            } else {
                lemma_insert_adds_value(
                    QTInner::Value(ex),
                    child_region_of(r, qe),
                    sd,
                    quad_child(*q1, qe),
                    (k - 1) as nat,
                );
                assert(node_values(n1).to_multiset() =~= node_values(n0).to_multiset().insert(
                    sd.data,
                ));
            }
        },
        QTInner::Subdivision(q0) => {
            let q1 = n1->Subdivision_0;
            let qn = quadrant_of(sd.position, r);
            lemma_concat4_multiset(
                node_values(q0.nw),
                node_values(q0.ne),
                node_values(q0.sw),
                node_values(q0.se),
            );
            lemma_concat4_multiset(
                node_values(q1.nw),
                node_values(q1.ne),
                node_values(q1.sw),
                node_values(q1.se),
            );
            lemma_insert_adds_value(
                quad_child(*q0, qn),
                child_region_of(r, qn),
                sd,
                quad_child(*q1, qn),
                k,
            );
            assert(node_values(n1).to_multiset() =~= node_values(n0).to_multiset().insert(
                sd.data,
            ));
        },
    }
}

/// A successful `Quadtree::insert` changes the tree's stored values by
/// exactly one copy of the inserted value, counting duplicates; failed
/// insertions change nothing. Together with the contract of `traverse`,
/// a traversal after any sequence of insertions visits exactly the
/// multiset of the successfully inserted values, each exactly once.
pub proof fn lemma_tree_insert_adds_value<T>(
    t0: Quadtree<T>,
    sd: SpatialData<T>,
    t1: Quadtree<T>,
    k: nat,
)
    requires
        inserted(t0.root, Region::root_spec(), sd, t1.root, k),
    ensures
        (t1.values().to_multiset() == t0.values().to_multiset().insert(sd.data)),
        (visit_values(t1.visits()).to_multiset() == visit_values(t0.visits()).to_multiset().insert(
            sd.data,
        )),
{
    lemma_insert_adds_value(t0.root, Region::root_spec(), sd, t1.root, k);
    lemma_visits_are_values(t0.root, 0);
    lemma_visits_are_values(t1.root, 0);
}

/// Traversal is deterministic: its result is a function of the tree alone,
/// so two traversals of the same tree, with no mutation between them, visit
/// the same values in the same order.
pub proof fn lemma_traverse_deterministic<T>(t: Quadtree<T>, a: Seq<(usize, T)>, b: Seq<(usize, T)>)
    requires
        a == t.visits(),
        b == t.visits(),
    ensures
        a == b,
{
}

/// Every depth reported below a node lies between the node's own depth and
/// that depth plus the node's height, and a value stored directly at the
/// node is reported exactly at the node's depth.
pub proof fn lemma_depth_bounds<T>(n: QTInner<T>, d: int)
    requires
        0 <= d,
        d + node_height(n) <= usize::MAX,
    ensures
        forall|i: int|
            0 <= i < node_visits(n, d).len() ==> d <= #[trigger] node_visits(n, d)[i].0
                <= d + node_height(n),
    decreases n,
{
    match n {
        QTInner::Empty => {},
        QTInner::Value(sd) => {},
        QTInner::Subdivision(q) => {
            lemma_depth_bounds(q.nw, d + 1);
            lemma_depth_bounds(q.ne, d + 1);
            lemma_depth_bounds(q.sw, d + 1);
            lemma_depth_bounds(q.se, d + 1);
            let a = node_visits(q.nw, d + 1);
            let b = node_visits(q.ne, d + 1);
            let c = node_visits(q.sw, d + 1);
            let e = node_visits(q.se, d + 1);
            let s = node_visits(n, d);
            assert forall|i: int| 0 <= i < s.len() implies d <= #[trigger] s[i].0 <= d
                + node_height(n) by {
                if i < a.len() {
                    assert(s[i] == a[i]);
                } else if i < a.len() + b.len() {
                    assert(s[i] == b[i - a.len()]);
                } else if i < a.len() + b.len() + c.len() {
                    assert(s[i] == c[i - a.len() - b.len()]);
                } else {
                    assert(s[i] == e[i - a.len() - b.len() - c.len()]);
                }
            }
        },
    }
}

/// Crossing one subdivision level raises every reported depth by exactly
/// one: the visit sequence from base depth `d + 1` is the visit sequence
/// from base depth `d` with every depth one higher, values unchanged.
pub proof fn lemma_depth_shift<T>(n: QTInner<T>, d: int)
    requires
        0 <= d,
        d + 1 + node_height(n) <= usize::MAX,
    ensures
        node_visits(n, d + 1).len() == node_visits(n, d).len(),
        forall|i: int|
            0 <= i < node_visits(n, d).len() ==> #[trigger] node_visits(n, d + 1)[i] == ((
            node_visits(n, d)[i].0 + 1) as usize, node_visits(n, d)[i].1),
    decreases n,
{
    match n {
        QTInner::Empty => {},
        QTInner::Value(sd) => {},
        QTInner::Subdivision(q) => {
            lemma_depth_shift(q.nw, d + 1);
            lemma_depth_shift(q.ne, d + 1);
            lemma_depth_shift(q.sw, d + 1);
            lemma_depth_shift(q.se, d + 1);
            lemma_depth_bounds(q.nw, d + 1);
            lemma_depth_bounds(q.ne, d + 1);
            lemma_depth_bounds(q.sw, d + 1);
            lemma_depth_bounds(q.se, d + 1);
        },
    }
}

/// Inserting into a vacant root yields exactly one leaf at the root,
/// reported at depth 0, with no block allocated.
pub proof fn lemma_first_insert<T>(r: Region, sd: SpatialData<T>, n1: QTInner<T>, k: nat)
    requires
        inserted(QTInner::<T>::Empty, r, sd, n1, k),
    ensures
        (n1 == QTInner::Value(sd)),
        k == 0,
        (node_visits(n1, 0) == seq![(0usize, sd.data)]),
{
}

/// Two values whose positions classify into different quadrants of the
/// region split a leaf into exactly one subdivision holding both as direct
/// leaves in their own quadrants, at the cost of exactly one block.
pub proof fn lemma_opposite_sides_split<T>(
    ex: SpatialData<T>,
    sd: SpatialData<T>,
    r: Region,
    n1: QTInner<T>,
    k: nat,
)
    requires
        r.fuel >= 1,
        quadrant_of(ex.position, r) != quadrant_of(sd.position, r),
        inserted(QTInner::Value(ex), r, sd, n1, k),
    ensures
        k == 1,
        n1 is Subdivision,
        (quad_child(*n1->Subdivision_0, quadrant_of(ex.position, r)) == QTInner::Value(ex)),
        (quad_child(*n1->Subdivision_0, quadrant_of(sd.position, r)) == QTInner::Value(sd)),
        forall|qd: Quadrant|
            qd != quadrant_of(ex.position, r) && qd != quadrant_of(sd.position, r)
                ==> #[trigger] quad_child(*n1->Subdivision_0, qd) == QTInner::<T>::Empty,
{
    let q1 = n1->Subdivision_0;
    let qe = quadrant_of(ex.position, r);
    let qn = quadrant_of(sd.position, r);
    assert forall|qd: Quadrant| qd != qe && qd != qn implies #[trigger] quad_child(*q1, qd)
        == QTInner::<T>::Empty by {
        match qd {
            Quadrant::Nw => {},
            Quadrant::Ne => {},
            Quadrant::Sw => {},
            Quadrant::Se => {},
        }
    }
    match qe {
        Quadrant::Nw => {},
        Quadrant::Ne => {},
        Quadrant::Sw => {},
        Quadrant::Se => {},
    }
}

/// The half-extent a descent from the root still has when `f` units of
/// subdivision fuel are left.
pub open spec fn half_at(f: nat) -> nat {
    if f >= 2 {
        pow2((f - 2) as nat)
    } else {
        0
    }
}

/// The per-axis picture of a descent from the root with `f` units of fuel
/// left: both coordinates lie in the same interval of width `2^f` centered
/// at `c`, and the region's half-extent matches the fuel. At fuel 0 the
/// interval is a single coordinate, so the two must be equal.
pub open spec fn axis_inv(c: int, h: int, f: nat, x1: int, x2: int) -> bool {
    if f == 0 {
        x1 == x2
    } else {
        &&& h == half_at(f)
        &&& c - pow2((f - 1) as nat) <= x1 < c + pow2((f - 1) as nat)
        &&& c - pow2((f - 1) as nat) <= x2 < c + pow2((f - 1) as nat)
    }
}

/// One subdivision step on one axis: two coordinates on the same side of
/// the center stay together inside the child's halved interval.
proof fn lemma_axis_step(c: int, h: int, f: nat, x1: int, x2: int, low: bool)
    requires
        f >= 1,
        axis_inv(c, h, f, x1, x2),
        low ==> x1 < c && x2 < c,
        !low ==> x1 >= c && x2 >= c,
    ensures
        axis_inv(if low { c - h } else { c + h }, h / 2, (f - 1) as nat, x1, x2),
{
    lemma2_to64();
    if f >= 2 {
        lemma_pow2_unfold((f - 1) as nat);
        if f >= 3 {
            lemma_pow2_unfold((f - 2) as nat);
        }
    }
}

/// Two distinct positions always classify apart before a well-formed
/// descent runs out of fuel, so a leaf collision between distinct
/// positions is always resolved by a finite chain of subdivisions;
/// `lemma_coincident_exhausts` is the converse.
pub proof fn lemma_distinct_positions_separate<T>(ex: SpatialData<T>, sd: SpatialData<T>, r: Region)
    requires
        ex.position != sd.position,
        r.wf(),
        axis_inv(r.cx as int, r.half as int, r.fuel as nat, ex.position.x as int, sd.position.x as int),
        axis_inv(r.cy as int, r.half as int, r.fuel as nat, ex.position.y as int, sd.position.y as int),
    ensures
        blocks_needed(QTInner::Value(ex), r, sd) is Some,
    decreases r.fuel,
{
    if r.fuel == 0 {
        assert(ex.position.x == sd.position.x);
        assert(ex.position.y == sd.position.y);
        assert(false);
    } else {
        let qe = quadrant_of(ex.position, r);
        let qn = quadrant_of(sd.position, r);
        if qe == qn {
            let low_x = ex.position.x < r.cx;
            let low_y = ex.position.y < r.cy;
            lemma_axis_step(
                r.cx as int,
                r.half as int,
                r.fuel as nat,
                ex.position.x as int,
                sd.position.x as int,
                low_x,
            );
            lemma_axis_step(
                r.cy as int,
                r.half as int,
                r.fuel as nat,
                ex.position.y as int,
                sd.position.y as int,
                low_y,
            );
            crate::geometry::lemma_child_region_wf(r, qe);
            lemma_distinct_positions_separate(ex, sd, child_region_of(r, qe));
        }
    }
}

/// At the root region the axis invariants hold for every pair of
/// positions, so any two distinct positions can always be separated: only
/// exactly coincident positions are ever rejected for depth.
pub proof fn lemma_root_distinct_separate<T>(ex: SpatialData<T>, sd: SpatialData<T>)
    requires
        ex.position != sd.position,
    ensures
        blocks_needed(QTInner::Value(ex), Region::root_spec(), sd) is Some,
{
    lemma2_to64();
    lemma_distinct_positions_separate(ex, sd, Region::root_spec());
}

/// Two exactly coincident positions never classify into different
/// quadrants, so the chain of subdivisions below a collided leaf consumes
/// all fuel: insertion reports exhaustion instead of subdividing forever.
pub proof fn lemma_coincident_exhausts<T>(ex: SpatialData<T>, sd: SpatialData<T>, r: Region)
    requires
        ex.position == sd.position,
    ensures
        blocks_needed(QTInner::Value(ex), r, sd) is None,
    decreases r.fuel,
{
    if r.fuel > 0 {
        lemma_coincident_exhausts(ex, sd, child_region_of(r, quadrant_of(ex.position, r)));
    }
}

} // verus!

