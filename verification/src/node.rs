//! The recursive unit of the tree and its two operations: insertion, which
//! subdivides quadrants on demand, and depth-first traversal.
//!
//! The contracts are stated against three recursive specifications:
//! `node_visits` (the exact depth-annotated visit sequence of a traversal),
//! `blocks_needed` (how many four-slot blocks an insertion must be granted,
//! or `None` when subdivision fuel would run out), and `inserted` (the exact
//! structural relation between the tree before and after a successful
//! insertion).

use vstd::prelude::*;

use crate::geometry::{child_region_of, child_region, classify, quadrant_of, Position, Quadrant, Region};
use crate::strategy::{AllocStrategy, InsertError};

verus! {

/// A value tagged with the position that routes it through the tree.
#[derive(Clone, Copy, Debug)]
pub struct SpatialData<T> {
    pub data: T,
    pub position: Position,
}

/// The four owned children of an internal node, in traversal order.
#[derive(Debug)]
pub struct Quad<T> {
    pub nw: QTInner<T>,
    pub ne: QTInner<T>,
    pub sw: QTInner<T>,
    pub se: QTInner<T>,
}

/// A node of the quadtree: vacant, a single stored value, or a subdivision
/// into exactly four owned children.
#[derive(Debug)]
pub enum QTInner<T> {
    Empty,
    Value(SpatialData<T>),
    Subdivision(Box<Quad<T>>),
}

/// The child of `q` in quadrant `qd`.
pub open spec fn quad_child<T>(q: Quad<T>, qd: Quadrant) -> QTInner<T> {
    match qd {
        Quadrant::Nw => q.nw,
        Quadrant::Ne => q.ne,
        Quadrant::Sw => q.sw,
        Quadrant::Se => q.se,
    }
}

/// The exact visit sequence of a traversal rooted at `n` whose root is
/// reported at depth `depth`: every stored value in traversal order
/// (NW, NE, SW, SE at each subdivision), paired with the number of
/// subdivision levels above it.
pub open spec fn node_visits<T>(n: QTInner<T>, depth: int) -> Seq<(usize, T)>
    decreases n,
{
    match n {
        QTInner::Empty => Seq::empty(),
        QTInner::Value(sd) => seq![(depth as usize, sd.data)],
        QTInner::Subdivision(q) => node_visits(q.nw, depth + 1) + node_visits(q.ne, depth + 1)
            + node_visits(q.sw, depth + 1) + node_visits(q.se, depth + 1),
    }
}

/// The stored values below `n`, in traversal order.
pub open spec fn node_values<T>(n: QTInner<T>) -> Seq<T>
    decreases n,
{
    match n {
        QTInner::Empty => Seq::empty(),
        QTInner::Value(sd) => seq![sd.data],
        QTInner::Subdivision(q) => node_values(q.nw) + node_values(q.ne) + node_values(q.sw)
            + node_values(q.se),
    }
}

/// The larger of two naturals.
pub open spec fn nat_max(a: nat, b: nat) -> nat {
    if a >= b {
        a
    } else {
        b
    }
}

/// Number of subdivision levels below `n`.
pub open spec fn node_height<T>(n: QTInner<T>) -> nat
    decreases n,
{
    match n {
        QTInner::Empty => 0,
        QTInner::Value(_) => 0,
        QTInner::Subdivision(q) => 1 + nat_max(
            nat_max(node_height(q.nw), node_height(q.ne)),
            nat_max(node_height(q.sw), node_height(q.se)),
        ),
    }
}

/// How many four-slot blocks inserting `sd` into `n` (which covers region
/// `r`) must be granted, or `None` when the required chain of subdivisions
/// would exhaust the region's fuel.
pub open spec fn blocks_needed<T>(n: QTInner<T>, r: Region, sd: SpatialData<T>) -> Option<nat>
    decreases r.fuel,
{
    match n {
        QTInner::Empty => Some(0),
        QTInner::Value(ex) => if r.fuel == 0 {
            None
        } else {
            if quadrant_of(ex.position, r) != quadrant_of(sd.position, r) {
                Some(1)
            } else {
                match blocks_needed(
                    QTInner::Value(ex),
                    child_region_of(r, quadrant_of(ex.position, r)),
                    sd,
                ) {
                    Option::Some(k) => Some(k + 1),
                    Option::None => None,
                }
            }
        },
        QTInner::Subdivision(q) => if r.fuel == 0 {
            None
        } else {
            blocks_needed(
                quad_child(*q, quadrant_of(sd.position, r)),
                child_region_of(r, quadrant_of(sd.position, r)),
                sd,
            )
        },
    }
}

/// The strategy `s` can still grant every block that inserting `sd` into
/// `n` needs.
pub open spec fn can_insert<T>(n: QTInner<T>, r: Region, sd: SpatialData<T>, s: AllocStrategy) -> bool {
    match blocks_needed(n, r, sd) {
        Option::Some(k) => s.allows(k),
        Option::None => false,
    }
}

/// `n1` is exactly the tree obtained by inserting `sd` into `n0` over
/// region `r`, consuming `k` four-slot blocks:
/// - into a vacant node, the value settles as a leaf and nothing is
///   allocated;
/// - into a leaf, one block is allocated, the displaced value is placed in
///   its own sub-quadrant, and the new value either lands in a sibling
///   quadrant or the collision repeats one level deeper;
/// - into a subdivision, exactly the child selected by the classification
///   rule changes.
pub open spec fn inserted<T>(n0: QTInner<T>, r: Region, sd: SpatialData<T>, n1: QTInner<T>, k: nat) -> bool
    decreases r.fuel,
{
    match n0 {
        QTInner::Empty => n1 == QTInner::Value(sd) && k == 0,
        QTInner::Value(ex) => {
            &&& r.fuel >= 1
            &&& k >= 1
            &&& n1 matches QTInner::Subdivision(q1)
            &&& ({
                let qe = quadrant_of(ex.position, r);
                let qn = quadrant_of(sd.position, r);
                if qe != qn {
                    &&& k == 1
                    &&& q1.nw == expected_split_child::<T>(Quadrant::Nw, qe, qn, ex, sd)
                    &&& q1.ne == expected_split_child::<T>(Quadrant::Ne, qe, qn, ex, sd)
                    &&& q1.sw == expected_split_child::<T>(Quadrant::Sw, qe, qn, ex, sd)
                    &&& q1.se == expected_split_child::<T>(Quadrant::Se, qe, qn, ex, sd)
                } else {
                    &&& (Quadrant::Nw != qe ==> q1.nw == QTInner::<T>::Empty)
                    &&& (Quadrant::Ne != qe ==> q1.ne == QTInner::<T>::Empty)
                    &&& (Quadrant::Sw != qe ==> q1.sw == QTInner::<T>::Empty)
                    &&& (Quadrant::Se != qe ==> q1.se == QTInner::<T>::Empty)
                    &&& inserted(
                        QTInner::Value(ex),
                        child_region_of(r, qe),
                        sd,
                        quad_child(*q1, qe),
                        (k - 1) as nat,
                    )
                }
            })
        },
        QTInner::Subdivision(q0) => {
            &&& r.fuel >= 1
            &&& n1 matches QTInner::Subdivision(q1)
            &&& ({
                let qn = quadrant_of(sd.position, r);
                &&& (Quadrant::Nw != qn ==> q1.nw == q0.nw)
                &&& (Quadrant::Ne != qn ==> q1.ne == q0.ne)
                &&& (Quadrant::Sw != qn ==> q1.sw == q0.sw)
                &&& (Quadrant::Se != qn ==> q1.se == q0.se)
                &&& inserted(
                    quad_child(*q0, qn),
                    child_region_of(r, qn),
                    sd,
                    quad_child(*q1, qn),
                    k,
                )
            })
        },
    }
}

/// What a leaf split leaves in quadrant `qd` when the displaced value goes
/// to `qe` and the new value to a different `qn`.
pub open spec fn expected_split_child<T>(
    qd: Quadrant,
    qe: Quadrant,
    qn: Quadrant,
    ex: SpatialData<T>,
    sd: SpatialData<T>,
) -> QTInner<T> {
    if qd == qe {
        QTInner::Value(ex)
    } else if qd == qn {
        QTInner::Value(sd)
    } else {
        QTInner::Empty
    }
}

impl<T> QTInner<T> {
    /// Insert `value` into this node, which covers region `region`,
    /// requesting four-slot blocks from `strategy` for every leaf split.
    ///
    /// Returns the updated node together with `Ok` exactly when the
    /// strategy could grant every block the insertion needed; on failure
    /// the stored values are unchanged (though collided values may sit
    /// deeper) and the rejected value is reported, not silently dropped.
    pub fn _insert(self, region: &Region, value: SpatialData<T>, strategy: &mut AllocStrategy) -> (res: (
        QTInner<T>,
        Result<(), InsertError>,
    ))
        requires
            region.wf(),
            old(strategy).wf(),
        ensures
            final(strategy).wf(),
            final(strategy).kind == old(strategy).kind,
            final(strategy).limit == old(strategy).limit,
            final(strategy).granted >= old(strategy).granted,
            res.1 is Ok <==> can_insert(self, *region, value, *old(strategy)),
            res.1 is Ok ==> blocks_needed(self, *region, value) == Some(
                (final(strategy).granted - old(strategy).granted) as nat,
            ),
            res.1 is Ok ==> inserted(
                self,
                *region,
                value,
                res.0,
                (final(strategy).granted - old(strategy).granted) as nat,
            ),
            res.1 is Err ==> node_values(res.0) == node_values(self),
            res.1 == Result::<(), InsertError>::Err(InsertError::DepthExhausted) ==> blocks_needed(
                self,
                *region,
                value,
            ) is None,
            res.1 == Result::<(), InsertError>::Err(InsertError::AllocFailure)
                ==> final(strategy).granted == final(strategy).limit,
        decreases region.fuel,
    {
        match self {
            QTInner::Empty => (QTInner::Value(value), Ok(())),
            QTInner::Value(ex) => {
                if region.fuel == 0 {
                    return (QTInner::Value(ex), Err(InsertError::DepthExhausted));
                }
                if !strategy.grant() {
                    return (QTInner::Value(ex), Err(InsertError::AllocFailure));
                }
                let qe = classify(ex.position, region);
                let qn = classify(value.position, region);
                if qe == qn {
                    let cr = child_region(region, qe);
                    let (child, st) = QTInner::Value(ex)._insert(&cr, value, strategy);
                    let quad = match qe {
                        Quadrant::Nw => Quad {
                            nw: child,
                            ne: QTInner::Empty,
                            sw: QTInner::Empty,
                            se: QTInner::Empty,
                        },
                        Quadrant::Ne => Quad {
                            nw: QTInner::Empty,
                            ne: child,
                            sw: QTInner::Empty,
                            se: QTInner::Empty,
                        },
                        Quadrant::Sw => Quad {
                            nw: QTInner::Empty,
                            ne: QTInner::Empty,
                            sw: child,
                            se: QTInner::Empty,
                        },
                        Quadrant::Se => Quad {
                            nw: QTInner::Empty,
                            ne: QTInner::Empty,
                            sw: QTInner::Empty,
                            se: child,
                        },
                    };
                    let bq = Box::new(quad);
                    proof {
                        if st is Err {
                            assert(node_values(QTInner::Subdivision(bq)) == node_values(quad.nw)
                                + node_values(quad.ne) + node_values(quad.sw)
                                + node_values(quad.se));
                            assert(node_values(quad.nw) + node_values(quad.ne)
                                + node_values(quad.sw) + node_values(quad.se)
                                =~= node_values(QTInner::Value(ex)));
                        }
                    }
                    (QTInner::Subdivision(bq), st)
                } else {
                    let quad = match qe {
                        Quadrant::Nw => Quad {
                            nw: QTInner::Value(ex),
                            ne: QTInner::Empty,
                            sw: QTInner::Empty,
                            se: QTInner::Empty,
                        },
                        Quadrant::Ne => Quad {
                            nw: QTInner::Empty,
                            ne: QTInner::Value(ex),
                            sw: QTInner::Empty,
                            se: QTInner::Empty,
                        },
                        Quadrant::Sw => Quad {
                            nw: QTInner::Empty,
                            ne: QTInner::Empty,
                            sw: QTInner::Value(ex),
                            se: QTInner::Empty,
                        },
                        Quadrant::Se => Quad {
                            nw: QTInner::Empty,
                            ne: QTInner::Empty,
                            sw: QTInner::Empty,
                            se: QTInner::Value(ex),
                        },
                    };
                    let quad = match qn {
                        Quadrant::Nw => Quad { nw: QTInner::Value(value), ..quad },
                        Quadrant::Ne => Quad { ne: QTInner::Value(value), ..quad },
                        Quadrant::Sw => Quad { sw: QTInner::Value(value), ..quad },
                        Quadrant::Se => Quad { se: QTInner::Value(value), ..quad },
                    };
                    (QTInner::Subdivision(Box::new(quad)), Ok(()))
                }
            },
            QTInner::Subdivision(b) => {
                if region.fuel == 0 {
                    return (QTInner::Subdivision(b), Err(InsertError::DepthExhausted));
                }
                let q = *b;
                let Quad { nw, ne, sw, se } = q;
                let qn = classify(value.position, region);
                let cr = child_region(region, qn);
                let (quad, st) = match qn {
                    Quadrant::Nw => {
                        let (c, st) = nw._insert(&cr, value, strategy);
                        (Quad { nw: c, ne, sw, se }, st)
                    },
                    Quadrant::Ne => {
                        let (c, st) = ne._insert(&cr, value, strategy);
                        (Quad { nw, ne: c, sw, se }, st)
                    },
                    Quadrant::Sw => {
                        let (c, st) = sw._insert(&cr, value, strategy);
                        (Quad { nw, ne, sw: c, se }, st)
                    },
                    Quadrant::Se => {
                        let (c, st) = se._insert(&cr, value, strategy);
                        (Quad { nw, ne, sw, se: c }, st)
                    },
                };
                (QTInner::Subdivision(Box::new(quad)), st)
            },
        }
    }
}

impl<T: Copy> QTInner<T> {
    /// Depth-first traversal: append to `out` every stored value below this
    /// node in NW, NE, SW, SE order, paired with its depth, `depth` being
    /// the depth reported for a value stored at this node itself.
    pub fn _traverse(&self, depth: usize, out: &mut Vec<(usize, T)>)
        requires
            depth + node_height(*self) <= usize::MAX,
        ensures
            final(out)@ == old(out)@ + node_visits(*self, depth as int),
        decreases *self,
    {
        match self {
            QTInner::Empty => {
                proof {
                    assert(out@ =~= out@ + node_visits(*self, depth as int));
                }
            },
            QTInner::Value(sd) => {
                out.push((depth, sd.data));
                proof {
                    assert(out@ =~= old(out)@ + node_visits(*self, depth as int));
                }
            },
            QTInner::Subdivision(b) => {
                b.nw._traverse(depth + 1, out);
                b.ne._traverse(depth + 1, out);
                b.sw._traverse(depth + 1, out);
                b.se._traverse(depth + 1, out);
                proof {
                    assert(out@ =~= old(out)@ + node_visits(*self, depth as int));
                }
            },
        }
    }
}

} // verus!
