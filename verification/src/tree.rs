//! The tree: a root node bound to the allocation strategy that backs every
//! subdivision made during its lifetime, with the two teardown disciplines.

use vstd::prelude::*;

use crate::geometry::Region;
use crate::node::{blocks_needed, can_insert, inserted, node_height, node_values, node_visits,
    QTInner, SpatialData};
use crate::strategy::{AllocStrategy, InsertError, StorageKind};

verus! {

/// A quadtree over the fixed-point unit square: a root node plus the
/// strategy that grants storage for every subdivision below it.
#[derive(Debug)]
pub struct Quadtree<T> {
    pub root: QTInner<T>,
    pub storage: AllocStrategy,
}

impl<T> Quadtree<T> {
    /// The strategy's books balance.
    pub open spec fn wf(self) -> bool {
        self.storage.wf()
    }

    /// The depth-annotated visit sequence of a full traversal.
    pub open spec fn visits(self) -> Seq<(usize, T)> {
        node_visits(self.root, 0)
    }

    /// The stored values, in traversal order.
    pub open spec fn values(self) -> Seq<T> {
        node_values(self.root)
    }

    /// An empty tree bound to the given allocation strategy.
    pub fn new_in(alloc: AllocStrategy) -> (t: Quadtree<T>)
        ensures
            (t.root == QTInner::<T>::Empty),
            t.storage == alloc,
            (t.visits() == Seq::<(usize, T)>::empty()),
            (t.values() == Seq::<T>::empty()),
    {
        Quadtree { root: QTInner::Empty, storage: alloc }
    }

    /// An empty tree backed by the unbounded general-purpose strategy.
    pub fn new() -> (t: Quadtree<T>)
        ensures
            (t.root == QTInner::<T>::Empty),
            (t.storage == AllocStrategy {
                kind: StorageKind::GeneralPurpose,
                granted: 0,
                limit: usize::MAX,
            }),
            t.wf(),
            (t.visits() == Seq::<(usize, T)>::empty()),
            (t.values() == Seq::<T>::empty()),
    {
        Quadtree { root: QTInner::Empty, storage: AllocStrategy::general() }
    }

    /// Insert `value` at its position, subdividing from the root region of
    /// the whole unit square.
    ///
    /// Succeeds exactly when the strategy can grant every four-slot block
    /// the insertion needs; then the tree is exactly the old tree with the
    /// value routed in (the `inserted` relation) and the strategy has
    /// granted exactly the blocks that were needed. On failure the stored
    /// values are unchanged and the rejected value is reported to the
    /// caller.
    pub fn insert(&mut self, value: SpatialData<T>) -> (r: Result<(), InsertError>)
        requires
            old(self).wf(),
        ensures
            final(self).wf(),
            final(self).storage.kind == old(self).storage.kind,
            final(self).storage.limit == old(self).storage.limit,
            final(self).storage.granted >= old(self).storage.granted,
            r is Ok <==> can_insert(old(self).root, Region::root_spec(), value, old(self).storage),
            r is Ok ==> blocks_needed(old(self).root, Region::root_spec(), value) == Some(
                (final(self).storage.granted - old(self).storage.granted) as nat,
            ),
            r is Ok ==> inserted(
                old(self).root,
                Region::root_spec(),
                value,
                final(self).root,
                (final(self).storage.granted - old(self).storage.granted) as nat,
            ),
            r is Err ==> final(self).values() == old(self).values(),
            r == Result::<(), InsertError>::Err(InsertError::DepthExhausted) ==> blocks_needed(
                old(self).root,
                Region::root_spec(),
                value,
            ) is None,
            r == Result::<(), InsertError>::Err(InsertError::AllocFailure)
                ==> final(self).storage.granted == final(self).storage.limit,
    {
        let mut root = QTInner::Empty;
        core::mem::swap(&mut root, &mut self.root);
        let rr = Region::root();
        let (root2, st) = root._insert(&rr, value, &mut self.storage);
        self.root = root2;
        st
    }

    /// Structured release: every node of the tree is destroyed
    /// recursively, so each four-slot block is freed individually and every
    /// stored value's own teardown runs exactly once. This is the only
    /// correct discipline for the general-purpose strategy.
    pub fn release(self) {
    }
}

impl<T: Copy> Quadtree<T> {
    /// Full depth-first traversal: every stored value in NW, NE, SW, SE
    /// order at each subdivision, paired with the number of subdivision
    /// levels above it (a value at the root has depth 0). The tree is not
    /// changed, and the result is a function of the tree alone.
    pub fn traverse(&self) -> (out: Vec<(usize, T)>)
        requires
            node_height(self.root) <= usize::MAX,
        ensures
            out@ == self.visits(),
    {
        let mut out: Vec<(usize, T)> = Vec::new();
        self.root._traverse(0, &mut out);
        proof {
            assert(out@ =~= self.visits());
        }
        out
    }

    /// Bulk release: discard the whole node graph and give the arena's
    /// backing region back in one operation, running no per-value teardown.
    ///
    /// This is only offered for arena-backed trees whose value type owns no
    /// external resource (it is `Copy`, so it cannot have teardown logic):
    /// with a resource-owning value type, skipping teardown would be a
    /// correctness hazard, not a performance choice.
    pub fn release_bulk(self)
        requires
            self.storage.kind == StorageKind::Arena,
    {
    }
}

} // verus!
