//! The allocation strategy that backs internal-node storage.
//!
//! Every `Leaf -> Internal` conversion needs one contiguous four-slot block
//! for the new children. The strategy is the bookkeeper of those blocks: it
//! records how many were granted, enforces an optional bound, and carries the
//! teardown discipline the tree was built for. A bounded strategy may refuse
//! a block, and that refusal is surfaced to the insertion caller as an
//! allocation failure rather than a silently dropped value.

use vstd::prelude::*;

verus! {

/// How the backing memory of the tree is organised, which decides the
/// teardown discipline that is safe for it.
#[derive(Clone, Copy, PartialEq, Eq, Structural, Debug)]
pub enum StorageKind {
    /// Every four-slot block is an independent heap allocation, freed one by
    /// one during a structured release.
    GeneralPurpose,
    /// Blocks are carved from a monotonically growing region that is
    /// released as a single unit.
    Arena,
}

/// Why an insertion did not complete.
#[derive(Clone, Copy, PartialEq, Eq, Structural, Debug)]
pub enum InsertError {
    /// The strategy could not supply a four-slot block: its bound was
    /// reached.
    AllocFailure,
    /// Subdivision ran out of fuel: only exactly coincident positions can
    /// exhaust the root's fuel, and no further split could separate them.
    DepthExhausted,
}

/// The bookkeeper of four-slot block grants.
#[derive(Clone, Copy, PartialEq, Eq, Structural, Debug)]
pub struct AllocStrategy {
    pub kind: StorageKind,
    /// Blocks granted so far over the strategy's lifetime.
    pub granted: usize,
    /// `usize::MAX` means unbounded; any other value is the largest number
    /// of blocks the strategy will ever grant.
    pub limit: usize,
}

impl AllocStrategy {
    /// `k` more blocks can still be granted.
    pub open spec fn allows(self, k: nat) -> bool {
        self.granted + k <= self.limit
    }

    /// The books balance: never more granted than the bound.
    pub open spec fn wf(self) -> bool {
        self.granted <= self.limit
    }

    /// An unbounded general-purpose strategy: blocks are independent heap
    /// allocations and never run out.
    pub fn general() -> (s: AllocStrategy)
        ensures
            s.kind == StorageKind::GeneralPurpose,
            s.granted == 0,
            s.limit == usize::MAX,
    {
        AllocStrategy { kind: StorageKind::GeneralPurpose, granted: 0, limit: usize::MAX }
    }

    /// A general-purpose strategy that grants at most `max_blocks` blocks
    /// and then fails, the way a bounded allocator reports exhaustion.
    pub fn bounded(max_blocks: usize) -> (s: AllocStrategy)
        ensures
            s.kind == StorageKind::GeneralPurpose,
            s.granted == 0,
            s.limit == max_blocks,
    {
        AllocStrategy { kind: StorageKind::GeneralPurpose, granted: 0, limit: max_blocks }
    }

    /// An arena strategy: the region grows as needed, so grants never fail,
    /// and the whole region may be released in bulk.
    pub fn arena() -> (s: AllocStrategy)
        ensures
            s.kind == StorageKind::Arena,
            s.granted == 0,
            s.limit == usize::MAX,
    {
        AllocStrategy { kind: StorageKind::Arena, granted: 0, limit: usize::MAX }
    }

    /// Ask for one four-slot block; `true` means it was granted and
    /// recorded.
    pub fn grant(&mut self) -> (ok: bool)
        ensures
            ok <==> old(self).allows(1),
            ok ==> final(self).granted == old(self).granted + 1,
            !ok ==> final(self).granted == old(self).granted,
            final(self).kind == old(self).kind,
            final(self).limit == old(self).limit,
    {
        if self.granted < self.limit {
            self.granted = self.granted + 1;
            true
        } else {
            false
        }
    }
}

} // verus!
