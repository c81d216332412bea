//! Positions, quadrant regions, and the classification rule that routes a
//! position into one of the four sub-quadrants of a region.
//!
//! Coordinates are fixed-point fractions of a unit square: a `u32` coordinate
//! `x` stands for the real number `x / 2^32`, so the whole domain is
//! `[0, 1) x [0, 1)` at a resolution of `2^-32` and every position is finite
//! and totally ordered on each axis.

use vstd::prelude::*;

verus! {

/// A point of the unit square, as fixed-point fractions (`x / 2^32`).
#[derive(Clone, Copy, PartialEq, Eq, Structural, Debug)]
pub struct Position {
    pub x: u32,
    pub y: u32,
}

/// One of the four sub-quadrants of a region, in traversal order.
///
/// `Nw` is low on both axes, `Ne` high on x, `Sw` high on y, `Se` high on
/// both (y grows southward, as in screen coordinates).
#[derive(Clone, Copy, PartialEq, Eq, Structural, Debug)]
pub enum Quadrant {
    Nw,
    Ne,
    Sw,
    Se,
}

/// The square region a node is responsible for, described by its center,
/// the half-extent used to place the centers of its children, and the
/// number of further subdivisions still available below it.
///
/// `fuel` bounds the depth of subdivision: the root starts with enough fuel
/// to split down to single-coordinate cells, where only exactly coincident
/// positions can still collide.
#[derive(Clone, Copy, PartialEq, Eq, Structural, Debug)]
pub struct Region {
    pub cx: u32,
    pub cy: u32,
    pub half: u32,
    pub fuel: u32,
}

/// Center coordinate of the root region (one half, in fixed point).
pub const ROOT_CENTER: u32 = 0x8000_0000;

/// Half-extent of the root region (one quarter, in fixed point).
pub const ROOT_HALF: u32 = 0x4000_0000;

/// Subdivisions available below the root: enough to reach single-coordinate
/// cells, so distinct positions always separate before the fuel runs out.
pub const ROOT_FUEL: u32 = 32;

impl Region {
    /// The center arithmetic stays within `u32` on every descent.
    pub open spec fn wf(self) -> bool {
        &&& 2 * self.half <= self.cx
        &&& self.cx + 2 * self.half <= 0x1_0000_0000
        &&& 2 * self.half <= self.cy
        &&& self.cy + 2 * self.half <= 0x1_0000_0000
    }

    /// The region covering the whole unit square.
    pub open spec fn root_spec() -> Region {
        Region { cx: ROOT_CENTER, cy: ROOT_CENTER, half: ROOT_HALF, fuel: ROOT_FUEL }
    }

    /// The region covering the whole unit square.
    pub fn root() -> (r: Region)
        ensures
            r == Region::root_spec(),
            r.wf(),
    {
        Region { cx: ROOT_CENTER, cy: ROOT_CENTER, half: ROOT_HALF, fuel: ROOT_FUEL }
    }
}

/// Which sub-quadrant of `r` the position `p` belongs to: `<` against the
/// center on each axis independently.
pub open spec fn quadrant_of(p: Position, r: Region) -> Quadrant {
    if p.x < r.cx {
        if p.y < r.cy {
            Quadrant::Nw
        } else {
            Quadrant::Sw
        }
    } else {
        if p.y < r.cy {
            Quadrant::Ne
        } else {
            Quadrant::Se
        }
    }
}

/// The region of sub-quadrant `q` of `r`: the center moves by the
/// half-extent on each axis, the half-extent halves, and one unit of fuel
/// is spent.
pub open spec fn child_region_of(r: Region, q: Quadrant) -> Region {
    Region {
        cx: if q == Quadrant::Nw || q == Quadrant::Sw {
            (r.cx - r.half) as u32
        } else {
            (r.cx + r.half) as u32
        },
        cy: if q == Quadrant::Nw || q == Quadrant::Ne {
            (r.cy - r.half) as u32
        } else {
            (r.cy + r.half) as u32
        },
        half: r.half / 2,
        fuel: (r.fuel - 1) as u32,
    }
}

/// Descending into a child preserves well-formedness.
pub proof fn lemma_child_region_wf(r: Region, q: Quadrant)
    requires
        r.wf(),
        r.fuel >= 1,
    ensures
        child_region_of(r, q).wf(),
{
}

/// Classify `p` against the center of `r`.
pub fn classify(p: Position, r: &Region) -> (q: Quadrant)
    ensures
        q == quadrant_of(p, *r),
{
    if p.x < r.cx {
        if p.y < r.cy {
            Quadrant::Nw
        } else {
            Quadrant::Sw
        }
    } else {
        if p.y < r.cy {
            Quadrant::Ne
        } else {
            Quadrant::Se
        }
    }
}

/// Compute the region of sub-quadrant `q` of `r`.
pub fn child_region(r: &Region, q: Quadrant) -> (c: Region)
    requires
        r.wf(),
        r.fuel >= 1,
    ensures
        c == child_region_of(*r, q),
        c.wf(),
{
    let cx = if matches!(q, Quadrant::Nw | Quadrant::Sw) {
        r.cx - r.half
    } else {
        r.cx + r.half
    };
    let cy = if matches!(q, Quadrant::Nw | Quadrant::Ne) {
        r.cy - r.half
    } else {
        r.cy + r.half
    };
    Region { cx, cy, half: r.half / 2, fuel: r.fuel - 1 }
}

} // verus!
