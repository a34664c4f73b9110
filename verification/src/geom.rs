//! Planar positions in milli-pixels and the play-area rectangle.
//!
//! Distances are compared as squared values, so no square root is needed.
//! Coordinates the simulation produces stay within `WORLD_BOUND`, which
//! keeps every squared distance inside `i64`.
use vstd::prelude::*;

verus! {

/// Left edge of the play area.
pub const AREA_MIN_X: i64 = -200_000;
/// Right edge of the play area.
pub const AREA_MAX_X: i64 = 200_000;
/// Bottom edge of the play area; dust below it is discarded.
pub const AREA_MIN_Y: i64 = -300_000;
/// Top edge of the play area; dust spawns here.
pub const AREA_MAX_Y: i64 = 300_000;

/// Bound on every coordinate the simulation handles; squared distances of
/// such points fit in `i64`.
pub const WORLD_BOUND: i64 = 1_000_000_000;

/// A point of the plane, in milli-pixels.
#[derive(Clone, Copy, PartialEq, Eq, Structural, Debug)]
pub struct Pos {
    pub x: i64,
    pub y: i64,
}

/// Whether both coordinates are within `WORLD_BOUND`.
pub open spec fn in_world(p: Pos) -> bool {
    -WORLD_BOUND <= p.x <= WORLD_BOUND && -WORLD_BOUND <= p.y <= WORLD_BOUND
}

/// Whether the point lies in the play-area rectangle (edges included).
pub open spec fn spec_in_area(p: Pos) -> bool {
    AREA_MIN_X <= p.x <= AREA_MAX_X && AREA_MIN_Y <= p.y <= AREA_MAX_Y
}

/// The squared planar distance between two points.
pub open spec fn spec_dist2(a: Pos, b: Pos) -> int {
    (a.x - b.x) * (a.x - b.x) + (a.y - b.y) * (a.y - b.y)
}

impl Pos {
    pub fn new(x: i64, y: i64) -> (p: Pos)
        ensures
            p.x == x,
            p.y == y,
    {
        Pos { x, y }
    }

    /// Whether the point lies in the play-area rectangle.
    pub fn in_area(&self) -> (r: bool)
        ensures
            r == spec_in_area(*self),
    {
        AREA_MIN_X <= self.x && self.x <= AREA_MAX_X && AREA_MIN_Y <= self.y && self.y <= AREA_MAX_Y
    }

    /// Clamp the point into the play-area rectangle, coordinate by
    /// coordinate.
    pub fn clamp_to_area(&self) -> (r: Pos)
        ensures
            spec_in_area(r),
            r.x == if self.x < AREA_MIN_X { AREA_MIN_X as int } else if self.x > AREA_MAX_X { AREA_MAX_X as int } else { self.x as int },
            r.y == if self.y < AREA_MIN_Y { AREA_MIN_Y as int } else if self.y > AREA_MAX_Y { AREA_MAX_Y as int } else { self.y as int },
            spec_in_area(*self) ==> r == *self,
    {
        let x = if self.x < AREA_MIN_X {
            AREA_MIN_X
        } else if self.x > AREA_MAX_X {
            AREA_MAX_X
        } else {
            self.x
        };
        let y = if self.y < AREA_MIN_Y {
            AREA_MIN_Y
        } else if self.y > AREA_MAX_Y {
            AREA_MAX_Y
        } else {
            self.y
        };
        Pos { x, y }
    }
}

/// The squared distance between two in-world points.
pub fn dist2(a: Pos, b: Pos) -> (r: i64)
    requires
        in_world(a),
        in_world(b),
    ensures
        r == spec_dist2(a, b),
        r >= 0,
{
    let dx = a.x - b.x;
    let dy = a.y - b.y;
    proof {
        assert(dx * dx + dy * dy <= 0x7fff_ffff_ffff_ffff && dx * dx >= 0 && dy * dy >= 0)
            by (nonlinear_arith)
            requires
                -2_000_000_000 <= dx <= 2_000_000_000,
                -2_000_000_000 <= dy <= 2_000_000_000,
        ;
    }
    dx * dx + dy * dy
}

} // verus!
