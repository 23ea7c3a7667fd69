//! Geometry primitives of the arena: points, poses, the point-mirror
//! transform, and the axis-aligned bounding-box overlap test used by the
//! placement queries.
//!
//! All lengths are counted in ticks, a fixed-point unit with
//! [`TICKS_PER_UNIT`] ticks per world unit, so that every collision radius
//! of the shape catalog is a whole number of ticks.

use vstd::prelude::*;

verus! {

/// Fixed-point scale of every coordinate and length: ticks per world unit.
pub const TICKS_PER_UNIT: i64 = 2;

/// Bound on coordinates and rotations, far beyond any realistic arena.
/// It keeps every bounding-box corner and every mirrored pose inside
/// `i64`: this is 2^61, so a coordinate plus a radius cannot overflow.
pub const COORD_LIMIT: i64 = 2_305_843_009_213_693_952;

/// A position-only value, used for scent markers.
#[derive(Clone, Copy, PartialEq, Eq, Structural, Debug)]
pub struct Vector2 {
    pub x: i64,
    pub y: i64,
}

/// Position and heading in the arena, in ticks and fixed-point angle units.
#[derive(Clone, Copy, PartialEq, Eq, Structural, Debug)]
pub struct Pose {
    pub x: i64,
    pub y: i64,
    pub rotation: i64,
}

impl Vector2 {
    /// The coordinates stay within [`COORD_LIMIT`].
    pub open spec fn wf(self) -> bool {
        &&& -COORD_LIMIT <= self.x <= COORD_LIMIT
        &&& -COORD_LIMIT <= self.y <= COORD_LIMIT
    }
}

impl Pose {
    /// The coordinates and the rotation stay within [`COORD_LIMIT`].
    pub open spec fn wf(self) -> bool {
        &&& -COORD_LIMIT <= self.x <= COORD_LIMIT
        &&& -COORD_LIMIT <= self.y <= COORD_LIMIT
        &&& -COORD_LIMIT <= self.rotation <= COORD_LIMIT
    }

    /// The point reflection of a pose through the arena origin: translation
    /// negated, rotation negated.
    pub open spec fn spec_mirror(self) -> Pose {
        Pose {
            x: (-(self.x as int)) as i64,
            y: (-(self.y as int)) as i64,
            rotation: (-(self.rotation as int)) as i64,
        }
    }

    /// The pose at the origin with no rotation.
    pub fn zero() -> (p: Pose)
        ensures
            p == (Pose { x: 0, y: 0, rotation: 0 }),
    {
        Pose { x: 0, y: 0, rotation: 0 }
    }

    /// Point-mirror this pose through the arena origin.
    pub fn mirror(&self) -> (m: Pose)
        requires
            self.wf(),
        ensures
            m == self.spec_mirror(),
            m.wf(),
    {
        Pose { x: -self.x, y: -self.y, rotation: -self.rotation }
    }
}

/// Mirroring is an involution: the translation is negated twice and the
/// rotation is negated twice, so mirroring a pose twice gives it back.
pub proof fn lemma_mirror_involution(p: Pose)
    requires
        p.wf(),
    ensures
        p.spec_mirror().spec_mirror() == p,
{
}

/// The axis-aligned bounding box of the circle of radius `ra` at `a`
/// intersects the box of the circle of radius `rb` at `b`. The boxes are
/// closed, so boxes that merely touch count as intersecting; this is the
/// deliberately conservative broad-phase proxy for a collision.
pub open spec fn aabb_overlap(a: Pose, ra: int, b: Pose, rb: int) -> bool {
    &&& a.x - ra <= b.x + rb
    &&& b.x - rb <= a.x + ra
    &&& a.y - ra <= b.y + rb
    &&& b.y - rb <= a.y + ra
}

/// Decide [`aabb_overlap`] on in-range poses and radii.
pub fn boxes_overlap(a: &Pose, ra: i64, b: &Pose, rb: i64) -> (r: bool)
    requires
        a.wf(),
        b.wf(),
        0 <= ra <= COORD_LIMIT,
        0 <= rb <= COORD_LIMIT,
    ensures
        r == aabb_overlap(*a, ra as int, *b, rb as int),
{
    a.x - ra <= b.x + rb && b.x - rb <= a.x + ra && a.y - ra <= b.y + rb && b.y - rb <= a.y + ra
}

} // verus!
