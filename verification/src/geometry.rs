//! Geometry primitives: vectors, poses, shapes, and the overlap of two
//! axis-aligned boxes.

use vstd::prelude::*;

verus! {

/// How many units of length make one pixel. Lengths are whole numbers of
/// thousandths of a pixel; speeds are such units per second.
pub const UNITS_PER_PIXEL: i32 = 1000;

/// A point or a displacement in the plane.
#[derive(Clone, Copy, Debug, PartialEq, Eq, Structural)]
pub struct Vector2 {
    pub x: i32,
    pub y: i32,
}

/// The pose of a body. Boxes never rotate, so a pose is a position.
#[derive(Clone, Copy, Debug, PartialEq, Eq, Structural)]
pub struct Transform2 {
    pub position: Vector2,
}

/// The outline of a body.
///
/// Every body is tested as an axis-aligned box. A ball stands for the square
/// box that bounds it.
#[derive(Clone, Copy, Debug, PartialEq, Eq, Structural)]
pub enum Shape {
    Box { half_extent: Vector2 },
    Ball { radius: i32 },
}

/// The absolute value of an integer.
pub open spec fn abs(v: int) -> int {
    if v < 0 {
        -v
    } else {
        v
    }
}

/// The nearest value to `v` that a coordinate can hold.
pub open spec fn clamp_coord(v: int) -> int {
    if v < i32::MIN {
        i32::MIN as int
    } else if v > i32::MAX {
        i32::MAX as int
    } else {
        v
    }
}

/// How far two intervals reach into each other along one axis: the sum of
/// their half lengths minus the distance of their centers. It is positive
/// exactly when the open intervals meet.
pub open spec fn penetration(center_a: int, half_a: int, center_b: int, half_b: int) -> int {
    half_a + half_b - abs(center_a - center_b)
}

/// The length of the stretch that two intervals share along one axis
/// (negative when they are apart).
pub open spec fn shared_width(center_a: int, half_a: int, center_b: int, half_b: int) -> int {
    let hi = if center_a + half_a <= center_b + half_b {
        center_a + half_a
    } else {
        center_b + half_b
    };
    let lo = if center_a - half_a >= center_b - half_b {
        center_a - half_a
    } else {
        center_b - half_b
    };
    hi - lo
}

/// Two boxes overlap when they reach into each other along both axes.
pub open spec fn boxes_overlap(pa: Vector2, ha: Vector2, pb: Vector2, hb: Vector2) -> bool {
    &&& penetration(pa.x as int, ha.x as int, pb.x as int, hb.x as int) > 0
    &&& penetration(pa.y as int, ha.y as int, pb.y as int, hb.y as int) > 0
}

impl Vector2 {
    pub fn new(x: i32, y: i32) -> (v: Vector2)
        ensures
            v.x == x,
            v.y == y,
    {
        Vector2 { x, y }
    }
}

impl Transform2 {
    pub fn new(position: Vector2) -> (t: Transform2)
        ensures
            t.position == position,
    {
        Transform2 { position }
    }
}

impl Shape {
    /// The half-extent of the box that the shape is tested as.
    pub open spec fn spec_half_extent(self) -> Vector2 {
        match self {
            Shape::Box { half_extent } => half_extent,
            Shape::Ball { radius } => Vector2 { x: radius, y: radius },
        }
    }

    /// A shape is valid when its box has positive size along both axes.
    pub open spec fn valid(self) -> bool {
        self.spec_half_extent().x > 0 && self.spec_half_extent().y > 0
    }

    #[verifier::when_used_as_spec(spec_half_extent)]
    pub fn half_extent(self) -> (h: Vector2)
        ensures
            h == self.spec_half_extent(),
    {
        match self {
            Shape::Box { half_extent } => half_extent,
            Shape::Ball { radius } => Vector2 { x: radius, y: radius },
        }
    }

    pub fn is_valid(self) -> (ok: bool)
        ensures
            ok == self.valid(),
    {
        let h = self.half_extent();
        h.x > 0 && h.y > 0
    }
}

/// A length of whole pixels in units.
pub fn pixels(count: i16) -> (units: i32)
    ensures
        units == count * UNITS_PER_PIXEL,
{
    count as i32 * UNITS_PER_PIXEL
}

/// Clamps a wide integer into the range of a coordinate.
pub fn saturate(v: i64) -> (r: i32)
    ensures
        r == clamp_coord(v as int),
{
    if v < i32::MIN as i64 {
        i32::MIN
    } else if v > i32::MAX as i64 {
        i32::MAX
    } else {
        v as i32
    }
}

/// Computes the penetration of two intervals along one axis.
pub fn penetration_of(center_a: i32, half_a: i32, center_b: i32, half_b: i32) -> (p: i64)
    ensures
        p == penetration(center_a as int, half_a as int, center_b as int, half_b as int),
{
    let d: i64 = center_a as i64 - center_b as i64;
    let dist: i64 = if d < 0 {
        -d
    } else {
        d
    };
    half_a as i64 + half_b as i64 - dist
}

/// Computes the length of the stretch that two intervals share.
pub fn shared_width_of(center_a: i32, half_a: i32, center_b: i32, half_b: i32) -> (w: i64)
    ensures
        w == shared_width(center_a as int, half_a as int, center_b as int, half_b as int),
{
    let a_hi: i64 = center_a as i64 + half_a as i64;
    let b_hi: i64 = center_b as i64 + half_b as i64;
    let a_lo: i64 = center_a as i64 - half_a as i64;
    let b_lo: i64 = center_b as i64 - half_b as i64;
    let hi: i64 = if a_hi <= b_hi {
        a_hi
    } else {
        b_hi
    };
    let lo: i64 = if a_lo >= b_lo {
        a_lo
    } else {
        b_lo
    };
    hi - lo
}

/// Tells whether two boxes overlap.
pub fn overlap(pa: Vector2, ha: Vector2, pb: Vector2, hb: Vector2) -> (hit: bool)
    ensures
        hit == boxes_overlap(pa, ha, pb, hb),
{
    penetration_of(pa.x, ha.x, pb.x, hb.x) > 0 && penetration_of(pa.y, ha.y, pb.y, hb.y) > 0
}

} // verus!
