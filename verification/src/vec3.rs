//! Points and vectors of space, in fixed-point.

use vstd::prelude::*;

verus! {

/// A point or a vector: three fixed-point coordinates.
#[derive(Clone, Copy, Debug, PartialEq, Eq, Structural)]
pub struct Vec3 {
    pub x: i64,
    pub y: i64,
    pub z: i64,
}

/// The coordinate of `v` along axis `k`: 0 for x, 1 for y, 2 for z.
pub open spec fn axis(v: Vec3, k: int) -> int {
    if k == 0 {
        v.x as int
    } else if k == 1 {
        v.y as int
    } else {
        v.z as int
    }
}

/// The square of the distance between two points.
pub open spec fn squared_distance(a: Vec3, b: Vec3) -> int {
    (b.x - a.x) * (b.x - a.x) + (b.y - a.y) * (b.y - a.y) + (b.z - a.z) * (b.z - a.z)
}

/// Two points are as far from each other, whichever one starts from.
pub proof fn lemma_squared_distance_symmetric(a: Vec3, b: Vec3)
    ensures
        squared_distance(a, b) == squared_distance(b, a),
{
    assert(squared_distance(a, b) == squared_distance(b, a)) by (nonlinear_arith)
        requires
            squared_distance(a, b) == (b.x - a.x) * (b.x - a.x) + (b.y - a.y) * (b.y - a.y) + (b.z
                - a.z) * (b.z - a.z),
            squared_distance(b, a) == (a.x - b.x) * (a.x - b.x) + (a.y - b.y) * (a.y - b.y) + (a.z
                - b.z) * (a.z - b.z),
    ;
}

/// The square of the length of a vector given by its coordinates.
pub open spec fn squared_length(x: int, y: int, z: int) -> int {
    x * x + y * y + z * z
}

impl Vec3 {
    /// No coordinate is beyond `bound` in magnitude.
    pub open spec fn within(self, bound: int) -> bool {
        &&& -bound <= self.x <= bound
        &&& -bound <= self.y <= bound
        &&& -bound <= self.z <= bound
    }

    pub fn new(x: i64, y: i64, z: i64) -> (v: Vec3)
        ensures
            v == (Vec3 { x, y, z }),
    {
        Vec3 { x, y, z }
    }

    /// The origin, which is also the null vector.
    pub fn zero() -> (v: Vec3)
        ensures
            v == (Vec3 { x: 0, y: 0, z: 0 }),
    {
        Vec3 { x: 0, y: 0, z: 0 }
    }

    /// No coordinate is beyond `bound` in magnitude.
    pub fn is_within(&self, bound: i64) -> (inside: bool)
        requires
            bound >= 0,
        ensures
            inside == self.within(bound as int),
    {
        -bound <= self.x && self.x <= bound && -bound <= self.y && self.y <= bound && -bound
            <= self.z && self.z <= bound
    }
}

} // verus!
