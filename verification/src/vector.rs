use vstd::prelude::*;
use crate::SCALE;
use crate::div_scale;
use crate::scale_down;
use crate::lemma_mul_bound;

verus! {

/// Largest coordinate magnitude `dot` accepts: three products of two such
/// values still fit in an i64.
pub const DOT_MAX: i64 = 0x4000_0000;

/// A 3-component fixed-point vector; used both as a position and as a
/// direction/normal (unit length is not enforced).
#[derive(Clone, Copy)]
pub struct Point3d {
    pub x: i64,
    pub y: i64,
    pub z: i64,
}

/// The mathematical (unbounded-integer) image of a Point3d, used by contracts.
pub struct PointModel {
    pub x: int,
    pub y: int,
    pub z: int,
}

/// Every coordinate of `p` lies within `[-b, b]`.
pub open spec fn in_range(p: Point3d, b: int) -> bool {
    &&& -b <= p.x <= b
    &&& -b <= p.y <= b
    &&& -b <= p.z <= b
}

/// Every coordinate of the model `p` lies within `[-b, b]`.
pub open spec fn model_in_range(p: PointModel, b: int) -> bool {
    &&& -b <= p.x <= b
    &&& -b <= p.y <= b
    &&& -b <= p.z <= b
}

/// Fixed-point dot product: the scaled-down sum of coordinate products.
pub open spec fn dot_model(a: PointModel, b: PointModel) -> int {
    div_scale(a.x * b.x + a.y * b.y + a.z * b.z)
}

/// Squared Euclidean norm of a model vector (in units of SCALE squared).
pub open spec fn norm_sq(p: PointModel) -> int {
    p.x * p.x + p.y * p.y + p.z * p.z
}

impl Point3d {
    /// The mathematical image of this vector.
    pub open spec fn model(self) -> PointModel {
        PointModel { x: self.x as int, y: self.y as int, z: self.z as int }
    }

    pub fn new(x: i64, y: i64, z: i64) -> (r: Self)
        ensures
            r.x == x,
            r.y == y,
            r.z == z,
    {
        Self { x, y, z }
    }

    /// Fixed-point dot product of two vectors.
    pub fn dot(self, point: Point3d) -> (r: i64)
        requires
            in_range(self, DOT_MAX as int),
            in_range(point, DOT_MAX as int),
        ensures
            r == dot_model(self.model(), point.model()),
    {
        proof {
            let m = DOT_MAX as int;
            lemma_mul_bound(self.x as int, point.x as int, m, m);
            lemma_mul_bound(self.y as int, point.y as int, m, m);
            lemma_mul_bound(self.z as int, point.z as int, m, m);
        }
        scale_down(self.x * point.x + self.y * point.y + self.z * point.z)
    }
}

/// The dot product is symmetric: dot(a, b) == dot(b, a) for all vectors.
pub proof fn lemma_dot_symmetric(a: PointModel, b: PointModel)
    ensures
        dot_model(a, b) == dot_model(b, a),
{
    assert(a.x * b.x + a.y * b.y + a.z * b.z == b.x * a.x + b.y * a.y + b.z * a.z)
        by (nonlinear_arith);
}

} // verus!
