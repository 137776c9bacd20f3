use vstd::prelude::*;
use crate::SCALE;
use crate::div_scale;
use crate::scale_down;
use crate::lemma_mul_bound;
use crate::lemma_div_scale_exact;
use crate::lemma_div_scale_mono;
use crate::lemma_div_scale_error;
use crate::vector::Point3d;
use crate::vector::PointModel;
use crate::vector::in_range;
use crate::vector::model_in_range;
use crate::trig::ANGLE_MAX;
use crate::trig::cos_sin;
use crate::trig::cos_spec;
use crate::trig::sin_spec;
use crate::trig::trig_ok;
use crate::trig::lemma_trig_zero;
use crate::trig::lemma_trig_spec_ok;
use crate::trig::lemma_cos_even_sin_odd;

verus! {

/// Largest coordinate magnitude `apply` accepts.
pub const APPLY_MAX: i64 = 0x100_0000_0000;

/// One of the three principal axes a rotation can be about.
#[derive(Clone, Copy, PartialEq, Eq, Structural)]
pub enum RotationAxis {
    X,
    Y,
    Z,
}

/// A rotation of a given fixed-point angle (radians times SCALE) about one
/// principal axis.
#[derive(Clone, Copy)]
pub struct Rotation {
    pub angle: i64,
    pub axis: RotationAxis,
}

/// First coordinate of the planar rotation of (u, v) by the pair (c, s).
pub open spec fn rot2_u(c: int, s: int, u: int, v: int) -> int {
    div_scale(u * c - v * s)
}

/// Second coordinate of the planar rotation of (u, v) by the pair (c, s).
pub open spec fn rot2_v(c: int, s: int, u: int, v: int) -> int {
    div_scale(u * s + v * c)
}

/// The standard right-handed rotation matrix for the chosen axis, applied to
/// `p` with the cosine/sine pair (c, s).
pub open spec fn rotate_model(axis: RotationAxis, c: int, s: int, p: PointModel) -> PointModel {
    match axis {
        RotationAxis::X => PointModel {
            x: p.x,
            y: rot2_u(c, s, p.y, p.z),
            z: rot2_v(c, s, p.y, p.z),
        },
        RotationAxis::Y => PointModel {
            x: rot2_u(c, -s, p.x, p.z),
            y: p.y,
            z: rot2_v(c, -s, p.x, p.z),
        },
        RotationAxis::Z => PointModel {
            x: rot2_u(c, s, p.x, p.y),
            y: rot2_v(c, s, p.x, p.y),
            z: p.z,
        },
    }
}

impl Rotation {
    pub fn new(angle: i64, axis: RotationAxis) -> (r: Self)
        ensures
            r.angle == angle,
            r.axis == axis,
    {
        Self { angle, axis }
    }

    /// Rotate `point` about this rotation's axis by its angle; the coordinate
    /// on the rotation axis is returned unchanged.
    pub fn apply(self, point: Point3d) -> (r: Point3d)
        requires
            -ANGLE_MAX <= self.angle <= ANGLE_MAX,
            in_range(point, APPLY_MAX as int),
        ensures
            r.model() == rotate_model(
                self.axis,
                cos_spec(self.angle as int),
                sin_spec(self.angle as int),
                point.model(),
            ),
            self.axis == RotationAxis::X ==> r.x == point.x,
            self.axis == RotationAxis::Y ==> r.y == point.y,
            self.axis == RotationAxis::Z ==> r.z == point.z,
    {
        let (c, s) = cos_sin(self.angle);
        proof {
            let m = APPLY_MAX as int;
            lemma_mul_bound(point.x as int, c as int, m, 65664);
            lemma_mul_bound(point.x as int, s as int, m, 65664);
            lemma_mul_bound(point.y as int, c as int, m, 65664);
            lemma_mul_bound(point.y as int, s as int, m, 65664);
            lemma_mul_bound(point.z as int, c as int, m, 65664);
            lemma_mul_bound(point.z as int, s as int, m, 65664);
            assert((point.x as int) * (-(s as int)) == -((point.x as int) * (s as int)))
                by (nonlinear_arith);
            assert((point.z as int) * (-(s as int)) == -((point.z as int) * (s as int)))
                by (nonlinear_arith);
        }
        match self.axis {
            RotationAxis::X => Point3d::new(
                point.x,
                scale_down(point.y * c - point.z * s),
                scale_down(point.y * s + point.z * c),
            ),
            RotationAxis::Y => Point3d::new(
                scale_down(point.x * c + point.z * s),
                point.y,
                scale_down(-(point.x * s) + point.z * c),
            ),
            RotationAxis::Z => Point3d::new(
                scale_down(point.x * c - point.y * s),
                scale_down(point.x * s + point.y * c),
                point.z,
            ),
        }
    }
}

/// Planar rotation by a well-formed pair grows a coordinate bound `b` to at
/// most 2b + b/256 + 1.
pub proof fn lemma_rot2_range(c: int, s: int, u: int, v: int, b: int)
    requires
        trig_ok(c, s),
        -b <= u <= b,
        -b <= v <= b,
        0 <= b,
    ensures
        -(2 * b + b / 256 + 1) <= rot2_u(c, s, u, v) <= 2 * b + b / 256 + 1,
        -(2 * b + b / 256 + 1) <= rot2_v(c, s, u, v) <= 2 * b + b / 256 + 1,
{
    lemma_mul_bound(u, c, b, 65664);
    lemma_mul_bound(v, s, b, 65664);
    lemma_mul_bound(u, s, b, 65664);
    lemma_mul_bound(v, c, b, 65664);
    let k = 2 * b + b / 256 + 1;
    assert(b == 256 * (b / 256) + b % 256 && 0 <= b % 256 < 256);
    assert(2 * (b * 65664) <= k * 65536);
    lemma_div_scale_exact(k);
    lemma_div_scale_exact(-k);
    lemma_div_scale_mono(u * c - v * s, k * 65536);
    lemma_div_scale_mono((-k) * 65536, u * c - v * s);
    lemma_div_scale_mono(u * s + v * c, k * 65536);
    lemma_div_scale_mono((-k) * 65536, u * s + v * c);
}

/// Rotation about any axis by a well-formed pair keeps all coordinates within
/// 2b + b/256 + 1 when they started within b.
pub proof fn lemma_rotate_in_range(axis: RotationAxis, c: int, s: int, p: PointModel, b: int)
    requires
        trig_ok(c, s),
        model_in_range(p, b),
        0 <= b,
    ensures
        model_in_range(rotate_model(axis, c, s, p), 2 * b + b / 256 + 1),
{
    assert((-s) * (-s) == s * s) by (nonlinear_arith);
    match axis {
        RotationAxis::X => lemma_rot2_range(c, s, p.y, p.z, b),
        RotationAxis::Y => lemma_rot2_range(c, -s, p.x, p.z, b),
        RotationAxis::Z => lemma_rot2_range(c, s, p.x, p.y, b),
    }
}

/// Planar rotation by (SCALE, 0) is the identity.
pub proof fn lemma_rot2_identity(u: int, v: int)
    ensures
        rot2_u(SCALE as int, 0, u, v) == u,
        rot2_v(SCALE as int, 0, u, v) == v,
{
    assert(u * 0 == 0 && v * 0 == 0) by (nonlinear_arith);
    lemma_div_scale_exact(u);
    lemma_div_scale_exact(v);
    assert(u * (SCALE as int) == u * 65536);
    assert(v * (SCALE as int) == v * 65536);
}

/// Rotation about any axis by angle 0 returns the input point unchanged.
pub proof fn lemma_rotation_zero_identity(axis: RotationAxis, p: PointModel)
    ensures
        rotate_model(axis, cos_spec(0), sin_spec(0), p) == p,
{
    lemma_trig_zero();
    lemma_rot2_identity(p.y, p.z);
    lemma_rot2_identity(p.x, p.z);
    lemma_rot2_identity(p.x, p.y);
}

/// Rotating a planar pair by (c, s) and then by (c, -s) returns each
/// coordinate to within b/512 + 5 of where it started.
pub proof fn lemma_rot2_round_trip(c: int, s: int, u: int, v: int, b: int)
    requires
        trig_ok(c, s),
        -b <= u <= b,
        -b <= v <= b,
        0 <= b,
    ensures
        -(b / 512 + 5) <= rot2_u(c, -s, rot2_u(c, s, u, v), rot2_v(c, s, u, v)) - u <= b / 512 + 5,
        -(b / 512 + 5) <= rot2_v(c, -s, rot2_u(c, s, u, v), rot2_v(c, s, u, v)) - v <= b / 512 + 5,
{
    let w1 = u * c - v * s;
    let w2 = u * s + v * c;
    let u1 = rot2_u(c, s, u, v);
    let v1 = rot2_v(c, s, u, v);
    lemma_div_scale_error(w1);
    lemma_div_scale_error(w2);
    let e1 = w1 - u1 * 65536;
    let e2 = w2 - v1 * 65536;
    assert(u1 * (-s) == -(u1 * s) && v1 * (-s) == -(v1 * s)) by (nonlinear_arith);
    let w3 = u1 * c + v1 * s;
    let w4 = -(u1 * s) + v1 * c;
    let u2 = rot2_u(c, -s, u1, v1);
    let v2 = rot2_v(c, -s, u1, v1);
    assert(u2 == div_scale(w3) && v2 == div_scale(w4));
    lemma_div_scale_error(w3);
    lemma_div_scale_error(w4);
    let e3 = w3 - u2 * 65536;
    let e4 = w4 - v2 * 65536;
    let mag = c * c + s * s - 4294967296;
    assert(65536 * (65536 * (u2 - u)) == u * mag - e1 * c - e2 * s - 65536 * e3)
        by (nonlinear_arith)
        requires
            65536 * u1 == u * c - v * s - e1,
            65536 * v1 == u * s + v * c - e2,
            65536 * u2 == u1 * c + v1 * s - e3,
            mag == c * c + s * s - 4294967296,
    ;
    assert(65536 * (65536 * (v2 - v)) == v * mag + e1 * s - e2 * c - 65536 * e4)
        by (nonlinear_arith)
        requires
            65536 * u1 == u * c - v * s - e1,
            65536 * v1 == u * s + v * c - e2,
            65536 * v2 == -(u1 * s) + v1 * c - e4,
            mag == c * c + s * s - 4294967296,
    ;
    assert(-8388608 <= mag <= 8388608);
    lemma_mul_bound(u, mag, b, 8388608);
    lemma_mul_bound(v, mag, b, 8388608);
    lemma_mul_bound(e1, c, 65535, 65664);
    lemma_mul_bound(e1, s, 65535, 65664);
    lemma_mul_bound(e2, s, 65535, 65664);
    lemma_mul_bound(e2, c, 65535, 65664);
    assert(b == 512 * (b / 512) + b % 512 && 0 <= b % 512 < 512);
    let k = b / 512 + 5;
    assert(b * 8388608 + 2 * (65535 * 65664) + 65536 * 65535 <= k * 4294967296);
    assert(65536 * (65536 * (u2 - u)) == 4294967296 * (u2 - u));
    assert(65536 * (65536 * (v2 - v)) == 4294967296 * (v2 - v));
}

/// Planar rotation by a well-formed pair scales the squared norm by
/// (c^2 + s^2) / SCALE^2, up to a small absolute rounding error.
#[verifier::rlimit(100)]
pub proof fn lemma_rot2_norm(c: int, s: int, u: int, v: int)
    requires
        trig_ok(c, s),
        -65664 <= u <= 65664,
        -65664 <= v <= 65664,
    ensures
        ({
            let u1 = rot2_u(c, s, u, v);
            let v1 = rot2_v(c, s, u, v);
            let m0 = u * u + v * v;
            &&& 4294967296 * (u1 * u1 + v1 * v1) >= m0 * (c * c + s * s) - 2300000000000000
            &&& 4294967296 * (u1 * u1 + v1 * v1) <= m0 * (c * c + s * s) + 2300000000000000
        }),
{
    let w1 = u * c - v * s;
    let w2 = u * s + v * c;
    let u1 = rot2_u(c, s, u, v);
    let v1 = rot2_v(c, s, u, v);
    lemma_div_scale_error(w1);
    lemma_div_scale_error(w2);
    let e1 = w1 - u1 * 65536;
    let e2 = w2 - v1 * 65536;
    let a1 = 65536 * u1;
    let b1 = 65536 * v1;
    assert(a1 * a1 == w1 * w1 - 2 * (w1 * e1) + e1 * e1) by (nonlinear_arith)
        requires
            a1 == w1 - e1,
    ;
    assert(b1 * b1 == w2 * w2 - 2 * (w2 * e2) + e2 * e2) by (nonlinear_arith)
        requires
            b1 == w2 - e2,
    ;
    assert(a1 * a1 == 4294967296 * (u1 * u1)) by (nonlinear_arith)
        requires
            a1 == 65536 * u1,
    ;
    assert(b1 * b1 == 4294967296 * (v1 * v1)) by (nonlinear_arith)
        requires
            b1 == 65536 * v1,
    ;
    let p1 = u * c;
    let p2 = v * s;
    let p3 = u * s;
    let p4 = v * c;
    assert(w1 * w1 == p1 * p1 - 2 * (p1 * p2) + p2 * p2) by (nonlinear_arith)
        requires
            w1 == p1 - p2,
    ;
    assert(w2 * w2 == p3 * p3 + 2 * (p3 * p4) + p4 * p4) by (nonlinear_arith)
        requires
            w2 == p3 + p4,
    ;
    assert(p1 * p2 == p3 * p4) by (nonlinear_arith)
        requires
            p1 == u * c,
            p2 == v * s,
            p3 == u * s,
            p4 == v * c,
    ;
    assert(p1 * p1 + p3 * p3 == (u * u) * (c * c + s * s)) by (nonlinear_arith)
        requires
            p1 == u * c,
            p3 == u * s,
    ;
    assert(p2 * p2 + p4 * p4 == (v * v) * (c * c + s * s)) by (nonlinear_arith)
        requires
            p2 == v * s,
            p4 == v * c,
    ;
    assert((u * u) * (c * c + s * s) + (v * v) * (c * c + s * s) == (u * u + v * v) * (c * c + s
        * s)) by (nonlinear_arith);
    assert(w1 * w1 + w2 * w2 == (u * u + v * v) * (c * c + s * s));
    lemma_mul_bound(u, c, 65664, 65664);
    lemma_mul_bound(v, s, 65664, 65664);
    lemma_mul_bound(u, s, 65664, 65664);
    lemma_mul_bound(v, c, 65664, 65664);
    lemma_mul_bound(w1, e1, 8623521792, 65535);
    lemma_mul_bound(w2, e2, 8623521792, 65535);
    lemma_mul_bound(e1, e1, 65535, 65535);
    lemma_mul_bound(e2, e2, 65535, 65535);
}

/// Rotating a point by angle `a` and then by angle `-a` about the same axis
/// returns every coordinate to within b/512 + 5 of its original value.
pub proof fn lemma_rotation_round_trip(axis: RotationAxis, a: int, p: PointModel, b: int)
    requires
        model_in_range(p, b),
        0 <= b,
    ensures
        ({
            let p1 = rotate_model(axis, cos_spec(a), sin_spec(a), p);
            let p2 = rotate_model(axis, cos_spec(-a), sin_spec(-a), p1);
            &&& -(b / 512 + 5) <= p2.x - p.x <= b / 512 + 5
            &&& -(b / 512 + 5) <= p2.y - p.y <= b / 512 + 5
            &&& -(b / 512 + 5) <= p2.z - p.z <= b / 512 + 5
        }),
{
    let c = cos_spec(a);
    let s = sin_spec(a);
    lemma_trig_spec_ok(a);
    lemma_cos_even_sin_odd(a);
    assert((-s) * (-s) == s * s) by (nonlinear_arith);
    match axis {
        RotationAxis::X => lemma_rot2_round_trip(c, s, p.y, p.z, b),
        RotationAxis::Y => lemma_rot2_round_trip(c, -s, p.x, p.z, b),
        RotationAxis::Z => lemma_rot2_round_trip(c, s, p.x, p.y, b),
    }
}

} // verus!
