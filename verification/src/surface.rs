use vstd::prelude::*;
use crate::SCALE;
use crate::div_scale;
use crate::scale_down;
use crate::lemma_mul_bound;
use crate::lemma_div_scale_mono;
use crate::vector::Point3d;
use crate::vector::PointModel;
use crate::vector::in_range;
use crate::vector::norm_sq;
use crate::rotation::Rotation;
use crate::rotation::RotationAxis;
use crate::rotation::rotate_model;
use crate::rotation::rot2_u;
use crate::rotation::rot2_v;
use crate::rotation::lemma_rotate_in_range;
use crate::rotation::lemma_rot2_norm;
use crate::trig::cos_sin;
use crate::trig::cos_spec;
use crate::trig::sin_spec;
use crate::trig::trig_ok;
use crate::trig::lemma_trig_spec_ok;

verus! {

/// Number of discrete steps for each of the two surface angles; both run over
/// [0, STEPS) and are divided by 10, deliberately oversampling past one full
/// revolution.
pub const STEPS: usize = 628;

/// Largest radius (in SCALE fixed point) the generator accepts.
pub const RADIUS_MAX: i64 = 0x40_0000;

/// Bound on every sample point coordinate the generator returns.
pub const SAMPLE_MAX: i64 = 16832813;

/// Bound on every sample normal coordinate the generator returns.
pub const NORMAL_MAX: i64 = 131585;

/// Fixed-point angle of grid step k: k/10 radians.
pub open spec fn step_angle(k: int) -> int {
    k * (SCALE as int) / 10
}

/// Point on the minor circle before the sweep about the Y axis.
pub open spec fn base_point(outer: int, inner: int, th: int) -> PointModel {
    PointModel {
        x: outer + div_scale(inner * cos_spec(th)),
        y: div_scale(inner * sin_spec(th)),
        z: 0,
    }
}

/// Unit surface normal on the minor circle before the sweep.
pub open spec fn base_normal(th: int) -> PointModel {
    PointModel { x: cos_spec(th), y: sin_spec(th), z: 0 }
}

/// Surface point for grid indices (ti, pi): the base point swept about Y.
pub open spec fn sample_point(outer: int, inner: int, ti: int, pi: int) -> PointModel {
    rotate_model(
        RotationAxis::Y,
        cos_spec(step_angle(pi)),
        sin_spec(step_angle(pi)),
        base_point(outer, inner, step_angle(ti)),
    )
}

/// Surface normal for grid indices (ti, pi): the base normal swept about Y.
pub open spec fn sample_normal(ti: int, pi: int) -> PointModel {
    rotate_model(
        RotationAxis::Y,
        cos_spec(step_angle(pi)),
        sin_spec(step_angle(pi)),
        base_normal(step_angle(ti)),
    )
}

/// What the generator guarantees of the sample stored at flat index i.
pub open spec fn sample_ok(outer: int, inner: int, i: int, sample: (Point3d, Point3d)) -> bool {
    &&& sample.0.model() == sample_point(outer, inner, i / 628, i % 628)
    &&& sample.1.model() == sample_normal(i / 628, i % 628)
    &&& in_range(sample.0, SAMPLE_MAX as int)
    &&& in_range(sample.1, NORMAL_MAX as int)
}

/// Fixed-point angle of grid step k.
fn angle_of_step(k: usize) -> (a: i64)
    requires
        k <= 628,
    ensures
        a == step_angle(k as int),
        0 <= a <= 4115660,
{
    (((k as u64) * 65536) / 10) as i64
}

/// The static toroid sample list: STEPS x STEPS (point, normal) pairs in
/// theta-major order, generated once and re-rotated every frame.
pub fn toroid(outer_r: i64, inner_r: i64) -> (samples: Vec<(Point3d, Point3d)>)
    requires
        0 < inner_r < outer_r,
        outer_r <= RADIUS_MAX,
    ensures
        samples@.len() == 394384,
        forall|i: int|
            0 <= i < samples@.len() ==> sample_ok(
                outer_r as int,
                inner_r as int,
                i,
                #[trigger] samples@[i],
            ),
{
    let mut samples: Vec<(Point3d, Point3d)> = Vec::new();
    let mut ti: usize = 0;
    while ti < 628
        invariant
            ti <= 628,
            0 < inner_r < outer_r,
            outer_r <= RADIUS_MAX,
            samples@.len() == ti * 628,
            forall|i: int|
                0 <= i < samples@.len() ==> sample_ok(
                    outer_r as int,
                    inner_r as int,
                    i,
                    #[trigger] samples@[i],
                ),
        decreases 628 - ti,
    {
        let th = angle_of_step(ti);
        let (ct, st) = cos_sin(th);
        proof {
            lemma_mul_bound(inner_r as int, ct as int, RADIUS_MAX as int, 65664);
            lemma_mul_bound(inner_r as int, st as int, RADIUS_MAX as int, 65664);
            lemma_div_scale_mono(inner_r as int * (ct as int), (4194304 * 65664) as int);
            lemma_div_scale_mono(-((4194304 * 65664) as int), inner_r as int * (ct as int));
            lemma_div_scale_mono(inner_r as int * (st as int), (4194304 * 65664) as int);
            lemma_div_scale_mono(-((4194304 * 65664) as int), inner_r as int * (st as int));
        }
        let bx = outer_r + scale_down(inner_r * ct);
        let by = scale_down(inner_r * st);
        let base_pt = Point3d::new(bx, by, 0);
        let base_nm = Point3d::new(ct, st, 0);
        let mut pi: usize = 0;
        while pi < 628
            invariant
                ti < 628,
                pi <= 628,
                0 < inner_r < outer_r,
                outer_r <= RADIUS_MAX,
                samples@.len() == ti * 628 + pi,
                ct == cos_spec(step_angle(ti as int)),
                st == sin_spec(step_angle(ti as int)),
                trig_ok(ct as int, st as int),
                base_pt.model() == base_point(
                    outer_r as int,
                    inner_r as int,
                    step_angle(ti as int),
                ),
                base_nm.model() == base_normal(step_angle(ti as int)),
                in_range(base_pt, 8400000),
                in_range(base_nm, 65664),
                forall|i: int|
                    0 <= i < samples@.len() ==> sample_ok(
                        outer_r as int,
                        inner_r as int,
                        i,
                        #[trigger] samples@[i],
                    ),
            decreases 628 - pi,
        {
            let ph = angle_of_step(pi);
            let sweep = Rotation::new(ph, RotationAxis::Y);
            let point = sweep.apply(base_pt);
            let normal = sweep.apply(base_nm);
            proof {
                lemma_trig_spec_ok(ph as int);
                lemma_rotate_in_range(
                    RotationAxis::Y,
                    cos_spec(ph as int),
                    sin_spec(ph as int),
                    base_pt.model(),
                    8400000,
                );
                lemma_rotate_in_range(
                    RotationAxis::Y,
                    cos_spec(ph as int),
                    sin_spec(ph as int),
                    base_nm.model(),
                    65664,
                );
                let i = samples@.len() as int;
                assert(i == 628 * (ti as int) + (pi as int));
                assert(i / 628 == ti as int && i % 628 == pi as int);
            }
            samples.push((point, normal));
            pi += 1;
        }
        ti += 1;
    }
    samples
}

/// Sweeping any well-formed (cos, sin) pair, taken as a normal in the
/// x-y plane, about the Y axis keeps its squared magnitude within
/// SCALE^2 / 128 of SCALE^2.
proof fn lemma_normal_magnitude_core(c: int, s: int, ct: int, st: int)
    requires
        trig_ok(c, s),
        trig_ok(ct, st),
    ensures
        ({
            let p = rotate_model(RotationAxis::Y, c, s, PointModel { x: ct, y: st, z: 0 });
            4261412864 <= norm_sq(p) <= 4328521728
        }),
{
    assert((-s) * (-s) == s * s) by (nonlinear_arith);
    lemma_rot2_norm(c, -s, ct, 0);
    let u1 = rot2_u(c, -s, ct, 0);
    let v1 = rot2_v(c, -s, ct, 0);
    let p = rotate_model(RotationAxis::Y, c, s, PointModel { x: ct, y: st, z: 0 });
    assert(p == PointModel { x: u1, y: st, z: v1 });
    assert(norm_sq(p) == u1 * u1 + st * st + v1 * v1);
    let m0 = ct * ct + 0 * 0;
    assert(m0 == ct * ct);
    assert(ct * ct >= 0 && st * st >= 0) by (nonlinear_arith);
    let mag_t = ct * ct + st * st;
    let mag_p = c * c + s * s;
    assert(4286578688 <= mag_t <= 4303355904);
    assert(4286578688 <= mag_p <= 4303355904);
    assert(m0 * mag_p >= m0 * 4286578688) by (nonlinear_arith)
        requires
            m0 >= 0,
            mag_p >= 4286578688,
    ;
    assert(m0 * mag_p <= m0 * 4303355904) by (nonlinear_arith)
        requires
            m0 >= 0,
            mag_p <= 4303355904,
    ;
    // Lower bound: weight both squared terms by at least MAG_LO.
    assert(4294967296 * (u1 * u1 + v1 * v1) >= 4286578688 * (ct * ct) - 2300000000000000);
    assert(4294967296 * (u1 * u1 + st * st + v1 * v1) >= 4286578688 * (ct * ct + st * st)
        - 2300000000000000);
    assert(4286578688 * (ct * ct + st * st) >= 4286578688 * 4286578688);
    assert(4294967296 * norm_sq(p) >= 18374756848415801344 - 2300000000000000);
    assert(4294967296 * 4261412864 <= 18374756848415801344 - 2300000000000000);
    // Upper bound: weight both squared terms by at most MAG_HI.
    assert(4294967296 * (u1 * u1 + v1 * v1) <= 4303355904 * (ct * ct) + 2300000000000000);
    assert(4294967296 * (u1 * u1 + st * st + v1 * v1) <= 4303355904 * (ct * ct + st * st)
        + 2300000000000000);
    assert(4303355904 * (ct * ct + st * st) <= 4303355904 * 4303355904);
    assert(4294967296 * norm_sq(p) <= 18518872036491657216 + 2300000000000000);
    assert(4294967296 * 4328521728 >= 18518872036491657216 + 2300000000000000);
}

/// Every generated normal has squared magnitude within SCALE^2 / 128 of
/// SCALE^2: the normals stay unit length up to the fixed-point tolerance.
pub proof fn lemma_sample_normal_magnitude(ti: int, pi: int)
    ensures
        4261412864 <= norm_sq(sample_normal(ti, pi)) <= 4328521728,
{
    lemma_trig_spec_ok(step_angle(ti));
    lemma_trig_spec_ok(step_angle(pi));
    lemma_normal_magnitude_core(
        cos_spec(step_angle(pi)),
        sin_spec(step_angle(pi)),
        cos_spec(step_angle(ti)),
        sin_spec(step_angle(ti)),
    );
}

} // verus!
