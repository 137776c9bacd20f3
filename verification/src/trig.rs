use vstd::prelude::*;
use crate::SCALE;
use crate::div_scale;
use crate::scale_down;
use crate::lemma_mul_bound;

verus! {

/// A quarter turn (pi/2 radians) in SCALE fixed point, rounded to nearest.
pub const HPI: i64 = 102944;

/// Half of HPI; the reduced polynomial argument stays within [-HPI_HALF, HPI_HALF].
pub const HPI_HALF: i64 = 51472;

/// Bound on every value cos_sin returns.
pub const TRIG_MAX: i64 = SCALE + 128;

/// Allowed deviation of cos^2 + sin^2 from SCALE^2 (SCALE^2 / 512).
pub const MAG_TOL: i64 = 8388608;

pub const MAG_LO: i64 = SCALE * SCALE - MAG_TOL;

pub const MAG_HI: i64 = SCALE * SCALE + MAG_TOL;

/// Largest angle magnitude (in SCALE fixed-point radians) cos_sin accepts.
pub const ANGLE_MAX: i64 = 0x100_0000_0000;

/// Number of quarter turns nearest to `a`, rounding ties away from zero
/// symmetrically, so that rdiv_hpi(-a) == -rdiv_hpi(a).
pub open spec fn rdiv_hpi(a: int) -> int {
    if a >= 0 {
        (a + HPI_HALF as int) / (HPI as int)
    } else {
        -((-a + HPI_HALF as int) / (HPI as int))
    }
}

/// Remainder of `a` after removing the nearest whole number of quarter turns.
pub open spec fn reduce_t(a: int) -> int {
    a - rdiv_hpi(a) * (HPI as int)
}

/// Quadrant (0..4) selected by the quarter-turn count of `a`.
pub open spec fn quad_of(a: int) -> int {
    rdiv_hpi(a) % 4
}

/// t^2 / SCALE, the squared reduced argument in fixed point.
pub open spec fn t2_of(t: int) -> int {
    div_scale(t * t)
}

/// t^4 / SCALE^3, the fourth power of the reduced argument in fixed point.
pub open spec fn q4_of(t: int) -> int {
    div_scale(t2_of(t) * t2_of(t))
}

/// Degree-4 cosine polynomial 1 - t^2/2 + t^4/24 in fixed point.
pub open spec fn cos_poly(t: int) -> int {
    SCALE as int - t2_of(t) / 2 + q4_of(t) / 24
}

/// Degree-5 sine polynomial t - t^3/6 + t^5/120 in fixed point.
pub open spec fn sin_poly(t: int) -> int {
    div_scale(t * (SCALE as int - t2_of(t) / 6 + q4_of(t) / 120))
}

/// Cosine before the magnitude guard: the quadrant-adjusted polynomial value.
pub open spec fn raw_cos(a: int) -> int {
    let t = reduce_t(a);
    let q = quad_of(a);
    if q == 0 {
        cos_poly(t)
    } else if q == 1 {
        -sin_poly(t)
    } else if q == 2 {
        -cos_poly(t)
    } else {
        sin_poly(t)
    }
}

/// Sine before the magnitude guard: the quadrant-adjusted polynomial value.
pub open spec fn raw_sin(a: int) -> int {
    let t = reduce_t(a);
    let q = quad_of(a);
    if q == 0 {
        sin_poly(t)
    } else if q == 1 {
        cos_poly(t)
    } else if q == 2 {
        -sin_poly(t)
    } else {
        -cos_poly(t)
    }
}

/// A well-formed cosine/sine pair: bounded components whose squared magnitude
/// stays within MAG_TOL of SCALE^2.
pub open spec fn trig_ok(c: int, s: int) -> bool {
    &&& -(TRIG_MAX as int) <= c <= TRIG_MAX as int
    &&& -(TRIG_MAX as int) <= s <= TRIG_MAX as int
    &&& MAG_LO as int <= c * c + s * s <= MAG_HI as int
}

/// Fixed-point cosine of `a`; falls back to the exact unit pair if the
/// polynomial value ever failed the magnitude guard.
pub open spec fn cos_spec(a: int) -> int {
    if trig_ok(raw_cos(a), raw_sin(a)) {
        raw_cos(a)
    } else {
        SCALE as int
    }
}

/// Fixed-point sine of `a`, guarded like cos_spec.
pub open spec fn sin_spec(a: int) -> int {
    if trig_ok(raw_cos(a), raw_sin(a)) {
        raw_sin(a)
    } else {
        0
    }
}

/// The pair cos_sin returns is always well formed.
pub proof fn lemma_trig_spec_ok(a: int)
    ensures
        trig_ok(cos_spec(a), sin_spec(a)),
{
    if !trig_ok(raw_cos(a), raw_sin(a)) {
        assert((SCALE as int) * (SCALE as int) + 0 * 0 == 4294967296);
    }
}

/// Fixed-point cosine and sine of an angle given in SCALE fixed-point radians.
pub fn cos_sin(angle: i64) -> (cs: (i64, i64))
    requires
        -ANGLE_MAX <= angle <= ANGLE_MAX,
    ensures
        cs.0 == cos_spec(angle as int),
        cs.1 == sin_spec(angle as int),
        trig_ok(cs.0 as int, cs.1 as int),
{
    let (n, q): (i64, i64) = if angle >= 0 {
        let nu: u64 = ((angle as u64) + (HPI_HALF as u64)) / (HPI as u64);
        let r: u64 = nu % 4;
        (nu as i64, r as i64)
    } else {
        let m: u64 = (((-angle) as u64) + (HPI_HALF as u64)) / (HPI as u64);
        let r: u64 = m % 4;
        (-(m as i64), if r == 0 { 0 } else { 4 - (r as i64) })
    };
    proof {
        assert(n == rdiv_hpi(angle as int));
        if angle < 0 {
            let m = (-(angle as int) + HPI_HALF as int) / (HPI as int);
            assert(m == 4 * (m / 4) + m % 4 && 0 <= m % 4 < 4);
            assert((-m) == 4 * (-(m / 4) - 1) + (4 - m % 4));
            if m % 4 == 0 {
                assert((-m) % 4 == 0);
            } else {
                assert((-m) % 4 == 4 - m % 4);
            }
        }
        assert(q == quad_of(angle as int));
        assert(0 <= q < 4);
        assert(-10747905 <= n <= 10747905);
    }
    let t: i64 = angle - n * HPI;
    proof {
        assert(t == reduce_t(angle as int));
        if angle >= 0 {
            let a = angle as int;
            let h = HPI as int;
            assert(a + HPI_HALF == h * ((a + HPI_HALF) / h) + (a + HPI_HALF) % h && 0 <= (a
                + HPI_HALF) % h < h);
        } else {
            let a = -(angle as int);
            let h = HPI as int;
            assert(a + HPI_HALF == h * ((a + HPI_HALF) / h) + (a + HPI_HALF) % h && 0 <= (a
                + HPI_HALF) % h < h);
        }
        assert(-(HPI_HALF as int) <= t <= HPI_HALF as int);
        assert(0 <= (t as int) * (t as int) <= 51472 * 51472) by (nonlinear_arith)
            requires
                -51472 <= t <= 51472,
        ;
    }
    let t2: i64 = scale_down(t * t);
    proof {
        assert(t2 == t2_of(t as int));
        assert(0 <= t2 <= 40427);
        assert(0 <= (t2 as int) * (t2 as int) <= 40427 * 40427) by (nonlinear_arith)
            requires
                0 <= t2 <= 40427,
        ;
    }
    let q4: i64 = scale_down(t2 * t2);
    proof {
        assert(q4 == q4_of(t as int));
        assert(0 <= q4 <= 24940);
    }
    let c_base: i64 = SCALE - ((t2 as u64 / 2) as i64) + ((q4 as u64 / 24) as i64);
    let inner: i64 = SCALE - ((t2 as u64 / 6) as i64) + ((q4 as u64 / 120) as i64);
    proof {
        assert(c_base == cos_poly(t as int));
        assert(45322 <= c_base <= 66576);
        assert(58797 <= inner <= 65744);
        lemma_mul_bound(t as int, inner as int, 51472, 65744);
    }
    let s_base: i64 = scale_down(t * inner);
    proof {
        assert(s_base == sin_poly(t as int));
        assert(-51639 <= s_base <= 51639);
    }
    let (c_raw, s_raw): (i64, i64) = if q == 0 {
        (c_base, s_base)
    } else if q == 1 {
        (-s_base, c_base)
    } else if q == 2 {
        (-c_base, -s_base)
    } else {
        (s_base, -c_base)
    };
    proof {
        assert(c_raw == raw_cos(angle as int));
        assert(s_raw == raw_sin(angle as int));
        lemma_mul_bound(c_raw as int, c_raw as int, 66576, 66576);
        lemma_mul_bound(s_raw as int, s_raw as int, 66576, 66576);
    }
    let mag: i64 = c_raw * c_raw + s_raw * s_raw;
    if c_raw < -TRIG_MAX || c_raw > TRIG_MAX || s_raw < -TRIG_MAX || s_raw > TRIG_MAX || mag
        < MAG_LO || mag > MAG_HI {
        proof {
            assert((SCALE as int) * (SCALE as int) + 0 * 0 == 4294967296);
        }
        (SCALE, 0)
    } else {
        (c_raw, s_raw)
    }
}

/// At angle zero the pair is exactly (SCALE, 0).
pub proof fn lemma_trig_zero()
    ensures
        cos_spec(0) == SCALE as int,
        sin_spec(0) == 0,
{
    assert(rdiv_hpi(0) == 0);
    assert(reduce_t(0) == 0);
    assert(quad_of(0) == 0);
    assert(t2_of(0) == 0);
    assert(q4_of(0) == 0);
    assert(cos_poly(0) == SCALE as int);
    assert(sin_poly(0) == 0);
    assert(raw_cos(0) == SCALE as int && raw_sin(0) == 0);
    assert((SCALE as int) * (SCALE as int) == 4294967296);
}

/// The quarter-turn count is odd in the angle.
pub proof fn lemma_reduce_neg(a: int)
    ensures
        rdiv_hpi(-a) == -rdiv_hpi(a),
        reduce_t(-a) == -reduce_t(a),
{
    if a == 0 {
        assert(rdiv_hpi(0) == 0);
    }
}

/// Euclidean remainder of a negated value by 4.
pub proof fn lemma_quad_neg(n: int)
    ensures
        n % 4 == 0 ==> (-n) % 4 == 0,
        n % 4 != 0 ==> (-n) % 4 == 4 - n % 4,
{
    assert(n == 4 * (n / 4) + n % 4 && 0 <= n % 4 < 4);
    if n % 4 == 0 {
        assert(-n == 4 * (-(n / 4)));
        assert((-n) % 4 == 0);
    } else {
        assert(-n == 4 * (-(n / 4) - 1) + (4 - n % 4));
        assert((-n) % 4 == 4 - n % 4);
    }
}

/// The cosine polynomial is even and the sine polynomial odd.
pub proof fn lemma_poly_sym(t: int)
    ensures
        cos_poly(-t) == cos_poly(t),
        sin_poly(-t) == -sin_poly(t),
{
    assert((-t) * (-t) == t * t) by (nonlinear_arith);
    assert(t2_of(-t) == t2_of(t));
    assert(q4_of(-t) == q4_of(t));
    let inner = SCALE as int - t2_of(t) / 6 + q4_of(t) / 120;
    assert((-t) * inner == -(t * inner)) by (nonlinear_arith);
    crate::lemma_div_scale_odd(t * inner);
}

/// Cosine is an even and sine an odd function of the angle.
pub proof fn lemma_cos_even_sin_odd(a: int)
    ensures
        cos_spec(-a) == cos_spec(a),
        sin_spec(-a) == -sin_spec(a),
{
    let n = rdiv_hpi(a);
    let q = n % 4;
    let t = reduce_t(a);
    lemma_reduce_neg(a);
    lemma_quad_neg(n);
    lemma_poly_sym(t);
    assert(raw_cos(-a) == raw_cos(a));
    assert(raw_sin(-a) == -raw_sin(a));
    let c = raw_cos(a);
    let s = raw_sin(a);
    assert((-s) * (-s) == s * s) by (nonlinear_arith);
    assert(trig_ok(raw_cos(-a), raw_sin(-a)) == trig_ok(c, s));
}

} // verus!
