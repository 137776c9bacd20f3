use vstd::prelude::*;

pub mod vector;
pub mod trig;
pub mod rotation;
pub mod surface;
pub mod render;
pub mod animation;

use vstd::arithmetic::div_mod::lemma_fundamental_div_mod;
use vstd::arithmetic::div_mod::lemma_div_is_ordered;
use vstd::arithmetic::div_mod::lemma_div_multiples_vanish;

verus! {

/// Fixed-point fraction steps per unit: coordinates, trigonometric values and
/// inverse depths are stored as integer multiples of 1/SCALE.
pub const SCALE: i64 = 65536;

/// Truncating (round-toward-zero) division by SCALE.
pub open spec fn div_scale(a: int) -> int {
    if a >= 0 {
        a / (SCALE as int)
    } else {
        -((-a) / (SCALE as int))
    }
}

/// Scale a double-width fixed-point product back down, rounding toward zero.
pub fn scale_down(a: i64) -> (r: i64)
    requires
        i64::MIN < a,
    ensures
        r == div_scale(a as int),
{
    if a >= 0 {
        ((a as u64) / (SCALE as u64)) as i64
    } else {
        -((((-a) as u64) / (SCALE as u64)) as i64)
    }
}

/// Truncating division of `a` by a positive divisor `d`.
pub open spec fn div_trunc(a: int, d: int) -> int
    recommends
        d > 0,
{
    if a >= 0 {
        a / d
    } else {
        -((-a) / d)
    }
}

/// Quotient of `a` by a positive divisor, rounding toward zero.
pub fn div_by(a: i64, d: i64) -> (r: i64)
    requires
        i64::MIN < a,
        0 < d,
    ensures
        r == div_trunc(a as int, d as int),
{
    if a >= 0 {
        ((a as u64) / (d as u64)) as i64
    } else {
        -((((-a) as u64) / (d as u64)) as i64)
    }
}

pub proof fn lemma_div_scale_error(a: int)
    ensures
        -(SCALE as int) < a - div_scale(a) * (SCALE as int) < (SCALE as int),
        a >= 0 ==> 0 <= a - div_scale(a) * (SCALE as int),
        a <= 0 ==> a - div_scale(a) * (SCALE as int) <= 0,
{
    let s = SCALE as int;
    if a >= 0 {
        lemma_fundamental_div_mod(a, s);
    } else {
        lemma_fundamental_div_mod(-a, s);
        let q = (-a) / s;
        assert(div_scale(a) == -q);
        assert((-q) * s == -(q * s)) by (nonlinear_arith);
    }
}

pub proof fn lemma_div_scale_mono(a: int, b: int)
    requires
        a <= b,
    ensures
        div_scale(a) <= div_scale(b),
{
    let s = SCALE as int;
    if a >= 0 {
        lemma_div_is_ordered(a, b, s);
    } else if b < 0 {
        lemma_div_is_ordered(-b, -a, s);
    } else {
        lemma_div_is_ordered(0, -a, s);
        lemma_div_is_ordered(0, b, s);
    }
}

pub proof fn lemma_div_scale_odd(a: int)
    ensures
        div_scale(-a) == -div_scale(a),
{
}

/// A value that is an exact multiple of SCALE scales down with no loss.
pub proof fn lemma_div_scale_exact(x: int)
    ensures
        div_scale(x * (SCALE as int)) == x,
{
    let s = SCALE as int;
    if x >= 0 {
        lemma_div_multiples_vanish(x, s);
        assert(s * x == x * s) by (nonlinear_arith);
    } else {
        lemma_div_multiples_vanish(-x, s);
        assert(s * (-x) == -(x * s)) by (nonlinear_arith);
    }
}

/// |a| <= m and |b| <= n bound the product: |a * b| <= m * n.
pub proof fn lemma_mul_bound(a: int, b: int, m: int, n: int)
    by (nonlinear_arith)
    requires
        -m <= a <= m,
        -n <= b <= n,
        0 <= m,
        0 <= n,
    ensures
        -(m * n) <= a * b <= m * n,
{
}

} // verus!
