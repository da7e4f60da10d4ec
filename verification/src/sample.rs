//! Fixed-point sample arithmetic.
//!
//! All amplitude math runs in signed 16.16 fixed point ([`crate::FP_ONE`]
//! stands for 1.0).  Quotients are rounded toward zero, as the executable
//! code computes them, so every executable function here returns exactly
//! what its specification says.

use vstd::arithmetic::div_mod::{
    lemma_div_by_multiple, lemma_div_is_ordered, lemma_div_pos_is_pos,
};
use vstd::arithmetic::mul::{lemma_mul_inequality, lemma_mul_nonnegative, lemma_mul_upper_bound};
use vstd::prelude::*;

use crate::{sample_in_range, volume_in_range, FP_ONE};

verus! {

/// `(a * b) / FP_ONE`, with the quotient rounded toward zero.
/// The scale factor `b` is expected to be non-negative.
pub open spec fn fp_mul_s(a: int, b: int) -> int
    recommends
        b >= 0,
{
    if a >= 0 {
        (a * b) / (FP_ONE as int)
    } else {
        -((-a * b) / (FP_ONE as int))
    }
}

/// Scaling by a factor in [0.0, 1.0] never grows a magnitude:
/// if |a| <= m then |fp_mul_s(a, b)| <= min(|a|, m).
pub proof fn lemma_fp_mul_bound(a: int, b: int, m: int)
    requires
        -m <= a <= m,
        0 <= b <= FP_ONE,
    ensures
        a >= 0 ==> 0 <= fp_mul_s(a, b) <= a,
        a < 0 ==> a <= fp_mul_s(a, b) <= 0,
        -m <= fp_mul_s(a, b) <= m,
{
    let q = FP_ONE as int;
    if a >= 0 {
        lemma_mul_nonnegative(a, b);
        lemma_div_pos_is_pos(a * b, q);
        lemma_mul_inequality(b, q, a);
        assert(a * b == b * a) by (nonlinear_arith);
        assert(a * q == q * a) by (nonlinear_arith);
        lemma_div_is_ordered(a * b, a * q, q);
        lemma_div_by_multiple(a, q);
    } else {
        lemma_mul_nonnegative(-a, b);
        lemma_div_pos_is_pos(-a * b, q);
        lemma_mul_inequality(b, q, -a);
        assert(-a * b == b * -a) by (nonlinear_arith);
        assert(-a * q == q * -a) by (nonlinear_arith);
        lemma_div_is_ordered(-a * b, -a * q, q);
        lemma_div_by_multiple(-a, q);
    }
}

/// The perceptual gain applied to one playback: the product of playback
/// volume and bus volume, remapped through a square curve so that linear
/// control changes map to a more uniform loudness change.
pub open spec fn gain_s(volume: int, bus: int) -> int {
    fp_mul_s(fp_mul_s(volume, bus), fp_mul_s(volume, bus))
}

/// A gain computed from two valid volumes is itself in [0.0, 1.0].
pub proof fn lemma_gain_range(volume: int, bus: int)
    requires
        volume_in_range(volume),
        volume_in_range(bus),
    ensures
        0 <= gain_s(volume, bus) <= FP_ONE,
{
    lemma_fp_mul_bound(volume, bus, FP_ONE as int);
    let p = fp_mul_s(volume, bus);
    lemma_fp_mul_bound(p, p, FP_ONE as int);
}

/// Computes the effective gain `((volume * bus) / FP_ONE)^2 / FP_ONE`.
pub fn gain(volume: i64, bus: i64) -> (r: i64)
    requires
        volume_in_range(volume as int),
        volume_in_range(bus as int),
    ensures
        r == gain_s(volume as int, bus as int),
        volume_in_range(r as int),
{
    proof {
        lemma_fp_mul_bound(volume as int, bus as int, FP_ONE as int);
        lemma_gain_range(volume as int, bus as int);
        assert(volume * bus <= 65536 * 65536) by (nonlinear_arith)
            requires 0 <= volume <= 65536 && 0 <= bus <= 65536;
        lemma_mul_nonnegative(volume as int, bus as int);
    }
    let p = (volume * bus) / FP_ONE;
    proof {
        assert(p * p <= 65536 * 65536) by (nonlinear_arith)
            requires 0 <= p <= 65536;
        lemma_mul_nonnegative(p as int, p as int);
    }
    (p * p) / FP_ONE
}

/// Scales one sample by a gain in [0.0, 1.0], rounding toward zero.
pub fn scale(s: i64, g: i64) -> (r: i64)
    requires
        sample_in_range(s as int),
        volume_in_range(g as int),
    ensures
        r == fp_mul_s(s as int, g as int),
        sample_in_range(r as int),
{
    proof {
        lemma_fp_mul_bound(s as int, g as int, FP_ONE as int);
        assert(s >= 0 ==> s * g <= 65536 * 65536) by (nonlinear_arith)
            requires 0 <= g <= 65536 && s <= 65536;
        assert(s < 0 ==> (-s) * g <= 65536 * 65536) by (nonlinear_arith)
            requires 0 <= g <= 65536 && -s <= 65536;
        if s >= 0 {
            lemma_mul_nonnegative(s as int, g as int);
        } else {
            lemma_mul_nonnegative(-s as int, g as int);
        }
    }
    if s >= 0 {
        (s * g) / FP_ONE
    } else {
        let neg = -s;
        -((neg * g) / FP_ONE)
    }
}

/// Linear interpolation between two adjacent source samples: the value at
/// fractional position `frac / FP_ONE` of the way from `s0` to `s1`.
pub open spec fn lerp_s(s0: int, s1: int, frac: int) -> int {
    s0 + fp_mul_s(s1 - s0, frac)
}

/// An interpolated value lies between its two endpoints, so it stays a
/// valid sample.
pub proof fn lemma_lerp_range(s0: int, s1: int, frac: int)
    requires
        sample_in_range(s0),
        sample_in_range(s1),
        0 <= frac < FP_ONE,
    ensures
        s0 <= s1 ==> s0 <= lerp_s(s0, s1, frac) <= s1,
        s1 < s0 ==> s1 <= lerp_s(s0, s1, frac) <= s0,
        sample_in_range(lerp_s(s0, s1, frac)),
{
    let d = s1 - s0;
    if d >= 0 {
        lemma_fp_mul_bound(d, frac, d);
    } else {
        lemma_fp_mul_bound(d, frac, -d);
    }
}

/// Interpolates between `s0` and `s1` at fractional position `frac`.
pub fn lerp(s0: i64, s1: i64, frac: i64) -> (r: i64)
    requires
        sample_in_range(s0 as int),
        sample_in_range(s1 as int),
        0 <= frac < FP_ONE,
    ensures
        r == lerp_s(s0 as int, s1 as int, frac as int),
        sample_in_range(r as int),
{
    proof {
        lemma_lerp_range(s0 as int, s1 as int, frac as int);
        assert((s1 - s0) * frac <= 131072 * 65536) by (nonlinear_arith)
            requires s1 - s0 <= 131072 && 0 <= frac <= 65536;
        assert((s0 - s1) * frac <= 131072 * 65536) by (nonlinear_arith)
            requires s0 - s1 <= 131072 && 0 <= frac <= 65536;
        if s1 >= s0 {
            lemma_mul_nonnegative((s1 - s0) as int, frac as int);
        } else {
            lemma_mul_nonnegative((s0 - s1) as int, frac as int);
        }
    }
    if s1 >= s0 {
        let d = s1 - s0;
        s0 + (d * frac) / FP_ONE
    } else {
        let d = s0 - s1;
        s0 - (d * frac) / FP_ONE
    }
}

} // verus!
