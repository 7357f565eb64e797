//! Integer sine and cosine in milli-units.
//!
//! Headings and sensor offsets are whole degrees, and direction vectors are
//! needed only to milli-cell precision, so the rational approximation
//! `sin x ~= 4x(180 - x) / (40500 - x(180 - x))` (for `x` in degrees from 0
//! to 180) is computed exactly in integers. It is exact at 0, 30, 90, 150
//! and 180 degrees and within a fraction of a percent elsewhere, which is
//! ample for steering a trail-following agent.

use vstd::prelude::*;

verus! {

/// Sine of `deg` degrees, in milli-units, for `0 <= deg < 360`.
pub open spec fn spec_sin_milli(deg: int) -> int {
    if deg <= 180 {
        spec_half_sin(deg)
    } else {
        -spec_half_sin(deg - 180)
    }
}

/// The rational sine approximation on the first half turn, `0 <= deg <= 180`.
pub open spec fn spec_half_sin(deg: int) -> int {
    (4000 * (deg * (180 - deg))) / (40500 - deg * (180 - deg))
}

/// Cosine of `deg` degrees, in milli-units: the sine a quarter turn ahead.
pub open spec fn spec_cos_milli(deg: int) -> int {
    spec_sin_milli((deg + 90) % 360)
}

/// The parabola `d(180 - d)` stays within `[0, 8100]` on `[0, 180]`.
proof fn lemma_parabola_bounds(d: int)
    requires
        0 <= d <= 180,
    ensures
        0 <= d * (180 - d) <= 8100,
{
    assert(0 <= d * (180 - d) <= 8100) by (nonlinear_arith)
        requires 0 <= d <= 180;
}

/// The half-turn sine approximation stays within `[0, 1000]`.
pub proof fn lemma_half_sin_bounds(d: int)
    requires
        0 <= d <= 180,
    ensures
        0 <= spec_half_sin(d) <= 1000,
{
    lemma_parabola_bounds(d);
    let p = d * (180 - d);
    let den = 40500 - p;
    assert(den >= 32400);
    assert(4000 * p >= 0) by (nonlinear_arith)
        requires p >= 0;
    assert(4000 * p <= 1000 * den) by (nonlinear_arith)
        requires 0 <= p <= 8100 && den == 40500 - p;
    vstd::arithmetic::div_mod::lemma_div_pos_is_pos(4000 * p, den);
    vstd::arithmetic::div_mod::lemma_div_is_ordered(4000 * p, 1000 * den, den);
    vstd::arithmetic::div_mod::lemma_div_multiples_vanish(1000, den);
    assert(1000 * den == den * 1000) by (nonlinear_arith);
    assert((1000 * den) / den == 1000);
}

/// The sine is bounded by one milli-unit in magnitude over the whole turn.
pub proof fn lemma_sin_bounds(deg: int)
    requires
        0 <= deg < 360,
    ensures
        -1000 <= spec_sin_milli(deg) <= 1000,
{
    if deg <= 180 {
        lemma_half_sin_bounds(deg);
    } else {
        lemma_half_sin_bounds(deg - 180);
    }
}

/// The cosine is bounded by one milli-unit in magnitude.
pub proof fn lemma_cos_bounds(deg: int)
    requires
        0 <= deg < 360,
    ensures
        -1000 <= spec_cos_milli(deg) <= 1000,
{
    lemma_sin_bounds((deg + 90) % 360);
}

/// Sine of a whole-degree angle, in milli-units.
pub fn sin_milli(deg: u32) -> (r: i32)
    requires
        deg < 360,
    ensures
        r == spec_sin_milli(deg as int),
        -1000 <= r <= 1000,
{
    proof {
        lemma_sin_bounds(deg as int);
    }
    if deg <= 180 {
        half_sin(deg)
    } else {
        -half_sin(deg - 180)
    }
}

/// The rational approximation on the first half turn.
fn half_sin(deg: u32) -> (r: i32)
    requires
        deg <= 180,
    ensures
        r == spec_half_sin(deg as int),
        0 <= r <= 1000,
{
    proof {
        lemma_parabola_bounds(deg as int);
        lemma_half_sin_bounds(deg as int);
    }
    let p: u32 = deg * (180 - deg);
    let num: u32 = 4000 * p;
    let den: u32 = 40500 - p;
    (num / den) as i32
}

/// Cosine of a whole-degree angle, in milli-units.
pub fn cos_milli(deg: u32) -> (r: i32)
    requires
        deg < 360,
    ensures
        r == spec_cos_milli(deg as int),
        -1000 <= r <= 1000,
{
    sin_milli((deg + 90) % 360)
}

} // verus!
