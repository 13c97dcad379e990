//! Fixed-point circle geometry.
//!
//! Angles are fractions of a full turn held in millionths, so that a whole
//! circle is exactly `1_000_000` and slice angles add up without drift.
//! Sine and cosine are evaluated by a rational half-wave approximation and
//! returned as a sign and a magnitude scaled by `10_000`; the magnitude
//! never exceeds the scale, so a point at radius `r` from a center always
//! stays within `r` of it.

use vstd::prelude::*;

verus! {

use vstd::arithmetic::div_mod::lemma_div_is_ordered;
use vstd::arithmetic::div_mod::lemma_div_multiples_vanish;
use vstd::arithmetic::mul::lemma_mul_inequality;

/// A full turn, in millionths of a turn.
pub const TURN: u64 = 1000000;

/// Half a turn, in millionths of a turn.
pub const HALF_TURN: u64 = 500000;

/// A quarter turn, in millionths of a turn.
pub const QUARTER_TURN: u64 = 250000;

/// The scale of sine and cosine magnitudes.
pub const TRIG_SCALE: u64 = 10000;

/// The sine magnitude over the first half turn, scaled by `10_000`: a
/// rational approximation of the positive sine arch, exact at its ends and
/// peak.
pub open spec fn sin_half_spec(x: int) -> int {
    (10000 * (16 * (x * (500000 - x)))) / (5 * 500000 * 500000 - 4 * (x * (500000 - x)))
}

/// The sine magnitude at any angle, scaled by `10_000`.
pub open spec fn sin_mag_spec(p: int) -> int {
    if p <= 500000 {
        sin_half_spec(p)
    } else {
        sin_half_spec(p - 500000)
    }
}

/// Whether the sine is negative at an angle: true on the second half turn.
pub open spec fn sin_neg_spec(p: int) -> bool {
    p > 500000
}

/// The angle whose sine gives the cosine: a quarter turn further, wrapped.
pub open spec fn quarter_ahead(p: int) -> int {
    if p >= 750000 {
        p - 750000
    } else {
        p + 250000
    }
}

/// The cosine magnitude at any angle, scaled by `10_000`.
pub open spec fn cos_mag_spec(p: int) -> int {
    sin_mag_spec(quarter_ahead(p))
}

/// Whether the cosine is negative at an angle.
pub open spec fn cos_neg_spec(p: int) -> bool {
    sin_neg_spec(quarter_ahead(p))
}

/// Evaluates the sine magnitude over the first half turn.
fn sin_half(x: u64) -> (r: u64)
    requires
        x <= 500000,
    ensures
        r == sin_half_spec(x as int),
        r <= 10000,
{
    proof {
        assert(x * (500000 - x) <= 62500000000) by (nonlinear_arith)
            requires
                0 <= x <= 500000,
        ;
    }
    let p = x * (500000 - x);
    let num = 160000 * p;
    let den = 1250000000000 - 4 * p;
    let r = num / den;
    proof {
        assert(num <= 10000 * den);
        lemma_div_is_ordered(num as int, 10000 * den, den as int);
        lemma_div_multiples_vanish(10000, den as int);
        assert(r == sin_half_spec(x as int));
    }
    r
}

/// Evaluates the sine at any angle as a sign and a scaled magnitude.
pub fn sin_parts(p: u64) -> (r: (bool, u64))
    requires
        p <= 1000000,
    ensures
        r.0 == sin_neg_spec(p as int),
        r.1 == sin_mag_spec(p as int),
        r.1 <= 10000,
{
    if p <= 500000 {
        (false, sin_half(p))
    } else {
        (true, sin_half(p - 500000))
    }
}

/// Evaluates the cosine at any angle as a sign and a scaled magnitude.
pub fn cos_parts(p: u64) -> (r: (bool, u64))
    requires
        p <= 1000000,
    ensures
        r.0 == cos_neg_spec(p as int),
        r.1 == cos_mag_spec(p as int),
        r.1 <= 10000,
{
    let q = if p >= 750000 {
        p - 750000
    } else {
        p + 250000
    };
    sin_parts(q)
}

/// A coordinate displaced from a center by a radius scaled down by a trig
/// magnitude: `center ± radius * mag / 10_000`, in the same (hundredths of
/// a unit) fixed-point scale as the center and radius.
pub open spec fn coord_spec(center: int, radius: int, neg: bool, mag: int) -> int {
    if neg {
        center - (radius * mag) / 10000
    } else {
        center + (radius * mag) / 10000
    }
}

/// Computes a displaced coordinate; the result stays within the radius of
/// the center, so it never leaves the chart box.
pub fn coord_from(center: u64, radius: u64, neg: bool, mag: u64) -> (r: u64)
    requires
        mag <= 10000,
        radius <= center,
        center + radius <= u64::MAX,
        radius <= 1000000000,
    ensures
        r == coord_spec(center as int, radius as int, neg, mag as int),
        center - radius <= r <= center + radius,
{
    proof {
        lemma_mul_inequality(mag as int, 10000, radius as int);
        assert(mag * radius == radius * mag) by (nonlinear_arith);
    }
    let off = (radius * mag) / 10000;
    proof {
        lemma_mul_inequality(mag as int, 10000, radius as int);
        assert(radius * mag == mag * radius) by (nonlinear_arith);
        assert(10000 * radius == radius * 10000) by (nonlinear_arith);
        lemma_div_is_ordered(radius * mag, radius * 10000, 10000);
        lemma_div_multiples_vanish(radius as int, 10000);
        assert(off <= radius);
    }
    if neg {
        center - off
    } else {
        center + off
    }
}

} // verus!
