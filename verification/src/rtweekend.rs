//! Numeric utilities: angle conversion, trigonometric series, and the random
//! scalar source.
//!
//! The only unverified item in the crate is [`random_u64`]; everything built
//! on it states what holds of every possible outcome.

use vstd::prelude::*;

use rand::Rng;

use crate::fixed::{
    fx_add, fx_div, fx_mul, fx_ok, fx_sub, lemma_fx_mul_frac, Fx, FX_MAX, FX_SCALE,
};

verus! {

/// The circle constant scaled by `2^16`.
pub const PI_RAW: i64 = 205887;

/// `degrees * pi / 180` in fixed point.
pub open spec fn deg_to_rad(deg: int) -> int {
    fx_div(fx_mul(deg, PI_RAW as int), 180 * FX_SCALE as int)
}

/// Truncated Taylor series for the sine, accurate on `[0, pi/2]`.
pub open spec fn sin_series(x: int) -> int {
    let x2 = fx_mul(x, x);
    let x3 = fx_mul(x2, x);
    let x5 = fx_mul(x3, x2);
    let x7 = fx_mul(x5, x2);
    fx_sub(fx_add(fx_sub(x, fx_div(x3, 6 * FX_SCALE as int)), fx_div(x5, 120 * FX_SCALE as int)),
        fx_div(x7, 5040 * FX_SCALE as int))
}

/// Truncated Taylor series for the cosine, accurate on `[0, pi/2]`.
pub open spec fn cos_series(x: int) -> int {
    let x2 = fx_mul(x, x);
    let x4 = fx_mul(x2, x2);
    let x6 = fx_mul(x4, x2);
    fx_sub(fx_add(fx_sub(FX_SCALE as int, fx_div(x2, 2 * FX_SCALE as int)),
        fx_div(x4, 24 * FX_SCALE as int)), fx_div(x6, 720 * FX_SCALE as int))
}

/// Tangent as the ratio of the two series, saturating where the series cosine
/// is not positive (at and beyond a right angle).
pub open spec fn tan_series(x: int) -> int {
    if cos_series(x) > 0 {
        fx_div(sin_series(x), cos_series(x))
    } else {
        FX_MAX as int
    }
}

/// Converts degrees to radians.
pub fn degrees_to_radians(degrees: Fx) -> (r: Fx)
    ensures
        r@ == deg_to_rad(degrees@),
{
    degrees.mul(Fx::from_raw(PI_RAW)).div(Fx::from_int(180))
}

/// Sine by truncated Taylor series.
pub fn sin_fx(x: Fx) -> (r: Fx)
    ensures
        r@ == sin_series(x@),
{
    let x2 = x.mul(x);
    let x3 = x2.mul(x);
    let x5 = x3.mul(x2);
    let x7 = x5.mul(x2);
    x.sub(x3.div(Fx::from_int(6))).add(x5.div(Fx::from_int(120))).sub(x7.div(Fx::from_int(5040)))
}

/// Cosine by truncated Taylor series.
pub fn cos_fx(x: Fx) -> (r: Fx)
    ensures
        r@ == cos_series(x@),
{
    let x2 = x.mul(x);
    let x4 = x2.mul(x2);
    let x6 = x4.mul(x2);
    Fx::one().sub(x2.div(Fx::from_int(2))).add(x4.div(Fx::from_int(24))).sub(
        x6.div(Fx::from_int(720)))
}

/// Tangent by truncated Taylor series, saturating at and beyond a right
/// angle.
pub fn tan_fx(x: Fx) -> (r: Fx)
    ensures
        r@ == tan_series(x@),
{
    let s = sin_fx(x);
    let c = cos_fx(x);
    if c.lt(Fx::zero()) || c.raw() == 0 {
        Fx::from_raw(FX_MAX)
    } else {
        s.div(c)
    }
}

/// Relies on rand::thread_rng and rand::Rng::gen: one fresh draw from the
/// process-wide generator, uniform over all 64-bit values. Nothing more can
/// be promised of a random value. The call aborts only if the operating
/// system's entropy source fails at the generator's initialization or at a
/// periodic reseed — an environmental failure, independent of all inputs,
/// that no precondition could exclude.
#[verifier::external_body]
fn random_u64() -> u64 {
    rand::thread_rng().gen()
}

/// A random scalar in `[0, 1)`: the low 16 bits of a random draw, taken as a
/// raw fixed-point fraction.
pub fn random_double() -> (r: Fx)
    ensures
        0 <= r@ < FX_SCALE as int,
{
    let bits = random_u64();
    Fx::from_raw((bits % FX_SCALE as u64) as i64)
}

/// A random scalar in `[min, max)` (or exactly `min` when the range is
/// empty).
pub fn random_double_range(min: Fx, max: Fx) -> (r: Fx)
    requires
        fx_ok(min@),
        fx_ok(max@),
        min@ <= max@,
    ensures
        min@ <= r@,
        min@ < max@ ==> r@ < max@,
        min@ == max@ ==> r@ == min@,
        exists|u: int|
            0 <= u < FX_SCALE as int && r@ == #[trigger] fx_add(
                min@,
                fx_mul(fx_sub(max@, min@), u),
            ),
{
    let d = max.sub(min);
    let f = random_double();
    let m = d.mul(f);
    proof {
        lemma_fx_mul_frac(d@, f@);
    }
    let out = min.add(m);
    proof {
        assert(out@ == fx_add(min@, fx_mul(fx_sub(max@, min@), f@)));
    }
    out
}

} // verus!
