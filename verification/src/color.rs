//! RGB color values and the 8-bit output encoding: sample averaging, gamma
//! correction, clamping and quantization.

use vstd::prelude::*;

use crate::fixed::{
    fx_div, fx_mul, fx_sqrt, lemma_isqrt_monotonic, lemma_isqrt_unique, Fx, FX_SCALE,
};
use crate::interval::{iv_clamp, Interval};
use crate::vec3::{v3_add, v3_mul, v3_scale, Vec3, V3};

verus! {

/// The clamp bound `0.999` in raw units: channel values are saturated just
/// below one before quantization so that a full-intensity channel maps to 255.
pub const CLAMP_RAW: i64 = 65470;

/// The quantization factor `255.999`, as the exact ratio `255999 / 1000`.
pub const QUANT_NUM: i64 = 255999;

/// The quantization denominator.
pub const QUANT_DEN: i64 = 1000;

/// Every channel lies in the linear range `[0, 1]`.
pub open spec fn color01(c: V3) -> bool {
    &&& 0 <= c.x <= FX_SCALE as int
    &&& 0 <= c.y <= FX_SCALE as int
    &&& 0 <= c.z <= FX_SCALE as int
}

/// Gamma correction (`sqrt`, approximating gamma 2.0). A negative linear
/// value has no square root; it maps to zero, which is also what the clamp
/// below would make of it.
pub open spec fn gamma_spec(x: int) -> int {
    if x < 0 {
        0
    } else {
        fx_sqrt(x)
    }
}

/// 8-bit quantization of one gamma-corrected channel: clamp into
/// `[0, 0.999]`, multiply by `255.999`, and take the integer part.
pub open spec fn quantize_spec(x: int) -> int {
    iv_clamp(0, CLAMP_RAW as int, x) * QUANT_NUM as int / QUANT_DEN as int / (FX_SCALE as int)
}

/// The full treatment of one linear channel: average over the samples, gamma
/// correct, quantize.
pub open spec fn channel_spec(x: int, samples: int) -> int {
    quantize_spec(gamma_spec(fx_mul(x, fx_div(FX_SCALE as int, samples * FX_SCALE as int))))
}

/// Every quantized channel lies in `[0, 255]`, whatever the input.
pub proof fn lemma_quantize_bounds(x: int)
    ensures
        0 <= quantize_spec(x) <= 255,
{
    let c = iv_clamp(0, CLAMP_RAW as int, x);
    assert(0 <= c <= CLAMP_RAW as int);
    vstd::arithmetic::div_mod::lemma_div_pos_is_pos(c * QUANT_NUM as int, QUANT_DEN as int);
    vstd::arithmetic::div_mod::lemma_div_pos_is_pos(
        c * QUANT_NUM as int / QUANT_DEN as int,
        FX_SCALE as int,
    );
    vstd::arithmetic::div_mod::lemma_div_is_ordered(
        c * QUANT_NUM as int,
        16760254530,
        QUANT_DEN as int,
    );
    vstd::arithmetic::div_mod::lemma_div_is_ordered(
        c * QUANT_NUM as int / QUANT_DEN as int,
        16760254,
        FX_SCALE as int,
    );
}

/// Filtering one in-range color by another stays in range: attenuation can
/// only dim.
pub proof fn lemma_color01_mul(a: V3, b: V3)
    requires
        color01(a),
        color01(b),
    ensures
        color01(v3_mul(a, b)),
{
    crate::fixed::lemma_fx_mul_le_right(a.x, b.x);
    crate::fixed::lemma_fx_mul_le_right(a.y, b.y);
    crate::fixed::lemma_fx_mul_le_right(a.z, b.z);
}

/// Gamma correction is monotonic: a larger linear input never produces a
/// smaller gamma-space output.
pub proof fn lemma_gamma_monotonic(x: int, y: int)
    requires
        x <= y,
    ensures
        gamma_spec(x) <= gamma_spec(y),
{
    if y >= 0 {
        let lo = if x < 0 {
            0
        } else {
            x
        };
        lemma_isqrt_monotonic(lo * FX_SCALE as int, y * FX_SCALE as int);
        if x < 0 {
            lemma_isqrt_monotonic(0, y * FX_SCALE as int);
            lemma_isqrt_unique(0, 0);
        }
    }
}

/// Gamma correction fixes the endpoints of the linear range: zero and one are
/// their own gamma images (the only linear values for which correcting twice
/// changes nothing).
pub proof fn lemma_gamma_fixes_endpoints()
    ensures
        gamma_spec(0) == 0,
        gamma_spec(FX_SCALE as int) == FX_SCALE as int,
{
    lemma_isqrt_unique(0, 0);
    assert((65536int + 1) * (65536int + 1) == 4295098369);
    lemma_isqrt_unique(FX_SCALE as int * FX_SCALE as int, FX_SCALE as int);
}

/// One output pixel: three 8-bit channels.
#[derive(Clone, Copy, Debug, PartialEq, Eq, Structural)]
pub struct Pixel {
    pub r: u8,
    pub g: u8,
    pub b: u8,
}

/// An RGB color carried as an unnormalized linear-light vector.
#[derive(Clone, Copy, Debug)]
pub struct Color(pub Vec3);

impl View for Color {
    type V = V3;

    open spec fn view(&self) -> V3 {
        self.0@
    }
}

/// Quantize one gamma-corrected channel to 8 bits.
fn quantize(g: Fx) -> (r: u8)
    ensures
        r as int == quantize_spec(g@),
{
    let intensity = Interval::new(Fx::zero(), Fx::from_raw(CLAMP_RAW));
    let cl: i64 = intensity.clamp(g).raw();
    let q1: u64 = cl as u64 * QUANT_NUM as u64 / QUANT_DEN as u64;
    proof {
        vstd::arithmetic::div_mod::lemma_div_is_ordered(
            cl * QUANT_NUM as int,
            16760254530,
            QUANT_DEN as int,
        );
        vstd::arithmetic::div_mod::lemma_div_is_ordered(q1 as int, 16760254, FX_SCALE as int);
    }
    let q2: u64 = q1 / FX_SCALE as u64;
    q2 as u8
}

impl Color {
    /// Black.
    pub fn zero() -> (r: Color)
        ensures
            r@ == (V3 { x: 0, y: 0, z: 0 }),
    {
        Color(Vec3::zero())
    }

    /// A color from three channel values.
    pub fn new(r: Fx, g: Fx, b: Fx) -> (c: Color)
        ensures
            c@ == (V3 { x: r@, y: g@, z: b@ }),
    {
        Color(Vec3::new(r, g, b))
    }

    /// Component-wise sum.
    pub fn add(self, o: Color) -> (r: Color)
        ensures
            r@ == v3_add(self@, o@),
    {
        Color(self.0.add(o.0))
    }

    /// Component-wise product (filtering one color by another).
    pub fn mul(self, o: Color) -> (r: Color)
        ensures
            r@ == v3_mul(self@, o@),
    {
        Color(self.0.mul(o.0))
    }

    /// Scaling by a scalar.
    pub fn scale(self, t: Fx) -> (r: Color)
        ensures
            r@ == v3_scale(self@, t@),
    {
        Color(self.0.scale(t))
    }

    /// Gamma correction of one linear channel.
    pub fn linear_to_gamma(linear_component: Fx) -> (r: Fx)
        ensures
            r@ == gamma_spec(linear_component@),
    {
        if linear_component.lt(Fx::zero()) {
            Fx::zero()
        } else {
            linear_component.sqrt()
        }
    }

    /// Averages the accumulated samples, gamma corrects, clamps and quantizes
    /// each channel to its final 8-bit value.
    pub fn write_color(pixel_color: Color, samples_per_pixel: i32) -> (p: Pixel)
        requires
            samples_per_pixel >= 1,
        ensures
            p.r as int == channel_spec(pixel_color@.x, samples_per_pixel as int),
            p.g as int == channel_spec(pixel_color@.y, samples_per_pixel as int),
            p.b as int == channel_spec(pixel_color@.z, samples_per_pixel as int),
    {
        let scale = Fx::one().div(Fx::from_int(samples_per_pixel));
        let r = Color::linear_to_gamma(pixel_color.0.x().mul(scale));
        let g = Color::linear_to_gamma(pixel_color.0.y().mul(scale));
        let b = Color::linear_to_gamma(pixel_color.0.z().mul(scale));
        Pixel { r: quantize(r), g: quantize(g), b: quantize(b) }
    }
}

} // verus!
