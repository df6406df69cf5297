//! Three-component vector algebra over fixed-point scalars.
//!
//! [`Vec3`] doubles as a spatial point ([`Point3`]) and, via
//! [`crate::color::Color`], as an RGB triple. Every operation's result is
//! pinned by a spec-level mirror over the ghost model [`V3`].

use vstd::prelude::*;

use crate::color::Color;
use crate::fixed::{
    fx_add, fx_div, fx_mul, fx_neg, fx_ok, fx_sqrt, fx_sub, is_isqrt, lemma_fx_mul_neg_right,
    lemma_fx_square_nonneg, max_int, min_int, Fx, FX_SCALE,
};
use crate::rtweekend::{random_double, random_double_range};

verus! {

/// The mathematical model of a vector: three raw fixed-point components.
pub ghost struct V3 {
    pub x: int,
    pub y: int,
    pub z: int,
}

/// Component-wise saturating addition.
pub open spec fn v3_add(a: V3, b: V3) -> V3 {
    V3 { x: fx_add(a.x, b.x), y: fx_add(a.y, b.y), z: fx_add(a.z, b.z) }
}

/// Component-wise saturating subtraction.
pub open spec fn v3_sub(a: V3, b: V3) -> V3 {
    V3 { x: fx_sub(a.x, b.x), y: fx_sub(a.y, b.y), z: fx_sub(a.z, b.z) }
}

/// Component-wise negation.
pub open spec fn v3_neg(a: V3) -> V3 {
    V3 { x: fx_neg(a.x), y: fx_neg(a.y), z: fx_neg(a.z) }
}

/// Scaling by a fixed-point scalar.
pub open spec fn v3_scale(a: V3, t: int) -> V3 {
    V3 { x: fx_mul(a.x, t), y: fx_mul(a.y, t), z: fx_mul(a.z, t) }
}

/// Component-wise product.
pub open spec fn v3_mul(a: V3, b: V3) -> V3 {
    V3 { x: fx_mul(a.x, b.x), y: fx_mul(a.y, b.y), z: fx_mul(a.z, b.z) }
}

/// Division by a fixed-point scalar; meaningful only for `t != 0`.
pub open spec fn v3_div_scalar(a: V3, t: int) -> V3 {
    V3 { x: fx_div(a.x, t), y: fx_div(a.y, t), z: fx_div(a.z, t) }
}

/// Dot product, accumulated left to right.
pub open spec fn v3_dot(a: V3, b: V3) -> int {
    fx_add(fx_add(fx_mul(a.x, b.x), fx_mul(a.y, b.y)), fx_mul(a.z, b.z))
}

/// Cross product.
pub open spec fn v3_cross(a: V3, b: V3) -> V3 {
    V3 {
        x: fx_sub(fx_mul(a.y, b.z), fx_mul(a.z, b.y)),
        y: fx_sub(fx_mul(a.z, b.x), fx_mul(a.x, b.z)),
        z: fx_sub(fx_mul(a.x, b.y), fx_mul(a.y, b.x)),
    }
}

/// Squared length.
pub open spec fn v3_len_sq(a: V3) -> int {
    v3_dot(a, a)
}

/// Length: fixed-point square root of the squared length.
pub open spec fn v3_len(a: V3) -> int {
    fx_sqrt(v3_len_sq(a))
}

/// Normalization; meaningful only for `v3_len_sq(a) > 0`.
pub open spec fn v3_unit(a: V3) -> V3 {
    v3_div_scalar(a, v3_len(a))
}

/// All components vanish. The degeneracy threshold of `1e-8` lies below this
/// representation's smallest nonzero magnitude of `2^-16`, so at this
/// resolution the test is exact zero.
pub open spec fn v3_near_zero(a: V3) -> bool {
    a.x == 0 && a.y == 0 && a.z == 0
}

/// Mirror reflection of `v` about the normal `n`.
pub open spec fn v3_reflect(v: V3, n: V3) -> V3 {
    v3_sub(v, v3_scale(n, fx_add(v3_dot(v, n), v3_dot(v, n))))
}

/// Vector Snell's law: refraction of the unit vector `uv` through a surface
/// with normal `n` and refraction ratio `eta`. The parallel component's
/// squared magnitude is clamped to zero before the square root, guarding
/// against rounding at grazing incidence.
pub open spec fn v3_refract(uv: V3, n: V3, eta: int) -> V3 {
    let cos = min_int(v3_dot(v3_neg(uv), n), FX_SCALE as int);
    let r_perp = v3_scale(v3_add(uv, v3_scale(n, cos)), eta);
    let par_mag = fx_sqrt(max_int(0, fx_sub(FX_SCALE as int, v3_len_sq(r_perp))));
    v3_add(r_perp, v3_scale(n, fx_neg(par_mag)))
}

/// All components are representable (as every component produced by the
/// saturating operations is).
pub open spec fn v3_ok(a: V3) -> bool {
    fx_ok(a.x) && fx_ok(a.y) && fx_ok(a.z)
}

/// The unit-length tolerance window: every random unit direction has a
/// squared length within these raw bounds of one (within about 0.1%).
pub const UNIT_LEN_SQ_MIN_RAW: i64 = 65500;

/// The upper end of the unit-length tolerance window.
pub const UNIT_LEN_SQ_MAX_RAW: i64 = 65600;

/// A direction produced by normalizing some interior point of the unit
/// sphere, with its squared length inside the unit tolerance window. This is
/// exactly what [`Vec3::random_unit_vector`] promises of every draw.
pub open spec fn is_unit_sample(u: V3) -> bool {
    &&& exists|q: V3| 0 < v3_len_sq(q) < FX_SCALE as int && u == #[trigger] v3_unit(q)
    &&& UNIT_LEN_SQ_MIN_RAW as int <= v3_len_sq(u) <= UNIT_LEN_SQ_MAX_RAW as int
}

/// Negating the second argument negates a dot product.
pub proof fn lemma_v3_dot_neg_right(a: V3, b: V3)
    requires
        v3_ok(b),
    ensures
        v3_dot(a, v3_neg(b)) == fx_neg(v3_dot(a, b)),
{
    lemma_fx_mul_neg_right(a.x, b.x);
    lemma_fx_mul_neg_right(a.y, b.y);
    lemma_fx_mul_neg_right(a.z, b.z);
}

/// The squared length of any vector is non-negative.
pub proof fn lemma_v3_len_sq_nonneg(a: V3)
    ensures
        v3_len_sq(a) >= 0,
{
    lemma_fx_square_nonneg(a.x);
    lemma_fx_square_nonneg(a.y);
    lemma_fx_square_nonneg(a.z);
}

/// A 3D vector of fixed-point scalars.
#[derive(Clone, Copy, Debug)]
pub struct Vec3 {
    pub x: Fx,
    pub y: Fx,
    pub z: Fx,
}

/// Alias for `Vec3` used where a value denotes a position.
pub type Point3 = Vec3;

impl View for Vec3 {
    type V = V3;

    open spec fn view(&self) -> V3 {
        V3 { x: self.x@, y: self.y@, z: self.z@ }
    }
}

impl Vec3 {
    /// The zero vector.
    pub fn zero() -> (r: Vec3)
        ensures
            r@ == (V3 { x: 0, y: 0, z: 0 }),
    {
        Vec3 { x: Fx::zero(), y: Fx::zero(), z: Fx::zero() }
    }

    /// A vector with the given components.
    pub fn new(x: Fx, y: Fx, z: Fx) -> (r: Vec3)
        ensures
            r@ == (V3 { x: x@, y: y@, z: z@ }),
    {
        Vec3 { x, y, z }
    }

    /// The x component.
    pub fn x(&self) -> (r: Fx)
        ensures
            r@ == self@.x,
    {
        self.x
    }

    /// The y component.
    pub fn y(&self) -> (r: Fx)
        ensures
            r@ == self@.y,
    {
        self.y
    }

    /// The z component.
    pub fn z(&self) -> (r: Fx)
        ensures
            r@ == self@.z,
    {
        self.z
    }

    /// Component-wise sum.
    pub fn add(self, o: Vec3) -> (r: Vec3)
        ensures
            r@ == v3_add(self@, o@),
    {
        Vec3 { x: self.x.add(o.x), y: self.y.add(o.y), z: self.z.add(o.z) }
    }

    /// Component-wise difference.
    pub fn sub(self, o: Vec3) -> (r: Vec3)
        ensures
            r@ == v3_sub(self@, o@),
    {
        Vec3 { x: self.x.sub(o.x), y: self.y.sub(o.y), z: self.z.sub(o.z) }
    }

    /// Negation.
    pub fn neg(self) -> (r: Vec3)
        ensures
            r@ == v3_neg(self@),
    {
        Vec3 { x: self.x.neg(), y: self.y.neg(), z: self.z.neg() }
    }

    /// Scaling by a scalar.
    pub fn scale(self, t: Fx) -> (r: Vec3)
        ensures
            r@ == v3_scale(self@, t@),
    {
        Vec3 { x: self.x.mul(t), y: self.y.mul(t), z: self.z.mul(t) }
    }

    /// Component-wise product.
    pub fn mul(self, o: Vec3) -> (r: Vec3)
        ensures
            r@ == v3_mul(self@, o@),
    {
        Vec3 { x: self.x.mul(o.x), y: self.y.mul(o.y), z: self.z.mul(o.z) }
    }

    /// Division by a scalar.
    pub fn div_scalar(self, t: Fx) -> (r: Vec3)
        requires
            t@ != 0,
        ensures
            r@ == v3_div_scalar(self@, t@),
    {
        Vec3 { x: self.x.div(t), y: self.y.div(t), z: self.z.div(t) }
    }

    /// Dot product.
    pub fn dot(u: &Vec3, v: &Vec3) -> (r: Fx)
        ensures
            r@ == v3_dot(u@, v@),
    {
        u.x.mul(v.x).add(u.y.mul(v.y)).add(u.z.mul(v.z))
    }

    /// Cross product.
    pub fn cross(u: &Vec3, v: &Vec3) -> (r: Vec3)
        ensures
            r@ == v3_cross(u@, v@),
    {
        Vec3 {
            x: u.y.mul(v.z).sub(u.z.mul(v.y)),
            y: u.z.mul(v.x).sub(u.x.mul(v.z)),
            z: u.x.mul(v.y).sub(u.y.mul(v.x)),
        }
    }

    /// Squared length.
    pub fn length_squared(&self) -> (r: Fx)
        ensures
            r@ == v3_len_sq(self@),
            r@ >= 0,
    {
        proof {
            lemma_v3_len_sq_nonneg(self@);
        }
        Vec3::dot(self, self)
    }

    /// Length.
    pub fn length(&self) -> (r: Fx)
        ensures
            r@ == v3_len(self@),
            is_isqrt(v3_len_sq(self@) * FX_SCALE as int, r@),
            r@ >= 0,
    {
        self.length_squared().sqrt()
    }

    /// All components below the degeneracy threshold, which at this
    /// resolution means exactly zero.
    pub fn near_zero(self) -> (r: bool)
        ensures
            r == v3_near_zero(self@),
    {
        self.x.raw() == 0 && self.y.raw() == 0 && self.z.raw() == 0
    }

    /// Normalization to (approximately) unit length.
    pub fn unit_vector(v: Vec3) -> (r: Vec3)
        requires
            v3_len_sq(v@) > 0,
        ensures
            r@ == v3_unit(v@),
    {
        let len = v.length();
        proof {
            // A squared length of at least one raw unit has a square root of
            // at least one raw unit.
            assert(v3_len_sq(v@) * FX_SCALE as int >= FX_SCALE as int) by (nonlinear_arith)
                requires
                    v3_len_sq(v@) >= 1,
            ;
            assert(len@ >= 1) by (nonlinear_arith)
                requires
                    is_isqrt(v3_len_sq(v@) * FX_SCALE as int, len@),
                    v3_len_sq(v@) * FX_SCALE as int >= FX_SCALE as int,
            ;
        }
        v.div_scalar(len)
    }

    /// Mirror reflection of `v` about the normal `n`.
    pub fn reflect(v: Vec3, n: Vec3) -> (r: Vec3)
        ensures
            r@ == v3_reflect(v@, n@),
    {
        let d = Vec3::dot(&v, &n);
        v.sub(n.scale(d.add(d)))
    }

    /// Reinterprets this vector as a color.
    pub fn into_color(self) -> (r: Color)
        ensures
            r@ == self@,
    {
        Color(self)
    }

    /// A random vector with each component in `[0, 1)`.
    pub fn random() -> (r: Vec3)
        ensures
            0 <= r@.x < FX_SCALE as int,
            0 <= r@.y < FX_SCALE as int,
            0 <= r@.z < FX_SCALE as int,
    {
        Vec3 { x: random_double(), y: random_double(), z: random_double() }
    }

    /// A random vector with each component in `[min, max)`.
    pub fn random_r(min: Fx, max: Fx) -> (r: Vec3)
        requires
            fx_ok(min@),
            fx_ok(max@),
            min@ < max@,
        ensures
            min@ <= r@.x < max@,
            min@ <= r@.y < max@,
            min@ <= r@.z < max@,
    {
        Vec3 {
            x: random_double_range(min, max),
            y: random_double_range(min, max),
            z: random_double_range(min, max),
        }
    }

    /// A random point strictly inside the unit sphere (and away from the
    /// exact center, whose normalization would be degenerate), by rejection
    /// sampling. The attempt count is bounded; after astronomically unlikely
    /// streaks of rejections a fixed interior point is used.
    pub fn random_in_unit_sphere() -> (r: Vec3)
        ensures
            0 < v3_len_sq(r@) < FX_SCALE as int,
    {
        let mut attempts: u32 = 0;
        while attempts < 64
            decreases 64 - attempts,
        {
            let p = Vec3::random_r(Fx::from_int(-1), Fx::from_int(1));
            let ls = p.length_squared();
            if 0 < ls.raw() && ls.lt(Fx::one()) {
                return p;
            }
            attempts = attempts + 1;
        }
        let fallback = Vec3 { x: Fx::from_raw(32768), y: Fx::zero(), z: Fx::zero() };
        proof {
            assert(32768int * 32768int == 1073741824int);
            assert(1073741824int / 65536int == 16384int);
            assert(v3_len_sq(fallback@) == 16384);
        }
        fallback
    }

    /// A random direction of unit length within tolerance: a sphere sample,
    /// normalized, accepted only if its squared length lands inside the unit
    /// tolerance window (a draw near the sphere's center is too coarse to
    /// normalize accurately and is redrawn). The attempt count is bounded;
    /// after astronomically unlikely streaks of rejections a fixed exact unit
    /// vector is used.
    pub fn random_unit_vector() -> (r: Vec3)
        ensures
            is_unit_sample(r@),
    {
        let mut attempts: u32 = 0;
        while attempts < 64
            decreases 64 - attempts,
        {
            let p = Vec3::random_in_unit_sphere();
            let u = Vec3::unit_vector(p);
            let lu = u.length_squared();
            if UNIT_LEN_SQ_MIN_RAW <= lu.raw() && lu.raw() <= UNIT_LEN_SQ_MAX_RAW {
                proof {
                    assert(0 < v3_len_sq(p@) < FX_SCALE as int && u@ == v3_unit(p@));
                }
                return u;
            }
            attempts = attempts + 1;
        }
        let axis = Vec3 { x: Fx::one(), y: Fx::zero(), z: Fx::zero() };
        proof {
            let q = V3 { x: 32768, y: 0, z: 0 };
            assert(32768int * 32768int == 1073741824int);
            assert(1073741824int / 65536int == 16384int);
            assert(v3_len_sq(q) == 16384);
            assert(16384int * FX_SCALE as int == 1073741824int);
            crate::fixed::lemma_isqrt_unique(1073741824int, 32768int);
            assert(v3_len(q) == 32768);
            assert(2147483648int / 32768int == 65536int);
            assert(v3_unit(q) == axis@);
            assert(fx_mul(FX_SCALE as int, FX_SCALE as int) == FX_SCALE as int);
            assert(v3_len_sq(axis@) == FX_SCALE as int);
        }
        axis
    }

    /// A random point inside the unit disk in the xy plane, by rejection
    /// sampling with a bounded attempt count (the center is a valid sample,
    /// so the fallback is the center itself).
    pub fn random_in_unit_disk() -> (r: Vec3)
        ensures
            v3_len_sq(r@) < FX_SCALE as int,
            r@.z == 0,
    {
        let mut attempts: u32 = 0;
        while attempts < 64
            decreases 64 - attempts,
        {
            let p = Vec3 {
                x: random_double_range(Fx::from_int(-1), Fx::from_int(1)),
                y: random_double_range(Fx::from_int(-1), Fx::from_int(1)),
                z: Fx::zero(),
            };
            let ls = p.length_squared();
            if ls.lt(Fx::one()) {
                return p;
            }
            attempts = attempts + 1;
        }
        Vec3::zero()
    }

    /// Vector Snell's law refraction.
    pub fn refract(uv: &Vec3, n: &Vec3, etai_over_etat: Fx) -> (r: Vec3)
        ensures
            r@ == v3_refract(uv@, n@, etai_over_etat@),
    {
        let cos_theta = Vec3::dot(&uv.neg(), n).min(Fx::one());
        let r_out_perp = uv.add(n.scale(cos_theta)).scale(etai_over_etat);
        let par_sq = Fx::one().sub(r_out_perp.length_squared()).max(Fx::zero());
        let r_out_parallel = n.scale(par_sq.sqrt().neg());
        r_out_perp.add(r_out_parallel)
    }
}

} // verus!
