//! Fixed-point scalar arithmetic: the numeric foundation of the tracer.
//!
//! An [`Fx`] stores a real number scaled by 2^16 in an `i64`. Every operation
//! saturates symmetrically at `±i64::MAX` and rounds quotients toward zero,
//! and its result is pinned exactly by the spec functions below, so all
//! geometry and shading built on top has an exact integer-level meaning.

use vstd::prelude::*;

verus! {

/// Number of raw units per 1.0.
pub const FX_SCALE: i64 = 65536;

/// Largest representable raw value.
pub const FX_MAX: i64 = i64::MAX;

/// Smallest representable raw value; symmetric with `FX_MAX` so that
/// negation never overflows.
pub const FX_MIN: i64 = -i64::MAX;

/// Saturate a mathematical integer into the representable raw range.
pub open spec fn fx_clip(x: int) -> int {
    if x > FX_MAX as int {
        FX_MAX as int
    } else if x < FX_MIN as int {
        FX_MIN as int
    } else {
        x
    }
}

/// Absolute value of a mathematical integer.
pub open spec fn abs_int(x: int) -> int {
    if x >= 0 {
        x
    } else {
        -x
    }
}

/// Quotient of `n / d` rounded toward zero (the rounding of the executable
/// magnitude-and-sign division below). Meaningful only for `d != 0`.
pub open spec fn quot_to_zero(n: int, d: int) -> int {
    let q = abs_int(n) / abs_int(d);
    if (n >= 0) == (d >= 0) {
        q
    } else {
        -q
    }
}

/// Saturating fixed-point addition.
pub open spec fn fx_add(a: int, b: int) -> int {
    fx_clip(a + b)
}

/// Saturating fixed-point subtraction.
pub open spec fn fx_sub(a: int, b: int) -> int {
    fx_clip(a - b)
}

/// Saturating fixed-point negation.
pub open spec fn fx_neg(a: int) -> int {
    fx_clip(-a)
}

/// Saturating fixed-point absolute value.
pub open spec fn fx_abs(a: int) -> int {
    fx_clip(abs_int(a))
}

/// Fixed-point product: scaled back down by `FX_SCALE`, rounded toward zero,
/// then saturated.
pub open spec fn fx_mul(a: int, b: int) -> int {
    fx_clip(quot_to_zero(a * b, FX_SCALE as int))
}

/// Fixed-point quotient: scaled up by `FX_SCALE`, rounded toward zero, then
/// saturated. Meaningful only for `b != 0`.
pub open spec fn fx_div(a: int, b: int) -> int {
    fx_clip(quot_to_zero(a * FX_SCALE as int, b))
}

/// `r` is the integer square root of `n`.
pub open spec fn is_isqrt(n: int, r: int) -> bool {
    &&& 0 <= r
    &&& r * r <= n
    &&& n < (r + 1) * (r + 1)
}

/// The integer square root of `n`; meaningful for `n >= 0`
/// (see `lemma_isqrt_exists`).
pub open spec fn isqrt_spec(n: int) -> int {
    choose|r: int| is_isqrt(n, r)
}

/// Fixed-point square root: the integer square root of the raw value scaled
/// up by `FX_SCALE`, so that `fx_sqrt` of 1.0 is 1.0. Meaningful for `a >= 0`.
pub open spec fn fx_sqrt(a: int) -> int {
    isqrt_spec(a * FX_SCALE as int)
}

/// A raw value is representable.
pub open spec fn fx_ok(x: int) -> bool {
    FX_MIN as int <= x <= FX_MAX as int
}

/// The smaller of two mathematical integers.
pub open spec fn min_int(a: int, b: int) -> int {
    if a <= b {
        a
    } else {
        b
    }
}

/// The larger of two mathematical integers.
pub open spec fn max_int(a: int, b: int) -> int {
    if a >= b {
        a
    } else {
        b
    }
}

/// A fixed-point square is never negative.
pub proof fn lemma_fx_square_nonneg(a: int)
    ensures
        fx_mul(a, a) >= 0,
{
    assert(a * a >= 0) by (nonlinear_arith);
}

/// Scaling a non-negative value by a factor in `[0, 1]` never increases it.
pub proof fn lemma_fx_mul_le_right(a: int, b: int)
    requires
        0 <= a <= FX_SCALE as int,
        0 <= b <= FX_MAX as int,
    ensures
        0 <= fx_mul(a, b) <= b,
{
    vstd::arithmetic::mul::lemma_mul_nonnegative(a, b);
    vstd::arithmetic::div_mod::lemma_div_pos_is_pos(a * b, FX_SCALE as int);
    assert(a * b <= FX_SCALE as int * b) by (nonlinear_arith)
        requires
            0 <= a <= FX_SCALE as int,
            0 <= b,
    ;
    vstd::arithmetic::div_mod::lemma_multiply_divide_le(a * b, FX_SCALE as int, b);
}

/// Multiplying by one is the identity on representable values.
pub proof fn lemma_fx_mul_one(b: int)
    requires
        0 <= b <= FX_MAX as int,
    ensures
        fx_mul(FX_SCALE as int, b) == b,
{
    vstd::arithmetic::mul::lemma_mul_nonnegative(FX_SCALE as int, b);
    vstd::arithmetic::div_mod::lemma_div_by_multiple(b, FX_SCALE as int);
    vstd::arithmetic::mul::lemma_mul_is_commutative(FX_SCALE as int, b);
}

/// Truncating division is monotone in the numerator for positive divisors.
pub proof fn lemma_quot_monotone(n1: int, n2: int, d: int)
    requires
        n1 <= n2,
        d > 0,
    ensures
        quot_to_zero(n1, d) <= quot_to_zero(n2, d),
{
    if n1 >= 0 {
        vstd::arithmetic::div_mod::lemma_div_is_ordered(n1, n2, d);
    } else if n2 < 0 {
        vstd::arithmetic::div_mod::lemma_div_is_ordered(-n2, -n1, d);
    } else {
        vstd::arithmetic::div_mod::lemma_div_pos_is_pos(n2, d);
        vstd::arithmetic::div_mod::lemma_div_pos_is_pos(-n1, d);
    }
}

/// Negating the second factor negates a fixed-point product.
pub proof fn lemma_fx_mul_neg_right(a: int, b: int)
    requires
        fx_ok(b),
    ensures
        fx_mul(a, fx_neg(b)) == fx_neg(fx_mul(a, b)),
{
    assert(a * (-b) == -(a * b)) by (nonlinear_arith);
}

/// A quotient of non-negative by positive is non-negative.
pub proof fn lemma_fx_div_nonneg(a: int, b: int)
    requires
        a >= 0,
        b > 0,
    ensures
        fx_div(a, b) >= 0,
{
    vstd::arithmetic::div_mod::lemma_div_pos_is_pos(a * FX_SCALE as int, b);
}

/// Scaling a non-negative value by a fraction below one keeps it
/// non-negative and strictly shrinks it (unless it is zero).
pub proof fn lemma_fx_mul_frac(d: int, f: int)
    requires
        0 <= d <= FX_MAX as int,
        0 <= f < FX_SCALE as int,
    ensures
        0 <= fx_mul(d, f),
        d >= 1 ==> fx_mul(d, f) < d,
        d == 0 ==> fx_mul(d, f) == 0,
{
    vstd::arithmetic::mul::lemma_mul_nonnegative(d, f);
    vstd::arithmetic::div_mod::lemma_div_pos_is_pos(d * f, FX_SCALE as int);
    if d >= 1 {
        assert(d * f < FX_SCALE as int * d) by (nonlinear_arith)
            requires
                0 <= f < FX_SCALE as int,
                d >= 1,
        ;
        vstd::arithmetic::div_mod::lemma_multiply_divide_lt(d * f, FX_SCALE as int, d);
    }
}

/// A fixed-point scalar: the real number `raw / 2^16`.
#[derive(Clone, Copy, Debug, PartialEq, Eq, Structural)]
pub struct Fx {
    raw: i64,
}

impl View for Fx {
    type V = int;

    closed spec fn view(&self) -> int {
        self.raw as int
    }
}

/// The integer square root is unique, so any witness equals `isqrt_spec`.
pub proof fn lemma_isqrt_unique(n: int, r: int)
    requires
        is_isqrt(n, r),
    ensures
        isqrt_spec(n) == r,
{
    let s = isqrt_spec(n);
    assert(is_isqrt(n, s));
    if r < s {
        assert((r + 1) * (r + 1) <= s * s) by (nonlinear_arith)
            requires
                0 <= r,
                r < s,
        ;
        assert(false);
    }
    if s < r {
        assert((s + 1) * (s + 1) <= r * r) by (nonlinear_arith)
            requires
                0 <= s,
                s < r,
        ;
        assert(false);
    }
}

/// Every nonnegative integer has an integer square root.
pub proof fn lemma_isqrt_exists(n: int)
    requires
        n >= 0,
    ensures
        is_isqrt(n, isqrt_spec(n)),
    decreases n,
{
    if n == 0 {
        assert(is_isqrt(0, 0));
    } else {
        lemma_isqrt_exists(n - 1);
        let r = isqrt_spec(n - 1);
        assert(is_isqrt(n - 1, r));
        if (r + 1) * (r + 1) <= n {
            assert(n < (r + 2) * (r + 2)) by (nonlinear_arith)
                requires
                    0 <= r,
                    n - 1 < (r + 1) * (r + 1),
            ;
            assert(is_isqrt(n, r + 1));
        } else {
            assert(is_isqrt(n, r));
        }
    }
}

/// The integer square root never decreases when its argument grows.
pub proof fn lemma_isqrt_monotonic(n1: int, n2: int)
    requires
        0 <= n1 <= n2,
    ensures
        isqrt_spec(n1) <= isqrt_spec(n2),
{
    lemma_isqrt_exists(n1);
    lemma_isqrt_exists(n2);
    let r1 = isqrt_spec(n1);
    let r2 = isqrt_spec(n2);
    if r2 < r1 {
        assert((r2 + 1) * (r2 + 1) <= r1 * r1) by (nonlinear_arith)
            requires
                0 <= r2,
                r2 < r1,
        ;
        assert(false);
    }
}

/// Signs and magnitudes of an integer product.
proof fn lemma_mul_sign_abs(a: int, b: int)
    by (nonlinear_arith)
    ensures
        abs_int(a * b) == abs_int(a) * abs_int(b),
        ((a >= 0) == (b >= 0)) ==> a * b >= 0,
        !((a >= 0) == (b >= 0)) ==> a * b <= 0,
{
}

/// The product of two `i64` values fits in an `i128`.
proof fn lemma_i64_prod_fits(a: int, b: int)
    by (nonlinear_arith)
    requires
        i64::MIN as int <= a <= i64::MAX as int,
        i64::MIN as int <= b <= i64::MAX as int,
    ensures
        -0x40000000000000000000000000000000 <= a * b <= 0x40000000000000000000000000000000,
{
}

/// Saturate an `i128` into the raw `i64` range.
fn clip_i128(x: i128) -> (r: i64)
    ensures
        r as int == fx_clip(x as int),
{
    if x > FX_MAX as i128 {
        FX_MAX
    } else if x < FX_MIN as i128 {
        FX_MIN
    } else {
        x as i64
    }
}

/// Integer square root by binary search: returns `r` with
/// `r^2 <= n < (r+1)^2`. Requires `n < 2^80` so the search can start at
/// `2^40`.
fn isqrt_u128(n: u128) -> (r: u128)
    requires
        (n as int) < 0x100000000000000000000,
    ensures
        is_isqrt(n as int, r as int),
        r < 0x10000000000,
{
    let mut lo: u128 = 0;
    let mut hi: u128 = 0x10000000000;
    proof {
        assert((0x10000000000int) * (0x10000000000int) == 0x100000000000000000000int);
    }
    while lo + 1 < hi
        invariant
            lo < hi <= 0x10000000000,
            (lo as int) * (lo as int) <= n as int,
            (n as int) < (hi as int) * (hi as int),
        decreases hi - lo,
    {
        let mid = lo + (hi - lo) / 2;
        proof {
            assert((mid as int) * (mid as int) <= 0x100000000000000000000int) by (nonlinear_arith)
                requires
                    0 <= mid as int <= 0x10000000000int,
            ;
        }
        if mid * mid <= n {
            lo = mid;
        } else {
            hi = mid;
        }
    }
    lo
}

impl Fx {
    /// Zero.
    pub fn zero() -> (r: Fx)
        ensures
            r@ == 0,
    {
        Fx { raw: 0 }
    }

    /// One (the scale factor itself).
    pub fn one() -> (r: Fx)
        ensures
            r@ == FX_SCALE as int,
    {
        Fx { raw: FX_SCALE }
    }

    /// Build a scalar from a raw (already scaled) value, saturating.
    pub fn from_raw(raw: i64) -> (r: Fx)
        ensures
            r@ == fx_clip(raw as int),
    {
        Fx { raw: clip_i128(raw as i128) }
    }

    /// Build a scalar from a small integer.
    pub fn from_int(v: i32) -> (r: Fx)
        ensures
            r@ == v as int * FX_SCALE as int,
    {
        Fx { raw: (v as i64) * FX_SCALE }
    }

    /// The raw (scaled) representation.
    pub fn raw(self) -> (r: i64)
        ensures
            r as int == self@,
    {
        self.raw
    }

    /// The integer part, rounded toward zero.
    pub fn trunc(self) -> (r: i64)
        ensures
            r as int == quot_to_zero(self@, FX_SCALE as int),
    {
        if self.raw >= 0 {
            (self.raw as u64 / FX_SCALE as u64) as i64
        } else {
            let m: i128 = -(self.raw as i128);
            -((m as u128 / FX_SCALE as u128) as i64)
        }
    }

    /// Saturating addition.
    pub fn add(self, o: Fx) -> (r: Fx)
        ensures
            r@ == fx_add(self@, o@),
    {
        Fx { raw: clip_i128(self.raw as i128 + o.raw as i128) }
    }

    /// Saturating subtraction.
    pub fn sub(self, o: Fx) -> (r: Fx)
        ensures
            r@ == fx_sub(self@, o@),
    {
        Fx { raw: clip_i128(self.raw as i128 - o.raw as i128) }
    }

    /// Saturating negation.
    pub fn neg(self) -> (r: Fx)
        ensures
            r@ == fx_neg(self@),
    {
        Fx { raw: clip_i128(-(self.raw as i128)) }
    }

    /// Saturating absolute value.
    pub fn abs(self) -> (r: Fx)
        ensures
            r@ == fx_abs(self@),
    {
        if self.raw >= 0 {
            self
        } else {
            Fx { raw: clip_i128(-(self.raw as i128)) }
        }
    }

    /// Fixed-point product, rounded toward zero, saturating.
    pub fn mul(self, o: Fx) -> (r: Fx)
        ensures
            r@ == fx_mul(self@, o@),
    {
        let a = self.raw as i128;
        let b = o.raw as i128;
        proof {
            lemma_i64_prod_fits(self.raw as int, o.raw as int);
            lemma_mul_sign_abs(self.raw as int, o.raw as int);
        }
        let p: i128 = a * b;
        if p >= 0 {
            let q: u128 = p as u128 / FX_SCALE as u128;
            if q > FX_MAX as u128 {
                Fx { raw: FX_MAX }
            } else {
                Fx { raw: q as i64 }
            }
        } else {
            let m: u128 = (-p) as u128;
            let q: u128 = m / FX_SCALE as u128;
            if q > FX_MAX as u128 {
                Fx { raw: FX_MIN }
            } else {
                Fx { raw: -(q as i64) }
            }
        }
    }

    /// Fixed-point quotient, rounded toward zero, saturating.
    pub fn div(self, o: Fx) -> (r: Fx)
        requires
            o@ != 0,
        ensures
            r@ == fx_div(self@, o@),
    {
        let n: i128 = self.raw as i128 * FX_SCALE as i128;
        let nm: u128 = if n >= 0 {
            n as u128
        } else {
            (-n) as u128
        };
        let dm: u128 = if o.raw >= 0 {
            o.raw as u128
        } else {
            (-(o.raw as i128)) as u128
        };
        let q: u128 = nm / dm;
        proof {
            lemma_mul_sign_abs(self.raw as int, FX_SCALE as int);
        }
        if (n >= 0) == (o.raw >= 0) {
            if q > FX_MAX as u128 {
                Fx { raw: FX_MAX }
            } else {
                Fx { raw: q as i64 }
            }
        } else {
            if q > FX_MAX as u128 {
                Fx { raw: FX_MIN }
            } else {
                Fx { raw: -(q as i64) }
            }
        }
    }

    /// Fixed-point square root.
    pub fn sqrt(self) -> (r: Fx)
        requires
            self@ >= 0,
        ensures
            r@ == fx_sqrt(self@),
            is_isqrt(self@ * FX_SCALE as int, r@),
            r@ >= 0,
    {
        let n: u128 = self.raw as u128 * FX_SCALE as u128;
        let r = isqrt_u128(n);
        proof {
            lemma_isqrt_unique(n as int, r as int);
        }
        Fx { raw: r as i64 }
    }

    /// Strict comparison.
    pub fn lt(self, o: Fx) -> (r: bool)
        ensures
            r == (self@ < o@),
    {
        self.raw < o.raw
    }

    /// Non-strict comparison.
    pub fn le(self, o: Fx) -> (r: bool)
        ensures
            r == (self@ <= o@),
    {
        self.raw <= o.raw
    }

    /// The smaller of two scalars.
    pub fn min(self, o: Fx) -> (r: Fx)
        ensures
            r@ == if self@ <= o@ { self@ } else { o@ },
    {
        if self.raw <= o.raw {
            self
        } else {
            o
        }
    }

    /// The larger of two scalars.
    pub fn max(self, o: Fx) -> (r: Fx)
        ensures
            r@ == if self@ >= o@ { self@ } else { o@ },
    {
        if self.raw >= o.raw {
            self
        } else {
            o
        }
    }
}

} // verus!
