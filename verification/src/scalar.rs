//! Fixed-point scalar arithmetic.
//!
//! A [`Scalar`] stores a signed count of millionths of a unit, so six decimal
//! places are carried exactly. Every operation rounds to the nearest
//! representable value (halves away from zero) and saturates at the ends of
//! the `i64` range; the spec functions below give each operation its exact
//! integer meaning, which all higher-level contracts are stated over.

use vstd::prelude::*;

verus! {

/// Fixed-point steps per unit: every quantity carries six decimal places.
pub const SCALE: i64 = 1_000_000;

/// Absolute tolerance for approximate equality: one ten-thousandth of a unit.
pub const EPSILON: i64 = 100;

/// Magnitude of an unbounded integer.
pub open spec fn iabs(x: int) -> int {
    if x < 0 {
        -x
    } else {
        x
    }
}

/// True when `x` fits in the representable range.
pub open spec fn in_range(x: int) -> bool {
    i64::MIN <= x <= i64::MAX
}

/// Saturate an unbounded integer into the representable range.
pub open spec fn clip(x: int) -> int {
    if x > i64::MAX as int {
        i64::MAX as int
    } else if x < i64::MIN as int {
        i64::MIN as int
    } else {
        x
    }
}

/// Quotient `n / d` rounded to the nearest integer, halves away from zero.
pub open spec fn div_near(n: int, d: int) -> int
    recommends
        d > 0,
{
    let q = iabs(n) / d;
    let r = iabs(n) % d;
    let rq = if r >= d - r {
        q + 1
    } else {
        q
    };
    if n < 0 {
        -rq
    } else {
        rq
    }
}

/// Saturating fixed-point addition.
pub open spec fn s_add(a: int, b: int) -> int {
    clip(a + b)
}

/// Saturating fixed-point subtraction.
pub open spec fn s_sub(a: int, b: int) -> int {
    clip(a - b)
}

/// Fixed-point negation (the most negative value saturates).
pub open spec fn s_neg(a: int) -> int {
    clip(-a)
}

/// Fixed-point absolute value (the most negative value saturates).
pub open spec fn s_abs(a: int) -> int {
    clip(iabs(a))
}

/// Fixed-point multiplication: the double-width product is rescaled with
/// rounding to nearest, then saturated.
pub open spec fn s_mul(a: int, b: int) -> int {
    clip(div_near(a * b, SCALE as int))
}

/// Fixed-point division: the numerator is prescaled, the quotient rounded to
/// nearest, then saturated.
pub open spec fn s_div(a: int, b: int) -> int
    recommends
        b != 0,
{
    if b > 0 {
        clip(div_near(a * (SCALE as int), b))
    } else {
        clip(div_near(-(a * (SCALE as int)), -b))
    }
}

/// Approximate equality: within [`EPSILON`] fixed-point steps.
pub open spec fn s_approx(a: int, b: int) -> bool {
    iabs(a - b) <= EPSILON as int
}

/// `r` is the integer square root of `n`, rounded down.
pub open spec fn is_isqrt(n: int, r: int) -> bool {
    0 <= r && r * r <= n && n < (r + 1) * (r + 1)
}

/// The integer square root of `n`, rounded down (meaningful for `n >= 0`).
pub open spec fn isqrt_of(n: int) -> int {
    choose|r: int| is_isqrt(n, r)
}

/// Fixed-point square root: the square root of `a` millionths of a unit is
/// `isqrt(a * SCALE)` millionths.
pub open spec fn s_sqrt(a: int) -> int
    recommends
        a >= 0,
{
    isqrt_of(a * (SCALE as int))
}

/// Fixed-point power with a whole-number exponent, by repeated multiplication.
pub open spec fn s_pow(b: int, n: nat) -> int
    decreases n,
{
    if n == 0 {
        SCALE as int
    } else {
        s_mul(s_pow(b, (n - 1) as nat), b)
    }
}

/// A fixed-point scalar: `v` counts millionths of a unit.
#[derive(Clone, Copy, PartialEq, Eq, Structural, Debug)]
pub struct Scalar {
    pub v: i64,
}

impl View for Scalar {
    type V = int;

    open spec fn view(&self) -> int {
        self.v as int
    }
}

/// The integer square roots of a number are unique.
pub proof fn lemma_isqrt_unique(n: int, r1: int, r2: int)
    requires
        is_isqrt(n, r1),
        is_isqrt(n, r2),
    ensures
        r1 == r2,
{
    if r1 < r2 {
        assert(r2 * r2 >= (r1 + 1) * (r1 + 1)) by (nonlinear_arith)
            requires
                0 <= r1,
                r1 + 1 <= r2,
        ;
    }
    if r2 < r1 {
        assert(r1 * r1 >= (r2 + 1) * (r2 + 1)) by (nonlinear_arith)
            requires
                0 <= r2,
                r2 + 1 <= r1,
        ;
    }
}

/// Rounded division returns the factor exactly when the dividend is a
/// multiple of the divisor.
pub proof fn lemma_div_near_mul_exact(x: int, d: int)
    requires
        d > 0,
    ensures
        div_near(x * d, d) == x,
{
    if x >= 0 {
        assert(iabs(x * d) == x * d);
        vstd::arithmetic::div_mod::lemma_div_by_multiple(x, d);
        assert((x * d) / d == x);
        vstd::arithmetic::div_mod::lemma_mod_multiples_basic(x, d);
        assert((x * d) % d == 0);
        assert(!(0 >= d - 0));
    } else {
        assert(x * d <= 0) by (nonlinear_arith)
            requires
                x < 0,
                d > 0,
        ;
        assert(iabs(x * d) == -(x * d));
        assert(-(x * d) == (-x) * d) by (nonlinear_arith);
        vstd::arithmetic::div_mod::lemma_div_by_multiple(-x, d);
        vstd::arithmetic::div_mod::lemma_mod_multiples_basic(-x, d);
        assert(((-x) * d) / d == -x);
        assert(((-x) * d) % d == 0);
    }
}

/// Multiplying by one is the identity, up to the representable range.
pub proof fn lemma_s_mul_one(x: int)
    requires
        in_range(x),
    ensures
        s_mul(SCALE as int, x) == x,
        s_mul(x, SCALE as int) == x,
{
    lemma_div_near_mul_exact(x, SCALE as int);
    assert(x * (SCALE as int) == (SCALE as int) * x) by (nonlinear_arith);
}

/// Multiplying by zero gives zero.
pub proof fn lemma_s_mul_zero(x: int)
    ensures
        s_mul(0, x) == 0,
        s_mul(x, 0) == 0,
{
    assert(0 * x == 0) by (nonlinear_arith);
    assert(x * 0 == 0) by (nonlinear_arith);
}

/// Rounded division is off by at most half the divisor:
/// `|d * div_near(n, d) - n| <= d / 2`.
pub proof fn lemma_div_near_err(n: int, d: int)
    requires
        d > 0,
    ensures
        2 * iabs(d * div_near(n, d) - n) <= d,
{
    if n >= 0 {
        lemma_div_near_err_nonneg(n, d);
    } else {
        lemma_div_near_err_nonneg(-n, d);
        let dn = div_near(-n, d);
        assert(div_near(n, d) == -dn);
        assert(d * (-dn) - n == -(d * dn - (-n))) by (nonlinear_arith);
    }
}

proof fn lemma_div_near_err_nonneg(n: int, d: int)
    requires
        d > 0,
        n >= 0,
    ensures
        2 * iabs(d * div_near(n, d) - n) <= d,
{
    let q = n / d;
    let r = n % d;
    vstd::arithmetic::div_mod::lemma_fundamental_div_mod(n, d);
    assert(n == d * q + r);
    if r >= d - r {
        assert(div_near(n, d) == q + 1);
        assert(d * (q + 1) == d * q + d) by (nonlinear_arith);
        assert(d * (q + 1) - n == d - r);
        assert(2 * (d - r) <= d);
    } else {
        assert(div_near(n, d) == q);
        assert(d * q - n == -r);
        assert(2 * r <= d);
    }
}

/// Rounded division keeps the sign of the dividend.
pub proof fn lemma_div_near_sign(n: int, d: int)
    requires
        d > 0,
    ensures
        n >= 0 ==> div_near(n, d) >= 0,
        n < 0 ==> div_near(n, d) <= 0,
{
    vstd::arithmetic::div_mod::lemma_div_pos_is_pos(iabs(n), d);
}

/// Saturate a double-width value into the `i64` range.
fn clip_i128(x: i128) -> (r: i64)
    ensures
        r as int == clip(x as int),
{
    if x > i64::MAX as i128 {
        i64::MAX
    } else if x < i64::MIN as i128 {
        i64::MIN
    } else {
        x as i64
    }
}

/// Unsigned rounded division, halves rounded up.
fn div_near_u128(n: u128, d: u128) -> (q: u128)
    requires
        d > 0,
    ensures
        q as int == div_near(n as int, d as int),
        q <= n,
{
    let q0 = n / d;
    let r = n % d;
    proof {
        vstd::arithmetic::div_mod::lemma_fundamental_div_mod(n as int, d as int);
        assert(iabs(n as int) == n as int);
    }
    if r >= d - r {
        proof {
            assert(r >= 1);
            assert(d >= 2);
            assert(n as int == (n as int / d as int) * (d as int) + (n as int % d as int));
            assert((q0 as int) * (d as int) >= (q0 as int) * 2) by (nonlinear_arith)
                requires
                    d >= 2,
                    q0 >= 0,
            ;
            assert(q0 + 1 <= n);
        }
        q0 + 1
    } else {
        q0
    }
}

/// Signed rounded division by a positive divisor, halves away from zero.
fn div_near_i128(n: i128, d: i128) -> (q: i128)
    requires
        d > 0,
        n > i128::MIN,
    ensures
        q as int == div_near(n as int, d as int),
        iabs(q as int) <= iabs(n as int),
{
    if n < 0 {
        let m = (-n) as u128;
        let qu = div_near_u128(m, d as u128);
        -(qu as i128)
    } else {
        let qu = div_near_u128(n as u128, d as u128);
        qu as i128
    }
}

impl Scalar {
    /// The scalar holding a whole number of units.
    pub fn from_int(units: i64) -> (r: Scalar)
        ensures
            r@ == clip(units * (SCALE as int)),
    {
        proof {
            assert(i128::MIN < (units as int) * (SCALE as int) < i128::MAX) by (nonlinear_arith)
                requires
                    i64::MIN <= units <= i64::MAX,
            ;
        }
        Scalar { v: clip_i128(units as i128 * SCALE as i128) }
    }

    /// The scalar holding exactly `raw` millionths of a unit.
    pub fn from_millionths(raw: i64) -> (r: Scalar)
        ensures
            r@ == raw,
    {
        Scalar { v: raw }
    }

    /// The raw count of millionths of a unit.
    pub fn millionths(self) -> (r: i64)
        ensures
            r as int == self@,
    {
        self.v
    }

    /// Zero.
    pub fn zero() -> (r: Scalar)
        ensures
            r@ == 0,
    {
        Scalar { v: 0 }
    }

    /// One unit.
    pub fn one() -> (r: Scalar)
        ensures
            r@ == SCALE,
    {
        Scalar { v: SCALE }
    }

    /// Saturating addition.
    pub fn add(self, other: Scalar) -> (r: Scalar)
        ensures
            r@ == s_add(self@, other@),
    {
        Scalar { v: clip_i128(self.v as i128 + other.v as i128) }
    }

    /// Saturating subtraction.
    pub fn sub(self, other: Scalar) -> (r: Scalar)
        ensures
            r@ == s_sub(self@, other@),
    {
        Scalar { v: clip_i128(self.v as i128 - other.v as i128) }
    }

    /// Negation.
    pub fn neg(self) -> (r: Scalar)
        ensures
            r@ == s_neg(self@),
    {
        Scalar { v: clip_i128(-(self.v as i128)) }
    }

    /// Absolute value.
    pub fn abs(self) -> (r: Scalar)
        ensures
            r@ == s_abs(self@),
    {
        if self.v < 0 {
            Scalar { v: clip_i128(-(self.v as i128)) }
        } else {
            Scalar { v: self.v }
        }
    }

    /// Rounded, saturating multiplication.
    pub fn mul(self, other: Scalar) -> (r: Scalar)
        ensures
            r@ == s_mul(self@, other@),
    {
        proof {
            lemma_i64_product_fits(self.v as int, other.v as int);
        }
        let n: i128 = self.v as i128 * other.v as i128;
        let q = div_near_i128(n, SCALE as i128);
        Scalar { v: clip_i128(q) }
    }

    /// Rounded, saturating division.
    pub fn div(self, other: Scalar) -> (r: Scalar)
        requires
            other@ != 0,
        ensures
            r@ == s_div(self@, other@),
    {
        proof {
            lemma_i64_product_fits(self.v as int, SCALE as int);
        }
        let n: i128 = self.v as i128 * SCALE as i128;
        if other.v > 0 {
            let q = div_near_i128(n, other.v as i128);
            Scalar { v: clip_i128(q) }
        } else {
            let q = div_near_i128(-n, -(other.v as i128));
            Scalar { v: clip_i128(q) }
        }
    }

    /// Strictly less.
    pub fn lt(self, other: Scalar) -> (r: bool)
        ensures
            r == (self@ < other@),
    {
        self.v < other.v
    }

    /// Less or equal.
    pub fn le(self, other: Scalar) -> (r: bool)
        ensures
            r == (self@ <= other@),
    {
        self.v <= other.v
    }

    /// Strictly greater.
    pub fn gt(self, other: Scalar) -> (r: bool)
        ensures
            r == (self@ > other@),
    {
        self.v > other.v
    }

    /// Greater or equal.
    pub fn ge(self, other: Scalar) -> (r: bool)
        ensures
            r == (self@ >= other@),
    {
        self.v >= other.v
    }

    /// The value rounded to the nearest whole number of units.
    pub fn round_units(self) -> (r: i64)
        ensures
            r as int == div_near(self@, SCALE as int),
    {
        proof {
            lemma_div_near_sign(self.v as int, SCALE as int);
        }
        let q = div_near_i128(self.v as i128, SCALE as i128);
        q as i64
    }

    /// Equality within the fixed absolute tolerance.
    pub fn approx_eq(self, other: Scalar) -> (r: bool)
        ensures
            r == s_approx(self@, other@),
    {
        let d: i128 = self.v as i128 - other.v as i128;
        let a: i128 = if d < 0 {
            -d
        } else {
            d
        };
        a <= EPSILON as i128
    }
}

/// The fixed-point count of a half turn (pi radians, in millionths).
pub const PI_FP: i64 = 3_141_593;

/// The fixed-point count of a quarter turn (pi/2 radians, in millionths).
pub const HALF_PI_FP: i64 = 1_570_796;

/// Truncated Taylor series for the sine of a reduced angle `r`
/// (`|r| <= HALF_PI_FP / 2`): `r - r^3/6 + r^5/120 - r^7/5040`.
pub open spec fn taylor_sin(r: int) -> int {
    let r2 = s_mul(r, r);
    let r3 = s_mul(r2, r);
    let r5 = s_mul(r3, r2);
    let r7 = s_mul(r5, r2);
    s_sub(s_add(s_sub(r, div_near(r3, 6)), div_near(r5, 120)), div_near(r7, 5040))
}

/// Truncated Taylor series for the cosine of a reduced angle `r`
/// (`|r| <= HALF_PI_FP / 2`): `1 - r^2/2 + r^4/24 - r^6/720`.
pub open spec fn taylor_cos(r: int) -> int {
    let r2 = s_mul(r, r);
    let r4 = s_mul(r2, r2);
    let r6 = s_mul(r4, r2);
    s_sub(s_add(s_sub(SCALE as int, div_near(r2, 2)), div_near(r4, 24)), div_near(r6, 720))
}

/// Sine of `m` quarter turns plus the reduced angle `r`.
pub open spec fn sin_quadrant(m: int, r: int) -> int {
    if m == 0 {
        taylor_sin(r)
    } else if m == 1 {
        taylor_cos(r)
    } else if m == 2 {
        s_neg(taylor_sin(r))
    } else {
        s_neg(taylor_cos(r))
    }
}

/// Cosine of `m` quarter turns plus the reduced angle `r`.
pub open spec fn cos_quadrant(m: int, r: int) -> int {
    if m == 0 {
        taylor_cos(r)
    } else if m == 1 {
        s_neg(taylor_sin(r))
    } else if m == 2 {
        s_neg(taylor_cos(r))
    } else {
        taylor_sin(r)
    }
}

/// Sine of a non-negative fixed-point angle: reduce by whole quarter turns,
/// then evaluate the series on the remainder.
pub open spec fn s_sin_nn(u: int) -> int
    recommends
        u >= 0,
{
    let k = (u + (HALF_PI_FP as int) / 2) / (HALF_PI_FP as int);
    let r = u - k * (HALF_PI_FP as int);
    sin_quadrant(k % 4, r)
}

/// Cosine of a non-negative fixed-point angle.
pub open spec fn s_cos_nn(u: int) -> int
    recommends
        u >= 0,
{
    let k = (u + (HALF_PI_FP as int) / 2) / (HALF_PI_FP as int);
    let r = u - k * (HALF_PI_FP as int);
    cos_quadrant(k % 4, r)
}

/// Sine of a fixed-point angle in radians (sine is odd).
pub open spec fn s_sin(a: int) -> int {
    if a >= 0 {
        s_sin_nn(a)
    } else {
        s_neg(s_sin_nn(-a))
    }
}

/// Cosine of a fixed-point angle in radians (cosine is even).
pub open spec fn s_cos(a: int) -> int {
    if a >= 0 {
        s_cos_nn(a)
    } else {
        s_cos_nn(-a)
    }
}

/// Integer square root by bisection.
fn isqrt_u128(n: u128) -> (r: u128)
    requires
        n < 0x1000_0000_0000_0000_0000_0000,  // 2^96
    ensures
        is_isqrt(n as int, r as int),
{
    let mut lo: u128 = 0;
    let mut hi: u128 = 0x1_0000_0000_0000;  // 2^48
    proof {
        assert((0x1_0000_0000_0000 as int) * (0x1_0000_0000_0000 as int) > n as int);
    }
    while lo + 1 < hi
        invariant
            lo < hi,
            hi <= 0x1_0000_0000_0000,
            (lo as int) * (lo as int) <= n as int,
            (n as int) < (hi as int) * (hi as int),
        decreases hi - lo,
    {
        let mid = lo + (hi - lo) / 2;
        proof {
            assert((mid as int) * (mid as int) < 0x1_0000_0000_0000_0000_0000_0000) by (nonlinear_arith)
                requires
                    0 <= mid < 0x1_0000_0000_0000,
            ;
        }
        if mid * mid <= n {
            lo = mid;
        } else {
            hi = mid;
        }
    }
    lo
}

impl Scalar {
    /// Rounded-down fixed-point square root.
    pub fn sqrt(self) -> (r: Scalar)
        requires
            self@ >= 0,
        ensures
            r@ == s_sqrt(self@),
            is_isqrt(self@ * (SCALE as int), r@),
            r@ >= 0,
    {
        let n: u128 = (self.v as u128) * (SCALE as u128);
        let root = isqrt_u128(n);
        proof {
            assert((root as int) < 0x1_0000_0000_0000) by (nonlinear_arith)
                requires
                    is_isqrt(n as int, root as int),
                    n < 0x1000_0000_0000_0000_0000_0000,
            ;
            assert(is_isqrt(self@ * (SCALE as int), root as int));
            assert(exists|q: int| #[trigger] is_isqrt(self@ * (SCALE as int), q));
            lemma_isqrt_unique(self@ * (SCALE as int), root as int, isqrt_of(self@ * (SCALE as int)));
        }
        Scalar { v: root as i64 }
    }

    /// Fixed-point power with a whole-number exponent.
    pub fn powi(self, n: u64) -> (r: Scalar)
        ensures
            r@ == s_pow(self@, n as nat),
    {
        let mut acc = Scalar::one();
        let mut i: u64 = 0;
        while i < n
            invariant
                i <= n,
                acc@ == s_pow(self@, i as nat),
            decreases n - i,
        {
            acc = acc.mul(self);
            i = i + 1;
        }
        acc
    }

    /// Rounded division by a small positive whole number.
    fn div_whole(self, k: i64) -> (r: Scalar)
        requires
            k > 0,
        ensures
            r@ == div_near(self@, k as int),
    {
        let q = div_near_i128(self.v as i128, k as i128);
        Scalar { v: q as i64 }
    }

    /// The truncated sine series on a reduced angle.
    fn taylor_sin_exec(self) -> (r: Scalar)
        ensures
            r@ == taylor_sin(self@),
    {
        let r2 = self.mul(self);
        let r3 = r2.mul(self);
        let r5 = r3.mul(r2);
        let r7 = r5.mul(r2);
        self.sub(r3.div_whole(6)).add(r5.div_whole(120)).sub(r7.div_whole(5040))
    }

    /// The truncated cosine series on a reduced angle.
    fn taylor_cos_exec(self) -> (r: Scalar)
        ensures
            r@ == taylor_cos(self@),
    {
        let r2 = self.mul(self);
        let r4 = r2.mul(r2);
        let r6 = r4.mul(r2);
        Scalar::one().sub(r2.div_whole(2)).add(r4.div_whole(24)).sub(r6.div_whole(720))
    }

    /// Sine and cosine of a non-negative angle, by quadrant reduction.
    fn trig_nn(u: u64) -> (r: (Scalar, Scalar))
        requires
            u <= 0x8000_0000_0000_0000,
        ensures
            r.0@ == s_sin_nn(u as int),
            r.1@ == s_cos_nn(u as int),
    {
        let hp: u64 = HALF_PI_FP as u64;
        let k: u64 = (u + hp / 2) / hp;
        proof {
            vstd::arithmetic::div_mod::lemma_fundamental_div_mod(
                u as int + (HALF_PI_FP as int) / 2,
                HALF_PI_FP as int,
            );
            assert((k as int) * (HALF_PI_FP as int) == (HALF_PI_FP as int) * (k as int))
                by (nonlinear_arith);
        }
        let kh: u128 = (k as u128) * (hp as u128);
        let rr: i128 = u as i128 - kh as i128;
        let red = Scalar { v: rr as i64 };
        let s = red.taylor_sin_exec();
        let c = red.taylor_cos_exec();
        let m = k % 4;
        if m == 0 {
            (s, c)
        } else if m == 1 {
            (c, s.neg())
        } else if m == 2 {
            (s.neg(), c.neg())
        } else {
            (c.neg(), s)
        }
    }

    /// Sine of the angle, in radians.
    pub fn sin(self) -> (r: Scalar)
        ensures
            r@ == s_sin(self@),
    {
        if self.v >= 0 {
            let (s, _) = Scalar::trig_nn(self.v as u64);
            s
        } else {
            let mag = (-(self.v as i128)) as u64;
            let (s, _) = Scalar::trig_nn(mag);
            s.neg()
        }
    }

    /// Cosine of the angle, in radians.
    pub fn cos(self) -> (r: Scalar)
        ensures
            r@ == s_cos(self@),
    {
        if self.v >= 0 {
            let (_, c) = Scalar::trig_nn(self.v as u64);
            c
        } else {
            let mag = (-(self.v as i128)) as u64;
            let (_, c) = Scalar::trig_nn(mag);
            c
        }
    }
}

/// The product of two `i64`-range values fits strictly inside `i128`.
proof fn lemma_i64_product_fits(a: int, b: int)
    requires
        in_range(a),
        in_range(b),
    ensures
        i128::MIN < a * b < i128::MAX,
{
    assert(i128::MIN < a * b < i128::MAX) by (nonlinear_arith)
        requires
            -(0x8000_0000_0000_0000) <= a <= 0x7fff_ffff_ffff_ffff,
            -(0x8000_0000_0000_0000) <= b <= 0x7fff_ffff_ffff_ffff,
    ;
}

} // verus!
