//! Homogeneous 4-component tuples: points (`w == 1`) and vectors (`w == 0`).
//!
//! The `w` convention is carried by the constructors only; arithmetic keeps
//! the conventions closed (point − point = vector, point + vector = point)
//! but the type does not enforce them, so callers must respect them.

use vstd::prelude::*;
use crate::scalar::{
    Scalar, SCALE, iabs, s_add, s_sub, s_neg, s_mul, s_div, s_approx, s_sqrt, is_isqrt,
};

verus! {

/// The mathematical value of a tuple: four fixed-point components.
pub struct TupleModel {
    pub x: int,
    pub y: int,
    pub z: int,
    pub w: int,
}

/// Componentwise sum (all four components take part).
pub open spec fn tup_add(a: TupleModel, b: TupleModel) -> TupleModel {
    TupleModel {
        x: s_add(a.x, b.x),
        y: s_add(a.y, b.y),
        z: s_add(a.z, b.z),
        w: s_add(a.w, b.w),
    }
}

/// Componentwise difference (all four components take part).
pub open spec fn tup_sub(a: TupleModel, b: TupleModel) -> TupleModel {
    TupleModel {
        x: s_sub(a.x, b.x),
        y: s_sub(a.y, b.y),
        z: s_sub(a.z, b.z),
        w: s_sub(a.w, b.w),
    }
}

/// Negation of the spatial components; `w` is kept.
pub open spec fn tup_neg(a: TupleModel) -> TupleModel {
    TupleModel { x: s_neg(a.x), y: s_neg(a.y), z: s_neg(a.z), w: a.w }
}

/// Scaling of the spatial components; `w` is kept.
pub open spec fn tup_scale(a: TupleModel, k: int) -> TupleModel {
    TupleModel { x: s_mul(a.x, k), y: s_mul(a.y, k), z: s_mul(a.z, k), w: a.w }
}

/// Division of the spatial components by a scalar; `w` is kept.
pub open spec fn tup_div(a: TupleModel, k: int) -> TupleModel
    recommends
        k != 0,
{
    TupleModel { x: s_div(a.x, k), y: s_div(a.y, k), z: s_div(a.z, k), w: a.w }
}

/// Dot product over all four components, summed left to right.
pub open spec fn tup_dot(a: TupleModel, b: TupleModel) -> int {
    s_add(s_add(s_add(s_mul(a.x, b.x), s_mul(a.y, b.y)), s_mul(a.z, b.z)), s_mul(a.w, b.w))
}

/// Cross product of the spatial components; the left operand's `w` is kept.
pub open spec fn tup_cross(a: TupleModel, b: TupleModel) -> TupleModel {
    TupleModel {
        x: s_sub(s_mul(a.y, b.z), s_mul(a.z, b.y)),
        y: s_sub(s_mul(a.z, b.x), s_mul(a.x, b.z)),
        z: s_sub(s_mul(a.x, b.y), s_mul(a.y, b.x)),
        w: a.w,
    }
}

/// Sum of the squared spatial components (`w` is excluded).
pub open spec fn tup_sq_mag(a: TupleModel) -> int {
    s_add(s_add(s_mul(a.x, a.x), s_mul(a.y, a.y)), s_mul(a.z, a.z))
}

/// Euclidean length of the spatial components.
pub open spec fn tup_magnitude(a: TupleModel) -> int {
    s_sqrt(tup_sq_mag(a))
}

/// The tuple scaled to unit length (meaningful when the magnitude is not 0).
pub open spec fn tup_normalize(a: TupleModel) -> TupleModel
    recommends
        tup_magnitude(a) != 0,
{
    tup_div(a, tup_magnitude(a))
}

/// Reflection of `v` about the normal `n`: `v - n * (2 * (v . n))`.
pub open spec fn tup_reflect(v: TupleModel, n: TupleModel) -> TupleModel {
    tup_sub(v, tup_scale(n, s_add(tup_dot(v, n), tup_dot(v, n))))
}

/// Componentwise approximate equality, `w` included.
pub open spec fn tup_approx(a: TupleModel, b: TupleModel) -> bool {
    s_approx(a.x, b.x) && s_approx(a.y, b.y) && s_approx(a.z, b.z) && s_approx(a.w, b.w)
}

/// A homogeneous 4-component tuple of fixed-point scalars.
#[derive(Clone, Copy, PartialEq, Eq, Structural, Debug)]
pub struct Tuple {
    pub x: Scalar,
    pub y: Scalar,
    pub z: Scalar,
    pub w: Scalar,
}

impl View for Tuple {
    type V = TupleModel;

    open spec fn view(&self) -> TupleModel {
        TupleModel { x: self.x@, y: self.y@, z: self.z@, w: self.w@ }
    }
}

impl Tuple {
    /// A tuple with all four components given.
    pub fn new(x: Scalar, y: Scalar, z: Scalar, w: Scalar) -> (r: Tuple)
        ensures
            r@ == (TupleModel { x: x@, y: y@, z: z@, w: w@ }),
    {
        Tuple { x, y, z, w }
    }

    /// A point: `w` is one.
    pub fn point(x: Scalar, y: Scalar, z: Scalar) -> (r: Tuple)
        ensures
            r@ == (TupleModel { x: x@, y: y@, z: z@, w: SCALE as int }),
    {
        Tuple { x, y, z, w: Scalar::one() }
    }

    /// A free vector: `w` is zero.
    pub fn vector(x: Scalar, y: Scalar, z: Scalar) -> (r: Tuple)
        ensures
            r@ == (TupleModel { x: x@, y: y@, z: z@, w: 0 }),
    {
        Tuple { x, y, z, w: Scalar::zero() }
    }

    /// The first spatial component.
    pub fn x(&self) -> (r: Scalar)
        ensures
            r@ == self@.x,
    {
        self.x
    }

    /// The second spatial component.
    pub fn y(&self) -> (r: Scalar)
        ensures
            r@ == self@.y,
    {
        self.y
    }

    /// The third spatial component.
    pub fn z(&self) -> (r: Scalar)
        ensures
            r@ == self@.z,
    {
        self.z
    }

    /// The homogeneous component.
    pub fn w(&self) -> (r: Scalar)
        ensures
            r@ == self@.w,
    {
        self.w
    }

    /// Componentwise sum.
    pub fn add(self, rhs: Tuple) -> (r: Tuple)
        ensures
            r@ == tup_add(self@, rhs@),
    {
        Tuple {
            x: self.x.add(rhs.x),
            y: self.y.add(rhs.y),
            z: self.z.add(rhs.z),
            w: self.w.add(rhs.w),
        }
    }

    /// Componentwise difference.
    pub fn sub(self, rhs: Tuple) -> (r: Tuple)
        ensures
            r@ == tup_sub(self@, rhs@),
    {
        Tuple {
            x: self.x.sub(rhs.x),
            y: self.y.sub(rhs.y),
            z: self.z.sub(rhs.z),
            w: self.w.sub(rhs.w),
        }
    }

    /// Negation of the spatial components; `w` is kept.
    pub fn neg(self) -> (r: Tuple)
        ensures
            r@ == tup_neg(self@),
    {
        Tuple { x: self.x.neg(), y: self.y.neg(), z: self.z.neg(), w: self.w }
    }

    /// Scaling of the spatial components; `w` is kept.
    pub fn scale(self, k: Scalar) -> (r: Tuple)
        ensures
            r@ == tup_scale(self@, k@),
    {
        Tuple { x: self.x.mul(k), y: self.y.mul(k), z: self.z.mul(k), w: self.w }
    }

    /// Division of the spatial components by a scalar; `w` is kept.
    pub fn div(self, k: Scalar) -> (r: Tuple)
        requires
            k@ != 0,
        ensures
            r@ == tup_div(self@, k@),
    {
        Tuple { x: self.x.div(k), y: self.y.div(k), z: self.z.div(k), w: self.w }
    }

    /// Dot product over all four components.
    pub fn dot(&self, other: &Tuple) -> (r: Scalar)
        ensures
            r@ == tup_dot(self@, other@),
    {
        self.x.mul(other.x).add(self.y.mul(other.y)).add(self.z.mul(other.z)).add(
            self.w.mul(other.w),
        )
    }

    /// Cross product of the spatial components; the left operand's `w` is
    /// kept.
    pub fn cross(self, other: Tuple) -> (r: Tuple)
        ensures
            r@ == tup_cross(self@, other@),
    {
        Tuple {
            x: self.y.mul(other.z).sub(self.z.mul(other.y)),
            y: self.z.mul(other.x).sub(self.x.mul(other.z)),
            z: self.x.mul(other.y).sub(self.y.mul(other.x)),
            w: self.w,
        }
    }

    /// Euclidean length of the spatial components.
    pub fn magnitude(&self) -> (r: Scalar)
        ensures
            r@ == tup_magnitude(self@),
            r@ >= 0,
    {
        let sq = self.x.mul(self.x).add(self.y.mul(self.y)).add(self.z.mul(self.z));
        proof {
            lemma_sq_mag_nonneg(self@);
        }
        sq.sqrt()
    }

    /// The tuple scaled to unit length. The zero vector is ruled out by the
    /// precondition; its normalization has no meaning.
    pub fn normalize(self) -> (r: Tuple)
        requires
            tup_sq_mag(self@) != 0,
        ensures
            r@ == tup_normalize(self@),
    {
        proof {
            lemma_sq_mag_nonneg(self@);
            lemma_magnitude_positive(self@);
        }
        let m = self.magnitude();
        self.div(m)
    }

    /// Reflection about a surface normal: `self - n * (2 * (self . n))`.
    pub fn reflect(self, normal: Tuple) -> (r: Tuple)
        ensures
            r@ == tup_reflect(self@, normal@),
    {
        let d = self.dot(&normal);
        self.sub(normal.scale(d.add(d)))
    }

    /// Componentwise approximate equality, `w` included.
    pub fn approx_eq(&self, other: &Tuple) -> (r: bool)
        ensures
            r == tup_approx(self@, other@),
    {
        self.x.approx_eq(other.x) && self.y.approx_eq(other.y) && self.z.approx_eq(other.z)
            && self.w.approx_eq(other.w)
    }
}

/// The sum of squared components is never negative.
pub proof fn lemma_sq_mag_nonneg(a: TupleModel)
    ensures
        tup_sq_mag(a) >= 0,
{
    lemma_square_nonneg(a.x);
    lemma_square_nonneg(a.y);
    lemma_square_nonneg(a.z);
}

/// A fixed-point square is never negative.
proof fn lemma_square_nonneg(x: int)
    ensures
        s_mul(x, x) >= 0,
{
    assert(x * x >= 0) by (nonlinear_arith);
}

/// A tuple with a nonzero squared magnitude has a positive magnitude.
pub proof fn lemma_magnitude_positive(a: TupleModel)
    requires
        tup_sq_mag(a) != 0,
        tup_sq_mag(a) >= 0,
    ensures
        tup_magnitude(a) > 0,
{
    let n = tup_sq_mag(a) * (SCALE as int);
    assert(n >= SCALE as int) by (nonlinear_arith)
        requires
            tup_sq_mag(a) >= 1,
            n == tup_sq_mag(a) * (SCALE as int),
    ;
    lemma_isqrt_exists(n);
    let r = tup_magnitude(a);
    assert(is_isqrt(n, r));
    if r == 0 {
        assert(n < (r + 1) * (r + 1));
        assert(n < 1) by (nonlinear_arith)
            requires
                n < (r + 1) * (r + 1),
                r == 0,
        ;
    }
}

/// A fixed-point square is exact to half a step and never clipped, for
/// values well inside the grid.
proof fn lemma_fx_square(c: int)
    requires
        iabs(c) <= 2_000_000_000_000,
    ensures
        s_mul(c, c) >= 0,
        s_mul(c, c) <= 4_000_000_000_000_000_001,
        2 * iabs((SCALE as int) * s_mul(c, c) - c * c) <= SCALE as int,
{
    let s = SCALE as int;
    assert(c * c >= 0 && c * c <= 4_000_000_000_000_000_000_000_000) by (nonlinear_arith)
        requires
            iabs(c) <= 2_000_000_000_000,
    ;
    crate::scalar::lemma_div_near_err(c * c, s);
    crate::scalar::lemma_div_near_sign(c * c, s);
    let dn = crate::scalar::div_near(c * c, s);
    assert(s * dn <= c * c + s);
    assert(dn <= 4_000_000_000_000_000_001) by (nonlinear_arith)
        requires
            s == 1_000_000,
            dn >= 0,
            s * dn <= 4_000_000_000_000_000_000_000_000 + 1_000_000,
    ;
    assert(crate::scalar::clip(dn) == dn);
}

/// One normalized component is exact to half a step of the divisor, and
/// never clipped.
proof fn lemma_fx_component(x: int, m: int)
    requires
        m >= 100_000,
        iabs(x) <= m + 9,
    ensures
        iabs(s_div(x, m)) <= (SCALE as int) + 91,
        2 * iabs(m * s_div(x, m) - x * (SCALE as int)) <= m,
{
    let s = SCALE as int;
    crate::scalar::lemma_div_near_err(x * s, m);
    crate::scalar::lemma_div_near_sign(x * s, m);
    let dn = crate::scalar::div_near(x * s, m);
    assert(iabs(x * s) == iabs(x) * s) by (nonlinear_arith)
        requires
            s > 0,
    ;
    assert(2 * iabs(m * dn - x * s) <= m);
    assert(m * iabs(dn) <= iabs(m * dn)  + 0) by (nonlinear_arith)
        requires
            m > 0,
    ;
    assert(iabs(m * dn) <= iabs(m * dn - x * s) + iabs(x * s));
    assert(2 * (m * iabs(dn)) <= m + 2 * (iabs(x) * s));
    assert(2 * (iabs(x) * s) <= 2 * ((m + 9) * s)) by (nonlinear_arith)
        requires
            iabs(x) <= m + 9,
            s > 0,
    ;
    assert(2 * (m * iabs(dn)) <= m + 2 * ((m + 9) * s));
    assert(iabs(dn) <= s + 91) by (nonlinear_arith)
        requires
            m >= 100_000,
            s == 1_000_000,
            2 * (m * iabs(dn)) <= m + 2 * ((m + 9) * s),
    ;
    assert(crate::scalar::clip(dn) == dn);
}

/// The squared error bound for one component after normalization:
/// `|m^2 x'^2 - S^2 x^2| <= S m |x| + m^2 / 4`.
proof fn lemma_component_square_err(x: int, xp: int, m: int)
    requires
        m > 0,
        2 * iabs(m * xp - x * (SCALE as int)) <= m,
    ensures
        4 * iabs((m * m) * (xp * xp) - ((SCALE as int) * (SCALE as int)) * (x * x)) <= 4 * ((
        (SCALE as int) * m) * iabs(x)) + m * m,
{
    let s = SCALE as int;
    let e = m * xp - x * s;
    assert(m * xp == x * s + e);
    assert((m * m) * (xp * xp) == (m * xp) * (m * xp)) by (nonlinear_arith);
    assert((m * xp) * (m * xp) == (x * s + e) * (x * s + e));
    assert((x * s + e) * (x * s + e) == (s * s) * (x * x) + 2 * ((x * s) * e) + e * e)
        by (nonlinear_arith);
    assert(4 * iabs(2 * ((x * s) * e)) <= 4 * ((s * m) * iabs(x))) by (nonlinear_arith)
        requires
            s > 0,
            m > 0,
            2 * iabs(e) <= m,
    ;
    assert(4 * (e * e) <= m * m) by (nonlinear_arith)
        requires
            2 * iabs(e) <= m,
    ;
    assert(e * e >= 0) by (nonlinear_arith);
    assert((m * m) * (xp * xp) - (s * s) * (x * x) == 2 * ((x * s) * e) + e * e);
}

/// Normalizing scales the magnitude to one, within the shared tolerance.
///
/// The vector may be neither shorter than about a tenth of a unit — below
/// that the grid is too coarse for the quotients to carry the needed
/// precision — nor have components beyond a million units, where the squares
/// would leave the representable range. (A vector of a few millionths, such
/// as one micro-step on two axes, normalizes far off unit length.)
#[verifier::rlimit(100)]
pub proof fn lemma_normalize_magnitude(v: TupleModel)
    requires
        iabs(v.x) <= 1_000_000_000_000,
        iabs(v.y) <= 1_000_000_000_000,
        iabs(v.z) <= 1_000_000_000_000,
        tup_sq_mag(v) >= 10_000,
    ensures
        s_approx(tup_magnitude(tup_normalize(v)), SCALE as int),
{
    let s = SCALE as int;
    let x = v.x;
    let y = v.y;
    let z = v.z;
    // the three squares are exact to half a step and their sum is not clipped
    lemma_fx_square(x);
    lemma_fx_square(y);
    lemma_fx_square(z);
    let p = x * x + y * y + z * z;
    assert(x * x <= 1_000_000_000_000_000_000_000_000) by (nonlinear_arith)
        requires
            iabs(x) <= 1_000_000_000_000,
    ;
    assert(y * y <= 1_000_000_000_000_000_000_000_000) by (nonlinear_arith)
        requires
            iabs(y) <= 1_000_000_000_000,
    ;
    assert(z * z <= 1_000_000_000_000_000_000_000_000) by (nonlinear_arith)
        requires
            iabs(z) <= 1_000_000_000_000,
    ;
    assert(s_mul(x, x) <= 1_000_000_000_000_000_001) by (nonlinear_arith)
        requires
            s == 1_000_000,
            s_mul(x, x) >= 0,
            2 * (s * s_mul(x, x)) <= 2 * (x * x) + s,
            x * x <= 1_000_000_000_000_000_000_000_000,
    ;
    assert(s_mul(y, y) <= 1_000_000_000_000_000_001) by (nonlinear_arith)
        requires
            s == 1_000_000,
            s_mul(y, y) >= 0,
            2 * (s * s_mul(y, y)) <= 2 * (y * y) + s,
            y * y <= 1_000_000_000_000_000_000_000_000,
    ;
    assert(s_mul(z, z) <= 1_000_000_000_000_000_001) by (nonlinear_arith)
        requires
            s == 1_000_000,
            s_mul(z, z) >= 0,
            2 * (s * s_mul(z, z)) <= 2 * (z * z) + s,
            z * z <= 1_000_000_000_000_000_000_000_000,
    ;
    let q = tup_sq_mag(v);
    assert(q == s_mul(x, x) + s_mul(y, y) + s_mul(z, z));
    assert(2 * iabs(s * q - p) <= 3 * s);
    // the magnitude is the rounded-down square root of q * s
    let qs = q * s;
    assert(qs >= 10_000_000_000 && qs >= 0) by (nonlinear_arith)
        requires
            s == 1_000_000,
            q >= 10_000,
            qs == q * s,
    ;
    lemma_isqrt_exists(qs);
    let m = tup_magnitude(v);
    assert(is_isqrt(qs, m));
    assert(m * m <= qs);
    assert(qs <= m * m + 2 * m) by (nonlinear_arith)
        requires
            qs < (m + 1) * (m + 1),
    ;
    assert(m >= 100_000) by (nonlinear_arith)
        requires
            qs >= 10_000_000_000,
            qs < (m + 1) * (m + 1),
            m >= 0,
    ;
    // each component is at most a hair over the magnitude
    assert(x * x <= p && y * y <= p && z * z <= p) by (nonlinear_arith)
        requires
            p == x * x + y * y + z * z,
    ;
    assert(2 * p <= 2 * qs + 3 * s) by (nonlinear_arith)
        requires
            2 * iabs(s * q - p) <= 3 * s,
            qs == q * s,
            s > 0,
            p <= 3_000_000_000_000_000_000_000_000 + 3,
    ;
    assert(2 * ((m + 9) * (m + 9)) >= 2 * (m * m) + 4 * m + 3 * s) by (nonlinear_arith)
        requires
            m >= 100_000,
            s == 1_000_000,
    ;
    assert(2 * (x * x) <= 2 * ((m + 9) * (m + 9)));
    assert(2 * (y * y) <= 2 * ((m + 9) * (m + 9)));
    assert(2 * (z * z) <= 2 * ((m + 9) * (m + 9)));
    assert(iabs(x) <= m + 9) by (nonlinear_arith)
        requires
            2 * (x * x) <= 2 * ((m + 9) * (m + 9)),
            m >= 0,
    ;
    assert(iabs(y) <= m + 9) by (nonlinear_arith)
        requires
            2 * (y * y) <= 2 * ((m + 9) * (m + 9)),
            m >= 0,
    ;
    assert(iabs(z) <= m + 9) by (nonlinear_arith)
        requires
            2 * (z * z) <= 2 * ((m + 9) * (m + 9)),
            m >= 0,
    ;
    // the normalized components and their squares
    let n = tup_normalize(v);
    let xp = s_div(x, m);
    let yp = s_div(y, m);
    let zp = s_div(z, m);
    lemma_fx_component(x, m);
    lemma_fx_component(y, m);
    lemma_fx_component(z, m);
    assert(n.x == xp && n.y == yp && n.z == zp);
    lemma_component_square_err(x, xp, m);
    lemma_component_square_err(y, yp, m);
    lemma_component_square_err(z, zp, m);
    let r = xp * xp + yp * yp + zp * zp;
    let ss = s * s;
    let mm = m * m;
    assert(4 * ((s * m) * iabs(x)) <= 4 * ((s * m) * (m + 9))) by (nonlinear_arith)
        requires
            s > 0,
            m > 0,
            iabs(x) <= m + 9,
    ;
    assert(4 * ((s * m) * iabs(y)) <= 4 * ((s * m) * (m + 9))) by (nonlinear_arith)
        requires
            s > 0,
            m > 0,
            iabs(y) <= m + 9,
    ;
    assert(4 * ((s * m) * iabs(z)) <= 4 * ((s * m) * (m + 9))) by (nonlinear_arith)
        requires
            s > 0,
            m > 0,
            iabs(z) <= m + 9,
    ;
    assert(mm * r == mm * (xp * xp) + mm * (yp * yp) + mm * (zp * zp)) by (nonlinear_arith)
        requires
            r == xp * xp + yp * yp + zp * zp,
            mm == m * m,
    ;
    assert(ss * p == ss * (x * x) + ss * (y * y) + ss * (z * z)) by (nonlinear_arith)
        requires
            p == x * x + y * y + z * z,
            ss == s * s,
    ;
    assert(4 * iabs(mm * r - ss * p) <= 12 * ((s * m) * (m + 9)) + 3 * mm);
    // the squares of the normalized components, in fixed point
    lemma_fx_square(xp);
    lemma_fx_square(yp);
    lemma_fx_square(zp);
    assert(xp * xp <= (s + 91) * (s + 91)) by (nonlinear_arith)
        requires
            iabs(xp) <= s + 91,
            s > 0,
    ;
    assert(yp * yp <= (s + 91) * (s + 91)) by (nonlinear_arith)
        requires
            iabs(yp) <= s + 91,
            s > 0,
    ;
    assert(zp * zp <= (s + 91) * (s + 91)) by (nonlinear_arith)
        requires
            iabs(zp) <= s + 91,
            s > 0,
    ;
    assert(s_mul(xp, xp) <= 1_000_200) by (nonlinear_arith)
        requires
            s == 1_000_000,
            s_mul(xp, xp) >= 0,
            2 * (s * s_mul(xp, xp)) <= 2 * (xp * xp) + s,
            xp * xp <= (s + 91) * (s + 91),
    ;
    assert(s_mul(yp, yp) <= 1_000_200) by (nonlinear_arith)
        requires
            s == 1_000_000,
            s_mul(yp, yp) >= 0,
            2 * (s * s_mul(yp, yp)) <= 2 * (yp * yp) + s,
            yp * yp <= (s + 91) * (s + 91),
    ;
    assert(s_mul(zp, zp) <= 1_000_200) by (nonlinear_arith)
        requires
            s == 1_000_000,
            s_mul(zp, zp) >= 0,
            2 * (s * s_mul(zp, zp)) <= 2 * (zp * zp) + s,
            zp * zp <= (s + 91) * (s + 91),
    ;
    let t = tup_sq_mag(n);
    assert(t == s_mul(xp, xp) + s_mul(yp, yp) + s_mul(zp, zp));
    assert(t >= 0);
    assert(2 * iabs(s * t - r) <= 3 * s);
    // bound `4 m^2 (t s)` on both sides around `4 s^2 m^2`
    let ts = t * s;
    assert(mm * ts == mm * (s * t)) by (nonlinear_arith)
        requires
            ts == t * s,
    ;
    assert(4 * iabs(mm * (s * t) - mm * r) <= mm * (6 * s)) by (nonlinear_arith)
        requires
            2 * iabs(s * t - r) <= 3 * s,
            mm >= 0,
    ;
    assert(4 * iabs(ss * p - ss * (s * q)) <= ss * (6 * s)) by (nonlinear_arith)
        requires
            2 * iabs(s * q - p) <= 3 * s,
            ss >= 0,
    ;
    assert(ss * (s * q) == ss * qs) by (nonlinear_arith)
        requires
            qs == q * s,
    ;
    assert(ss >= 0 && mm >= 0) by (nonlinear_arith)
        requires
            ss == s * s,
            mm == m * m,
    ;
    assert(4 * (ss * qs) <= 4 * (ss * mm) + ss * (8 * m) && 4 * (ss * qs) >= 4 * (ss * mm))
        by (nonlinear_arith)
        requires
            m * m <= qs,
            qs <= m * m + 2 * m,
            ss >= 0,
            mm == m * m,
    ;
    assert(ss * (8 * m) >= 0) by (nonlinear_arith)
        requires
            ss >= 0,
            m >= 0,
    ;
    // collect: `|4 m^2 t s - 4 s^2 m^2| < K`
    let k = ss * (8 * m) + ss * (6 * s) + 12 * ((s * m) * (m + 9)) + 3 * mm + mm * (6 * s);
    assert(4 * (mm * ts) <= 4 * (ss * mm) + k);
    assert(4 * (mm * ts) >= 4 * (ss * mm) - k);
    // the final comparison against the tolerance band
    assert(k < mm * (800 * s - 40_000)) by (nonlinear_arith)
        requires
            s == 1_000_000,
            m >= 100_000,
            mm == m * m,
            ss == s * s,
            k == ss * (8 * m) + ss * (6 * s) + 12 * ((s * m) * (m + 9)) + 3 * mm + mm * (6 * s),
    ;
    assert(k < mm * (808 * s + 40_804)) by (nonlinear_arith)
        requires
            s == 1_000_000,
            m >= 100_000,
            mm == m * m,
            ss == s * s,
            k == ss * (8 * m) + ss * (6 * s) + 12 * ((s * m) * (m + 9)) + 3 * mm + mm * (6 * s),
    ;
    assert(4 * (mm * ((s - 100) * (s - 100))) == 4 * (ss * mm) - mm * (800 * s - 40_000))
        by (nonlinear_arith)
        requires
            ss == s * s,
            mm == m * m,
    ;
    assert(4 * (mm * ((s + 101) * (s + 101))) == 4 * (ss * mm) + mm * (808 * s + 40_804))
        by (nonlinear_arith)
        requires
            ss == s * s,
            mm == m * m,
    ;
    assert(mm > 0) by (nonlinear_arith)
        requires
            mm == m * m,
            m >= 100_000,
    ;
    assert(4 * (mm * ts) >= 4 * (mm * ((s - 100) * (s - 100))));
    assert(4 * (mm * ts) < 4 * (mm * ((s + 101) * (s + 101))));
    assert(ts >= (s - 100) * (s - 100)) by (nonlinear_arith)
        requires
            mm > 0,
            4 * (mm * ts) >= 4 * (mm * ((s - 100) * (s - 100))),
    ;
    assert(ts < (s + 101) * (s + 101)) by (nonlinear_arith)
        requires
            mm > 0,
            4 * (mm * ts) < 4 * (mm * ((s + 101) * (s + 101))),
    ;
    // read the bounds back through the square root
    assert(ts >= 0) by (nonlinear_arith)
        requires
            t >= 0,
            s > 0,
            ts == t * s,
    ;
    lemma_isqrt_exists(ts);
    let fin = tup_magnitude(n);
    assert(is_isqrt(ts, fin));
    assert(fin >= s - 100) by (nonlinear_arith)
        requires
            ts < (fin + 1) * (fin + 1),
            ts >= (s - 100) * (s - 100),
            fin >= 0,
            s == 1_000_000,
    ;
    assert(fin <= s + 100) by (nonlinear_arith)
        requires
            fin * fin <= ts,
            ts < (s + 101) * (s + 101),
            fin >= 0,
            s == 1_000_000,
    ;
}

/// Every non-negative integer has an integer square root.
pub proof fn lemma_isqrt_exists(n: int)
    requires
        n >= 0,
    ensures
        exists|r: int| #[trigger] is_isqrt(n, r),
    decreases n,
{
    if n == 0 {
        assert(is_isqrt(0, 0));
    } else {
        lemma_isqrt_exists(n - 1);
        let p = choose|r: int| #[trigger] is_isqrt(n - 1, r);
        if n < (p + 1) * (p + 1) {
            assert(is_isqrt(n, p));
        } else {
            assert(n == (p + 1) * (p + 1));
            assert((p + 2) * (p + 2) > (p + 1) * (p + 1)) by (nonlinear_arith)
                requires
                    p >= 0,
            ;
            assert(is_isqrt(n, p + 1));
        }
    }
}

} // verus!
