//! The unit sphere at the object-space origin, carrying its own transform
//! and material.
//!
//! A ray is mapped into object space through the inverse of the sphere's
//! transform, the unit-sphere quadratic is solved there, and the two roots
//! are recorded in ascending order. Surface normals go the other way: into
//! object space through the inverse, back out through the inverse transpose,
//! forced to a vector, and normalized.

use vstd::prelude::*;
use crate::intersection::{Intersect, Intersection, Intersections};
use crate::material::Material;
use crate::matrix::{
    Matrix, mat_det, mat_identity, mat_inverse, mat_transpose, mat_tuple_mul,
};
use crate::ray::{Ray, RayModel};
use crate::scalar::{Scalar, SCALE, s_add, s_sub, s_neg, s_mul, s_div, s_sqrt, clip, div_near};
use crate::tuple::{Tuple, TupleModel, tup_dot, tup_normalize, tup_sq_mag, tup_sub};

verus! {

/// The object-space origin, as a point.
pub open spec fn origin_point() -> TupleModel {
    TupleModel { x: 0, y: 0, z: 0, w: SCALE as int }
}

/// The ray mapped into the sphere's object space: both fields taken through
/// the inverse of the transform `t`.
pub open spec fn object_ray(t: Seq<Seq<int>>, r: RayModel) -> RayModel {
    RayModel {
        origin: mat_tuple_mul(mat_inverse(t), r.origin),
        direction: mat_tuple_mul(mat_inverse(t), r.direction),
    }
}

/// The vector from the object-space origin to the mapped ray's origin.
pub open spec fn isect_so(t: Seq<Seq<int>>, r: RayModel) -> TupleModel {
    tup_sub(object_ray(t, r).origin, origin_point())
}

/// The quadratic coefficient `a`: the mapped direction dotted with itself.
pub open spec fn isect_a(t: Seq<Seq<int>>, r: RayModel) -> int {
    tup_dot(object_ray(t, r).direction, object_ray(t, r).direction)
}

/// The quadratic coefficient `b`: twice the mapped direction dotted with the
/// origin offset.
pub open spec fn isect_b(t: Seq<Seq<int>>, r: RayModel) -> int {
    s_mul(2 * (SCALE as int), tup_dot(object_ray(t, r).direction, isect_so(t, r)))
}

/// The quadratic coefficient `c`: the origin offset dotted with itself,
/// less one (the squared unit radius).
pub open spec fn isect_c(t: Seq<Seq<int>>, r: RayModel) -> int {
    s_sub(tup_dot(isect_so(t, r), isect_so(t, r)), SCALE as int)
}

/// The discriminant `b^2 - 4 a c`.
pub open spec fn isect_disc(t: Seq<Seq<int>>, r: RayModel) -> int {
    s_sub(
        s_mul(isect_b(t, r), isect_b(t, r)),
        s_mul(s_mul(4 * (SCALE as int), isect_a(t, r)), isect_c(t, r)),
    )
}

/// The root `(-b - sqrt(disc)) / (2 a)` (meaningful when the discriminant is
/// not negative).
pub open spec fn isect_t1(t: Seq<Seq<int>>, r: RayModel) -> int {
    s_div(
        s_sub(s_neg(isect_b(t, r)), s_sqrt(isect_disc(t, r))),
        s_mul(2 * (SCALE as int), isect_a(t, r)),
    )
}

/// The root `(-b + sqrt(disc)) / (2 a)` (meaningful when the discriminant is
/// not negative).
pub open spec fn isect_t2(t: Seq<Seq<int>>, r: RayModel) -> int {
    s_div(
        s_add(s_neg(isect_b(t, r)), s_sqrt(isect_disc(t, r))),
        s_mul(2 * (SCALE as int), isect_a(t, r)),
    )
}

/// The world-space surface normal before normalization: the point mapped
/// into object space, taken from the origin, mapped back through the
/// inverse transpose, and forced to a vector (`w == 0`).
pub open spec fn normal_unnorm(t: Seq<Seq<int>>, p: TupleModel) -> TupleModel {
    let inv = mat_inverse(t);
    let object_point = mat_tuple_mul(inv, p);
    let object_normal = tup_sub(object_point, origin_point());
    let world = mat_tuple_mul(mat_transpose(inv, 4), object_normal);
    TupleModel { x: world.x, y: world.y, z: world.z, w: 0 }
}

/// The world-space surface normal at `p`.
pub open spec fn normal_at_spec(t: Seq<Seq<int>>, p: TupleModel) -> TupleModel {
    tup_normalize(normal_unnorm(t, p))
}

/// A unit sphere at the object-space origin, with its world transform, its
/// material, and a caller-chosen identifier.
#[derive(Clone, Debug, PartialEq)]
pub struct Sphere {
    pub transform: Matrix,
    pub material: Material,
    pub id: i32,
}

impl Sphere {
    /// The transform is a well-formed 4-by-4 matrix.
    pub open spec fn wf(&self) -> bool {
        self.transform.wf() && self.transform.nrows == 4 && self.transform.ncols == 4
    }

    /// A sphere at the identity transform with the default material.
    pub fn new(id: i32) -> (r: Sphere)
        ensures
            r.wf(),
            r.transform@ == mat_identity(4),
            r.material@ == crate::material::material_default(),
            r.id == id,
    {
        Sphere { id, transform: Matrix::identity(4), material: Material::new() }
    }

    /// Replace the sphere's transform.
    pub fn set_transform(&mut self, transform: Matrix)
        requires
            transform.wf(),
            transform.nrows == 4,
            transform.ncols == 4,
        ensures
            final(self).wf(),
            final(self).transform == transform,
            final(self).material == old(self).material,
            final(self).id == old(self).id,
    {
        self.transform = transform;
    }
}

/// Twice a nonzero coefficient is nonzero: `s_mul(2, a)` scales exactly.
proof fn lemma_twice_nonzero(a: int)
    requires
        a != 0,
        crate::scalar::in_range(a),
    ensures
        s_mul(2 * (SCALE as int), a) != 0,
{
    crate::scalar::lemma_div_near_mul_exact(2 * a, SCALE as int);
    assert((2 * (SCALE as int)) * a == (2 * a) * (SCALE as int)) by (nonlinear_arith);
    assert(div_near((2 * (SCALE as int)) * a, SCALE as int) == 2 * a);
    assert(clip(2 * a) != 0);
}

impl Intersect<Sphere> for Sphere {
    /// The query needs an invertible transform (spheres must never be
    /// configured otherwise) and a mapped direction whose self-product is
    /// nonzero (a degenerate direction is the caller's fault).
    open spec fn intersect_pre(&self, ray: Ray) -> bool {
        &&& self.wf()
        &&& mat_det(self.transform@) != 0
        &&& isect_a(self.transform@, ray@) != 0
    }

    /// No intersections when the discriminant is negative; otherwise exactly
    /// the two roots, in ascending order, both referring to this sphere.
    open spec fn intersect_post(&self, ray: Ray, r: Intersections<'_, Sphere>) -> bool {
        let t = self.transform@;
        let t1 = isect_t1(t, ray@);
        let t2 = isect_t2(t, ray@);
        if isect_disc(t, ray@) < 0 {
            r.elems@.len() == 0
        } else {
            &&& r.elems@.len() == 2
            &&& r.elems@[0].object == self
            &&& r.elems@[1].object == self
            &&& r.elems@[0].point@ == if t1 < t2 {
                t1
            } else {
                t2
            }
            &&& r.elems@[1].point@ == if t1 < t2 {
                t2
            } else {
                t1
            }
        }
    }

    /// The query needs an invertible transform, and the unnormalized normal
    /// may not vanish (it cannot, for a genuine surface point).
    open spec fn normal_pre(&self, point: Tuple) -> bool {
        &&& self.wf()
        &&& mat_det(self.transform@) != 0
        &&& tup_sq_mag(normal_unnorm(self.transform@, point@)) != 0
    }

    /// The returned normal is exactly the normalized inverse-transpose image
    /// of the object-space normal.
    open spec fn normal_post(&self, point: Tuple, r: Tuple) -> bool {
        r@ == normal_at_spec(self.transform@, point@)
    }

    fn intersect<'a>(&'a self, ray: &Ray) -> (r: Intersections<'a, Sphere>) {
        let inverse = self.transform.inverse().unwrap();
        let transformed_ray = ray.transform(&inverse);
        let sphere_to_ray = transformed_ray.origin().sub(
            Tuple::point(Scalar::zero(), Scalar::zero(), Scalar::zero()),
        );
        let a = transformed_ray.direction().dot(transformed_ray.direction());
        let b = Scalar::from_int(2).mul(transformed_ray.direction().dot(&sphere_to_ray));
        let c = sphere_to_ray.dot(&sphere_to_ray).sub(Scalar::one());
        let discriminant = b.mul(b).sub(Scalar::from_int(4).mul(a).mul(c));
        if discriminant.millionths() < 0 {
            return Intersections::new_empty();
        }
        let sqrt_disc = discriminant.sqrt();
        proof {
            lemma_twice_nonzero(a@);
        }
        let denom = Scalar::from_int(2).mul(a);
        let x1 = b.neg().sub(sqrt_disc).div(denom);
        let x2 = b.neg().add(sqrt_disc).div(denom);
        let mut xs = Intersections::with_capacity(2);
        if x1.lt(x2) {
            xs.add_point(Intersection::new(self, x1));
            xs.add_point(Intersection::new(self, x2));
        } else {
            xs.add_point(Intersection::new(self, x2));
            xs.add_point(Intersection::new(self, x1));
        }
        xs
    }

    fn normal_at(&self, point: Tuple) -> (r: Tuple) {
        let transform_inverse = self.transform.inverse().unwrap();
        let object_point = transform_inverse.mul_tuple(&point).unwrap();
        let object_normal = object_point.sub(
            Tuple::point(Scalar::zero(), Scalar::zero(), Scalar::zero()),
        );
        let world_normal = transform_inverse.transpose().mul_tuple(&object_normal).unwrap();
        let world_normal_vector = Tuple::vector(
            world_normal.x(),
            world_normal.y(),
            world_normal.z(),
        );
        world_normal_vector.normalize()
    }
}

} // verus!
