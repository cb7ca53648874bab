//! Rays: an origin point and a direction vector.

use vstd::prelude::*;
use crate::matrix::{Matrix, mat_tuple_mul};
use crate::scalar::Scalar;
use crate::tuple::{Tuple, TupleModel, tup_add, tup_scale};

verus! {

/// The mathematical value of a ray.
pub struct RayModel {
    pub origin: TupleModel,
    pub direction: TupleModel,
}

/// The point reached after travelling `t` along the ray:
/// `origin + direction * t`.
pub open spec fn ray_position(r: RayModel, t: int) -> TupleModel {
    tup_add(tup_scale(r.direction, t), r.origin)
}

/// A ray: an origin point and a direction vector.
#[derive(Clone, Copy, PartialEq, Eq, Structural, Debug)]
pub struct Ray {
    pub origin: Tuple,
    pub direction: Tuple,
}

impl View for Ray {
    type V = RayModel;

    open spec fn view(&self) -> RayModel {
        RayModel { origin: self.origin@, direction: self.direction@ }
    }
}

impl Ray {
    /// A ray from an origin (a point) and a direction (a vector); the
    /// point/vector conventions are the caller's to respect.
    pub fn new(origin: Tuple, direction: Tuple) -> (r: Ray)
        ensures
            r@ == (RayModel { origin: origin@, direction: direction@ }),
    {
        Ray { origin, direction }
    }

    /// The origin.
    pub fn origin(&self) -> (r: &Tuple)
        ensures
            r@ == self@.origin,
    {
        &self.origin
    }

    /// The direction.
    pub fn direction(&self) -> (r: &Tuple)
        ensures
            r@ == self@.direction,
    {
        &self.direction
    }

    /// The point reached after travelling `t` along the ray.
    pub fn position(&self, t: Scalar) -> (r: Tuple)
        ensures
            r@ == ray_position(self@, t@),
    {
        self.direction.scale(t).add(self.origin)
    }

    /// The ray with both fields mapped by the same 4-by-4 transform. The
    /// direction keeps `w == 0`, so the translation column cannot move it.
    pub fn transform(&self, transform: &Matrix) -> (r: Ray)
        requires
            transform.wf(),
            transform.nrows == 4,
            transform.ncols == 4,
        ensures
            r@ == (RayModel {
                origin: mat_tuple_mul(transform@, self@.origin),
                direction: mat_tuple_mul(transform@, self@.direction),
            }),
    {
        let origin = transform.mul_tuple(&self.origin).unwrap();
        let direction = transform.mul_tuple(&self.direction).unwrap();
        Ray { origin, direction }
    }
}

} // verus!
