//! A fluent builder that composes affine transforms.
//!
//! Each step left-multiplies a fresh 4-by-4 factor onto the running matrix,
//! so the transforms apply to a point in the order they were written.

use vstd::prelude::*;
use crate::matrix::{
    Matrix, mat_identity, mat_mul, mat_rotation_x, mat_rotation_y, mat_rotation_z, mat_scaling,
    mat_shearing, mat_translation,
};
use crate::scalar::Scalar;

verus! {

/// A running composition of affine transforms.
#[derive(Clone, Debug)]
pub struct TransformBuilder {
    pub matrix: Matrix,
}

impl TransformBuilder {
    /// The accumulated matrix is a well-formed square of the given size.
    pub open spec fn wf(&self, size: int) -> bool {
        self.matrix.wf() && self.matrix.nrows == size && self.matrix.ncols == size
    }

    /// A builder holding the identity of the given size.
    pub fn new(size: usize) -> (r: TransformBuilder)
        requires
            (size as int) * (size as int) <= usize::MAX,
        ensures
            r.wf(size as int),
            r.matrix@ == mat_identity(size as int),
    {
        TransformBuilder { matrix: Matrix::identity(size) }
    }

    /// Left-multiply a rotation about the x axis onto the accumulator.
    pub fn rotate_x(self, angle: Scalar) -> (r: TransformBuilder)
        requires
            self.wf(4),
        ensures
            r.wf(4),
            r.matrix@ == mat_mul(mat_rotation_x(angle@), self.matrix@, 4),
    {
        let factor = Matrix::rotation_x(angle);
        let result = factor.mul(&self.matrix).unwrap();
        TransformBuilder { matrix: result }
    }

    /// Left-multiply a rotation about the y axis onto the accumulator.
    pub fn rotate_y(self, angle: Scalar) -> (r: TransformBuilder)
        requires
            self.wf(4),
        ensures
            r.wf(4),
            r.matrix@ == mat_mul(mat_rotation_y(angle@), self.matrix@, 4),
    {
        let factor = Matrix::rotation_y(angle);
        let result = factor.mul(&self.matrix).unwrap();
        TransformBuilder { matrix: result }
    }

    /// Left-multiply a rotation about the z axis onto the accumulator.
    pub fn rotate_z(self, angle: Scalar) -> (r: TransformBuilder)
        requires
            self.wf(4),
        ensures
            r.wf(4),
            r.matrix@ == mat_mul(mat_rotation_z(angle@), self.matrix@, 4),
    {
        let factor = Matrix::rotation_z(angle);
        let result = factor.mul(&self.matrix).unwrap();
        TransformBuilder { matrix: result }
    }

    /// Left-multiply a scaling onto the accumulator.
    pub fn scale(self, x: Scalar, y: Scalar, z: Scalar) -> (r: TransformBuilder)
        requires
            self.wf(4),
        ensures
            r.wf(4),
            r.matrix@ == mat_mul(mat_scaling(x@, y@, z@), self.matrix@, 4),
    {
        let factor = Matrix::scaling(x, y, z);
        let result = factor.mul(&self.matrix).unwrap();
        TransformBuilder { matrix: result }
    }

    /// Left-multiply a translation onto the accumulator.
    pub fn translate(self, x: Scalar, y: Scalar, z: Scalar) -> (r: TransformBuilder)
        requires
            self.wf(4),
        ensures
            r.wf(4),
            r.matrix@ == mat_mul(mat_translation(x@, y@, z@), self.matrix@, 4),
    {
        let factor = Matrix::translation(x, y, z);
        let result = factor.mul(&self.matrix).unwrap();
        TransformBuilder { matrix: result }
    }

    /// Left-multiply a shear onto the accumulator.
    pub fn shear(
        self, x_y: Scalar, x_z: Scalar, y_x: Scalar, y_z: Scalar, z_x: Scalar, z_y: Scalar,
    ) -> (r: TransformBuilder)
        requires
            self.wf(4),
        ensures
            r.wf(4),
            r.matrix@ == mat_mul(mat_shearing(x_y@, x_z@, y_x@, y_z@, z_x@, z_y@), self.matrix@, 4),
    {
        let factor = Matrix::shearing(x_y, x_z, y_x, y_z, z_x, z_y);
        let result = factor.mul(&self.matrix).unwrap();
        TransformBuilder { matrix: result }
    }

    /// The composed transform, consuming the builder.
    pub fn build(self) -> (r: Matrix)
        ensures
            r == self.matrix,
    {
        self.matrix
    }
}

} // verus!
