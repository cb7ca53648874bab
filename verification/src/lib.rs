//! A small 3-D geometry and shading kernel: homogeneous-coordinate tuple
//! algebra, dense matrix arithmetic with cofactor determinants and inverses,
//! composable affine transforms, ray/sphere intersection with ordered hit
//! selection, and a Phong-style point-light shading model.
//!
//! All quantities are fixed-point numbers ([`scalar::Scalar`]) carrying six
//! decimal places, so every arithmetic step has an exact integer meaning that
//! the contracts state and the proofs track.

pub mod color;
pub mod intersection;
pub mod light;
pub mod material;
pub mod matrix;
pub mod ray;
pub mod scalar;
pub mod transform;
pub mod sphere;
pub mod tuple;
pub mod utils;

pub use color::Color;
pub use intersection::Intersect;
pub use matrix::Matrix;
pub use ray::Ray;
pub use scalar::Scalar;
pub use transform::TransformBuilder;
pub use sphere::Sphere;
pub use tuple::Tuple;
