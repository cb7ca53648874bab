//! Concrete checks of the library-wide properties: inverse round trips,
//! identity and transpose laws, unit normalization, hit selection, and the
//! failure cases of the bounds-checked operations.

use libraytracer::intersection::{Intersect, Intersection, Intersections};
use libraytracer::matrix::Matrix;
use libraytracer::ray::Ray;
use libraytracer::scalar::Scalar;
use libraytracer::sphere::Sphere;
use libraytracer::tuple::Tuple;

fn fx(v: i64) -> Scalar {
    Scalar::from_millionths(v)
}

fn fxi(v: i64) -> Scalar {
    Scalar::from_int(v)
}

fn mi(nrows: usize, ncols: usize, units: &[i64]) -> Matrix {
    let scalars: Vec<Scalar> = units.iter().map(|&v| Scalar::from_int(v)).collect();
    Matrix::from_array(nrows, ncols, &scalars).unwrap()
}

fn mat_approx(a: &Matrix, b: &Matrix) -> bool {
    if a.shape() != b.shape() {
        return false;
    }
    let (nr, nc) = a.shape();
    for r in 0..nr {
        for c in 0..nc {
            if !a.get(r, c).unwrap().approx_eq(b.get(r, c).unwrap()) {
                return false;
            }
        }
    }
    true
}

#[test]
fn inverse_round_trip_on_tuple() {
    let m = mi(4, 4, &[3, -9, 7, 3, 3, -8, 2, -9, -4, 4, 4, 1, -6, 5, -1, 1]);
    let t = Tuple::point(fxi(1), fx(2_500_000), fxi(-3));
    let mapped = m.mul_tuple(&t).unwrap();
    let back = m.inverse().unwrap().mul_tuple(&mapped).unwrap();
    assert!(back.approx_eq(&t));
}

#[test]
fn transpose_twice_is_identity_map() {
    let a = mi(4, 4, &[0, 9, 3, 0, 9, 8, 0, 8, 1, 8, 5, 3, 0, 0, 5, 8]);
    assert_eq!(a.transpose().transpose(), a);
    let rect = mi(2, 3, &[1, 2, 3, 4, 5, 6]);
    assert_eq!(rect.transpose().transpose(), rect);
}

#[test]
fn identity_product_left_and_right() {
    let a = mi(3, 3, &[1, 2, 6, -5, 8, -4, 2, 6, 4]);
    assert_eq!(Matrix::identity(3).mul(&a).unwrap(), a);
    assert_eq!(a.mul(&Matrix::identity(3)).unwrap(), a);
}

#[test]
fn normalized_vectors_have_unit_magnitude() {
    let cases = [
        Tuple::vector(fxi(1), fxi(2), fxi(3)),
        Tuple::vector(fxi(-7), fx(500_000), fxi(11)),
        Tuple::vector(fx(100_000), fx(-200_000), fx(400_000)),
        Tuple::vector(fxi(1000), fxi(0), fxi(0)),
    ];
    for v in cases {
        let m = v.normalize().magnitude();
        assert!(m.approx_eq(fxi(1)), "magnitude was {}", m.millionths());
    }
}

#[test]
fn unit_sphere_hit_is_nearest_forward_intersection() {
    let s = Sphere::new(7);
    let r = Ray::new(
        Tuple::point(fxi(0), fxi(0), fxi(-5)),
        Tuple::vector(fxi(0), fxi(0), fxi(1)),
    );
    let xs = s.intersect(&r);
    assert_eq!(xs.len(), 2);
    assert_eq!(xs.get(0).point().millionths(), 4_000_000);
    assert_eq!(xs.get(1).point().millionths(), 6_000_000);
    let h = xs.hit().unwrap();
    assert_eq!(h.point().millionths(), 4_000_000);
}

#[test]
fn sphere_behind_ray_yields_no_hit() {
    let s = Sphere::new(7);
    let r = Ray::new(
        Tuple::point(fxi(0), fxi(0), fxi(5)),
        Tuple::vector(fxi(0), fxi(0), fxi(1)),
    );
    let xs = s.intersect(&r);
    assert_eq!(xs.len(), 2);
    assert!(xs.hit().is_none());
}

#[test]
fn hit_at_parameter_zero_counts() {
    let s = Sphere::new(1);
    let i1 = Intersection::new(&s, fxi(0));
    let i2 = Intersection::new(&s, fxi(3));
    let xs = Intersections::new(vec![i1, i2]);
    assert_eq!(xs.hit().unwrap().point().millionths(), 0);
}

#[test]
fn from_array_rejects_wrong_length() {
    let vals = [fxi(1), fxi(2), fxi(3)];
    assert!(Matrix::from_array(2, 2, &vals).is_none());
}

#[test]
fn get_and_set_reject_out_of_range() {
    let mut m = Matrix::identity(2);
    assert!(m.get(2, 0).is_none());
    assert!(m.get(0, 2).is_none());
    assert!(m.set(5, 0, fxi(1)).is_none());
    assert_eq!(m.get(0, 0).unwrap().millionths(), 1_000_000);
}

#[test]
fn mul_rejects_dimension_mismatch() {
    let a = mi(2, 3, &[1, 2, 3, 4, 5, 6]);
    let b = mi(2, 3, &[1, 2, 3, 4, 5, 6]);
    assert!(a.mul(&b).is_none());
    let c = mi(3, 2, &[1, 2, 3, 4, 5, 6]);
    assert!(a.mul(&c).is_some());
}

#[test]
fn mul_tuple_rejects_non_four_columns() {
    let a = mi(3, 3, &[1, 0, 0, 0, 1, 0, 0, 0, 1]);
    let t = Tuple::point(fxi(1), fxi(2), fxi(3));
    assert!(a.mul_tuple(&t).is_none());
}

#[test]
fn inverse_rejects_singular_matrix() {
    let m = mi(4, 4, &[-4, 2, -2, -3, 9, 6, 2, 6, 0, -5, 1, -5, 0, 0, 0, 0]);
    assert!(!m.is_invertible());
    assert!(m.inverse().is_none());
}

#[test]
fn scalar_arithmetic_exact_values() {
    assert_eq!(fx(500_000).mul(fx(500_000)).millionths(), 250_000);
    assert_eq!(fxi(4).sqrt().millionths(), 2_000_000);
    assert_eq!(fxi(2).sqrt().millionths(), 1_414_213);
    assert_eq!(fx(500_000).powi(2).millionths(), 250_000);
    assert_eq!(fxi(1).div(fxi(3)).millionths(), 333_333);
    assert_eq!(fxi(-7).abs().millionths(), 7_000_000);
}

#[test]
fn scalar_saturates_at_range_ends() {
    let top = Scalar::from_millionths(i64::MAX);
    assert_eq!(top.add(fxi(1)).millionths(), i64::MAX);
    let bottom = Scalar::from_millionths(i64::MIN);
    assert_eq!(bottom.sub(fxi(1)).millionths(), i64::MIN);
    assert_eq!(bottom.neg().millionths(), i64::MAX);
}

#[test]
fn sine_and_cosine_reference_points() {
    let pi = fx(3_141_593);
    let half_pi = fx(1_570_796);
    assert_eq!(half_pi.sin().millionths(), 1_000_000);
    assert!(half_pi.cos().approx_eq(fxi(0)));
    assert!(pi.sin().approx_eq(fxi(0)));
    assert!(pi.cos().approx_eq(fxi(-1)));
    assert!(fx(785_398).sin().approx_eq(fx(707_107)));
    assert!(fx(785_398).cos().approx_eq(fx(707_107)));
    assert_eq!(fxi(0).sin().millionths(), 0);
    assert_eq!(fxi(0).cos().millionths(), 1_000_000);
    assert!(pi.neg().sin().approx_eq(fxi(0)));
    assert!(half_pi.neg().sin().approx_eq(fxi(-1)));
}

#[test]
fn reflect_across_flat_surface() {
    let v = Tuple::vector(fxi(1), fxi(-1), fxi(0));
    let n = Tuple::vector(fxi(0), fxi(1), fxi(0));
    assert!(v.reflect(n).approx_eq(&Tuple::vector(fxi(1), fxi(1), fxi(0))));
}

#[test]
fn composed_transform_matches_stepwise_products() {
    let rotation = Matrix::rotation_y(fx(785_398));
    let scaling = Matrix::scaling(fxi(2), fxi(2), fxi(2));
    let chained = scaling.mul(&rotation).unwrap();
    let built = libraytracer::transform::TransformBuilder::new(4)
        .rotate_y(fx(785_398))
        .scale(fxi(2), fxi(2), fxi(2))
        .build();
    assert!(mat_approx(&chained, &built));
}
