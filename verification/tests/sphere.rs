use libraytracer::intersection::Intersect;
use libraytracer::material::Material;
use libraytracer::matrix::Matrix;
use libraytracer::ray::Ray;
use libraytracer::scalar::Scalar;
use libraytracer::sphere::Sphere;
use libraytracer::transform::TransformBuilder;
use libraytracer::tuple::Tuple;

fn fx(v: i64) -> Scalar {
    Scalar::from_millionths(v)
}

fn fxi(v: i64) -> Scalar {
    Scalar::from_int(v)
}

use libraytracer::scalar::PI_FP;
const SQRT_TWO_HALF: i64 = 707_107;

#[test]
fn test_ray_intersection() {
    let s = Sphere::new(1);
    let r = Ray::new(
        Tuple::point(fxi(0), fxi(0), fxi(-5)),
        Tuple::vector(fxi(0), fxi(0), fxi(1)),
    );
    let intersections = s.intersect(&r);
    assert_eq!(intersections.len(), 2);
    assert_eq!(intersections.get(0).point().millionths(), 4_000_000);
    assert_eq!(intersections.get(1).point().millionths(), 6_000_000);
}

#[test]
fn test_tangent_intersection() {
    let s = Sphere::new(1);
    let r = Ray::new(
        Tuple::point(fxi(0), fxi(1), fxi(-5)),
        Tuple::vector(fxi(0), fxi(0), fxi(1)),
    );
    let intersections = s.intersect(&r);
    assert_eq!(intersections.len(), 2);
    assert_eq!(intersections.get(0).point().millionths(), 5_000_000);
    assert_eq!(intersections.get(1).point().millionths(), 5_000_000);
}

#[test]
fn test_no_intersection() {
    let s = Sphere::new(1);
    let r = Ray::new(
        Tuple::point(fxi(0), fxi(2), fxi(-5)),
        Tuple::vector(fxi(0), fxi(0), fxi(1)),
    );
    let intersections = s.intersect(&r);
    assert_eq!(intersections.len(), 0);
}

#[test]
fn test_inside_ray_intersection() {
    // a ray originating inside the sphere still hits it twice
    let s = Sphere::new(1);
    let r = Ray::new(
        Tuple::point(fxi(0), fxi(0), fxi(0)),
        Tuple::vector(fxi(0), fxi(0), fxi(1)),
    );
    let intersections = s.intersect(&r);
    assert_eq!(intersections.len(), 2);
    assert_eq!(intersections.get(0).point().millionths(), -1_000_000);
    assert_eq!(intersections.get(1).point().millionths(), 1_000_000);
}

#[test]
fn test_intersection_behind() {
    // a sphere behind the ray still yields two intersections, both negative
    let s = Sphere::new(1);
    let r = Ray::new(
        Tuple::point(fxi(0), fxi(0), fxi(5)),
        Tuple::vector(fxi(0), fxi(0), fxi(1)),
    );
    let intersections = s.intersect(&r);
    assert_eq!(intersections.len(), 2);
    assert_eq!(intersections.get(0).point().millionths(), -6_000_000);
    assert_eq!(intersections.get(1).point().millionths(), -4_000_000);
}

#[test]
fn test_transform() {
    let s = Sphere::new(1);
    assert_eq!(s.transform, Matrix::identity(4));
}

#[test]
fn test_set_transform() {
    let mut s = Sphere::new(1);
    let transform = TransformBuilder::new(4).translate(fxi(2), fxi(3), fxi(4)).build();
    s.set_transform(transform.clone());
    assert_eq!(s.transform, transform);
}

#[test]
fn test_scaled_sphere_ray_intersection() {
    let r = Ray::new(
        Tuple::point(fxi(0), fxi(0), fxi(-5)),
        Tuple::vector(fxi(0), fxi(0), fxi(1)),
    );
    let mut s = Sphere::new(1);
    s.set_transform(TransformBuilder::new(4).scale(fxi(2), fxi(2), fxi(2)).build());
    let xs = s.intersect(&r);
    assert_eq!(xs.len(), 2);
    assert_eq!(xs.get(0).point().millionths(), 3_000_000);
    assert_eq!(xs.get(1).point().millionths(), 7_000_000);
}

#[test]
fn test_translated_sphere_ray_intersection() {
    let r = Ray::new(
        Tuple::point(fxi(0), fxi(0), fxi(-5)),
        Tuple::vector(fxi(0), fxi(0), fxi(1)),
    );
    let mut s = Sphere::new(1);
    s.set_transform(TransformBuilder::new(4).translate(fxi(5), fxi(0), fxi(0)).build());
    let xs = s.intersect(&r);
    assert_eq!(xs.len(), 0);
}

#[test]
fn test_normal_at_x() {
    let s = Sphere::new(1);
    let n = s.normal_at(Tuple::point(fxi(1), fxi(0), fxi(0)));
    assert!(n.approx_eq(&Tuple::vector(fxi(1), fxi(0), fxi(0))));
}

#[test]
fn test_normal_at_y() {
    let s = Sphere::new(1);
    let n = s.normal_at(Tuple::point(fxi(0), fxi(1), fxi(0)));
    assert!(n.approx_eq(&Tuple::vector(fxi(0), fxi(1), fxi(0))));
}

#[test]
fn test_normal_at_z() {
    let s = Sphere::new(1);
    let n = s.normal_at(Tuple::point(fxi(0), fxi(0), fxi(1)));
    assert!(n.approx_eq(&Tuple::vector(fxi(0), fxi(0), fxi(1))));
}

#[test]
fn test_normal_at_nonaxial() {
    let s = Sphere::new(1);
    // sqrt(3) / 3 = 0.577350...
    let v = fx(577_350);
    let n = s.normal_at(Tuple::point(v, v, v));
    assert!(n.approx_eq(&Tuple::vector(v, v, v)));
    assert!(n.approx_eq(&n.normalize()));
}

#[test]
fn test_normal_translated_sphere() {
    let mut s = Sphere::new(1);
    s.set_transform(TransformBuilder::new(4).translate(fxi(0), fxi(1), fxi(0)).build());
    let n = s.normal_at(Tuple::point(fxi(0), fx(1_707_110), fx(-707_110)));
    assert!(n.approx_eq(&Tuple::vector(fxi(0), fx(707_110), fx(-707_110))));
}

#[test]
fn test_normal_transformed_sphere() {
    let mut s = Sphere::new(1);
    s.set_transform(
        TransformBuilder::new(4)
            .rotate_z(fx(PI_FP / 5))
            .scale(fxi(1), fx(500_000), fxi(1))
            .build(),
    );
    let n = s.normal_at(Tuple::point(fxi(0), fx(SQRT_TWO_HALF), fx(SQRT_TWO_HALF)));
    assert!(n.approx_eq(&Tuple::vector(fxi(0), fx(970_143), fx(242_536))));
}

#[test]
fn test_sphere_default_material() {
    let s = Sphere::new(1);
    let m = s.material;
    assert_eq!(m, Material::new());
}

#[test]
fn test_sphere_matterial_assignment() {
    let mut s = Sphere::new(1);
    let mut m = Material::new();
    m.ambient = fxi(1);
    s.material = m;
    assert_eq!(s.material, m);
}
