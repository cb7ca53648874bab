use libraytracer::matrix::Matrix;
use libraytracer::scalar::Scalar;
use libraytracer::transform::TransformBuilder;
use libraytracer::tuple::Tuple;

fn fx(v: i64) -> Scalar {
    Scalar::from_millionths(v)
}

fn fxi(v: i64) -> Scalar {
    Scalar::from_int(v)
}

use libraytracer::scalar::PI_FP;

#[test]
fn test_chain_transformations() {
    let p = Tuple::point(fxi(1), fxi(0), fxi(1));
    let rotation = Matrix::rotation_x(fx(PI_FP / 2));
    let scaling = Matrix::scaling(fxi(5), fxi(5), fxi(5));
    let translation = Matrix::translation(fxi(10), fxi(5), fxi(7));
    let p2 = rotation.mul_tuple(&p).unwrap();
    assert!(p2.approx_eq(&Tuple::point(fxi(1), fxi(-1), fxi(0))));
    let p3 = scaling.mul_tuple(&p2).unwrap();
    assert!(p3.approx_eq(&Tuple::point(fxi(5), fxi(-5), fxi(0))));
    let p4 = translation.mul_tuple(&p3).unwrap();
    assert!(p4.approx_eq(&Tuple::point(fxi(15), fxi(0), fxi(7))));
    let transform = TransformBuilder::new(4)
        .rotate_x(fx(PI_FP / 2))
        .scale(fxi(5), fxi(5), fxi(5))
        .translate(fxi(10), fxi(5), fxi(7))
        .build();
    assert!(transform.mul_tuple(&p).unwrap().approx_eq(&Tuple::point(fxi(15), fxi(0), fxi(7))));
}
