use libraytracer::color::Color;
use libraytracer::light::PointLight;
use libraytracer::scalar::Scalar;
use libraytracer::tuple::Tuple;

fn fxi(v: i64) -> Scalar {
    Scalar::from_int(v)
}

#[test]
fn test_new_light() {
    let color = Color::new(fxi(1), fxi(1), fxi(1));
    let position = Tuple::point(fxi(1), fxi(0), fxi(0));
    let l = PointLight::new(color, position);
    assert_eq!(*l.intensity(), color);
    assert_eq!(*l.position(), position);
}
