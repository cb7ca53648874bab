use libraytracer::color::Color;
use libraytracer::light::PointLight;
use libraytracer::material::Material;
use libraytracer::scalar::Scalar;
use libraytracer::tuple::Tuple;

fn fx(v: i64) -> Scalar {
    Scalar::from_millionths(v)
}

fn fxi(v: i64) -> Scalar {
    Scalar::from_int(v)
}

const SQRT_TWO_HALF: i64 = 707_107;

#[test]
fn lighting_eye_between_light_and_surface() {
    let m = Material::new();
    let position = Tuple::point(fxi(0), fxi(0), fxi(0));
    let eyev = Tuple::vector(fxi(0), fxi(0), fxi(-1));
    let normalv = Tuple::vector(fxi(0), fxi(0), fxi(-1));
    let light = PointLight::new(
        Color::new(fxi(1), fxi(1), fxi(1)),
        Tuple::point(fxi(0), fxi(0), fxi(-10)),
    );
    let result = m.lighting(&light, &position, &eyev, &normalv);
    assert!(result.approx_eq(&Color::new(fx(1_900_000), fx(1_900_000), fx(1_900_000))));
}

#[test]
fn lighting_eye_between_light_and_surface_and_eye_at_45() {
    let m = Material::new();
    let position = Tuple::point(fxi(0), fxi(0), fxi(0));
    let eyev = Tuple::vector(fxi(0), fx(SQRT_TWO_HALF), fx(SQRT_TWO_HALF));
    let normalv = Tuple::vector(fxi(0), fxi(0), fxi(-1));
    let light = PointLight::new(
        Color::new(fxi(1), fxi(1), fxi(1)),
        Tuple::point(fxi(0), fxi(0), fxi(-10)),
    );
    let result = m.lighting(&light, &position, &eyev, &normalv);
    assert!(result.approx_eq(&Color::new(fxi(1), fxi(1), fxi(1))));
}

#[test]
fn lighting_eye_opposite_surface_and_light_at_45() {
    let m = Material::new();
    let position = Tuple::point(fxi(0), fxi(0), fxi(0));
    let eyev = Tuple::vector(fxi(0), fxi(0), fxi(-1));
    let normalv = Tuple::vector(fxi(0), fxi(0), fxi(-1));
    let light = PointLight::new(
        Color::new(fxi(1), fxi(1), fxi(1)),
        Tuple::point(fxi(0), fxi(10), fxi(-10)),
    );
    let result = m.lighting(&light, &position, &eyev, &normalv);
    assert!(result.approx_eq(&Color::new(fx(736_400), fx(736_400), fx(736_400))));
}

#[test]
fn lighting_with_eye_in_path_of_reflection_vector() {
    let m = Material::new();
    let position = Tuple::point(fxi(0), fxi(0), fxi(0));
    let eyev = Tuple::vector(fxi(0), fx(-SQRT_TWO_HALF), fx(-SQRT_TWO_HALF));
    let normalv = Tuple::vector(fxi(0), fxi(0), fxi(-1));
    let light = PointLight::new(
        Color::new(fxi(1), fxi(1), fxi(1)),
        Tuple::point(fxi(0), fxi(10), fxi(-10)),
    );
    let result = m.lighting(&light, &position, &eyev, &normalv);
    assert!(result.approx_eq(&Color::new(fx(1_636_400), fx(1_636_400), fx(1_636_400))));
}

#[test]
fn lighting_with_light_behind_the_surface() {
    let m = Material::new();
    let position = Tuple::point(fxi(0), fxi(0), fxi(0));
    let eyev = Tuple::vector(fxi(0), fxi(0), fxi(-1));
    let normalv = Tuple::vector(fxi(0), fxi(0), fxi(-1));
    let light = PointLight::new(
        Color::new(fxi(1), fxi(1), fxi(1)),
        Tuple::point(fxi(0), fxi(0), fxi(10)),
    );
    let result = m.lighting(&light, &position, &eyev, &normalv);
    assert!(result.approx_eq(&Color::new(fx(100_000), fx(100_000), fx(100_000))));
}
