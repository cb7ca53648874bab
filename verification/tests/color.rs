use libraytracer::color::Color;
use libraytracer::scalar::Scalar;

fn fx(v: i64) -> Scalar {
    Scalar::from_millionths(v)
}

fn fxi(v: i64) -> Scalar {
    Scalar::from_int(v)
}

#[test]
fn test_color() {
    let c = Color::new(fxi(1), fxi(2), fxi(3));
    assert_eq!(c.red().millionths(), 1_000_000);
    assert_eq!(c.green().millionths(), 2_000_000);
    assert_eq!(c.blue().millionths(), 3_000_000);
}

#[test]
fn test_color_add() {
    let c1 = Color::new(fx(900_000), fx(600_000), fx(750_000));
    let c2 = Color::new(fx(100_000), fx(400_000), fx(250_000));
    let result = c1.add(c2);
    assert!(result.approx_eq(&Color::new(fxi(1), fxi(1), fxi(1))));
}

#[test]
fn test_color_sub() {
    let c1 = Color::new(fx(800_000), fx(600_000), fx(750_000));
    let c2 = Color::new(fx(300_000), fx(600_000), fx(250_000));
    let result = c1.sub(c2);
    assert!(result.approx_eq(&Color::new(fx(500_000), fxi(0), fx(500_000))));
}

#[test]
fn test_color_mul() {
    let c1 = Color::new(fx(200_000), fx(400_000), fx(800_000));
    let c2 = Color::new(fx(500_000), fx(500_000), fx(500_000));
    let result = c1.mul(c2);
    assert!(result.approx_eq(&Color::new(fx(100_000), fx(200_000), fx(400_000))));
}

#[test]
fn test_color_scaler_mul() {
    let c1 = Color::new(fx(200_000), fx(400_000), fx(800_000));
    let result = c1.scale(fxi(5));
    assert!(result.approx_eq(&Color::new(fxi(1), fxi(2), fxi(4))));
}
