use frog::color;
use frog::scalar::Scalar;

fn fx(v: f64) -> Scalar {
    Scalar { raw: (v * 1e9).round() as i64 }
}

#[test]
fn test_color_creation() {
    let this_color = color::Color { red: fx(-0.5), green: fx(0.3), blue: fx(1.7) };

    assert_eq!(this_color.red, fx(-0.5));
}

#[test]
fn test_color_eq() {
    let c1 = color::new(fx(0.0), fx(0.0), fx(0.0));
    let c2 = color::new(fx(0.0), fx(0.0), fx(0.0));

    assert_eq!(c1, c2);
}

#[test]
fn test_color_add() {
    let c1 = color::new(fx(0.9), fx(0.5), fx(0.75));
    let c2 = color::new(fx(0.7), fx(0.1), fx(0.25));

    let result = c1 + c2;
    let expected = color::new(fx(1.6), fx(0.6), fx(1.0));

    assert_eq!(result, expected);
}

#[test]
fn test_color_sub() {
    let c1 = color::new(fx(0.9), fx(0.5), fx(0.75));
    let c2 = color::new(fx(0.7), fx(0.1), fx(0.25));

    let result = c1 - c2;
    let expected = color::new(fx(0.2), fx(0.4), fx(0.5));

    assert_eq!(result, expected);
}

#[test]
fn test_color_scalar() {
    let scalar = fx(2.0);
    let c1 = color::new(fx(0.2), fx(0.3), fx(0.4));

    let r1 = scalar * c1;
    let r2 = c1 * scalar;
    let expected = color::new(fx(0.4), fx(0.6), fx(0.8));

    assert_eq!(r1, expected);
    assert_eq!(r2, expected);
}

#[test]
fn test_color_mul() {
    let c1 = color::new(fx(1.0), fx(0.2), fx(0.4));
    let c2 = color::new(fx(0.9), fx(1.0), fx(0.1));

    let result = c2 * c1;
    let expected = color::new(fx(0.9), fx(0.2), fx(0.04));

    assert_eq!(result, expected);
}

#[test]
fn test_color_to_255() {
    let c1 = color::new(fx(1.5), fx(-2.0), fx(0.5));

    let result = c1.scaled_from_1_to_255();
    let expected = color::new(fx(255.0), fx(0.0), fx(127.0));

    assert_eq!(result, expected);
}

#[test]
fn color_to_255_is_exact_at_the_ends() {
    let c1 = color::new(fx(1.0), fx(0.0), fx(0.999999999));
    let result = c1.scaled_from_1_to_255();
    assert_eq!(result.red, fx(255.0));
    assert_eq!(result.green, fx(0.0));
    assert_eq!(result.blue, fx(254.0));
}

#[test]
fn color_equality_has_a_tolerance() {
    let c1 = color::new(fx(0.5), fx(0.5), fx(0.5));
    let c2 = color::new(fx(0.50009), fx(0.49991), fx(0.5));
    let c3 = color::new(fx(0.5001), fx(0.5), fx(0.5));
    assert_eq!(c1, c2);
    assert_ne!(c1, c3);
}
