use frog::matrix::transformations;
use frog::primatives;
use frog::ray;
use frog::scalar::Scalar;

fn fx(v: f64) -> Scalar {
    Scalar { raw: (v * 1e9).round() as i64 }
}

#[test]
fn ray_creation() {
    let p1 = primatives::point(fx(0.0), fx(0.0), fx(0.0));
    let v1 = primatives::vec3(fx(1.0), fx(1.0), fx(1.0));
    let r = ray::new(p1, v1).unwrap();
    assert_eq!(r.direction, v1);
    assert_eq!(r.origin, p1);
}

#[test]
#[should_panic]
fn origin_panic() {
    let v1 = primatives::vec3(fx(1.0), fx(1.0), fx(1.0));
    ray::new(v1, v1).unwrap();
}

#[test]
#[should_panic]
fn direction_panic() {
    let p1 = primatives::point(fx(1.0), fx(1.0), fx(1.0));
    ray::new(p1, p1).unwrap();
}

#[test]
fn ray_cast() {
    let start = primatives::point(fx(2.0), fx(3.0), fx(4.0));
    let dir = primatives::vec3(fx(1.0), fx(0.0), fx(0.0));
    let r = ray::new(start, dir).unwrap();

    let expected = primatives::point(fx(2.0), fx(3.0), fx(4.0));
    assert_eq!(expected, r.position(fx(0.0)));

    let expected = primatives::point(fx(3.0), fx(3.0), fx(4.0));
    assert_eq!(expected, r.position(fx(1.0)));

    let expected = primatives::point(fx(1.0), fx(3.0), fx(4.0));
    assert_eq!(expected, r.position(fx(-1.0)));

    let expected = primatives::point(fx(4.5), fx(3.0), fx(4.0));
    assert_eq!(expected, r.position(fx(2.5)));

    let start = primatives::point(fx(0.0), fx(0.0), fx(-5.0));
    let dir = primatives::vec3(fx(0.0), fx(0.0), fx(1.0));

    let expected = primatives::point(fx(0.0), fx(0.0), fx(-1.0));
    let r = ray::new(start, dir).unwrap();
    assert_eq!(expected, r.position(fx(4.0)));
}

#[test]
fn ray_transformations() {
    let r1 = ray::new(
        primatives::point(fx(1.0), fx(2.0), fx(3.0)),
        primatives::vec3(fx(0.0), fx(1.0), fx(0.0)),
    )
    .unwrap();
    let m = transformations::new_translation_matrix(fx(3.0), fx(4.0), fx(5.0));

    let r2 = m * r1;
    let expected_origin = primatives::point(fx(4.0), fx(6.0), fx(8.0));
    let expected_direction = primatives::vec3(fx(0.0), fx(1.0), fx(0.0));

    assert_eq!(r2.origin, expected_origin);
    assert_eq!(r2.direction, expected_direction);

    let r = ray::new(
        primatives::point(fx(1.0), fx(2.0), fx(3.0)),
        primatives::vec3(fx(0.0), fx(1.0), fx(0.0)),
    )
    .unwrap();
    let m = transformations::new_scaling_matrix(fx(2.0), fx(3.0), fx(4.0));

    let r3 = m * r;
    let expected_origin = primatives::point(fx(2.0), fx(6.0), fx(12.0));
    let expected_direction = primatives::vec3(fx(0.0), fx(3.0), fx(0.0));

    assert_eq!(r3.origin, expected_origin);
    assert_eq!(r3.direction, expected_direction);
}

#[test]
fn transform_agrees_with_the_operator() {
    let r = ray::new(
        primatives::point(fx(1.0), fx(2.0), fx(3.0)),
        primatives::vec3(fx(0.0), fx(1.0), fx(0.0)),
    )
    .unwrap();
    let m = transformations::new_shearing_matrix(
        fx(1.0),
        fx(0.5),
        fx(0.0),
        fx(2.0),
        fx(0.0),
        fx(0.25),
    );
    let a = r.transform(m);
    let b = m * r;
    assert_eq!(a.origin.x, b.origin.x);
    assert_eq!(a.origin.y, b.origin.y);
    assert_eq!(a.direction.z, b.direction.z);
    assert_eq!(a.origin, primatives::point(fx(4.5), fx(8.0), fx(3.5)));
}

#[test]
fn new_reports_the_type_error() {
    let v1 = primatives::vec3(fx(1.0), fx(1.0), fx(1.0));
    let p1 = primatives::point(fx(1.0), fx(1.0), fx(1.0));
    assert_eq!(ray::new(v1, v1).err(), Some(frog::error::Error::Type));
    assert_eq!(ray::new(p1, p1).err(), Some(frog::error::Error::Type));
}
