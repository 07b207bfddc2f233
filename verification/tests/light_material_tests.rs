use frog::color;
use frog::light;
use frog::material;
use frog::primatives;
use frog::scalar::{Scalar, VOID};
use frog::shading;

fn fx(v: f64) -> Scalar {
    Scalar { raw: (v * 1e9).round() as i64 }
}

fn pt(x: f64, y: f64, z: f64) -> primatives::Tuple {
    primatives::point(fx(x), fx(y), fx(z))
}

fn v3(x: f64, y: f64, z: f64) -> primatives::Tuple {
    primatives::vec3(fx(x), fx(y), fx(z))
}

fn white() -> color::Color {
    color::new(fx(1.0), fx(1.0), fx(1.0))
}

#[test]
fn light_creation() {
    let i = color::new(fx(1.0), fx(1.0), fx(1.0));
    let l = pt(0.0, 0.0, 0.0);

    let light = light::new(i, l).unwrap();
    assert_eq!(light.intensity, i);
    assert_eq!(light.location, l);
}

#[test]
fn material_creation() {
    let m = material::new_default();

    assert_eq!(m.ambient, fx(0.1));
    assert_eq!(m.diffuse, fx(0.9));
    assert_eq!(m.specular, fx(0.9));
    assert_eq!(m.shininess, fx(200.0));
}

#[test]
fn lighting_test() {
    let location_to_be_lit = pt(0.0, 0.0, 0.0);
    let material_for_item = material::new_default();

    let location_of_eye = pt(0.0, 0.0, -1.0);
    let vec_from_eye_to_location = location_of_eye - location_to_be_lit;
    assert_eq!(vec_from_eye_to_location, v3(0.0, 0.0, -1.0));

    let normal_vec = v3(0.0, 0.0, -1.0);
    let light = light::new(white(), pt(0.0, 0.0, -10.0)).unwrap();

    let result = shading::shade(
        material_for_item,
        light,
        location_to_be_lit,
        vec_from_eye_to_location,
        normal_vec,
    )
    .unwrap();
    let expected = color::new(fx(1.9), fx(1.9), fx(1.9));
    assert_eq!(expected, result);

    let eyev = v3(0.0, 2.0_f64.sqrt() / 2.0, -2.0_f64.sqrt() / 2.0);
    let normalv = v3(0.0, 0.0, -1.0);
    let light = light::new(white(), pt(0.0, 0.0, -10.0)).unwrap();

    let result =
        shading::shade(material_for_item, light, location_to_be_lit, eyev, normalv).unwrap();
    let expected = color::new(fx(1.0), fx(1.0), fx(1.0));
    assert_eq!(result, expected);

    let eyev = v3(0.0, 0.0, -1.0);
    let normalv = v3(0.0, 0.0, -1.0);
    let light = light::new(white(), pt(0.0, 10.0, -10.0)).unwrap();

    let result =
        shading::shade(material_for_item, light, location_to_be_lit, eyev, normalv).unwrap();
    let expected = color::new(fx(0.7364), fx(0.7364), fx(0.7364));
    assert_eq!(result, expected);

    let eyev = v3(0.0, -2.0_f64.sqrt() / 2.0, -2.0_f64.sqrt() / 2.0);
    let normalv = v3(0.0, 0.0, -1.0);
    let light = light::new(white(), pt(0.0, 10.0, -10.0)).unwrap();

    let result =
        shading::shade(material_for_item, light, location_to_be_lit, eyev, normalv).unwrap();
    let expected = color::new(fx(1.6364), fx(1.6364), fx(1.6364));
    assert_eq!(result, expected);

    let eyev = v3(0.0, 0.0, -1.0);
    let normalv = v3(0.0, 0.0, -1.0);
    let light = light::new(white(), pt(0.0, 0.0, 10.0)).unwrap();

    let result =
        shading::shade(material_for_item, light, location_to_be_lit, eyev, normalv).unwrap();
    let expected = color::new(fx(0.1), fx(0.1), fx(0.1));
    assert_eq!(result, expected);
}

#[test]
fn light_must_stand_at_a_point() {
    let r = light::new(white(), v3(0.0, 0.0, 0.0));
    assert_eq!(r.err(), Some(frog::error::Error::Type));
}

#[test]
fn eye_in_the_mirror_of_the_light_is_exactly_maximal() {
    let result = shading::shade(
        material::new_default(),
        light::new(white(), pt(0.0, 0.0, -10.0)).unwrap(),
        pt(0.0, 0.0, 0.0),
        v3(0.0, 0.0, -1.0),
        v3(0.0, 0.0, -1.0),
    )
    .unwrap();
    assert_eq!(result.red, fx(1.9));
    assert_eq!(result.green, fx(1.9));
    assert_eq!(result.blue, fx(1.9));
}

#[test]
fn material_new_keeps_its_arguments() {
    let m = material::new(color::new(fx(0.2), fx(0.3), fx(0.4)), fx(0.5), fx(0.6), fx(0.7), fx(8.0));
    assert_eq!(m.color.red, fx(0.2));
    assert_eq!(m.color.green, fx(0.3));
    assert_eq!(m.color.blue, fx(0.4));
    assert_eq!(m.ambient, fx(0.5));
    assert_eq!(m.diffuse, fx(0.6));
    assert_eq!(m.specular, fx(0.7));
    assert_eq!(m.shininess, fx(8.0));
}

#[test]
fn powers() {
    let close = |a: Scalar, b: f64, tol: i64| (a.raw - fx(b).raw).abs() <= tol;
    assert_eq!(fx(1.0).powf(fx(200.0)), fx(1.0));
    assert_eq!(fx(2.0).powf(fx(10.0)), fx(1024.0));
    assert_eq!(fx(0.0).powf(fx(3.0)), fx(0.0));
    assert_eq!(fx(7.5).powf(fx(0.0)), fx(1.0));
    assert_eq!(fx(4.0).powf(fx(0.5)), fx(2.0));
    assert_eq!(fx(2.0).powf(fx(-2.0)), fx(0.25));
    assert_eq!(fx(-2.0).powf(fx(3.0)), fx(-8.0));
    assert!(close(fx(2.0).powf(fx(0.5)), 2.0f64.sqrt(), 5));
    assert!(close(fx(0.5).powf(fx(2.5)), 0.5f64.powf(2.5), 5));
    assert!(close(fx(0.9).powf(fx(200.0)), 0.9f64.powf(200.0), 50));
    assert!(close(fx(0.999).powf(fx(200.0)), 0.999f64.powf(200.0), 200));
    assert!(close(fx(3.0).powf(fx(1.75)), 3.0f64.powf(1.75), 50));
    assert!(close(fx(2.0_f64.sqrt() / 2.0).powf(fx(200.0)), 0.0, 5));
}

#[test]
fn square_roots() {
    assert_eq!(fx(4.0).sqrt(), fx(2.0));
    assert_eq!(fx(0.0).sqrt(), fx(0.0));
    assert!(!fx(-1.0).sqrt().is_number());
    assert_eq!(fx(2.0).sqrt(), fx(2.0f64.sqrt()));
    assert_eq!(fx(14.0).sqrt(), fx(14.0f64.sqrt()));
    assert_eq!(fx(0.000000001).sqrt(), fx(0.000031623));
    assert_eq!(Scalar { raw: i64::MAX }.sqrt(), Scalar { raw: 96_038_388_349_945 });
}

#[test]
fn arithmetic_rounds_and_marks_what_leaves_the_range() {
    let max = Scalar { raw: i64::MAX };
    let min = Scalar { raw: -i64::MAX };
    let void = Scalar { raw: VOID };
    assert_eq!(max + fx(1.0), void);
    assert_eq!(min - fx(1.0), void);
    assert_eq!(max * fx(2.0), void);
    assert_eq!(max * fx(-2.0), void);
    assert_eq!(-max, min);
    assert_eq!(fx(1.0) / fx(0.0), void);
    assert_eq!(fx(-1.0) / fx(0.0), void);
    assert_eq!(fx(0.0) / fx(0.0), void);
    assert_eq!(void + fx(1.0), void);
    assert_eq!(fx(1.0) - void, void);
    assert_eq!(void * fx(0.0), void);
    assert_eq!(fx(0.0) / void, void);
    assert_eq!(-void, void);
    assert_eq!(void.abs(), void);
    assert_eq!(void.floor(), void);
    assert_eq!(void.sqrt(), void);
    assert_eq!(void.sin(), void);
    assert_eq!(void.cos(), void);
    assert_eq!(fx(2.0).powf(void), void);
    assert_eq!(fx(10.0).powf(fx(20.0)), void);
    assert!(!void.is_number());
    assert!(max.is_number());
    assert!(!void.approx_eq(void));
    assert_eq!(fx(1.0) / fx(3.0), Scalar { raw: 333_333_333 });
    assert_eq!(fx(2.0) / fx(3.0), Scalar { raw: 666_666_667 });
    assert_eq!(fx(-2.0) / fx(3.0), Scalar { raw: -666_666_667 });
    assert_eq!(Scalar { raw: 1 } * fx(0.5), Scalar { raw: 1 });
    assert_eq!(Scalar { raw: -1 } * fx(0.5), Scalar { raw: -1 });
    assert_eq!(Scalar { raw: 1 } * fx(0.4), Scalar { raw: 0 });
    assert_eq!(fx(0.1) * fx(0.1), fx(0.01));
    assert_eq!(fx(-1.5).floor(), fx(-2.0));
    assert_eq!(fx(1.5).floor(), fx(1.0));
    assert_eq!(fx(-2.0).floor(), fx(-2.0));
    assert_eq!(fx(-1.5).abs(), fx(1.5));
    assert_eq!(Scalar::from_int(-7), fx(-7.0));
    assert_eq!(Scalar::from_usize(12), fx(12.0));
    assert_eq!(Scalar::from_int(i64::MAX), void);
    assert_eq!(fx(1.5).times(4), fx(6.0));
    assert_eq!(max.times(2), void);
    assert!(fx(1.0).approx_eq(fx(1.00009)));
    assert!(!fx(1.0).approx_eq(fx(1.0001)));
    assert!(fx(1.0).within_eps(fx(1.0001)));
    assert!(!fx(1.0).within_eps(fx(1.00011)));
}

#[test]
fn the_length_of_the_eye_vector_does_not_change_the_shade() {
    let material = material::new_default();
    let light = light::new(white(), pt(0.0, 0.0, -10.0)).unwrap();
    let unit = shading::shade(material, light, pt(0.0, 0.0, 0.0), v3(0.0, 0.0, -1.0), v3(0.0, 0.0, -1.0))
        .unwrap();
    let eye = primatives::Tuple {
        x: Scalar { raw: 0 },
        y: Scalar { raw: 0 },
        z: Scalar { raw: -1 },
        w: Scalar { raw: 0 },
    };
    let tiny = shading::shade(material, light, pt(0.0, 0.0, 0.0), eye, v3(0.0, 0.0, -1.0)).unwrap();
    assert_eq!(tiny.red, unit.red);
    assert_eq!(tiny.red, fx(1.9));
    let long = shading::shade(
        material,
        light,
        pt(0.0, 0.0, 0.0),
        v3(0.0, 0.0, -4000000.0),
        v3(0.0, 0.0, -1.0),
    )
    .unwrap();
    assert_eq!(long.red, fx(1.9));
    let slanted = shading::shade(
        material,
        light,
        pt(0.0, 0.0, 0.0),
        v3(0.0, 0.0003, -0.0004),
        v3(0.0, 0.0, -1.0),
    )
    .unwrap();
    let same = shading::shade(
        material,
        light,
        pt(0.0, 0.0, 0.0),
        v3(0.0, 300.0, -400.0),
        v3(0.0, 0.0, -1.0),
    )
    .unwrap();
    assert_eq!(slanted, same);
}

#[test]
fn a_shade_that_is_no_color_is_an_error() {
    let material = material::new_default();
    let light = light::new(white(), pt(0.0, 0.0, -10.0)).unwrap();
    let range = Err(frog::error::Error::Range);
    let p = pt(0.0, 0.0, 0.0);
    let n = v3(0.0, 0.0, -1.0);
    assert_eq!(shading::shade(material, light, p, v3(0.0, 0.0, 0.0), n), range);
    assert_eq!(shading::shade(material, light, pt(0.0, 0.0, -10.0), n, n), range);
    let mut bright = material;
    bright.shininess = fx(-200.0);
    assert_eq!(shading::shade(bright, light, p, v3(0.0, 1.0, -1.0), n), range);
    let far = light::new(white(), pt(0.0, 0.0, -9e9)).unwrap();
    assert!(shading::shade(material, far, pt(0.0, 0.0, 9e9), n, n).is_err());
}
