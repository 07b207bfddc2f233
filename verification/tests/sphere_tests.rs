use frog::error::Error;
use frog::material;
use frog::matrix::transformations;
use frog::primatives;
use frog::ray;
use frog::scalar::Scalar;
use frog::shapes;
use frog::shapes::Shape;

const PI: f64 = std::f64::consts::PI;

fn fx(v: f64) -> Scalar {
    Scalar { raw: (v * 1e9).round() as i64 }
}

fn pt(x: f64, y: f64, z: f64) -> primatives::Tuple {
    primatives::point(fx(x), fx(y), fx(z))
}

fn v3(x: f64, y: f64, z: f64) -> primatives::Tuple {
    primatives::vec3(fx(x), fx(y), fx(z))
}

#[test]
#[should_panic]
fn sphere_creation() {
    let p1 = pt(0.0, 0.0, 0.0);
    let radius = fx(2.0);

    let c1 = shapes::sphere::new(radius, p1).unwrap();
    assert_eq!(p1, c1.origin);
    assert_eq!(radius, c1.radius);
    assert_eq!(material::new_default(), c1.material);

    let v1 = v3(0.0, 0.0, 1.0);
    shapes::sphere::new(radius, v1).unwrap();
}

#[test]
fn ray_sphere_intersection() {
    let s1 = shapes::sphere::new(fx(1.0), pt(0.0, 0.0, 0.0)).unwrap();

    let r1 = ray::new(pt(0.0, 0.0, -5.0), v3(0.0, 0.0, 1.0)).unwrap();
    let intersections = s1.intersect(r1).unwrap();

    assert_eq!(intersections.len(), 2);
    assert_eq!(intersections[0].location, r1.position(fx(6.0)));
    assert_eq!(intersections[1].location, r1.position(fx(4.0)));

    let s2 = shapes::sphere::new(fx(1.0), pt(0.0, 0.0, 0.0)).unwrap();
    let r2 = ray::new(pt(0.0, 1.0, -5.0), v3(0.0, 0.0, 1.0)).unwrap();
    let intersections = s2.intersect(r2).unwrap();

    assert_eq!(intersections.len(), 1);
    assert_eq!(intersections[0].location, r2.position(fx(5.0)));

    let s3 = shapes::sphere::new(fx(1.0), pt(0.0, 0.0, 1.0)).unwrap();
    let r3 = ray::new(pt(0.0, 2.0, -5.0), v3(0.0, 0.0, 1.0)).unwrap();
    let intersections = s3.intersect(r3).unwrap();

    assert_eq!(intersections.len(), 0);

    let s4 = shapes::sphere::new(fx(1.0), pt(0.0, 0.0, 0.0)).unwrap();
    let r4 = ray::new(pt(0.0, 0.0, 0.0), v3(0.0, 0.0, 1.0)).unwrap();
    let intersections = s4.intersect(r4).unwrap();

    assert_eq!(intersections.len(), 2);

    let s5 = shapes::sphere::new(fx(2.0), pt(0.0, 0.0, 0.0)).unwrap();
    let r5 = ray::new(pt(0.0, 0.0, 0.0), v3(0.0, 0.0, 1.0)).unwrap();
    let intersections = s5.intersect(r5).unwrap();
    assert_eq!(intersections.len(), 2);
    assert_eq!(intersections[0].location, pt(0.0, 0.0, 2.0));
    assert_eq!(intersections[1].location, pt(0.0, 0.0, -2.0));

    let r = ray::new(pt(0.0, 0.0, -5.0), v3(0.0, 0.0, 1.0)).unwrap();
    let mut s = shapes::sphere::new(fx(1.0), pt(0.0, 0.0, 0.0)).unwrap();
    s = transformations::new_scaling_matrix(fx(2.0), fx(2.0), fx(2.0)) * s;

    let intersections = s.intersect(r).unwrap();
    assert_eq!(intersections.len(), 2);
    assert_eq!(intersections[0].location, r.position(fx(7.0)));
    assert_eq!(intersections[1].location, r.position(fx(3.0)));

    let r = ray::new(pt(0.0, 0.0, -5.0), v3(0.0, 0.0, 1.0)).unwrap();
    let mut s = shapes::sphere::new(fx(1.0), pt(0.0, 0.0, 0.0)).unwrap();
    s = transformations::new_translation_matrix(fx(5.0), fx(0.0), fx(0.0)) * s;

    let intersections = s.intersect(r).unwrap();
    assert_eq!(intersections.len(), 0);

    let r = ray::new(pt(300.0, 300.0, 0.0), v3(300.0, 300.0, 300.0)).unwrap();
    let mut s = shapes::sphere::new(fx(1.0), pt(300.0, 300.0, 300.0)).unwrap();
    s = transformations::new_scaling_matrix(fx(300.0), fx(300.0), fx(300.0)) * s;
    let intersections = s.intersect(r).unwrap();
    assert_eq!(intersections.len(), 2);
}

#[test]
fn sphere_normal() {
    let s = shapes::sphere::new(fx(1.0), pt(0.0, 0.0, 0.0)).unwrap();
    let n = s.normal_at(pt(1.0, 0.0, 0.0)).unwrap();

    n.check_type(primatives::type_vec()).unwrap();
    assert_eq!(n, v3(1.0, 0.0, 0.0));

    assert_eq!(n.normalized(), n);

    let s = shapes::sphere::new(fx(2.0), pt(0.0, 0.0, 0.0)).unwrap();
    let n = s.normal_at(pt(0.0, 2.0, 0.0)).unwrap();

    n.check_type(primatives::type_vec()).unwrap();
    assert_eq!(n, v3(0.0, 1.0, 0.0));

    assert_eq!(n.normalized(), n);

    let s = shapes::sphere::new(fx(2.0), pt(1.0, 1.0, 1.0)).unwrap();
    let n = s.normal_at(pt(1.0, 1.0, 3.0)).unwrap();

    n.check_type(primatives::type_vec()).unwrap();
    assert_eq!(n, v3(0.0, 0.0, 1.0));

    assert_eq!(n.normalized(), n);

    let mut s = shapes::sphere::new(fx(1.0), pt(0.0, 0.0, 0.0)).unwrap();
    s = transformations::new_translation_matrix(fx(0.0), fx(1.0), fx(0.0)) * s;
    let n = s.normal_at(pt(0.0, 1.70711, -0.70711)).unwrap();

    n.check_type(primatives::type_vec()).unwrap();
    assert_eq!(n, v3(0.0, 0.70711, -0.70711));

    assert_eq!(n.normalized(), n);

    let mut s = shapes::sphere::new(fx(1.0), pt(0.0, 0.0, 0.0)).unwrap();
    s = transformations::new_scaling_matrix(fx(1.0), fx(0.5), fx(1.0)) * s;
    s = transformations::new_rotation_z_matrix(fx(PI / 5.0)) * s;
    let n = s.normal_at(pt(0.0, 2.0_f64.sqrt() / 2.0, -2.0_f64.sqrt() / 2.0)).unwrap();

    n.check_type(primatives::type_vec()).unwrap();
    assert_eq!(n, v3(0.0, 0.97014, -0.24254));

    assert_eq!(n.normalized(), n);
}

#[test]
fn unit_sphere_times_are_four_and_six() {
    let s = shapes::sphere::new(fx(1.0), pt(0.0, 0.0, 0.0)).unwrap();
    let r = ray::new(pt(0.0, 0.0, -5.0), v3(0.0, 0.0, 1.0)).unwrap();
    let hits = s.intersect(r).unwrap();
    assert_eq!(hits.len(), 2);
    assert_eq!(hits[0].time, fx(6.0));
    assert_eq!(hits[1].time, fx(4.0));
    let q = s.quadratic(r);
    assert_eq!(q.a, fx(1.0));
    assert_eq!(q.b, fx(-10.0));
    assert_eq!(q.c, fx(24.0));
    assert_eq!(q.roots(1), Ok(vec![fx(6.0), fx(4.0)]));
    assert_eq!(q.roots(3), Ok(vec![fx(18.0), fx(12.0)]));
}

#[test]
fn hit_count_follows_the_discriminant() {
    let s = shapes::sphere::new(fx(1.0), pt(0.0, 0.0, 0.0)).unwrap();
    let through = ray::new(pt(0.0, 0.0, -5.0), v3(0.0, 0.0, 1.0)).unwrap();
    let tangent = ray::new(pt(0.0, 1.0, -5.0), v3(0.0, 0.0, 1.0)).unwrap();
    let miss = ray::new(pt(0.0, 2.0, -5.0), v3(0.0, 0.0, 1.0)).unwrap();
    let discriminant = |r: ray::Ray| {
        let q = s.quadratic(r);
        (q.b.raw as i128) * (q.b.raw as i128) - 4 * (q.a.raw as i128) * (q.c.raw as i128)
    };
    assert!(discriminant(through) > 0);
    assert_eq!(s.intersect(through).unwrap().len(), 2);
    assert_eq!(discriminant(tangent), 0);
    assert_eq!(s.intersect(tangent).unwrap().len(), 1);
    assert!(discriminant(miss) < 0);
    assert_eq!(s.intersect(miss).unwrap().len(), 0);
}

#[test]
fn normals_of_transformed_spheres_have_unit_length() {
    let mut s = shapes::sphere::new(fx(1.0), pt(0.0, 0.0, 0.0)).unwrap();
    s = transformations::new_translation_matrix(fx(2.0), fx(-1.0), fx(0.5)) * s;
    s = transformations::new_scaling_matrix(fx(1.5), fx(0.5), fx(3.0)) * s;
    s = transformations::new_rotation_z_matrix(fx(PI / 5.0)) * s;
    s = transformations::new_rotation_x_matrix(fx(1.1)) * s;
    let points = [
        pt(1.0, 0.0, 0.0),
        pt(0.0, 2.0_f64.sqrt() / 2.0, -2.0_f64.sqrt() / 2.0),
        pt(3.0, -2.0, 7.0),
        pt(-0.3, 0.4, 0.5),
    ];
    for p in points {
        let n = s.normal_at(p).unwrap();
        assert_eq!(n.w, fx(0.0));
        assert!((n.magnitude().raw - fx(1.0).raw).abs() < 100_000);
    }
}

#[test]
fn later_transformations_act_first() {
    let mut s = shapes::sphere::new(fx(1.0), pt(0.0, 0.0, 0.0)).unwrap();
    let a = transformations::new_scaling_matrix(fx(1.0), fx(0.5), fx(1.0));
    let b = transformations::new_rotation_z_matrix(fx(PI / 5.0));
    s = a * s;
    s = b * s;
    let product = a * b;
    for r in 0..4 {
        for c in 0..4 {
            assert_eq!(s.transformation.contents[r][c], product.contents[r][c]);
        }
    }
}

#[test]
fn errors_of_the_sphere() {
    let p = pt(0.0, 0.0, 0.0);
    let v = v3(0.0, 0.0, 1.0);
    assert_eq!(shapes::sphere::new(fx(1.0), v).err(), Some(Error::Type));
    let mut s = shapes::sphere::new(fx(1.0), p).unwrap();
    assert_eq!(s.normal_at(v).err(), Some(Error::Type));
    s = transformations::new_scaling_matrix(fx(1.0), fx(0.0), fx(1.0)) * s;
    let r = ray::new(pt(0.0, 0.0, -5.0), v).unwrap();
    assert_eq!(s.intersect(r).err(), Some(Error::SingularMatrix));
    assert_eq!(s.normal_at(p).err(), Some(Error::SingularMatrix));
}

#[test]
fn intersection_records_the_side() {
    let s = shapes::sphere::new(fx(1.0), pt(0.0, 0.0, 0.0)).unwrap();
    let r = ray::new(pt(0.0, 0.0, 0.0), v3(0.0, 0.0, 1.0)).unwrap();
    let hit = shapes::intersection::new(fx(1.0), pt(0.0, 0.0, 1.0), &s, r).unwrap();
    assert!(hit.inside);
    assert_eq!(hit.eyev, v3(0.0, 0.0, -1.0));
    assert_eq!(hit.normalv, v3(0.0, 0.0, -1.0));
    let outside = ray::new(pt(0.0, 0.0, -5.0), v3(0.0, 0.0, 1.0)).unwrap();
    let hit = shapes::intersection::new(fx(4.0), pt(0.0, 0.0, -1.0), &s, outside).unwrap();
    assert!(!hit.inside);
    assert_eq!(hit.normalv, v3(0.0, 0.0, -1.0));
    assert_eq!(hit.time, fx(4.0));
}

#[test]
fn the_center_has_no_normal() {
    let s = shapes::sphere::new(fx(1.0), pt(0.0, 0.0, 0.0)).unwrap();
    assert_eq!(s.normal_at(pt(0.0, 0.0, 0.0)).err(), Some(Error::Range));
}

#[test]
fn a_point_a_billionth_from_the_center_has_a_unit_normal() {
    let s = shapes::sphere::new(fx(1.0), pt(0.0, 0.0, 0.0)).unwrap();
    let n = s.normal_at(pt(0.0, 0.0, 0.000000001)).unwrap();
    assert_eq!(n.x, fx(0.0));
    assert_eq!(n.y, fx(0.0));
    assert_eq!(n.z, fx(1.0));
    assert_eq!(n.w, fx(0.0));
}

#[test]
fn a_slow_ray_hits_where_a_fast_one_does() {
    let s = shapes::sphere::new(fx(1.0), pt(0.0, 0.0, 0.0)).unwrap();
    let slow = ray::new(pt(0.0, 0.0, -5.0), v3(0.0, 0.0, 0.000000001)).unwrap();
    let hits = s.intersect(slow).unwrap();
    assert_eq!(hits.len(), 2);
    assert_eq!(hits[0].location, pt(0.0, 0.0, 1.0));
    assert_eq!(hits[1].location, pt(0.0, 0.0, -1.0));
    assert!((hits[0].time.raw - fx(6e9).raw).abs() < 60_000_000_000);
    assert!((hits[1].time.raw - fx(4e9).raw).abs() < 40_000_000_000);
    let slower = ray::new(pt(0.0, 0.0, -9.0), v3(0.0, 0.0, 0.000000001)).unwrap();
    assert_eq!(s.intersect(slower).err(), Some(Error::Range));
    let still = ray::new(pt(0.0, 0.0, -5.0), v3(0.0, 0.0, 0.0)).unwrap();
    assert_eq!(s.intersect(still).err(), Some(Error::Range));
}

#[test]
fn a_small_sphere_seen_from_afar_is_hit_twice() {
    let q = shapes::sphere::Quadratic { a: fx(10000.0), b: fx(-100000.0), c: fx(249999.0) };
    assert_eq!(q.roots(1), Ok(vec![fx(5.01), fx(4.99)]));
    let mut s = shapes::sphere::new(fx(1.0), pt(0.0, 0.0, 0.0)).unwrap();
    s = transformations::new_scaling_matrix(fx(0.01), fx(0.01), fx(0.01)) * s;
    let r = ray::new(pt(0.0, 0.0, -5.0), v3(0.0, 0.0, 1.0)).unwrap();
    let hits = s.intersect(r).unwrap();
    assert_eq!(hits.len(), 2);
    assert_eq!(hits[0].time, fx(5.01));
    assert_eq!(hits[1].time, fx(4.99));
    assert_eq!(hits[1].location, pt(0.0, 0.0, -0.01));
}

#[test]
fn roots_that_cannot_be_had_are_errors() {
    let void = Scalar { raw: frog::scalar::VOID };
    let q = shapes::sphere::Quadratic { a: void, b: fx(1.0), c: fx(1.0) };
    assert_eq!(q.roots(1), Err(Error::Range));
    let q = shapes::sphere::Quadratic { a: fx(0.0), b: fx(1.0), c: fx(1.0) };
    assert_eq!(q.roots(1), Err(Error::Range));
    let q = shapes::sphere::Quadratic { a: fx(0.0), b: fx(0.0), c: fx(1.0) };
    assert_eq!(q.roots(1), Err(Error::Range));
    let q = shapes::sphere::Quadratic { a: fx(1.0), b: fx(0.0), c: fx(1.0) };
    assert_eq!(q.roots(1), Ok(vec![]));
    let q = shapes::sphere::Quadratic { a: fx(1.0), b: fx(-2.0), c: fx(1.0) };
    assert_eq!(q.roots(1), Ok(vec![fx(1.0)]));
    let max = Scalar { raw: i64::MAX };
    let q = shapes::sphere::Quadratic { a: max, b: max, c: Scalar { raw: -i64::MAX } };
    assert_eq!(q.roots(1), Err(Error::Range));
    let q = shapes::sphere::Quadratic { a: Scalar { raw: 1 }, b: max, c: fx(0.0) };
    assert_eq!(q.roots(1), Err(Error::Range));
}
