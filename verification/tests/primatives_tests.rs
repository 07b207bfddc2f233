use frog::primatives;
use frog::scalar::Scalar;

fn fx(v: f64) -> Scalar {
    Scalar { raw: (v * 1e9).round() as i64 }
}

#[test]
fn test_vector_construction() {
    let ret_val = primatives::vec3(fx(1.0), fx(2.0), fx(3.0));
    let expect = primatives::Tuple { x: fx(1.0), y: fx(2.0), z: fx(3.0), w: fx(0.0) };

    assert_eq!(expect.x, ret_val.x);
    assert_eq!(expect.y, ret_val.y);
    assert_eq!(expect.z, ret_val.z);
    assert_eq!(expect.w, ret_val.w);
}

#[test]
fn test_point_construction() {
    let ret_val = primatives::point(fx(1.0), fx(2.0), fx(3.0));
    let expect =
        primatives::Tuple { x: fx(1.0), y: fx(2.0), z: fx(3.0), w: primatives::type_pnt() };

    assert_eq!(expect.x, ret_val.x);
    assert_eq!(expect.y, ret_val.y);
    assert_eq!(expect.z, ret_val.z);
    assert_eq!(expect.w, ret_val.w);
}

#[test]
#[should_panic]
fn test_invalid_type() {
    let val = primatives::Tuple { x: fx(1.0), y: fx(2.0), z: fx(3.0), w: fx(2.0) };
    val.check_type_validity().unwrap();
}

#[test]
#[should_panic]
fn test_invalid_pnt() {
    let vec = primatives::vec3(fx(0.0), fx(0.0), fx(0.0));
    vec.check_type(primatives::type_pnt()).unwrap();
}

#[test]
#[should_panic]
fn test_invalid_vec3() {
    let pnt = primatives::point(fx(0.0), fx(0.0), fx(0.0));
    pnt.check_type(primatives::type_vec()).unwrap();
}

#[test]
fn add_two_points() {
    let pnt1 = primatives::point(fx(1.0), fx(2.0), fx(3.0));
    let pnt2 = primatives::point(fx(1.0), fx(2.0), fx(3.0));

    let result = pnt1 + pnt2;

    assert_ne!(result.w, primatives::type_pnt());
    assert_ne!(result.w, primatives::type_vec());
}

#[test]
fn add_two_vecs() {
    let vec1 = primatives::vec3(fx(1.0), fx(2.0), fx(3.0));
    let vec2 = primatives::vec3(fx(1.0), fx(2.0), fx(3.0));

    let result = vec1 + vec2;

    assert_eq!(result.w, primatives::type_vec());
}

#[test]
fn add_vec_and_points() {
    let vec1 = primatives::vec3(fx(1.0), fx(2.0), fx(3.0));
    let pnt1 = primatives::point(fx(1.0), fx(2.0), fx(3.0));

    let result = pnt1 + vec1;

    assert_eq!(result.w, primatives::type_pnt());
}

#[test]
fn sub_two_points() {
    let pnt1 = primatives::point(fx(1.0), fx(2.0), fx(3.0));
    let pnt2 = primatives::point(fx(1.0), fx(2.0), fx(3.0));

    let result = pnt1 - pnt2;

    assert_eq!(result.w, primatives::type_vec());
}

#[test]
fn sub_two_vecs() {
    let vec1 = primatives::vec3(fx(1.0), fx(2.0), fx(3.0));
    let vec2 = primatives::vec3(fx(1.0), fx(2.0), fx(3.0));

    let result = vec1 - vec2;

    assert_eq!(result.w, primatives::type_vec());
}

#[test]
fn sub_vec_from_pnt() {
    let vec1 = primatives::vec3(fx(1.0), fx(2.0), fx(3.0));
    let pnt1 = primatives::point(fx(1.0), fx(2.0), fx(3.0));

    let result = pnt1 - vec1;

    assert_eq!(result.w, primatives::type_pnt());
}

#[test]
fn sub_pnt_from_vec() {
    let vec1 = primatives::vec3(fx(1.0), fx(2.0), fx(3.0));
    let pnt1 = primatives::point(fx(1.0), fx(2.0), fx(3.0));

    let result = vec1 - pnt1;

    assert_ne!(result.w, primatives::type_pnt());
    assert_ne!(result.w, primatives::type_vec());
}

#[test]
fn neg_vec() {
    let vec1 = primatives::vec3(fx(1.0), fx(2.0), fx(3.0));
    let result = -vec1;

    assert_eq!(result.w, primatives::type_vec());
}

#[test]
fn neg_pnt() {
    let pnt1 = primatives::point(fx(1.0), fx(2.0), fx(3.0));

    let result = -pnt1;

    assert_ne!(result.w, primatives::type_pnt());
    assert_ne!(result.w, primatives::type_vec());
}

#[test]
fn scale_vec() {
    let scalar = fx(3.5);
    let vec = primatives::vec3(fx(1.0), fx(-2.0), fx(3.0));

    let result = scalar * vec;
    assert_eq!(result.w, primatives::type_vec());

    let result_1 = vec * scalar;
    assert_eq!(result_1.w, primatives::type_vec());
}

#[test]
fn dot_product() {
    let vec1 = primatives::vec3(fx(1.0), fx(3.0), fx(-5.0));
    let vec2 = primatives::vec3(fx(4.0), fx(-2.0), fx(-1.0));

    let result = primatives::dot_product(vec1, vec2);
    assert_eq!(result, fx(3.0));
}

#[test]
fn cross_product() {
    let vec1 = primatives::vec3(fx(1.0), fx(2.0), fx(3.0));
    let vec2 = primatives::vec3(fx(2.0), fx(3.0), fx(4.0));

    let result_1_2 = primatives::cross_product(vec1, vec2);
    let expected_1_2 = primatives::vec3(fx(-1.0), fx(2.0), fx(-1.0));
    assert_eq!(result_1_2, expected_1_2);

    let result_2_1 = primatives::cross_product(vec2, vec1);
    let expected_2_1 = primatives::vec3(fx(1.0), fx(-2.0), fx(1.0));
    assert_eq!(result_2_1, expected_2_1);
}

#[test]
fn test_magnitude() {
    let vec1 = primatives::vec3(fx(1.0), fx(2.0), fx(3.0));

    let result = vec1.magnitude();
    assert_eq!(fx(14_f64.sqrt()), result);
}

#[test]
fn test_normalization() {
    let vec1 = primatives::vec3(fx(3.0), fx(1.0), fx(2.0));

    let vec1_normalized = vec1.normalized();
    let expected = primatives::vec3(fx(0.80178), fx(0.26726), fx(0.53452));
    assert_eq!(expected, vec1_normalized);
}

#[test]
fn tuple_eq() {
    let vec1 = primatives::vec3(fx(1.0), fx(2.0), fx(3.0));
    let vec2 = primatives::vec3(fx(1.0), fx(2.0), fx(3.0));
    let vec3 = primatives::vec3(fx(3.0), fx(2.0), fx(3.0));

    assert_eq!(vec1, vec2);
    assert_ne!(vec1, vec3);
}

#[test]
fn reflection() {
    let v1 = primatives::vec3(fx(1.0), fx(-1.0), fx(0.0));
    let normal = primatives::vec3(fx(0.0), fx(1.0), fx(0.0));
    let r = normal.reflect(v1);

    assert_eq!(r, primatives::vec3(fx(1.0), fx(1.0), fx(0.0)));

    let v2 = primatives::vec3(fx(0.0), fx(-1.0), fx(0.0));
    let normal = primatives::vec3(fx(2.0_f64.sqrt() / 2.0), fx(2.0_f64.sqrt() / 2.0), fx(0.0));
    let r = normal.reflect(v2);

    assert_eq!(r, primatives::vec3(fx(1.0), fx(0.0), fx(0.0)));
}

#[test]
fn cross_product_anticommutes_on_samples() {
    let u = primatives::vec3(fx(0.37), fx(-12.25), fx(8.0));
    let v = primatives::vec3(fx(-3.001), fx(4.5), fx(0.000000001));
    let uv = primatives::cross_product(u, v);
    let vu = -primatives::cross_product(v, u);
    assert_eq!(uv.x, vu.x);
    assert_eq!(uv.y, vu.y);
    assert_eq!(uv.z, vu.z);
    assert_eq!(uv.w, vu.w);
}

#[test]
fn type_checks_report_the_type_error() {
    let val = primatives::Tuple { x: fx(1.0), y: fx(2.0), z: fx(3.0), w: fx(2.0) };
    assert_eq!(val.check_type_validity(), Err(frog::error::Error::Type));
    assert_eq!(val.check_type(primatives::type_pnt()), Err(frog::error::Error::Type));
    let p = primatives::point(fx(0.0), fx(0.0), fx(0.0));
    assert_eq!(p.check_type_validity(), Ok(()));
    assert_eq!(p.check_type(primatives::type_pnt()), Ok(()));
    assert_eq!(p.check_type(primatives::type_vec()), Err(frog::error::Error::Type));
}

#[test]
fn magnitude_counts_the_tag() {
    let p = primatives::point(fx(0.0), fx(0.0), fx(0.0));
    assert_eq!(p.magnitude(), fx(1.0));
    let v = primatives::vec3(fx(3.0), fx(4.0), fx(0.0));
    assert_eq!(v.magnitude(), fx(5.0));
}

#[test]
fn the_zero_vector_has_no_direction() {
    let v = primatives::vec3(fx(0.0), fx(0.0), fx(0.0));
    let n = v.normalized();
    assert!(!n.is_number());
    assert!(!n.x.is_number());
    assert!(!n.w.is_number());
    assert_eq!(v.magnitude(), fx(0.0));
}

#[test]
fn every_other_tuple_normalizes_to_unit_length() {
    let samples = [
        (1i64, 0i64, 0i64),
        (1, 1, 0),
        (1, -1, 1),
        (3, 4, 0),
        (-7, 11, 13),
        (1_000, -999, 2),
        (123_456_789, 1, -1),
        (1_073_741_823, 1_073_741_824, 0),
        (5_000_000_000_000_000_000, -4_000_000_000_000_000_000, 3),
        (i64::MAX, i64::MAX, -i64::MAX),
    ];
    for (x, y, z) in samples {
        let v = primatives::Tuple {
            x: Scalar { raw: x },
            y: Scalar { raw: y },
            z: Scalar { raw: z },
            w: Scalar { raw: 0 },
        };
        let n = v.normalized();
        assert!(n.is_number());
        assert_eq!(n.w, fx(0.0));
        assert!((n.magnitude().raw - 1_000_000_000).abs() < 100_000);
        let twice = primatives::Tuple {
            x: Scalar { raw: x / 2 * 2 },
            y: Scalar { raw: y / 2 * 2 },
            z: Scalar { raw: z / 2 * 2 },
            w: Scalar { raw: 0 },
        };
        let half = primatives::Tuple {
            x: Scalar { raw: x / 2 },
            y: Scalar { raw: y / 2 },
            z: Scalar { raw: z / 2 },
            w: Scalar { raw: 0 },
        };
        if half.x.raw != 0 || half.y.raw != 0 || half.z.raw != 0 {
            assert_eq!(twice.normalized(), half.normalized());
        }
    }
    let tiny = primatives::Tuple {
        x: Scalar { raw: 0 },
        y: Scalar { raw: 3 },
        z: Scalar { raw: -4 },
        w: Scalar { raw: 0 },
    };
    let n = tiny.normalized();
    assert_eq!(n.y, fx(0.6));
    assert_eq!(n.z, fx(-0.8));
    assert_eq!(tiny.magnitude(), Scalar { raw: 5 });
}

#[test]
fn a_length_that_leaves_the_range_is_no_number() {
    let v = primatives::Tuple {
        x: Scalar { raw: i64::MAX },
        y: Scalar { raw: i64::MAX },
        z: Scalar { raw: 0 },
        w: Scalar { raw: 0 },
    };
    assert!(!v.magnitude().is_number());
    assert!(v.normalized().is_number());
}
