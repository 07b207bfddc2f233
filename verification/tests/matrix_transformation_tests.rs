use frog::matrix::transformations;
use frog::primatives;
use frog::scalar::Scalar;

const PI: f64 = std::f64::consts::PI;

fn fx(v: f64) -> Scalar {
    Scalar { raw: (v * 1e9).round() as i64 }
}

#[test]
fn translation() {
    let translation = transformations::new_translation_matrix(fx(5.0), fx(-3.0), fx(2.0));
    let p1 = primatives::point(fx(-3.0), fx(4.0), fx(5.0));

    let tranformed_point = translation * p1;
    let expected = primatives::point(fx(2.0), fx(1.0), fx(7.0));
    assert_eq!(tranformed_point, expected);

    let inv = translation.inverse().unwrap();
    let trans_pnt_2 = inv * tranformed_point;
    assert_eq!(trans_pnt_2, p1);

    let v1 = primatives::vec3(fx(-3.0), fx(4.0), fx(5.0));
    let v2 = translation * v1;
    assert_eq!(v1, v2);
}

#[test]
fn scaling() {
    let transform = transformations::new_scaling_matrix(fx(2.0), fx(3.0), fx(4.0));

    let p1 = primatives::point(fx(-4.0), fx(6.0), fx(8.0));
    let expected = primatives::point(fx(-8.0), fx(18.0), fx(32.0));
    let result = transform * p1;
    assert_eq!(result, expected);

    let result = transform.inverse().unwrap() * result;
    assert_eq!(p1, result);

    let v1 = primatives::vec3(fx(-4.0), fx(6.0), fx(8.0));
    let expected = primatives::vec3(fx(-8.0), fx(18.0), fx(32.0));
    let result = transform * v1;
    assert_eq!(result, expected);

    let result = transform.inverse().unwrap() * result;
    assert_eq!(v1, result);
}

#[test]
fn rotation_x() {
    let p1 = primatives::point(fx(0.0), fx(1.0), fx(0.0));

    let pi = PI;
    let half_quarter = transformations::new_rotation_x_matrix(fx(pi / 4.0));
    let full_quarter = transformations::new_rotation_x_matrix(fx(pi / 2.0));

    let root_2_over_2 = (2.0_f64).sqrt() / 2.0;
    let expected = primatives::point(fx(0.0), fx(root_2_over_2), fx(root_2_over_2));
    let expected2 = primatives::point(fx(0.0), fx(0.0), fx(1.0));
    assert_eq!(expected, half_quarter * p1);
    assert_eq!(expected2, full_quarter * p1);

    assert_eq!(p1, half_quarter.inverse().unwrap() * expected);
    assert_eq!(p1, full_quarter.inverse().unwrap() * expected2);
}

#[test]
fn rotation_y() {
    let p1 = primatives::point(fx(0.0), fx(0.0), fx(1.0));

    let pi = PI;
    let half_quarter = transformations::new_rotation_y_matrix(fx(pi / 4.0));
    let full_quarter = transformations::new_rotation_y_matrix(fx(pi / 2.0));

    let root_2_over_2 = (2.0_f64).sqrt() / 2.0;
    let expected = primatives::point(fx(root_2_over_2), fx(0.0), fx(root_2_over_2));
    let expected2 = primatives::point(fx(1.0), fx(0.0), fx(0.0));

    assert_eq!(expected, half_quarter * p1);
    assert_eq!(expected2, full_quarter * p1);

    assert_eq!(p1, half_quarter.inverse().unwrap() * expected);
    assert_eq!(p1, full_quarter.inverse().unwrap() * expected2);
}

#[test]
fn rotation_z() {
    let p1 = primatives::point(fx(0.0), fx(1.0), fx(0.0));

    let pi = PI;
    let half_quarter = transformations::new_rotation_z_matrix(fx(pi / 4.0));
    let full_quarter = transformations::new_rotation_z_matrix(fx(pi / 2.0));

    let root_2_over_2 = (2.0_f64).sqrt() / 2.0;
    let expected = primatives::point(fx(-root_2_over_2), fx(root_2_over_2), fx(0.0));
    let expected2 = primatives::point(fx(-1.0), fx(0.0), fx(0.0));

    assert_eq!(expected, half_quarter * p1);
    assert_eq!(expected2, full_quarter * p1);

    assert_eq!(p1, half_quarter.inverse().unwrap() * expected);
    assert_eq!(p1, full_quarter.inverse().unwrap() * expected2);
}

#[test]
fn shearing() {
    let p1 = primatives::point(fx(2.0), fx(3.0), fx(4.0));
    let o = fx(0.0);
    let i = fx(1.0);

    let transform = transformations::new_shearing_matrix(i, o, o, o, o, o);
    let expected = primatives::point(fx(5.0), fx(3.0), fx(4.0));
    assert_eq!(transform * p1, expected);

    let transform = transformations::new_shearing_matrix(o, i, o, o, o, o);
    let expected = primatives::point(fx(6.0), fx(3.0), fx(4.0));
    assert_eq!(transform * p1, expected);

    let transform = transformations::new_shearing_matrix(o, o, i, o, o, o);
    let expected = primatives::point(fx(2.0), fx(5.0), fx(4.0));
    assert_eq!(transform * p1, expected);

    let transform = transformations::new_shearing_matrix(o, o, o, i, o, o);
    let expected = primatives::point(fx(2.0), fx(7.0), fx(4.0));
    assert_eq!(transform * p1, expected);

    let transform = transformations::new_shearing_matrix(o, o, o, o, i, o);
    let expected = primatives::point(fx(2.0), fx(3.0), fx(6.0));
    assert_eq!(transform * p1, expected);

    let transform = transformations::new_shearing_matrix(o, o, o, o, o, i);
    let expected = primatives::point(fx(2.0), fx(3.0), fx(7.0));
    assert_eq!(transform * p1, expected);
    assert_eq!(transform.inverse().unwrap() * expected, p1);
}

#[test]
fn translation_leaves_vectors_exactly_unchanged() {
    let translation = transformations::new_translation_matrix(fx(5.25), fx(-3.0), fx(1e6));
    let v1 = primatives::vec3(fx(-3.000000001), fx(4.5), fx(123456.789));
    let v2 = translation * v1;
    assert_eq!(v1.x, v2.x);
    assert_eq!(v1.y, v2.y);
    assert_eq!(v1.z, v2.z);
    assert_eq!(v1.w, v2.w);
}

#[test]
fn translation_round_trip_is_exact() {
    let translation = transformations::new_translation_matrix(fx(5.25), fx(-3.0), fx(0.000000001));
    let p = primatives::point(fx(-3.7), fx(4.5), fx(12.125));
    let back = translation.inverse().unwrap() * (translation * p);
    assert_eq!(back.x, p.x);
    assert_eq!(back.y, p.y);
    assert_eq!(back.z, p.z);
    assert_eq!(back.w, p.w);
}

fn turns_back_after(n: u32) {
    let step = transformations::new_rotation_z_matrix(fx(2.0 * PI / n as f64));
    let start = primatives::point(fx(0.0), fx(1.0), fx(0.0));
    let mut p = start;
    for _ in 0..n {
        p = step * p;
    }
    assert_eq!(p, start);
}

#[test]
fn rotation_z_returns_after_four_steps() {
    turns_back_after(4);
}

#[test]
fn rotation_z_returns_after_six_steps() {
    turns_back_after(6);
}

#[test]
fn rotation_z_returns_after_twelve_steps() {
    turns_back_after(12);
}

#[test]
fn sine_and_cosine_of_known_angles() {
    let tol = 5;
    let close = |a: Scalar, b: f64| (a.raw - fx(b).raw).abs() <= tol;
    assert_eq!(fx(0.0).sin(), fx(0.0));
    assert_eq!(fx(0.0).cos(), fx(1.0));
    assert_eq!(fx(PI / 2.0).sin(), fx(1.0));
    assert_eq!(fx(PI / 2.0).cos(), fx(0.0));
    assert!(close(fx(PI / 6.0).sin(), 0.5));
    assert!(close(fx(PI / 3.0).cos(), 0.5));
    assert!(close(fx(PI / 4.0).sin(), (0.5f64).sqrt()));
    assert!(close(fx(PI).cos(), -1.0));
    assert!(close(fx(-PI / 2.0).sin(), -1.0));
    assert!(close(fx(3.0 * PI / 2.0).sin(), -1.0));
    assert!(close(fx(2.0).sin(), (2.0f64).sin()));
    assert!(close(fx(-4.0).cos(), (-4.0f64).cos()));
    assert!((fx(100.0).sin().raw - fx((100.0f64).sin()).raw).abs() <= 30);
    assert!(close(fx(PI / 4.0).tan(), 1.0));
    assert_eq!(transformations::pi(), fx(PI));
}

#[test]
fn view_transformation_default_orientation_is_the_identity() {
    let from = primatives::point(fx(0.0), fx(0.0), fx(0.0));
    let to = primatives::point(fx(0.0), fx(0.0), fx(-1.0));
    let up = primatives::vec3(fx(0.0), fx(1.0), fx(0.0));
    let t = transformations::new_view_transformation_matrix(from, to, up).unwrap();
    assert_eq!(t, frog::matrix::identity4x4());
}

#[test]
fn view_transformation_looking_back_mirrors() {
    let from = primatives::point(fx(0.0), fx(0.0), fx(0.0));
    let to = primatives::point(fx(0.0), fx(0.0), fx(1.0));
    let up = primatives::vec3(fx(0.0), fx(1.0), fx(0.0));
    let t = transformations::new_view_transformation_matrix(from, to, up).unwrap();
    assert_eq!(t, transformations::new_scaling_matrix(fx(-1.0), fx(1.0), fx(-1.0)));
}

#[test]
fn view_transformation_moves_the_world() {
    let from = primatives::point(fx(0.0), fx(0.0), fx(8.0));
    let to = primatives::point(fx(0.0), fx(0.0), fx(0.0));
    let up = primatives::vec3(fx(0.0), fx(1.0), fx(0.0));
    let t = transformations::new_view_transformation_matrix(from, to, up).unwrap();
    assert_eq!(t, transformations::new_translation_matrix(fx(0.0), fx(0.0), fx(-8.0)));
}

#[test]
fn view_transformation_arbitrary() {
    let from = primatives::point(fx(1.0), fx(3.0), fx(2.0));
    let to = primatives::point(fx(4.0), fx(-2.0), fx(8.0));
    let up = primatives::vec3(fx(1.0), fx(1.0), fx(0.0));
    let t = transformations::new_view_transformation_matrix(from, to, up).unwrap();
    let mut expected = frog::matrix::new4x4();
    expected.contents[0] = [fx(-0.50709), fx(0.50709), fx(0.67612), fx(-2.36643)];
    expected.contents[1] = [fx(0.76772), fx(0.60609), fx(0.12122), fx(-2.82843)];
    expected.contents[2] = [fx(-0.35857), fx(0.59761), fx(-0.71714), fx(0.00000)];
    expected.contents[3] = [fx(0.00000), fx(0.00000), fx(0.00000), fx(1.00000)];
    assert_eq!(t, expected);
}

#[test]
fn view_transformation_checks_its_arguments() {
    let p = primatives::point(fx(0.0), fx(0.0), fx(0.0));
    let q = primatives::point(fx(0.0), fx(0.0), fx(-1.0));
    let v = primatives::vec3(fx(0.0), fx(1.0), fx(0.0));
    let e = Some(frog::error::Error::Type);
    assert_eq!(transformations::new_view_transformation_matrix(v, q, v).err(), e);
    assert_eq!(transformations::new_view_transformation_matrix(p, v, v).err(), e);
    assert_eq!(transformations::new_view_transformation_matrix(p, q, p).err(), e);
}

#[test]
fn quarter_turn_about_z_is_exact() {
    let turn = transformations::new_rotation_z_matrix(fx(PI / 2.0));
    let p = primatives::point(fx(0.3), fx(-7.25), fx(2.0));
    let q = turn * p;
    assert_eq!(q.x, fx(7.25));
    assert_eq!(q.y, fx(0.3));
    assert_eq!(q.z, fx(2.0));
    assert_eq!(q.w, fx(1.0));
    let back = turn * (turn * (turn * q));
    assert_eq!(back.x, p.x);
    assert_eq!(back.y, p.y);
    assert_eq!(back.z, p.z);
    assert_eq!(back.w, p.w);
}

#[test]
fn the_length_of_the_hint_does_not_change_the_view() {
    let from = primatives::point(fx(0.0), fx(0.0), fx(0.0));
    let to = primatives::point(fx(0.0), fx(0.0), fx(-1.0));
    let hint = primatives::Tuple {
        x: Scalar { raw: 0 },
        y: Scalar { raw: 1 },
        z: Scalar { raw: 0 },
        w: Scalar { raw: 0 },
    };
    let t = transformations::new_view_transformation_matrix(from, to, hint).unwrap();
    let identity = frog::matrix::identity4x4();
    for r in 0..4 {
        for c in 0..4 {
            assert_eq!(t.contents[r][c], identity.contents[r][c]);
        }
    }
    let long = primatives::vec3(fx(0.0), fx(70000.0), fx(0.0));
    let t = transformations::new_view_transformation_matrix(from, to, long).unwrap();
    assert_eq!(t.contents[0][0], fx(1.0));
    assert_eq!(t.contents[1][1], fx(1.0));
}

#[test]
fn a_view_without_a_direction_is_an_error() {
    let p = primatives::point(fx(1.0), fx(2.0), fx(3.0));
    let up = primatives::vec3(fx(0.0), fx(1.0), fx(0.0));
    let none = primatives::vec3(fx(0.0), fx(0.0), fx(0.0));
    let q = primatives::point(fx(0.0), fx(0.0), fx(0.0));
    let range = Some(frog::error::Error::Range);
    assert_eq!(transformations::new_view_transformation_matrix(p, p, up).err(), range);
    assert_eq!(transformations::new_view_transformation_matrix(p, q, none).err(), range);
}

#[test]
fn sixths_and_twelfths_of_a_turn_are_pi_over_three_and_over_six() {
    let two_pi = transformations::pi() * Scalar::from_int(2);
    assert_eq!((two_pi / Scalar::from_int(6)).raw, frog::matrix::turns::SIXTH_TURN);
    assert_eq!((two_pi / Scalar::from_int(12)).raw, frog::matrix::turns::TWELFTH_TURN);
}

#[test]
fn sine_and_cosine_of_a_sixth_and_a_twelfth_of_a_turn() {
    let sixth = Scalar { raw: frog::matrix::turns::SIXTH_TURN };
    let twelfth = Scalar { raw: frog::matrix::turns::TWELFTH_TURN };
    assert_eq!(sixth.cos().raw, 500_000_000);
    assert_eq!(sixth.sin().raw, 866_025_404);
    assert_eq!(twelfth.cos().raw, 866_025_404);
    assert_eq!(twelfth.sin().raw, 500_000_000);
}

fn far_tuple_turns_back_after(angle: i64, n: u32) {
    let step = transformations::new_rotation_z_matrix(Scalar { raw: angle });
    let far = frog::matrix::turns::NEAR;
    for (x, y) in [(far, far), (-far, far), (far, -far), (-far, 0), (0, far), (1, -1), (0, 0)] {
        let start = primatives::point(Scalar { raw: x }, Scalar { raw: y }, fx(-7.5));
        let mut p = start;
        for _ in 0..n {
            p = step * p;
        }
        assert_eq!(p, start);
        assert_eq!(p.z, start.z);
        assert_eq!(p.w, start.w);
        assert!((p.x.raw - x).abs() < 100_000);
        assert!((p.y.raw - y).abs() < 100_000);
    }
}

#[test]
fn tuples_far_from_the_axis_return_after_six_turns() {
    far_tuple_turns_back_after(frog::matrix::turns::SIXTH_TURN, 6);
}

#[test]
fn tuples_far_from_the_axis_return_after_twelve_turns() {
    far_tuple_turns_back_after(frog::matrix::turns::TWELFTH_TURN, 12);
}

#[test]
fn one_turn_moves_a_coordinate_by_at_most_a_raw_unit_from_the_exact_one() {
    let angle = Scalar { raw: 1_234_567_891 };
    let (c, s) = (angle.cos().raw as i128, angle.sin().raw as i128);
    let step = transformations::new_rotation_z_matrix(angle);
    let p = primatives::point(fx(3.25), fx(-8.125), fx(1.0));
    let q = step * p;
    let (x, y) = (p.x.raw as i128, p.y.raw as i128);
    let scale = 1_000_000_000i128;
    assert!((scale * q.x.raw as i128 - (c * x - s * y)).abs() <= scale);
    assert!((scale * q.y.raw as i128 - (s * x + c * y)).abs() <= scale);
    assert_eq!(q.z, p.z);
}
