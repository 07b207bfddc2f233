use frog::error::Error;
use frog::matrix;
use frog::primatives;
use frog::scalar::Scalar;

fn fx(v: f64) -> Scalar {
    Scalar { raw: (v * 1e9).round() as i64 }
}

fn row2(a: f64, b: f64) -> [Scalar; 2] {
    [fx(a), fx(b)]
}

fn row3(a: f64, b: f64, c: f64) -> [Scalar; 3] {
    [fx(a), fx(b), fx(c)]
}

fn row4(a: f64, b: f64, c: f64, d: f64) -> [Scalar; 4] {
    [fx(a), fx(b), fx(c), fx(d)]
}

#[test]
fn matrix_creation() {
    let mut m1 = matrix::new4x4();
    m1.contents[1][1] = fx(10.0);

    assert_eq!(m1.contents[0][0], fx(0.0));
    assert_eq!(m1.contents[1][1], fx(10.0));
}

#[test]
fn matrix_eq() {
    let m1 = matrix::new4x4();
    let m2 = matrix::new4x4();

    let mut m3 = matrix::new4x4();
    m3.contents[0][0] = fx(10.0);

    assert_ne!(m2, m3);
    assert_eq!(m1, m2);
}

#[test]
fn index_4x4() {
    let mut m1 = matrix::new4x4();
    let mut m2 = matrix::new4x4();

    m1.contents[0] = row4(1.0, 2.0, 3.0, 4.0);
    m2.contents[0] = row4(1.0, 2.0, 3.0, 4.0);

    m1.contents[1][0] = fx(10.0);
    m2.contents[1][0] = fx(10.0);
    assert_eq!(m1, m2);
}

#[test]
fn get_col_4x4() {
    let mut m1 = matrix::new4x4();
    m1.contents[0] = row4(1.0, 2.0, 3.0, 4.0);
    m1.contents[1] = row4(2.0, 3.0, 4.0, 5.0);
    m1.contents[2] = row4(3.0, 4.0, 5.0, 6.0);
    m1.contents[3] = row4(5.0, 5.0, 6.0, 7.0);

    let expected = row4(1.0, 2.0, 3.0, 5.0);
    let result = m1.get_col(0).unwrap();

    assert_eq!(expected, result);
}

#[test]
fn mul_4x4() {
    let mut m1 = matrix::new4x4();
    let mut m2 = matrix::new4x4();

    m1.contents[0] = row4(1.0, 2.0, 3.0, 4.0);
    m1.contents[1] = row4(5.0, 6.0, 7.0, 8.0);
    m1.contents[2] = row4(9.0, 8.0, 7.0, 6.0);
    m1.contents[3] = row4(5.0, 4.0, 3.0, 2.0);

    m2.contents[0] = row4(-2.0, 1.0, 2.0, 3.0);
    m2.contents[1] = row4(3.0, 2.0, 1.0, -1.0);
    m2.contents[2] = row4(4.0, 3.0, 6.0, 5.0);
    m2.contents[3] = row4(1.0, 2.0, 7.0, 8.0);

    let m3 = m1 * m2;
    let mut expected = matrix::new4x4();

    expected.contents[0] = row4(20.0, 22.0, 50.0, 48.0);
    expected.contents[1] = row4(44.0, 54.0, 114.0, 108.0);
    expected.contents[2] = row4(40.0, 58.0, 110.0, 102.0);
    expected.contents[3] = row4(16.0, 26.0, 46.0, 42.0);

    assert_eq!(m3, expected);
}

#[test]
fn mul_4x4_and_tuple() {
    let v1 = primatives::point(fx(1.0), fx(2.0), fx(3.0));
    let mut m1 = matrix::new4x4();

    m1.contents[0] = row4(1.0, 2.0, 3.0, 4.0);
    m1.contents[1] = row4(2.0, 4.0, 4.0, 2.0);
    m1.contents[2] = row4(8.0, 6.0, 4.0, 1.0);
    m1.contents[3] = row4(0.0, 0.0, 0.0, 1.0);

    let expected = primatives::point(fx(18.0), fx(24.0), fx(33.0));
    let result = m1 * v1;

    assert_eq!(expected, result);
}

#[test]
fn id_4x4() {
    let mut m1 = matrix::new4x4();
    m1.contents[0] = row4(1.0, 2.0, 3.0, 4.0);
    m1.contents[1] = row4(5.0, 6.0, 7.0, 8.0);
    m1.contents[2] = row4(9.0, 8.0, 7.0, 6.0);
    m1.contents[3] = row4(5.0, 4.0, 3.0, 2.0);

    let result = m1 * matrix::identity4x4();

    assert_eq!(result, m1);
}

#[test]
fn transpose_4x4() {
    let mut m1 = matrix::new4x4();
    m1.contents[0] = row4(0.0, 9.0, 3.0, 0.0);
    m1.contents[1] = row4(9.0, 8.0, 0.0, 8.0);
    m1.contents[2] = row4(1.0, 8.0, 5.0, 3.0);
    m1.contents[3] = row4(0.0, 0.0, 5.0, 8.0);

    let mut expected = matrix::new4x4();
    expected.contents[0] = row4(0.0, 9.0, 1.0, 0.0);
    expected.contents[1] = row4(9.0, 8.0, 8.0, 0.0);
    expected.contents[2] = row4(3.0, 0.0, 5.0, 5.0);
    expected.contents[3] = row4(0.0, 8.0, 3.0, 8.0);

    let result = m1.transposed();

    assert_eq!(result, expected)
}

#[test]
fn determinant_2x2() {
    let mut m1 = matrix::new2x2();
    m1.contents[0] = row2(1.0, 5.0);
    m1.contents[1] = row2(-3.0, 2.0);

    let result = m1.determinant();
    assert_eq!(result, fx(17.0));
}

#[test]
fn submatricies() {
    let mut m1 = matrix::new4x4();
    m1.contents[0] = row4(0.0, 9.0, 3.0, 0.0);
    m1.contents[1] = row4(9.0, 8.0, 0.0, 8.0);
    m1.contents[2] = row4(1.0, 8.0, 5.0, 3.0);
    m1.contents[3] = row4(0.0, 0.0, 5.0, 8.0);

    let mut expected = matrix::new3x3();
    expected.contents[0] = row3(9.0, 8.0, 0.0);
    expected.contents[1] = row3(1.0, 8.0, 5.0);
    expected.contents[2] = row3(0.0, 0.0, 5.0);

    let r1 = m1.submatrix(0, 3).unwrap();
    assert_eq!(r1, expected);

    let mut e2 = matrix::new2x2();
    e2.contents[0] = row2(9.0, 0.0);
    e2.contents[1] = row2(1.0, 5.0);

    let r2 = r1.submatrix(2, 1).unwrap();
    assert_eq!(r2, e2);
}

#[test]
fn minor_3x3() {
    let mut m1 = matrix::new3x3();
    m1.contents[0] = row3(3.0, 5.0, 0.0);
    m1.contents[1] = row3(2.0, -1.0, -7.0);
    m1.contents[2] = row3(6.0, -1.0, 5.0);

    let expected = fx(25.0);
    let result = m1.minor(1, 0).unwrap();

    assert_eq!(expected, result);
}

#[test]
fn cofactor_3x3() {
    let mut m1 = matrix::new3x3();
    m1.contents[0] = row3(3.0, 5.0, 0.0);
    m1.contents[1] = row3(2.0, -1.0, -7.0);
    m1.contents[2] = row3(6.0, -1.0, 5.0);

    let r1 = m1.cofactor(0, 0).unwrap();
    let e1 = fx(-12.0);
    assert_eq!(r1, e1);

    let r2 = m1.cofactor(1, 0).unwrap();
    let e2 = fx(-25.0);
    assert_eq!(r2, e2);
}

#[test]
fn determinant_3x3() {
    let mut m1 = matrix::new3x3();
    m1.contents[0] = row3(1.0, 2.0, 6.0);
    m1.contents[1] = row3(-5.0, 8.0, -4.0);
    m1.contents[2] = row3(2.0, 6.0, 4.0);

    let r1 = m1.cofactor(0, 0).unwrap();
    let e1 = fx(56.0);
    assert_eq!(r1, e1);

    let r2 = m1.cofactor(0, 1).unwrap();
    let e2 = fx(12.0);
    assert_eq!(r2, e2);

    let r3 = m1.cofactor(0, 2).unwrap();
    let e3 = fx(-46.0);
    assert_eq!(r3, e3);

    let r4 = m1.determinant();
    let e4 = fx(-196.0);
    assert_eq!(r4, e4);
}

#[test]
fn determinant_4x4() {
    let mut m1 = matrix::new4x4();
    m1.contents[0] = row4(-2.0, -8.0, 3.0, 5.0);
    m1.contents[1] = row4(-3.0, 1.0, 7.0, 3.0);
    m1.contents[2] = row4(1.0, 2.0, -9.0, 6.0);
    m1.contents[3] = row4(-6.0, 7.0, 7.0, -9.0);

    let r1 = m1.cofactor(0, 0).unwrap();
    let e1 = fx(690.0);
    assert_eq!(r1, e1);

    let r2 = m1.cofactor(0, 1).unwrap();
    let e2 = fx(447.0);
    assert_eq!(r2, e2);

    let r3 = m1.cofactor(0, 2).unwrap();
    let e3 = fx(210.0);
    assert_eq!(r3, e3);

    let r4 = m1.cofactor(0, 3).unwrap();
    let e4 = fx(51.0);
    assert_eq!(r4, e4);

    let r5 = m1.determinant();
    let e5 = fx(-4071.0);
    assert_eq!(r5, e5);
}

#[test]
fn matrix_inversion() {
    let mut m1 = matrix::new4x4();
    m1.contents[0] = row4(-5.0, 2.0, 6.0, -8.0);
    m1.contents[1] = row4(1.0, -5.0, 1.0, 8.0);
    m1.contents[2] = row4(7.0, 7.0, -6.0, -7.0);
    m1.contents[3] = row4(1.0, -3.0, 7.0, 4.0);

    let r1 = m1.matrix_of_cofactors();
    let mut e1 = matrix::new4x4();
    e1.contents[0] = row4(116.0, -430.0, -42.0, -278.0);
    e1.contents[1] = row4(240.0, -775.0, -119.0, -433.0);
    e1.contents[2] = row4(128.0, -236.0, -28.0, -160.0);
    e1.contents[3] = row4(-24.0, 277.0, 105.0, 163.0);
    assert_eq!(r1, e1);

    let expected = fx(105.0 / 532.0);
    let result = m1.inverse().unwrap().contents[2][3];
    assert_eq!(result, expected);

    let mut m2 = matrix::new4x4();
    m2.contents[0] = row4(8.0, -5.0, 9.0, 2.0);
    m2.contents[1] = row4(7.0, 5.0, 6.0, 1.0);
    m2.contents[2] = row4(-6.0, 0.0, 9.0, 6.0);
    m2.contents[3] = row4(-3.0, 0.0, -9.0, -4.0);

    let mut e2 = matrix::new4x4();
    e2.contents[0] = row4(-0.15385, -0.15385, -0.28205, -0.53846);
    e2.contents[1] = row4(-0.07692, 0.12308, 0.02564, 0.03077);
    e2.contents[2] = row4(0.35897, 0.35897, 0.43590, 0.92308);
    e2.contents[3] = row4(-0.69231, -0.69231, -0.76923, -1.92308);

    let r2 = m2.inverse().unwrap();
    assert_eq!(r2, e2);

    let m3 = m2 * m1;
    let should_be_same_as_m2 = m3 * m1.inverse().unwrap();
    assert_eq!(m2, should_be_same_as_m2)
}

#[test]
fn product_with_inverse_is_the_identity() {
    let mut m1 = matrix::new4x4();
    m1.contents[0] = row4(-5.0, 2.0, 6.0, -8.0);
    m1.contents[1] = row4(1.0, -5.0, 1.0, 8.0);
    m1.contents[2] = row4(7.0, 7.0, -6.0, -7.0);
    m1.contents[3] = row4(1.0, -3.0, 7.0, 4.0);
    let mut m2 = matrix::new4x4();
    m2.contents[0] = row4(8.0, -5.0, 9.0, 2.0);
    m2.contents[1] = row4(7.0, 5.0, 6.0, 1.0);
    m2.contents[2] = row4(-6.0, 0.0, 9.0, 6.0);
    m2.contents[3] = row4(-3.0, 0.0, -9.0, -4.0);

    assert_eq!(m1 * m1.inverse().unwrap(), matrix::identity4x4());
    assert_eq!(m2 * m2.inverse().unwrap(), matrix::identity4x4());
    assert_eq!((m1 * m2).inverse().unwrap(), m2.inverse().unwrap() * m1.inverse().unwrap());
}

#[test]
fn singular_matrix_has_no_inverse() {
    let mut m1 = matrix::new4x4();
    m1.contents[0] = row4(-4.0, 2.0, -2.0, -3.0);
    m1.contents[1] = row4(9.0, 6.0, 2.0, 6.0);
    m1.contents[2] = row4(0.0, -5.0, 1.0, -5.0);
    m1.contents[3] = row4(0.0, 0.0, 0.0, 0.0);
    assert_eq!(m1.determinant(), fx(0.0));
    assert!(!m1.is_invertable());
    assert_eq!(m1.inverse().err(), Some(Error::SingularMatrix));
    assert!(matrix::identity4x4().is_invertable());
    assert!(matrix::identity3x3().is_invertable());
    assert!(matrix::identity2x2().is_invertable());
    assert!(!matrix::new3x3().is_invertable());
    assert!(!matrix::new2x2().is_invertable());
}

#[test]
fn indices_outside_the_matrix_are_index_errors() {
    let m4 = matrix::identity4x4();
    let m3 = matrix::identity3x3();
    assert_eq!(m4.submatrix(4, 0).err(), Some(Error::Index));
    assert_eq!(m4.submatrix(0, 4).err(), Some(Error::Index));
    assert_eq!(m4.minor(4, 4).err(), Some(Error::Index));
    assert_eq!(m4.cofactor(0, 7).err(), Some(Error::Index));
    assert_eq!(m4.get_col(4).err(), Some(Error::Index));
    assert_eq!(m3.submatrix(3, 0).err(), Some(Error::Index));
    assert_eq!(m3.minor(0, 3).err(), Some(Error::Index));
    assert_eq!(m3.cofactor(3, 3).err(), Some(Error::Index));
}

#[test]
fn cofactor_sign_follows_parity_in_every_size() {
    let mut m3 = matrix::new3x3();
    m3.contents[0] = row3(1.0, 2.0, 3.0);
    m3.contents[1] = row3(4.0, 5.0, 6.0);
    m3.contents[2] = row3(7.0, 8.0, 10.0);
    let mut m4 = matrix::new4x4();
    m4.contents[0] = row4(1.0, 2.0, 3.0, 4.0);
    m4.contents[1] = row4(5.0, 6.0, 7.0, 9.0);
    m4.contents[2] = row4(9.0, 8.0, 7.0, 6.0);
    m4.contents[3] = row4(5.0, 4.0, 3.0, 1.0);
    for r in 0..3 {
        for c in 0..3 {
            let minor = m3.minor(r, c).unwrap();
            let expected = if (r + c) % 2 == 0 { minor } else { -minor };
            assert_eq!(m3.cofactor(r, c).unwrap(), expected);
        }
    }
    for r in 0..4 {
        for c in 0..4 {
            let minor = m4.minor(r, c).unwrap();
            let expected = if (r + c) % 2 == 0 { minor } else { -minor };
            assert_eq!(m4.cofactor(r, c).unwrap(), expected);
        }
    }
    assert_eq!(m3.cofactor(1, 1).unwrap(), fx(-11.0));
    assert_eq!(m3.cofactor(1, 2).unwrap(), fx(6.0));
    assert_eq!(m3.cofactor(2, 1).unwrap(), fx(6.0));
}

#[test]
fn rows_are_read_and_replaced_by_index() {
    let mut m4 = matrix::new4x4();
    assert_eq!(m4.set_row(2, row4(1.0, 2.0, 3.0, 4.0)), Ok(()));
    assert_eq!(m4.row(2), Ok(row4(1.0, 2.0, 3.0, 4.0)));
    assert_eq!(m4.row(1), Ok(row4(0.0, 0.0, 0.0, 0.0)));
    assert_eq!(m4.set_row(4, row4(1.0, 2.0, 3.0, 4.0)), Err(Error::Index));
    assert_eq!(m4.row(4), Err(Error::Index));
    assert_eq!(m4.contents[3], row4(0.0, 0.0, 0.0, 0.0));

    let mut m3 = matrix::new3x3();
    assert_eq!(m3.set_row(0, row3(1.0, 2.0, 3.0)), Ok(()));
    assert_eq!(m3.row(0), Ok(row3(1.0, 2.0, 3.0)));
    assert_eq!(m3.set_row(3, row3(1.0, 2.0, 3.0)), Err(Error::Index));
    assert_eq!(m3.row(3), Err(Error::Index));

    let mut m2 = matrix::new2x2();
    assert_eq!(m2.set_row(1, row2(1.0, 2.0)), Ok(()));
    assert_eq!(m2.row(1), Ok(row2(1.0, 2.0)));
    assert_eq!(m2.set_row(2, row2(1.0, 2.0)), Err(Error::Index));
    assert_eq!(m2.row(2), Err(Error::Index));
}

#[test]
fn determinant_of_a_translation_is_one() {
    let t = matrix::transformations::new_translation_matrix(fx(5.25), fx(-3.0), fx(0.000000001));
    assert_eq!(t.determinant(), fx(1.0));
    let inverse = t.inverse().unwrap();
    let back = matrix::transformations::new_translation_matrix(fx(-5.25), fx(3.0), fx(-0.000000001));
    for r in 0..4 {
        for c in 0..4 {
            assert_eq!(inverse.contents[r][c], back.contents[r][c]);
        }
    }
    let product = t * inverse;
    let identity = matrix::identity4x4();
    for r in 0..4 {
        for c in 0..4 {
            assert_eq!(product.contents[r][c], identity.contents[r][c]);
        }
    }
}

#[test]
fn inverse_fails_only_without_a_determinant() {
    // The determinant rounds to zero.
    let m = matrix::transformations::new_scaling_matrix(fx(0.00002), fx(0.00002), fx(1.0));
    assert_eq!(m.determinant(), fx(0.0));
    assert_eq!(m.inverse().err(), Some(Error::SingularMatrix));
    // The determinant leaves the range.
    let m = matrix::transformations::new_scaling_matrix(fx(3000.0), fx(3000.0), fx(3000.0));
    assert!(!m.determinant().is_number());
    assert_eq!(m.inverse().err(), Some(Error::Range));
    // Every other matrix has an inverse.
    for s in [0.000032, 0.0007, 0.0015, 0.0025, 0.006, 0.3, 17.0, 2000.0] {
        let m = matrix::transformations::new_scaling_matrix(fx(s), fx(s), fx(1.0));
        assert!(m.inverse().is_ok());
    }
}

#[test]
fn inverts_tells_whether_the_inverse_undoes_the_matrix() {
    let scales = [0.01, 0.05, 0.3, 1.0, 7.0, 300.0, 2000.0];
    for a in scales {
        for b in scales {
            let m = matrix::transformations::new_scaling_matrix(fx(a), fx(b), fx(1.0))
                * matrix::transformations::new_rotation_y_matrix(fx(a + b))
                * matrix::transformations::new_translation_matrix(fx(a), fx(-b), fx(3.0));
            if let Ok(inverse) = m.inverse() {
                assert_eq!(m.inverts(), m * inverse == matrix::identity4x4());
            } else {
                assert!(!m.inverts());
            }
        }
    }
    assert!(matrix::identity4x4().inverts());
    assert!(!matrix::new4x4().inverts());
    assert!(matrix::transformations::new_translation_matrix(fx(5.0), fx(-3.0), fx(2.0)).inverts());
    assert!(matrix::transformations::new_scaling_matrix(fx(2.0), fx(3.0), fx(4.0)).inverts());
    assert!(matrix::transformations::new_rotation_x_matrix(fx(1.1)).inverts());
}

#[test]
fn scalings_are_undone_by_their_inverses() {
    for s in [0.001, 0.0025, 0.0041, 0.02, 0.3, 3.0, 1999.0] {
        let m = matrix::transformations::new_scaling_matrix(fx(s), fx(-s), fx(s));
        assert!(m.inverts());
        let inverse = m.inverse().unwrap();
        assert_eq!(inverse.contents[3][3], fx(1.0));
        assert_eq!(inverse.contents[0][1], fx(0.0));
        assert_eq!(m * inverse, matrix::identity4x4());
    }
    let m = matrix::transformations::new_scaling_matrix(fx(0.0025), fx(0.0025), fx(0.0025));
    let inverse = m.inverse().unwrap();
    assert_eq!(inverse.contents[0][0], fx(400.0));
    assert_eq!(inverse.contents[1][1], fx(400.0));
    assert_eq!(inverse.contents[2][2], fx(400.0));
    let m = matrix::transformations::new_scaling_matrix(fx(0.000032), fx(0.000032), fx(1.0));
    assert_eq!(m.determinant(), Scalar { raw: 1 });
    let inverse = m.inverse().unwrap();
    assert_eq!(inverse.contents[0][0], fx(31250.0));
    assert_eq!(inverse.contents[1][1], fx(31250.0));
    assert_eq!(inverse.contents[2][2], fx(1.0));
    assert_eq!(inverse.contents[3][3], fx(1.0));
    assert!(m.inverts());
}

#[test]
fn rotations_are_undone_by_their_inverses() {
    for k in -40..40 {
        let angle = fx(k as f64 * 0.37);
        let x = matrix::transformations::new_rotation_x_matrix(angle);
        let y = matrix::transformations::new_rotation_y_matrix(angle);
        let z = matrix::transformations::new_rotation_z_matrix(angle);
        assert!(x.inverts());
        assert!(y.inverts());
        assert!(z.inverts());
        assert_eq!(z * z.inverse().unwrap(), matrix::identity4x4());
    }
}

#[test]
fn the_inverse_is_the_cofactors_over_the_determinant() {
    let mut m = matrix::new4x4();
    m.contents[0] = row4(-5.0, 2.0, 6.0, -8.0);
    m.contents[1] = row4(1.0, -5.0, 1.0, 8.0);
    m.contents[2] = row4(7.0, 7.0, -6.0, -7.0);
    m.contents[3] = row4(1.0, -3.0, 7.0, 4.0);
    let determinant = m.determinant();
    assert_eq!(determinant, fx(532.0));
    let cofactors = m.matrix_of_cofactors();
    let inverse = m.inverse().unwrap();
    for r in 0..4 {
        for c in 0..4 {
            assert_eq!(inverse.contents[r][c], cofactors.contents[c][r] / determinant);
        }
    }
}

#[test]
fn inverse_of_a_product_of_scalings_is_the_product_of_the_inverses() {
    let parts = [0.1, 0.37, 1.0, 2.5, 17.0, 40.0];
    for a in parts {
        for b in parts {
            let m = matrix::transformations::new_scaling_matrix(fx(a), fx(-b), fx(1.0));
            let n = matrix::transformations::new_scaling_matrix(fx(b), fx(a), fx(-a));
            let whole = (m * n).inverse().unwrap();
            let reversed = n.inverse().unwrap() * m.inverse().unwrap();
            assert_eq!(whole, reversed);
        }
    }
}
