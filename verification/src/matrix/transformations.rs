//! Builders of affine transformations. They compose by matrix multiplication; in a product the
//! right factor acts first on the tuple.

use core::ops::Neg;
use vstd::prelude::*;
use crate::accuracy::lemma_normalized_of_lifted;
use crate::error::Error;
use crate::matrix::{Matrix3x3, Matrix4x4};
use crate::primatives::{
    cross_product, point, type_pnt, type_vec, vec3, PointT, Tuple, Vec3T,
};
use crate::scalar::{
    abs, fx_mul, fx_ratio, lemma_mul_whole, lemma_product_sign, lemma_ratio_by_one,
    lemma_round_div_bounds, lemma_round_div_cancels, lemma_round_div_multiple,
    lemma_round_div_near, round_div, Scalar, SCALE, VOID,
};
use crate::scalar::lemma_round_div_odd;
use crate::trig::{lemma_quarter_turns, lemma_sin_cos_bounds, lemma_sin_cos_large, QUARTER_TURN};

verus! {

/// Pi, in raw units.
pub const PI_RAW: i64 = 3_141_592_654;

pub open spec fn spec_pi() -> Scalar {
    Scalar { raw: PI_RAW }
}

/// Pi, rounded to a raw unit.
#[verifier::when_used_as_spec(spec_pi)]
pub fn pi() -> (p: Scalar)
    ensures
        p == spec_pi(),
{
    Scalar { raw: PI_RAW }
}

/// The identity with `(x, y, z)` in the last column.
pub open spec fn spec_new_translation_matrix(x: Scalar, y: Scalar, z: Scalar) -> Matrix4x4 {
    Matrix4x4 {
        contents: [
            [Scalar::one(), Scalar::zero(), Scalar::zero(), x],
            [Scalar::zero(), Scalar::one(), Scalar::zero(), y],
            [Scalar::zero(), Scalar::zero(), Scalar::one(), z],
            [Scalar::zero(), Scalar::zero(), Scalar::zero(), Scalar::one()],
        ],
    }
}

/// Moves a point by `(x, y, z)`.
#[verifier::when_used_as_spec(spec_new_translation_matrix)]
pub fn new_translation_matrix(x: Scalar, y: Scalar, z: Scalar) -> (m: Matrix4x4)
    ensures
        m == spec_new_translation_matrix(x, y, z),
{
    let o = Scalar::zero();
    let i = Scalar::one();
    Matrix4x4 { contents: [[i, o, o, x], [o, i, o, y], [o, o, i, z], [o, o, o, i]] }
}

/// A translation leaves a vector as it is: the tag zero switches the last column off.
pub proof fn lemma_translation_leaves_vectors(
    a: Scalar,
    b: Scalar,
    c: Scalar,
    x: Scalar,
    y: Scalar,
    z: Scalar,
)
    requires
        a.wf(),
        b.wf(),
        c.wf(),
        x.wf(),
        y.wf(),
        z.wf(),
    ensures
        new_translation_matrix(a, b, c).spec_mul_tuple(vec3(x, y, z)) == vec3(x, y, z),
{
    reveal(Matrix4x4::spec_mul_tuple);
    x.lemma_neutral();
    y.lemma_neutral();
    z.lemma_neutral();
    a.lemma_neutral();
    b.lemma_neutral();
    c.lemma_neutral();
    Scalar::zero().lemma_neutral();
}

/// A translation moves a point by its three amounts and leaves it a point.
pub proof fn lemma_translation_moves_points(a: Scalar, b: Scalar, c: Scalar, p: PointT)
    requires
        p.is_point(),
        p.wf(),
        a.wf(),
        b.wf(),
        c.wf(),
    ensures
        new_translation_matrix(a, b, c).spec_mul_tuple(p) == point(
            p.x.spec_add(a),
            p.y.spec_add(b),
            p.z.spec_add(c),
        ),
{
    reveal(Matrix4x4::spec_mul_tuple);
    p.x.lemma_neutral();
    p.y.lemma_neutral();
    p.z.lemma_neutral();
    a.lemma_neutral();
    b.lemma_neutral();
    c.lemma_neutral();
    Scalar::zero().lemma_neutral();
    Scalar::one().lemma_neutral();
}

/// The neutral elements, stated of every scalar at once.
proof fn lemma_neutral_everywhere()
    ensures
        forall|s: Scalar| s.wf() ==> #[trigger] s.spec_mul(Scalar::zero()) == Scalar::zero(),
        forall|s: Scalar| s.wf() ==> #[trigger] Scalar::zero().spec_mul(s) == Scalar::zero(),
        forall|s: Scalar| s.wf() ==> #[trigger] s.spec_mul(Scalar::one()) == s,
        forall|s: Scalar| s.wf() ==> #[trigger] Scalar::one().spec_mul(s) == s,
        forall|s: Scalar| s.wf() ==> #[trigger] s.spec_div(Scalar::one()) == s,
{
    assert forall|s: Scalar| s.wf() implies #[trigger] s.spec_mul(Scalar::zero())
        == Scalar::zero() by {
        s.lemma_neutral();
    }
    assert forall|s: Scalar| s.wf() implies #[trigger] Scalar::zero().spec_mul(s)
        == Scalar::zero() by {
        s.lemma_neutral();
    }
    assert forall|s: Scalar| s.wf() implies #[trigger] s.spec_mul(Scalar::one()) == s by {
        s.lemma_neutral();
    }
    assert forall|s: Scalar| s.wf() implies #[trigger] Scalar::one().spec_mul(s) == s by {
        s.lemma_neutral();
    }
    assert forall|s: Scalar| s.wf() implies #[trigger] s.spec_div(Scalar::one()) == s by {
        s.lemma_neutral();
    }
}

/// The determinant of a translation is one, and its inverse is the translation back.
pub proof fn lemma_translation_inverse(a: Scalar, b: Scalar, c: Scalar)
    requires
        a.wf(),
        b.wf(),
        c.wf(),
    ensures
        new_translation_matrix(a, b, c).spec_determinant() == Scalar::one(),
        new_translation_matrix(a, b, c).spec_inverse() == new_translation_matrix(
            a.spec_neg(),
            b.spec_neg(),
            c.spec_neg(),
        ),
{
    let m = new_translation_matrix(a, b, c);
    let cof = m.spec_matrix_of_cofactors();
    assert(cof.contents[0] == [Scalar::one(), Scalar::zero(), Scalar::zero(), Scalar::zero()]) by {
        lemma_neutral_everywhere();
        reveal(Matrix3x3::spec_determinant);
    }
    assert(cof.contents[1] == [Scalar::zero(), Scalar::one(), Scalar::zero(), Scalar::zero()]) by {
        lemma_neutral_everywhere();
        reveal(Matrix3x3::spec_determinant);
    }
    assert(cof.contents[2] == [Scalar::zero(), Scalar::zero(), Scalar::one(), Scalar::zero()]) by {
        lemma_neutral_everywhere();
        reveal(Matrix3x3::spec_determinant);
    }
    assert(cof.contents[3] == [a.spec_neg(), b.spec_neg(), c.spec_neg(), Scalar::one()]) by {
        lemma_neutral_everywhere();
        reveal(Matrix3x3::spec_determinant);
    }
    assert(m.spec_cofactor(0, 0) == cof.contents[0][0] && m.spec_cofactor(0, 1)
        == cof.contents[0][1] && m.spec_cofactor(0, 2) == cof.contents[0][2] && m.spec_cofactor(
        0,
        3,
    ) == cof.contents[0][3]);
    assert(m.spec_cofactor(1, 0) == cof.contents[1][0] && m.spec_cofactor(1, 1)
        == cof.contents[1][1] && m.spec_cofactor(1, 2) == cof.contents[1][2] && m.spec_cofactor(
        1,
        3,
    ) == cof.contents[1][3]);
    assert(m.spec_cofactor(2, 0) == cof.contents[2][0] && m.spec_cofactor(2, 1)
        == cof.contents[2][1] && m.spec_cofactor(2, 2) == cof.contents[2][2] && m.spec_cofactor(
        2,
        3,
    ) == cof.contents[2][3]);
    assert(m.spec_cofactor(3, 0) == cof.contents[3][0] && m.spec_cofactor(3, 1)
        == cof.contents[3][1] && m.spec_cofactor(3, 2) == cof.contents[3][2] && m.spec_cofactor(
        3,
        3,
    ) == cof.contents[3][3]);
    let unit = SCALE * SCALE;
    assert(a@ * 0 == 0 && b@ * 0 == 0 && c@ * 0 == 0 && 0 * a.spec_neg()@ == 0 && 0
        * b.spec_neg()@ == 0 && 0 * c.spec_neg()@ == 0) by (nonlinear_arith);
    assert(unit == 1_000_000_000_000_000_000) by (nonlinear_arith)
        requires
            unit == SCALE * SCALE,
            SCALE == 1_000_000_000,
    ;
    assert(0 * 0 == 0 && 0 * SCALE == 0 && SCALE * 0 == 0);
    assert(m.spec_wide_determinant(0) == unit);
    assert(m.spec_wide_determinant(1) == unit);
    assert(m.spec_wide_determinant(2) == unit);
    assert(m.spec_wide_determinant(3) == unit);
    assert(m.spec_divisor(0) == unit && m.spec_divisor(1) == unit && m.spec_divisor(2) == unit
        && m.spec_divisor(3) == unit);
    assert(m.spec_determinant() == Scalar::one()) by {
        reveal(Matrix4x4::spec_determinant);
        lemma_round_div_multiple(SCALE as int, SCALE as int);
    }
    lemma_ratio_by_one(0);
    lemma_ratio_by_one(SCALE as int);
    lemma_ratio_by_one(a.spec_neg()@);
    lemma_ratio_by_one(b.spec_neg()@);
    lemma_ratio_by_one(c.spec_neg()@);
    let back = new_translation_matrix(a.spec_neg(), b.spec_neg(), c.spec_neg());
    assert(m.spec_inverse() == back) by {
        reveal(Matrix4x4::spec_inverse);
        let inverse = m.spec_inverse();
        assert(inverse.contents[0] == back.contents[0]);
        assert(inverse.contents[1] == back.contents[1]);
        assert(inverse.contents[2] == back.contents[2]);
        assert(inverse.contents[3] == back.contents[3]);
        assert(inverse.contents =~= back.contents);
    }
}

/// Moving a point and moving it back gives the point again, or else no point at all: where a
/// coordinate of the moved point leaves the range, nothing that is computed from it is a
/// number.
pub proof fn lemma_translation_round_trip_or_nothing(a: Scalar, b: Scalar, c: Scalar, p: PointT)
    requires
        p.is_point(),
        p.wf(),
        a.wf(),
        b.wf(),
        c.wf(),
    ensures
        ({
            let back = new_translation_matrix(a, b, c).spec_inverse().spec_mul_tuple(
                new_translation_matrix(a, b, c).spec_mul_tuple(p),
            );
            &&& p.x.spec_add(a).wf() && p.y.spec_add(b).wf() && p.z.spec_add(c).wf() ==> back == p
            &&& !(p.x.spec_add(a).wf() && p.y.spec_add(b).wf() && p.z.spec_add(c).wf())
                ==> !back.x.wf() && !back.y.wf() && !back.z.wf() && !back.w.wf()
        }),
{
    lemma_translation_inverse(a, b, c);
    lemma_translation_moves_points(a, b, c, p);
    if p.x.spec_add(a).wf() && p.y.spec_add(b).wf() && p.z.spec_add(c).wf() {
        lemma_translation_round_trip(a, b, c, p);
    } else {
        reveal(Matrix4x4::spec_mul_tuple);
    }
}

/// Moving a point and moving it back gives the point again, as long as the moved point is
/// a point of numbers.
pub proof fn lemma_translation_round_trip(a: Scalar, b: Scalar, c: Scalar, p: PointT)
    requires
        p.is_point(),
        p.wf(),
        a.wf(),
        b.wf(),
        c.wf(),
        p.x.spec_add(a).wf(),
        p.y.spec_add(b).wf(),
        p.z.spec_add(c).wf(),
    ensures
        new_translation_matrix(a, b, c).spec_determinant()@ != 0,
        new_translation_matrix(a, b, c).spec_inverse().spec_mul_tuple(
            new_translation_matrix(a, b, c).spec_mul_tuple(p),
        ) == p,
{
    lemma_translation_inverse(a, b, c);
    lemma_translation_moves_points(a, b, c, p);
    let moved = point(p.x.spec_add(a), p.y.spec_add(b), p.z.spec_add(c));
    lemma_translation_moves_points(a.spec_neg(), b.spec_neg(), c.spec_neg(), moved);
}

/// One translation after another is the translation by the sums.
pub proof fn lemma_translations_compose(
    a: Scalar,
    b: Scalar,
    c: Scalar,
    x: Scalar,
    y: Scalar,
    z: Scalar,
)
    requires
        a.wf(),
        b.wf(),
        c.wf(),
        x.wf(),
        y.wf(),
        z.wf(),
    ensures
        new_translation_matrix(a, b, c).spec_mul(&new_translation_matrix(x, y, z))
            == new_translation_matrix(x.spec_add(a), y.spec_add(b), z.spec_add(c)),
{
    lemma_neutral_everywhere();
    Scalar::zero().lemma_neutral();
    Scalar::one().lemma_neutral();
    x.lemma_neutral();
    y.lemma_neutral();
    z.lemma_neutral();
    a.lemma_neutral();
    b.lemma_neutral();
    c.lemma_neutral();
    reveal(Matrix4x4::spec_mul);
}

/// A translation times its inverse is the identity, exactly.
pub proof fn lemma_translation_times_inverse(a: Scalar, b: Scalar, c: Scalar)
    requires
        a.wf(),
        b.wf(),
        c.wf(),
    ensures
        new_translation_matrix(a, b, c).spec_mul(
            &new_translation_matrix(a, b, c).spec_inverse(),
        ) == crate::matrix::identity4x4(),
{
    lemma_translation_inverse(a, b, c);
    lemma_translations_compose(a, b, c, a.spec_neg(), b.spec_neg(), c.spec_neg());
}

/// Every translation by numbers has an inverse that undoes it.
pub proof fn lemma_translation_inverts(a: Scalar, b: Scalar, c: Scalar)
    requires
        a.wf(),
        b.wf(),
        c.wf(),
    ensures
        new_translation_matrix(a, b, c).spec_inverts(),
{
    lemma_translation_inverse(a, b, c);
    lemma_translation_times_inverse(a, b, c);
}

/// The inverse of a product of two translations is the product of the inverses in reverse
/// order, as long as the sums of the amounts are numbers.
pub proof fn lemma_inverse_of_translations(
    a: Scalar,
    b: Scalar,
    c: Scalar,
    x: Scalar,
    y: Scalar,
    z: Scalar,
)
    requires
        a.wf(),
        b.wf(),
        c.wf(),
        x.wf(),
        y.wf(),
        z.wf(),
        x.spec_add(a).wf(),
        y.spec_add(b).wf(),
        z.spec_add(c).wf(),
    ensures
        new_translation_matrix(a, b, c).spec_mul(&new_translation_matrix(x, y, z)).spec_inverse()
            == new_translation_matrix(x, y, z).spec_inverse().spec_mul(
            &new_translation_matrix(a, b, c).spec_inverse(),
        ),
{
    lemma_translations_compose(a, b, c, x, y, z);
    lemma_translation_inverse(x.spec_add(a), y.spec_add(b), z.spec_add(c));
    lemma_translation_inverse(a, b, c);
    lemma_translation_inverse(x, y, z);
    lemma_translations_compose(
        x.spec_neg(),
        y.spec_neg(),
        z.spec_neg(),
        a.spec_neg(),
        b.spec_neg(),
        c.spec_neg(),
    );
}

/// The diagonal `x`, `y`, `z`, one.
pub open spec fn spec_new_scaling_matrix(x: Scalar, y: Scalar, z: Scalar) -> Matrix4x4 {
    Matrix4x4 {
        contents: [
            [x, Scalar::zero(), Scalar::zero(), Scalar::zero()],
            [Scalar::zero(), y, Scalar::zero(), Scalar::zero()],
            [Scalar::zero(), Scalar::zero(), z, Scalar::zero()],
            [Scalar::zero(), Scalar::zero(), Scalar::zero(), Scalar::one()],
        ],
    }
}

/// The least magnitude, in raw units, of a component of a scaling of which it is proved that
/// its inverse undoes it: a thousandth.
pub const FINEST: i64 = 1_000_000;

/// The greatest magnitude, in raw units, of a component of a scaling of which it is proved
/// that its inverse undoes it: two thousand.
pub const COARSEST: i64 = 2_000_000_000_000;

/// A component of a scaling within the bounds.
pub open spec fn moderate(x: Scalar) -> bool {
    FINEST <= abs(x@) <= COARSEST
}

/// The product of two moderate components is a number, and not zero.
pub proof fn lemma_moderate_product(x: Scalar, y: Scalar)
    requires
        moderate(x),
        moderate(y),
    ensures
        x.spec_mul(y).wf(),
        x.spec_mul(y)@ == round_div(x@ * y@, SCALE as int),
        999 <= abs(x.spec_mul(y)@) <= 4_000_000_000_000_001,
{
    lemma_round_div_bounds(x@ * y@, SCALE as int);
    lemma_product_sign(x@, y@);
    assert(1_000_000_000_000 <= abs(x@) * abs(y@) <= 4_000_000_000_000_000_000_000_000)
        by (nonlinear_arith)
        requires
            1_000_000 <= abs(x@) <= 2_000_000_000_000,
            1_000_000 <= abs(y@) <= 2_000_000_000_000,
    ;
}

/// The product of all three moderate components is a number, and not zero.
pub proof fn lemma_moderate_volume(x: Scalar, y: Scalar, z: Scalar)
    requires
        moderate(x),
        moderate(y),
        moderate(z),
    ensures
        x.spec_mul(y.spec_mul(z)).wf(),
        x.spec_mul(y.spec_mul(z))@ == round_div(x@ * y.spec_mul(z)@, SCALE as int),
        1 <= abs(x.spec_mul(y.spec_mul(z))@) <= 8_000_000_000_000_002_001,
        999_000_000 <= abs(x@ * y.spec_mul(z)@) <= 8_000_000_000_000_002_000_000_000_000,
{
    lemma_moderate_product(y, z);
    let p = y.spec_mul(z)@;
    lemma_round_div_bounds(x@ * p, SCALE as int);
    lemma_product_sign(x@, p);
    assert(999_000_000 <= abs(x@) * abs(p) <= 8_000_000_000_000_002_000_000_000_000)
        by (nonlinear_arith)
        requires
            1_000_000 <= abs(x@) <= 2_000_000_000_000,
            999 <= abs(p) <= 4_000_000_000_000_001,
    ;
}

/// The inverse of a scaling within the bounds is the diagonal of the reciprocals, each
/// rounded once: in each quotient the cofactor cancels exactly.
pub proof fn lemma_scaling_inverse(x: Scalar, y: Scalar, z: Scalar)
    requires
        moderate(x),
        moderate(y),
        moderate(z),
    ensures
        new_scaling_matrix(x, y, z).spec_determinant() == x.spec_mul(y.spec_mul(z)),
        new_scaling_matrix(x, y, z).spec_inverse() == spec_diagonal(
            Scalar { raw: round_div(SCALE * SCALE, x@) as i64 },
            Scalar { raw: round_div(SCALE * SCALE, y@) as i64 },
            Scalar { raw: round_div(SCALE * SCALE, z@) as i64 },
            Scalar::one(),
        ),
        abs(round_div(SCALE * SCALE, x@)) <= 1_000_000_000_001,
        abs(round_div(SCALE * SCALE, y@)) <= 1_000_000_000_001,
        abs(round_div(SCALE * SCALE, z@)) <= 1_000_000_000_001,
{
    let m = new_scaling_matrix(x, y, z);
    let cof = m.spec_matrix_of_cofactors();
    let yz = y.spec_mul(z);
    let xz = x.spec_mul(z);
    let xy = x.spec_mul(y);
    let xyz = x.spec_mul(yz);
    lemma_moderate_product(y, z);
    lemma_moderate_product(x, z);
    lemma_moderate_product(x, y);
    lemma_moderate_volume(x, y, z);
    assert(cof.contents[0] == [yz, Scalar::zero(), Scalar::zero(), Scalar::zero()]) by {
        lemma_neutral_everywhere();
        reveal(Matrix3x3::spec_determinant);
        x.lemma_neutral();
        y.lemma_neutral();
        z.lemma_neutral();
        yz.lemma_neutral();
        xz.lemma_neutral();
        xy.lemma_neutral();
        xyz.lemma_neutral();
        Scalar::zero().lemma_neutral();
    }
    assert(cof.contents[1] == [Scalar::zero(), xz, Scalar::zero(), Scalar::zero()]) by {
        lemma_neutral_everywhere();
        reveal(Matrix3x3::spec_determinant);
        x.lemma_neutral();
        y.lemma_neutral();
        z.lemma_neutral();
        yz.lemma_neutral();
        xz.lemma_neutral();
        xy.lemma_neutral();
        xyz.lemma_neutral();
        Scalar::zero().lemma_neutral();
    }
    assert(cof.contents[2] == [Scalar::zero(), Scalar::zero(), xy, Scalar::zero()]) by {
        lemma_neutral_everywhere();
        reveal(Matrix3x3::spec_determinant);
        x.lemma_neutral();
        y.lemma_neutral();
        z.lemma_neutral();
        yz.lemma_neutral();
        xz.lemma_neutral();
        xy.lemma_neutral();
        xyz.lemma_neutral();
        Scalar::zero().lemma_neutral();
    }
    assert(cof.contents[3] == [Scalar::zero(), Scalar::zero(), Scalar::zero(), xyz]) by {
        lemma_neutral_everywhere();
        reveal(Matrix3x3::spec_determinant);
        x.lemma_neutral();
        y.lemma_neutral();
        z.lemma_neutral();
        yz.lemma_neutral();
        xz.lemma_neutral();
        xy.lemma_neutral();
        xyz.lemma_neutral();
        Scalar::zero().lemma_neutral();
    }
    assert(m.spec_cofactor(0, 0) == cof.contents[0][0] && m.spec_cofactor(0, 1)
        == cof.contents[0][1] && m.spec_cofactor(0, 2) == cof.contents[0][2] && m.spec_cofactor(
        0,
        3,
    ) == cof.contents[0][3]);
    assert(m.spec_cofactor(1, 0) == cof.contents[1][0] && m.spec_cofactor(1, 1)
        == cof.contents[1][1] && m.spec_cofactor(1, 2) == cof.contents[1][2] && m.spec_cofactor(
        1,
        3,
    ) == cof.contents[1][3]);
    assert(m.spec_cofactor(2, 0) == cof.contents[2][0] && m.spec_cofactor(2, 1)
        == cof.contents[2][1] && m.spec_cofactor(2, 2) == cof.contents[2][2] && m.spec_cofactor(
        2,
        3,
    ) == cof.contents[2][3]);
    assert(m.spec_cofactor(3, 0) == cof.contents[3][0] && m.spec_cofactor(3, 1)
        == cof.contents[3][1] && m.spec_cofactor(3, 2) == cof.contents[3][2] && m.spec_cofactor(
        3,
        3,
    ) == cof.contents[3][3]);
    assert(0 * 0 == 0);
    lemma_product_sign(y@, xz@);
    lemma_product_sign(z@, xy@);
    lemma_product_sign(SCALE as int, xyz@);
    lemma_product_sign(x@, yz@);
    assert(abs(y@) * abs(xz@) <= 8_000_000_000_000_002_000_000_000_000 && abs(z@) * abs(xy@)
        <= 8_000_000_000_000_002_000_000_000_000 && abs(SCALE as int) * abs(xyz@)
        <= 8_000_000_000_000_002_001_000_000_000) by (nonlinear_arith)
        requires
            abs(y@) <= 2_000_000_000_000,
            abs(z@) <= 2_000_000_000_000,
            0 <= abs(xz@) <= 4_000_000_000_000_001,
            0 <= abs(xy@) <= 4_000_000_000_000_001,
            0 <= abs(xyz@) <= 8_000_000_000_000_002_001,
            abs(SCALE as int) == 1_000_000_000,
    ;
    assert(m.spec_divisor(0) == x@ * yz@);
    assert(m.spec_divisor(1) == y@ * xz@);
    assert(m.spec_divisor(2) == z@ * xy@);
    assert(m.spec_divisor(3) == SCALE * xyz@);
    assert(m.spec_determinant() == xyz) by {
        reveal(Matrix4x4::spec_determinant);
    }
    // In each quotient the cofactor cancels.
    let unit = SCALE * SCALE;
    lemma_round_div_cancels(unit, x@, yz@);
    lemma_round_div_cancels(unit, y@, xz@);
    lemma_round_div_cancels(unit, z@, xy@);
    lemma_round_div_cancels(unit, SCALE as int, xyz@);
    assert(yz@ * SCALE * SCALE == yz@ * unit && yz@ * x@ == x@ * yz@ && xz@ * SCALE * SCALE == xz@
        * unit && xz@ * y@ == y@ * xz@ && xy@ * SCALE * SCALE == xy@ * unit && xy@ * z@ == z@
        * xy@ && xyz@ * SCALE * SCALE == xyz@ * unit && xyz@ * SCALE == SCALE * xyz@)
        by (nonlinear_arith)
        requires
            unit == SCALE * SCALE,
    ;
    lemma_round_div_multiple(SCALE as int, SCALE as int);
    lemma_reciprocal(x@);
    lemma_reciprocal(y@);
    lemma_reciprocal(z@);
    lemma_zero_over(x@ * yz@);
    lemma_zero_over(y@ * xz@);
    lemma_zero_over(z@ * xy@);
    lemma_zero_over(SCALE * xyz@);
    let diagonal = spec_diagonal(
        Scalar { raw: round_div(unit, x@) as i64 },
        Scalar { raw: round_div(unit, y@) as i64 },
        Scalar { raw: round_div(unit, z@) as i64 },
        Scalar::one(),
    );
    assert(m.spec_inverse() == diagonal) by {
        reveal(Matrix4x4::spec_inverse);
        let inverse = m.spec_inverse();
        assert(inverse.contents[0] == diagonal.contents[0]);
        assert(inverse.contents[1] == diagonal.contents[1]);
        assert(inverse.contents[2] == diagonal.contents[2]);
        assert(inverse.contents[3] == diagonal.contents[3]);
        assert(inverse.contents =~= diagonal.contents);
    }
}

/// Zero over a determinant that is not zero is zero.
pub proof fn lemma_zero_over(wide: int)
    requires
        wide != 0,
    ensures
        fx_ratio(0, wide) == 0,
{
    assert(0 * SCALE * SCALE == 0);
    lemma_round_div_near(0, wide);
    let q = round_div(0, wide);
    assert(q == 0) by (nonlinear_arith)
        requires
            abs(2 * (wide * q) - 2 * 0) <= abs(wide),
            wide != 0,
    {
        if q >= 1 {
            assert(abs(wide * q) >= abs(wide));
        }
        if q <= -1 {
            assert(abs(wide * q) >= abs(wide));
        }
    }
}

/// The reciprocal of a moderate number, rounded once, times that number is one up to the
/// number itself over two, in squares of raw units; and it is a small number.
pub proof fn lemma_reciprocal(k: int)
    requires
        FINEST <= abs(k) <= COARSEST,
    ensures
        abs(round_div(SCALE * SCALE, k)) <= 1_000_000_000_001,
        abs(2 * (k * round_div(SCALE * SCALE, k)) - 2 * (SCALE * SCALE)) <= abs(k),
{
    let e = round_div(SCALE * SCALE, k);
    lemma_round_div_near(SCALE * SCALE, k);
    lemma_product_sign(k, e);
    assert(abs(e) <= 1_000_000_000_001) by (nonlinear_arith)
        requires
            2 * (abs(k) * abs(e)) <= 2 * 1_000_000_000_000_000_000 + abs(k),
            1_000_000 <= abs(k),
            0 <= abs(e),
    {
        if abs(e) >= 1_000_000_000_002 {
            assert(abs(k) * abs(e) >= abs(k) * 1_000_000_000_002);
        }
    }
}

/// Every scaling whose components have magnitudes between a thousandth and two thousand has
/// an inverse that undoes it: the scaling times its inverse is the identity up to the
/// tolerance.
pub proof fn lemma_scaling_inverts(x: Scalar, y: Scalar, z: Scalar)
    requires
        moderate(x),
        moderate(y),
        moderate(z),
    ensures
        new_scaling_matrix(x, y, z).spec_inverts(),
{
    let m = new_scaling_matrix(x, y, z);
    lemma_scaling_inverse(x, y, z);
    lemma_moderate_volume(x, y, z);
    lemma_reciprocal(x@);
    lemma_reciprocal(y@);
    lemma_reciprocal(z@);
    let unit = SCALE * SCALE;
    let ex = Scalar { raw: round_div(unit, x@) as i64 };
    let ey = Scalar { raw: round_div(unit, y@) as i64 };
    let ez = Scalar { raw: round_div(unit, z@) as i64 };
    let inverse = spec_diagonal(ex, ey, ez, Scalar::one());
    assert(inverse.wf());
    lemma_undone(x@, ex@);
    lemma_undone(y@, ey@);
    lemma_undone(z@, ez@);
    let product = m.spec_mul(&inverse);
    let identity = crate::matrix::identity4x4();
    assert(product.contents[0] == [x.spec_mul(ex), Scalar::zero(), Scalar::zero(), Scalar::zero()]) by {
        reveal(Matrix4x4::spec_mul);
        lemma_neutral_everywhere();
        x.lemma_neutral();
        y.lemma_neutral();
        z.lemma_neutral();
        ex.lemma_neutral();
        ey.lemma_neutral();
        ez.lemma_neutral();
        x.spec_mul(ex).lemma_neutral();
        y.spec_mul(ey).lemma_neutral();
        z.spec_mul(ez).lemma_neutral();
        Scalar::zero().lemma_neutral();
        Scalar::one().lemma_neutral();
    }
    assert(product.contents[1] == [Scalar::zero(), y.spec_mul(ey), Scalar::zero(), Scalar::zero()]) by {
        reveal(Matrix4x4::spec_mul);
        lemma_neutral_everywhere();
        x.lemma_neutral();
        y.lemma_neutral();
        z.lemma_neutral();
        ex.lemma_neutral();
        ey.lemma_neutral();
        ez.lemma_neutral();
        x.spec_mul(ex).lemma_neutral();
        y.spec_mul(ey).lemma_neutral();
        z.spec_mul(ez).lemma_neutral();
        Scalar::zero().lemma_neutral();
        Scalar::one().lemma_neutral();
    }
    assert(product.contents[2] == [Scalar::zero(), Scalar::zero(), z.spec_mul(ez), Scalar::zero()]) by {
        reveal(Matrix4x4::spec_mul);
        lemma_neutral_everywhere();
        x.lemma_neutral();
        y.lemma_neutral();
        z.lemma_neutral();
        ex.lemma_neutral();
        ey.lemma_neutral();
        ez.lemma_neutral();
        x.spec_mul(ex).lemma_neutral();
        y.spec_mul(ey).lemma_neutral();
        z.spec_mul(ez).lemma_neutral();
        Scalar::zero().lemma_neutral();
        Scalar::one().lemma_neutral();
    }
    assert(product.contents[3] == [Scalar::zero(), Scalar::zero(), Scalar::zero(), Scalar::one()]) by {
        reveal(Matrix4x4::spec_mul);
        lemma_neutral_everywhere();
        x.lemma_neutral();
        y.lemma_neutral();
        z.lemma_neutral();
        ex.lemma_neutral();
        ey.lemma_neutral();
        ez.lemma_neutral();
        x.spec_mul(ex).lemma_neutral();
        y.spec_mul(ey).lemma_neutral();
        z.spec_mul(ez).lemma_neutral();
        Scalar::zero().lemma_neutral();
        Scalar::one().lemma_neutral();
    }
    assert(product.spec_approx_eq(&identity));
}

/// A number times its rounded reciprocal is one up to the tolerance.
pub proof fn lemma_undone(k: int, e: int)
    requires
        FINEST <= abs(k) <= COARSEST,
        e == round_div(SCALE * SCALE, k),
    ensures
        fx_mul(k, e) != VOID,
        abs(fx_mul(k, e) - SCALE) <= 1_001,
{
    lemma_reciprocal(k);
    lemma_round_div_bounds(k * e, SCALE as int);
}

/// A component of a scaling between a tenth and forty, the bounds within which the inverse of
/// a product of two scalings is proved to be the product of their inverses.
pub open spec fn plain(x: Scalar) -> bool {
    100_000_000 <= abs(x@) <= 40_000_000_000
}

/// The reciprocal of a product against the product of the reciprocals, all rounded as the
/// scalars round: they differ by less than the tolerance.
pub proof fn lemma_reciprocal_of_product(x1: int, x2: int)
    requires
        100_000_000 <= abs(x1) <= 40_000_000_000,
        100_000_000 <= abs(x2) <= 40_000_000_000,
    ensures
        ({
            let p = round_div(x1 * x2, SCALE as int);
            let q = round_div(SCALE * SCALE, p);
            let e1 = round_div(SCALE * SCALE, x1);
            let e2 = round_div(SCALE * SCALE, x2);
            let r = round_div(e2 * e1, SCALE as int);
            &&& 19_999_998 <= 2 * abs(p) <= 3_200_000_000_002
            &&& abs(e1) <= 10_000_000_001
            &&& abs(e2) <= 10_000_000_001
            &&& abs(r) <= 100_000_000_021
            &&& abs(q - r) <= 20_000
        }),
{
    let s = SCALE as int;
    let t = s * s;
    let p = round_div(x1 * x2, s);
    let q = round_div(t, p);
    let e1 = round_div(t, x1);
    let e2 = round_div(t, x2);
    let r = round_div(e2 * e1, s);
    assert(t == 1_000_000_000_000_000_000) by (nonlinear_arith)
        requires
            t == s * s,
            s == 1_000_000_000,
    ;
    lemma_product_sign(x1, x2);
    assert(10_000_000_000_000_000 <= abs(x1) * abs(x2) <= 1_600_000_000_000_000_000_000)
        by (nonlinear_arith)
        requires
            100_000_000 <= abs(x1) <= 40_000_000_000,
            100_000_000 <= abs(x2) <= 40_000_000_000,
    ;
    lemma_round_div_bounds(x1 * x2, s);
    lemma_round_div_near(t, x1);
    lemma_round_div_near(t, x2);
    assert(p != 0);
    lemma_round_div_near(t, p);
    lemma_product_sign(x1, e1);
    lemma_product_sign(x2, e2);
    lemma_quotient_bound(x1, e1);
    lemma_quotient_bound(x2, e2);
    lemma_product_sign(e2, e1);
    assert(abs(e2) * abs(e1) <= 10_000_000_001 * 10_000_000_001) by (nonlinear_arith)
        requires
            0 <= abs(e1) <= 10_000_000_001,
            0 <= abs(e2) <= 10_000_000_001,
    ;
    lemma_round_div_bounds(e2 * e1, s);
    lemma_gap_identity(x1, x2, e1, e2, p, q, r, s);
    lemma_gap_small(
        x1 * e1 - t,
        x2 * e2 - t,
        s * p - x1 * x2,
        s * r - e2 * e1,
        p * q - t,
        p,
        q,
        r,
        s,
    );
}

/// How far the reciprocal of a product is from the product of the reciprocals, in terms of
/// the five roundings on the way.
proof fn lemma_gap_identity(x1: int, x2: int, e1: int, e2: int, p: int, q: int, r: int, s: int)
    ensures
        ({
            let t = s * s;
            let a1 = x1 * e1 - t;
            let a2 = x2 * e2 - t;
            let b = s * p - x1 * x2;
            let c = s * r - e2 * e1;
            let d = p * q - t;
            t * (p * (r - q)) == t * a1 + t * a2 + a1 * a2 + s * (p * c) + s * (b * r) - b * c - t
                * d
        }),
{
    let t = s * s;
    let a1 = x1 * e1 - t;
    let a2 = x2 * e2 - t;
    let b = s * p - x1 * x2;
    let c = s * r - e2 * e1;
    let d = p * q - t;
    let xx = x1 * x2;
    let ee = e2 * e1;
    assert(xx * ee == (x1 * e1) * (x2 * e2)) by (nonlinear_arith)
        requires
            xx == x1 * x2,
            ee == e2 * e1,
    ;
    assert((x1 * e1) * (x2 * e2) == t * t + t * a1 + t * a2 + a1 * a2) by (nonlinear_arith)
        requires
            a1 == x1 * e1 - t,
            a2 == x2 * e2 - t,
    ;
    let sp = s * p;
    let sr = s * r;
    assert(xx * ee == sp * sr - sp * c - b * sr + b * c) by (nonlinear_arith)
        requires
            xx == sp - b,
            ee == sr - c,
    ;
    assert(sp * sr == t * (p * r) && sp * c == s * (p * c) && b * sr == s * (b * r))
        by (nonlinear_arith)
        requires
            sp == s * p,
            sr == s * r,
            t == s * s,
    ;
    assert(t * (p * q) == t * t + t * d) by (nonlinear_arith)
        requires
            d == p * q - t,
    ;
    assert(t * (p * (r - q)) == t * (p * r) - t * (p * q)) by (nonlinear_arith);
}

/// The five roundings are small against the product, and so is the gap.
proof fn lemma_gap_small(
    a1: int,
    a2: int,
    b: int,
    c: int,
    d: int,
    p: int,
    q: int,
    r: int,
    s: int,
)
    requires
        s == 1_000_000_000,
        abs(2 * a1) <= 40_000_000_000,
        abs(2 * a2) <= 40_000_000_000,
        abs(2 * b) <= s,
        abs(2 * c) <= s,
        abs(2 * d) <= abs(p),
        abs(r) <= 100_000_000_021,
        19_999_998 <= 2 * abs(p),
        (s * s) * (p * (r - q)) == (s * s) * a1 + (s * s) * a2 + a1 * a2 + s * (p * c) + s * (b
            * r) - b * c - (s * s) * d,
    ensures
        abs(q - r) <= 20_000,
{
    let t = s * s;
    let g1 = t * a1;
    let g2 = t * a2;
    let g3 = a1 * a2;
    let g4 = s * (p * c);
    let g5 = s * (b * r);
    let g6 = b * c;
    let g7 = t * d;
    let gap = t * (p * (r - q));
    assert(t == 1_000_000_000_000_000_000) by (nonlinear_arith)
        requires
            t == s * s,
            s == 1_000_000_000,
    ;
    assert(abs(g1) <= t * 20_000_000_000 && abs(g2) <= t * 20_000_000_000) by (nonlinear_arith)
        requires
            g1 == t * a1,
            g2 == t * a2,
            abs(2 * a1) <= 40_000_000_000,
            abs(2 * a2) <= 40_000_000_000,
            t > 0,
    ;
    assert(abs(g3) <= 400_000_000_000_000_000_000) by (nonlinear_arith)
        requires
            g3 == a1 * a2,
            abs(a1) <= 20_000_000_000,
            abs(a2) <= 20_000_000_000,
    {
        assert(abs(a1 * a2) == abs(a1) * abs(a2));
        assert(abs(a1) * abs(a2) <= 20_000_000_000 * abs(a2));
    }
    assert(abs(g4) <= t * abs(p)) by (nonlinear_arith)
        requires
            g4 == s * (p * c),
            abs(2 * c) <= s,
            t == s * s,
            s > 0,
    {
        assert(abs(p * c) == abs(p) * abs(c));
        assert(2 * (abs(p) * abs(c)) <= abs(p) * s);
        assert(abs(s * (p * c)) == s * abs(p * c));
        assert(2 * (s * abs(p * c)) <= s * (abs(p) * s));
        assert(s * (abs(p) * s) == t * abs(p));
    }
    assert(abs(g5) <= t * 100_000_000_021) by (nonlinear_arith)
        requires
            g5 == s * (b * r),
            abs(2 * b) <= s,
            abs(r) <= 100_000_000_021,
            t == s * s,
            s > 0,
    {
        assert(abs(b * r) == abs(b) * abs(r));
        assert(2 * (abs(b) * abs(r)) <= s * abs(r));
        assert(s * abs(r) <= s * 100_000_000_021);
        assert(abs(s * (b * r)) == s * abs(b * r));
        assert(2 * (s * abs(b * r)) <= s * (s * 100_000_000_021));
        assert(s * (s * 100_000_000_021) == t * 100_000_000_021);
    }
    assert(abs(g6) <= t) by (nonlinear_arith)
        requires
            g6 == b * c,
            abs(2 * b) <= s,
            abs(2 * c) <= s,
            t == s * s,
            s > 0,
    {
        assert(abs(b * c) == abs(b) * abs(c));
        assert(4 * (abs(b) * abs(c)) <= s * s);
    }
    assert(abs(g7) <= t * abs(p)) by (nonlinear_arith)
        requires
            g7 == t * d,
            abs(2 * d) <= abs(p),
            t > 0,
    {
        assert(abs(t * d) == t * abs(d));
    }
    assert(gap == g1 + g2 + g3 + g4 + g5 - g6 - g7);
    let bound = t * 20_000_000_000 + t * 20_000_000_000 + 400_000_000_000_000_000_000 + t * abs(p)
        + t * 100_000_000_021 + t + t * abs(p);
    assert(abs(gap) <= bound);
    assert(bound <= t * (2 * abs(p) + 140_000_000_500)) by (nonlinear_arith)
        requires
            bound == t * 20_000_000_000 + t * 20_000_000_000 + 400_000_000_000_000_000_000 + t
                * abs(p) + t * 100_000_000_021 + t + t * abs(p),
            t == 1_000_000_000_000_000_000,
    ;
    assert(abs(gap) == t * (abs(p) * abs(r - q))) by (nonlinear_arith)
        requires
            gap == t * (p * (r - q)),
            t > 0,
    {
        assert(abs(p * (r - q)) == abs(p) * abs(r - q));
    }
    assert(abs(r - q) <= 20_000) by (nonlinear_arith)
        requires
            t * (abs(p) * abs(r - q)) <= t * (2 * abs(p) + 140_000_000_500),
            t > 0,
            2 * abs(p) >= 19_999_998,
    {
        assert(abs(p) * abs(r - q) <= 2 * abs(p) + 140_000_000_500);
        if abs(r - q) > 20_000 {
            assert(abs(p) * abs(r - q) >= abs(p) * 20_001);
        }
    }
}

/// The rounded reciprocal of a number of at least a tenth is at most ten.
proof fn lemma_quotient_bound(x: int, e: int)
    by (nonlinear_arith)
    requires
        100_000_000 <= abs(x),
        abs(2 * (x * e) - 2 * 1_000_000_000_000_000_000) <= abs(x),
        abs(x * e) == abs(x) * abs(e),
    ensures
        abs(e) <= 10_000_000_001,
{
    if abs(e) >= 10_000_000_002 {
        assert(abs(x) * abs(e) >= abs(x) * 10_000_000_002);
    }
}

/// One scaling after another is the scaling by the products.
pub proof fn lemma_scalings_compose(
    x1: Scalar,
    y1: Scalar,
    z1: Scalar,
    x2: Scalar,
    y2: Scalar,
    z2: Scalar,
)
    requires
        x1.wf() && y1.wf() && z1.wf() && x2.wf() && y2.wf() && z2.wf(),
        x1.spec_mul(x2).wf() && y1.spec_mul(y2).wf() && z1.spec_mul(z2).wf(),
    ensures
        new_scaling_matrix(x1, y1, z1).spec_mul(&new_scaling_matrix(x2, y2, z2))
            == new_scaling_matrix(x1.spec_mul(x2), y1.spec_mul(y2), z1.spec_mul(z2)),
{
    let m = new_scaling_matrix(x1, y1, z1);
    let n = new_scaling_matrix(x2, y2, z2);
    let product = m.spec_mul(&n);
    let scaled = new_scaling_matrix(x1.spec_mul(x2), y1.spec_mul(y2), z1.spec_mul(z2));
    reveal(Matrix4x4::spec_mul);
    lemma_neutral_everywhere();
    x1.lemma_neutral();
    y1.lemma_neutral();
    z1.lemma_neutral();
    x2.lemma_neutral();
    y2.lemma_neutral();
    z2.lemma_neutral();
    x1.spec_mul(x2).lemma_neutral();
    y1.spec_mul(y2).lemma_neutral();
    z1.spec_mul(z2).lemma_neutral();
    Scalar::zero().lemma_neutral();
    Scalar::one().lemma_neutral();
    assert(product.contents[0] == scaled.contents[0]);
    assert(product.contents[1] == scaled.contents[1]);
    assert(product.contents[2] == scaled.contents[2]);
    assert(product.contents[3] == scaled.contents[3]);
    assert(product.contents =~= scaled.contents);
}

/// The inverse of a product of two scalings is the product of their inverses in reverse
/// order, up to the tolerance, for scalings whose components have magnitudes between a tenth
/// and forty.
pub proof fn lemma_inverse_of_scalings(
    x1: Scalar,
    y1: Scalar,
    z1: Scalar,
    x2: Scalar,
    y2: Scalar,
    z2: Scalar,
)
    requires
        plain(x1) && plain(y1) && plain(z1) && plain(x2) && plain(y2) && plain(z2),
    ensures
        ({
            let m = new_scaling_matrix(x1, y1, z1);
            let n = new_scaling_matrix(x2, y2, z2);
            &&& m.spec_inverts()
            &&& n.spec_inverts()
            &&& m.spec_mul(&n).spec_inverts()
            &&& m.spec_mul(&n).spec_inverse().spec_approx_eq(
                &n.spec_inverse().spec_mul(&m.spec_inverse()),
            )
        }),
{
    let m = new_scaling_matrix(x1, y1, z1);
    let n = new_scaling_matrix(x2, y2, z2);
    lemma_reciprocal_of_product(x1@, x2@);
    lemma_reciprocal_of_product(y1@, y2@);
    lemma_reciprocal_of_product(z1@, z2@);
    let px = x1.spec_mul(x2);
    let py = y1.spec_mul(y2);
    let pz = z1.spec_mul(z2);
    assert(px@ == round_div(x1@ * x2@, SCALE as int) && py@ == round_div(y1@ * y2@, SCALE as int)
        && pz@ == round_div(z1@ * z2@, SCALE as int));
    lemma_scalings_compose(x1, y1, z1, x2, y2, z2);
    lemma_scaling_inverts(x1, y1, z1);
    lemma_scaling_inverts(x2, y2, z2);
    lemma_scaling_inverts(px, py, pz);
    lemma_scaling_inverse(x1, y1, z1);
    lemma_scaling_inverse(x2, y2, z2);
    lemma_scaling_inverse(px, py, pz);
    let unit = SCALE * SCALE;
    let e1x = Scalar { raw: round_div(unit, x1@) as i64 };
    let e1y = Scalar { raw: round_div(unit, y1@) as i64 };
    let e1z = Scalar { raw: round_div(unit, z1@) as i64 };
    let e2x = Scalar { raw: round_div(unit, x2@) as i64 };
    let e2y = Scalar { raw: round_div(unit, y2@) as i64 };
    let e2z = Scalar { raw: round_div(unit, z2@) as i64 };
    let first = spec_diagonal(e1x, e1y, e1z, Scalar::one());
    let second = spec_diagonal(e2x, e2y, e2z, Scalar::one());
    let reversed = second.spec_mul(&first);
    let rx = e2x.spec_mul(e1x);
    let ry = e2y.spec_mul(e1y);
    let rz = e2z.spec_mul(e1z);
    assert(reversed.contents[0] == [rx, Scalar::zero(), Scalar::zero(), Scalar::zero()]) by {
        reveal(Matrix4x4::spec_mul);
        lemma_neutral_everywhere();
        e1x.lemma_neutral();
        e1y.lemma_neutral();
        e1z.lemma_neutral();
        e2x.lemma_neutral();
        e2y.lemma_neutral();
        e2z.lemma_neutral();
        rx.lemma_neutral();
        ry.lemma_neutral();
        rz.lemma_neutral();
        Scalar::zero().lemma_neutral();
        Scalar::one().lemma_neutral();
    }
    assert(reversed.contents[1] == [Scalar::zero(), ry, Scalar::zero(), Scalar::zero()]) by {
        reveal(Matrix4x4::spec_mul);
        lemma_neutral_everywhere();
        e1x.lemma_neutral();
        e1y.lemma_neutral();
        e1z.lemma_neutral();
        e2x.lemma_neutral();
        e2y.lemma_neutral();
        e2z.lemma_neutral();
        rx.lemma_neutral();
        ry.lemma_neutral();
        rz.lemma_neutral();
        Scalar::zero().lemma_neutral();
        Scalar::one().lemma_neutral();
    }
    assert(reversed.contents[2] == [Scalar::zero(), Scalar::zero(), rz, Scalar::zero()]) by {
        reveal(Matrix4x4::spec_mul);
        lemma_neutral_everywhere();
        e1x.lemma_neutral();
        e1y.lemma_neutral();
        e1z.lemma_neutral();
        e2x.lemma_neutral();
        e2y.lemma_neutral();
        e2z.lemma_neutral();
        rx.lemma_neutral();
        ry.lemma_neutral();
        rz.lemma_neutral();
        Scalar::zero().lemma_neutral();
        Scalar::one().lemma_neutral();
    }
    assert(reversed.contents[3] == [Scalar::zero(), Scalar::zero(), Scalar::zero(), Scalar::one()]) by {
        reveal(Matrix4x4::spec_mul);
        lemma_neutral_everywhere();
        e1x.lemma_neutral();
        e1y.lemma_neutral();
        e1z.lemma_neutral();
        e2x.lemma_neutral();
        e2y.lemma_neutral();
        e2z.lemma_neutral();
        rx.lemma_neutral();
        ry.lemma_neutral();
        rz.lemma_neutral();
        Scalar::zero().lemma_neutral();
        Scalar::one().lemma_neutral();
    }
    let whole = m.spec_mul(&n).spec_inverse();
    assert(whole.spec_approx_eq(&reversed));
}

/// The matrix with `a`, `b`, `c`, `d` down its diagonal and zero elsewhere.
pub open spec fn spec_diagonal(a: Scalar, b: Scalar, c: Scalar, d: Scalar) -> Matrix4x4 {
    Matrix4x4 {
        contents: [
            [a, Scalar::zero(), Scalar::zero(), Scalar::zero()],
            [Scalar::zero(), b, Scalar::zero(), Scalar::zero()],
            [Scalar::zero(), Scalar::zero(), c, Scalar::zero()],
            [Scalar::zero(), Scalar::zero(), Scalar::zero(), d],
        ],
    }
}

/// Stretches by `x`, `y` and `z` along the three axes.
#[verifier::when_used_as_spec(spec_new_scaling_matrix)]
pub fn new_scaling_matrix(x: Scalar, y: Scalar, z: Scalar) -> (m: Matrix4x4)
    ensures
        m == spec_new_scaling_matrix(x, y, z),
{
    let o = Scalar::zero();
    let i = Scalar::one();
    Matrix4x4 { contents: [[x, o, o, o], [o, y, o, o], [o, o, z, o], [o, o, o, i]] }
}

/// Cosine and sine of the angle in the rows and columns of y and z.
pub open spec fn spec_new_rotation_x_matrix(deg_radians: Scalar) -> Matrix4x4 {
    let c = deg_radians.spec_cos();
    let s = deg_radians.spec_sin();
    Matrix4x4 {
        contents: [
            [Scalar::one(), Scalar::zero(), Scalar::zero(), Scalar::zero()],
            [Scalar::zero(), c, s.spec_neg(), Scalar::zero()],
            [Scalar::zero(), s, c, Scalar::zero()],
            [Scalar::zero(), Scalar::zero(), Scalar::zero(), Scalar::one()],
        ],
    }
}

/// Turns about the x axis by an angle in radians.
#[verifier::when_used_as_spec(spec_new_rotation_x_matrix)]
pub fn new_rotation_x_matrix(deg_radians: Scalar) -> (m: Matrix4x4)
    ensures
        m == spec_new_rotation_x_matrix(deg_radians),
{
    let o = Scalar::zero();
    let i = Scalar::one();
    let c = deg_radians.cos();
    let s = deg_radians.sin();
    Matrix4x4 { contents: [[i, o, o, o], [o, c, s.neg(), o], [o, s, c, o], [o, o, o, i]] }
}

/// A quarter turn about the z axis takes x to y and y to minus x, exactly.
pub proof fn lemma_quarter_turn_about_z(p: Tuple)
    requires
        p.wf(),
    ensures
        new_rotation_z_matrix(Scalar { raw: QUARTER_TURN }).spec_mul_tuple(p) == (Tuple {
            x: p.y.spec_neg(),
            y: p.x,
            z: p.z,
            w: p.w,
        }),
{
    reveal(Matrix4x4::spec_mul_tuple);
    lemma_quarter_turns();
    lemma_neutral_everywhere();
    lemma_mul_whole(p.y@, -1);
    p.x.lemma_neutral();
    p.y.lemma_neutral();
    p.z.lemma_neutral();
    p.w.lemma_neutral();
    p.y.spec_neg().lemma_neutral();
    Scalar::zero().lemma_neutral();
}

/// Four quarter turns about the z axis bring every tuple back to where it was, exactly.
pub proof fn lemma_four_quarter_turns_about_z(p: Tuple)
    requires
        p.wf(),
    ensures
        ({
            let turn = new_rotation_z_matrix(Scalar { raw: QUARTER_TURN });
            turn.spec_mul_tuple(
                turn.spec_mul_tuple(turn.spec_mul_tuple(turn.spec_mul_tuple(p))),
            ) == p
        }),
{
    let turn = new_rotation_z_matrix(Scalar { raw: QUARTER_TURN });
    let once = turn.spec_mul_tuple(p);
    lemma_quarter_turn_about_z(p);
    let twice = turn.spec_mul_tuple(once);
    lemma_quarter_turn_about_z(once);
    let thrice = turn.spec_mul_tuple(twice);
    lemma_quarter_turn_about_z(twice);
    lemma_quarter_turn_about_z(thrice);
}

/// Cosine and sine of the angle in the rows and columns of x and z.
pub open spec fn spec_new_rotation_y_matrix(deg_radians: Scalar) -> Matrix4x4 {
    let c = deg_radians.spec_cos();
    let s = deg_radians.spec_sin();
    Matrix4x4 {
        contents: [
            [c, Scalar::zero(), s, Scalar::zero()],
            [Scalar::zero(), Scalar::one(), Scalar::zero(), Scalar::zero()],
            [s.spec_neg(), Scalar::zero(), c, Scalar::zero()],
            [Scalar::zero(), Scalar::zero(), Scalar::zero(), Scalar::one()],
        ],
    }
}

/// Turns about the y axis by an angle in radians.
#[verifier::when_used_as_spec(spec_new_rotation_y_matrix)]
pub fn new_rotation_y_matrix(deg_radians: Scalar) -> (m: Matrix4x4)
    ensures
        m == spec_new_rotation_y_matrix(deg_radians),
{
    let o = Scalar::zero();
    let i = Scalar::one();
    let c = deg_radians.cos();
    let s = deg_radians.sin();
    Matrix4x4 { contents: [[c, o, s, o], [o, i, o, o], [s.neg(), o, c, o], [o, o, o, i]] }
}

/// A cosine `c` and a sine `s`, each over the sum of their squares, undo the turn they make:
/// the two by two block `c, -s; s, c` times the block of the quotients is the identity up to
/// two raw units.
pub proof fn lemma_turn_undone(c: int, s: int)
    requires
        abs(c) <= SCALE,
        abs(s) <= SCALE,
        c * c + s * s >= 476_100_000_000_000_000,
    ensures
        ({
            let w = c * c + s * s;
            let ec = round_div(c * SCALE * SCALE, w);
            let es = round_div(s * SCALE * SCALE, w);
            &&& abs(ec) <= 2_200_000_000
            &&& abs(es) <= 2_200_000_000
            &&& abs(round_div(c * ec, SCALE as int) + round_div(s * es, SCALE as int) - SCALE) <= 2
            &&& abs(round_div(c * es, SCALE as int) - round_div(s * ec, SCALE as int)) <= 2
            &&& abs(round_div(c * ec, SCALE as int)) <= 2_200_000_001
            &&& abs(round_div(s * es, SCALE as int)) <= 2_200_000_001
            &&& abs(round_div(c * es, SCALE as int)) <= 2_200_000_001
            &&& abs(round_div(s * ec, SCALE as int)) <= 2_200_000_001
        }),
{
    let w = c * c + s * s;
    let unit = SCALE * SCALE;
    let ec = round_div(c * SCALE * SCALE, w);
    let es = round_div(s * SCALE * SCALE, w);
    assert(c * SCALE * SCALE == c * unit && s * SCALE * SCALE == s * unit) by (nonlinear_arith)
        requires
            unit == SCALE * SCALE,
    ;
    assert(unit == 1_000_000_000_000_000_000) by (nonlinear_arith)
        requires
            unit == SCALE * SCALE,
            SCALE == 1_000_000_000,
    ;
    lemma_round_div_near(c * unit, w);
    lemma_round_div_near(s * unit, w);
    let e1 = w * ec - c * unit;
    let e2 = w * es - s * unit;
    assert(abs(c * unit) <= 1_000_000_000_000_000_000_000_000_000 && abs(s * unit)
        <= 1_000_000_000_000_000_000_000_000_000) by (nonlinear_arith)
        requires
            abs(c) <= 1_000_000_000,
            abs(s) <= 1_000_000_000,
            unit == 1_000_000_000_000_000_000,
    ;
    lemma_quotient_small(ec, w, c * unit);
    lemma_quotient_small(es, w, s * unit);
    // The two products that make the diagonal.
    let wec = w * ec;
    let wes = w * es;
    assert(w * (c * ec) == c * wec && w * (s * es) == s * wes && w * (c * es) == c * wes && w * (s
        * ec) == s * wec) by (nonlinear_arith)
        requires
            wec == w * ec,
            wes == w * es,
    ;
    assert(c * wec == c * (c * unit) + c * e1 && s * wec == s * (c * unit) + s * e1) by (
    nonlinear_arith)
        requires
            wec == c * unit + e1,
    ;
    assert(c * wes == c * (s * unit) + c * e2 && s * wes == s * (s * unit) + s * e2) by (
    nonlinear_arith)
        requires
            wes == s * unit + e2,
    ;
    assert(c * (c * unit) + s * (s * unit) == w * unit && c * (s * unit) == s * (c * unit)) by (
    nonlinear_arith)
        requires
            w == c * c + s * s,
    ;
    assert(w * (c * ec + s * es - unit) == w * (c * ec) + w * (s * es) - w * unit && w * (c * es
        - s * ec) == w * (c * es) - w * (s * ec)) by (nonlinear_arith);
    assert(w * (c * ec + s * es - unit) == c * e1 + s * e2);
    assert(w * (c * es - s * ec) == c * e2 - s * e1);
    lemma_mixed_small(c, s, e1, e2, w);
    lemma_mixed_small(c, -s, e2, e1, w);
    assert(c * e2 + (-s) * e1 == c * e2 - s * e1) by (nonlinear_arith);
    lemma_cancel_wide(c * ec + s * es - unit, w);
    lemma_cancel_wide(c * es - s * ec, w);
    lemma_round_div_bounds(c * ec, SCALE as int);
    lemma_round_div_bounds(s * es, SCALE as int);
    lemma_round_div_bounds(c * es, SCALE as int);
    lemma_round_div_bounds(s * ec, SCALE as int);
    lemma_product_small(c, ec);
    lemma_product_small(s, es);
    lemma_product_small(c, es);
    lemma_product_small(s, ec);
}

/// A quotient by at least forty-seven hundredths of a dividend of at most a thousand is at
/// most two and two tenths, all in the units of the scalars.
proof fn lemma_quotient_small(e: int, w: int, n: int)
    by (nonlinear_arith)
    requires
        w >= 476_100_000_000_000_000,
        abs(n) <= 1_000_000_000_000_000_000_000_000_000,
        abs(2 * (w * e) - 2 * n) <= abs(w),
    ensures
        abs(e) <= 2_200_000_000,
{
    if e > 2_200_000_000 {
        assert(w * e >= w * 2_200_000_001);
    }
    if e < -2_200_000_000 {
        assert(w * e <= w * (-2_200_000_001));
    }
}

/// A product of a number of at most one and a number of at most two and two tenths.
proof fn lemma_product_small(a: int, b: int)
    by (nonlinear_arith)
    requires
        abs(a) <= 1_000_000_000,
        abs(b) <= 2_200_000_000,
    ensures
        abs(a * b) <= 2_200_000_000_000_000_000,
{
    assert(abs(a * b) == abs(a) * abs(b));
    assert(abs(a) * abs(b) <= 1_000_000_000 * abs(b));
}

/// Two numbers of at most one, each times an error of at most half of `w`, add up to at most
/// `w`.
proof fn lemma_mixed_small(c: int, s: int, e1: int, e2: int, w: int)
    by (nonlinear_arith)
    requires
        abs(c) <= 1_000_000_000,
        abs(s) <= 1_000_000_000,
        abs(2 * e1) <= w,
        abs(2 * e2) <= w,
    ensures
        abs(c * e1 + s * e2) <= 1_000_000_000 * w,
{
    assert(abs(c * e1) == abs(c) * abs(e1));
    assert(abs(s * e2) == abs(s) * abs(e2));
    assert(abs(c) * abs(e1) <= 1_000_000_000 * abs(e1));
    assert(abs(s) * abs(e2) <= 1_000_000_000 * abs(e2));
}

/// What times `w` is at most a thousand million times `w` is at most a thousand million.
proof fn lemma_cancel_wide(d: int, w: int)
    by (nonlinear_arith)
    requires
        w > 0,
        abs(w * d) <= 1_000_000_000 * w,
    ensures
        abs(d) <= 1_000_000_000,
{
    if d > 1_000_000_000 {
        assert(w * d >= w * 1_000_000_001);
    }
    if d < -1_000_000_000 {
        assert(w * d <= w * (-1_000_000_001));
    }
}

/// What a cosine and a sine of one angle are: numbers of magnitude at most one, the sum of
/// whose squares is at least forty-seven hundredths.
pub open spec fn turning(c: Scalar, s: Scalar) -> bool {
    &&& abs(c@) <= SCALE
    &&& abs(s@) <= SCALE
    &&& c@ * c@ + s@ * s@ >= 476_100_000_000_000_000
}

/// Cosine and sine of an angle that is a number are what `turning` says.
pub proof fn lemma_turning(angle: Scalar)
    requires
        angle.wf(),
    ensures
        turning(angle.spec_cos(), angle.spec_sin()),
{
    lemma_sin_cos_bounds(angle@);
    lemma_sin_cos_large(angle@);
}

/// The matrix that is the identity but for the block `a, b; c, d` that a turn about the x
/// axis fills.
pub open spec fn spec_block_x(a: Scalar, b: Scalar, c: Scalar, d: Scalar) -> Matrix4x4 {
    Matrix4x4 {
        contents: [
            [Scalar::one(), Scalar::zero(), Scalar::zero(), Scalar::zero()],
            [Scalar::zero(), a, b, Scalar::zero()],
            [Scalar::zero(), c, d, Scalar::zero()],
            [Scalar::zero(), Scalar::zero(), Scalar::zero(), Scalar::one()],
        ],
    }
}

/// The inverse of the block of a turn about the x axis: cosine and sine over the sum of
/// their squares, the sine with its sign changed.
pub proof fn lemma_block_x_inverse(c: Scalar, s: Scalar)
    requires
        turning(c, s),
    ensures
        ({
            let m = spec_block_x(c, s.spec_neg(), s, c);
            let w = c@ * c@ + s@ * s@;
            let ec = Scalar { raw: round_div(c@ * SCALE * SCALE, w) as i64 };
            let es = Scalar { raw: round_div(s@ * SCALE * SCALE, w) as i64 };
            &&& m.spec_determinant().wf()
            &&& m.spec_determinant()@ != 0
            &&& m.spec_inverse() == spec_block_x(ec, es, es.spec_neg(), ec)
        }),
{
    let ns = s.spec_neg();
    let m = spec_block_x(c, ns, s, c);
    let cof = m.spec_matrix_of_cofactors();
    let w = c@ * c@ + s@ * s@;
    let cc = c.spec_mul(c);
    let ss = ns.spec_mul(ns);
    let d = cc.spec_add(ss);
    lemma_round_div_bounds(c@ * c@, SCALE as int);
    lemma_round_div_bounds(ns@ * ns@, SCALE as int);
    lemma_round_div_odd(s@ * s@, SCALE as int);
    assert(ns@ * ns@ == s@ * s@ && ns@ * s@ == -(s@ * s@) && s@ * ns@ == -(s@ * s@))
        by (nonlinear_arith)
        requires
            ns@ == -s@,
    ;
    assert(0 <= c@ * c@ <= 1_000_000_000_000_000_000 && 0 <= s@ * s@ <= 1_000_000_000_000_000_000)
        by (nonlinear_arith)
        requires
            abs(c@) <= 1_000_000_000,
            abs(s@) <= 1_000_000_000,
    ;
    assert(cc.wf() && ss.wf() && d.wf() && 476_099_999 <= d@ <= 2_000_000_001);
    assert(cof.contents[0][0] == d) by {
        lemma_neutral_everywhere();
        reveal(Matrix3x3::spec_determinant);
        c.lemma_neutral();
        s.lemma_neutral();
        ns.lemma_neutral();
        cc.lemma_neutral();
        ss.lemma_neutral();
        d.lemma_neutral();
        ns.spec_mul(s).lemma_neutral();
        s.spec_mul(ns).lemma_neutral();
        Scalar::zero().lemma_neutral();
        Scalar::one().lemma_neutral();
        Scalar::one().spec_neg().lemma_neutral();
    }
    assert(cof.contents[0][1] == Scalar::zero()) by {
        lemma_neutral_everywhere();
        reveal(Matrix3x3::spec_determinant);
        c.lemma_neutral();
        s.lemma_neutral();
        ns.lemma_neutral();
        cc.lemma_neutral();
        ss.lemma_neutral();
        d.lemma_neutral();
        ns.spec_mul(s).lemma_neutral();
        s.spec_mul(ns).lemma_neutral();
        Scalar::zero().lemma_neutral();
        Scalar::one().lemma_neutral();
        Scalar::one().spec_neg().lemma_neutral();
    }
    assert(cof.contents[0][2] == Scalar::zero()) by {
        lemma_neutral_everywhere();
        reveal(Matrix3x3::spec_determinant);
        c.lemma_neutral();
        s.lemma_neutral();
        ns.lemma_neutral();
        cc.lemma_neutral();
        ss.lemma_neutral();
        d.lemma_neutral();
        ns.spec_mul(s).lemma_neutral();
        s.spec_mul(ns).lemma_neutral();
        Scalar::zero().lemma_neutral();
        Scalar::one().lemma_neutral();
        Scalar::one().spec_neg().lemma_neutral();
    }
    assert(cof.contents[0][3] == Scalar::zero()) by {
        lemma_neutral_everywhere();
        reveal(Matrix3x3::spec_determinant);
        c.lemma_neutral();
        s.lemma_neutral();
        ns.lemma_neutral();
        cc.lemma_neutral();
        ss.lemma_neutral();
        d.lemma_neutral();
        ns.spec_mul(s).lemma_neutral();
        s.spec_mul(ns).lemma_neutral();
        Scalar::zero().lemma_neutral();
        Scalar::one().lemma_neutral();
        Scalar::one().spec_neg().lemma_neutral();
    }
    assert(cof.contents[0] =~= [d, Scalar::zero(), Scalar::zero(), Scalar::zero()]);
    assert(cof.contents[1][0] == Scalar::zero()) by {
        lemma_neutral_everywhere();
        reveal(Matrix3x3::spec_determinant);
        c.lemma_neutral();
        s.lemma_neutral();
        ns.lemma_neutral();
        cc.lemma_neutral();
        ss.lemma_neutral();
        d.lemma_neutral();
        ns.spec_mul(s).lemma_neutral();
        s.spec_mul(ns).lemma_neutral();
        Scalar::zero().lemma_neutral();
        Scalar::one().lemma_neutral();
        Scalar::one().spec_neg().lemma_neutral();
    }
    assert(cof.contents[1][1] == c) by {
        lemma_neutral_everywhere();
        reveal(Matrix3x3::spec_determinant);
        c.lemma_neutral();
        s.lemma_neutral();
        ns.lemma_neutral();
        cc.lemma_neutral();
        ss.lemma_neutral();
        d.lemma_neutral();
        ns.spec_mul(s).lemma_neutral();
        s.spec_mul(ns).lemma_neutral();
        Scalar::zero().lemma_neutral();
        Scalar::one().lemma_neutral();
        Scalar::one().spec_neg().lemma_neutral();
    }
    assert(cof.contents[1][2] == ns) by {
        lemma_neutral_everywhere();
        reveal(Matrix3x3::spec_determinant);
        c.lemma_neutral();
        s.lemma_neutral();
        ns.lemma_neutral();
        cc.lemma_neutral();
        ss.lemma_neutral();
        d.lemma_neutral();
        ns.spec_mul(s).lemma_neutral();
        s.spec_mul(ns).lemma_neutral();
        Scalar::zero().lemma_neutral();
        Scalar::one().lemma_neutral();
        Scalar::one().spec_neg().lemma_neutral();
    }
    assert(cof.contents[1][3] == Scalar::zero()) by {
        lemma_neutral_everywhere();
        reveal(Matrix3x3::spec_determinant);
        c.lemma_neutral();
        s.lemma_neutral();
        ns.lemma_neutral();
        cc.lemma_neutral();
        ss.lemma_neutral();
        d.lemma_neutral();
        ns.spec_mul(s).lemma_neutral();
        s.spec_mul(ns).lemma_neutral();
        Scalar::zero().lemma_neutral();
        Scalar::one().lemma_neutral();
        Scalar::one().spec_neg().lemma_neutral();
    }
    assert(cof.contents[1] =~= [Scalar::zero(), c, ns, Scalar::zero()]);
    assert(cof.contents[2][0] == Scalar::zero()) by {
        lemma_neutral_everywhere();
        reveal(Matrix3x3::spec_determinant);
        c.lemma_neutral();
        s.lemma_neutral();
        ns.lemma_neutral();
        cc.lemma_neutral();
        ss.lemma_neutral();
        d.lemma_neutral();
        ns.spec_mul(s).lemma_neutral();
        s.spec_mul(ns).lemma_neutral();
        Scalar::zero().lemma_neutral();
        Scalar::one().lemma_neutral();
        Scalar::one().spec_neg().lemma_neutral();
    }
    assert(cof.contents[2][1] == s) by {
        lemma_neutral_everywhere();
        reveal(Matrix3x3::spec_determinant);
        c.lemma_neutral();
        s.lemma_neutral();
        ns.lemma_neutral();
        cc.lemma_neutral();
        ss.lemma_neutral();
        d.lemma_neutral();
        ns.spec_mul(s).lemma_neutral();
        s.spec_mul(ns).lemma_neutral();
        Scalar::zero().lemma_neutral();
        Scalar::one().lemma_neutral();
        Scalar::one().spec_neg().lemma_neutral();
    }
    assert(cof.contents[2][2] == c) by {
        lemma_neutral_everywhere();
        reveal(Matrix3x3::spec_determinant);
        c.lemma_neutral();
        s.lemma_neutral();
        ns.lemma_neutral();
        cc.lemma_neutral();
        ss.lemma_neutral();
        d.lemma_neutral();
        ns.spec_mul(s).lemma_neutral();
        s.spec_mul(ns).lemma_neutral();
        Scalar::zero().lemma_neutral();
        Scalar::one().lemma_neutral();
        Scalar::one().spec_neg().lemma_neutral();
    }
    assert(cof.contents[2][3] == Scalar::zero()) by {
        lemma_neutral_everywhere();
        reveal(Matrix3x3::spec_determinant);
        c.lemma_neutral();
        s.lemma_neutral();
        ns.lemma_neutral();
        cc.lemma_neutral();
        ss.lemma_neutral();
        d.lemma_neutral();
        ns.spec_mul(s).lemma_neutral();
        s.spec_mul(ns).lemma_neutral();
        Scalar::zero().lemma_neutral();
        Scalar::one().lemma_neutral();
        Scalar::one().spec_neg().lemma_neutral();
    }
    assert(cof.contents[2] =~= [Scalar::zero(), s, c, Scalar::zero()]);
    assert(cof.contents[3][0] == Scalar::zero()) by {
        lemma_neutral_everywhere();
        reveal(Matrix3x3::spec_determinant);
        c.lemma_neutral();
        s.lemma_neutral();
        ns.lemma_neutral();
        cc.lemma_neutral();
        ss.lemma_neutral();
        d.lemma_neutral();
        ns.spec_mul(s).lemma_neutral();
        s.spec_mul(ns).lemma_neutral();
        Scalar::zero().lemma_neutral();
        Scalar::one().lemma_neutral();
        Scalar::one().spec_neg().lemma_neutral();
    }
    assert(cof.contents[3][1] == Scalar::zero()) by {
        lemma_neutral_everywhere();
        reveal(Matrix3x3::spec_determinant);
        c.lemma_neutral();
        s.lemma_neutral();
        ns.lemma_neutral();
        cc.lemma_neutral();
        ss.lemma_neutral();
        d.lemma_neutral();
        ns.spec_mul(s).lemma_neutral();
        s.spec_mul(ns).lemma_neutral();
        Scalar::zero().lemma_neutral();
        Scalar::one().lemma_neutral();
        Scalar::one().spec_neg().lemma_neutral();
    }
    assert(cof.contents[3][2] == Scalar::zero()) by {
        lemma_neutral_everywhere();
        reveal(Matrix3x3::spec_determinant);
        c.lemma_neutral();
        s.lemma_neutral();
        ns.lemma_neutral();
        cc.lemma_neutral();
        ss.lemma_neutral();
        d.lemma_neutral();
        ns.spec_mul(s).lemma_neutral();
        s.spec_mul(ns).lemma_neutral();
        Scalar::zero().lemma_neutral();
        Scalar::one().lemma_neutral();
        Scalar::one().spec_neg().lemma_neutral();
    }
    assert(cof.contents[3][3] == d) by {
        lemma_neutral_everywhere();
        reveal(Matrix3x3::spec_determinant);
        c.lemma_neutral();
        s.lemma_neutral();
        ns.lemma_neutral();
        cc.lemma_neutral();
        ss.lemma_neutral();
        d.lemma_neutral();
        ns.spec_mul(s).lemma_neutral();
        s.spec_mul(ns).lemma_neutral();
        Scalar::zero().lemma_neutral();
        Scalar::one().lemma_neutral();
        Scalar::one().spec_neg().lemma_neutral();
    }
    assert(cof.contents[3] =~= [Scalar::zero(), Scalar::zero(), Scalar::zero(), d]);
    assert(m.spec_cofactor(0, 0) == cof.contents[0][0] && m.spec_cofactor(0, 1) == cof.contents[0][1] && m.spec_cofactor(0, 2) == cof.contents[0][2] && m.spec_cofactor(0, 3) == cof.contents[0][3]);
    assert(m.spec_cofactor(1, 0) == cof.contents[1][0] && m.spec_cofactor(1, 1) == cof.contents[1][1] && m.spec_cofactor(1, 2) == cof.contents[1][2] && m.spec_cofactor(1, 3) == cof.contents[1][3]);
    assert(m.spec_cofactor(2, 0) == cof.contents[2][0] && m.spec_cofactor(2, 1) == cof.contents[2][1] && m.spec_cofactor(2, 2) == cof.contents[2][2] && m.spec_cofactor(2, 3) == cof.contents[2][3]);
    assert(m.spec_cofactor(3, 0) == cof.contents[3][0] && m.spec_cofactor(3, 1) == cof.contents[3][1] && m.spec_cofactor(3, 2) == cof.contents[3][2] && m.spec_cofactor(3, 3) == cof.contents[3][3]);
    assert(0 * 0 == 0);
    assert(SCALE * d@ <= 2_000_000_001_000_000_000 && SCALE * d@ >= 476_099_999_000_000_000)
        by (nonlinear_arith)
        requires
            476_099_999 <= d@ <= 2_000_000_001,
            SCALE == 1_000_000_000,
    ;
    assert(m.spec_wide_determinant(0) == SCALE * d@);
    assert(m.spec_wide_determinant(1) == w);
    assert(m.spec_wide_determinant(2) == w);
    assert(m.spec_wide_determinant(3) == SCALE * d@);
    assert(m.spec_divisor(0) == SCALE * d@ && m.spec_divisor(1) == w && m.spec_divisor(2) == w && m.spec_divisor(3) == SCALE * d@);
    lemma_round_div_multiple(d@, SCALE as int);
    assert(SCALE * d@ == d@ * SCALE) by (nonlinear_arith);
    assert(m.spec_determinant().wf() && m.spec_determinant()@ != 0) by {
        reveal(Matrix4x4::spec_determinant);
    }
    lemma_turn_undone(c@, s@);
    lemma_round_div_odd(s@ * SCALE * SCALE, w);
    assert(ns@ * SCALE * SCALE == -(s@ * SCALE * SCALE)) by (nonlinear_arith)
        requires
            ns@ == -s@,
    ;
    lemma_zero_over(w);
    lemma_zero_over(SCALE * d@);
    lemma_round_div_cancels(SCALE * SCALE, SCALE as int, d@);
    lemma_round_div_multiple(SCALE as int, SCALE as int);
    assert(d@ * SCALE * SCALE == d@ * (SCALE * SCALE) && d@ * SCALE == SCALE * d@)
        by (nonlinear_arith);
    let ec = Scalar { raw: round_div(c@ * SCALE * SCALE, w) as i64 };
    let es = Scalar { raw: round_div(s@ * SCALE * SCALE, w) as i64 };
    let block = spec_block_x(ec, es, es.spec_neg(), ec);
    assert(m.spec_inverse() == block) by {
        reveal(Matrix4x4::spec_inverse);
        let inverse = m.spec_inverse();
        assert(inverse.contents[0] == block.contents[0]);
        assert(inverse.contents[1] == block.contents[1]);
        assert(inverse.contents[2] == block.contents[2]);
        assert(inverse.contents[3] == block.contents[3]);
        assert(inverse.contents =~= block.contents);
    }
}

/// The block of a turn about the x axis has an inverse that undoes it.
pub proof fn lemma_block_x_inverts(c: Scalar, s: Scalar)
    requires
        turning(c, s),
    ensures
        spec_block_x(c, s.spec_neg(), s, c).spec_inverts(),
{
    let ns = s.spec_neg();
    let m = spec_block_x(c, ns, s, c);
    let w = c@ * c@ + s@ * s@;
    lemma_block_x_inverse(c, s);
    lemma_turn_undone(c@, s@);
    let ec = Scalar { raw: round_div(c@ * SCALE * SCALE, w) as i64 };
    let es = Scalar { raw: round_div(s@ * SCALE * SCALE, w) as i64 };
    let nes = es.spec_neg();
    let inverse = spec_block_x(ec, es, nes, ec);
    assert(inverse.wf());
    lemma_round_div_odd(s@ * ec@, SCALE as int);
    lemma_round_div_odd(c@ * es@, SCALE as int);
    assert(ns@ * nes@ == s@ * es@ && ns@ * ec@ == -(s@ * ec@) && c@ * nes@ == -(c@ * es@))
        by (nonlinear_arith)
        requires
            ns@ == -s@,
            nes@ == -es@,
    ;
    let product = m.spec_mul(&inverse);
    let p00 = c.spec_mul(ec).spec_add(ns.spec_mul(nes));
    let p01 = c.spec_mul(es).spec_add(ns.spec_mul(ec));
    let p10 = s.spec_mul(ec).spec_add(c.spec_mul(nes));
    let p11 = s.spec_mul(es).spec_add(c.spec_mul(ec));
    assert(p00.wf() && abs(p00@ - SCALE) <= 2);
    assert(p11.wf() && abs(p11@ - SCALE) <= 2);
    assert(p01.wf() && abs(p01@) <= 2);
    assert(p10.wf() && abs(p10@) <= 2);
    assert(product.contents[0] == [Scalar::one(), Scalar::zero(), Scalar::zero(), Scalar::zero()]) by {
        reveal(Matrix4x4::spec_mul);
        lemma_neutral_everywhere();
        c.lemma_neutral();
        s.lemma_neutral();
        ns.lemma_neutral();
        ec.lemma_neutral();
        es.lemma_neutral();
        nes.lemma_neutral();
        p00.lemma_neutral();
        p01.lemma_neutral();
        p10.lemma_neutral();
        p11.lemma_neutral();
        c.spec_mul(ec).lemma_neutral();
        ns.spec_mul(nes).lemma_neutral();
        c.spec_mul(es).lemma_neutral();
        ns.spec_mul(ec).lemma_neutral();
        s.spec_mul(ec).lemma_neutral();
        c.spec_mul(nes).lemma_neutral();
        s.spec_mul(es).lemma_neutral();
        Scalar::zero().lemma_neutral();
        Scalar::one().lemma_neutral();
    }
    assert(product.contents[1] == [Scalar::zero(), p00, p01, Scalar::zero()]) by {
        reveal(Matrix4x4::spec_mul);
        lemma_neutral_everywhere();
        c.lemma_neutral();
        s.lemma_neutral();
        ns.lemma_neutral();
        ec.lemma_neutral();
        es.lemma_neutral();
        nes.lemma_neutral();
        p00.lemma_neutral();
        p01.lemma_neutral();
        p10.lemma_neutral();
        p11.lemma_neutral();
        c.spec_mul(ec).lemma_neutral();
        ns.spec_mul(nes).lemma_neutral();
        c.spec_mul(es).lemma_neutral();
        ns.spec_mul(ec).lemma_neutral();
        s.spec_mul(ec).lemma_neutral();
        c.spec_mul(nes).lemma_neutral();
        s.spec_mul(es).lemma_neutral();
        Scalar::zero().lemma_neutral();
        Scalar::one().lemma_neutral();
    }
    assert(product.contents[2] == [Scalar::zero(), p10, p11, Scalar::zero()]) by {
        reveal(Matrix4x4::spec_mul);
        lemma_neutral_everywhere();
        c.lemma_neutral();
        s.lemma_neutral();
        ns.lemma_neutral();
        ec.lemma_neutral();
        es.lemma_neutral();
        nes.lemma_neutral();
        p00.lemma_neutral();
        p01.lemma_neutral();
        p10.lemma_neutral();
        p11.lemma_neutral();
        c.spec_mul(ec).lemma_neutral();
        ns.spec_mul(nes).lemma_neutral();
        c.spec_mul(es).lemma_neutral();
        ns.spec_mul(ec).lemma_neutral();
        s.spec_mul(ec).lemma_neutral();
        c.spec_mul(nes).lemma_neutral();
        s.spec_mul(es).lemma_neutral();
        Scalar::zero().lemma_neutral();
        Scalar::one().lemma_neutral();
    }
    assert(product.contents[3] == [Scalar::zero(), Scalar::zero(), Scalar::zero(), Scalar::one()]) by {
        reveal(Matrix4x4::spec_mul);
        lemma_neutral_everywhere();
        c.lemma_neutral();
        s.lemma_neutral();
        ns.lemma_neutral();
        ec.lemma_neutral();
        es.lemma_neutral();
        nes.lemma_neutral();
        p00.lemma_neutral();
        p01.lemma_neutral();
        p10.lemma_neutral();
        p11.lemma_neutral();
        c.spec_mul(ec).lemma_neutral();
        ns.spec_mul(nes).lemma_neutral();
        c.spec_mul(es).lemma_neutral();
        ns.spec_mul(ec).lemma_neutral();
        s.spec_mul(ec).lemma_neutral();
        c.spec_mul(nes).lemma_neutral();
        s.spec_mul(es).lemma_neutral();
        Scalar::zero().lemma_neutral();
        Scalar::one().lemma_neutral();
    }
    assert(product.spec_approx_eq(&crate::matrix::identity4x4()));
}

/// The matrix that is the identity but for the block `a, b; c, d` that a turn about the y
/// axis fills.
pub open spec fn spec_block_y(a: Scalar, b: Scalar, c: Scalar, d: Scalar) -> Matrix4x4 {
    Matrix4x4 {
        contents: [
            [a, Scalar::zero(), b, Scalar::zero()],
            [Scalar::zero(), Scalar::one(), Scalar::zero(), Scalar::zero()],
            [c, Scalar::zero(), d, Scalar::zero()],
            [Scalar::zero(), Scalar::zero(), Scalar::zero(), Scalar::one()],
        ],
    }
}

/// The inverse of the block of a turn about the y axis: cosine and sine over the sum of
/// their squares, the sine with its sign changed.
pub proof fn lemma_block_y_inverse(c: Scalar, s: Scalar)
    requires
        turning(c, s),
    ensures
        ({
            let m = spec_block_y(c, s.spec_neg(), s, c);
            let w = c@ * c@ + s@ * s@;
            let ec = Scalar { raw: round_div(c@ * SCALE * SCALE, w) as i64 };
            let es = Scalar { raw: round_div(s@ * SCALE * SCALE, w) as i64 };
            &&& m.spec_determinant().wf()
            &&& m.spec_determinant()@ != 0
            &&& m.spec_inverse() == spec_block_y(ec, es, es.spec_neg(), ec)
        }),
{
    let ns = s.spec_neg();
    let m = spec_block_y(c, ns, s, c);
    let cof = m.spec_matrix_of_cofactors();
    let w = c@ * c@ + s@ * s@;
    let cc = c.spec_mul(c);
    let ss = ns.spec_mul(ns);
    let d = cc.spec_add(ss);
    lemma_round_div_bounds(c@ * c@, SCALE as int);
    lemma_round_div_bounds(ns@ * ns@, SCALE as int);
    lemma_round_div_odd(s@ * s@, SCALE as int);
    assert(ns@ * ns@ == s@ * s@ && ns@ * s@ == -(s@ * s@) && s@ * ns@ == -(s@ * s@))
        by (nonlinear_arith)
        requires
            ns@ == -s@,
    ;
    assert(0 <= c@ * c@ <= 1_000_000_000_000_000_000 && 0 <= s@ * s@ <= 1_000_000_000_000_000_000)
        by (nonlinear_arith)
        requires
            abs(c@) <= 1_000_000_000,
            abs(s@) <= 1_000_000_000,
    ;
    assert(cc.wf() && ss.wf() && d.wf() && 476_099_999 <= d@ <= 2_000_000_001);
    assert(cof.contents[0][0] == c) by {
        lemma_neutral_everywhere();
        reveal(Matrix3x3::spec_determinant);
        c.lemma_neutral();
        s.lemma_neutral();
        ns.lemma_neutral();
        cc.lemma_neutral();
        ss.lemma_neutral();
        d.lemma_neutral();
        ns.spec_mul(s).lemma_neutral();
        s.spec_mul(ns).lemma_neutral();
        Scalar::zero().lemma_neutral();
        Scalar::one().lemma_neutral();
        Scalar::one().spec_neg().lemma_neutral();
    }
    assert(cof.contents[0][1] == Scalar::zero()) by {
        lemma_neutral_everywhere();
        reveal(Matrix3x3::spec_determinant);
        c.lemma_neutral();
        s.lemma_neutral();
        ns.lemma_neutral();
        cc.lemma_neutral();
        ss.lemma_neutral();
        d.lemma_neutral();
        ns.spec_mul(s).lemma_neutral();
        s.spec_mul(ns).lemma_neutral();
        Scalar::zero().lemma_neutral();
        Scalar::one().lemma_neutral();
        Scalar::one().spec_neg().lemma_neutral();
    }
    assert(cof.contents[0][2] == ns) by {
        lemma_neutral_everywhere();
        reveal(Matrix3x3::spec_determinant);
        c.lemma_neutral();
        s.lemma_neutral();
        ns.lemma_neutral();
        cc.lemma_neutral();
        ss.lemma_neutral();
        d.lemma_neutral();
        ns.spec_mul(s).lemma_neutral();
        s.spec_mul(ns).lemma_neutral();
        Scalar::zero().lemma_neutral();
        Scalar::one().lemma_neutral();
        Scalar::one().spec_neg().lemma_neutral();
    }
    assert(cof.contents[0][3] == Scalar::zero()) by {
        lemma_neutral_everywhere();
        reveal(Matrix3x3::spec_determinant);
        c.lemma_neutral();
        s.lemma_neutral();
        ns.lemma_neutral();
        cc.lemma_neutral();
        ss.lemma_neutral();
        d.lemma_neutral();
        ns.spec_mul(s).lemma_neutral();
        s.spec_mul(ns).lemma_neutral();
        Scalar::zero().lemma_neutral();
        Scalar::one().lemma_neutral();
        Scalar::one().spec_neg().lemma_neutral();
    }
    assert(cof.contents[0] =~= [c, Scalar::zero(), ns, Scalar::zero()]);
    assert(cof.contents[1][0] == Scalar::zero()) by {
        lemma_neutral_everywhere();
        reveal(Matrix3x3::spec_determinant);
        c.lemma_neutral();
        s.lemma_neutral();
        ns.lemma_neutral();
        cc.lemma_neutral();
        ss.lemma_neutral();
        d.lemma_neutral();
        ns.spec_mul(s).lemma_neutral();
        s.spec_mul(ns).lemma_neutral();
        Scalar::zero().lemma_neutral();
        Scalar::one().lemma_neutral();
        Scalar::one().spec_neg().lemma_neutral();
    }
    assert(cof.contents[1][1] == d) by {
        lemma_neutral_everywhere();
        reveal(Matrix3x3::spec_determinant);
        c.lemma_neutral();
        s.lemma_neutral();
        ns.lemma_neutral();
        cc.lemma_neutral();
        ss.lemma_neutral();
        d.lemma_neutral();
        ns.spec_mul(s).lemma_neutral();
        s.spec_mul(ns).lemma_neutral();
        Scalar::zero().lemma_neutral();
        Scalar::one().lemma_neutral();
        Scalar::one().spec_neg().lemma_neutral();
    }
    assert(cof.contents[1][2] == Scalar::zero()) by {
        lemma_neutral_everywhere();
        reveal(Matrix3x3::spec_determinant);
        c.lemma_neutral();
        s.lemma_neutral();
        ns.lemma_neutral();
        cc.lemma_neutral();
        ss.lemma_neutral();
        d.lemma_neutral();
        ns.spec_mul(s).lemma_neutral();
        s.spec_mul(ns).lemma_neutral();
        Scalar::zero().lemma_neutral();
        Scalar::one().lemma_neutral();
        Scalar::one().spec_neg().lemma_neutral();
    }
    assert(cof.contents[1][3] == Scalar::zero()) by {
        lemma_neutral_everywhere();
        reveal(Matrix3x3::spec_determinant);
        c.lemma_neutral();
        s.lemma_neutral();
        ns.lemma_neutral();
        cc.lemma_neutral();
        ss.lemma_neutral();
        d.lemma_neutral();
        ns.spec_mul(s).lemma_neutral();
        s.spec_mul(ns).lemma_neutral();
        Scalar::zero().lemma_neutral();
        Scalar::one().lemma_neutral();
        Scalar::one().spec_neg().lemma_neutral();
    }
    assert(cof.contents[1] =~= [Scalar::zero(), d, Scalar::zero(), Scalar::zero()]);
    assert(cof.contents[2][0] == s) by {
        lemma_neutral_everywhere();
        reveal(Matrix3x3::spec_determinant);
        c.lemma_neutral();
        s.lemma_neutral();
        ns.lemma_neutral();
        cc.lemma_neutral();
        ss.lemma_neutral();
        d.lemma_neutral();
        ns.spec_mul(s).lemma_neutral();
        s.spec_mul(ns).lemma_neutral();
        Scalar::zero().lemma_neutral();
        Scalar::one().lemma_neutral();
        Scalar::one().spec_neg().lemma_neutral();
    }
    assert(cof.contents[2][1] == Scalar::zero()) by {
        lemma_neutral_everywhere();
        reveal(Matrix3x3::spec_determinant);
        c.lemma_neutral();
        s.lemma_neutral();
        ns.lemma_neutral();
        cc.lemma_neutral();
        ss.lemma_neutral();
        d.lemma_neutral();
        ns.spec_mul(s).lemma_neutral();
        s.spec_mul(ns).lemma_neutral();
        Scalar::zero().lemma_neutral();
        Scalar::one().lemma_neutral();
        Scalar::one().spec_neg().lemma_neutral();
    }
    assert(cof.contents[2][2] == c) by {
        lemma_neutral_everywhere();
        reveal(Matrix3x3::spec_determinant);
        c.lemma_neutral();
        s.lemma_neutral();
        ns.lemma_neutral();
        cc.lemma_neutral();
        ss.lemma_neutral();
        d.lemma_neutral();
        ns.spec_mul(s).lemma_neutral();
        s.spec_mul(ns).lemma_neutral();
        Scalar::zero().lemma_neutral();
        Scalar::one().lemma_neutral();
        Scalar::one().spec_neg().lemma_neutral();
    }
    assert(cof.contents[2][3] == Scalar::zero()) by {
        lemma_neutral_everywhere();
        reveal(Matrix3x3::spec_determinant);
        c.lemma_neutral();
        s.lemma_neutral();
        ns.lemma_neutral();
        cc.lemma_neutral();
        ss.lemma_neutral();
        d.lemma_neutral();
        ns.spec_mul(s).lemma_neutral();
        s.spec_mul(ns).lemma_neutral();
        Scalar::zero().lemma_neutral();
        Scalar::one().lemma_neutral();
        Scalar::one().spec_neg().lemma_neutral();
    }
    assert(cof.contents[2] =~= [s, Scalar::zero(), c, Scalar::zero()]);
    assert(cof.contents[3][0] == Scalar::zero()) by {
        lemma_neutral_everywhere();
        reveal(Matrix3x3::spec_determinant);
        c.lemma_neutral();
        s.lemma_neutral();
        ns.lemma_neutral();
        cc.lemma_neutral();
        ss.lemma_neutral();
        d.lemma_neutral();
        ns.spec_mul(s).lemma_neutral();
        s.spec_mul(ns).lemma_neutral();
        Scalar::zero().lemma_neutral();
        Scalar::one().lemma_neutral();
        Scalar::one().spec_neg().lemma_neutral();
    }
    assert(cof.contents[3][1] == Scalar::zero()) by {
        lemma_neutral_everywhere();
        reveal(Matrix3x3::spec_determinant);
        c.lemma_neutral();
        s.lemma_neutral();
        ns.lemma_neutral();
        cc.lemma_neutral();
        ss.lemma_neutral();
        d.lemma_neutral();
        ns.spec_mul(s).lemma_neutral();
        s.spec_mul(ns).lemma_neutral();
        Scalar::zero().lemma_neutral();
        Scalar::one().lemma_neutral();
        Scalar::one().spec_neg().lemma_neutral();
    }
    assert(cof.contents[3][2] == Scalar::zero()) by {
        lemma_neutral_everywhere();
        reveal(Matrix3x3::spec_determinant);
        c.lemma_neutral();
        s.lemma_neutral();
        ns.lemma_neutral();
        cc.lemma_neutral();
        ss.lemma_neutral();
        d.lemma_neutral();
        ns.spec_mul(s).lemma_neutral();
        s.spec_mul(ns).lemma_neutral();
        Scalar::zero().lemma_neutral();
        Scalar::one().lemma_neutral();
        Scalar::one().spec_neg().lemma_neutral();
    }
    assert(cof.contents[3][3] == d) by {
        lemma_neutral_everywhere();
        reveal(Matrix3x3::spec_determinant);
        c.lemma_neutral();
        s.lemma_neutral();
        ns.lemma_neutral();
        cc.lemma_neutral();
        ss.lemma_neutral();
        d.lemma_neutral();
        ns.spec_mul(s).lemma_neutral();
        s.spec_mul(ns).lemma_neutral();
        Scalar::zero().lemma_neutral();
        Scalar::one().lemma_neutral();
        Scalar::one().spec_neg().lemma_neutral();
    }
    assert(cof.contents[3] =~= [Scalar::zero(), Scalar::zero(), Scalar::zero(), d]);
    assert(m.spec_cofactor(0, 0) == cof.contents[0][0] && m.spec_cofactor(0, 1) == cof.contents[0][1] && m.spec_cofactor(0, 2) == cof.contents[0][2] && m.spec_cofactor(0, 3) == cof.contents[0][3]);
    assert(m.spec_cofactor(1, 0) == cof.contents[1][0] && m.spec_cofactor(1, 1) == cof.contents[1][1] && m.spec_cofactor(1, 2) == cof.contents[1][2] && m.spec_cofactor(1, 3) == cof.contents[1][3]);
    assert(m.spec_cofactor(2, 0) == cof.contents[2][0] && m.spec_cofactor(2, 1) == cof.contents[2][1] && m.spec_cofactor(2, 2) == cof.contents[2][2] && m.spec_cofactor(2, 3) == cof.contents[2][3]);
    assert(m.spec_cofactor(3, 0) == cof.contents[3][0] && m.spec_cofactor(3, 1) == cof.contents[3][1] && m.spec_cofactor(3, 2) == cof.contents[3][2] && m.spec_cofactor(3, 3) == cof.contents[3][3]);
    assert(0 * 0 == 0);
    assert(SCALE * d@ <= 2_000_000_001_000_000_000 && SCALE * d@ >= 476_099_999_000_000_000)
        by (nonlinear_arith)
        requires
            476_099_999 <= d@ <= 2_000_000_001,
            SCALE == 1_000_000_000,
    ;
    assert(m.spec_wide_determinant(0) == w);
    assert(m.spec_wide_determinant(1) == SCALE * d@);
    assert(m.spec_wide_determinant(2) == w);
    assert(m.spec_wide_determinant(3) == SCALE * d@);
    assert(m.spec_divisor(0) == w && m.spec_divisor(1) == SCALE * d@ && m.spec_divisor(2) == w && m.spec_divisor(3) == SCALE * d@);
    lemma_round_div_bounds(w, SCALE as int);
    assert(m.spec_determinant().wf() && m.spec_determinant()@ != 0) by {
        reveal(Matrix4x4::spec_determinant);
    }
    lemma_turn_undone(c@, s@);
    lemma_round_div_odd(s@ * SCALE * SCALE, w);
    assert(ns@ * SCALE * SCALE == -(s@ * SCALE * SCALE)) by (nonlinear_arith)
        requires
            ns@ == -s@,
    ;
    lemma_zero_over(w);
    lemma_zero_over(SCALE * d@);
    lemma_round_div_cancels(SCALE * SCALE, SCALE as int, d@);
    lemma_round_div_multiple(SCALE as int, SCALE as int);
    assert(d@ * SCALE * SCALE == d@ * (SCALE * SCALE) && d@ * SCALE == SCALE * d@)
        by (nonlinear_arith);
    let ec = Scalar { raw: round_div(c@ * SCALE * SCALE, w) as i64 };
    let es = Scalar { raw: round_div(s@ * SCALE * SCALE, w) as i64 };
    let block = spec_block_y(ec, es, es.spec_neg(), ec);
    assert(m.spec_inverse() == block) by {
        reveal(Matrix4x4::spec_inverse);
        let inverse = m.spec_inverse();
        assert(inverse.contents[0] == block.contents[0]);
        assert(inverse.contents[1] == block.contents[1]);
        assert(inverse.contents[2] == block.contents[2]);
        assert(inverse.contents[3] == block.contents[3]);
        assert(inverse.contents =~= block.contents);
    }
}

/// The block of a turn about the y axis has an inverse that undoes it.
pub proof fn lemma_block_y_inverts(c: Scalar, s: Scalar)
    requires
        turning(c, s),
    ensures
        spec_block_y(c, s.spec_neg(), s, c).spec_inverts(),
{
    let ns = s.spec_neg();
    let m = spec_block_y(c, ns, s, c);
    let w = c@ * c@ + s@ * s@;
    lemma_block_y_inverse(c, s);
    lemma_turn_undone(c@, s@);
    let ec = Scalar { raw: round_div(c@ * SCALE * SCALE, w) as i64 };
    let es = Scalar { raw: round_div(s@ * SCALE * SCALE, w) as i64 };
    let nes = es.spec_neg();
    let inverse = spec_block_y(ec, es, nes, ec);
    assert(inverse.wf());
    lemma_round_div_odd(s@ * ec@, SCALE as int);
    lemma_round_div_odd(c@ * es@, SCALE as int);
    assert(ns@ * nes@ == s@ * es@ && ns@ * ec@ == -(s@ * ec@) && c@ * nes@ == -(c@ * es@))
        by (nonlinear_arith)
        requires
            ns@ == -s@,
            nes@ == -es@,
    ;
    let product = m.spec_mul(&inverse);
    let p00 = c.spec_mul(ec).spec_add(ns.spec_mul(nes));
    let p01 = c.spec_mul(es).spec_add(ns.spec_mul(ec));
    let p10 = s.spec_mul(ec).spec_add(c.spec_mul(nes));
    let p11 = s.spec_mul(es).spec_add(c.spec_mul(ec));
    assert(p00.wf() && abs(p00@ - SCALE) <= 2);
    assert(p11.wf() && abs(p11@ - SCALE) <= 2);
    assert(p01.wf() && abs(p01@) <= 2);
    assert(p10.wf() && abs(p10@) <= 2);
    assert(product.contents[0] == [p00, Scalar::zero(), p01, Scalar::zero()]) by {
        reveal(Matrix4x4::spec_mul);
        lemma_neutral_everywhere();
        c.lemma_neutral();
        s.lemma_neutral();
        ns.lemma_neutral();
        ec.lemma_neutral();
        es.lemma_neutral();
        nes.lemma_neutral();
        p00.lemma_neutral();
        p01.lemma_neutral();
        p10.lemma_neutral();
        p11.lemma_neutral();
        c.spec_mul(ec).lemma_neutral();
        ns.spec_mul(nes).lemma_neutral();
        c.spec_mul(es).lemma_neutral();
        ns.spec_mul(ec).lemma_neutral();
        s.spec_mul(ec).lemma_neutral();
        c.spec_mul(nes).lemma_neutral();
        s.spec_mul(es).lemma_neutral();
        Scalar::zero().lemma_neutral();
        Scalar::one().lemma_neutral();
    }
    assert(product.contents[1] == [Scalar::zero(), Scalar::one(), Scalar::zero(), Scalar::zero()]) by {
        reveal(Matrix4x4::spec_mul);
        lemma_neutral_everywhere();
        c.lemma_neutral();
        s.lemma_neutral();
        ns.lemma_neutral();
        ec.lemma_neutral();
        es.lemma_neutral();
        nes.lemma_neutral();
        p00.lemma_neutral();
        p01.lemma_neutral();
        p10.lemma_neutral();
        p11.lemma_neutral();
        c.spec_mul(ec).lemma_neutral();
        ns.spec_mul(nes).lemma_neutral();
        c.spec_mul(es).lemma_neutral();
        ns.spec_mul(ec).lemma_neutral();
        s.spec_mul(ec).lemma_neutral();
        c.spec_mul(nes).lemma_neutral();
        s.spec_mul(es).lemma_neutral();
        Scalar::zero().lemma_neutral();
        Scalar::one().lemma_neutral();
    }
    assert(product.contents[2] == [p10, Scalar::zero(), p11, Scalar::zero()]) by {
        reveal(Matrix4x4::spec_mul);
        lemma_neutral_everywhere();
        c.lemma_neutral();
        s.lemma_neutral();
        ns.lemma_neutral();
        ec.lemma_neutral();
        es.lemma_neutral();
        nes.lemma_neutral();
        p00.lemma_neutral();
        p01.lemma_neutral();
        p10.lemma_neutral();
        p11.lemma_neutral();
        c.spec_mul(ec).lemma_neutral();
        ns.spec_mul(nes).lemma_neutral();
        c.spec_mul(es).lemma_neutral();
        ns.spec_mul(ec).lemma_neutral();
        s.spec_mul(ec).lemma_neutral();
        c.spec_mul(nes).lemma_neutral();
        s.spec_mul(es).lemma_neutral();
        Scalar::zero().lemma_neutral();
        Scalar::one().lemma_neutral();
    }
    assert(product.contents[3] == [Scalar::zero(), Scalar::zero(), Scalar::zero(), Scalar::one()]) by {
        reveal(Matrix4x4::spec_mul);
        lemma_neutral_everywhere();
        c.lemma_neutral();
        s.lemma_neutral();
        ns.lemma_neutral();
        ec.lemma_neutral();
        es.lemma_neutral();
        nes.lemma_neutral();
        p00.lemma_neutral();
        p01.lemma_neutral();
        p10.lemma_neutral();
        p11.lemma_neutral();
        c.spec_mul(ec).lemma_neutral();
        ns.spec_mul(nes).lemma_neutral();
        c.spec_mul(es).lemma_neutral();
        ns.spec_mul(ec).lemma_neutral();
        s.spec_mul(ec).lemma_neutral();
        c.spec_mul(nes).lemma_neutral();
        s.spec_mul(es).lemma_neutral();
        Scalar::zero().lemma_neutral();
        Scalar::one().lemma_neutral();
    }
    assert(product.spec_approx_eq(&crate::matrix::identity4x4()));
}

/// The matrix that is the identity but for the block `a, b; c, d` that a turn about the z
/// axis fills.
pub open spec fn spec_block_z(a: Scalar, b: Scalar, c: Scalar, d: Scalar) -> Matrix4x4 {
    Matrix4x4 {
        contents: [
            [a, b, Scalar::zero(), Scalar::zero()],
            [c, d, Scalar::zero(), Scalar::zero()],
            [Scalar::zero(), Scalar::zero(), Scalar::one(), Scalar::zero()],
            [Scalar::zero(), Scalar::zero(), Scalar::zero(), Scalar::one()],
        ],
    }
}

/// The inverse of the block of a turn about the z axis: cosine and sine over the sum of
/// their squares, the sine with its sign changed.
pub proof fn lemma_block_z_inverse(c: Scalar, s: Scalar)
    requires
        turning(c, s),
    ensures
        ({
            let m = spec_block_z(c, s.spec_neg(), s, c);
            let w = c@ * c@ + s@ * s@;
            let ec = Scalar { raw: round_div(c@ * SCALE * SCALE, w) as i64 };
            let es = Scalar { raw: round_div(s@ * SCALE * SCALE, w) as i64 };
            &&& m.spec_determinant().wf()
            &&& m.spec_determinant()@ != 0
            &&& m.spec_inverse() == spec_block_z(ec, es, es.spec_neg(), ec)
        }),
{
    let ns = s.spec_neg();
    let m = spec_block_z(c, ns, s, c);
    let cof = m.spec_matrix_of_cofactors();
    let w = c@ * c@ + s@ * s@;
    let cc = c.spec_mul(c);
    let ss = ns.spec_mul(ns);
    let d = cc.spec_add(ss);
    lemma_round_div_bounds(c@ * c@, SCALE as int);
    lemma_round_div_bounds(ns@ * ns@, SCALE as int);
    lemma_round_div_odd(s@ * s@, SCALE as int);
    assert(ns@ * ns@ == s@ * s@ && ns@ * s@ == -(s@ * s@) && s@ * ns@ == -(s@ * s@))
        by (nonlinear_arith)
        requires
            ns@ == -s@,
    ;
    assert(0 <= c@ * c@ <= 1_000_000_000_000_000_000 && 0 <= s@ * s@ <= 1_000_000_000_000_000_000)
        by (nonlinear_arith)
        requires
            abs(c@) <= 1_000_000_000,
            abs(s@) <= 1_000_000_000,
    ;
    assert(cc.wf() && ss.wf() && d.wf() && 476_099_999 <= d@ <= 2_000_000_001);
    assert(cof.contents[0][0] == c) by {
        lemma_neutral_everywhere();
        reveal(Matrix3x3::spec_determinant);
        c.lemma_neutral();
        s.lemma_neutral();
        ns.lemma_neutral();
        cc.lemma_neutral();
        ss.lemma_neutral();
        d.lemma_neutral();
        ns.spec_mul(s).lemma_neutral();
        s.spec_mul(ns).lemma_neutral();
        Scalar::zero().lemma_neutral();
        Scalar::one().lemma_neutral();
        Scalar::one().spec_neg().lemma_neutral();
    }
    assert(cof.contents[0][1] == ns) by {
        lemma_neutral_everywhere();
        reveal(Matrix3x3::spec_determinant);
        c.lemma_neutral();
        s.lemma_neutral();
        ns.lemma_neutral();
        cc.lemma_neutral();
        ss.lemma_neutral();
        d.lemma_neutral();
        ns.spec_mul(s).lemma_neutral();
        s.spec_mul(ns).lemma_neutral();
        Scalar::zero().lemma_neutral();
        Scalar::one().lemma_neutral();
        Scalar::one().spec_neg().lemma_neutral();
    }
    assert(cof.contents[0][2] == Scalar::zero()) by {
        lemma_neutral_everywhere();
        reveal(Matrix3x3::spec_determinant);
        c.lemma_neutral();
        s.lemma_neutral();
        ns.lemma_neutral();
        cc.lemma_neutral();
        ss.lemma_neutral();
        d.lemma_neutral();
        ns.spec_mul(s).lemma_neutral();
        s.spec_mul(ns).lemma_neutral();
        Scalar::zero().lemma_neutral();
        Scalar::one().lemma_neutral();
        Scalar::one().spec_neg().lemma_neutral();
    }
    assert(cof.contents[0][3] == Scalar::zero()) by {
        lemma_neutral_everywhere();
        reveal(Matrix3x3::spec_determinant);
        c.lemma_neutral();
        s.lemma_neutral();
        ns.lemma_neutral();
        cc.lemma_neutral();
        ss.lemma_neutral();
        d.lemma_neutral();
        ns.spec_mul(s).lemma_neutral();
        s.spec_mul(ns).lemma_neutral();
        Scalar::zero().lemma_neutral();
        Scalar::one().lemma_neutral();
        Scalar::one().spec_neg().lemma_neutral();
    }
    assert(cof.contents[0] =~= [c, ns, Scalar::zero(), Scalar::zero()]);
    assert(cof.contents[1][0] == s) by {
        lemma_neutral_everywhere();
        reveal(Matrix3x3::spec_determinant);
        c.lemma_neutral();
        s.lemma_neutral();
        ns.lemma_neutral();
        cc.lemma_neutral();
        ss.lemma_neutral();
        d.lemma_neutral();
        ns.spec_mul(s).lemma_neutral();
        s.spec_mul(ns).lemma_neutral();
        Scalar::zero().lemma_neutral();
        Scalar::one().lemma_neutral();
        Scalar::one().spec_neg().lemma_neutral();
    }
    assert(cof.contents[1][1] == c) by {
        lemma_neutral_everywhere();
        reveal(Matrix3x3::spec_determinant);
        c.lemma_neutral();
        s.lemma_neutral();
        ns.lemma_neutral();
        cc.lemma_neutral();
        ss.lemma_neutral();
        d.lemma_neutral();
        ns.spec_mul(s).lemma_neutral();
        s.spec_mul(ns).lemma_neutral();
        Scalar::zero().lemma_neutral();
        Scalar::one().lemma_neutral();
        Scalar::one().spec_neg().lemma_neutral();
    }
    assert(cof.contents[1][2] == Scalar::zero()) by {
        lemma_neutral_everywhere();
        reveal(Matrix3x3::spec_determinant);
        c.lemma_neutral();
        s.lemma_neutral();
        ns.lemma_neutral();
        cc.lemma_neutral();
        ss.lemma_neutral();
        d.lemma_neutral();
        ns.spec_mul(s).lemma_neutral();
        s.spec_mul(ns).lemma_neutral();
        Scalar::zero().lemma_neutral();
        Scalar::one().lemma_neutral();
        Scalar::one().spec_neg().lemma_neutral();
    }
    assert(cof.contents[1][3] == Scalar::zero()) by {
        lemma_neutral_everywhere();
        reveal(Matrix3x3::spec_determinant);
        c.lemma_neutral();
        s.lemma_neutral();
        ns.lemma_neutral();
        cc.lemma_neutral();
        ss.lemma_neutral();
        d.lemma_neutral();
        ns.spec_mul(s).lemma_neutral();
        s.spec_mul(ns).lemma_neutral();
        Scalar::zero().lemma_neutral();
        Scalar::one().lemma_neutral();
        Scalar::one().spec_neg().lemma_neutral();
    }
    assert(cof.contents[1] =~= [s, c, Scalar::zero(), Scalar::zero()]);
    assert(cof.contents[2][0] == Scalar::zero()) by {
        lemma_neutral_everywhere();
        reveal(Matrix3x3::spec_determinant);
        c.lemma_neutral();
        s.lemma_neutral();
        ns.lemma_neutral();
        cc.lemma_neutral();
        ss.lemma_neutral();
        d.lemma_neutral();
        ns.spec_mul(s).lemma_neutral();
        s.spec_mul(ns).lemma_neutral();
        Scalar::zero().lemma_neutral();
        Scalar::one().lemma_neutral();
        Scalar::one().spec_neg().lemma_neutral();
    }
    assert(cof.contents[2][1] == Scalar::zero()) by {
        lemma_neutral_everywhere();
        reveal(Matrix3x3::spec_determinant);
        c.lemma_neutral();
        s.lemma_neutral();
        ns.lemma_neutral();
        cc.lemma_neutral();
        ss.lemma_neutral();
        d.lemma_neutral();
        ns.spec_mul(s).lemma_neutral();
        s.spec_mul(ns).lemma_neutral();
        Scalar::zero().lemma_neutral();
        Scalar::one().lemma_neutral();
        Scalar::one().spec_neg().lemma_neutral();
    }
    assert(cof.contents[2][2] == d) by {
        lemma_neutral_everywhere();
        reveal(Matrix3x3::spec_determinant);
        c.lemma_neutral();
        s.lemma_neutral();
        ns.lemma_neutral();
        cc.lemma_neutral();
        ss.lemma_neutral();
        d.lemma_neutral();
        ns.spec_mul(s).lemma_neutral();
        s.spec_mul(ns).lemma_neutral();
        Scalar::zero().lemma_neutral();
        Scalar::one().lemma_neutral();
        Scalar::one().spec_neg().lemma_neutral();
    }
    assert(cof.contents[2][3] == Scalar::zero()) by {
        lemma_neutral_everywhere();
        reveal(Matrix3x3::spec_determinant);
        c.lemma_neutral();
        s.lemma_neutral();
        ns.lemma_neutral();
        cc.lemma_neutral();
        ss.lemma_neutral();
        d.lemma_neutral();
        ns.spec_mul(s).lemma_neutral();
        s.spec_mul(ns).lemma_neutral();
        Scalar::zero().lemma_neutral();
        Scalar::one().lemma_neutral();
        Scalar::one().spec_neg().lemma_neutral();
    }
    assert(cof.contents[2] =~= [Scalar::zero(), Scalar::zero(), d, Scalar::zero()]);
    assert(cof.contents[3][0] == Scalar::zero()) by {
        lemma_neutral_everywhere();
        reveal(Matrix3x3::spec_determinant);
        c.lemma_neutral();
        s.lemma_neutral();
        ns.lemma_neutral();
        cc.lemma_neutral();
        ss.lemma_neutral();
        d.lemma_neutral();
        ns.spec_mul(s).lemma_neutral();
        s.spec_mul(ns).lemma_neutral();
        Scalar::zero().lemma_neutral();
        Scalar::one().lemma_neutral();
        Scalar::one().spec_neg().lemma_neutral();
    }
    assert(cof.contents[3][1] == Scalar::zero()) by {
        lemma_neutral_everywhere();
        reveal(Matrix3x3::spec_determinant);
        c.lemma_neutral();
        s.lemma_neutral();
        ns.lemma_neutral();
        cc.lemma_neutral();
        ss.lemma_neutral();
        d.lemma_neutral();
        ns.spec_mul(s).lemma_neutral();
        s.spec_mul(ns).lemma_neutral();
        Scalar::zero().lemma_neutral();
        Scalar::one().lemma_neutral();
        Scalar::one().spec_neg().lemma_neutral();
    }
    assert(cof.contents[3][2] == Scalar::zero()) by {
        lemma_neutral_everywhere();
        reveal(Matrix3x3::spec_determinant);
        c.lemma_neutral();
        s.lemma_neutral();
        ns.lemma_neutral();
        cc.lemma_neutral();
        ss.lemma_neutral();
        d.lemma_neutral();
        ns.spec_mul(s).lemma_neutral();
        s.spec_mul(ns).lemma_neutral();
        Scalar::zero().lemma_neutral();
        Scalar::one().lemma_neutral();
        Scalar::one().spec_neg().lemma_neutral();
    }
    assert(cof.contents[3][3] == d) by {
        lemma_neutral_everywhere();
        reveal(Matrix3x3::spec_determinant);
        c.lemma_neutral();
        s.lemma_neutral();
        ns.lemma_neutral();
        cc.lemma_neutral();
        ss.lemma_neutral();
        d.lemma_neutral();
        ns.spec_mul(s).lemma_neutral();
        s.spec_mul(ns).lemma_neutral();
        Scalar::zero().lemma_neutral();
        Scalar::one().lemma_neutral();
        Scalar::one().spec_neg().lemma_neutral();
    }
    assert(cof.contents[3] =~= [Scalar::zero(), Scalar::zero(), Scalar::zero(), d]);
    assert(m.spec_cofactor(0, 0) == cof.contents[0][0] && m.spec_cofactor(0, 1) == cof.contents[0][1] && m.spec_cofactor(0, 2) == cof.contents[0][2] && m.spec_cofactor(0, 3) == cof.contents[0][3]);
    assert(m.spec_cofactor(1, 0) == cof.contents[1][0] && m.spec_cofactor(1, 1) == cof.contents[1][1] && m.spec_cofactor(1, 2) == cof.contents[1][2] && m.spec_cofactor(1, 3) == cof.contents[1][3]);
    assert(m.spec_cofactor(2, 0) == cof.contents[2][0] && m.spec_cofactor(2, 1) == cof.contents[2][1] && m.spec_cofactor(2, 2) == cof.contents[2][2] && m.spec_cofactor(2, 3) == cof.contents[2][3]);
    assert(m.spec_cofactor(3, 0) == cof.contents[3][0] && m.spec_cofactor(3, 1) == cof.contents[3][1] && m.spec_cofactor(3, 2) == cof.contents[3][2] && m.spec_cofactor(3, 3) == cof.contents[3][3]);
    assert(0 * 0 == 0);
    assert(SCALE * d@ <= 2_000_000_001_000_000_000 && SCALE * d@ >= 476_099_999_000_000_000)
        by (nonlinear_arith)
        requires
            476_099_999 <= d@ <= 2_000_000_001,
            SCALE == 1_000_000_000,
    ;
    assert(m.spec_wide_determinant(0) == w);
    assert(m.spec_wide_determinant(1) == w);
    assert(m.spec_wide_determinant(2) == SCALE * d@);
    assert(m.spec_wide_determinant(3) == SCALE * d@);
    assert(m.spec_divisor(0) == w && m.spec_divisor(1) == w && m.spec_divisor(2) == SCALE * d@ && m.spec_divisor(3) == SCALE * d@);
    lemma_round_div_bounds(w, SCALE as int);
    assert(m.spec_determinant().wf() && m.spec_determinant()@ != 0) by {
        reveal(Matrix4x4::spec_determinant);
    }
    lemma_turn_undone(c@, s@);
    lemma_round_div_odd(s@ * SCALE * SCALE, w);
    assert(ns@ * SCALE * SCALE == -(s@ * SCALE * SCALE)) by (nonlinear_arith)
        requires
            ns@ == -s@,
    ;
    lemma_zero_over(w);
    lemma_zero_over(SCALE * d@);
    lemma_round_div_cancels(SCALE * SCALE, SCALE as int, d@);
    lemma_round_div_multiple(SCALE as int, SCALE as int);
    assert(d@ * SCALE * SCALE == d@ * (SCALE * SCALE) && d@ * SCALE == SCALE * d@)
        by (nonlinear_arith);
    let ec = Scalar { raw: round_div(c@ * SCALE * SCALE, w) as i64 };
    let es = Scalar { raw: round_div(s@ * SCALE * SCALE, w) as i64 };
    let block = spec_block_z(ec, es, es.spec_neg(), ec);
    assert(m.spec_inverse() == block) by {
        reveal(Matrix4x4::spec_inverse);
        let inverse = m.spec_inverse();
        assert(inverse.contents[0] == block.contents[0]);
        assert(inverse.contents[1] == block.contents[1]);
        assert(inverse.contents[2] == block.contents[2]);
        assert(inverse.contents[3] == block.contents[3]);
        assert(inverse.contents =~= block.contents);
    }
}

/// The block of a turn about the z axis has an inverse that undoes it.
pub proof fn lemma_block_z_inverts(c: Scalar, s: Scalar)
    requires
        turning(c, s),
    ensures
        spec_block_z(c, s.spec_neg(), s, c).spec_inverts(),
{
    let ns = s.spec_neg();
    let m = spec_block_z(c, ns, s, c);
    let w = c@ * c@ + s@ * s@;
    lemma_block_z_inverse(c, s);
    lemma_turn_undone(c@, s@);
    let ec = Scalar { raw: round_div(c@ * SCALE * SCALE, w) as i64 };
    let es = Scalar { raw: round_div(s@ * SCALE * SCALE, w) as i64 };
    let nes = es.spec_neg();
    let inverse = spec_block_z(ec, es, nes, ec);
    assert(inverse.wf());
    lemma_round_div_odd(s@ * ec@, SCALE as int);
    lemma_round_div_odd(c@ * es@, SCALE as int);
    assert(ns@ * nes@ == s@ * es@ && ns@ * ec@ == -(s@ * ec@) && c@ * nes@ == -(c@ * es@))
        by (nonlinear_arith)
        requires
            ns@ == -s@,
            nes@ == -es@,
    ;
    let product = m.spec_mul(&inverse);
    let p00 = c.spec_mul(ec).spec_add(ns.spec_mul(nes));
    let p01 = c.spec_mul(es).spec_add(ns.spec_mul(ec));
    let p10 = s.spec_mul(ec).spec_add(c.spec_mul(nes));
    let p11 = s.spec_mul(es).spec_add(c.spec_mul(ec));
    assert(p00.wf() && abs(p00@ - SCALE) <= 2);
    assert(p11.wf() && abs(p11@ - SCALE) <= 2);
    assert(p01.wf() && abs(p01@) <= 2);
    assert(p10.wf() && abs(p10@) <= 2);
    assert(product.contents[0] == [p00, p01, Scalar::zero(), Scalar::zero()]) by {
        reveal(Matrix4x4::spec_mul);
        lemma_neutral_everywhere();
        c.lemma_neutral();
        s.lemma_neutral();
        ns.lemma_neutral();
        ec.lemma_neutral();
        es.lemma_neutral();
        nes.lemma_neutral();
        p00.lemma_neutral();
        p01.lemma_neutral();
        p10.lemma_neutral();
        p11.lemma_neutral();
        c.spec_mul(ec).lemma_neutral();
        ns.spec_mul(nes).lemma_neutral();
        c.spec_mul(es).lemma_neutral();
        ns.spec_mul(ec).lemma_neutral();
        s.spec_mul(ec).lemma_neutral();
        c.spec_mul(nes).lemma_neutral();
        s.spec_mul(es).lemma_neutral();
        Scalar::zero().lemma_neutral();
        Scalar::one().lemma_neutral();
    }
    assert(product.contents[1] == [p10, p11, Scalar::zero(), Scalar::zero()]) by {
        reveal(Matrix4x4::spec_mul);
        lemma_neutral_everywhere();
        c.lemma_neutral();
        s.lemma_neutral();
        ns.lemma_neutral();
        ec.lemma_neutral();
        es.lemma_neutral();
        nes.lemma_neutral();
        p00.lemma_neutral();
        p01.lemma_neutral();
        p10.lemma_neutral();
        p11.lemma_neutral();
        c.spec_mul(ec).lemma_neutral();
        ns.spec_mul(nes).lemma_neutral();
        c.spec_mul(es).lemma_neutral();
        ns.spec_mul(ec).lemma_neutral();
        s.spec_mul(ec).lemma_neutral();
        c.spec_mul(nes).lemma_neutral();
        s.spec_mul(es).lemma_neutral();
        Scalar::zero().lemma_neutral();
        Scalar::one().lemma_neutral();
    }
    assert(product.contents[2] == [Scalar::zero(), Scalar::zero(), Scalar::one(), Scalar::zero()]) by {
        reveal(Matrix4x4::spec_mul);
        lemma_neutral_everywhere();
        c.lemma_neutral();
        s.lemma_neutral();
        ns.lemma_neutral();
        ec.lemma_neutral();
        es.lemma_neutral();
        nes.lemma_neutral();
        p00.lemma_neutral();
        p01.lemma_neutral();
        p10.lemma_neutral();
        p11.lemma_neutral();
        c.spec_mul(ec).lemma_neutral();
        ns.spec_mul(nes).lemma_neutral();
        c.spec_mul(es).lemma_neutral();
        ns.spec_mul(ec).lemma_neutral();
        s.spec_mul(ec).lemma_neutral();
        c.spec_mul(nes).lemma_neutral();
        s.spec_mul(es).lemma_neutral();
        Scalar::zero().lemma_neutral();
        Scalar::one().lemma_neutral();
    }
    assert(product.contents[3] == [Scalar::zero(), Scalar::zero(), Scalar::zero(), Scalar::one()]) by {
        reveal(Matrix4x4::spec_mul);
        lemma_neutral_everywhere();
        c.lemma_neutral();
        s.lemma_neutral();
        ns.lemma_neutral();
        ec.lemma_neutral();
        es.lemma_neutral();
        nes.lemma_neutral();
        p00.lemma_neutral();
        p01.lemma_neutral();
        p10.lemma_neutral();
        p11.lemma_neutral();
        c.spec_mul(ec).lemma_neutral();
        ns.spec_mul(nes).lemma_neutral();
        c.spec_mul(es).lemma_neutral();
        ns.spec_mul(ec).lemma_neutral();
        s.spec_mul(ec).lemma_neutral();
        c.spec_mul(nes).lemma_neutral();
        s.spec_mul(es).lemma_neutral();
        Scalar::zero().lemma_neutral();
        Scalar::one().lemma_neutral();
    }
    assert(product.spec_approx_eq(&crate::matrix::identity4x4()));
}

/// Every turn about the x axis by an angle that is a number has an inverse that undoes it:
/// the rotation times its inverse is the identity up to the tolerance.
pub proof fn lemma_rotation_x_inverts(angle: Scalar)
    requires
        angle.wf(),
    ensures
        new_rotation_x_matrix(angle).spec_inverts(),
{
    lemma_turning(angle);
    lemma_block_x_inverts(angle.spec_cos(), angle.spec_sin());
}

/// Every turn about the y axis by an angle that is a number has an inverse that undoes it.
pub proof fn lemma_rotation_y_inverts(angle: Scalar)
    requires
        angle.wf(),
    ensures
        new_rotation_y_matrix(angle).spec_inverts(),
{
    lemma_turning(angle);
    let c = angle.spec_cos();
    let s = angle.spec_sin();
    let turned = s.spec_neg();
    s.lemma_neutral();
    assert(turned@ * turned@ == s@ * s@) by (nonlinear_arith)
        requires
            turned@ == -s@,
    ;
    lemma_block_y_inverts(c, turned);
}

/// Every turn about the z axis by an angle that is a number has an inverse that undoes it.
pub proof fn lemma_rotation_z_inverts(angle: Scalar)
    requires
        angle.wf(),
    ensures
        new_rotation_z_matrix(angle).spec_inverts(),
{
    lemma_turning(angle);
    lemma_block_z_inverts(angle.spec_cos(), angle.spec_sin());
}

/// Cosine and sine of the angle in the rows and columns of x and y.
pub open spec fn spec_new_rotation_z_matrix(deg_radians: Scalar) -> Matrix4x4 {
    let c = deg_radians.spec_cos();
    let s = deg_radians.spec_sin();
    Matrix4x4 {
        contents: [
            [c, s.spec_neg(), Scalar::zero(), Scalar::zero()],
            [s, c, Scalar::zero(), Scalar::zero()],
            [Scalar::zero(), Scalar::zero(), Scalar::one(), Scalar::zero()],
            [Scalar::zero(), Scalar::zero(), Scalar::zero(), Scalar::one()],
        ],
    }
}

/// Turns about the z axis by an angle in radians.
#[verifier::when_used_as_spec(spec_new_rotation_z_matrix)]
pub fn new_rotation_z_matrix(deg_radians: Scalar) -> (m: Matrix4x4)
    ensures
        m == spec_new_rotation_z_matrix(deg_radians),
{
    let o = Scalar::zero();
    let i = Scalar::one();
    let c = deg_radians.cos();
    let s = deg_radians.sin();
    Matrix4x4 { contents: [[c, s.neg(), o, o], [s, c, o, o], [o, o, i, o], [o, o, o, i]] }
}

/// The identity with the six coefficients off the diagonal of its upper left three by three.
pub open spec fn spec_new_shearing_matrix(
    xy: Scalar,
    xz: Scalar,
    yx: Scalar,
    yz: Scalar,
    zx: Scalar,
    zy: Scalar,
) -> Matrix4x4 {
    Matrix4x4 {
        contents: [
            [Scalar::one(), xy, xz, Scalar::zero()],
            [yx, Scalar::one(), yz, Scalar::zero()],
            [zx, zy, Scalar::one(), Scalar::zero()],
            [Scalar::zero(), Scalar::zero(), Scalar::zero(), Scalar::one()],
        ],
    }
}

/// Moves each coordinate in proportion to the two others: `xy` is how much x grows per unit of
/// y, and so on.
#[verifier::when_used_as_spec(spec_new_shearing_matrix)]
pub fn new_shearing_matrix(
    xy: Scalar,
    xz: Scalar,
    yx: Scalar,
    yz: Scalar,
    zx: Scalar,
    zy: Scalar,
) -> (m: Matrix4x4)
    ensures
        m == spec_new_shearing_matrix(xy, xz, yx, yz, zx, zy),
{
    let o = Scalar::zero();
    let i = Scalar::one();
    Matrix4x4 { contents: [[i, xy, xz, o], [yx, i, yz, o], [zx, zy, i, o], [o, o, o, i]] }
}

/// The orientation of a camera that looks along `forwardv` with `up` roughly above it: rows
/// left, true up, backward, and the unit row.
pub open spec fn spec_orientation(forwardv: Vec3T, up: Vec3T) -> Matrix4x4 {
    let leftv = cross_product(forwardv, up);
    let true_up = cross_product(leftv, forwardv);
    Matrix4x4 {
        contents: [
            [leftv.x, leftv.y, leftv.z, Scalar::zero()],
            [true_up.x, true_up.y, true_up.z, Scalar::zero()],
            [forwardv.x.spec_neg(), forwardv.y.spec_neg(), forwardv.z.spec_neg(), Scalar::zero()],
            [Scalar::zero(), Scalar::zero(), Scalar::zero(), Scalar::one()],
        ],
    }
}

/// The matrix that takes the world into the frame of a camera at `eye_loc` that looks at
/// `point_viewed`: first the eye is moved to the origin, then the axes are turned.
pub open spec fn spec_view_transformation(
    eye_loc: PointT,
    point_viewed: PointT,
    up: Vec3T,
) -> Matrix4x4 {
    let forwardv = point_viewed.spec_sub(eye_loc).spec_normalized();
    spec_orientation(forwardv, up.spec_normalized()).spec_mul(
        &spec_new_translation_matrix(
            eye_loc.x.spec_neg(),
            eye_loc.y.spec_neg(),
            eye_loc.z.spec_neg(),
        ),
    )
}

/// The view does not change when a short up-hint is doubled up to about unit length: only
/// where the hint points tells on the view, not how long it is.
pub proof fn lemma_view_of_lifted_hint(eye_loc: PointT, point_viewed: PointT, up: Vec3T)
    requires
        up.wf(),
    ensures
        spec_view_transformation(eye_loc, point_viewed, up.spec_times(up.spec_lift_factor()))
            == spec_view_transformation(eye_loc, point_viewed, up),
{
    lemma_normalized_of_lifted(up);
}

/// What [`new_view_transformation_matrix`] returns: the view transformation where the tags are
/// right and every entry is a number.
pub open spec fn spec_checked_view_transformation(
    eye_loc: PointT,
    point_viewed: PointT,
    up: Vec3T,
) -> Result<Matrix4x4, Error> {
    if !(eye_loc.is_point() && point_viewed.is_point() && up.is_vector()) {
        Err(Error::Type)
    } else if !spec_view_transformation(eye_loc, point_viewed, up).wf() {
        Err(Error::Range)
    } else {
        Ok(spec_view_transformation(eye_loc, point_viewed, up))
    }
}

/// The view transformation; fails unless `eye_loc` and `point_viewed` are points and `up` is a
/// vector (`Type`), and where an entry is no number, as it is where the eye stands on the point
/// viewed or the hint has no length (`Range`).
pub fn new_view_transformation_matrix(eye_loc: PointT, point_viewed: PointT, up: Vec3T) -> (res:
    Result<Matrix4x4, Error>)
    ensures
        res == spec_checked_view_transformation(eye_loc, point_viewed, up),
{
    if eye_loc.check_type(type_pnt()).is_err() {
        return Err(Error::Type);
    }
    if point_viewed.check_type(type_pnt()).is_err() {
        return Err(Error::Type);
    }
    if up.check_type(type_vec()).is_err() {
        return Err(Error::Type);
    }
    let up = up.normalized();
    let forwardv = (point_viewed - eye_loc).normalized();
    let leftv = cross_product(forwardv, up);
    let up = cross_product(leftv, forwardv);
    let o = Scalar::zero();
    let m = Matrix4x4 {
        contents: [
            [leftv.x, leftv.y, leftv.z, o],
            [up.x, up.y, up.z, o],
            [forwardv.x.neg(), forwardv.y.neg(), forwardv.z.neg(), o],
            [o, o, o, Scalar::one()],
        ],
    };
    let view = m * new_translation_matrix(eye_loc.x.neg(), eye_loc.y.neg(), eye_loc.z.neg());
    if view.is_number() {
        Ok(view)
    } else {
        Err(Error::Range)
    }
}

} // verus!
