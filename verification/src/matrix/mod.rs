//! Square matrices of side two, three and four, row-major.
//!
//! Determinants are cofactor expansions along the first row, down to the closed form of the
//! two-by-two case. The sign of a cofactor is negative exactly where row plus column is odd, in
//! every size.

pub mod transformations;
pub mod turns;

use core::ops::Neg;
use vstd::prelude::*;
use crate::error::Error;
use crate::primatives::Tuple;
use crate::scalar::{
    abs, fit, fx_ratio, lemma_round_div_bounds, lemma_too_wide, ratio, round_div, wide_to_scalar,
    Scalar, SCALE, VOID,
};

verus! {

/// The row or column of the larger matrix that lands at `i` once `removed` is deleted.
pub open spec fn skip(i: int, removed: int) -> int {
    if i < removed {
        i
    } else {
        i + 1
    }
}

/// A minor with the sign of its place: kept where row plus column is even, flipped where odd.
pub open spec fn signed_minor(minor: Scalar, r: int, c: int) -> Scalar {
    if (r + c) % 2 == 0 {
        minor
    } else {
        minor.spec_neg()
    }
}

/// The widest expansion, in squares of raw units, by which cofactors are divided.
pub const WIDEST: i128 = 0x10_0000_0000_0000_0000_0000_0000;

/// The product of two numbers in squares of raw units, exactly.
fn wide_product(a: Scalar, b: Scalar) -> (p: i128)
    requires
        a.wf(),
        b.wf(),
    ensures
        p == a@ * b@,
        -0x3fff_ffff_ffff_ffff_0000_0000_0000_0001 <= p <= 0x3fff_ffff_ffff_ffff_0000_0000_0000_0001,
{
    assert(-0x7fff_ffff_ffff_ffff * 0x7fff_ffff_ffff_ffff <= a.raw * b.raw <= 0x7fff_ffff_ffff_ffff
        * 0x7fff_ffff_ffff_ffff) by (nonlinear_arith)
        requires
            -0x7fff_ffff_ffff_ffff <= a.raw <= 0x7fff_ffff_ffff_ffff,
            -0x7fff_ffff_ffff_ffff <= b.raw <= 0x7fff_ffff_ffff_ffff,
    ;
    a.raw as i128 * b.raw as i128
}

fn skip_index(i: usize, removed: usize) -> (k: usize)
    requires
        i < 3,
    ensures
        k == skip(i as int, removed as int),
{
    if i < removed {
        i
    } else {
        i + 1
    }
}

fn with_sign(minor: Scalar, r: usize, c: usize) -> (s: Scalar)
    requires
        r < 4,
        c < 4,
    ensures
        s == signed_minor(minor, r as int, c as int),
{
    if (r + c) % 2 == 0 {
        minor
    } else {
        minor.neg()
    }
}

/// Two rows of two.
#[derive(Debug, Clone, Copy)]
pub struct Matrix2x2 {
    pub contents: [[Scalar; 2]; 2],
}

/// Three rows of three.
#[derive(Debug, Clone, Copy)]
pub struct Matrix3x3 {
    pub contents: [[Scalar; 3]; 3],
}

/// Four rows of four: the transformations of homogeneous tuples.
#[derive(Debug, Clone, Copy)]
pub struct Matrix4x4 {
    pub contents: [[Scalar; 4]; 4],
}

pub open spec fn spec_new2x2() -> Matrix2x2 {
    Matrix2x2 { contents: [[Scalar::zero(), Scalar::zero()], [Scalar::zero(), Scalar::zero()]] }
}

/// The two-by-two matrix of zeros.
#[verifier::when_used_as_spec(spec_new2x2)]
pub fn new2x2() -> (m: Matrix2x2)
    ensures
        m == spec_new2x2(),
{
    let o = Scalar::zero();
    Matrix2x2 { contents: [[o, o], [o, o]] }
}

pub open spec fn spec_identity2x2() -> Matrix2x2 {
    Matrix2x2 { contents: [[Scalar::one(), Scalar::zero()], [Scalar::zero(), Scalar::one()]] }
}

/// The two-by-two identity.
#[verifier::when_used_as_spec(spec_identity2x2)]
pub fn identity2x2() -> (m: Matrix2x2)
    ensures
        m == spec_identity2x2(),
{
    let o = Scalar::zero();
    let i = Scalar::one();
    Matrix2x2 { contents: [[i, o], [o, i]] }
}

impl Matrix2x2 {
    /// The product of the diagonal minus the product of the other two.
    pub open spec fn spec_determinant(&self) -> Scalar {
        self.contents[0][0].spec_mul(self.contents[1][1]).spec_sub(
            self.contents[0][1].spec_mul(self.contents[1][0]),
        )
    }

    /// Equal up to the tolerance, the bound included, at every place.
    pub open spec fn spec_approx_eq(&self, m1: &Matrix2x2) -> bool {
        forall|r: int, c: int|
            0 <= r < 2 && 0 <= c < 2 ==> (#[trigger] self.contents[r][c]).spec_within_eps(
                m1.contents[r][c],
            )
    }

    /// Row `index`; fails where it lies outside the matrix.
    pub fn row(&self, index: usize) -> (res: Result<[Scalar; 2], Error>)
        ensures
            index < 2 ==> res == Ok::<[Scalar; 2], Error>(self.contents[index as int]),
            index >= 2 ==> res == Err::<[Scalar; 2], Error>(Error::Index),
    {
        if index >= 2 {
            return Err(Error::Index);
        }
        Ok(self.contents[index])
    }

    /// Replaces row `index`; fails, and changes nothing, where it lies outside the matrix.
    pub fn set_row(&mut self, index: usize, row: [Scalar; 2]) -> (res: Result<(), Error>)
        ensures
            index < 2 ==> res is Ok && final(self).contents@ == old(self).contents@.update(
                index as int,
                row,
            ),
            index >= 2 ==> res == Err::<(), Error>(Error::Index) && *final(self) == *old(self),
    {
        if index >= 2 {
            return Err(Error::Index);
        }
        self.contents[index] = row;
        Ok(())
    }

    /// The determinant.
    #[verifier::when_used_as_spec(spec_determinant)]
    pub fn determinant(&self) -> (d: Scalar)
        ensures
            d == self.spec_determinant(),
    {
        self.contents[0][0] * self.contents[1][1] - self.contents[0][1] * self.contents[1][0]
    }

    /// Whether the determinant is other than zero.
    pub fn is_invertable(&self) -> (b: bool)
        ensures
            b <==> self.spec_determinant()@ != 0,
    {
        self.determinant().raw != 0
    }
}

/// The operator `==` is equality up to the tolerance; it computes `self.spec_approx_eq(m1)`.
impl PartialEq for Matrix2x2 {
    fn eq(&self, m1: &Matrix2x2) -> (b: bool)
    {
        let mut row: usize = 0;
        while row < 2
            invariant
                row <= 2,
                forall|r: int, c: int|
                    0 <= r < row && 0 <= c < 2 ==> (#[trigger] self.contents[r][c]).spec_within_eps(
                        m1.contents[r][c],
                    ),
            decreases 2 - row,
        {
            let mut col: usize = 0;
            while col < 2
                invariant
                    row < 2,
                    col <= 2,
                    forall|r: int, c: int|
                        0 <= r < row && 0 <= c < 2 ==> (
                        #[trigger] self.contents[r][c]).spec_within_eps(m1.contents[r][c]),
                    forall|c: int|
                        0 <= c < col ==> (
                        #[trigger] self.contents[row as int][c]).spec_within_eps(
                            m1.contents[row as int][c],
                        ),
                decreases 2 - col,
            {
                if !self.contents[row][col].within_eps(m1.contents[row][col]) {
                    return false;
                }
                col += 1;
            }
            row += 1;
        }
        true
    }
}

impl vstd::std_specs::cmp::PartialEqSpecImpl for Matrix2x2 {
    open spec fn obeys_eq_spec() -> bool {
        true
    }

    open spec fn eq_spec(&self, m1: &Matrix2x2) -> bool {
        self.spec_approx_eq(m1)
    }
}

pub open spec fn spec_new3x3() -> Matrix3x3 {
    Matrix3x3 {
        contents: [
            [Scalar::zero(), Scalar::zero(), Scalar::zero()],
            [Scalar::zero(), Scalar::zero(), Scalar::zero()],
            [Scalar::zero(), Scalar::zero(), Scalar::zero()],
        ],
    }
}

/// The three-by-three matrix of zeros.
#[verifier::when_used_as_spec(spec_new3x3)]
pub fn new3x3() -> (m: Matrix3x3)
    ensures
        m == spec_new3x3(),
{
    let o = Scalar::zero();
    Matrix3x3 { contents: [[o, o, o], [o, o, o], [o, o, o]] }
}

pub open spec fn spec_identity3x3() -> Matrix3x3 {
    Matrix3x3 {
        contents: [
            [Scalar::one(), Scalar::zero(), Scalar::zero()],
            [Scalar::zero(), Scalar::one(), Scalar::zero()],
            [Scalar::zero(), Scalar::zero(), Scalar::one()],
        ],
    }
}

/// The three-by-three identity.
#[verifier::when_used_as_spec(spec_identity3x3)]
pub fn identity3x3() -> (m: Matrix3x3)
    ensures
        m == spec_identity3x3(),
{
    let o = Scalar::zero();
    let i = Scalar::one();
    Matrix3x3 { contents: [[i, o, o], [o, i, o], [o, o, i]] }
}

impl Matrix3x3 {
    /// The matrix without row `r` and column `c`.
    pub open spec fn spec_submatrix(&self, r: int, c: int) -> Matrix2x2 {
        Matrix2x2 {
            contents: [
                [self.contents[skip(0, r)][skip(0, c)], self.contents[skip(0, r)][skip(1, c)]],
                [self.contents[skip(1, r)][skip(0, c)], self.contents[skip(1, r)][skip(1, c)]],
            ],
        }
    }

    /// The determinant of the submatrix at `r`, `c`.
    pub open spec fn spec_minor(&self, r: int, c: int) -> Scalar {
        self.spec_submatrix(r, c).spec_determinant()
    }

    /// The minor at `r`, `c` with the sign of its place.
    pub open spec fn spec_cofactor(&self, r: int, c: int) -> Scalar {
        signed_minor(self.spec_minor(r, c), r, c)
    }

    /// The expansion along the first row: each entry times its cofactor.
    #[verifier::opaque]
    pub open spec fn spec_determinant(&self) -> Scalar {
        self.contents[0][0].spec_mul(self.spec_cofactor(0, 0)).spec_add(
            self.contents[0][1].spec_mul(self.spec_cofactor(0, 1)),
        ).spec_add(self.contents[0][2].spec_mul(self.spec_cofactor(0, 2)))
    }

    /// Equal up to the tolerance, the bound included, at every place.
    pub open spec fn spec_approx_eq(&self, m1: &Matrix3x3) -> bool {
        forall|r: int, c: int|
            0 <= r < 3 && 0 <= c < 3 ==> (#[trigger] self.contents[r][c]).spec_within_eps(
                m1.contents[r][c],
            )
    }

    /// Row `index`; fails where it lies outside the matrix.
    pub fn row(&self, index: usize) -> (res: Result<[Scalar; 3], Error>)
        ensures
            index < 3 ==> res == Ok::<[Scalar; 3], Error>(self.contents[index as int]),
            index >= 3 ==> res == Err::<[Scalar; 3], Error>(Error::Index),
    {
        if index >= 3 {
            return Err(Error::Index);
        }
        Ok(self.contents[index])
    }

    /// Replaces row `index`; fails, and changes nothing, where it lies outside the matrix.
    pub fn set_row(&mut self, index: usize, row: [Scalar; 3]) -> (res: Result<(), Error>)
        ensures
            index < 3 ==> res is Ok && final(self).contents@ == old(self).contents@.update(
                index as int,
                row,
            ),
            index >= 3 ==> res == Err::<(), Error>(Error::Index) && *final(self) == *old(self),
    {
        if index >= 3 {
            return Err(Error::Index);
        }
        self.contents[index] = row;
        Ok(())
    }

    fn kept(&self, i: usize, j: usize, r: usize, c: usize) -> (e: Scalar)
        requires
            i < 2,
            j < 2,
            r < 3,
            c < 3,
        ensures
            e == self.contents[skip(i as int, r as int)][skip(j as int, c as int)],
    {
        self.contents[skip_index(i, r)][skip_index(j, c)]
    }

    fn submatrix_at(&self, r: usize, c: usize) -> (m: Matrix2x2)
        requires
            r < 3,
            c < 3,
        ensures
            m == self.spec_submatrix(r as int, c as int),
    {
        Matrix2x2 {
            contents: [
                [self.kept(0, 0, r, c), self.kept(0, 1, r, c)],
                [self.kept(1, 0, r, c), self.kept(1, 1, r, c)],
            ],
        }
    }

    fn cofactor_at(&self, r: usize, c: usize) -> (s: Scalar)
        requires
            r < 3,
            c < 3,
        ensures
            s == self.spec_cofactor(r as int, c as int),
    {
        with_sign(self.submatrix_at(r, c).determinant(), r, c)
    }

    /// The matrix without row `r` and column `c`; fails where either lies outside the matrix.
    pub fn submatrix(&self, r: usize, c: usize) -> (res: Result<Matrix2x2, Error>)
        ensures
            r < 3 && c < 3 ==> res == Ok::<Matrix2x2, Error>(
                self.spec_submatrix(r as int, c as int),
            ),
            !(r < 3 && c < 3) ==> res == Err::<Matrix2x2, Error>(Error::Index),
    {
        if r >= 3 || c >= 3 {
            return Err(Error::Index);
        }
        Ok(self.submatrix_at(r, c))
    }

    /// The determinant of the submatrix at `r`, `c`.
    pub fn minor(&self, r: usize, c: usize) -> (res: Result<Scalar, Error>)
        ensures
            r < 3 && c < 3 ==> res == Ok::<Scalar, Error>(self.spec_minor(r as int, c as int)),
            !(r < 3 && c < 3) ==> res == Err::<Scalar, Error>(Error::Index),
    {
        if r >= 3 || c >= 3 {
            return Err(Error::Index);
        }
        Ok(self.submatrix_at(r, c).determinant())
    }

    /// The minor at `r`, `c`, negated where `r + c` is odd.
    pub fn cofactor(&self, r: usize, c: usize) -> (res: Result<Scalar, Error>)
        ensures
            r < 3 && c < 3 ==> res == Ok::<Scalar, Error>(self.spec_cofactor(r as int, c as int)),
            !(r < 3 && c < 3) ==> res == Err::<Scalar, Error>(Error::Index),
    {
        if r >= 3 || c >= 3 {
            return Err(Error::Index);
        }
        Ok(self.cofactor_at(r, c))
    }

    /// The determinant, by expansion along the first row.
    #[verifier::when_used_as_spec(spec_determinant)]
    pub fn determinant(&self) -> (d: Scalar)
        ensures
            d == self.spec_determinant(),
    {
        proof {
            reveal(Matrix3x3::spec_determinant);
        }
        self.contents[0][0] * self.cofactor_at(0, 0) + self.contents[0][1] * self.cofactor_at(0, 1)
            + self.contents[0][2] * self.cofactor_at(0, 2)
    }

    /// Whether the determinant is other than zero.
    pub fn is_invertable(&self) -> (b: bool)
        ensures
            b <==> self.spec_determinant()@ != 0,
    {
        self.determinant().raw != 0
    }
}

/// The operator `==` is equality up to the tolerance; it computes `self.spec_approx_eq(m1)`.
impl PartialEq for Matrix3x3 {
    fn eq(&self, m1: &Matrix3x3) -> (b: bool)
    {
        let mut row: usize = 0;
        while row < 3
            invariant
                row <= 3,
                forall|r: int, c: int|
                    0 <= r < row && 0 <= c < 3 ==> (#[trigger] self.contents[r][c]).spec_within_eps(
                        m1.contents[r][c],
                    ),
            decreases 3 - row,
        {
            let mut col: usize = 0;
            while col < 3
                invariant
                    row < 3,
                    col <= 3,
                    forall|r: int, c: int|
                        0 <= r < row && 0 <= c < 3 ==> (
                        #[trigger] self.contents[r][c]).spec_within_eps(m1.contents[r][c]),
                    forall|c: int|
                        0 <= c < col ==> (
                        #[trigger] self.contents[row as int][c]).spec_within_eps(
                            m1.contents[row as int][c],
                        ),
                decreases 3 - col,
            {
                if !self.contents[row][col].within_eps(m1.contents[row][col]) {
                    return false;
                }
                col += 1;
            }
            row += 1;
        }
        true
    }
}

impl vstd::std_specs::cmp::PartialEqSpecImpl for Matrix3x3 {
    open spec fn obeys_eq_spec() -> bool {
        true
    }

    open spec fn eq_spec(&self, m1: &Matrix3x3) -> bool {
        self.spec_approx_eq(m1)
    }
}

/// Two matrices with the same entries are the same matrix.
pub proof fn lemma_rows_decide(a: Matrix4x4, b: Matrix4x4)
    requires
        forall|r: int, c: int|
            0 <= r < 4 && 0 <= c < 4 ==> #[trigger] a.contents[r][c] == b.contents[r][c],
    ensures
        a == b,
{
    assert forall|r: int| 0 <= r < 4 implies a.contents[r] == b.contents[r] by {
        assert(a.contents[r][0] == b.contents[r][0]);
        assert(a.contents[r][1] == b.contents[r][1]);
        assert(a.contents[r][2] == b.contents[r][2]);
        assert(a.contents[r][3] == b.contents[r][3]);
        assert(a.contents[r] =~= b.contents[r]);
    }
    assert(a.contents =~= b.contents);
}

pub open spec fn spec_new4x4() -> Matrix4x4 {
    Matrix4x4 {
        contents: [
            [Scalar::zero(), Scalar::zero(), Scalar::zero(), Scalar::zero()],
            [Scalar::zero(), Scalar::zero(), Scalar::zero(), Scalar::zero()],
            [Scalar::zero(), Scalar::zero(), Scalar::zero(), Scalar::zero()],
            [Scalar::zero(), Scalar::zero(), Scalar::zero(), Scalar::zero()],
        ],
    }
}

/// The four-by-four matrix of zeros.
#[verifier::when_used_as_spec(spec_new4x4)]
pub fn new4x4() -> (m: Matrix4x4)
    ensures
        m == spec_new4x4(),
{
    let o = Scalar::zero();
    Matrix4x4 { contents: [[o, o, o, o], [o, o, o, o], [o, o, o, o], [o, o, o, o]] }
}

pub open spec fn spec_identity4x4() -> Matrix4x4 {
    Matrix4x4 {
        contents: [
            [Scalar::one(), Scalar::zero(), Scalar::zero(), Scalar::zero()],
            [Scalar::zero(), Scalar::one(), Scalar::zero(), Scalar::zero()],
            [Scalar::zero(), Scalar::zero(), Scalar::one(), Scalar::zero()],
            [Scalar::zero(), Scalar::zero(), Scalar::zero(), Scalar::one()],
        ],
    }
}

/// The four-by-four identity.
#[verifier::when_used_as_spec(spec_identity4x4)]
pub fn identity4x4() -> (m: Matrix4x4)
    ensures
        m == spec_identity4x4(),
{
    let o = Scalar::zero();
    let i = Scalar::one();
    Matrix4x4 { contents: [[i, o, o, o], [o, i, o, o], [o, o, i, o], [o, o, o, i]] }
}

impl Matrix4x4 {
    /// Column `c`, top to bottom.
    pub open spec fn spec_col(&self, c: int) -> [Scalar; 4] {
        [self.contents[0][c], self.contents[1][c], self.contents[2][c], self.contents[3][c]]
    }

    /// Every column read as a row.
    pub open spec fn spec_transposed(&self) -> Matrix4x4 {
        Matrix4x4 {
            contents: [self.spec_col(0), self.spec_col(1), self.spec_col(2), self.spec_col(3)],
        }
    }

    /// Row `i` of the matrix without row `r` and column `c`.
    pub open spec fn spec_submatrix_row(&self, i: int, r: int, c: int) -> [Scalar; 3] {
        [
            self.contents[skip(i, r)][skip(0, c)],
            self.contents[skip(i, r)][skip(1, c)],
            self.contents[skip(i, r)][skip(2, c)],
        ]
    }

    /// The matrix without row `r` and column `c`.
    pub open spec fn spec_submatrix(&self, r: int, c: int) -> Matrix3x3 {
        Matrix3x3 {
            contents: [
                self.spec_submatrix_row(0, r, c),
                self.spec_submatrix_row(1, r, c),
                self.spec_submatrix_row(2, r, c),
            ],
        }
    }

    /// The determinant of the submatrix at `r`, `c`.
    pub open spec fn spec_minor(&self, r: int, c: int) -> Scalar {
        self.spec_submatrix(r, c).spec_determinant()
    }

    /// The minor at `r`, `c` with the sign of its place.
    pub open spec fn spec_cofactor(&self, r: int, c: int) -> Scalar {
        signed_minor(self.spec_minor(r, c), r, c)
    }

    /// Row `r` and its four cofactors are numbers.
    pub open spec fn spec_expands(&self, r: int) -> bool {
        &&& self.contents[r][0].wf() && self.spec_cofactor(r, 0).wf()
        &&& self.contents[r][1].wf() && self.spec_cofactor(r, 1).wf()
        &&& self.contents[r][2].wf() && self.spec_cofactor(r, 2).wf()
        &&& self.contents[r][3].wf() && self.spec_cofactor(r, 3).wf()
    }

    /// The expansion along row `r` in squares of raw units: each entry times its cofactor,
    /// nothing rounded.
    pub open spec fn spec_wide_determinant(&self, r: int) -> int {
        self.contents[r][0]@ * self.spec_cofactor(r, 0)@ + self.contents[r][1]@
            * self.spec_cofactor(r, 1)@ + self.contents[r][2]@ * self.spec_cofactor(r, 2)@
            + self.contents[r][3]@ * self.spec_cofactor(r, 3)@
    }

    /// What the cofactors of row `r` are divided by: the expansion along that row, or zero
    /// where it cannot be had or is wider than `WIDEST`.
    pub open spec fn spec_divisor(&self, r: int) -> int {
        if self.spec_expands(r) && abs(self.spec_wide_determinant(r)) <= WIDEST {
            self.spec_wide_determinant(r)
        } else {
            0
        }
    }

    /// The determinant: the expansion along the first row, each entry times its cofactor, the
    /// four products added up exactly and their sum rounded once.
    #[verifier::opaque]
    pub open spec fn spec_determinant(&self) -> Scalar {
        if self.spec_expands(0) {
            Scalar { raw: fit(round_div(self.spec_wide_determinant(0), SCALE as int)) as i64 }
        } else {
            Scalar { raw: VOID }
        }
    }

    /// Row `r` of the matrix of cofactors.
    pub open spec fn spec_cofactor_row(&self, r: int) -> [Scalar; 4] {
        [
            self.spec_cofactor(r, 0),
            self.spec_cofactor(r, 1),
            self.spec_cofactor(r, 2),
            self.spec_cofactor(r, 3),
        ]
    }

    /// The matrix that holds, at every place, the cofactor at that place.
    pub open spec fn spec_matrix_of_cofactors(&self) -> Matrix4x4 {
        Matrix4x4 {
            contents: [
                self.spec_cofactor_row(0),
                self.spec_cofactor_row(1),
                self.spec_cofactor_row(2),
                self.spec_cofactor_row(3),
            ],
        }
    }

    /// Row `i` of the inverse: the cofactors of column `i`, each over the determinant. The
    /// determinant is taken before it is rounded, and for the cofactor of each row as the
    /// expansion along that very row: so each entry is rounded once, and what cancels in the
    /// quotient cancels exactly.
    pub open spec fn spec_inverse_row(&self, i: int) -> [Scalar; 4] {
        [
            Scalar { raw: fx_ratio(self.spec_cofactor(0, i)@, self.spec_divisor(0)) as i64 },
            Scalar { raw: fx_ratio(self.spec_cofactor(1, i)@, self.spec_divisor(1)) as i64 },
            Scalar { raw: fx_ratio(self.spec_cofactor(2, i)@, self.spec_divisor(2)) as i64 },
            Scalar { raw: fx_ratio(self.spec_cofactor(3, i)@, self.spec_divisor(3)) as i64 },
        ]
    }

    /// The transposed matrix of cofactors over the determinant.
    #[verifier::opaque]
    pub open spec fn spec_inverse(&self) -> Matrix4x4 {
        Matrix4x4 {
            contents: [
                self.spec_inverse_row(0),
                self.spec_inverse_row(1),
                self.spec_inverse_row(2),
                self.spec_inverse_row(3),
            ],
        }
    }

    /// Row `r` of `self` against column `c` of `m1`.
    pub open spec fn spec_cell_product(&self, m1: &Matrix4x4, r: int, c: int) -> Scalar {
        self.contents[r][0].spec_mul(m1.contents[0][c]).spec_add(
            self.contents[r][1].spec_mul(m1.contents[1][c]),
        ).spec_add(self.contents[r][2].spec_mul(m1.contents[2][c])).spec_add(
            self.contents[r][3].spec_mul(m1.contents[3][c]),
        )
    }

    /// Row `r` of the product `self * m1`.
    pub open spec fn spec_row_product(&self, m1: &Matrix4x4, r: int) -> [Scalar; 4] {
        [
            self.spec_cell_product(m1, r, 0),
            self.spec_cell_product(m1, r, 1),
            self.spec_cell_product(m1, r, 2),
            self.spec_cell_product(m1, r, 3),
        ]
    }

    /// The matrix product `self * m1`.
    #[verifier::opaque]
    pub open spec fn spec_mul(&self, m1: &Matrix4x4) -> Matrix4x4 {
        Matrix4x4 {
            contents: [
                self.spec_row_product(m1, 0),
                self.spec_row_product(m1, 1),
                self.spec_row_product(m1, 2),
                self.spec_row_product(m1, 3),
            ],
        }
    }

    /// Row `r` against the four components of `t1`.
    pub open spec fn spec_row_dot(&self, r: int, t1: Tuple) -> Scalar {
        self.contents[r][0].spec_mul(t1.x).spec_add(self.contents[r][1].spec_mul(t1.y)).spec_add(
            self.contents[r][2].spec_mul(t1.z),
        ).spec_add(self.contents[r][3].spec_mul(t1.w))
    }

    /// The matrix applied to a tuple.
    #[verifier::opaque]
    pub open spec fn spec_mul_tuple(&self, t1: Tuple) -> Tuple {
        Tuple {
            x: self.spec_row_dot(0, t1),
            y: self.spec_row_dot(1, t1),
            z: self.spec_row_dot(2, t1),
            w: self.spec_row_dot(3, t1),
        }
    }

    /// Equal up to the tolerance, the bound included, at every place.
    pub open spec fn spec_approx_eq(&self, m1: &Matrix4x4) -> bool {
        forall|r: int, c: int|
            0 <= r < 4 && 0 <= c < 4 ==> (#[trigger] self.contents[r][c]).spec_within_eps(
                m1.contents[r][c],
            )
    }

    /// Row `index`; fails where it lies outside the matrix.
    pub fn row(&self, index: usize) -> (res: Result<[Scalar; 4], Error>)
        ensures
            index < 4 ==> res == Ok::<[Scalar; 4], Error>(self.contents[index as int]),
            index >= 4 ==> res == Err::<[Scalar; 4], Error>(Error::Index),
    {
        if index >= 4 {
            return Err(Error::Index);
        }
        Ok(self.contents[index])
    }

    /// Replaces row `index`; fails, and changes nothing, where it lies outside the matrix.
    pub fn set_row(&mut self, index: usize, row: [Scalar; 4]) -> (res: Result<(), Error>)
        ensures
            index < 4 ==> res is Ok && final(self).contents@ == old(self).contents@.update(
                index as int,
                row,
            ),
            index >= 4 ==> res == Err::<(), Error>(Error::Index) && *final(self) == *old(self),
    {
        if index >= 4 {
            return Err(Error::Index);
        }
        self.contents[index] = row;
        Ok(())
    }

    /// Every entry is a number.
    pub open spec fn wf(&self) -> bool {
        forall|r: int, c: int| 0 <= r < 4 && 0 <= c < 4 ==> (#[trigger] self.contents[r][c]).wf()
    }

    /// The identity is neutral: it leaves tuples and matrices as they are.
    pub proof fn lemma_identity_is_neutral(&self, t1: Tuple)
        requires
            self.wf(),
            t1.wf(),
        ensures
            identity4x4().spec_mul_tuple(t1) == t1,
            self.spec_mul(&identity4x4()) == *self,
            identity4x4().spec_mul(self) == *self,
    {
        reveal(Matrix4x4::spec_mul_tuple);
        reveal(Matrix4x4::spec_mul);
        t1.x.lemma_neutral();
        t1.y.lemma_neutral();
        t1.z.lemma_neutral();
        t1.w.lemma_neutral();
        Scalar::zero().lemma_neutral();
        assert forall|r: int, c: int| 0 <= r < 4 && 0 <= c < 4 implies #[trigger] self.spec_mul(
            &identity4x4(),
        ).contents[r][c] == self.contents[r][c] && identity4x4().spec_mul(self).contents[r][c]
            == self.contents[r][c] by {
            self.contents[r][0].lemma_neutral();
            self.contents[r][1].lemma_neutral();
            self.contents[r][2].lemma_neutral();
            self.contents[r][3].lemma_neutral();
            self.contents[0][c].lemma_neutral();
            self.contents[1][c].lemma_neutral();
            self.contents[2][c].lemma_neutral();
            self.contents[3][c].lemma_neutral();
        }
        lemma_rows_decide(self.spec_mul(&identity4x4()), *self);
        lemma_rows_decide(identity4x4().spec_mul(self), *self);
    }

    fn col_at(&self, c: usize) -> (col: [Scalar; 4])
        requires
            c < 4,
        ensures
            col == self.spec_col(c as int),
    {
        [self.contents[0][c], self.contents[1][c], self.contents[2][c], self.contents[3][c]]
    }

    /// Column `iter`, top to bottom; fails where it lies outside the matrix.
    pub fn get_col(&self, iter: usize) -> (res: Result<[Scalar; 4], Error>)
        ensures
            iter < 4 ==> res == Ok::<[Scalar; 4], Error>(self.spec_col(iter as int)),
            iter >= 4 ==> res == Err::<[Scalar; 4], Error>(Error::Index),
    {
        if iter >= 4 {
            return Err(Error::Index);
        }
        Ok(self.col_at(iter))
    }

    /// The matrix with rows and columns swapped.
    #[verifier::when_used_as_spec(spec_transposed)]
    pub fn transposed(&self) -> (m: Matrix4x4)
        ensures
            m == self.spec_transposed(),
    {
        Matrix4x4 { contents: [self.col_at(0), self.col_at(1), self.col_at(2), self.col_at(3)] }
    }

    fn submatrix_row(&self, i: usize, r: usize, c: usize) -> (row: [Scalar; 3])
        requires
            i < 3,
            r < 4,
            c < 4,
        ensures
            row == self.spec_submatrix_row(i as int, r as int, c as int),
    {
        let k: usize = skip_index(i, r);
        [
            self.contents[k][skip_index(0, c)],
            self.contents[k][skip_index(1, c)],
            self.contents[k][skip_index(2, c)],
        ]
    }

    fn submatrix_at(&self, r: usize, c: usize) -> (m: Matrix3x3)
        requires
            r < 4,
            c < 4,
        ensures
            m == self.spec_submatrix(r as int, c as int),
    {
        Matrix3x3 {
            contents: [
                self.submatrix_row(0, r, c),
                self.submatrix_row(1, r, c),
                self.submatrix_row(2, r, c),
            ],
        }
    }

    fn cofactor_at(&self, r: usize, c: usize) -> (s: Scalar)
        requires
            r < 4,
            c < 4,
        ensures
            s == self.spec_cofactor(r as int, c as int),
    {
        with_sign(self.submatrix_at(r, c).determinant(), r, c)
    }

    fn cofactor_row(&self, r: usize) -> (row: [Scalar; 4])
        requires
            r < 4,
        ensures
            row == self.spec_cofactor_row(r as int),
    {
        [
            self.cofactor_at(r, 0),
            self.cofactor_at(r, 1),
            self.cofactor_at(r, 2),
            self.cofactor_at(r, 3),
        ]
    }

    /// The expansion along row `r` in squares of raw units; nothing where an entry or a
    /// cofactor is no number, or where the sum is too wide for the machine.
    fn wide_determinant(&self, r: usize) -> (w: Option<i128>)
        requires
            r < 4,
        ensures
            match w {
                Some(v) => self.spec_expands(r as int) && v == self.spec_wide_determinant(
                    r as int,
                ),
                None => !self.spec_expands(r as int) || abs(self.spec_wide_determinant(r as int))
                    > 0x7fff_ffff_ffff_ffff_ffff_ffff_ffff_ffff,
            },
    {
        let e0 = self.contents[r][0];
        let e1 = self.contents[r][1];
        let e2 = self.contents[r][2];
        let e3 = self.contents[r][3];
        let c0 = self.cofactor_at(r, 0);
        let c1 = self.cofactor_at(r, 1);
        let c2 = self.cofactor_at(r, 2);
        let c3 = self.cofactor_at(r, 3);
        if !(e0.is_number() && c0.is_number() && e1.is_number() && c1.is_number()
            && e2.is_number() && c2.is_number() && e3.is_number() && c3.is_number()) {
            return None;
        }
        let p0: i128 = wide_product(e0, c0);
        let p1: i128 = wide_product(e1, c1);
        let p2: i128 = wide_product(e2, c2);
        let p3: i128 = wide_product(e3, c3);
        let front: i128 = p0 + p1;
        let back: i128 = p2 + p3;
        if (back > 0 && front > 0x7fff_ffff_ffff_ffff_ffff_ffff_ffff_ffffi128 - back) || (back < 0
            && front < -0x7fff_ffff_ffff_ffff_ffff_ffff_ffff_ffffi128 - back) {
            return None;
        }
        Some(front + back)
    }

    /// What the cofactors of row `r` are divided by.
    fn divisor(&self, r: usize) -> (d: i128)
        requires
            r < 4,
        ensures
            d == self.spec_divisor(r as int),
            -WIDEST <= d <= WIDEST,
    {
        match self.wide_determinant(r) {
            Some(w) => if -0x10_0000_0000_0000_0000_0000_0000i128 <= w && w
                <= 0x10_0000_0000_0000_0000_0000_0000i128 {
                w
            } else {
                0
            },
            None => 0,
        }
    }

    fn inverse_row(&self, i: usize, d0: i128, d1: i128, d2: i128, d3: i128) -> (row: [Scalar; 4])
        requires
            i < 4,
            d0 == self.spec_divisor(0),
            d1 == self.spec_divisor(1),
            d2 == self.spec_divisor(2),
            d3 == self.spec_divisor(3),
            -WIDEST <= d0 <= WIDEST,
            -WIDEST <= d1 <= WIDEST,
            -WIDEST <= d2 <= WIDEST,
            -WIDEST <= d3 <= WIDEST,
        ensures
            row == self.spec_inverse_row(i as int),
    {
        [
            ratio(self.cofactor_at(0, i), d0),
            ratio(self.cofactor_at(1, i), d1),
            ratio(self.cofactor_at(2, i), d2),
            ratio(self.cofactor_at(3, i), d3),
        ]
    }

    fn cell_product(&self, m1: &Matrix4x4, r: usize, c: usize) -> (s: Scalar)
        requires
            r < 4,
            c < 4,
        ensures
            s == self.spec_cell_product(m1, r as int, c as int),
    {
        self.contents[r][0] * m1.contents[0][c] + self.contents[r][1] * m1.contents[1][c]
            + self.contents[r][2] * m1.contents[2][c] + self.contents[r][3] * m1.contents[3][c]
    }

    fn row_product(&self, m1: &Matrix4x4, r: usize) -> (row: [Scalar; 4])
        requires
            r < 4,
        ensures
            row == self.spec_row_product(m1, r as int),
    {
        [
            self.cell_product(m1, r, 0),
            self.cell_product(m1, r, 1),
            self.cell_product(m1, r, 2),
            self.cell_product(m1, r, 3),
        ]
    }

    fn row_dot(&self, r: usize, t1: Tuple) -> (s: Scalar)
        requires
            r < 4,
        ensures
            s == self.spec_row_dot(r as int, t1),
    {
        self.contents[r][0] * t1.x + self.contents[r][1] * t1.y + self.contents[r][2] * t1.z
            + self.contents[r][3] * t1.w
    }

    /// The matrix without row `r` and column `c`; fails where either lies outside the matrix.
    pub fn submatrix(&self, r: usize, c: usize) -> (res: Result<Matrix3x3, Error>)
        ensures
            r < 4 && c < 4 ==> res == Ok::<Matrix3x3, Error>(
                self.spec_submatrix(r as int, c as int),
            ),
            !(r < 4 && c < 4) ==> res == Err::<Matrix3x3, Error>(Error::Index),
    {
        if r >= 4 || c >= 4 {
            return Err(Error::Index);
        }
        Ok(self.submatrix_at(r, c))
    }

    /// The determinant of the submatrix at `r`, `c`.
    pub fn minor(&self, r: usize, c: usize) -> (res: Result<Scalar, Error>)
        ensures
            r < 4 && c < 4 ==> res == Ok::<Scalar, Error>(self.spec_minor(r as int, c as int)),
            !(r < 4 && c < 4) ==> res == Err::<Scalar, Error>(Error::Index),
    {
        if r >= 4 || c >= 4 {
            return Err(Error::Index);
        }
        Ok(self.submatrix_at(r, c).determinant())
    }

    /// The minor at `r`, `c`, negated where `r + c` is odd.
    pub fn cofactor(&self, r: usize, c: usize) -> (res: Result<Scalar, Error>)
        ensures
            r < 4 && c < 4 ==> res == Ok::<Scalar, Error>(self.spec_cofactor(r as int, c as int)),
            !(r < 4 && c < 4) ==> res == Err::<Scalar, Error>(Error::Index),
    {
        if r >= 4 || c >= 4 {
            return Err(Error::Index);
        }
        Ok(self.cofactor_at(r, c))
    }

    /// The determinant, by expansion along the first row.
    #[verifier::when_used_as_spec(spec_determinant)]
    pub fn determinant(&self) -> (d: Scalar)
        ensures
            d == self.spec_determinant(),
    {
        proof {
            reveal(Matrix4x4::spec_determinant);
        }
        match self.wide_determinant(0) {
            Some(wide) => wide_to_scalar(wide),
            None => {
                proof {
                    if self.spec_expands(0) {
                        lemma_too_wide(self.spec_wide_determinant(0));
                    }
                }
                Scalar { raw: VOID }
            },
        }
    }

    /// Whether the determinant is other than zero.
    pub fn is_invertable(&self) -> (b: bool)
        ensures
            b <==> self.spec_determinant()@ != 0,
    {
        self.determinant().raw != 0
    }

    /// The matrix that holds, at every place, the cofactor at that place.
    #[verifier::when_used_as_spec(spec_matrix_of_cofactors)]
    pub fn matrix_of_cofactors(&self) -> (m: Matrix4x4)
        ensures
            m == self.spec_matrix_of_cofactors(),
    {
        Matrix4x4 {
            contents: [
                self.cofactor_row(0),
                self.cofactor_row(1),
                self.cofactor_row(2),
                self.cofactor_row(3),
            ],
        }
    }

    /// What [`Matrix4x4::inverse`] returns: the transposed matrix of cofactors over the
    /// determinant, unless the determinant is zero, or the determinant or an entry of the result
    /// is no number.
    pub open spec fn spec_checked_inverse(&self) -> Result<Matrix4x4, Error> {
        if !self.spec_determinant().wf() {
            Err(Error::Range)
        } else if self.spec_determinant()@ == 0 {
            Err(Error::SingularMatrix)
        } else if !self.spec_inverse().wf() {
            Err(Error::Range)
        } else {
            Ok(self.spec_inverse())
        }
    }

    /// The matrix has an inverse, and times its inverse it is the identity up to the
    /// tolerance. Rounding keeps a matrix that is scaled very badly from this.
    pub open spec fn spec_inverts(&self) -> bool {
        &&& self.spec_checked_inverse() is Ok
        &&& self.spec_mul(&self.spec_inverse()).spec_approx_eq(&identity4x4())
    }

    /// Whether the matrix has an inverse that undoes it up to the tolerance.
    #[verifier::when_used_as_spec(spec_inverts)]
    pub fn inverts(&self) -> (b: bool)
        ensures
            b == self.spec_inverts(),
    {
        match self.inverse() {
            Ok(inverse) => self.times(&inverse) == identity4x4(),
            Err(_) => false,
        }
    }

    fn row_is_number(&self, r: usize) -> (b: bool)
        requires
            r < 4,
        ensures
            b == (forall|c: int| 0 <= c < 4 ==> (#[trigger] self.contents[r as int][c]).wf()),
    {
        self.contents[r][0].is_number() && self.contents[r][1].is_number()
            && self.contents[r][2].is_number() && self.contents[r][3].is_number()
    }

    /// Whether every entry is a number.
    #[verifier::when_used_as_spec(wf)]
    pub fn is_number(&self) -> (b: bool)
        ensures
            b == self.wf(),
    {
        self.row_is_number(0) && self.row_is_number(1) && self.row_is_number(2)
            && self.row_is_number(3)
    }

    /// The inverse. Fails where the determinant is zero (`SingularMatrix`), and where the
    /// determinant or an entry of the inverse is no number (`Range`).
    pub fn inverse(&self) -> (res: Result<Matrix4x4, Error>)
        ensures
            res == self.spec_checked_inverse(),
    {
        let d = self.determinant();
        if !d.is_number() {
            return Err(Error::Range);
        }
        if d.raw == 0 {
            return Err(Error::SingularMatrix);
        }
        proof {
            reveal(Matrix4x4::spec_inverse);
        }
        let d0 = self.divisor(0);
        let d1 = self.divisor(1);
        let d2 = self.divisor(2);
        let d3 = self.divisor(3);
        let candidate = Matrix4x4 {
            contents: [
                self.inverse_row(0, d0, d1, d2, d3),
                self.inverse_row(1, d0, d1, d2, d3),
                self.inverse_row(2, d0, d1, d2, d3),
                self.inverse_row(3, d0, d1, d2, d3),
            ],
        };
        if !candidate.is_number() {
            return Err(Error::Range);
        }
        Ok(candidate)
    }

    fn times(&self, m1: &Matrix4x4) -> (m: Matrix4x4)
        ensures
            m == self.spec_mul(m1),
    {
        proof {
            reveal(Matrix4x4::spec_mul);
        }
        Matrix4x4 {
            contents: [
                self.row_product(m1, 0),
                self.row_product(m1, 1),
                self.row_product(m1, 2),
                self.row_product(m1, 3),
            ],
        }
    }

    fn apply(&self, t1: Tuple) -> (t: Tuple)
        ensures
            t == self.spec_mul_tuple(t1),
    {
        proof {
            reveal(Matrix4x4::spec_mul_tuple);
        }
        Tuple {
            x: self.row_dot(0, t1),
            y: self.row_dot(1, t1),
            z: self.row_dot(2, t1),
            w: self.row_dot(3, t1),
        }
    }
}

/// The operator `*`; it computes `Matrix4x4::spec_mul(&self, &m1)`.
impl core::ops::Mul<Matrix4x4> for Matrix4x4 {
    type Output = Matrix4x4;

    fn mul(self, m1: Matrix4x4) -> (m: Matrix4x4)
    {
        self.times(&m1)
    }
}

impl vstd::std_specs::ops::MulSpecImpl<Matrix4x4> for Matrix4x4 {
    open spec fn obeys_mul_spec() -> bool {
        true
    }

    open spec fn mul_req(self, m1: Matrix4x4) -> bool {
        true
    }

    open spec fn mul_spec(self, m1: Matrix4x4) -> Matrix4x4 {
        Matrix4x4::spec_mul(&self, &m1)
    }
}

/// The operator `*`; it computes `self.spec_mul_tuple(t1)`.
impl core::ops::Mul<Tuple> for Matrix4x4 {
    type Output = Tuple;

    fn mul(self, t1: Tuple) -> (t: Tuple)
    {
        self.apply(t1)
    }
}

impl vstd::std_specs::ops::MulSpecImpl<Tuple> for Matrix4x4 {
    open spec fn obeys_mul_spec() -> bool {
        true
    }

    open spec fn mul_req(self, t1: Tuple) -> bool {
        true
    }

    open spec fn mul_spec(self, t1: Tuple) -> Tuple {
        self.spec_mul_tuple(t1)
    }
}

/// The operator `*`; it computes `self.spec_mul_tuple(t1)`.
impl core::ops::Mul<Tuple> for &Matrix4x4 {
    type Output = Tuple;

    fn mul(self, t1: Tuple) -> (t: Tuple)
    {
        self.apply(t1)
    }
}

impl vstd::std_specs::ops::MulSpecImpl<Tuple> for &Matrix4x4 {
    open spec fn obeys_mul_spec() -> bool {
        true
    }

    open spec fn mul_req(self, t1: Tuple) -> bool {
        true
    }

    open spec fn mul_spec(self, t1: Tuple) -> Tuple {
        self.spec_mul_tuple(t1)
    }
}

/// The operator `==` is equality up to the tolerance; it computes `self.spec_approx_eq(m1)`.
impl PartialEq for Matrix4x4 {
    fn eq(&self, m1: &Matrix4x4) -> (b: bool)
    {
        let mut row: usize = 0;
        while row < 4
            invariant
                row <= 4,
                forall|r: int, c: int|
                    0 <= r < row && 0 <= c < 4 ==> (#[trigger] self.contents[r][c]).spec_within_eps(
                        m1.contents[r][c],
                    ),
            decreases 4 - row,
        {
            let mut col: usize = 0;
            while col < 4
                invariant
                    row < 4,
                    col <= 4,
                    forall|r: int, c: int|
                        0 <= r < row && 0 <= c < 4 ==> (
                        #[trigger] self.contents[r][c]).spec_within_eps(m1.contents[r][c]),
                    forall|c: int|
                        0 <= c < col ==> (
                        #[trigger] self.contents[row as int][c]).spec_within_eps(
                            m1.contents[row as int][c],
                        ),
                decreases 4 - col,
            {
                if !self.contents[row][col].within_eps(m1.contents[row][col]) {
                    return false;
                }
                col += 1;
            }
            row += 1;
        }
        true
    }
}

impl vstd::std_specs::cmp::PartialEqSpecImpl for Matrix4x4 {
    open spec fn obeys_eq_spec() -> bool {
        true
    }

    open spec fn eq_spec(&self, m1: &Matrix4x4) -> bool {
        self.spec_approx_eq(m1)
    }
}

} // verus!
