//! Fixed-point real numbers.
//!
//! A [`Scalar`] counts billionths in a signed 64-bit integer. A result that falls between two
//! raw values is rounded to the nearer, a half away from zero. A result that leaves the range, a
//! quotient by zero and the root of a negative value are no numbers: they are the one raw value
//! [`VOID`], and whatever is computed from it is [`VOID`] again, so that no result is ever
//! quietly wrong for having left the range on the way.
//! The `fx_*` functions give the arithmetic on raw counts as plain integer mathematics; the
//! executable operators are proved to compute exactly those.

use vstd::arithmetic::div_mod::lemma_fundamental_div_mod_converse;
use vstd::prelude::*;

verus! {

/// Raw units per whole.
pub const SCALE: i64 = 1_000_000_000;

/// Largest magnitude a scalar holds, in raw units. The range is symmetric, so negation is exact.
pub const LIMIT: i64 = 0x7fff_ffff_ffff_ffff;

/// The raw value of a scalar that is no number.
pub const VOID: i64 = -0x7fff_ffff_ffff_ffff - 1;

/// Two values closer than this many raw units (one ten-thousandth) count as equal.
pub const EPSILON: i64 = 100_000;

/// The magnitude of an integer.
pub open spec fn abs(v: int) -> int {
    if v < 0 {
        -v
    } else {
        v
    }
}

/// An exact raw value as a scalar holds it: itself within the range, else no number.
pub open spec fn fit(v: int) -> int {
    if -(LIMIT as int) <= v <= LIMIT as int {
        v
    } else {
        VOID as int
    }
}

/// Quotient rounded to the nearest integer, a half away from zero, so that negating the
/// dividend negates the quotient. Zero when the divisor is zero.
#[verifier::opaque]
pub open spec fn round_div(n: int, d: int) -> int {
    if d == 0 {
        0
    } else if (n >= 0) == (d > 0) {
        (2 * abs(n) + abs(d)) / (2 * abs(d))
    } else {
        -((2 * abs(n) + abs(d)) / (2 * abs(d)))
    }
}

/// The sum of two raw values.
pub open spec fn fx_add(a: int, b: int) -> int {
    if a == VOID || b == VOID {
        VOID as int
    } else {
        fit(a + b)
    }
}

/// The difference of two raw values.
pub open spec fn fx_sub(a: int, b: int) -> int {
    if a == VOID || b == VOID {
        VOID as int
    } else {
        fit(a - b)
    }
}

/// A raw value negated.
pub open spec fn fx_neg(a: int) -> int {
    if a == VOID {
        VOID as int
    } else {
        fit(-a)
    }
}

/// The product of two raw values, rounded to a raw unit.
pub open spec fn fx_mul(a: int, b: int) -> int {
    if a == VOID || b == VOID {
        VOID as int
    } else {
        fit(round_div(a * b, SCALE as int))
    }
}

/// The quotient of two raw values, rounded to a raw unit; no number where the divisor is zero.
pub open spec fn fx_div(a: int, b: int) -> int {
    if a == VOID || b == VOID || b == 0 {
        VOID as int
    } else {
        fit(round_div(a * SCALE, b))
    }
}

/// A raw value times a whole number.
pub open spec fn fx_times(a: int, f: int) -> int {
    if a == VOID {
        VOID as int
    } else {
        fit(a * f)
    }
}

/// `r` is the integer square root of `n`.
pub open spec fn is_isqrt(n: int, r: int) -> bool {
    0 <= r && r * r <= n < (r + 1) * (r + 1)
}

/// The integer square root: the largest `r` with `r * r <= n`; zero for a negative `n`.
pub open spec fn isqrt(n: int) -> int {
    if n < 0 {
        0
    } else {
        choose|r: int| is_isqrt(n, r)
    }
}

/// The integer nearest to the square root of `n`; zero for a negative `n`.
pub open spec fn round_sqrt(n: int) -> int {
    let r = isqrt(n);
    if n - r * r > r {
        r + 1
    } else {
        r
    }
}

/// The square root of a raw value, rounded to the nearest raw unit; no number for a negative
/// value.
pub open spec fn fx_sqrt(a: int) -> int {
    if a < 0 {
        VOID as int
    } else {
        round_sqrt(a * SCALE)
    }
}

/// Largest whole number of units not above `a`, as a raw value.
pub open spec fn fx_floor(a: int) -> int {
    if a == VOID {
        VOID as int
    } else {
        fit((a / (SCALE as int)) * SCALE)
    }
}

/// A real number in fixed point: `raw` billionths.
#[derive(Clone, Copy, Debug, PartialEq, Eq, Structural)]
pub struct Scalar {
    pub raw: i64,
}

impl View for Scalar {
    type V = int;

    open spec fn view(&self) -> int {
        self.raw as int
    }
}

/// No two integer square roots: the bounds pin the root down.
pub proof fn lemma_isqrt_unique(n: int, r1: int, r2: int)
    by (nonlinear_arith)
    requires
        is_isqrt(n, r1),
        is_isqrt(n, r2),
    ensures
        r1 == r2,
{
    if r1 < r2 {
        assert((r1 + 1) * (r1 + 1) <= r2 * r2);
    } else if r2 < r1 {
        assert((r2 + 1) * (r2 + 1) <= r1 * r1);
    }
}

/// Every natural number has an integer square root.
pub proof fn lemma_isqrt_exists(n: int)
    requires
        0 <= n,
    ensures
        is_isqrt(n, isqrt(n)),
    decreases n,
{
    if n == 0 {
        assert(is_isqrt(0, 0));
    } else {
        lemma_isqrt_exists(n - 1);
        let r = isqrt(n - 1);
        if n == (r + 1) * (r + 1) {
            assert(is_isqrt(n, r + 1)) by (nonlinear_arith)
                requires
                    n == (r + 1) * (r + 1),
                    0 <= r,
            ;
        } else {
            assert(is_isqrt(n, r));
        }
    }
}

/// The rounded square root is within a half of the root: its square misses `n` by no more
/// than itself.
pub proof fn lemma_round_sqrt_bounds(n: int)
    requires
        0 <= n,
    ensures
        0 <= round_sqrt(n),
        round_sqrt(n) * round_sqrt(n) - round_sqrt(n) <= n,
        n <= round_sqrt(n) * round_sqrt(n) + round_sqrt(n),
{
    lemma_isqrt_exists(n);
    let r = isqrt(n);
    assert((r + 1) * (r + 1) == r * r + 2 * r + 1) by (nonlinear_arith);
}

/// The rounded quotient is within a half of the quotient.
pub proof fn lemma_round_div_bounds(n: int, d: int)
    requires
        0 < d,
    ensures
        2 * n - d <= 2 * (d * round_div(n, d)) <= 2 * n + d,
        n >= 0 ==> round_div(n, d) >= 0,
        n <= 0 ==> round_div(n, d) <= 0,
{
    reveal(round_div);
    let q = (2 * abs(n) + d) / (2 * d);
    let rem = (2 * abs(n) + d) % (2 * d);
    assert(2 * abs(n) + d == (2 * d) * q + rem && 0 <= rem < 2 * d) by {
        vstd::arithmetic::div_mod::lemma_fundamental_div_mod(2 * abs(n) + d, 2 * d);
    }
    assert((2 * d) * q == 2 * (d * q)) by (nonlinear_arith);
    assert(q >= 0) by (nonlinear_arith)
        requires
            (2 * d) * q + rem == 2 * abs(n) + d,
            rem < 2 * d,
            d > 0,
            abs(n) >= 0,
    ;
    if n < 0 {
        assert(d * (-q) == -(d * q)) by (nonlinear_arith);
    }
    if n == 0 {
        assert(q == 0) by (nonlinear_arith)
            requires
                (2 * d) * q + rem == d,
                0 <= rem,
                0 <= q,
                0 < d,
        ;
    }
}

/// The rounded quotient is within a half of the quotient, whatever the sign of the divisor.
pub proof fn lemma_round_div_near(n: int, d: int)
    requires
        d != 0,
    ensures
        abs(2 * (d * round_div(n, d)) - 2 * n) <= abs(d),
{
    if d > 0 {
        lemma_round_div_bounds(n, d);
    } else {
        lemma_round_div_bounds(-n, -d);
        assert(round_div(n, d) == round_div(-n, -d)) by {
            reveal(round_div);
            if n == 0 {
                assert((2 * 0 + abs(d)) / (2 * abs(d)) == 0) by (nonlinear_arith)
                    requires
                        abs(d) > 0,
                ;
            }
        }
        let q = round_div(n, d);
        assert((-d) * q == -(d * q)) by (nonlinear_arith);
    }
}

/// Whoever exhibits a root has found `isqrt`.
pub proof fn lemma_isqrt_is(n: int, r: int)
    requires
        is_isqrt(n, r),
    ensures
        isqrt(n) == r,
{
    assert(n >= 0) by (nonlinear_arith)
        requires
            r * r <= n,
    ;
    lemma_isqrt_unique(n, isqrt(n), r);
}

pub(crate) fn magnitude(v: i64) -> (m: u128)
    ensures
        m == abs(v as int),
        m <= 0x8000_0000_0000_0000,
{
    let w: i128 = v as i128;
    if w < 0 {
        (-w) as u128
    } else {
        w as u128
    }
}

/// A magnitude with its sign, as a scalar.
pub(crate) fn signed(negative: bool, m: u128) -> (r: Scalar)
    ensures
        r@ == fit(if negative { -(m as int) } else { m as int }),
{
    if m > 0x7fff_ffff_ffff_ffffu128 {
        Scalar { raw: VOID }
    } else if negative {
        Scalar { raw: -(m as i64) }
    } else {
        Scalar { raw: m as i64 }
    }
}

pub(crate) fn fitted(v: i128) -> (r: Scalar)
    ensures
        r@ == fit(v as int),
{
    if v > 0x7fff_ffff_ffff_ffffi128 || v < -0x7fff_ffff_ffff_ffffi128 {
        Scalar { raw: VOID }
    } else {
        Scalar { raw: v as i64 }
    }
}

/// The integer square root of `n`, found by bisection.
pub(crate) fn isqrt_u128(n: u128) -> (r: u128)
    ensures
        r == isqrt(n as int),
        is_isqrt(n as int, r as int),
        r < 0x1_0000_0000_0000_0000,
{
    let mut lo: u128 = 0;
    let mut hi: u128 = 0x1_0000_0000_0000_0000;
    assert(0x1_0000_0000_0000_0000 * 0x1_0000_0000_0000_0000
        == 0x1_0000_0000_0000_0000_0000_0000_0000_0000int);
    while hi - lo > 1
        invariant
            lo < hi <= 0x1_0000_0000_0000_0000,
            lo * lo <= n < hi * hi,
        decreases hi - lo,
    {
        let mid: u128 = lo + (hi - lo) / 2;
        assert(mid * mid <= 0xffff_ffff_ffff_ffff * 0xffff_ffff_ffff_ffff) by (nonlinear_arith)
            requires
                mid <= 0xffff_ffff_ffff_ffff,
        ;
        if mid * mid <= n {
            lo = mid;
        } else {
            hi = mid;
        }
    }
    proof {
        assert(hi == lo + 1);
        lemma_isqrt_is(n as int, lo as int);
    }
    lo
}

/// The quotient of two wide integers, rounded to the nearest integer.
pub(crate) fn rounded_quotient(n: i128, d: i128) -> (q: i128)
    requires
        d != 0,
        -0x2000_0000_0000_0000_0000_0000_0000_0000 <= n <= 0x2000_0000_0000_0000_0000_0000_0000_0000,
        -0x10_0000_0000_0000_0000_0000_0000 <= d <= 0x10_0000_0000_0000_0000_0000_0000,
    ensures
        q == round_div(n as int, d as int),
        abs(q as int) <= abs(n as int) + 1,
{
    let negative: bool = (n >= 0) != (d > 0);
    let a: u128 = if n < 0 { (-n) as u128 } else { n as u128 };
    let b: u128 = if d < 0 { (-d) as u128 } else { d as u128 };
    let m: u128 = (2 * a + b) / (2 * b);
    proof {
        reveal(round_div);
        assert(m <= a + 1) by (nonlinear_arith)
            requires
                m == (2 * a + b) / (2 * b),
                1 <= b,
        {
            assert((2 * a + b) / (2 * b) <= (2 * a + b) / 2);
        }
    }
    if negative {
        -(m as i128)
    } else {
        m as i128
    }
}

/// A value in squares of raw units as a scalar: over the scale, rounded once.
pub(crate) fn wide_to_scalar(n: i128) -> (r: Scalar)
    ensures
        r@ == fit(round_div(n as int, SCALE as int)),
{
    proof {
        lemma_round_div_bounds(n as int, SCALE as int);
    }
    if n >= 9_223_372_036_854_775_809_000_000_000i128 || n
        <= -9_223_372_036_854_775_809_000_000_000i128 {
        Scalar { raw: VOID }
    } else {
        fitted(rounded_quotient(n, 1_000_000_000i128))
    }
}

/// A value in squares of raw units too wide for the machine is no scalar.
pub proof fn lemma_too_wide(n: int)
    requires
        abs(n) > 0x7fff_ffff_ffff_ffff_ffff_ffff_ffff_ffff,
    ensures
        fit(round_div(n, SCALE as int)) == VOID,
{
    lemma_round_div_bounds(n, SCALE as int);
}

/// A rounded quotient by a positive divisor is zero only of a dividend within half the
/// divisor, and a multiple of the divisor has its factor for quotient.
pub proof fn lemma_round_div_multiple(k: int, d: int)
    requires
        0 < d,
    ensures
        round_div(k * d, d) == k,
{
    lemma_round_div_bounds(k * d, d);
    let q = round_div(k * d, d);
    assert(q == k) by (nonlinear_arith)
        requires
            2 * (k * d) - d <= 2 * (d * q) <= 2 * (k * d) + d,
            0 < d,
    {
        assert(d * q - k * d == d * (q - k));
        if q > k {
            assert(d * (q - k) >= d);
        }
        if q < k {
            assert(d * (q - k) <= -d);
        }
    }
}

/// A cofactor over a determinant that is held in squares of raw units: no number where the
/// cofactor is none or the determinant is zero.
pub open spec fn fx_ratio(c: int, wide: int) -> int {
    if c == VOID || wide == 0 {
        VOID as int
    } else {
        fit(round_div(c * SCALE * SCALE, wide))
    }
}

/// A common factor of dividend and divisor does not change the rounded quotient.
pub proof fn lemma_round_div_cancels(n: int, d: int, c: int)
    requires
        d != 0,
        c != 0,
    ensures
        round_div(c * n, c * d) == round_div(n, d),
{
    reveal(round_div);
    lemma_product_sign(c, n);
    lemma_product_sign(c, d);
    let top = 2 * abs(n) + abs(d);
    let q = top / (2 * abs(d));
    let r = top % (2 * abs(d));
    vstd::arithmetic::div_mod::lemma_fundamental_div_mod(top, 2 * abs(d));
    assert(2 * (abs(c) * abs(n)) + abs(c) * abs(d) == (2 * (abs(c) * abs(d))) * q + abs(c) * r && 0
        <= abs(c) * r < 2 * (abs(c) * abs(d))) by (nonlinear_arith)
        requires
            top == 2 * abs(n) + abs(d),
            top == (2 * abs(d)) * q + r,
            0 <= r < 2 * abs(d),
            abs(c) > 0,
    ;
    lemma_fundamental_div_mod_converse(
        2 * (abs(c) * abs(n)) + abs(c) * abs(d),
        2 * (abs(c) * abs(d)),
        q,
        abs(c) * r,
    );
    if n == 0 {
        assert(c * n == 0) by (nonlinear_arith)
            requires
                n == 0,
        ;
        assert(q == 0) by (nonlinear_arith)
            requires
                abs(d) == (2 * abs(d)) * q + r,
                0 <= r,
                abs(d) > 0,
                q >= 0,
        ;
    }
    assert(q >= 0) by (nonlinear_arith)
        requires
            top == (2 * abs(d)) * q + r,
            r < 2 * abs(d),
            top >= 0,
            abs(d) > 0,
    ;
}

/// Negating the dividend negates the rounded quotient.
pub proof fn lemma_round_div_odd(n: int, d: int)
    ensures
        round_div(-n, d) == -round_div(n, d),
{
    reveal(round_div);
    if d != 0 && n == 0 {
        assert((2 * 0 + abs(d)) / (2 * abs(d)) == 0) by (nonlinear_arith)
            requires
                abs(d) > 0,
        ;
    }
}

/// Over the determinant one, a cofactor is itself.
pub proof fn lemma_ratio_by_one(c: int)
    requires
        c != VOID,
    ensures
        fx_ratio(c, SCALE * SCALE) == fit(c),
{
    assert(c * SCALE * SCALE == c * (SCALE * SCALE)) by (nonlinear_arith);
    lemma_round_div_multiple(c, SCALE * SCALE);
}

/// A cofactor over a determinant that is held in squares of raw units.
pub(crate) fn ratio(c: Scalar, wide: i128) -> (r: Scalar)
    requires
        -0x10_0000_0000_0000_0000_0000_0000 <= wide <= 0x10_0000_0000_0000_0000_0000_0000,
    ensures
        r@ == fx_ratio(c@, wide as int),
{
    if c.raw == VOID || wide == 0 {
        return Scalar { raw: VOID };
    }
    assert(-0x8000_0000_0000_0000 * 1_000_000_000_000_000_000 <= c.raw * 1_000_000_000_000_000_000
        <= 0x8000_0000_0000_0000 * 1_000_000_000_000_000_000) by (nonlinear_arith)
        requires
            -0x8000_0000_0000_0000 <= c.raw <= 0x8000_0000_0000_0000,
    ;
    assert(c.raw * SCALE * SCALE == c.raw * 1_000_000_000_000_000_000) by (nonlinear_arith)
        requires
            SCALE == 1_000_000_000,
    ;
    fitted(rounded_quotient(c.raw as i128 * 1_000_000_000_000_000_000i128, wide))
}

/// The integer nearest to the square root of `n`.
pub(crate) fn round_sqrt_u128(n: u128) -> (r: u128)
    ensures
        r == round_sqrt(n as int),
        r <= 0x1_0000_0000_0000_0000,
{
    let root: u128 = isqrt_u128(n);
    assert(root * root <= 0xffff_ffff_ffff_ffff * 0xffff_ffff_ffff_ffff) by (nonlinear_arith)
        requires
            root <= 0xffff_ffff_ffff_ffff,
    ;
    if n - root * root > root {
        root + 1
    } else {
        root
    }
}

impl Scalar {
    /// A number: not the mark of a result that left the range.
    pub open spec fn wf(self) -> bool {
        self@ != VOID
    }

    pub open spec fn spec_zero() -> Scalar {
        Scalar { raw: 0 }
    }

    pub open spec fn spec_one() -> Scalar {
        Scalar { raw: SCALE }
    }

    pub open spec fn spec_from_int(n: int) -> Scalar {
        Scalar { raw: fit(n * SCALE) as i64 }
    }

    pub open spec fn spec_add(self, rhs: Scalar) -> Scalar {
        Scalar { raw: fx_add(self@, rhs@) as i64 }
    }

    pub open spec fn spec_sub(self, rhs: Scalar) -> Scalar {
        Scalar { raw: fx_sub(self@, rhs@) as i64 }
    }

    pub open spec fn spec_neg(self) -> Scalar {
        Scalar { raw: fx_neg(self@) as i64 }
    }

    pub open spec fn spec_mul(self, rhs: Scalar) -> Scalar {
        Scalar { raw: fx_mul(self@, rhs@) as i64 }
    }

    pub open spec fn spec_div(self, rhs: Scalar) -> Scalar {
        Scalar { raw: fx_div(self@, rhs@) as i64 }
    }

    pub open spec fn spec_abs(self) -> Scalar {
        Scalar { raw: fit(abs(self@)) as i64 }
    }

    pub open spec fn spec_sqrt(self) -> Scalar {
        Scalar { raw: fx_sqrt(self@) as i64 }
    }

    pub open spec fn spec_floor(self) -> Scalar {
        Scalar { raw: fx_floor(self@) as i64 }
    }

    /// Both are numbers, and equal up to the tolerance.
    pub open spec fn spec_approx_eq(self, rhs: Scalar) -> bool {
        self.wf() && rhs.wf() && abs(self@ - rhs@) < EPSILON as int
    }

    /// Both are numbers, and equal up to the tolerance, the bound included.
    pub open spec fn spec_within_eps(self, rhs: Scalar) -> bool {
        self.wf() && rhs.wf() && abs(self@ - rhs@) <= EPSILON as int
    }

    /// The value times a whole number.
    pub open spec fn spec_times(self, f: int) -> Scalar {
        Scalar { raw: fx_times(self@, f) as i64 }
    }

    /// The value times a whole number.
    #[verifier::when_used_as_spec(spec_times_u32)]
    pub fn times(self, f: u32) -> (r: Scalar)
        ensures
            r == self.spec_times(f as int),
    {
        if self.raw == VOID {
            return Scalar { raw: VOID };
        }
        assert(-0x8000_0000_0000_0000 * 0x1_0000_0000 <= self.raw * f <= 0x8000_0000_0000_0000
            * 0x1_0000_0000) by (nonlinear_arith)
            requires
                -0x8000_0000_0000_0000 <= self.raw <= 0x8000_0000_0000_0000,
                0 <= f <= 0x1_0000_0000,
        ;
        fitted(self.raw as i128 * f as i128)
    }

    /// The value times a whole number that fits thirty-two bits.
    pub open spec fn spec_times_u32(self, f: u32) -> Scalar {
        self.spec_times(f as int)
    }

    /// Whether the scalar is a number.
    #[verifier::when_used_as_spec(wf)]
    pub fn is_number(self) -> (b: bool)
        ensures
            b == self.wf(),
    {
        self.raw != VOID
    }

    /// Zero.
    #[verifier::when_used_as_spec(spec_zero)]
    pub fn zero() -> (r: Scalar)
        ensures
            r == Scalar::spec_zero(),
    {
        Scalar { raw: 0 }
    }

    /// One.
    #[verifier::when_used_as_spec(spec_one)]
    pub fn one() -> (r: Scalar)
        ensures
            r == Scalar::spec_one(),
    {
        Scalar { raw: SCALE }
    }

    /// The whole number `n`.
    pub fn from_int(n: i64) -> (r: Scalar)
        ensures
            r == Scalar::spec_from_int(n as int),
    {
        fitted(n as i128 * 1_000_000_000i128)
    }

    /// A count of things, as a scalar.
    pub fn from_usize(n: usize) -> (r: Scalar)
        ensures
            r == Scalar::spec_from_int(n as int),
    {
        let m: u128 = n as u128 * 1_000_000_000u128;
        signed(false, m)
    }

    /// A count of things, as a scalar.
    pub fn from_u64(n: u64) -> (r: Scalar)
        ensures
            r == Scalar::spec_from_int(n as int),
    {
        let m: u128 = n as u128 * 1_000_000_000u128;
        signed(false, m)
    }

    /// The magnitude.
    pub fn abs(self) -> (r: Scalar)
        ensures
            r == self.spec_abs(),
    {
        signed(false, magnitude(self.raw))
    }

    /// Square root, rounded to the nearest raw unit; no number for a negative value.
    pub fn sqrt(self) -> (r: Scalar)
        ensures
            r == self.spec_sqrt(),
            r@ == fx_sqrt(self@),
            self@ >= 0 ==> 0 <= r@ <= 0x8000_0000_0000,
    {
        if self.raw < 0 {
            Scalar { raw: VOID }
        } else {
            let a: u128 = self.raw as u128;
            assert(a * 1_000_000_000 < 0x4000_0000_0000_0000_0000_0000) by (nonlinear_arith)
                requires
                    a <= 0x7fff_ffff_ffff_ffff,
            ;
            let n: u128 = a * 1_000_000_000u128;
            let root: u128 = round_sqrt_u128(n);
            proof {
                lemma_round_sqrt_bounds(n as int);
                assert(root <= 0x8000_0000_0000) by (nonlinear_arith)
                    requires
                        root * root - root <= n,
                        n < 0x4000_0000_0000_0000_0000_0000,
                {
                    if root > 0x8000_0000_0000 {
                        assert(root * root - root == root * (root - 1));
                        assert(root * (root - 1) >= 0x8000_0000_0001 * 0x8000_0000_0000);
                    }
                }
            }
            Scalar { raw: root as i64 }
        }
    }

    /// Largest whole number not above the value.
    pub fn floor(self) -> (r: Scalar)
        ensures
            r == self.spec_floor(),
    {
        if self.raw == VOID {
            return Scalar { raw: VOID };
        }
        let a: i128 = self.raw as i128;
        let q: i128 = if a >= 0 {
            a / 1_000_000_000i128
        } else {
            let up: i128 = (-a + 999_999_999i128) / 1_000_000_000i128;
            proof {
                lemma_fundamental_div_mod_converse(
                    a as int,
                    SCALE as int,
                    -(up as int),
                    a + up * SCALE,
                );
            }
            -up
        };
        fitted(q * 1_000_000_000i128)
    }

    /// Whether the two differ by less than the tolerance.
    pub fn approx_eq(self, rhs: Scalar) -> (r: bool)
        ensures
            r == self.spec_approx_eq(rhs),
    {
        let d: i128 = self.raw as i128 - rhs.raw as i128;
        self.raw != VOID && rhs.raw != VOID && -(EPSILON as i128) < d && d < EPSILON as i128
    }

    /// Whether the two differ by the tolerance at most.
    pub fn within_eps(self, rhs: Scalar) -> (r: bool)
        ensures
            r == self.spec_within_eps(rhs),
    {
        let d: i128 = self.raw as i128 - rhs.raw as i128;
        self.raw != VOID && rhs.raw != VOID && -(EPSILON as i128) <= d && d <= EPSILON as i128
    }
}

/// The operator `+`; it computes `self.spec_add(rhs)`.
impl core::ops::Add for Scalar {
    type Output = Scalar;

    fn add(self, rhs: Scalar) -> (r: Scalar)
    {
        if self.raw == VOID || rhs.raw == VOID {
            return Scalar { raw: VOID };
        }
        fitted(self.raw as i128 + rhs.raw as i128)
    }
}

impl vstd::std_specs::ops::AddSpecImpl for Scalar {
    open spec fn obeys_add_spec() -> bool {
        true
    }

    open spec fn add_req(self, rhs: Scalar) -> bool {
        true
    }

    open spec fn add_spec(self, rhs: Scalar) -> Scalar {
        self.spec_add(rhs)
    }
}

/// The operator `-`; it computes `self.spec_sub(rhs)`.
impl core::ops::Sub for Scalar {
    type Output = Scalar;

    fn sub(self, rhs: Scalar) -> (r: Scalar)
    {
        if self.raw == VOID || rhs.raw == VOID {
            return Scalar { raw: VOID };
        }
        fitted(self.raw as i128 - rhs.raw as i128)
    }
}

impl vstd::std_specs::ops::SubSpecImpl for Scalar {
    open spec fn obeys_sub_spec() -> bool {
        true
    }

    open spec fn sub_req(self, rhs: Scalar) -> bool {
        true
    }

    open spec fn sub_spec(self, rhs: Scalar) -> Scalar {
        self.spec_sub(rhs)
    }
}

/// The operator `-self`; it computes `self.spec_neg()`.
impl core::ops::Neg for Scalar {
    type Output = Scalar;

    fn neg(self) -> (r: Scalar)
    {
        if self.raw == VOID {
            return Scalar { raw: VOID };
        }
        fitted(-(self.raw as i128))
    }
}

impl vstd::std_specs::ops::NegSpecImpl for Scalar {
    open spec fn obeys_neg_spec() -> bool {
        true
    }

    open spec fn neg_req(self) -> bool {
        true
    }

    open spec fn neg_spec(self) -> Scalar {
        self.spec_neg()
    }
}

/// The operator `*`; it computes `self.spec_mul(rhs)`.
impl core::ops::Mul for Scalar {
    type Output = Scalar;

    fn mul(self, rhs: Scalar) -> (r: Scalar)
    {
        if self.raw == VOID || rhs.raw == VOID {
            return Scalar { raw: VOID };
        }
        let negative: bool = (self.raw < 0) != (rhs.raw < 0);
        let a: u128 = magnitude(self.raw);
        let b: u128 = magnitude(rhs.raw);
        proof {
            reveal(round_div);
            lemma_product_sign(self@, rhs@);
            assert(a * b <= 0x8000_0000_0000_0000 * 0x8000_0000_0000_0000) by (nonlinear_arith)
                requires
                    a <= 0x8000_0000_0000_0000,
                    b <= 0x8000_0000_0000_0000,
            ;
        }
        signed(negative, (2 * (a * b) + 1_000_000_000u128) / 2_000_000_000u128)
    }
}

impl vstd::std_specs::ops::MulSpecImpl for Scalar {
    open spec fn obeys_mul_spec() -> bool {
        true
    }

    open spec fn mul_req(self, rhs: Scalar) -> bool {
        true
    }

    open spec fn mul_spec(self, rhs: Scalar) -> Scalar {
        self.spec_mul(rhs)
    }
}

/// The operator `/`; it computes `self.spec_div(rhs)`.
impl core::ops::Div for Scalar {
    type Output = Scalar;

    fn div(self, rhs: Scalar) -> (r: Scalar)
    {
        if self.raw == VOID || rhs.raw == VOID || rhs.raw == 0 {
            Scalar { raw: VOID }
        } else {
            let negative: bool = (self.raw < 0) != (rhs.raw < 0);
            let a: u128 = magnitude(self.raw);
            let b: u128 = magnitude(rhs.raw);
            proof {
                reveal(round_div);
                lemma_product_sign(self@, SCALE as int);
                assert(a * 1_000_000_000 <= 0x8000_0000_0000_0000 * 1_000_000_000)
                    by (nonlinear_arith)
                    requires
                        a <= 0x8000_0000_0000_0000,
                ;
            }
            signed(negative, (2 * (a * 1_000_000_000u128) + b) / (2 * b))
        }
    }
}

impl vstd::std_specs::ops::DivSpecImpl for Scalar {
    open spec fn obeys_div_spec() -> bool {
        true
    }

    open spec fn div_req(self, rhs: Scalar) -> bool {
        true
    }

    open spec fn div_spec(self, rhs: Scalar) -> Scalar {
        self.spec_div(rhs)
    }
}

/// Multiplying by a whole number loses nothing: the product of `a` and `k` units is `a * k`.
pub proof fn lemma_mul_whole(a: int, k: int)
    requires
        a != VOID,
        k * SCALE != VOID,
    ensures
        fx_mul(a, k * SCALE) == fit(a * k),
        fx_mul(k * SCALE, a) == fit(a * k),
{
    reveal(round_div);
    let n = a * k;
    assert(a * (k * SCALE) == n * SCALE && (k * SCALE) * a == n * SCALE) by (nonlinear_arith)
        requires
            n == a * k,
    ;
    lemma_product_sign(n, SCALE as int);
    assert(abs(n * SCALE) == abs(n) * SCALE);
    lemma_fundamental_div_mod_converse(
        2 * (abs(n) * SCALE) + SCALE,
        2 * SCALE,
        abs(n),
        SCALE as int,
    );
    assert(2 * (abs(n) * SCALE) + SCALE == (2 * SCALE) * abs(n) + SCALE) by (nonlinear_arith);
}

/// One is neutral and zero absorbs, among numbers.
pub proof fn lemma_mul_one_zero(a: int)
    requires
        a != VOID,
    ensures
        fx_mul(a, SCALE as int) == fit(a),
        fx_mul(SCALE as int, a) == fit(a),
        fx_mul(a, 0) == 0,
        fx_mul(0, a) == 0,
{
    lemma_mul_whole(a, 1);
    lemma_mul_whole(a, 0);
    assert(a * 1 == a && a * 0 == 0);
}

/// Dividing by one loses nothing.
pub proof fn lemma_div_by_one(a: int)
    requires
        a != VOID,
    ensures
        fx_div(a, SCALE as int) == fit(a),
{
    reveal(round_div);
    lemma_product_sign(a, SCALE as int);
    assert(abs(a * SCALE) == abs(a) * SCALE);
    lemma_fundamental_div_mod_converse(
        2 * (abs(a) * SCALE) + SCALE,
        2 * SCALE,
        abs(a),
        SCALE as int,
    );
    assert(2 * (abs(a) * SCALE) + SCALE == (2 * SCALE) * abs(a) + SCALE) by (nonlinear_arith);
}

/// The order of the factors does not matter.
pub proof fn lemma_fx_mul_commutes(a: int, b: int)
    ensures
        fx_mul(a, b) == fx_mul(b, a),
{
    assert(a * b == b * a) by (nonlinear_arith);
}

impl Scalar {
    /// The order of the factors does not matter.
    pub proof fn lemma_mul_commutes(self, rhs: Scalar)
        ensures
            self.spec_mul(rhs) == rhs.spec_mul(self),
    {
        lemma_fx_mul_commutes(self@, rhs@);
    }

    /// Swapping the terms of a difference negates it, number or not.
    pub proof fn lemma_sub_swaps(self, rhs: Scalar)
        ensures
            self.spec_sub(rhs) == rhs.spec_sub(self).spec_neg(),
    {
    }

    /// Among numbers one is neutral in products and quotients, zero in sums, and zero absorbs
    /// in products.
    pub proof fn lemma_neutral(self)
        ensures
            self.wf() ==> self.spec_mul(Scalar::zero()) == Scalar::zero(),
            self.wf() ==> Scalar::zero().spec_mul(self) == Scalar::zero(),
            self.wf() ==> self.spec_mul(Scalar::one()) == self,
            self.wf() ==> Scalar::one().spec_mul(self) == self,
            self.wf() ==> self.spec_div(Scalar::one()) == self,
            self.wf() ==> self.spec_add(Scalar::zero()) == self,
            self.wf() ==> Scalar::zero().spec_add(self) == self,
            self.wf() ==> self.spec_sub(Scalar::zero()) == self,
            self.wf() ==> self.spec_neg().spec_neg() == self,
    {
        if self.wf() {
            lemma_mul_one_zero(self@);
            lemma_div_by_one(self@);
        }
    }
}

/// The magnitude of a product is the product of the magnitudes, and its sign follows the signs.
pub proof fn lemma_product_sign(a: int, b: int)
    by (nonlinear_arith)
    ensures
        abs(a * b) == abs(a) * abs(b),
        a * b > 0 <==> (a > 0 && b > 0) || (a < 0 && b < 0),
        a * b < 0 <==> (a > 0 && b < 0) || (a < 0 && b > 0),
        a * b == 0 <==> a == 0 || b == 0,
{
}

} // verus!
