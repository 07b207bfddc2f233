//! A fixed-point base raised to a fixed-point exponent.
//!
//! The whole part of the exponent is served by squaring and multiplying, the fractional part by
//! a chain of square roots, one for each of its leading binary digits.

use vstd::prelude::*;
use crate::scalar::{
    abs, fx_div, fx_mul, fx_sqrt, is_isqrt, lemma_div_by_one, lemma_isqrt_is, lemma_mul_one_zero,
    lemma_round_div_bounds, lemma_round_sqrt_bounds, magnitude, Scalar, SCALE, VOID,
};

verus! {

/// How many binary digits of the fractional part of an exponent are used.
pub const FRACTION_BITS: u32 = 30;

/// `x` to the whole power `n`: the square of `x` to the half of `n`, times `x` where `n` is odd.
pub open spec fn fx_pow_int(x: int, n: nat) -> int
    decreases n,
{
    if n == 0 {
        SCALE as int
    } else {
        let half = fx_pow_int(x, n / 2);
        let square = fx_mul(half, half);
        if n % 2 == 1 {
            fx_mul(square, x)
        } else {
            square
        }
    }
}

/// `x` to the power `f / SCALE`, for `0 <= f < SCALE`, from the leading `bits` binary digits of
/// that fraction: `x^f` is `sqrt(x)^(2f)`, and a whole unit in `2f` costs one factor `sqrt(x)`.
pub open spec fn fx_pow_frac(x: int, f: int, bits: nat) -> int
    decreases bits,
{
    if bits == 0 || f <= 0 {
        SCALE as int
    } else {
        let root = fx_sqrt(x);
        if 2 * f >= SCALE {
            fx_mul(root, fx_pow_frac(root, 2 * f - SCALE, (bits - 1) as nat))
        } else {
            fx_pow_frac(root, 2 * f, (bits - 1) as nat)
        }
    }
}

/// `x` to the power `y`, both raw. A negative exponent gives the reciprocal of the positive
/// power.
pub open spec fn fx_pow(x: int, y: int) -> int {
    if y == VOID {
        VOID as int
    } else {
        fx_pow_number(x, y)
    }
}

/// `x` to the power `y`, where `y` is a number.
pub open spec fn fx_pow_number(x: int, y: int) -> int {
    let m = abs(y);
    let whole = (m / (SCALE as int)) as nat;
    let power = fx_mul(
        fx_pow_int(x, whole),
        fx_pow_frac(x, m % (SCALE as int), FRACTION_BITS as nat),
    );
    if y < 0 {
        fx_div(SCALE as int, power)
    } else {
        power
    }
}

/// The product of two values between zero and one lies between zero and one.
pub proof fn lemma_mul_in_unit_interval(a: int, b: int)
    requires
        0 <= a <= SCALE,
        0 <= b <= SCALE,
    ensures
        0 <= fx_mul(a, b) <= SCALE,
{
    assert(0 <= a * b <= SCALE * SCALE) by (nonlinear_arith)
        requires
            0 <= a <= SCALE,
            0 <= b <= SCALE,
    ;
    lemma_round_div_bounds(a * b, SCALE as int);
}

/// The square root of a value between zero and one lies between zero and one.
pub proof fn lemma_sqrt_in_unit_interval(a: int)
    requires
        0 <= a <= SCALE,
    ensures
        0 <= fx_sqrt(a) <= SCALE,
{
    assert(0 <= a * SCALE <= SCALE * SCALE) by (nonlinear_arith)
        requires
            0 <= a <= SCALE,
    ;
    lemma_round_sqrt_bounds(a * SCALE);
    let m = fx_sqrt(a);
    assert(m <= SCALE) by (nonlinear_arith)
        requires
            0 <= m,
            m * m - m <= SCALE * SCALE,
            SCALE == 1_000_000_000,
    {
        if m > SCALE {
            assert(m * m - m == m * (m - 1));
            assert(m * (m - 1) >= (SCALE + 1) * SCALE);
        }
    }
}

/// A whole power of a value between zero and one lies between zero and one.
pub proof fn lemma_pow_int_in_unit_interval(x: int, n: nat)
    requires
        0 <= x <= SCALE,
    ensures
        0 <= fx_pow_int(x, n) <= SCALE,
    decreases n,
{
    if n > 0 {
        lemma_pow_int_in_unit_interval(x, n / 2);
        let half = fx_pow_int(x, n / 2);
        lemma_mul_in_unit_interval(half, half);
        lemma_mul_in_unit_interval(fx_mul(half, half), x);
    }
}

/// A fractional power of a value between zero and one lies between zero and one.
pub proof fn lemma_pow_frac_in_unit_interval(x: int, f: int, bits: nat)
    requires
        0 <= x <= SCALE,
    ensures
        0 <= fx_pow_frac(x, f, bits) <= SCALE,
    decreases bits,
{
    if bits > 0 && f > 0 {
        lemma_sqrt_in_unit_interval(x);
        let root = fx_sqrt(x);
        if 2 * f >= SCALE {
            lemma_pow_frac_in_unit_interval(root, 2 * f - SCALE, (bits - 1) as nat);
            lemma_mul_in_unit_interval(
                root,
                fx_pow_frac(root, 2 * f - SCALE, (bits - 1) as nat),
            );
        } else {
            lemma_pow_frac_in_unit_interval(root, 2 * f, (bits - 1) as nat);
        }
    }
}

/// A value between zero and one, raised to a power that is not negative, lies between zero and
/// one: a highlight never outshines its light.
pub proof fn lemma_pow_in_unit_interval(x: int, y: int)
    requires
        0 <= x <= SCALE,
        0 <= y,
    ensures
        0 <= fx_pow(x, y) <= SCALE,
{
    lemma_pow_int_in_unit_interval(x, (y / (SCALE as int)) as nat);
    lemma_pow_frac_in_unit_interval(x, y % (SCALE as int), FRACTION_BITS as nat);
    lemma_mul_in_unit_interval(
        fx_pow_int(x, (y / (SCALE as int)) as nat),
        fx_pow_frac(x, y % (SCALE as int), FRACTION_BITS as nat),
    );
}

/// One to any whole power is one.
pub proof fn lemma_pow_int_of_one(n: nat)
    ensures
        fx_pow_int(SCALE as int, n) == SCALE,
    decreases n,
{
    if n > 0 {
        lemma_pow_int_of_one(n / 2);
        lemma_mul_one_zero(SCALE as int);
    }
}

/// One to any fractional power is one.
pub proof fn lemma_pow_frac_of_one(f: int, bits: nat)
    ensures
        fx_pow_frac(SCALE as int, f, bits) == SCALE,
    decreases bits,
{
    if bits > 0 && f > 0 {
        assert(is_isqrt(SCALE * SCALE, SCALE as int));
        lemma_isqrt_is(SCALE * SCALE, SCALE as int);
        assert(fx_sqrt(SCALE as int) == SCALE);
        lemma_mul_one_zero(SCALE as int);
        if 2 * f >= SCALE {
            lemma_pow_frac_of_one(2 * f - SCALE, (bits - 1) as nat);
        } else {
            lemma_pow_frac_of_one(2 * f, (bits - 1) as nat);
        }
    }
}

/// One to any power is one.
pub proof fn lemma_pow_of_one(y: int)
    requires
        y != VOID,
    ensures
        fx_pow(SCALE as int, y) == SCALE,
{
    let m = abs(y);
    lemma_pow_int_of_one((m / (SCALE as int)) as nat);
    lemma_pow_frac_of_one(m % (SCALE as int), FRACTION_BITS as nat);
    lemma_mul_one_zero(SCALE as int);
    lemma_div_by_one(SCALE as int);
}

fn pow_int(x: Scalar, n: u64) -> (r: Scalar)
    ensures
        r@ == fx_pow_int(x@, n as nat),
    decreases n,
{
    if n == 0 {
        Scalar::one()
    } else {
        let half = pow_int(x, n / 2);
        let square = half * half;
        if n % 2 == 1 {
            square * x
        } else {
            square
        }
    }
}

fn pow_frac(x: Scalar, f: u64, bits: u32) -> (r: Scalar)
    requires
        f < SCALE,
    ensures
        r@ == fx_pow_frac(x@, f as int, bits as nat),
    decreases bits,
{
    if bits == 0 || f == 0 {
        Scalar::one()
    } else {
        let root = x.sqrt();
        if 2 * f >= 1_000_000_000 {
            root * pow_frac(root, 2 * f - 1_000_000_000, bits - 1)
        } else {
            pow_frac(root, 2 * f, bits - 1)
        }
    }
}

impl Scalar {
    /// The value raised to the power `y`.
    pub open spec fn spec_powf(self, y: Scalar) -> Scalar {
        Scalar { raw: fx_pow(self@, y@) as i64 }
    }

    /// The value raised to the power `y`.
    #[verifier::when_used_as_spec(spec_powf)]
    pub fn powf(self, y: Scalar) -> (r: Scalar)
        ensures
            r == self.spec_powf(y),
    {
        if y.raw == VOID {
            return Scalar { raw: VOID };
        }
        let m: u128 = magnitude(y.raw);
        let whole: u64 = (m / 1_000_000_000u128) as u64;
        let fraction: u64 = (m % 1_000_000_000u128) as u64;
        let power = pow_int(self, whole) * pow_frac(self, fraction, FRACTION_BITS);
        if y.raw < 0 {
            Scalar::one() / power
        } else {
            power
        }
    }
}

} // verus!
