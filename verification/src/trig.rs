//! Sine, cosine and tangent of a fixed-point angle in radians.
//!
//! The angle is reduced to one turn, then to a quarter turn, then to an eighth, where sine and
//! cosine are the Taylor polynomials of degree thirteen and twelve evaluated in nested form on
//! raw values. `fx_sin` and `fx_cos` say so exactly; the executable functions compute them.

use vstd::prelude::*;
use vstd::arithmetic::div_mod::lemma_fundamental_div_mod_converse;
use crate::scalar::{fx_div, Scalar, SCALE, VOID};

verus! {

/// A quarter turn, in raw units: half of pi, rounded.
pub const QUARTER_TURN: i64 = 1_570_796_327;

/// An eighth of a turn, in raw units, rounded down.
pub const EIGHTH_TURN: i64 = 785_398_163;

/// A whole turn, in raw units: four quarter turns.
pub const FULL_TURN: i64 = 6_283_185_308;

/// How many factors the nested polynomials have.
pub const FACTORS: u64 = 6;

/// The nested tail `1 - x2/(d(d+1)) * (1 - x2/((d+2)(d+3)) * (..))` with `terms` factors, on raw
/// values; `x2` is the square of the angle.
pub open spec fn series(x2: int, d: int, terms: nat) -> int
    decreases terms,
{
    if terms == 0 {
        SCALE as int
    } else {
        SCALE - (x2 * series(x2, d + 2, (terms - 1) as nat) / (SCALE as int)) / (d * (d + 1))
    }
}

/// The square of a raw angle.
pub open spec fn squared(x: int) -> int {
    x * x / (SCALE as int)
}

/// Sine of a raw angle within an eighth of a turn.
pub open spec fn sin_poly(x: int) -> int {
    x * series(squared(x), 2, FACTORS as nat) / (SCALE as int)
}

/// Cosine of a raw angle within an eighth of a turn.
pub open spec fn cos_poly(x: int) -> int {
    series(squared(x), 1, FACTORS as nat)
}

/// Sine of a raw angle within a quarter turn: past the eighth, the cosine of the complement.
pub open spec fn quarter_sin(u: int) -> int {
    if u <= EIGHTH_TURN {
        sin_poly(u)
    } else {
        cos_poly(QUARTER_TURN - u)
    }
}

/// Cosine of a raw angle within a quarter turn: past the eighth, the sine of the complement.
pub open spec fn quarter_cos(u: int) -> int {
    if u <= EIGHTH_TURN {
        cos_poly(u)
    } else {
        sin_poly(QUARTER_TURN - u)
    }
}

/// Sine of a raw angle, where the angle is a number.
pub open spec fn turn_sin(a: int) -> int {
    let t = a % (FULL_TURN as int);
    let q = t / (QUARTER_TURN as int);
    let u = t % (QUARTER_TURN as int);
    if q == 0 {
        quarter_sin(u)
    } else if q == 1 {
        quarter_cos(u)
    } else if q == 2 {
        -quarter_sin(u)
    } else {
        -quarter_cos(u)
    }
}

/// Cosine of a raw angle, where the angle is a number.
pub open spec fn turn_cos(a: int) -> int {
    let t = a % (FULL_TURN as int);
    let q = t / (QUARTER_TURN as int);
    let u = t % (QUARTER_TURN as int);
    if q == 0 {
        quarter_cos(u)
    } else if q == 1 {
        -quarter_sin(u)
    } else if q == 2 {
        -quarter_cos(u)
    } else {
        quarter_sin(u)
    }
}

/// Sine of a raw angle.
pub open spec fn fx_sin(a: int) -> int {
    if a == VOID {
        VOID as int
    } else {
        turn_sin(a)
    }
}

/// Cosine of a raw angle.
pub open spec fn fx_cos(a: int) -> int {
    if a == VOID {
        VOID as int
    } else {
        turn_cos(a)
    }
}

/// Tangent of a raw angle: sine over cosine, no number where the cosine is zero.
pub open spec fn fx_tan(a: int) -> int {
    fx_div(fx_sin(a), fx_cos(a))
}

/// The nested tail stays between zero and one.
pub proof fn lemma_series_bounds(x2: int, d: int, terms: nat)
    requires
        0 <= x2 <= SCALE,
        1 <= d,
    ensures
        0 <= series(x2, d, terms) <= SCALE,
    decreases terms,
{
    if terms > 0 {
        lemma_series_bounds(x2, d + 2, (terms - 1) as nat);
        let inner = series(x2, d + 2, (terms - 1) as nat);
        lemma_step_bounds(x2, inner, d);
    }
}

/// One step of the nested tail keeps it between zero and one.
pub proof fn lemma_step_bounds(x2: int, inner: int, d: int)
    by (nonlinear_arith)
    requires
        0 <= x2 <= SCALE,
        0 <= inner <= SCALE,
        1 <= d,
    ensures
        0 <= (x2 * inner / (SCALE as int)) / (d * (d + 1)) <= SCALE,
        x2 * inner <= SCALE * SCALE,
        0 <= x2 * inner,
        d * (d + 1) >= 2,
{
    assert(x2 * inner <= SCALE * inner);
    assert(SCALE * inner <= SCALE * SCALE);
    assert(x2 * inner / (SCALE as int) <= SCALE);
    assert(d * (d + 1) >= 2);
}

/// The square of an angle within an eighth of a turn is below one.
pub proof fn lemma_squared_bounds(x: int)
    by (nonlinear_arith)
    requires
        0 <= x <= EIGHTH_TURN,
    ensures
        0 <= x * x <= EIGHTH_TURN * EIGHTH_TURN,
        0 <= squared(x) <= SCALE,
{
    assert(x * x <= EIGHTH_TURN * x);
    assert(EIGHTH_TURN * x <= EIGHTH_TURN * EIGHTH_TURN);
}

/// Within an eighth of a turn both polynomials stay between zero and one.
pub proof fn lemma_poly_bounds(x: int)
    requires
        0 <= x <= EIGHTH_TURN,
    ensures
        0 <= sin_poly(x) <= SCALE,
        0 <= cos_poly(x) <= SCALE,
{
    lemma_squared_bounds(x);
    lemma_series_bounds(squared(x), 2, FACTORS as nat);
    lemma_series_bounds(squared(x), 1, FACTORS as nat);
    let s = series(squared(x), 2, FACTORS as nat);
    assert(0 <= x * s / (SCALE as int) <= SCALE) by (nonlinear_arith)
        requires
            0 <= x <= SCALE,
            0 <= s <= SCALE,
    {
        assert(x * s <= SCALE * s);
        assert(SCALE * s <= SCALE * SCALE);
    }
}

/// Sine and cosine never leave the range from minus one to one.
pub proof fn lemma_sin_cos_bounds(a: int)
    ensures
        -SCALE <= turn_sin(a) <= SCALE,
        -SCALE <= turn_cos(a) <= SCALE,
{
    let t = a % (FULL_TURN as int);
    let u = t % (QUARTER_TURN as int);
    if u <= EIGHTH_TURN {
        lemma_poly_bounds(u);
    } else {
        lemma_poly_bounds(QUARTER_TURN - u);
    }
}

/// At the angle zero the nested tail is one.
pub proof fn lemma_series_at_zero(d: int, terms: nat)
    requires
        1 <= d,
    ensures
        series(0, d, terms) == SCALE,
    decreases terms,
{
    if terms > 0 {
        lemma_series_at_zero(d + 2, (terms - 1) as nat);
        let inner = series(0, d + 2, (terms - 1) as nat);
        assert(0 * inner == 0) by (nonlinear_arith);
        assert(d * (d + 1) >= 2) by (nonlinear_arith)
            requires
                1 <= d,
        ;
        assert(0int / (d * (d + 1)) == 0) by (nonlinear_arith)
            requires
                d * (d + 1) >= 2,
        ;
    }
}

/// At the four quarter turns sine and cosine are exact.
pub proof fn lemma_quarter_turns()
    ensures
        fx_sin(0) == 0,
        fx_cos(0) == SCALE,
        fx_sin(QUARTER_TURN as int) == SCALE,
        fx_cos(QUARTER_TURN as int) == 0,
        fx_sin(2 * QUARTER_TURN) == 0,
        fx_cos(2 * QUARTER_TURN) == -SCALE,
        fx_sin(3 * QUARTER_TURN) == -SCALE,
        fx_cos(3 * QUARTER_TURN) == 0,
{
    lemma_series_at_zero(1, FACTORS as nat);
    lemma_series_at_zero(2, FACTORS as nat);
    assert(squared(0) == 0);
    assert(sin_poly(0) == 0);
    assert(cos_poly(0) == SCALE);
}

/// Within an eighth of a turn the cosine is at least sixty-nine hundredths.
pub proof fn lemma_cos_poly_large(x: int)
    requires
        0 <= x <= EIGHTH_TURN,
    ensures
        690_000_000 <= cos_poly(x) <= SCALE,
{
    lemma_squared_bounds(x);
    lemma_poly_bounds(x);
    let x2 = squared(x);
    assert(x2 <= 616_850_276) by {
        assert(x * x <= 785_398_163 * 785_398_163);
    }
    lemma_series_bounds(x2, 3, (FACTORS - 1) as nat);
    let inner = series(x2, 3, (FACTORS - 1) as nat);
    assert(x2 * inner / (SCALE as int) <= x2) by (nonlinear_arith)
        requires
            0 <= x2,
            0 <= inner <= SCALE,
            SCALE == 1_000_000_000,
    {
        assert(x2 * inner <= x2 * SCALE);
    }
    assert(0 <= x2 * inner) by (nonlinear_arith)
        requires
            0 <= x2,
            0 <= inner,
    ;
}

/// Sine and cosine of one angle are never both small: the sum of their squares is at least
/// forty-seven hundredths.
pub proof fn lemma_sin_cos_large(a: int)
    ensures
        turn_sin(a) * turn_sin(a) + turn_cos(a) * turn_cos(a) >= 476_100_000_000_000_000,
{
    let t = a % (FULL_TURN as int);
    let u = t % (QUARTER_TURN as int);
    lemma_sin_cos_bounds(a);
    let big = if u <= EIGHTH_TURN {
        lemma_cos_poly_large(u);
        cos_poly(u)
    } else {
        lemma_cos_poly_large(QUARTER_TURN - u);
        cos_poly(QUARTER_TURN - u)
    };
    let s = turn_sin(a);
    let c = turn_cos(a);
    assert(s == big || s == -big || c == big || c == -big);
    assert(big * big >= 690_000_000 * 690_000_000) by (nonlinear_arith)
        requires
            big >= 690_000_000,
    ;
    assert((-big) * (-big) == big * big) by (nonlinear_arith);
    assert(s * s >= 0 && c * c >= 0) by (nonlinear_arith);
}

/// The cosine is the sine a quarter turn on, exactly.
pub proof fn lemma_cos_is_shifted_sin(a: int)
    ensures
        turn_cos(a) == turn_sin(a + QUARTER_TURN),
{
    let t = a % (FULL_TURN as int);
    let q = t / (QUARTER_TURN as int);
    let u = t % (QUARTER_TURN as int);
    let t2 = (a + QUARTER_TURN) % (FULL_TURN as int);
    assert(t == (QUARTER_TURN as int) * q + u);
    if q < 3 {
        lemma_fundamental_div_mod_converse(
            a + QUARTER_TURN,
            FULL_TURN as int,
            a / (FULL_TURN as int),
            t + QUARTER_TURN,
        );
        lemma_fundamental_div_mod_converse(t2, QUARTER_TURN as int, q + 1, u);
    } else {
        lemma_fundamental_div_mod_converse(
            a + QUARTER_TURN,
            FULL_TURN as int,
            a / (FULL_TURN as int) + 1,
            u,
        );
        lemma_fundamental_div_mod_converse(t2, QUARTER_TURN as int, 0, u);
    }
}

/// The nested tail with `FACTORS` factors, starting at denominator `d`.
fn nested(x2: u64, d: u64) -> (acc: u64)
    requires
        x2 <= SCALE,
        1 <= d <= 2,
    ensures
        acc == series(x2 as int, d as int, FACTORS as nat),
        acc <= SCALE,
{
    let mut acc: u64 = 1_000_000_000;
    let mut done: u64 = 0;
    while done < FACTORS
        invariant
            done <= FACTORS,
            x2 <= SCALE,
            1 <= d <= 2,
            acc <= SCALE,
            acc == series(x2 as int, d + 2 * (FACTORS - done), done as nat),
        decreases FACTORS - done,
    {
        let k: u64 = d + 2 * (FACTORS - done - 1);
        proof {
            lemma_step_bounds(x2 as int, acc as int, k as int);
            assert(k * (k + 1) <= 13 * 14) by (nonlinear_arith)
                requires
                    1 <= k <= 13,
            ;
        }
        acc = 1_000_000_000 - (x2 * acc / 1_000_000_000) / (k * (k + 1));
        done += 1;
    }
    acc
}

fn sin_eighth(x: u64) -> (s: u64)
    requires
        x <= EIGHTH_TURN,
    ensures
        s == sin_poly(x as int),
        s <= SCALE,
{
    proof {
        lemma_squared_bounds(x as int);
        lemma_poly_bounds(x as int);
    }
    let x2: u64 = x * x / 1_000_000_000;
    let tail: u64 = nested(x2, 2);
    assert(x * tail <= SCALE * SCALE) by (nonlinear_arith)
        requires
            x <= SCALE,
            tail <= SCALE,
    ;
    x * tail / 1_000_000_000
}

fn cos_eighth(x: u64) -> (c: u64)
    requires
        x <= EIGHTH_TURN,
    ensures
        c == cos_poly(x as int),
        c <= SCALE,
{
    proof {
        lemma_squared_bounds(x as int);
    }
    let x2: u64 = x * x / 1_000_000_000;
    nested(x2, 1)
}

/// The angle brought into one turn: the quarter it falls in, and how far into that quarter.
fn reduce(a: i64) -> (qu: (u64, u64))
    ensures
        qu.0 == ((a as int) % (FULL_TURN as int)) / (QUARTER_TURN as int),
        qu.1 == ((a as int) % (FULL_TURN as int)) % (QUARTER_TURN as int),
        qu.0 < 4,
        qu.1 < QUARTER_TURN,
{
    let wide: i128 = a as i128;
    let t: i128 = if wide >= 0 {
        wide % 6_283_185_308i128
    } else {
        let m: i128 = (-wide) % 6_283_185_308i128;
        proof {
            let k = (-wide) / 6_283_185_308;
            if m == 0 {
                lemma_fundamental_div_mod_converse(wide as int, FULL_TURN as int, -k, 0);
            } else {
                lemma_fundamental_div_mod_converse(
                    wide as int,
                    FULL_TURN as int,
                    -k - 1,
                    FULL_TURN - m,
                );
            }
        }
        if m == 0 {
            0
        } else {
            6_283_185_308i128 - m
        }
    };
    let turn: u64 = t as u64;
    (turn / 1_570_796_327, turn % 1_570_796_327)
}

fn sin_quarter(u: u64) -> (s: u64)
    requires
        u < QUARTER_TURN,
    ensures
        s == quarter_sin(u as int),
        s <= SCALE,
{
    if u <= 785_398_163 {
        sin_eighth(u)
    } else {
        cos_eighth(1_570_796_327 - u)
    }
}

fn cos_quarter(u: u64) -> (c: u64)
    requires
        u < QUARTER_TURN,
    ensures
        c == quarter_cos(u as int),
        c <= SCALE,
{
    if u <= 785_398_163 {
        cos_eighth(u)
    } else {
        sin_eighth(1_570_796_327 - u)
    }
}

impl Scalar {
    /// Sine of an angle in radians.
    pub open spec fn spec_sin(self) -> Scalar {
        Scalar { raw: fx_sin(self@) as i64 }
    }

    /// Cosine of an angle in radians.
    pub open spec fn spec_cos(self) -> Scalar {
        Scalar { raw: fx_cos(self@) as i64 }
    }

    /// Tangent of an angle in radians.
    pub open spec fn spec_tan(self) -> Scalar {
        Scalar { raw: fx_tan(self@) as i64 }
    }

    /// Sine of an angle in radians.
    #[verifier::when_used_as_spec(spec_sin)]
    pub fn sin(self) -> (r: Scalar)
        ensures
            r == self.spec_sin(),
            self.wf() ==> -SCALE <= r@ <= SCALE,
    {
        if self.raw == VOID {
            return Scalar { raw: VOID };
        }
        let (q, u) = reduce(self.raw);
        if q == 0 {
            Scalar { raw: sin_quarter(u) as i64 }
        } else if q == 1 {
            Scalar { raw: cos_quarter(u) as i64 }
        } else if q == 2 {
            Scalar { raw: -(sin_quarter(u) as i64) }
        } else {
            Scalar { raw: -(cos_quarter(u) as i64) }
        }
    }

    /// Cosine of an angle in radians.
    #[verifier::when_used_as_spec(spec_cos)]
    pub fn cos(self) -> (r: Scalar)
        ensures
            r == self.spec_cos(),
            self.wf() ==> -SCALE <= r@ <= SCALE,
    {
        if self.raw == VOID {
            return Scalar { raw: VOID };
        }
        let (q, u) = reduce(self.raw);
        if q == 0 {
            Scalar { raw: cos_quarter(u) as i64 }
        } else if q == 1 {
            Scalar { raw: -(sin_quarter(u) as i64) }
        } else if q == 2 {
            Scalar { raw: -(cos_quarter(u) as i64) }
        } else {
            Scalar { raw: sin_quarter(u) as i64 }
        }
    }

    /// Tangent of an angle in radians: sine over cosine.
    #[verifier::when_used_as_spec(spec_tan)]
    pub fn tan(self) -> (r: Scalar)
        ensures
            r == self.spec_tan(),
    {
        proof {
            lemma_sin_cos_bounds(self@);
        }
        self.sin() / self.cos()
    }
}

} // verus!
