//! How far rounding takes a normalized tuple from unit length.
//!
//! A tuple over its length has length one only up to rounding. Because a short tuple is
//! doubled up before it is divided, the rounding is always small against the tuple, and the
//! length of the result is one up to the tolerance for every tuple that has a length at all.

use vstd::prelude::*;
use crate::primatives::{
    exact_length, largest, lemma_lifted, lemma_squares_of_magnitudes, lemma_unit_components, lift,
    Tuple, LIFTED,
};
use crate::scalar::{
    abs, lemma_round_div_bounds, lemma_round_sqrt_bounds, round_div, round_sqrt, Scalar, EPSILON,
    LIMIT, SCALE,
};

verus! {

/// The square of a quotient, scaled by the square of the length, misses the scaled square of
/// the component by little.
proof fn lemma_quotient_squared(a: int, n: int, m: int)
    requires
        0 < m,
        abs(a) <= 2 * m,
        2 * (a * SCALE) - m <= 2 * (m * n) <= 2 * (a * SCALE) + m,
    ensures
        4 * ((SCALE * SCALE) * (a * a)) - (8 * SCALE + 1) * (m * m) <= 4 * ((m * m) * (n * n)),
        4 * ((m * m) * (n * n)) <= 4 * ((SCALE * SCALE) * (a * a)) + (8 * SCALE + 1) * (m * m),
{
    let u = 2 * (m * n);
    let t = 2 * (a * SCALE);
    let d = u - t;
    assert(u * u == 4 * ((m * m) * (n * n))) by (nonlinear_arith)
        requires
            u == 2 * (m * n),
    ;
    assert(t * t == 4 * ((SCALE * SCALE) * (a * a))) by (nonlinear_arith)
        requires
            t == 2 * (a * SCALE),
    ;
    assert(abs(t) <= 4 * (SCALE * m)) by (nonlinear_arith)
        requires
            t == 2 * (a * SCALE),
            abs(a) <= 2 * m,
            SCALE == 1_000_000_000,
    ;
    assert(u * u - t * t == d * (2 * t + d)) by (nonlinear_arith)
        requires
            d == u - t,
    ;
    assert(abs(d * (2 * t + d)) <= m * (8 * (SCALE * m) + m)) by (nonlinear_arith)
        requires
            abs(d) <= m,
            abs(t) <= 4 * (SCALE * m),
            0 < m,
            SCALE == 1_000_000_000,
    {
        assert(abs(2 * t + d) <= 8 * (SCALE * m) + m);
        assert(abs(d * (2 * t + d)) == abs(d) * abs(2 * t + d));
        assert(abs(d) * abs(2 * t + d) <= m * abs(2 * t + d));
        assert(m * abs(2 * t + d) <= m * (8 * (SCALE * m) + m));
    }
    assert(m * (8 * (SCALE * m) + m) == (8 * SCALE + 1) * (m * m)) by (nonlinear_arith);
}

/// From a bound on a multiple to a bound on the number.
proof fn lemma_cancel(d: int, mm: int, c: int)
    by (nonlinear_arith)
    requires
        0 < mm,
        0 <= c,
        -c * mm <= mm * d <= c * mm,
    ensures
        -c <= d <= c,
{
    if d > c {
        assert(mm * d >= mm * (c + 1));
    }
    if d < -c {
        assert(mm * d <= mm * (-c - 1));
    }
}

/// The length that rounds to within the tolerance of one, given how far its square is from
/// one.
proof fn lemma_close_to_one(m: int, gap: int)
    by (nonlinear_arith)
    requires
        0 <= m,
        0 <= gap <= 30_000_000_000_000,
        SCALE * SCALE - gap <= m * m + m,
        m * m - m <= SCALE * SCALE + gap,
        SCALE == 1_000_000_000,
        EPSILON == 100_000,
    ensures
        abs(m - SCALE) < EPSILON,
{
    if m >= SCALE + EPSILON {
        assert(m * m - m == m * (m - 1));
        assert(m * (m - 1) >= (SCALE + EPSILON) * (SCALE + EPSILON - 1));
    }
    if m <= SCALE - EPSILON {
        assert(m * m + m == m * (m + 1));
        assert(m * (m + 1) <= (SCALE - EPSILON) * (SCALE - EPSILON + 1));
    }
}

/// Four components, the largest of them at least `LIFTED`, each over their rounded length:
/// the quotients are at most two, and their length is one up to the tolerance.
pub proof fn lemma_unit_length_raw(x: int, y: int, z: int, w: int)
    requires
        largest(x, y, z, w) >= LIFTED,
    ensures
        ({
            let m = exact_length(x, y, z, w);
            let nx = round_div(x * SCALE, m);
            let ny = round_div(y * SCALE, m);
            let nz = round_div(z * SCALE, m);
            let nw = round_div(w * SCALE, m);
            &&& abs(nx) <= 2 * SCALE
            &&& abs(ny) <= 2 * SCALE
            &&& abs(nz) <= 2 * SCALE
            &&& abs(nw) <= 2 * SCALE
            &&& abs(exact_length(nx, ny, nz, nw) - SCALE) < EPSILON
        }),
{
    let m = exact_length(x, y, z, w);
    let squares = x * x + y * y + z * z + w * w;
    lemma_unit_components(x, y, z, w);
    lemma_squares_of_magnitudes(x, y, z, w);
    lemma_round_sqrt_bounds(squares);
    let nx = round_div(x * SCALE, m);
    let ny = round_div(y * SCALE, m);
    let nz = round_div(z * SCALE, m);
    let nw = round_div(w * SCALE, m);
    lemma_quotient(x, m);
    lemma_quotient(y, m);
    lemma_quotient(z, m);
    lemma_quotient(w, m);
    lemma_quotient_squared(x, nx, m);
    lemma_quotient_squared(y, ny, m);
    lemma_quotient_squared(z, nz, m);
    lemma_quotient_squared(w, nw, m);
    let p = nx * nx + ny * ny + nz * nz + nw * nw;
    let mm = m * m;
    let ss = SCALE * SCALE;
    assert(mm * p == mm * (nx * nx) + mm * (ny * ny) + mm * (nz * nz) + mm * (nw * nw))
        by (nonlinear_arith)
        requires
            p == nx * nx + ny * ny + nz * nz + nw * nw,
    ;
    assert(ss * squares == ss * (x * x) + ss * (y * y) + ss * (z * z) + ss * (w * w))
        by (nonlinear_arith)
        requires
            squares == x * x + y * y + z * z + w * w,
    ;
    assert(ss * squares - (8 * SCALE + 1) * mm <= mm * p <= ss * squares + (8 * SCALE + 1) * mm);
    assert(ss * (mm - m) <= ss * squares <= ss * (mm + m)) by (nonlinear_arith)
        requires
            mm - m <= squares <= mm + m,
            ss == SCALE * SCALE,
            SCALE == 1_000_000_000,
    ;
    assert(ss * m <= 2_000_000_000 * mm) by (nonlinear_arith)
        requires
            ss == SCALE * SCALE,
            SCALE == 1_000_000_000,
            mm == m * m,
            500_000_000 <= m,
    {
        assert(ss == 1_000_000_000_000_000_000);
        assert(500_000_000 * m <= m * m);
    }
    assert(ss * (mm + m) == ss * mm + ss * m && ss * (mm - m) == ss * mm - ss * m)
        by (nonlinear_arith);
    assert(mm * ss == ss * mm && mm * (p - ss) == mm * p - mm * ss) by (nonlinear_arith);
    let c: int = 10_000_000_001;
    assert(0 < mm) by (nonlinear_arith)
        requires
            mm == m * m,
            500_000_000 <= m,
    ;
    assert((8 * SCALE + 1) * mm + 2_000_000_000 * mm == c * mm) by (nonlinear_arith)
        requires
            SCALE == 1_000_000_000,
            c == 10_000_000_001,
    ;
    lemma_cancel(p - ss, mm, c);
    lemma_squares_of_magnitudes(nx, ny, nz, nw);
    lemma_round_sqrt_bounds(p);
    lemma_close_to_one(exact_length(nx, ny, nz, nw), c);
}

/// A component over the length is at most two, and misses the true quotient by a half at
/// most.
proof fn lemma_quotient(a: int, m: int)
    requires
        0 < m,
        abs(a) <= 2 * m,
    ensures
        abs(round_div(a * SCALE, m)) <= 2 * SCALE,
        2 * (a * SCALE) - m <= 2 * (m * round_div(a * SCALE, m)) <= 2 * (a * SCALE) + m,
{
    let q = round_div(a * SCALE, m);
    lemma_round_div_bounds(a * SCALE, m);
    assert(abs(q) <= 2 * SCALE) by (nonlinear_arith)
        requires
            0 < m,
            abs(a) <= 2 * m,
            2 * (a * SCALE) - m <= 2 * (m * q) <= 2 * (a * SCALE) + m,
            SCALE == 1_000_000_000,
    {
        assert(abs(a) * SCALE <= (2 * m) * SCALE);
        if q > 2 * SCALE {
            assert(m * q >= m * (2 * SCALE + 1));
        }
        if q < -2 * SCALE {
            assert(m * q <= m * (-2 * SCALE - 1));
        }
    }
}

/// Every tuple of numbers that is not zero normalizes to a tuple of numbers whose length is
/// one up to the tolerance; and what is zero in the tuple is zero in the result.
pub proof fn lemma_normalized_has_unit_length(v: Tuple)
    requires
        v.wf(),
        !v.is_zero(),
    ensures
        v.spec_normalized().wf(),
        v.spec_normalized().spec_magnitude().spec_approx_eq(Scalar::one()),
        v.w@ == 0 ==> v.spec_normalized().w@ == 0,
{
    let f = lift(largest(v.x@, v.y@, v.z@, v.w@));
    lemma_lifted(v.x@, v.y@, v.z@, v.w@);
    let x = v.x@ * f;
    let y = v.y@ * f;
    let z = v.z@ * f;
    let w = v.w@ * f;
    lemma_unit_length_raw(x, y, z, w);
    lemma_unit_components(x, y, z, w);
    let m = exact_length(x, y, z, w);
    assert(v.x@ * f * SCALE == x * SCALE && v.y@ * f * SCALE == y * SCALE && v.z@ * f * SCALE == z
        * SCALE && v.w@ * f * SCALE == w * SCALE);
    if v.w@ == 0 {
        assert(w == 0) by (nonlinear_arith)
            requires
                w == v.w@ * f,
                v.w@ == 0,
        ;
        assert(w * SCALE == 0);
        lemma_round_div_bounds(0, m);
    }
}

/// A short tuple normalizes to just what the tuple doubled up normalizes to: how long a
/// tuple is does not change where its unit tuple points, as long as doubling it up is exact.
pub proof fn lemma_normalized_of_lifted(v: Tuple)
    requires
        v.wf(),
    ensures
        v.spec_times(v.spec_lift_factor()).spec_normalized() == v.spec_normalized(),
{
    let f = v.spec_lift_factor();
    if v.is_zero() {
        assert(v.spec_times(f).is_zero()) by (nonlinear_arith)
            requires
                v.is_zero(),
                v.spec_times(f).x@ == crate::scalar::fit(v.x@ * f),
                v.spec_times(f).y@ == crate::scalar::fit(v.y@ * f),
                v.spec_times(f).z@ == crate::scalar::fit(v.z@ * f),
                v.spec_times(f).w@ == crate::scalar::fit(v.w@ * f),
        ;
    } else {
        lemma_lifted(v.x@, v.y@, v.z@, v.w@);
        let u = v.spec_times(f);
        assert(u.x@ == v.x@ * f && u.y@ == v.y@ * f && u.z@ == v.z@ * f && u.w@ == v.w@ * f);
        assert(largest(u.x@, u.y@, u.z@, u.w@) >= LIFTED);
        assert(lift(largest(u.x@, u.y@, u.z@, u.w@)) == 1);
        assert(u.x@ * 1 == u.x@ && u.y@ * 1 == u.y@ && u.z@ * 1 == u.z@ && u.w@ * 1 == u.w@);
    }
}

} // verus!
