//! Homogeneous tuples: points and free vectors under one representation.
//!
//! The fourth component `w` is a tag: zero marks a vector, one marks a point. Arithmetic acts on
//! the tag like on any other component, so a sum of two points carries the tag two, which
//! [`Tuple::check_type_validity`] rejects.

use core::ops::Neg;
use vstd::prelude::*;
use crate::error::Error;
use crate::scalar::{
    abs, fit, lemma_product_sign, lemma_round_div_bounds, lemma_round_sqrt_bounds, magnitude,
    round_div, round_sqrt, round_sqrt_u128, signed, Scalar, LIMIT, SCALE, VOID,
};

verus! {

/// Three coordinates and the tag.
#[derive(Clone, Copy, Debug)]
pub struct Tuple {
    pub x: Scalar,
    pub y: Scalar,
    pub z: Scalar,
    pub w: Scalar,
}

/// A tuple meant as a point.
pub type PointT = Tuple;

/// A tuple meant as a vector.
pub type Vec3T = Tuple;

pub open spec fn spec_type_vec() -> Scalar {
    Scalar::zero()
}

pub open spec fn spec_type_pnt() -> Scalar {
    Scalar::one()
}

/// The tag of a vector.
#[verifier::when_used_as_spec(spec_type_vec)]
pub fn type_vec() -> (t: Scalar)
    ensures
        t == spec_type_vec(),
{
    Scalar::zero()
}

/// The tag of a point.
#[verifier::when_used_as_spec(spec_type_pnt)]
pub fn type_pnt() -> (t: Scalar)
    ensures
        t == spec_type_pnt(),
{
    Scalar::one()
}

pub open spec fn spec_vec3(x: Scalar, y: Scalar, z: Scalar) -> Tuple {
    Tuple { x, y, z, w: type_vec() }
}

pub open spec fn spec_point(x: Scalar, y: Scalar, z: Scalar) -> Tuple {
    Tuple { x, y, z, w: type_pnt() }
}

/// The vector `(x, y, z)`: tag zero.
#[verifier::when_used_as_spec(spec_vec3)]
pub fn vec3(x: Scalar, y: Scalar, z: Scalar) -> (t: Tuple)
    ensures
        t == spec_vec3(x, y, z),
{
    Tuple { x, y, z, w: type_vec() }
}

/// The point `(x, y, z)`: tag one.
#[verifier::when_used_as_spec(spec_point)]
pub fn point(x: Scalar, y: Scalar, z: Scalar) -> (t: Tuple)
    ensures
        t == spec_point(x, y, z),
{
    Tuple { x, y, z, w: type_pnt() }
}

/// The sum of the products of the four pairs of components, the tags too.
pub open spec fn spec_dot_product(t1: Tuple, t2: Tuple) -> Scalar {
    t1.x.spec_mul(t2.x).spec_add(t1.y.spec_mul(t2.y)).spec_add(t1.z.spec_mul(t2.z)).spec_add(
        t1.w.spec_mul(t2.w),
    )
}

/// The dot product of all four components.
#[verifier::when_used_as_spec(spec_dot_product)]
pub fn dot_product(t1: Tuple, t2: Tuple) -> (d: Scalar)
    ensures
        d == spec_dot_product(t1, t2),
{
    t1.x * t2.x + t1.y * t2.y + t1.z * t2.z + t1.w * t2.w
}

/// The cross product of the first three components; always a vector.
pub open spec fn spec_cross_product(t1: Tuple, t2: Tuple) -> Tuple {
    vec3(
        t1.y.spec_mul(t2.z).spec_sub(t1.z.spec_mul(t2.y)),
        t1.z.spec_mul(t2.x).spec_sub(t1.x.spec_mul(t2.z)),
        t1.x.spec_mul(t2.y).spec_sub(t1.y.spec_mul(t2.x)),
    )
}

/// The cross product of the first three components; always a vector.
#[verifier::when_used_as_spec(spec_cross_product)]
pub fn cross_product(t1: Tuple, t2: Tuple) -> (c: Tuple)
    ensures
        c == spec_cross_product(t1, t2),
{
    vec3(
        t1.y * t2.z - t1.z * t2.y,
        t1.z * t2.x - t1.x * t2.z,
        t1.x * t2.y - t1.y * t2.x,
    )
}

/// Below this largest component, in raw units, a tuple is doubled before it is normalized.
pub const LIFTED: i64 = 0x4000_0000;

/// The power of two that takes `k` to `LIFTED` or above, for a `k` above zero and below
/// `LIFTED`; one for any other `k`.
pub open spec fn lift(k: int) -> int
    decreases (if k < 0x4000_0000 { 0x4000_0000 - k } else { 0 }),
{
    if k <= 0 || k >= 0x4000_0000 {
        1
    } else {
        2 * lift(2 * k)
    }
}

/// The largest of the four magnitudes.
pub open spec fn largest(x: int, y: int, z: int, w: int) -> int {
    let xy = if abs(x) >= abs(y) {
        abs(x)
    } else {
        abs(y)
    };
    let zw = if abs(z) >= abs(w) {
        abs(z)
    } else {
        abs(w)
    };
    if xy >= zw {
        xy
    } else {
        zw
    }
}

/// The integer nearest to the square root of the sum of the four squares.
pub open spec fn exact_length(x: int, y: int, z: int, w: int) -> int {
    round_sqrt(x * x + y * y + z * z + w * w)
}

/// The sum of the squares of four magnitudes.
fn squares(x: u128, y: u128, z: u128, w: u128) -> (q: u128)
    requires
        x <= LIMIT,
        y <= LIMIT,
        z <= LIMIT,
        w <= LIMIT,
    ensures
        q == x * x + y * y + z * z + w * w,
{
    assert(x * x <= 0x7fff_ffff_ffff_ffff * 0x7fff_ffff_ffff_ffff && y * y <= 0x7fff_ffff_ffff_ffff
        * 0x7fff_ffff_ffff_ffff && z * z <= 0x7fff_ffff_ffff_ffff * 0x7fff_ffff_ffff_ffff && w * w
        <= 0x7fff_ffff_ffff_ffff * 0x7fff_ffff_ffff_ffff) by (nonlinear_arith)
        requires
            x <= 0x7fff_ffff_ffff_ffff,
            y <= 0x7fff_ffff_ffff_ffff,
            z <= 0x7fff_ffff_ffff_ffff,
            w <= 0x7fff_ffff_ffff_ffff,
    ;
    x * x + y * y + z * z + w * w
}

/// The square of a number is the square of its magnitude.
pub proof fn lemma_squares_of_magnitudes(x: int, y: int, z: int, w: int)
    ensures
        abs(x) * abs(x) + abs(y) * abs(y) + abs(z) * abs(z) + abs(w) * abs(w) == x * x + y * y + z
            * z + w * w,
        x * x >= 0,
        y * y >= 0,
        z * z >= 0,
        w * w >= 0,
{
    lemma_product_sign(x, x);
    lemma_product_sign(y, y);
    lemma_product_sign(z, z);
    lemma_product_sign(w, w);
    assert(x * x >= 0 && y * y >= 0 && z * z >= 0 && w * w >= 0) by (nonlinear_arith);
}

/// The factor that doubles `k` up to `LIFTED`.
fn lift_factor(k: u128) -> (f: u128)
    requires
        0 < k <= LIMIT,
    ensures
        f == lift(k as int),
        1 <= f < 2 * LIFTED,
    decreases (if k < 0x4000_0000 { 0x4000_0000 - k } else { 0 }),
{
    if k >= 0x4000_0000 {
        1
    } else {
        let rest: u128 = lift_factor(2 * k);
        proof {
            lemma_lift_bounds(k as int);
            assert(2 * rest < 2 * LIFTED) by (nonlinear_arith)
                requires
                    k * (2 * rest) < 2 * LIFTED,
                    1 <= k,
                    1 <= rest,
            ;
        }
        2 * rest
    }
}

/// What the doubling does to the components: the largest is at least `LIFTED`, and none
/// leaves the range.
pub proof fn lemma_lifted(x: int, y: int, z: int, w: int)
    requires
        abs(x) <= LIMIT,
        abs(y) <= LIMIT,
        abs(z) <= LIMIT,
        abs(w) <= LIMIT,
        largest(x, y, z, w) > 0,
    ensures
        ({
            let f = lift(largest(x, y, z, w));
            &&& f >= 1
            &&& largest(x * f, y * f, z * f, w * f) >= LIFTED
            &&& abs(x * f) <= LIMIT
            &&& abs(y * f) <= LIMIT
            &&& abs(z * f) <= LIMIT
            &&& abs(w * f) <= LIMIT
            &&& abs(x * f) == abs(x) * f
            &&& abs(y * f) == abs(y) * f
            &&& abs(z * f) == abs(z) * f
            &&& abs(w * f) == abs(w) * f
        }),
{
    let k = largest(x, y, z, w);
    lemma_lift_bounds(k);
    let f = lift(k);
    lemma_product_sign(x, f);
    lemma_product_sign(y, f);
    lemma_product_sign(z, f);
    lemma_product_sign(w, f);
    assert(abs(x) * f <= k * f && abs(y) * f <= k * f && abs(z) * f <= k * f && abs(w) * f <= k
        * f) by (nonlinear_arith)
        requires
            0 <= abs(x) <= k,
            0 <= abs(y) <= k,
            0 <= abs(z) <= k,
            0 <= abs(w) <= k,
            f >= 1,
    ;
    if k >= LIFTED {
        assert(k * 1 == k);
    }
}

/// The doubling factor takes a magnitude below `LIFTED` into the octave above it.
pub proof fn lemma_lift_bounds(k: int)
    requires
        0 < k,
    ensures
        lift(k) >= 1,
        k >= LIFTED ==> lift(k) == 1,
        k < LIFTED ==> LIFTED <= k * lift(k) < 2 * LIFTED,
    decreases (if k < 0x4000_0000 { 0x4000_0000 - k } else { 0 }),
{
    if k < LIFTED {
        lemma_lift_bounds(2 * k);
        assert((2 * k) * lift(2 * k) == k * (2 * lift(2 * k))) by (nonlinear_arith);
        if 2 * k >= LIFTED {
            assert((2 * k) * 1 == 2 * k);
        }
    }
}

/// A magnitude over a length, with its sign, rounded to a raw unit.
fn over_length(negative: bool, a: u128, m: u128) -> (r: Scalar)
    requires
        a <= LIMIT,
        0 < m <= 0x1_0000_0000_0000_0000,
        a <= 2 * m,
    ensures
        r@ == round_div(if negative { (-(a as int)) * SCALE } else { a * SCALE }, m as int),
        abs(r@) <= 2 * SCALE,
{
    assert(a * 1_000_000_000 <= 0x7fff_ffff_ffff_ffff * 1_000_000_000) by (nonlinear_arith)
        requires
            a <= 0x7fff_ffff_ffff_ffff,
    ;
    let q: u128 = (2 * (a * 1_000_000_000u128) + m) / (2 * m);
    proof {
        reveal(round_div);
        lemma_product_sign(a as int, SCALE as int);
        lemma_product_sign(-(a as int), SCALE as int);
        lemma_round_div_bounds(a * SCALE, m as int);
        assert(q <= 2 * SCALE) by (nonlinear_arith)
            requires
                2 * (m * q) <= 2 * (a * SCALE) + m,
                a <= 2 * m,
                0 < m,
                0 <= q,
                SCALE == 1_000_000_000,
        {
            assert(a * SCALE <= (2 * m) * SCALE);
            if q > 2 * SCALE {
                assert(m * q >= m * (2 * SCALE + 1));
            }
        }
    }
    if negative {
        Scalar { raw: -(q as i64) }
    } else {
        Scalar { raw: q as i64 }
    }
}

/// The rounded length of a lifted tuple is at least half of `LIFTED`, and no component is
/// longer than twice that length.
pub proof fn lemma_unit_components(x: int, y: int, z: int, w: int)
    requires
        largest(x, y, z, w) >= LIFTED,
    ensures
        ({
            let m = exact_length(x, y, z, w);
            &&& m >= LIFTED / 2
            &&& abs(x) <= 2 * m
            &&& abs(y) <= 2 * m
            &&& abs(z) <= 2 * m
            &&& abs(w) <= 2 * m
        }),
{
    let q = x * x + y * y + z * z + w * w;
    let k = largest(x, y, z, w);
    lemma_squares_of_magnitudes(x, y, z, w);
    assert(k * k >= LIFTED * LIFTED) by (nonlinear_arith)
        requires
            k >= LIFTED,
            LIFTED > 0,
    ;
    assert(q >= k * k);
    lemma_round_sqrt_bounds(q);
    let m = round_sqrt(q);
    assert(m >= LIFTED / 2) by (nonlinear_arith)
        requires
            q <= m * m + m,
            q >= LIFTED * LIFTED,
            0 <= m,
            LIFTED == 0x4000_0000,
    {
        if m < 0x2000_0000 {
            assert(m * m + m <= 0x2000_0000 * 0x2000_0000);
        }
    }
    assert(m <= m * m) by (nonlinear_arith)
        requires
            m >= 1,
    ;
    lemma_root_of_bound(x, m);
    lemma_root_of_bound(y, m);
    lemma_root_of_bound(z, m);
    lemma_root_of_bound(w, m);
}

/// A number whose square is at most four times the square of another is at most twice the
/// other.
pub proof fn lemma_root_of_bound(a: int, m: int)
    by (nonlinear_arith)
    requires
        0 <= m,
        a * a <= 4 * (m * m),
    ensures
        abs(a) <= 2 * m,
{
    if a > 2 * m {
        assert(a * a >= (2 * m + 1) * (2 * m + 1));
    }
    if -a > 2 * m {
        assert((-a) * (-a) >= (2 * m + 1) * (2 * m + 1));
        assert((-a) * (-a) == a * a);
    }
}

impl Tuple {
    /// Every component is a number.
    pub open spec fn wf(self) -> bool {
        self.x.wf() && self.y.wf() && self.z.wf() && self.w.wf()
    }

    /// The tuple that is no tuple of numbers: what a direction without a length comes to.
    pub open spec fn spec_void() -> Tuple {
        Tuple {
            x: Scalar { raw: VOID },
            y: Scalar { raw: VOID },
            z: Scalar { raw: VOID },
            w: Scalar { raw: VOID },
        }
    }

    /// All four components are zero.
    pub open spec fn is_zero(self) -> bool {
        self.x@ == 0 && self.y@ == 0 && self.z@ == 0 && self.w@ == 0
    }

    /// The power of two by which the tuple is doubled up before it is divided: one for a tuple
    /// whose largest component is at least `LIFTED`, for the zero tuple, and for a tuple that
    /// is no tuple of numbers.
    pub open spec fn spec_lift_factor(&self) -> int {
        if self.wf() {
            lift(largest(self.x@, self.y@, self.z@, self.w@))
        } else {
            1
        }
    }

    /// Every component times the whole number `f`.
    pub open spec fn spec_times(&self, f: int) -> Tuple {
        Tuple {
            x: self.x.spec_times(f),
            y: self.y.spec_times(f),
            z: self.z.spec_times(f),
            w: self.w.spec_times(f),
        }
    }

    /// The power of two by which the tuple is doubled up before it is divided.
    pub fn lift_factor(&self) -> (f: u32)
        ensures
            f == self.spec_lift_factor(),
            1 <= f < 2 * LIFTED,
    {
        if !self.is_number() {
            return 1;
        }
        let x: u128 = magnitude(self.x.raw);
        let y: u128 = magnitude(self.y.raw);
        let z: u128 = magnitude(self.z.raw);
        let w: u128 = magnitude(self.w.raw);
        let xy: u128 = if x >= y { x } else { y };
        let zw: u128 = if z >= w { z } else { w };
        let big: u128 = if xy >= zw { xy } else { zw };
        if big == 0 {
            return 1;
        }
        lift_factor(big) as u32
    }

    /// Every component times the whole number `f`.
    pub fn times(&self, f: u32) -> (t: Tuple)
        ensures
            t == self.spec_times(f as int),
    {
        Tuple { x: self.x.times(f), y: self.y.times(f), z: self.z.times(f), w: self.w.times(f) }
    }

    /// Whether every component is a number.
    #[verifier::when_used_as_spec(wf)]
    pub fn is_number(self) -> (b: bool)
        ensures
            b == self.wf(),
    {
        self.x.is_number() && self.y.is_number() && self.z.is_number() && self.w.is_number()
    }

    /// The tag is one.
    pub open spec fn is_point(self) -> bool {
        self.w == type_pnt()
    }

    /// The tag is zero.
    pub open spec fn is_vector(self) -> bool {
        self.w == type_vec()
    }

    /// Component by component, the tag too.
    pub open spec fn spec_add(self, t2: Tuple) -> Tuple {
        Tuple {
            x: self.x.spec_add(t2.x),
            y: self.y.spec_add(t2.y),
            z: self.z.spec_add(t2.z),
            w: self.w.spec_add(t2.w),
        }
    }

    /// Component by component, the tag too.
    pub open spec fn spec_sub(self, t2: Tuple) -> Tuple {
        Tuple {
            x: self.x.spec_sub(t2.x),
            y: self.y.spec_sub(t2.y),
            z: self.z.spec_sub(t2.z),
            w: self.w.spec_sub(t2.w),
        }
    }

    /// Every component negated, the tag too.
    pub open spec fn spec_neg(self) -> Tuple {
        Tuple {
            x: self.x.spec_neg(),
            y: self.y.spec_neg(),
            z: self.z.spec_neg(),
            w: self.w.spec_neg(),
        }
    }

    /// Every component, the tag too, times `scalar`.
    pub open spec fn spec_scale(self, scalar: Scalar) -> Tuple {
        Tuple {
            x: scalar.spec_mul(self.x),
            y: scalar.spec_mul(self.y),
            z: scalar.spec_mul(self.z),
            w: scalar.spec_mul(self.w),
        }
    }

    /// The length: the square root of the exact sum of the four squares, rounded once. No
    /// number where a component is none, or where the length leaves the range.
    pub open spec fn spec_magnitude(&self) -> Scalar {
        if self.wf() {
            Scalar { raw: fit(exact_length(self.x@, self.y@, self.z@, self.w@)) as i64 }
        } else {
            Scalar { raw: VOID }
        }
    }

    /// Every component, the tag too, over the length, so that the result has length one. A
    /// tuple too short to divide well is doubled first until its largest component is at least
    /// about one, which does not change where it points. No tuple of numbers where a component
    /// is none or the tuple is zero: such a tuple points nowhere.
    pub open spec fn spec_normalized(&self) -> Tuple {
        if self.wf() && !self.is_zero() {
            let f = lift(largest(self.x@, self.y@, self.z@, self.w@));
            let m = exact_length(self.x@ * f, self.y@ * f, self.z@ * f, self.w@ * f);
            Tuple {
                x: Scalar { raw: round_div(self.x@ * f * SCALE, m) as i64 },
                y: Scalar { raw: round_div(self.y@ * f * SCALE, m) as i64 },
                z: Scalar { raw: round_div(self.z@ * f * SCALE, m) as i64 },
                w: Scalar { raw: round_div(self.w@ * f * SCALE, m) as i64 },
            }
        } else {
            Tuple::spec_void()
        }
    }

    /// `v` mirrored about the normal `self`: `v - self * (2 * (v . self))`.
    pub open spec fn spec_reflect(&self, v: Tuple) -> Tuple {
        v.spec_sub(self.spec_scale(Scalar::spec_from_int(2).spec_mul(dot_product(v, *self))))
    }

    /// Equal up to the tolerance in every component.
    pub open spec fn spec_approx_eq(self, t1: Tuple) -> bool {
        self.x.spec_approx_eq(t1.x) && self.y.spec_approx_eq(t1.y) && self.z.spec_approx_eq(t1.z)
            && self.w.spec_approx_eq(t1.w)
    }

    /// Fails unless the tag is that of a point or that of a vector.
    pub fn check_type_validity(&self) -> (r: Result<(), Error>)
        ensures
            r is Ok <==> self.is_point() || self.is_vector(),
            r is Err ==> r == Err::<(), Error>(Error::Type),
    {
        if self.w != type_vec() && self.w != type_pnt() {
            Err(Error::Type)
        } else {
            Ok(())
        }
    }

    /// Fails unless the tag is `t`.
    pub fn check_type(&self, t: Scalar) -> (r: Result<(), Error>)
        ensures
            r is Ok <==> self.w == t,
            r is Err ==> r == Err::<(), Error>(Error::Type),
    {
        if self.w != t {
            Err(Error::Type)
        } else {
            Ok(())
        }
    }

    /// The length of the tuple: the square root of the sum of the four squares.
    #[verifier::when_used_as_spec(spec_magnitude)]
    pub fn magnitude(&self) -> (m: Scalar)
        ensures
            m == self.spec_magnitude(),
    {
        if !self.is_number() {
            return Scalar { raw: VOID };
        }
        let q: u128 = squares(
            magnitude(self.x.raw),
            magnitude(self.y.raw),
            magnitude(self.z.raw),
            magnitude(self.w.raw),
        );
        proof {
            lemma_squares_of_magnitudes(self.x@, self.y@, self.z@, self.w@);
        }
        signed(false, round_sqrt_u128(q))
    }

    /// The tuple over its length; no tuple of numbers for the zero tuple.
    #[verifier::when_used_as_spec(spec_normalized)]
    pub fn normalized(&self) -> (n: Tuple)
        ensures
            n == self.spec_normalized(),
    {
        let void = Scalar { raw: VOID };
        if !self.is_number() {
            return Tuple { x: void, y: void, z: void, w: void };
        }
        let x: u128 = magnitude(self.x.raw);
        let y: u128 = magnitude(self.y.raw);
        let z: u128 = magnitude(self.z.raw);
        let w: u128 = magnitude(self.w.raw);
        let xy: u128 = if x >= y { x } else { y };
        let zw: u128 = if z >= w { z } else { w };
        let big: u128 = if xy >= zw { xy } else { zw };
        if big == 0 {
            return Tuple { x: void, y: void, z: void, w: void };
        }
        let f: u128 = lift_factor(big);
        proof {
            lemma_lifted(self.x@, self.y@, self.z@, self.w@);
            lemma_unit_components(self.x@ * f, self.y@ * f, self.z@ * f, self.w@ * f);
        }
        let m: u128 = round_sqrt_u128(squares(x * f, y * f, z * f, w * f));
        proof {
            lemma_squares_of_magnitudes(self.x@ * f, self.y@ * f, self.z@ * f, self.w@ * f);
            let lifted_length = exact_length(
                self.x@ * f,
                self.y@ * f,
                self.z@ * f,
                self.w@ * f,
            );
            assert(m == lifted_length);
            assert(self.x@ < 0 ==> -((x * f) as int) == self.x@ * f) by (nonlinear_arith)
                requires
                    self.x@ < 0 ==> x == -self.x@,
            ;
            assert(self.x@ >= 0 ==> (x * f) as int == self.x@ * f);
            assert(self.y@ < 0 ==> -((y * f) as int) == self.y@ * f) by (nonlinear_arith)
                requires
                    self.y@ < 0 ==> y == -self.y@,
            ;
            assert(self.y@ >= 0 ==> (y * f) as int == self.y@ * f);
            assert(self.z@ < 0 ==> -((z * f) as int) == self.z@ * f) by (nonlinear_arith)
                requires
                    self.z@ < 0 ==> z == -self.z@,
            ;
            assert(self.z@ >= 0 ==> (z * f) as int == self.z@ * f);
            assert(self.w@ < 0 ==> -((w * f) as int) == self.w@ * f) by (nonlinear_arith)
                requires
                    self.w@ < 0 ==> w == -self.w@,
            ;
            assert(self.w@ >= 0 ==> (w * f) as int == self.w@ * f);
        }
        Tuple {
            x: over_length(self.x.raw < 0, x * f, m),
            y: over_length(self.y.raw < 0, y * f, m),
            z: over_length(self.z.raw < 0, z * f, m),
            w: over_length(self.w.raw < 0, w * f, m),
        }
    }

    /// `v` mirrored about the normal `self`.
    #[verifier::when_used_as_spec(spec_reflect)]
    pub fn reflect(&self, v: Tuple) -> (r: Tuple)
        ensures
            r == self.spec_reflect(v),
    {
        v - *self * (Scalar::from_int(2) * dot_product(v, *self))
    }
}

/// The cross product anti-commutes: swapping the factors negates it. This holds of all tuples,
/// exactly, numbers or not.
pub proof fn lemma_cross_product_anticommutes(u: Tuple, v: Tuple)
    ensures
        cross_product(u, v) == cross_product(v, u).spec_neg(),
{
    u.y.lemma_mul_commutes(v.z);
    u.z.lemma_mul_commutes(v.y);
    u.z.lemma_mul_commutes(v.x);
    u.x.lemma_mul_commutes(v.z);
    u.x.lemma_mul_commutes(v.y);
    u.y.lemma_mul_commutes(v.x);
    u.y.spec_mul(v.z).lemma_sub_swaps(u.z.spec_mul(v.y));
    u.z.spec_mul(v.x).lemma_sub_swaps(u.x.spec_mul(v.z));
    u.x.spec_mul(v.y).lemma_sub_swaps(u.y.spec_mul(v.x));
}

/// The operator `+`; it computes `self.spec_add(t2)`.
impl core::ops::Add for Tuple {
    type Output = Tuple;

    fn add(self, t2: Tuple) -> (r: Tuple)
    {
        Tuple { x: self.x + t2.x, y: self.y + t2.y, z: self.z + t2.z, w: self.w + t2.w }
    }
}

impl vstd::std_specs::ops::AddSpecImpl for Tuple {
    open spec fn obeys_add_spec() -> bool {
        true
    }

    open spec fn add_req(self, t2: Tuple) -> bool {
        true
    }

    open spec fn add_spec(self, t2: Tuple) -> Tuple {
        self.spec_add(t2)
    }
}

/// The operator `-`; it computes `self.spec_sub(t2)`.
impl core::ops::Sub for Tuple {
    type Output = Tuple;

    fn sub(self, t2: Tuple) -> (r: Tuple)
    {
        Tuple { x: self.x - t2.x, y: self.y - t2.y, z: self.z - t2.z, w: self.w - t2.w }
    }
}

impl vstd::std_specs::ops::SubSpecImpl for Tuple {
    open spec fn obeys_sub_spec() -> bool {
        true
    }

    open spec fn sub_req(self, t2: Tuple) -> bool {
        true
    }

    open spec fn sub_spec(self, t2: Tuple) -> Tuple {
        self.spec_sub(t2)
    }
}

/// The operator `-self`; it computes `self.spec_neg()`.
impl core::ops::Neg for Tuple {
    type Output = Tuple;

    fn neg(self) -> (r: Tuple)
    {
        Tuple { x: self.x.neg(), y: self.y.neg(), z: self.z.neg(), w: self.w.neg() }
    }
}

impl vstd::std_specs::ops::NegSpecImpl for Tuple {
    open spec fn obeys_neg_spec() -> bool {
        true
    }

    open spec fn neg_req(self) -> bool {
        true
    }

    open spec fn neg_spec(self) -> Tuple {
        self.spec_neg()
    }
}

/// The operator `*`; it computes `self.spec_scale(scalar)`.
impl core::ops::Mul<Scalar> for Tuple {
    type Output = Tuple;

    fn mul(self, scalar: Scalar) -> (r: Tuple)
    {
        Tuple { x: scalar * self.x, y: scalar * self.y, z: scalar * self.z, w: scalar * self.w }
    }
}

impl vstd::std_specs::ops::MulSpecImpl<Scalar> for Tuple {
    open spec fn obeys_mul_spec() -> bool {
        true
    }

    open spec fn mul_req(self, scalar: Scalar) -> bool {
        true
    }

    open spec fn mul_spec(self, scalar: Scalar) -> Tuple {
        self.spec_scale(scalar)
    }
}

/// The operator `*`; it computes `t1.spec_scale(self)`.
impl core::ops::Mul<Tuple> for Scalar {
    type Output = Tuple;

    fn mul(self, t1: Tuple) -> (r: Tuple)
    {
        Tuple { x: self * t1.x, y: self * t1.y, z: self * t1.z, w: self * t1.w }
    }
}

impl vstd::std_specs::ops::MulSpecImpl<Tuple> for Scalar {
    open spec fn obeys_mul_spec() -> bool {
        true
    }

    open spec fn mul_req(self, t1: Tuple) -> bool {
        true
    }

    open spec fn mul_spec(self, t1: Tuple) -> Tuple {
        t1.spec_scale(self)
    }
}

/// The operator `==` is equality up to the tolerance; it computes `self.spec_approx_eq(*t1)`.
impl PartialEq for Tuple {
    fn eq(&self, t1: &Tuple) -> (r: bool)
    {
        self.x.approx_eq(t1.x) && self.y.approx_eq(t1.y) && self.z.approx_eq(t1.z)
            && self.w.approx_eq(t1.w)
    }
}

impl vstd::std_specs::cmp::PartialEqSpecImpl for Tuple {
    open spec fn obeys_eq_spec() -> bool {
        true
    }

    open spec fn eq_spec(&self, t1: &Tuple) -> bool {
        self.spec_approx_eq(*t1)
    }
}

} // verus!
