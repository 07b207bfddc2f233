//! The sphere.

use core::ops::Neg;
use vstd::prelude::*;
use crate::accuracy::lemma_normalized_has_unit_length;
use crate::error::Error;
use crate::material::Material;
use crate::matrix::Matrix4x4;
use crate::primatives::{dot_product, type_pnt, PointT, Tuple, Vec3T};
use crate::ray::Ray;
use crate::scalar::{
    abs, fit, fitted, lemma_product_sign, lemma_round_div_near, lemma_round_sqrt_bounds, magnitude,
    round_div, round_sqrt, round_sqrt_u128, rounded_quotient, Scalar, LIMIT, SCALE, VOID,
};
use crate::shapes::intersection::{
    checked, spec_checked, spec_with_normal, with_normal, Intersection,
};
use crate::shapes::Shape;

verus! {

/// A sphere of a given radius about a given center in its own space, carried into the world
/// by `transformation`.
#[derive(Debug, Copy, Clone)]
pub struct Sphere {
    pub radius: Scalar,
    pub origin: Tuple,
    pub transformation: Matrix4x4,
    pub material: Material,
}

/// A sphere of radius `r` about `o`, untransformed, of the default material; fails unless `o`
/// is a point.
pub fn new(r: Scalar, o: Tuple) -> (res: Result<Sphere, Error>)
    ensures
        o.is_point() ==> res == Ok::<Sphere, Error>(
            Sphere {
                radius: r,
                origin: o,
                transformation: crate::matrix::identity4x4(),
                material: crate::material::new_default(),
            },
        ),
        !o.is_point() ==> res == Err::<Sphere, Error>(Error::Type),
{
    if o.check_type(type_pnt()).is_err() {
        return Err(Error::Type);
    }
    Ok(
        Sphere {
            radius: r,
            origin: o,
            transformation: crate::matrix::identity4x4(),
            material: crate::material::new_default(),
        },
    )
}

/// The coefficients of the quadratic `a t^2 + b t + c` whose roots are the times at which a
/// ray meets a sphere.
#[derive(Debug, Copy, Clone)]
pub struct Quadratic {
    pub a: Scalar,
    pub b: Scalar,
    pub c: Scalar,
}

/// The largest discriminant, in squares of raw units, of which the root is taken.
pub open spec fn widest() -> int {
    0xffff_ffff_ffff_ffff_ffff_ffff_ffff_ffff
}

impl Quadratic {
    /// All three coefficients are numbers.
    pub open spec fn wf(&self) -> bool {
        self.a.wf() && self.b.wf() && self.c.wf()
    }

    /// `b * b - 4 * a * c`, exactly, in squares of raw units.
    pub open spec fn spec_exact_discriminant(&self) -> int {
        self.b@ * self.b@ - 4 * (self.a@ * self.c@)
    }

    /// The root `(-b + root) / 2a`, rounded once to a raw unit, then times the whole number
    /// `f`; `root` is the square root of the discriminant or its negative.
    pub open spec fn spec_root(&self, root: int, f: int) -> int {
        round_div((-self.b@ + root) * SCALE, 2 * self.a@) * f
    }

    /// The roots, each times the whole number `f`. The sign of the exact discriminant decides
    /// how many there are: none below zero; one, `-b / 2a`, at zero; above, first
    /// `(-b + sqrt(d)) / 2a`, then `(-b - sqrt(d)) / 2a`. There is no answer where a
    /// coefficient is no number, where the discriminant is wider than `widest`, where `a` is
    /// zero though the discriminant is not negative, and where a root leaves the range.
    pub open spec fn spec_roots(&self, f: int) -> Result<Seq<Scalar>, Error> {
        let d = self.spec_exact_discriminant();
        let root = round_sqrt(d);
        if !self.wf() || d > widest() {
            Err(Error::Range)
        } else if d < 0 {
            Ok(Seq::empty())
        } else if self.a@ == 0 {
            Err(Error::Range)
        } else if d == 0 {
            if fit(self.spec_root(0, f)) == VOID {
                Err(Error::Range)
            } else {
                Ok(seq![Scalar { raw: self.spec_root(0, f) as i64 }])
            }
        } else if fit(self.spec_root(root, f)) == VOID || fit(self.spec_root(-root, f)) == VOID {
            Err(Error::Range)
        } else {
            Ok(
                seq![
                    Scalar { raw: self.spec_root(root, f) as i64 },
                    Scalar { raw: self.spec_root(-root, f) as i64 },
                ],
            )
        }
    }

    /// A root solves the quadratic up to rounding. With `t` the root before it is multiplied,
    /// and `r` the rounded square root of the discriminant, four times `a` times the value of
    /// the quadratic at `t` is at most `r` plus `2 r a` plus `a * a`, all in raw units: the
    /// value of the quadratic is within about half the root of the discriminant over `a`, in
    /// billionths.
    pub proof fn lemma_root_solves(&self, upper: bool)
        requires
            self.spec_exact_discriminant() >= 0,
            self.a@ != 0,
        ensures
            ({
                let r = round_sqrt(self.spec_exact_discriminant());
                let t = self.spec_root(if upper { r } else { -r }, 1);
                let value = self.a@ * (t * t) + (self.b@ * SCALE) * t + self.c@ * (SCALE * SCALE);
                abs(4 * (self.a@ * value)) <= r * (SCALE * SCALE) + 2 * ((r * SCALE) * abs(self.a@))
                    + self.a@ * self.a@
            }),
    {
        let a = self.a@;
        let b = self.b@;
        let c = self.c@;
        let s = SCALE as int;
        let d = self.spec_exact_discriminant();
        let r = round_sqrt(d);
        let root = if upper { r } else { -r };
        let n = (-b + root) * s;
        let q = round_div(n, 2 * a);
        let t = self.spec_root(root, 1);
        assert(t == q) by {
            assert(q * 1 == q);
        }
        lemma_round_div_near(n, 2 * a);
        lemma_round_sqrt_bounds(d);
        let u = 2 * (a * q) + b * s;
        let e = u - root * s;
        assert(abs(e) <= abs(a)) by (nonlinear_arith)
            requires
                abs(2 * ((2 * a) * q) - 2 * n) <= abs(2 * a),
                n == (-b + root) * s,
                e == 2 * (a * q) + b * s - root * s,
        ;
        assert(root * root == r * r) by (nonlinear_arith)
            requires
                root == r || root == -r,
        ;
        let value = a * (q * q) + (b * s) * q + c * (s * s);
        let x = a * q;
        let y = b * s;
        let p1 = a * (q * q);
        let p2 = (b * s) * q;
        let p3 = c * (s * s);
        assert(u * u == 4 * (x * x) + 4 * (x * y) + y * y) by (nonlinear_arith)
            requires
                u == 2 * x + y,
        ;
        assert(x * x == a * p1) by (nonlinear_arith)
            requires
                x == a * q,
                p1 == a * (q * q),
        ;
        assert(x * y == a * p2) by (nonlinear_arith)
            requires
                x == a * q,
                y == b * s,
                p2 == (b * s) * q,
        ;
        assert(y * y == (b * b) * (s * s)) by (nonlinear_arith)
            requires
                y == b * s,
        ;
        assert(d * (s * s) == (b * b) * (s * s) - 4 * (a * p3)) by (nonlinear_arith)
            requires
                d == b * b - 4 * (a * c),
                p3 == c * (s * s),
        ;
        assert(a * value == a * p1 + a * p2 + a * p3) by (nonlinear_arith)
            requires
                value == p1 + p2 + p3,
        ;
        assert(u * u - d * (s * s) == 4 * (a * value));
        assert(u * u - d * (s * s) == (r * r - d) * (s * s) + 2 * ((root * s) * e) + e * e)
            by (nonlinear_arith)
            requires
                e == u - root * s,
                root * root == r * r,
        ;
        assert(abs((r * r - d) * (s * s)) <= r * (s * s)) by (nonlinear_arith)
            requires
                r * r - r <= d <= r * r + r,
                0 <= r,
                s > 0,
        ;
        assert(abs(2 * ((root * s) * e)) <= 2 * ((r * s) * abs(a))) by (nonlinear_arith)
            requires
                root == r || root == -r,
                0 <= r,
                s > 0,
                abs(e) <= abs(a),
        {
            assert(abs((root * s) * e) == (r * s) * abs(e));
            assert((r * s) * abs(e) <= (r * s) * abs(a));
        }
        assert(e * e <= a * a) by (nonlinear_arith)
            requires
                abs(e) <= abs(a),
        {
            assert(e * e == abs(e) * abs(e));
            assert(a * a == abs(a) * abs(a));
            assert(abs(e) * abs(e) <= abs(a) * abs(e));
            assert(abs(a) * abs(e) <= abs(a) * abs(a));
        }
        assert(0 <= e * e) by (nonlinear_arith);
    }

    /// One root, from the root of the discriminant with its sign.
    fn root(&self, negative: bool, root: u128, f: u32) -> (res: Result<Scalar, Error>)
        requires
            self.wf(),
            self.a@ != 0,
            root <= 0x1_0000_0000_0000_0000,
        ensures
            ({
                let t = self.spec_root(if negative { -(root as int) } else { root as int }, f as int);
                if fit(t) == VOID {
                    res == Err::<Scalar, Error>(Error::Range)
                } else {
                    res == Ok::<Scalar, Error>(Scalar { raw: t as i64 })
                }
            }),
    {
        let signed_root: i128 = if negative { -(root as i128) } else { root as i128 };
        let sum: i128 = -(self.b.raw as i128) + signed_root;
        assert(-27_670_116_110_564_327_424 * 1_000_000_000 <= sum * 1_000_000_000
            <= 27_670_116_110_564_327_424 * 1_000_000_000) by (nonlinear_arith)
            requires
                -27_670_116_110_564_327_424 <= sum <= 27_670_116_110_564_327_424,
        ;
        let q: i128 = rounded_quotient(sum * 1_000_000_000i128, 2 * (self.a.raw as i128));
        assert(-27_670_116_110_564_327_424_000_000_001 * 0xffff_ffff <= q * f
            <= 27_670_116_110_564_327_424_000_000_001 * 0xffff_ffff) by (nonlinear_arith)
            requires
                -27_670_116_110_564_327_424_000_000_001 <= q
                    <= 27_670_116_110_564_327_424_000_000_001,
                0 <= f <= 0xffff_ffff,
        ;
        let t = fitted(q * f as i128);
        if t.is_number() {
            Ok(t)
        } else {
            Err(Error::Range)
        }
    }

    /// The roots, each times the whole number `f`, the greater first where `a` is positive;
    /// none where the discriminant is negative. Fails where there is no answer.
    pub fn roots(&self, f: u32) -> (res: Result<Vec<Scalar>, Error>)
        ensures
            match self.spec_roots(f as int) {
                Ok(times) => res is Ok && res->Ok_0@ == times,
                Err(e) => res is Err && res->Err_0 == e,
            },
    {
        if !self.a.is_number() || !self.b.is_number() || !self.c.is_number() {
            return Err(Error::Range);
        }
        let ma: u128 = magnitude(self.a.raw);
        let mb: u128 = magnitude(self.b.raw);
        let mc: u128 = magnitude(self.c.raw);
        proof {
            lemma_product_sign(self.a@, self.c@);
            lemma_product_sign(self.b@, self.b@);
            assert(mb * mb <= 0x7fff_ffff_ffff_ffff * 0x7fff_ffff_ffff_ffff && ma * mc
                <= 0x7fff_ffff_ffff_ffff * 0x7fff_ffff_ffff_ffff) by (nonlinear_arith)
                requires
                    ma <= 0x7fff_ffff_ffff_ffff,
                    mb <= 0x7fff_ffff_ffff_ffff,
                    mc <= 0x7fff_ffff_ffff_ffff,
            ;
        }
        let bb: u128 = mb * mb;
        let ac4: u128 = 4 * (ma * mc);
        let same_sign: bool = (self.a.raw > 0 && self.c.raw > 0) || (self.a.raw < 0 && self.c.raw
            < 0);
        let d: u128 = if same_sign {
            if bb < ac4 {
                return Ok(Vec::new());
            }
            bb - ac4
        } else {
            if ac4 > 0xffff_ffff_ffff_ffff_ffff_ffff_ffff_ffffu128 - bb {
                return Err(Error::Range);
            }
            bb + ac4
        };
        if self.a.raw == 0 {
            return Err(Error::Range);
        }
        let mut t_values: Vec<Scalar> = Vec::new();
        if d == 0 {
            match self.root(false, 0, f) {
                Ok(t) => {
                    t_values.push(t);
                },
                Err(e) => {
                    return Err(e);
                },
            }
        } else {
            let root: u128 = round_sqrt_u128(d);
            let first = match self.root(false, root, f) {
                Ok(t) => t,
                Err(e) => {
                    return Err(e);
                },
            };
            let second = match self.root(true, root, f) {
                Ok(t) => t,
                Err(e) => {
                    return Err(e);
                },
            };
            t_values.push(first);
            t_values.push(second);
        }
        Ok(t_values)
    }
}

impl Sphere {
    /// The quadratic for a ray already in the space of the sphere.
    pub open spec fn spec_quadratic(&self, r: Ray) -> Quadratic {
        let sphere_to_ray = r.origin.spec_sub(self.origin);
        Quadratic {
            a: dot_product(r.direction, r.direction),
            b: Scalar::spec_from_int(2).spec_mul(dot_product(r.direction, sphere_to_ray)),
            c: dot_product(sphere_to_ray, sphere_to_ray).spec_sub(
                self.radius.spec_mul(self.radius),
            ),
        }
    }

    /// The quadratic for a ray already in the space of the sphere.
    #[verifier::when_used_as_spec(spec_quadratic)]
    pub fn quadratic(&self, r: Ray) -> (q: Quadratic)
        ensures
            q == self.spec_quadratic(r),
    {
        let sphere_to_ray = r.origin - self.origin;
        Quadratic {
            a: dot_product(r.direction, r.direction),
            b: Scalar::from_int(2) * dot_product(r.direction, sphere_to_ray),
            c: dot_product(sphere_to_ray, sphere_to_ray) - self.radius * self.radius,
        }
    }

    /// The sphere with `m` applied before the transformations it has already.
    pub open spec fn spec_transformed(self, m: Matrix4x4) -> Sphere {
        Sphere {
            radius: self.radius,
            origin: self.origin,
            transformation: self.transformation.spec_mul(&m),
            material: self.material,
        }
    }

    /// The normal before it is brought to unit length: the point taken into the space of the
    /// sphere, minus the center, taken back by the transposed inverse, its tag set to zero.
    pub open spec fn spec_raw_normal(&self, p: PointT) -> Vec3T {
        let inverse = self.transformation.spec_inverse();
        let obj_normal = inverse.spec_mul_tuple(p).spec_sub(self.origin);
        let world_normal = inverse.spec_transposed().spec_mul_tuple(obj_normal);
        Tuple { x: world_normal.x, y: world_normal.y, z: world_normal.z, w: Scalar::zero() }
    }

    /// The times at which `r_input` meets the sphere. The ray is taken into the space of the
    /// sphere; its direction is doubled up until its largest component is about one, so that
    /// a short direction loses nothing in the squares; the quadratic is solved, and the roots
    /// are multiplied by what the direction was multiplied by.
    #[verifier::opaque]
    pub open spec fn spec_hit_times(&self, r_input: Ray) -> Result<Seq<Scalar>, Error> {
        match self.transformation.spec_checked_inverse() {
            Err(e) => Err(e),
            Ok(inverse) => {
                let r = r_input.spec_transform(inverse);
                let f = r.direction.spec_lift_factor();
                self.spec_quadratic(
                    Ray { origin: r.origin, direction: r.direction.spec_times(f) },
                ).spec_roots(f)
            },
        }
    }

    /// The hit times, given the inverse of the transformation.
    fn hit_times(&self, inverse: Matrix4x4, r_input: Ray) -> (res: Result<Vec<Scalar>, Error>)
        requires
            self.transformation.spec_checked_inverse() == Ok::<Matrix4x4, Error>(inverse),
        ensures
            match self.spec_hit_times(r_input) {
                Ok(times) => res is Ok && res->Ok_0@ == times,
                Err(e) => res is Err && res->Err_0 == e,
            },
    {
        proof {
            reveal(Sphere::spec_hit_times);
        }
        let r = inverse * r_input;
        let f = r.direction.lift_factor();
        self.quadratic(Ray { origin: r.origin, direction: r.direction.times(f) }).roots(f)
    }

    /// The unit normal at `p`. Fails unless `p` is a point (`Type`), where the transformation
    /// has no inverse, and where the normal is no tuple of numbers, as it is at the center
    /// (`Range`).
    #[verifier::opaque]
    pub open spec fn spec_normal(&self, p: PointT) -> Result<Vec3T, Error> {
        if !p.is_point() {
            Err(Error::Type)
        } else {
            match self.transformation.spec_checked_inverse() {
                Err(e) => Err(e),
                Ok(_) => if self.spec_raw_normal(p).spec_normalized().wf() {
                    Ok(self.spec_raw_normal(p).spec_normalized())
                } else {
                    Err(Error::Range)
                },
            }
        }
    }

    /// The hit at time `t`; fails where the sphere has no normal there or the hit is no hit.
    pub open spec fn spec_hit<'a>(&'a self, r: Ray, t: Scalar) -> Result<
        Intersection<'a, Sphere>,
        Error,
    > {
        match self.spec_normal(r.spec_position(t)) {
            Err(e) => Err(e),
            Ok(nv) => spec_checked(spec_with_normal(t, r.spec_position(t), self, r, nv)),
        }
    }

    /// The hits of `r` at the given times, in their order, each placed where the ray is at
    /// that time; the first failure ends it.
    pub open spec fn spec_hits_at<'a>(&'a self, r: Ray, times: Seq<Scalar>) -> Result<
        Seq<Intersection<'a, Sphere>>,
        Error,
    >
        decreases times.len(),
    {
        if times.len() == 0 {
            Ok(Seq::empty())
        } else {
            match self.spec_hits_at(r, times.drop_last()) {
                Err(e) => Err(e),
                Ok(earlier) => match self.spec_hit(r, times.last()) {
                    Err(e) => Err(e),
                    Ok(hit) => Ok(earlier.push(hit)),
                },
            }
        }
    }

    /// A failure on a prefix of the times is the failure on all of them.
    pub proof fn lemma_hits_at_fails(&self, r: Ray, times: Seq<Scalar>, n: int)
        requires
            0 <= n <= times.len(),
            self.spec_hits_at(r, times.take(n)) is Err,
        ensures
            self.spec_hits_at(r, times) == self.spec_hits_at(r, times.take(n)),
        decreases times.len() - n,
    {
        if n == times.len() {
            assert(times.take(n) == times);
        } else {
            assert(times.take(n + 1).drop_last() == times.take(n));
            self.lemma_hits_at_fails(r, times, n + 1);
        }
    }

    /// Where the hits are had, there is one for each time, at that time and at the place where
    /// the ray is at that time.
    pub proof fn lemma_hits_at_times(&self, r: Ray, times: Seq<Scalar>)
        requires
            self.spec_hits_at(r, times) is Ok,
        ensures
            self.spec_hits_at(r, times)->Ok_0.len() == times.len(),
            forall|i: int|
                0 <= i < times.len() ==> (#[trigger] self.spec_hits_at(r, times)->Ok_0[i]).time
                    == times[i] && self.spec_hits_at(r, times)->Ok_0[i].location
                    == r.spec_position(times[i]),
        decreases times.len(),
    {
        if times.len() > 0 {
            self.lemma_hits_at_times(r, times.drop_last());
        }
    }

    /// The sign of the exact discriminant decides how often a ray hits: twice above zero, once
    /// at zero, never below.
    pub proof fn lemma_hit_count(&self, r_input: Ray)
        requires
            self.spec_intersect(r_input) is Ok,
        ensures
            self.transformation.spec_checked_inverse() is Ok,
            ({
                let r = r_input.spec_transform(self.transformation.spec_inverse());
                let f = r.direction.spec_lift_factor();
                let d = self.spec_quadratic(
                    Ray { origin: r.origin, direction: r.direction.spec_times(f) },
                ).spec_exact_discriminant();
                let hits = self.spec_intersect(r_input)->Ok_0;
                &&& d > 0 ==> hits.len() == 2
                &&& d == 0 ==> hits.len() == 1
                &&& d < 0 ==> hits.len() == 0
            }),
    {
        reveal(Sphere::spec_hit_times);
        self.lemma_hits_at_times(r_input, self.spec_hit_times(r_input)->Ok_0);
    }

    /// Wherever a sphere has a normal, the normal is a vector of unit length up to the
    /// tolerance, whatever the transformation.
    pub proof fn lemma_normal_has_unit_length(&self, p: PointT)
        requires
            self.spec_normal_at(p) is Ok,
        ensures
            self.spec_normal_at(p)->Ok_0.spec_magnitude().spec_approx_eq(Scalar::one()),
            self.spec_normal_at(p)->Ok_0.is_vector(),
    {
        reveal(Sphere::spec_normal);
        let raw = self.spec_raw_normal(p);
        assert(raw.wf() && !raw.is_zero());
        lemma_normalized_has_unit_length(raw);
    }

    /// The normal, given the inverse of the transformation.
    fn normal(&self, inverse: Matrix4x4, p: PointT) -> (res: Result<Vec3T, Error>)
        requires
            self.transformation.spec_checked_inverse() == Ok::<Matrix4x4, Error>(inverse),
        ensures
            res == self.spec_normal(p),
    {
        proof {
            reveal(Sphere::spec_normal);
        }
        if p.check_type(type_pnt()).is_err() {
            return Err(Error::Type);
        }
        let point = inverse * p;
        let obj_normal = point - self.origin;
        let mut world_normal = inverse.transposed() * obj_normal;
        world_normal.w = Scalar::zero();
        let unit = world_normal.normalized();
        if unit.is_number() {
            Ok(unit)
        } else {
            Err(Error::Range)
        }
    }
}

impl Shape for Sphere {
    /// One hit at each of the hit times; fails where there are no hit times, or where the
    /// sphere has no normal at a hit.
    open spec fn spec_intersect<'a>(&'a self, r_input: Ray) -> Result<
        Seq<Intersection<'a, Sphere>>,
        Error,
    > {
        match self.spec_hit_times(r_input) {
            Err(e) => Err(e),
            Ok(times) => self.spec_hits_at(r_input, times),
        }
    }

    open spec fn spec_normal_at(&self, p: PointT) -> Result<Vec3T, Error> {
        self.spec_normal(p)
    }

    open spec fn spec_material(&self) -> Material {
        self.material
    }

    fn intersect<'a>(&'a self, r_input: Ray) -> (res: Result<
        Vec<Intersection<'a, Sphere>>,
        Error,
    >)
    {
        let inverse = match self.transformation.inverse() {
            Ok(m) => m,
            Err(e) => {
                proof {
                    reveal(Sphere::spec_hit_times);
                }
                return Err(e);
            },
        };
        let t_values = match self.hit_times(inverse, r_input) {
            Ok(t) => t,
            Err(e) => {
                return Err(e);
            },
        };
        let mut ret_val: Vec<Intersection<'a, Sphere>> = Vec::new();
        let mut i: usize = 0;
        while i < t_values.len()
            invariant
                i <= t_values.len(),
                self.transformation.spec_checked_inverse() == Ok::<Matrix4x4, Error>(inverse),
                self.spec_hit_times(r_input) == Ok::<Seq<Scalar>, Error>(t_values@),
                self.spec_hits_at(r_input, t_values@.take(i as int)) == Ok::<
                    Seq<Intersection<'a, Sphere>>,
                    Error,
                >(ret_val@),
            decreases t_values.len() - i,
        {
            let t = t_values[i];
            let location = r_input.position(t);
            proof {
                assert(t_values@.take(i + 1).drop_last() == t_values@.take(i as int));
                assert(t_values@.take(i + 1).last() == t);
            }
            let hit = match self.normal(inverse, location) {
                Ok(nv) => checked(with_normal(t, location, self, r_input, nv)),
                Err(e) => Err(e),
            };
            match hit {
                Ok(h) => {
                    ret_val.push(h);
                },
                Err(e) => {
                    proof {
                        assert(self.spec_hits_at(r_input, t_values@.take(i + 1)) == Err::<
                            Seq<Intersection<'a, Sphere>>,
                            Error,
                        >(e));
                        self.lemma_hits_at_fails(r_input, t_values@, i + 1);
                    }
                    return Err(e);
                },
            }
            i += 1;
        }
        proof {
            assert(t_values@.take(t_values.len() as int) == t_values@);
        }
        Ok(ret_val)
    }

    fn normal_at(&self, p: PointT) -> (res: Result<Vec3T, Error>)
    {
        if p.check_type(type_pnt()).is_err() {
            proof {
                reveal(Sphere::spec_normal);
            }
            return Err(Error::Type);
        }
        match self.transformation.inverse() {
            Ok(inverse) => self.normal(inverse, p),
            Err(e) => {
                proof {
                    reveal(Sphere::spec_normal);
                }
                Err(e)
            },
        }
    }

    fn get_material(&self) -> (m: Material)
    {
        self.material
    }
}

/// The operator `*`; it computes `s.spec_transformed(self)`.
impl core::ops::Mul<Sphere> for Matrix4x4 {
    type Output = Sphere;

    fn mul(self, s: Sphere) -> (out: Sphere)
    {
        Sphere {
            radius: s.radius,
            origin: s.origin,
            transformation: s.transformation * self,
            material: s.material,
        }
    }
}

impl vstd::std_specs::ops::MulSpecImpl<Sphere> for Matrix4x4 {
    open spec fn obeys_mul_spec() -> bool {
        true
    }

    open spec fn mul_req(self, s: Sphere) -> bool {
        true
    }

    open spec fn mul_spec(self, s: Sphere) -> Sphere {
        s.spec_transformed(self)
    }
}

} // verus!
