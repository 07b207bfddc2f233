//! Rays: a point of origin and a direction.

use vstd::prelude::*;
use crate::error::Error;
use crate::matrix::Matrix4x4;
use crate::primatives::{type_pnt, type_vec, Tuple};
use crate::scalar::Scalar;

verus! {

/// A half-line through space, walked at the pace of its direction.
#[derive(Debug, Clone, Copy)]
pub struct Ray {
    pub origin: Tuple,
    pub direction: Tuple,
}

/// A ray from `origin` along `direction`; fails unless the first is a point and the second a
/// vector.
pub fn new(origin: Tuple, direction: Tuple) -> (res: Result<Ray, Error>)
    ensures
        (Ray { origin, direction }).wf() ==> res == Ok::<Ray, Error>(Ray { origin, direction }),
        !(Ray { origin, direction }).wf() ==> res == Err::<Ray, Error>(Error::Type),
{
    if origin.check_type(type_pnt()).is_err() {
        return Err(Error::Type);
    }
    if direction.check_type(type_vec()).is_err() {
        return Err(Error::Type);
    }
    Ok(Ray { origin, direction })
}

impl Ray {
    /// Origin a point, direction a vector: what [`new`] checks.
    pub open spec fn wf(self) -> bool {
        self.origin.is_point() && self.direction.is_vector()
    }

    /// Where the ray is at `time`: the origin plus the direction times `time`.
    pub open spec fn spec_position(&self, time: Scalar) -> Tuple {
        self.origin.spec_add(self.direction.spec_scale(time))
    }

    /// The ray with origin and direction both mapped by `m`.
    pub open spec fn spec_transform(&self, m: Matrix4x4) -> Ray {
        Ray { origin: m.spec_mul_tuple(self.origin), direction: m.spec_mul_tuple(self.direction) }
    }

    /// Where the ray is at `time`.
    #[verifier::when_used_as_spec(spec_position)]
    pub fn position(&self, time: Scalar) -> (p: Tuple)
        ensures
            p == self.spec_position(time),
    {
        self.origin + self.direction * time
    }

    /// The ray with origin and direction both mapped by `m`.
    #[verifier::when_used_as_spec(spec_transform)]
    pub fn transform(&self, m: Matrix4x4) -> (r: Ray)
        ensures
            r == self.spec_transform(m),
    {
        Ray { origin: m * self.origin, direction: m * self.direction }
    }
}

/// The operator `*`; it computes `r.spec_transform(self)`.
impl core::ops::Mul<Ray> for Matrix4x4 {
    type Output = Ray;

    fn mul(self, r: Ray) -> (out: Ray)
    {
        r.transform(self)
    }
}

impl vstd::std_specs::ops::MulSpecImpl<Ray> for Matrix4x4 {
    open spec fn obeys_mul_spec() -> bool {
        true
    }

    open spec fn mul_req(self, r: Ray) -> bool {
        true
    }

    open spec fn mul_spec(self, r: Ray) -> Ray {
        r.spec_transform(self)
    }
}

} // verus!
