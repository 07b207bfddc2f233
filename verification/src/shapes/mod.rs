//! Surfaces that a ray can hit.

pub mod intersection;
pub mod sphere;

use vstd::prelude::*;
use crate::error::Error;
use crate::material::Material;
use crate::primatives::{PointT, Vec3T};
use crate::ray::Ray;
use crate::shapes::intersection::Intersection;

verus! {

/// A surface: it can be intersected with a ray, it has a normal at each of its points, and it
/// has a material. An implementation says in its three spec functions what its three methods
/// compute.
pub trait Shape: Sized {
    /// The hits of `r_input` on the surface, in the order in which the surface reports them, or
    /// the error that stops the computation.
    spec fn spec_intersect<'a>(&'a self, r_input: Ray) -> Result<
        Seq<Intersection<'a, Self>>,
        Error,
    >;

    /// The unit normal of the surface at `p`, or the error that stops the computation.
    spec fn spec_normal_at(&self, p: PointT) -> Result<Vec3T, Error>;

    spec fn spec_material(&self) -> Material;

    fn intersect<'a>(&'a self, r_input: Ray) -> (res: Result<Vec<Intersection<'a, Self>>, Error>)
        ensures
            match self.spec_intersect(r_input) {
                Ok(hits) => res is Ok && res->Ok_0@ == hits,
                Err(e) => res is Err && res->Err_0 == e,
            },
    ;

    fn normal_at(&self, p: PointT) -> (res: Result<Vec3T, Error>)
        ensures
            res == self.spec_normal_at(p),
    ;

    fn get_material(&self) -> (m: Material)
        ensures
            m == self.spec_material(),
    ;
}

} // verus!
