//! The point light that illuminates a world.

use vstd::prelude::*;
use crate::color::Color;
use crate::error::Error;
use crate::primatives::{type_pnt, PointT};

verus! {

/// A point light: where it is and how bright.
#[derive(Debug, Copy, Clone)]
pub struct Light {
    pub intensity: Color,
    pub location: PointT,
}

/// A light of intensity `i` at `l`; fails unless `l` is a point.
pub fn new(i: Color, l: PointT) -> (res: Result<Light, Error>)
    ensures
        l.is_point() ==> res == Ok::<Light, Error>(Light { intensity: i, location: l }),
        !l.is_point() ==> res == Err::<Light, Error>(Error::Type),
{
    match l.check_type(type_pnt()) {
        Ok(_) => Ok(Light { intensity: i, location: l }),
        Err(e) => Err(e),
    }
}

impl Light {
    /// Intensity and place agree up to the tolerance.
    pub open spec fn spec_approx_eq(self, l: Light) -> bool {
        self.intensity.spec_approx_eq(l.intensity) && self.location.spec_approx_eq(l.location)
    }
}

/// The operator `==` is equality up to the tolerance; it computes `self.spec_approx_eq(*l)`.
impl PartialEq for Light {
    fn eq(&self, l: &Light) -> (r: bool)
    {
        self.intensity == l.intensity && self.location == l.location
    }
}

impl vstd::std_specs::cmp::PartialEqSpecImpl for Light {
    open spec fn obeys_eq_spec() -> bool {
        true
    }

    open spec fn eq_spec(&self, l: &Light) -> bool {
        self.spec_approx_eq(*l)
    }
}

} // verus!
