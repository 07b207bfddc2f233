//! Surface materials for the Phong model.

use vstd::prelude::*;
use crate::color::Color;
use crate::scalar::Scalar;

verus! {

/// How a surface answers light: its color and the four coefficients of the Phong model.
#[derive(Debug, Copy, Clone)]
pub struct Material {
    pub color: Color,
    pub ambient: Scalar,
    pub diffuse: Scalar,
    pub specular: Scalar,
    pub shininess: Scalar,
}

pub open spec fn spec_new(c: Color, a: Scalar, d: Scalar, sp: Scalar, sh: Scalar) -> Material {
    Material { color: c, ambient: a, diffuse: d, specular: sp, shininess: sh }
}

/// The material with the given color and coefficients.
#[verifier::when_used_as_spec(spec_new)]
pub fn new(c: Color, a: Scalar, d: Scalar, sp: Scalar, sh: Scalar) -> (m: Material)
    ensures
        m == spec_new(c, a, d, sp, sh),
{
    Material { color: c, ambient: a, diffuse: d, specular: sp, shininess: sh }
}

/// White, ambient 0.1, diffuse 0.9, specular 0.9, shininess 200.
pub open spec fn spec_new_default() -> Material {
    Material {
        color: crate::color::spec_new(Scalar::one(), Scalar::one(), Scalar::one()),
        ambient: Scalar { raw: 100_000_000 },
        diffuse: Scalar { raw: 900_000_000 },
        specular: Scalar { raw: 900_000_000 },
        shininess: Scalar { raw: 200_000_000_000 },
    }
}

/// The default material: white, ambient 0.1, diffuse 0.9, specular 0.9, shininess 200.
#[verifier::when_used_as_spec(spec_new_default)]
pub fn new_default() -> (m: Material)
    ensures
        m == spec_new_default(),
{
    Material {
        color: crate::color::new(Scalar::one(), Scalar::one(), Scalar::one()),
        ambient: Scalar { raw: 100_000_000 },
        diffuse: Scalar { raw: 900_000_000 },
        specular: Scalar { raw: 900_000_000 },
        shininess: Scalar { raw: 200_000_000_000 },
    }
}

impl Material {
    /// The four coefficients agree up to the tolerance; the color is not compared.
    pub open spec fn spec_approx_eq(self, m: Material) -> bool {
        self.ambient.spec_approx_eq(m.ambient) && self.diffuse.spec_approx_eq(m.diffuse)
            && self.specular.spec_approx_eq(m.specular) && self.shininess.spec_approx_eq(
            m.shininess,
        )
    }
}

/// The operator `==` is equality up to the tolerance; it computes `self.spec_approx_eq(*m)`.
impl PartialEq for Material {
    fn eq(&self, m: &Material) -> (r: bool)
    {
        self.ambient.approx_eq(m.ambient) && self.diffuse.approx_eq(m.diffuse)
            && self.specular.approx_eq(m.specular) && self.shininess.approx_eq(m.shininess)
    }
}

impl vstd::std_specs::cmp::PartialEqSpecImpl for Material {
    open spec fn obeys_eq_spec() -> bool {
        true
    }

    open spec fn eq_spec(&self, m: &Material) -> bool {
        self.spec_approx_eq(*m)
    }
}

} // verus!
