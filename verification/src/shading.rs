//! The Phong reflection model: the color of a point is the sum of the ambient light, the light
//! diffused by the surface, and the highlight that mirrors the light source.

use core::ops::Neg;
use vstd::prelude::*;
use crate::accuracy::lemma_normalized_of_lifted;
use crate::color::Color;
use crate::error::Error;
use crate::light::Light;
use crate::material::Material;
use crate::primatives::{dot_product, PointT, Vec3T};
use crate::scalar::{Scalar, VOID};
use crate::shapes::intersection::Intersection;
use crate::shapes::Shape;

verus! {

/// The color of the material under the light, before any geometry.
pub open spec fn spec_effective_color(mtrl: Material, lt: Light) -> Color {
    mtrl.color.spec_blend(lt.intensity)
}

/// The unit vector from `loc` toward the light.
pub open spec fn spec_light_vector(lt: Light, loc: PointT) -> Vec3T {
    lt.location.spec_sub(loc).spec_normalized()
}

/// The diffuse term: black where the light is behind the surface, else the effective color
/// times the diffuse coefficient times the cosine between light and normal. No color where
/// that cosine is no number.
pub open spec fn spec_diffuse(mtrl: Material, lt: Light, loc: PointT, normalv: Vec3T) -> Color {
    let light_dot_normal = dot_product(spec_light_vector(lt, loc), normalv);
    if !light_dot_normal.wf() {
        Color::spec_void()
    } else if light_dot_normal@ < 0 {
        crate::color::black()
    } else {
        spec_effective_color(mtrl, lt).spec_scale(mtrl.diffuse).spec_scale(light_dot_normal)
    }
}

/// The specular term: black where the light is behind the surface or its mirror image points
/// away from the eye, else the intensity of the light times the specular coefficient times the
/// cosine between mirror image and eye, raised to the shininess. No color where one of the two
/// cosines is no number.
pub open spec fn spec_specular(
    mtrl: Material,
    lt: Light,
    loc: PointT,
    eyev: Vec3T,
    normalv: Vec3T,
) -> Color {
    let lightv = spec_light_vector(lt, loc);
    let light_dot_normal = dot_product(lightv, normalv);
    let reflect_dot_eye = dot_product(
        normalv.spec_reflect(lightv.spec_neg()),
        eyev.spec_normalized(),
    );
    if !light_dot_normal.wf() {
        Color::spec_void()
    } else if light_dot_normal@ < 0 {
        crate::color::black()
    } else if !reflect_dot_eye.wf() {
        Color::spec_void()
    } else if reflect_dot_eye@ <= 0 {
        crate::color::black()
    } else {
        lt.intensity.spec_scale(mtrl.specular).spec_scale(
            reflect_dot_eye.spec_powf(mtrl.shininess),
        )
    }
}

/// Ambient plus diffuse plus specular, as it comes: channels may well exceed one.
pub open spec fn spec_shade_sum(
    mtrl: Material,
    lt: Light,
    loc: PointT,
    eyev: Vec3T,
    normalv: Vec3T,
) -> Color {
    spec_effective_color(mtrl, lt).spec_scale(mtrl.ambient).spec_add(
        spec_diffuse(mtrl, lt, loc, normalv),
    ).spec_add(spec_specular(mtrl, lt, loc, eyev, normalv))
}

/// The shade where all three of its channels are numbers. It is none where the light stands
/// on the point, where the eye vector has no length, and where anything on the way left the
/// range of the scalars.
#[verifier::opaque]
pub open spec fn spec_shade(
    mtrl: Material,
    lt: Light,
    loc: PointT,
    eyev: Vec3T,
    normalv: Vec3T,
) -> Result<Color, Error> {
    if spec_shade_sum(mtrl, lt, loc, eyev, normalv).wf() {
        Ok(spec_shade_sum(mtrl, lt, loc, eyev, normalv))
    } else {
        Err(Error::Range)
    }
}

/// The color of the point `loc` of a surface of material `mtrl` with normal `normalv`, lit by
/// `lt` and seen along `eyev`; fails where the color is no color.
pub fn shade(mtrl: Material, lt: Light, loc: PointT, eyev: Vec3T, normalv: Vec3T) -> (res: Result<
    Color,
    Error,
>)
    ensures
        res == spec_shade(mtrl, lt, loc, eyev, normalv),
{
    proof {
        reveal(spec_shade);
    }
    let lightv = (lt.location - loc).normalized();
    let effecive_color = mtrl.color * lt.intensity;
    let ambient_color = effecive_color * mtrl.ambient;
    let light_normal_dot_prod = dot_product(lightv, normalv);
    let black = crate::color::black();
    let void = Scalar { raw: VOID };
    let no_color = Color { red: void, green: void, blue: void };
    let (diffuse, specular) = if !light_normal_dot_prod.is_number() {
        (no_color, no_color)
    } else if light_normal_dot_prod.raw < 0 {
        (black, black)
    } else {
        let diffuse = effecive_color * mtrl.diffuse * light_normal_dot_prod;
        let reflectv = normalv.reflect(lightv.neg());
        let reflect_eye_dot_prod = dot_product(reflectv, eyev.normalized());
        let specular = if !reflect_eye_dot_prod.is_number() {
            no_color
        } else if reflect_eye_dot_prod.raw <= 0 {
            black
        } else {
            let factor = reflect_eye_dot_prod.powf(mtrl.shininess);
            lt.intensity * mtrl.specular * factor
        };
        (diffuse, specular)
    };
    let sum = ambient_color + diffuse + specular;
    if sum.is_number() {
        Ok(sum)
    } else {
        Err(Error::Range)
    }
}

/// The shade does not change when a short eye vector is doubled up to about unit length: only
/// where the eye vector points tells on the shade, not how long it is.
pub proof fn lemma_shade_of_lifted_eye(
    mtrl: Material,
    lt: Light,
    loc: PointT,
    eyev: Vec3T,
    normalv: Vec3T,
)
    requires
        eyev.wf(),
    ensures
        spec_shade(mtrl, lt, loc, eyev.spec_times(eyev.spec_lift_factor()), normalv) == spec_shade(
            mtrl,
            lt,
            loc,
            eyev,
            normalv,
        ),
{
    reveal(spec_shade);
    lemma_normalized_of_lifted(eyev);
}

/// The color of a hit: the material of the surface that was hit, shaded at the place of the
/// hit.
pub open spec fn spec_shade_intersection<'a, S: Shape>(i: &Intersection<'a, S>, lt: Light)
    -> Result<Color, Error> {
    spec_shade(i.shape.spec_material(), lt, i.location, i.eyev, i.normalv)
}

/// The color of a hit under the light `lt`.
pub fn shade_intersection<'a, S: Shape>(i: &Intersection<'a, S>, lt: Light) -> (res: Result<
    Color,
    Error,
>)
    ensures
        res == spec_shade_intersection(i, lt),
{
    shade(i.shape.get_material(), lt, i.location, i.eyev, i.normalv)
}

} // verus!
