//! The camera: it turns a pixel into the ray through that pixel.

use vstd::prelude::*;
use crate::error::Error;
use crate::matrix::Matrix4x4;
use crate::primatives::{point, Tuple};
use crate::ray::Ray;
use crate::scalar::Scalar;

verus! {

/// A pinhole camera with a picture of `width` by `height` pixels one unit before it.
pub struct Camera {
    pub height: usize,
    pub width: usize,
    pub field_of_view_radians: Scalar,
    /// From the world into the frame of the camera.
    pub transformation: Matrix4x4,
    /// The side of a pixel on the plane one unit before the camera.
    pub pixel_size: Scalar,
    pub half_width: Scalar,
    pub half_height: Scalar,
}

/// Half the extent of the view on the plane one unit before the camera.
pub open spec fn spec_half_view(fov: Scalar) -> Scalar {
    fov.spec_div(Scalar::spec_from_int(2)).spec_tan()
}

/// Height over width.
pub open spec fn spec_aspect_ratio(h: usize, w: usize) -> Scalar {
    Scalar::spec_from_int(h as int).spec_div(Scalar::spec_from_int(w as int))
}

/// The half view where the ratio is at least one, else the half view times the ratio.
pub open spec fn spec_half_width(h: usize, w: usize, fov: Scalar) -> Scalar {
    if spec_aspect_ratio(h, w)@ >= Scalar::one()@ {
        spec_half_view(fov)
    } else {
        spec_half_view(fov).spec_mul(spec_aspect_ratio(h, w))
    }
}

/// The half view over the ratio where the ratio is at least one, else the half view.
pub open spec fn spec_half_height(h: usize, w: usize, fov: Scalar) -> Scalar {
    if spec_aspect_ratio(h, w)@ >= Scalar::one()@ {
        spec_half_view(fov).spec_div(spec_aspect_ratio(h, w))
    } else {
        spec_half_view(fov)
    }
}

/// The camera that [`new`] makes: untransformed, with the extents of its view derived from
/// the field of view and the ratio of its sides.
pub open spec fn spec_new(h: usize, w: usize, fov: Scalar) -> Camera {
    Camera {
        height: h,
        width: w,
        field_of_view_radians: fov,
        transformation: crate::matrix::identity4x4(),
        pixel_size: spec_half_width(h, w, fov).spec_mul(Scalar::spec_from_int(2)).spec_div(
            Scalar::spec_from_int(h as int),
        ),
        half_width: spec_half_width(h, w, fov),
        half_height: spec_half_height(h, w, fov),
    }
}

/// A camera of `h` by `w` pixels with the field of view `fov`, at the origin of the world,
/// looking down the negative z axis.
#[verifier::when_used_as_spec(spec_new)]
pub fn new(h: usize, w: usize, fov: Scalar) -> (c: Camera)
    ensures
        c == spec_new(h, w, fov),
{
    let half_view = (fov / Scalar::from_int(2)).tan();
    let aspect_ratio = Scalar::from_usize(h) / Scalar::from_usize(w);
    let (half_width, half_height) = if aspect_ratio.raw >= Scalar::one().raw {
        (half_view, half_view / aspect_ratio)
    } else {
        (half_view * aspect_ratio, half_view)
    };
    Camera {
        height: h,
        width: w,
        field_of_view_radians: fov,
        transformation: crate::matrix::identity4x4(),
        pixel_size: (half_width * Scalar::from_int(2)) / Scalar::from_usize(h),
        half_width,
        half_height,
    }
}

impl Camera {
    /// How far the middle of pixel `n` lies from the edge of the view.
    pub open spec fn spec_offset(&self, n: usize) -> Scalar {
        Scalar::spec_from_int(n as int).spec_add(Scalar { raw: 500_000_000 }).spec_mul(
            self.pixel_size,
        )
    }

    /// The middle of the pixel `(x, y)` on the plane one unit before the camera, in the frame
    /// of the camera.
    pub open spec fn spec_target(&self, x: usize, y: usize) -> Tuple {
        point(
            self.half_width.spec_sub(self.spec_offset(x)),
            self.half_height.spec_sub(self.spec_offset(y)),
            Scalar::spec_from_int(-1),
        )
    }

    /// The ray from the camera through the middle of the pixel `(x, y)`, in the world. Fails
    /// where the transformation has no inverse, where origin or direction are no numbers,
    /// and where the transformation takes points to tuples that are no points.
    #[verifier::opaque]
    pub open spec fn spec_ray_at_pixel(&self, x: usize, y: usize) -> Result<Ray, Error> {
        match self.transformation.spec_checked_inverse() {
            Err(e) => Err(e),
            Ok(inverse) => {
                let ray_origin = inverse.spec_mul_tuple(
                    point(Scalar::zero(), Scalar::zero(), Scalar::zero()),
                );
                let ray_direction = inverse.spec_mul_tuple(self.spec_target(x, y)).spec_sub(
                    ray_origin,
                ).spec_normalized();
                if !ray_origin.wf() || !ray_direction.wf() {
                    Err(Error::Range)
                } else if ray_origin.is_point() && ray_direction.is_vector() {
                    Ok(Ray { origin: ray_origin, direction: ray_direction })
                } else {
                    Err(Error::Type)
                }
            },
        }
    }

    fn offset(&self, n: usize) -> (o: Scalar)
        ensures
            o == self.spec_offset(n),
    {
        (Scalar::from_usize(n) + Scalar { raw: 500_000_000 }) * self.pixel_size
    }

    /// The ray from the camera through the middle of the pixel `(x, y)`; fails where the
    /// transformation has no inverse or spoils the tags.
    pub fn ray_at_pixel(&self, x: usize, y: usize) -> (res: Result<Ray, Error>)
        ensures
            res == self.spec_ray_at_pixel(x, y),
    {
        proof {
            reveal(Camera::spec_ray_at_pixel);
        }
        let x_coord_ray_intersects = self.half_width - self.offset(x);
        let y_coord_ray_intersects = self.half_height - self.offset(y);
        let inverse = match self.transformation.inverse() {
            Ok(m) => m,
            Err(e) => {
                return Err(e);
            },
        };
        let point_ray_intersects = inverse * point(
            x_coord_ray_intersects,
            y_coord_ray_intersects,
            Scalar::from_int(-1),
        );
        let ray_origin = inverse * point(Scalar::zero(), Scalar::zero(), Scalar::zero());
        let ray_direction = (point_ray_intersects - ray_origin).normalized();
        if !ray_origin.is_number() || !ray_direction.is_number() {
            return Err(Error::Range);
        }
        crate::ray::new(ray_origin, ray_direction)
    }
}

} // verus!
