//! The scene: surfaces and one light. A ray sent into the world comes back as a color.

use vstd::arithmetic::div_mod::lemma_fundamental_div_mod_converse;
use vstd::prelude::*;
use crate::camera::Camera;
use crate::canvas::Canvas;
use crate::color::Color;
use crate::error::Error;
use crate::light::Light;
use crate::primatives::point;
use crate::ray::Ray;
use crate::scalar::Scalar;
use crate::shading::{shade_intersection, spec_shade_intersection};
use crate::shapes::intersection::{
    ascending, at_time, lemma_sort_ascending, lemma_sort_stable, sort_by_time,
    spec_sort_by_time, Intersection,
};
use crate::shapes::Shape;

verus! {

/// The surfaces are borrowed: whoever builds a world keeps them.
pub struct World<'a, S: Shape> {
    pub objects: Vec<&'a S>,
    pub light: Light,
}

/// White light from the point ten to the left, ten up and ten before the origin.
pub open spec fn spec_default_light() -> Light {
    Light {
        intensity: crate::color::spec_new(Scalar::one(), Scalar::one(), Scalar::one()),
        location: point(
            Scalar::spec_from_int(-10),
            Scalar::spec_from_int(10),
            Scalar::spec_from_int(-10),
        ),
    }
}

/// A world without surfaces, under the default light.
pub fn new<'a, S: Shape>() -> (w: World<'a, S>)
    ensures
        w.objects@.len() == 0,
        w.light == spec_default_light(),
{
    World {
        objects: Vec::new(),
        light: Light {
            intensity: crate::color::new(Scalar::one(), Scalar::one(), Scalar::one()),
            location: point(Scalar::from_int(-10), Scalar::from_int(10), Scalar::from_int(-10)),
        },
    }
}

/// The hits of `r` on each of the surfaces, one surface after the other; the first failure ends
/// it.
pub open spec fn spec_hits_of<'a, S: Shape>(objects: Seq<&'a S>, r: Ray) -> Result<
    Seq<Intersection<'a, S>>,
    Error,
>
    decreases objects.len(),
{
    if objects.len() == 0 {
        Ok(Seq::empty())
    } else {
        match spec_hits_of(objects.drop_last(), r) {
            Err(e) => Err(e),
            Ok(earlier) => match objects.last().spec_intersect(r) {
                Err(e) => Err(e),
                Ok(hits) => Ok(earlier + hits),
            },
        }
    }
}

/// A failure on the first `n` surfaces is the failure on all of them.
pub proof fn lemma_hits_of_fails<'a, S: Shape>(objects: Seq<&'a S>, r: Ray, n: int)
    requires
        0 <= n <= objects.len(),
        spec_hits_of(objects.take(n), r) is Err,
    ensures
        spec_hits_of(objects, r) == spec_hits_of(objects.take(n), r),
    decreases objects.len() - n,
{
    if n == objects.len() {
        assert(objects.take(n) == objects);
    } else {
        assert(objects.take(n + 1).drop_last() == objects.take(n));
        lemma_hits_of_fails(objects, r, n + 1);
    }
}

impl<'a, S: Shape> World<'a, S> {
    /// All hits of `r` in the world, in ascending order of time.
    pub open spec fn spec_intersect(&self, r: Ray) -> Result<Seq<Intersection<'a, S>>, Error> {
        match spec_hits_of(self.objects@, r) {
            Err(e) => Err(e),
            Ok(hits) => Ok(spec_sort_by_time(hits)),
        }
    }

    /// Black where `r` hits nothing, else the shade of the first hit: the one of the least
    /// time, be it negative.
    #[verifier::opaque]
    pub open spec fn spec_color_at_ray(&self, r: Ray) -> Result<Color, Error> {
        match self.spec_intersect(r) {
            Err(e) => Err(e),
            Ok(hits) => if hits.len() == 0 {
                Ok(crate::color::black())
            } else {
                spec_shade_intersection(&hits[0], self.light)
            },
        }
    }

    /// The color that the camera sees at the pixel `(x, y)`.
    pub open spec fn spec_pixel(&self, camera: &Camera, x: usize, y: usize) -> Result<
        Color,
        Error,
    > {
        match camera.spec_ray_at_pixel(x, y) {
            Err(e) => Err(e),
            Ok(r) => self.spec_color_at_ray(r),
        }
    }

    /// The first `n` pixels that the camera sees, row after row; the first failure ends it.
    pub open spec fn spec_pixels(&self, camera: &Camera, n: nat) -> Result<Seq<Color>, Error>
        decreases n,
    {
        if n == 0 || camera.width == 0 {
            Ok(Seq::empty())
        } else {
            let k = (n - 1) as nat;
            match self.spec_pixels(camera, k) {
                Err(e) => Err(e),
                Ok(earlier) => match self.spec_pixel(
                    camera,
                    (k % camera.width as nat) as usize,
                    (k / camera.width as nat) as usize,
                ) {
                    Err(e) => Err(e),
                    Ok(c) => Ok(earlier.push(c)),
                },
            }
        }
    }

    /// A failure within the first `n` pixels is the failure of the whole picture.
    pub proof fn lemma_pixels_fail(&self, camera: &Camera, n: nat, m: nat)
        requires
            n <= m,
            self.spec_pixels(camera, n) is Err,
        ensures
            self.spec_pixels(camera, m) == self.spec_pixels(camera, n),
        decreases m - n,
    {
        if n < m {
            self.lemma_pixels_fail(camera, n, (m - 1) as nat);
        }
    }

    /// The hits of a ray in the world never go back in time, and they are the hits on the
    /// surfaces, each as often as the surfaces report it.
    pub proof fn lemma_intersect_ascending(&self, r: Ray)
        requires
            self.spec_intersect(r) is Ok,
        ensures
            ascending(self.spec_intersect(r)->Ok_0),
            self.spec_intersect(r)->Ok_0.to_multiset() == spec_hits_of(
                self.objects@,
                r,
            )->Ok_0.to_multiset(),
    {
        lemma_sort_ascending(spec_hits_of(self.objects@, r)->Ok_0);
    }

    /// Hits of one time come in the order of the surfaces, and for one surface in the order
    /// in which it reports them.
    pub proof fn lemma_intersect_stable(&self, r: Ray, t: Scalar)
        requires
            self.spec_intersect(r) is Ok,
        ensures
            self.spec_intersect(r)->Ok_0.filter(at_time(t)) == spec_hits_of(
                self.objects@,
                r,
            )->Ok_0.filter(at_time(t)),
    {
        lemma_sort_stable(spec_hits_of(self.objects@, r)->Ok_0, t);
    }

    /// All hits of `r` on the surfaces of the world, in ascending order of time; the first
    /// surface that fails ends it.
    pub fn intersect(&self, r: Ray) -> (res: Result<Vec<Intersection<'a, S>>, Error>)
        ensures
            match self.spec_intersect(r) {
                Ok(hits) => res is Ok && res->Ok_0@ == hits,
                Err(e) => res is Err && res->Err_0 == e,
            },
            res matches Ok(hits) ==> ascending(hits@),
    {
        let mut ret_val: Vec<Intersection<'a, S>> = Vec::new();
        let mut i: usize = 0;
        while i < self.objects.len()
            invariant
                i <= self.objects.len(),
                spec_hits_of(self.objects@.take(i as int), r) == Ok::<
                    Seq<Intersection<'a, S>>,
                    Error,
                >(ret_val@),
            decreases self.objects.len() - i,
        {
            let obj: &'a S = self.objects[i];
            proof {
                assert(self.objects@.take(i + 1).drop_last() == self.objects@.take(i as int));
                assert(self.objects@.take(i + 1).last() == obj);
            }
            match obj.intersect(r) {
                Ok(mut hits) => {
                    ret_val.append(&mut hits);
                },
                Err(e) => {
                    proof {
                        assert(spec_hits_of(self.objects@.take(i + 1), r) == Err::<
                            Seq<Intersection<'a, S>>,
                            Error,
                        >(e));
                        lemma_hits_of_fails(self.objects@, r, i + 1);
                    }
                    return Err(e);
                },
            }
            i += 1;
        }
        proof {
            assert(self.objects@.take(self.objects.len() as int) == self.objects@);
            lemma_sort_ascending(ret_val@);
        }
        Ok(sort_by_time(&ret_val))
    }

    /// The color that comes back along `r`: black where it hits nothing, else the shade of its
    /// first hit.
    pub fn color_at_ray(&self, r: Ray) -> (res: Result<Color, Error>)
        ensures
            res == self.spec_color_at_ray(r),
    {
        proof {
            reveal(World::spec_color_at_ray);
        }
        let intersections = match self.intersect(r) {
            Ok(hits) => hits,
            Err(e) => {
                return Err(e);
            },
        };
        if intersections.len() == 0 {
            return Ok(crate::color::new(Scalar::zero(), Scalar::zero(), Scalar::zero()));
        }
        shade_intersection(&intersections[0], self.light)
    }

    /// The picture that `camera` takes of the world: a canvas of the size of the camera, its
    /// origin at the top left, filled row after row with the color at each pixel. The first
    /// pixel that fails ends it.
    pub fn render_to_canvas(&self, camera: &Camera) -> (res: Result<Canvas, Error>)
        requires
            camera.width <= i32::MAX,
            camera.height <= i32::MAX,
            camera.width * camera.height <= usize::MAX,
        ensures
            match self.spec_pixels(camera, (camera.width * camera.height) as nat) {
                Ok(colors) => res is Ok && res->Ok_0.contents@ == colors && res->Ok_0.width
                    == camera.width && res->Ok_0.height == camera.height && res->Ok_0.origin == (
                    0i32,
                    0i32,
                ),
                Err(e) => res is Err && res->Err_0 == e,
            },
    {
        let width: usize = camera.width;
        let height: usize = camera.height;
        let mut c = crate::canvas::new(width, height);
        c.origin = (0, 0);
        let mut done: usize = 0;
        let mut canvas_y_coord: usize = 0;
        proof {
            assert(c.contents@.take(0) =~= Seq::empty());
        }
        while canvas_y_coord < height
            invariant
                width == camera.width,
                height == camera.height,
                width <= i32::MAX,
                height <= i32::MAX,
                width * height <= usize::MAX,
                canvas_y_coord <= height,
                done == canvas_y_coord * width,
                c.width == width,
                c.height == height,
                c.origin == (0i32, 0i32),
                c.contents@.len() == width * height,
                self.spec_pixels(camera, done as nat) == Ok::<Seq<Color>, Error>(
                    c.contents@.take(done as int),
                ),
            decreases height - canvas_y_coord,
        {
            let mut canvas_x_coord: usize = 0;
            while canvas_x_coord < width
                invariant
                    width == camera.width,
                    height == camera.height,
                    width <= i32::MAX,
                    height <= i32::MAX,
                    width * height <= usize::MAX,
                    canvas_y_coord < height,
                    canvas_x_coord <= width,
                    done == canvas_y_coord * width + canvas_x_coord,
                    c.width == width,
                    c.height == height,
                    c.origin == (0i32, 0i32),
                    c.contents@.len() == width * height,
                    self.spec_pixels(camera, done as nat) == Ok::<Seq<Color>, Error>(
                        c.contents@.take(done as int),
                    ),
                decreases width - canvas_x_coord,
            {
                proof {
                    lemma_fundamental_div_mod_converse(
                        done as int,
                        width as int,
                        canvas_y_coord as int,
                        canvas_x_coord as int,
                    );
                    assert(canvas_y_coord * width + width <= height * width) by (nonlinear_arith)
                        requires
                            canvas_y_coord < height,
                    ;
                    assert(height * width == width * height) by (nonlinear_arith);
                }
                let color = match camera.ray_at_pixel(canvas_x_coord, canvas_y_coord) {
                    Ok(r) => match self.color_at_ray(r) {
                        Ok(color) => color,
                        Err(e) => {
                            proof {
                                self.lemma_pixels_fail(
                                    camera,
                                    (done + 1) as nat,
                                    (width * height) as nat,
                                );
                            }
                            return Err(e);
                        },
                    },
                    Err(e) => {
                        proof {
                            self.lemma_pixels_fail(
                                camera,
                                (done + 1) as nat,
                                (width * height) as nat,
                            );
                        }
                        return Err(e);
                    },
                };
                let ghost before = c.contents@;
                let plotted = c.plot(canvas_x_coord as i32, canvas_y_coord as i32, color);
                proof {
                    assert(c.contents@ == before.update(done as int, color));
                    assert(c.contents@.take(done + 1) == before.take(done as int).push(color));
                }
                canvas_x_coord += 1;
                done += 1;
            }
            proof {
                assert((canvas_y_coord + 1) * width == canvas_y_coord * width + width)
                    by (nonlinear_arith);
            }
            canvas_y_coord += 1;
        }
        proof {
            assert(done == width * height) by (nonlinear_arith)
                requires
                    done == canvas_y_coord * width,
                    canvas_y_coord == height,
            ;
            assert(c.contents@.take(done as int) == c.contents@);
            if width == 0 {
                assert(c.contents@ =~= Seq::empty());
            }
        }
        Ok(c)
    }
}

} // verus!
