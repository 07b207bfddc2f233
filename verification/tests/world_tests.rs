use frog::camera;
use frog::color;
use frog::light;
use frog::matrix::transformations;
use frog::primatives;
use frog::ray;
use frog::scalar::Scalar;
use frog::shading;
use frog::shapes::sphere;
use frog::shapes::Shape;
use frog::world;

fn fx(v: f64) -> Scalar {
    Scalar { raw: (v * 1e9).round() as i64 }
}

fn pt(x: f64, y: f64, z: f64) -> primatives::Tuple {
    primatives::point(fx(x), fx(y), fx(z))
}

fn v3(x: f64, y: f64, z: f64) -> primatives::Tuple {
    primatives::vec3(fx(x), fx(y), fx(z))
}

#[test]
fn world_creation() {
    let mut w = world::new();

    let mut s1 = sphere::new(fx(1.0), pt(0.0, 0.0, 0.0)).unwrap();
    s1.material.color = color::new(fx(0.8), fx(1.0), fx(0.6));
    s1.material.diffuse = fx(0.7);
    s1.material.specular = fx(0.2);
    w.objects.push(&s1);

    let mut s2 = sphere::new(fx(1.0), pt(0.0, 0.0, 0.0)).unwrap();
    let trans = transformations::new_scaling_matrix(fx(0.5), fx(0.5), fx(0.5));
    s2 = trans * s2;
    w.objects.push(&s2);

    let r1 = ray::new(pt(0.0, 0.0, -5.0), v3(0.0, 0.0, 1.0)).unwrap();
    let intersections = w.intersect(r1).unwrap();

    assert_eq!(intersections.len(), 4);
    assert_eq!(intersections[0].time, fx(4.0));
    assert_eq!(intersections[1].time, fx(4.5));
    assert_eq!(intersections[2].time, fx(5.5));
    assert_eq!(intersections[3].time, fx(6.0));

    let intersections = s1.intersect(r1).unwrap();
    assert_eq!(intersections[1].eyev, v3(0.0, 0.0, -1.0));
    assert_eq!(intersections[1].normalv, v3(0.0, 0.0, -1.0));
    assert_eq!(intersections[1].inside, false);

    let r2 = ray::new(pt(0.0, 0.0, 0.0), v3(0.0, 0.0, 1.0)).unwrap();
    let intersections = s1.intersect(r2).unwrap();
    assert_eq!(intersections[0].inside, true);
}

#[test]
fn shade_intersection() {
    let mut w = world::new();

    let mut s1 = sphere::new(fx(1.0), pt(0.0, 0.0, 0.0)).unwrap();
    s1.material.color = color::new(fx(0.8), fx(1.0), fx(0.6));
    s1.material.diffuse = fx(0.7);
    s1.material.specular = fx(0.2);
    w.objects.push(&s1);

    let mut s2 = sphere::new(fx(1.0), pt(0.0, 0.0, 0.0)).unwrap();
    let trans = transformations::new_scaling_matrix(fx(0.5), fx(0.5), fx(0.5));
    s2 = trans * s2;
    w.objects.push(&s2);

    let r = ray::new(pt(0.0, 0.0, -5.0), v3(0.0, 0.0, 1.0)).unwrap();
    let c = w.color_at_ray(r).unwrap();

    assert_eq!(c, color::new(fx(0.38066), fx(0.47583), fx(0.2855)));

    let intersects = s1.intersect(r).unwrap();

    let c = shading::shade_intersection(&intersects[1], w.light).unwrap();
    assert_eq!(c, color::new(fx(0.38066), fx(0.47583), fx(0.2855)));

    w.light = light::new(color::new(fx(1.0), fx(1.0), fx(1.0)), pt(0.0, 0.25, 0.0)).unwrap();
    let r = ray::new(pt(0.0, 0.0, 0.0), v3(0.0, 0.0, 1.0)).unwrap();

    let intersects = s2.intersect(r).unwrap();
    let c = shading::shade_intersection(&intersects[0], w.light).unwrap();

    assert_eq!(c, color::new(fx(0.90498), fx(0.90498), fx(0.90498)));

    let r = ray::new(pt(0.0, 0.0, -5.0), v3(0.0, 1.0, 0.0)).unwrap();
    let c = w.color_at_ray(r).unwrap();

    assert_eq!(c, color::new(fx(0.0), fx(0.0), fx(0.0)));
}

#[test]
fn world_starts_empty_under_the_default_light() {
    let w: world::World<sphere::Sphere> = world::new();
    assert_eq!(w.objects.len(), 0);
    assert_eq!(w.light.intensity.red, fx(1.0));
    assert_eq!(w.light.intensity.green, fx(1.0));
    assert_eq!(w.light.intensity.blue, fx(1.0));
    assert_eq!(w.light.location.x, fx(-10.0));
    assert_eq!(w.light.location.y, fx(10.0));
    assert_eq!(w.light.location.z, fx(-10.0));
    assert_eq!(w.light.location.w, fx(1.0));
    let r = ray::new(pt(0.0, 0.0, -5.0), v3(0.0, 0.0, 1.0)).unwrap();
    assert_eq!(w.intersect(r).unwrap().len(), 0);
    let c = w.color_at_ray(r).unwrap();
    assert_eq!(c.red, fx(0.0));
    assert_eq!(c.green, fx(0.0));
    assert_eq!(c.blue, fx(0.0));
}

#[test]
fn world_intersect_is_ascending_and_stable() {
    let a = sphere::new(fx(1.0), pt(0.0, 0.0, 0.0)).unwrap();
    let mut b = sphere::new(fx(1.0), pt(0.0, 0.0, 0.0)).unwrap();
    b = transformations::new_translation_matrix(fx(0.0), fx(0.0), fx(1.0)) * b;
    let mut c = sphere::new(fx(1.0), pt(0.0, 0.0, 0.0)).unwrap();
    c = transformations::new_scaling_matrix(fx(2.0), fx(2.0), fx(2.0)) * c;
    let d = sphere::new(fx(1.0), pt(0.0, 0.0, 0.0)).unwrap();
    let mut w = world::new();
    w.objects.push(&a);
    w.objects.push(&b);
    w.objects.push(&c);
    w.objects.push(&d);
    let r = ray::new(pt(0.0, 0.0, -5.0), v3(0.0, 0.0, 1.0)).unwrap();
    let hits = w.intersect(r).unwrap();
    let times: Vec<Scalar> = hits.iter().map(|h| h.time).collect();
    assert_eq!(
        times,
        vec![fx(3.0), fx(4.0), fx(4.0), fx(5.0), fx(6.0), fx(6.0), fx(7.0), fx(7.0)]
    );
    assert!(std::ptr::eq(hits[0].shape, &c));
    assert!(std::ptr::eq(hits[1].shape, &a));
    assert!(std::ptr::eq(hits[2].shape, &d));
    assert!(std::ptr::eq(hits[3].shape, &b));
    assert!(std::ptr::eq(hits[4].shape, &a));
    assert!(std::ptr::eq(hits[5].shape, &d));
    assert!(std::ptr::eq(hits[6].shape, &b));
    assert!(std::ptr::eq(hits[7].shape, &c));
}

#[test]
fn nearest_hit_may_lie_behind_the_ray() {
    let mut s = sphere::new(fx(1.0), pt(0.0, 0.0, 0.0)).unwrap();
    s.material.ambient = fx(1.0);
    s.material.diffuse = fx(0.0);
    s.material.specular = fx(0.0);
    s.material.color = color::new(fx(0.25), fx(0.5), fx(0.75));
    let mut w = world::new();
    w.objects.push(&s);
    let r = ray::new(pt(0.0, 0.0, 5.0), v3(0.0, 0.0, 1.0)).unwrap();
    let hits = w.intersect(r).unwrap();
    assert_eq!(hits[0].time, fx(-6.0));
    assert_eq!(hits[1].time, fx(-4.0));
    let c = w.color_at_ray(r).unwrap();
    assert_eq!(c, color::new(fx(0.25), fx(0.5), fx(0.75)));
}

#[test]
fn an_error_in_a_surface_stops_the_world() {
    let a = sphere::new(fx(1.0), pt(0.0, 0.0, 0.0)).unwrap();
    let mut b = sphere::new(fx(1.0), pt(0.0, 0.0, 0.0)).unwrap();
    b = transformations::new_scaling_matrix(fx(0.0), fx(1.0), fx(1.0)) * b;
    let mut w = world::new();
    w.objects.push(&a);
    w.objects.push(&b);
    let r = ray::new(pt(0.0, 0.0, -5.0), v3(0.0, 0.0, 1.0)).unwrap();
    assert_eq!(w.intersect(r).err(), Some(frog::error::Error::SingularMatrix));
    assert_eq!(w.color_at_ray(r).err(), Some(frog::error::Error::SingularMatrix));
    let cam = camera::new(3, 3, fx(1.0));
    assert_eq!(w.render_to_canvas(&cam).err(), Some(frog::error::Error::SingularMatrix));
}

#[test]
fn render_fills_every_pixel() {
    let mut s = sphere::new(fx(1.0), pt(0.0, 0.0, 0.0)).unwrap();
    s.material.color = color::new(fx(0.8), fx(1.0), fx(0.6));
    s.material.diffuse = fx(0.7);
    s.material.specular = fx(0.2);
    let mut w = world::new();
    w.objects.push(&s);
    let mut cam = camera::new(11, 11, fx(std::f64::consts::PI / 2.0));
    cam.transformation = transformations::new_view_transformation_matrix(
        pt(0.0, 0.0, -5.0),
        pt(0.0, 0.0, 0.0),
        v3(0.0, 1.0, 0.0),
    )
    .unwrap();
    let image = w.render_to_canvas(&cam).unwrap();
    assert_eq!(image.width, 11);
    assert_eq!(image.height, 11);
    assert_eq!(image.origin, (0, 0));
    assert_eq!(image.contents.len(), 121);
    assert_eq!(image.read(5, 5).unwrap(), color::new(fx(0.38066), fx(0.47583), fx(0.2855)));
    assert_eq!(image.read(0, 0).unwrap(), color::new(fx(0.0), fx(0.0), fx(0.0)));
    for y in 0..11 {
        for x in 0..11 {
            let r = cam.ray_at_pixel(x, y).unwrap();
            let c = w.color_at_ray(r).unwrap();
            let p = image.read(x as i32, y as i32).unwrap();
            assert_eq!(p.red, c.red);
            assert_eq!(p.green, c.green);
            assert_eq!(p.blue, c.blue);
        }
    }
}

#[test]
fn render_is_row_major_on_a_wide_picture() {
    let s = sphere::new(fx(1.0), pt(0.0, 0.0, 0.0)).unwrap();
    let mut w = world::new();
    w.objects.push(&s);
    let mut cam = camera::new(3, 7, fx(1.0));
    cam.transformation = transformations::new_translation_matrix(fx(0.3), fx(0.1), fx(-3.0));
    let image = w.render_to_canvas(&cam).unwrap();
    assert_eq!(image.width, 7);
    assert_eq!(image.height, 3);
    for y in 0..3usize {
        for x in 0..7usize {
            let c = w.color_at_ray(cam.ray_at_pixel(x, y).unwrap()).unwrap();
            assert_eq!(image.contents[y * 7 + x].red, c.red);
            assert_eq!(image.contents[y * 7 + x].blue, c.blue);
        }
    }
}

#[test]
fn draw_world() {
    let mut w = world::new();

    let mut s1 = sphere::new(fx(400.0), pt(0.0, 0.0, 0.0)).unwrap();
    s1.material.color = color::new(fx(0.5), fx(0.2), fx(0.7));

    let mut s2 = sphere::new(fx(180.0), pt(100.0, 100.0, 350.0)).unwrap();
    s2.material.color = color::new(fx(0.2), fx(0.3), fx(0.8));
    s2.material.specular = fx(0.2);

    let mut s3 = sphere::new(fx(100.0), pt(-60.0, -60.0, 500.0)).unwrap();
    s3.material.color = color::new(fx(0.2), fx(0.8), fx(0.3));
    s3.material.specular = fx(0.0);

    w.objects.push(&s1);
    w.objects.push(&s2);
    w.objects.push(&s3);
    w.light.location = pt(-400.0, -400.0, 1000.0);

    let mut can = frog::canvas::new(1000, 1000);

    for x_loc in 0..can.width {
        for y_loc in 0..can.height {
            let x = (x_loc as i32) - (can.width as i32 / 2);
            let y = (y_loc as i32) - (can.height as i32 / 2);

            let r = ray::new(pt(x as f64, y as f64, -1000.0), v3(0.0, 0.0, -1.0)).unwrap();

            let c = w.color_at_ray(r).unwrap();
            can.plot(x, y, c).unwrap();
        }
    }

    let text = can.antialiased(2).to_ppm();
    assert!(text.starts_with(b"P3\n1000 1000\n255\n"));
}
