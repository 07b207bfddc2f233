use frog::canvas;
use frog::color;
use frog::error::Error;
use frog::scalar::Scalar;

fn fx(v: f64) -> Scalar {
    Scalar { raw: (v * 1e9).round() as i64 }
}

#[test]
fn test_canvas_plot_and_read() {
    let mut canvas = canvas::new(100, 100);

    let red = color::new(fx(1.0), fx(0.0), fx(0.0));
    let green = color::new(fx(0.0), fx(1.0), fx(0.0));
    let blue = color::new(fx(0.0), fx(0.0), fx(1.0));
    let white = color::new(fx(1.0), fx(1.0), fx(1.0));

    canvas.plot(-1, -1, green).unwrap();
    let read_out = canvas.read(-1, -1).unwrap();
    assert_eq!(green, read_out);

    canvas.plot(1, 1, red).unwrap();
    canvas.plot(1, -1, blue).unwrap();
    canvas.plot(-1, 1, white).unwrap();
}

#[test]
#[should_panic]
fn test_plot_out_of_bounds() {
    let mut canvas = canvas::new(100, 100);
    let c1 = color::new(fx(1.0), fx(0.0), fx(0.0));
    canvas.plot(50, 50, c1).unwrap();
}

#[test]
fn canvas_starts_black_with_centered_origin() {
    let canvas = canvas::new(7, 4);
    assert_eq!(canvas.width, 7);
    assert_eq!(canvas.height, 4);
    assert_eq!(canvas.origin, (3, 2));
    assert_eq!(canvas.contents.len(), 28);
    for c in &canvas.contents {
        assert_eq!(c.red, fx(0.0));
        assert_eq!(c.green, fx(0.0));
        assert_eq!(c.blue, fx(0.0));
    }
}

#[test]
fn plot_lands_row_major() {
    let mut canvas = canvas::new(5, 3);
    canvas.origin = (0, 0);
    let red = color::new(fx(1.0), fx(0.0), fx(0.0));
    canvas.plot(2, 1, red).unwrap();
    assert_eq!(canvas.contents[7].red, fx(1.0));
    assert_eq!(canvas.convert_location(4, 2), Ok(14));
}

#[test]
fn every_edge_is_out_of_bounds() {
    let mut canvas = canvas::new(5, 3);
    canvas.origin = (0, 0);
    let red = color::new(fx(1.0), fx(0.0), fx(0.0));
    assert_eq!(canvas.plot(5, 0, red), Err(Error::OutOfBounds));
    assert_eq!(canvas.plot(0, 3, red), Err(Error::OutOfBounds));
    assert_eq!(canvas.plot(-1, 0, red), Err(Error::OutOfBounds));
    assert_eq!(canvas.plot(0, -1, red), Err(Error::OutOfBounds));
    assert_eq!(canvas.read(5, 0).err(), Some(Error::OutOfBounds));
    for c in &canvas.contents {
        assert_eq!(c.red, fx(0.0));
    }
}

#[test]
fn pixmap_text_has_header_and_one_line_per_pixel() {
    let mut canvas = canvas::new(3, 2);
    canvas.origin = (0, 0);
    canvas.plot(0, 0, color::new(fx(1.5), fx(0.0), fx(0.0))).unwrap();
    canvas.plot(1, 0, color::new(fx(0.0), fx(0.5), fx(0.0))).unwrap();
    canvas.plot(2, 1, color::new(fx(-0.5), fx(0.0), fx(1.0))).unwrap();
    let text = String::from_utf8(canvas.to_ppm()).unwrap();
    assert_eq!(text, "P3\n3 2\n255\n255 0 0\n0 127 0\n0 0 0\n0 0 0\n0 0 0\n0 0 255\n");
}

#[test]
fn pixmap_of_a_large_canvas_writes_all_digits() {
    let canvas = canvas::new(1080, 12);
    let text = String::from_utf8(canvas.to_ppm()).unwrap();
    assert!(text.starts_with("P3\n1080 12\n255\n0 0 0\n"));
    assert_eq!(text.lines().count(), 3 + 1080 * 12);
}

#[test]
fn antialiasing_with_reach_one_keeps_the_picture() {
    let mut canvas = canvas::new(4, 3);
    canvas.origin = (0, 0);
    canvas.plot(1, 1, color::new(fx(0.4), fx(0.8), fx(1.2))).unwrap();
    let smooth = canvas.antialiased(1);
    assert_eq!(smooth.width, 4);
    assert_eq!(smooth.height, 3);
    assert_eq!(smooth.origin, (2, 1));
    for k in 0..12 {
        assert_eq!(smooth.contents[k].red, canvas.contents[k].red);
        assert_eq!(smooth.contents[k].green, canvas.contents[k].green);
        assert_eq!(smooth.contents[k].blue, canvas.contents[k].blue);
    }
}

#[test]
fn antialiasing_averages_with_multiplicity() {
    let mut canvas = canvas::new(3, 3);
    canvas.origin = (0, 0);
    canvas.plot(1, 1, color::new(fx(1.6), fx(0.0), fx(3.2))).unwrap();
    let smooth = canvas.antialiased(2);
    // The middle pixel counts itself four times, each side neighbour twice, each corner once.
    assert_eq!(smooth.contents[4].red, fx(0.4));
    assert_eq!(smooth.contents[4].blue, fx(0.8));
    // The top left pixel counts itself four times, the pixels right of it and below it twice
    // each, the middle once, and once the end of its own row, which the column before the
    // first one wraps to: ten places, one of them lit.
    let corner = smooth.contents[0];
    assert_eq!(corner.red, fx(0.16));
    assert_eq!(corner.blue, fx(0.32));
}

#[test]
fn antialiasing_without_reach_is_black() {
    let mut canvas = canvas::new(2, 2);
    canvas.origin = (0, 0);
    canvas.plot(0, 0, color::new(fx(1.0), fx(1.0), fx(1.0))).unwrap();
    let smooth = canvas.antialiased(0);
    for c in &smooth.contents {
        assert_eq!(c.red, fx(0.0));
    }
    let smooth = canvas.antialiased(-3);
    for c in &smooth.contents {
        assert_eq!(c.blue, fx(0.0));
    }
}

#[test]
fn a_cloned_canvas_has_the_same_pixels() {
    let mut canvas = canvas::new(3, 2);
    canvas.origin = (0, 1);
    canvas.plot(1, 0, color::new(fx(0.25), fx(0.5), fx(0.75))).unwrap();
    let copy = canvas.clone();
    assert_eq!(copy.origin, (0, 1));
    assert_eq!(copy.width, 3);
    assert_eq!(copy.height, 2);
    assert_eq!(copy.contents.len(), 6);
    for k in 0..6 {
        assert_eq!(copy.contents[k].red, canvas.contents[k].red);
        assert_eq!(copy.contents[k].green, canvas.contents[k].green);
        assert_eq!(copy.contents[k].blue, canvas.contents[k].blue);
    }
    assert_eq!(copy.contents[4].green, fx(0.5));
}
