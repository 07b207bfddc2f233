//! A rectangle of pixels, addressed relative to an origin that starts at its center.

use vstd::arithmetic::div_mod::lemma_fundamental_div_mod_converse;
use vstd::prelude::*;
use crate::color::Color;
use crate::error::Error;
use crate::scalar::{Scalar, SCALE};

verus! {

/// A picture: `width` by `height` colors.
#[derive(Debug)]
pub struct Canvas {
    /// The pixel, counted from the top left, that has the coordinates zero and zero.
    pub origin: (i32, i32),
    pub width: usize,
    pub height: usize,
    /// The pixels, row after row.
    pub contents: Vec<Color>,
}

impl Clone for Canvas {
    /// A canvas of the same size and origin with the same pixels.
    fn clone(&self) -> (c: Canvas)
        ensures
            c.origin == self.origin,
            c.width == self.width,
            c.height == self.height,
            c.contents@ == self.contents@,
    {
        let mut contents: Vec<Color> = Vec::new();
        let mut k: usize = 0;
        while k < self.contents.len()
            invariant
                k <= self.contents.len(),
                contents@ == self.contents@.take(k as int),
            decreases self.contents.len() - k,
        {
            contents.push(self.contents[k]);
            proof {
                assert(contents@ =~= self.contents@.take(k + 1));
            }
            k += 1;
        }
        proof {
            assert(self.contents@.take(self.contents.len() as int) == self.contents@);
        }
        Canvas { origin: self.origin, width: self.width, height: self.height, contents }
    }
}

/// A black canvas of `w` by `h` pixels with the origin at its center.
pub fn new(w: usize, h: usize) -> (c: Canvas)
    requires
        w <= i32::MAX,
        h <= i32::MAX,
        w * h <= usize::MAX,
    ensures
        c.wf(),
        c.width == w,
        c.height == h,
        c.origin == ((w / 2) as i32, (h / 2) as i32),
        forall|k: int| 0 <= k < c.contents@.len() ==> c.contents@[k] == crate::color::black(),
{
    let n: usize = w * h;
    let mut contents: Vec<Color> = Vec::new();
    let mut k: usize = 0;
    while k < n
        invariant
            k <= n,
            contents@.len() == k,
            forall|m: int| 0 <= m < k ==> contents@[m] == crate::color::black(),
        decreases n - k,
    {
        contents.push(crate::color::black());
        k += 1;
    }
    Canvas { origin: ((w / 2) as i32, (h / 2) as i32), width: w, height: h, contents }
}

/// A sum of colors and how many went into it, with the pixel at `l` added if there is one.
pub open spec fn spec_gather(acc: (Color, nat), contents: Seq<Color>, l: int) -> (Color, nat) {
    if 0 <= l < contents.len() {
        (acc.0.spec_add(contents[l]), acc.1 + 1)
    } else {
        acc
    }
}

/// The four pixels `i` columns and `j` rows from `(x, y)`, added in the order right below, left
/// below, right above, left above. A place is found by its index `row * w + column`, so a
/// column past the edge lands in a neighbouring row.
pub open spec fn spec_gather_cell(
    acc: (Color, nat),
    contents: Seq<Color>,
    w: int,
    x: int,
    y: int,
    i: int,
    j: int,
) -> (Color, nat) {
    let a = spec_gather(acc, contents, (y + j) * w + (x + i));
    let b = spec_gather(a, contents, (y + j) * w + (x - i));
    let c = spec_gather(b, contents, (y - j) * w + (x + i));
    spec_gather(c, contents, (y - j) * w + (x - i))
}

/// The cells `i` columns away and `0..n` rows away.
pub open spec fn spec_gather_column(
    acc: (Color, nat),
    contents: Seq<Color>,
    w: int,
    x: int,
    y: int,
    i: int,
    n: nat,
) -> (Color, nat)
    decreases n,
{
    if n == 0 {
        acc
    } else {
        spec_gather_cell(
            spec_gather_column(acc, contents, w, x, y, i, (n - 1) as nat),
            contents,
            w,
            x,
            y,
            i,
            n - 1,
        )
    }
}

/// The cells `0..m` columns away and `0..r` rows away, starting from black and none.
pub open spec fn spec_gather_all(
    contents: Seq<Color>,
    w: int,
    x: int,
    y: int,
    r: nat,
    m: nat,
) -> (Color, nat)
    decreases m,
{
    if m == 0 {
        (crate::color::black(), 0)
    } else {
        spec_gather_column(
            spec_gather_all(contents, w, x, y, r, (m - 1) as nat),
            contents,
            w,
            x,
            y,
            m - 1,
            r,
        )
    }
}

/// The mean of the pixels within `r` of `(x, y)`: their sum over their number. Black where
/// there are none.
pub open spec fn spec_blurred(contents: Seq<Color>, w: int, x: int, y: int, r: int) -> Color {
    let reach = if r > 0 {
        r as nat
    } else {
        0
    };
    let (sum, count) = spec_gather_all(contents, w, x, y, reach, reach);
    if count == 0 {
        crate::color::black()
    } else {
        sum.spec_over(Scalar::spec_from_int(count as int))
    }
}

/// The digits of `n` in base ten, as text.
pub open spec fn spec_decimal(n: nat) -> Seq<u8>
    decreases n,
{
    if n < 10 {
        seq![(48 + n) as u8]
    } else {
        spec_decimal(n / 10).push((48 + n % 10) as u8)
    }
}

/// A channel on the scale of bytes, as text: its whole part.
pub open spec fn spec_channel_text(c: Scalar) -> Seq<u8> {
    spec_decimal((crate::color::scale_num_1_to_255(c)@ / (SCALE as int)) as nat)
}

/// The line of a pixel: red, green and blue on the scale of bytes, a blank between them.
pub open spec fn spec_pixel_line(c: Color) -> Seq<u8> {
    spec_channel_text(c.red) + seq![32u8] + spec_channel_text(c.green) + seq![32u8]
        + spec_channel_text(c.blue) + seq![10u8]
}

/// The lines of the pixels, one after the other.
pub open spec fn spec_pixel_lines(contents: Seq<Color>) -> Seq<u8>
    decreases contents.len(),
{
    if contents.len() == 0 {
        Seq::empty()
    } else {
        spec_pixel_lines(contents.drop_last()) + spec_pixel_line(contents.last())
    }
}

/// The head of a plain pixmap: the mark `P3`, width and height, and the largest channel value.
pub open spec fn spec_ppm_header(width: nat, height: nat) -> Seq<u8> {
    seq![80u8, 51u8, 10u8] + spec_decimal(width) + seq![32u8] + spec_decimal(height) + seq![
        10u8,
        50u8,
        53u8,
        53u8,
        10u8,
    ]
}

fn push_decimal(out: &mut Vec<u8>, n: u64)
    ensures
        final(out)@ == old(out)@ + spec_decimal(n as nat),
    decreases n,
{
    if n >= 10 {
        push_decimal(out, n / 10);
    }
    out.push((48 + n % 10) as u8);
    proof {
        if n < 10 {
            assert(final(out)@ =~= old(out)@ + seq![(48 + n) as u8]);
        } else {
            assert(final(out)@ =~= old(out)@ + spec_decimal((n / 10) as nat).push(
                (48 + n % 10) as u8,
            ));
        }
    }
}

fn push_channel(out: &mut Vec<u8>, c: Scalar)
    ensures
        final(out)@ == old(out)@ + spec_channel_text(c),
{
    let scaled = crate::color::scale_num_1_to_255(c);
    push_decimal(out, (scaled.raw / SCALE) as u64);
}

fn push_pixel_line(out: &mut Vec<u8>, c: Color)
    ensures
        final(out)@ == old(out)@ + spec_pixel_line(c),
{
    push_channel(out, c.red);
    out.push(32);
    push_channel(out, c.green);
    out.push(32);
    push_channel(out, c.blue);
    out.push(10);
    proof {
        assert(final(out)@ =~= old(out)@ + spec_pixel_line(c));
    }
}

impl Canvas {
    /// There is one pixel for each place in the rectangle.
    pub open spec fn wf(&self) -> bool {
        self.contents@.len() == self.width * self.height
    }

    /// Where in `contents` the pixel `(x_arg, y_arg)` is kept, if the canvas has that pixel:
    /// once the origin is added, the column must lie in `0..width` and the row in `0..height`.
    pub open spec fn spec_location(&self, x_arg: int, y_arg: int) -> Option<int> {
        let x = x_arg + self.origin.0;
        let y = y_arg + self.origin.1;
        if 0 <= x < self.width && 0 <= y < self.height && y * self.width + x
            < self.contents@.len() {
            Some(y * self.width + x)
        } else {
            None
        }
    }

    /// Where in `contents` the pixel `(x_arg, y_arg)` is kept; fails where the canvas has no
    /// such pixel.
    pub fn convert_location(&self, x_arg: i32, y_arg: i32) -> (res: Result<usize, Error>)
        ensures
            match self.spec_location(x_arg as int, y_arg as int) {
                Some(l) => res is Ok && res->Ok_0 == l,
                None => res == Err::<usize, Error>(Error::OutOfBounds),
            },
    {
        let x: i64 = x_arg as i64 + self.origin.0 as i64;
        let y: i64 = y_arg as i64 + self.origin.1 as i64;
        if x < 0 || y < 0 {
            return Err(Error::OutOfBounds);
        }
        let column: u128 = x as u128;
        let row: u128 = y as u128;
        let width: u128 = self.width as u128;
        if column >= width || row >= self.height as u128 {
            return Err(Error::OutOfBounds);
        }
        assert(row * width <= 0xffff_ffff * 0xffff_ffff_ffff_ffff) by (nonlinear_arith)
            requires
                row <= 0xffff_ffff,
                width <= 0xffff_ffff_ffff_ffff,
        ;
        let location: u128 = row * width + column;
        if location >= self.contents.len() as u128 {
            return Err(Error::OutOfBounds);
        }
        Ok(location as usize)
    }

    /// Sets the pixel `(x, y)` to `c1`; fails, and changes nothing, where the canvas has no such
    /// pixel.
    pub fn plot(&mut self, x: i32, y: i32, c1: Color) -> (res: Result<(), Error>)
        ensures
            final(self).origin == old(self).origin,
            final(self).width == old(self).width,
            final(self).height == old(self).height,
            match old(self).spec_location(x as int, y as int) {
                Some(l) => res is Ok && final(self).contents@ == old(self).contents@.update(l, c1),
                None => res == Err::<(), Error>(Error::OutOfBounds) && final(self).contents@
                    == old(self).contents@,
            },
    {
        match self.convert_location(x, y) {
            Ok(location) => {
                self.contents.set(location, c1);
                Ok(())
            },
            Err(e) => Err(e),
        }
    }

    /// The canvas as a plain pixmap: the header, then a line for each pixel, row after row.
    pub open spec fn spec_ppm(&self) -> Seq<u8> {
        spec_ppm_header(self.width as nat, self.height as nat) + spec_pixel_lines(self.contents@)
    }

    /// The text of the canvas as a plain pixmap.
    pub fn to_ppm(&self) -> (text: Vec<u8>)
        ensures
            text@ == self.spec_ppm(),
    {
        let mut out: Vec<u8> = Vec::new();
        out.push(80);
        out.push(51);
        out.push(10);
        push_decimal(&mut out, self.width as u64);
        out.push(32);
        push_decimal(&mut out, self.height as u64);
        out.push(10);
        out.push(50);
        out.push(53);
        out.push(53);
        out.push(10);
        proof {
            assert(out@ =~= spec_ppm_header(self.width as nat, self.height as nat));
            assert(self.contents@.take(0) =~= Seq::empty());
        }
        let mut k: usize = 0;
        while k < self.contents.len()
            invariant
                k <= self.contents.len(),
                out@ == spec_ppm_header(self.width as nat, self.height as nat) + spec_pixel_lines(
                    self.contents@.take(k as int),
                ),
            decreases self.contents.len() - k,
        {
            proof {
                assert(self.contents@.take(k + 1).drop_last() == self.contents@.take(k as int));
                assert(self.contents@.take(k + 1).last() == self.contents@[k as int]);
            }
            let ghost before = out@;
            push_pixel_line(&mut out, self.contents[k]);
            proof {
                assert(out@ =~= spec_ppm_header(self.width as nat, self.height as nat) + (
                spec_pixel_lines(self.contents@.take(k as int)) + spec_pixel_line(
                    self.contents@[k as int],
                )));
            }
            k += 1;
        }
        proof {
            assert(self.contents@.take(self.contents.len() as int) == self.contents@);
        }
        out
    }

    fn gather(&self, acc: (Color, u64), l: i128) -> (res: (Color, u64))
        requires
            acc.1 < u64::MAX,
        ensures
            (res.0, res.1 as nat) == spec_gather((acc.0, acc.1 as nat), self.contents@, l as int),
    {
        if l >= 0 && l < self.contents.len() as i128 {
            (acc.0 + self.contents[l as usize], acc.1 + 1)
        } else {
            acc
        }
    }

    /// The mean of the pixels within `r` of `(x, y)`.
    fn blurred(&self, x: usize, y: usize, r: i32) -> (c: Color)
        requires
            x <= i32::MAX,
            y <= i32::MAX,
            self.width <= i32::MAX,
        ensures
            c == spec_blurred(self.contents@, self.width as int, x as int, y as int, r as int),
    {
        let reach: u64 = if r > 0 {
            r as u64
        } else {
            0
        };
        let w: i128 = self.width as i128;
        let mut acc: (Color, u64) = (crate::color::black(), 0);
        let mut i: u64 = 0;
        while i < reach
            invariant
                i <= reach <= i32::MAX,
                x <= i32::MAX,
                y <= i32::MAX,
                w == self.width,
                w <= i32::MAX,
                acc.1 <= 4 * (i * reach),
                (acc.0, acc.1 as nat) == spec_gather_all(
                    self.contents@,
                    w as int,
                    x as int,
                    y as int,
                    reach as nat,
                    i as nat,
                ),
            decreases reach - i,
        {
            let ghost start = (acc.0, acc.1 as nat);
            let mut j: u64 = 0;
            while j < reach
                invariant
                    i < reach <= i32::MAX,
                    j <= reach,
                    x <= i32::MAX,
                    y <= i32::MAX,
                    w == self.width,
                    w <= i32::MAX,
                    acc.1 <= 4 * (i * reach + j),
                    (acc.0, acc.1 as nat) == spec_gather_column(
                        start,
                        self.contents@,
                        w as int,
                        x as int,
                        y as int,
                        i as int,
                        j as nat,
                    ),
                decreases reach - j,
            {
                proof {
                    assert(4 * (i * reach + j) + 4 <= 4 * (0x7fff_ffff * 0x7fff_ffff))
                        by (nonlinear_arith)
                        requires
                            i < reach <= 0x7fff_ffff,
                            j < reach,
                    ;
                }
                let down: i128 = y as i128 + j as i128;
                let up: i128 = y as i128 - j as i128;
                let right: i128 = x as i128 + i as i128;
                let left: i128 = x as i128 - i as i128;
                assert(-0x1_0000_0000 * 0x8000_0000 <= down * w <= 0x1_0000_0000 * 0x8000_0000
                    && -0x1_0000_0000 * 0x8000_0000 <= up * w <= 0x1_0000_0000 * 0x8000_0000)
                    by (nonlinear_arith)
                    requires
                        0 <= w <= 0x8000_0000,
                        -0x1_0000_0000 <= down <= 0x1_0000_0000,
                        -0x1_0000_0000 <= up <= 0x1_0000_0000,
                ;
                acc = self.gather(acc, down * w + right);
                acc = self.gather(acc, down * w + left);
                acc = self.gather(acc, up * w + right);
                acc = self.gather(acc, up * w + left);
                j += 1;
            }
            proof {
                assert((i + 1) * reach == i * reach + reach) by (nonlinear_arith);
            }
            i += 1;
        }
        if acc.1 == 0 {
            crate::color::black()
        } else {
            acc.0.over(Scalar::from_u64(acc.1))
        }
    }

    /// The canvas with every pixel replaced by the mean of the pixels within `r` of it. The
    /// new canvas has its origin at its center.
    pub fn antialiased(&self, r: i32) -> (res: Canvas)
        requires
            self.width <= i32::MAX,
            self.height <= i32::MAX,
            self.width * self.height <= usize::MAX,
        ensures
            res.width == self.width,
            res.height == self.height,
            res.origin == ((self.width / 2) as i32, (self.height / 2) as i32),
            res.wf(),
            forall|k: int|
                0 <= k < res.contents@.len() ==> #[trigger] res.contents@[k] == spec_blurred(
                    self.contents@,
                    self.width as int,
                    k % (self.width as int),
                    k / (self.width as int),
                    r as int,
                ),
    {
        let width: usize = self.width;
        let height: usize = self.height;
        let mut contents: Vec<Color> = Vec::new();
        let mut y_loc: usize = 0;
        while y_loc < height
            invariant
                width == self.width,
                height == self.height,
                width <= i32::MAX,
                height <= i32::MAX,
                y_loc <= height,
                contents@.len() == y_loc * width,
                forall|k: int|
                    0 <= k < contents@.len() ==> #[trigger] contents@[k] == spec_blurred(
                        self.contents@,
                        width as int,
                        k % (width as int),
                        k / (width as int),
                        r as int,
                    ),
            decreases height - y_loc,
        {
            let mut x_loc: usize = 0;
            while x_loc < width
                invariant
                    width == self.width,
                    height == self.height,
                    width <= i32::MAX,
                    height <= i32::MAX,
                    y_loc < height,
                    x_loc <= width,
                    contents@.len() == y_loc * width + x_loc,
                    forall|k: int|
                        0 <= k < contents@.len() ==> #[trigger] contents@[k] == spec_blurred(
                            self.contents@,
                            width as int,
                            k % (width as int),
                            k / (width as int),
                            r as int,
                        ),
                decreases width - x_loc,
            {
                proof {
                    lemma_fundamental_div_mod_converse(
                        contents@.len() as int,
                        width as int,
                        y_loc as int,
                        x_loc as int,
                    );
                }
                let avg_color = self.blurred(x_loc, y_loc, r);
                contents.push(avg_color);
                x_loc += 1;
            }
            proof {
                assert((y_loc + 1) * width == y_loc * width + width) by (nonlinear_arith);
            }
            y_loc += 1;
        }
        proof {
            assert(contents@.len() == width * height) by (nonlinear_arith)
                requires
                    contents@.len() == y_loc * width,
                    y_loc == height,
            ;
        }
        Canvas { origin: ((width / 2) as i32, (height / 2) as i32), width, height, contents }
    }

    /// The pixel `(x, y)`; fails where the canvas has no such pixel.
    pub fn read(&self, x: i32, y: i32) -> (res: Result<Color, Error>)
        ensures
            match self.spec_location(x as int, y as int) {
                Some(l) => res == Ok::<Color, Error>(self.contents@[l]),
                None => res == Err::<Color, Error>(Error::OutOfBounds),
            },
    {
        match self.convert_location(x, y) {
            Ok(location) => {
                Ok(self.contents[location])
            },
            Err(e) => Err(e),
        }
    }
}

} // verus!
