//! The canvas: a grid of pixels with a depth for each, and the frame of
//! characters that a rasterizer makes of it.
use crate::basic_rasterizer::BasicAsciiRasterizer;
use crate::rasterizer::{Color, ColoredChar, ColoredPixel, Rasterizer};
use crate::scalar::Scalar;
use vstd::prelude::*;

verus! {

/// Why a pixel could not be addressed.
#[derive(Debug, PartialEq, Eq, Structural)]
pub enum CanvasError {
    /// The canvas has no pixel in column `x` of scanline `y`.
    PixelOutOfRange { x: usize, y: usize },
}

/// What a ray through the pixel in column `x` of scanline `y` met on one
/// shape: the pixel that shows the surface there, and the distance along the
/// ray at which it was met (the time of impact).
#[derive(Clone, Copy, Debug, PartialEq, Eq, Structural)]
pub struct RayHit {
    pub x: usize,
    pub y: usize,
    pub pixel: ColoredPixel,
    pub toi: Scalar,
}

/// The pixel that an unreached place shows unless another is chosen: an
/// intensity of 1.1, above every intensity of a lit surface, in the
/// terminal's own colour.
pub open spec fn default_background() -> ColoredPixel {
    ColoredPixel { intensity: Scalar { bits: 0x3f8c_cccd }, color: Color::Reset }
}

/// The scanlines of a buffer that holds `height` of them, `width` pixels each,
/// one after the other.
pub open spec fn rows_of(pixels: Seq<ColoredPixel>, width: int, height: int) -> Seq<
    Seq<ColoredPixel>,
> {
    Seq::new(height as nat, |y: int| pixels.subrange(y * width, (y + 1) * width))
}

/// The buffers after a write to place `i` that is subject to the depth test:
/// the pixel and its depth are taken only if the depth is less than the one
/// held there.
pub open spec fn depth_test(
    pixels: Seq<ColoredPixel>,
    depths: Seq<Scalar>,
    i: int,
    pixel: ColoredPixel,
    toi: Scalar,
) -> (Seq<ColoredPixel>, Seq<Scalar>) {
    if 0 <= i < depths.len() && toi.spec_lt(depths[i]) {
        (pixels.update(i, pixel), depths.update(i, toi))
    } else {
        (pixels, depths)
    }
}

/// Whether the hit falls on place `i` of a canvas of the given size.
pub open spec fn falls_on(hit: RayHit, width: int, height: int, i: int) -> bool {
    hit.x < width && hit.y < height && hit.y * width + hit.x == i
}

/// Whether the hit lies at a finite distance.
pub open spec fn in_sight(hit: RayHit) -> bool {
    hit.toi.spec_lt(Scalar::spec_infinity())
}

/// Whether, of the first `count` hits, the one numbered `k` is what place `i`
/// shows: it falls there, in sight; no hit there is nearer; and every
/// earlier hit there that is in sight is farther.
pub open spec fn nearest(
    hits: Seq<RayHit>,
    count: int,
    width: int,
    height: int,
    i: int,
    k: int,
) -> bool {
    &&& 0 <= k < count
    &&& falls_on(hits[k], width, height, i)
    &&& in_sight(hits[k])
    &&& forall|j: int|
        0 <= j < count && falls_on(#[trigger] hits[j], width, height, i) ==> {
            &&& !hits[j].toi.spec_lt(hits[k].toi)
            &&& j < k && in_sight(hits[j]) ==> hits[k].toi.spec_lt(hits[j].toi)
        }
}

/// Whether `pixel` and `depth` are what place `i` shows after the first
/// `count` hits: the nearest hit that fell there, or the background at an
/// infinite depth if none fell there in sight.
pub open spec fn settled(
    hits: Seq<RayHit>,
    count: int,
    width: int,
    height: int,
    background: ColoredPixel,
    i: int,
    pixel: ColoredPixel,
    depth: Scalar,
) -> bool {
    ||| {
        &&& pixel == background
        &&& depth == Scalar::spec_infinity()
        &&& forall|j: int|
            0 <= j < count && falls_on(#[trigger] hits[j], width, height, i) ==> !in_sight(hits[j])
    }
    ||| exists|k: int|
        {
            &&& #[trigger] nearest(hits, count, width, height, i, k)
            &&& pixel == hits[k].pixel
            &&& depth == hits[k].toi
        }
}

/// A grid of pixels, the depth at which each was met, and the frame of
/// characters made of them. The grid is `grid_width` by `grid_height` times
/// as large as the frame, as the rasterizer asks.
pub struct Canvas<R: Rasterizer> {
    frame_buffer: Vec<ColoredChar>,
    pixel_buffer: Vec<ColoredPixel>,
    toi_buffer: Vec<Scalar>,
    width: usize,
    height: usize,
    rasterizer: R,
    bg_pixel: ColoredPixel,
}

impl<R: Rasterizer> Canvas<R> {

    /// The pixels, scanline after scanline from the bottom one up.
    pub closed spec fn pixels(self) -> Seq<ColoredPixel> {
        self.pixel_buffer@
    }

    /// The depth of each pixel, in the order of the pixels.
    pub closed spec fn depths(self) -> Seq<Scalar> {
        self.toi_buffer@
    }

    /// The frame as it was last made.
    pub closed spec fn frame(self) -> Seq<ColoredChar> {
        self.frame_buffer@
    }

    /// How many pixels a scanline holds.
    pub closed spec fn spec_width(self) -> int {
        self.width as int
    }

    /// How many scanlines there are.
    pub closed spec fn spec_height(self) -> int {
        self.height as int
    }

    /// The pixel of a place that no ray has reached.
    pub closed spec fn background(self) -> ColoredPixel {
        self.bg_pixel
    }

    /// The rasterizer that makes the frame.
    pub closed spec fn spec_rasterizer(self) -> R {
        self.rasterizer
    }

    /// How many characters a row of the frame holds.
    pub open spec fn spec_render_width(self) -> int {
        self.spec_width() / (self.spec_rasterizer().spec_grid_width() as int)
    }

    /// How many rows the frame holds.
    pub open spec fn spec_render_height(self) -> int {
        self.spec_height() / (self.spec_rasterizer().spec_grid_height() as int)
    }

    /// The frame that the rasterizer makes of the pixels as they are.
    pub open spec fn fresh_frame(self) -> Seq<ColoredChar> {
        crate::rasterizer::frame_of(
            &self.spec_rasterizer(),
            rows_of(self.pixels(), self.spec_width(), self.spec_height()),
            self.spec_render_width(),
        )
    }

    /// What holds of every canvas: there is a pixel and a depth for each
    /// place of the grid, the grid is made of whole blocks of the rasterizer's
    /// grid size, and the frame for it can be held in memory.
    pub open spec fn wf(self) -> bool {
        let gw = self.spec_rasterizer().spec_grid_width() as int;
        let gh = self.spec_rasterizer().spec_grid_height() as int;
        &&& gw >= 1
        &&& gh >= 1
        &&& 0 <= self.spec_width()
        &&& 0 <= self.spec_height()
        &&& self.spec_width() * self.spec_height() <= usize::MAX
        &&& self.pixels().len() == self.spec_width() * self.spec_height()
        &&& self.depths().len() == self.spec_width() * self.spec_height()
        &&& self.spec_width() % gw == 0
        &&& self.spec_height() % gh == 0
        &&& self.spec_render_height() * (self.spec_render_width() + 1) <= usize::MAX
    }

    /// Whether two canvases differ at most in their pixels and depths.
    pub open spec fn resembles(self, other: Canvas<R>) -> bool {
        &&& self.spec_width() == other.spec_width()
        &&& self.spec_height() == other.spec_height()
        &&& self.background() == other.background()
        &&& self.spec_rasterizer() == other.spec_rasterizer()
        &&& self.frame() == other.frame()
    }

    /// Whether the canvas has a pixel in column `x` of scanline `y`.
    pub open spec fn holds(self, x: int, y: int) -> bool {
        0 <= x < self.spec_width() && 0 <= y < self.spec_height()
    }

    /// Whether every place shows the background at an infinite depth.
    pub open spec fn blank(self) -> bool {
        &&& self.pixels() == Seq::new(
            (self.spec_width() * self.spec_height()) as nat,
            |i: int| self.background(),
        )
        &&& self.depths() == Seq::new(
            (self.spec_width() * self.spec_height()) as nat,
            |i: int| Scalar::spec_infinity(),
        )
    }
}


/// A product divided by one of its factors leaves the other, without
/// remainder.
proof fn lemma_exact_division(count: int, grid: int)
    requires
        0 <= count,
        0 < grid,
    ensures
        (count * grid) % grid == 0,
        (count * grid) / grid == count,
        (grid * count) % grid == 0,
        (grid * count) / grid == count,
{
    vstd::arithmetic::div_mod::lemma_fundamental_div_mod_converse(count * grid, grid, count, 0);
    assert(grid * count == count * grid) by (nonlinear_arith);
}

/// A dividend without remainder is the product of quotient and divisor.
proof fn lemma_whole_multiple(total: int, grid: int)
    requires
        0 <= total,
        0 < grid,
        total % grid == 0,
    ensures
        (total / grid) * grid == total,
        0 <= total / grid,
{
    vstd::arithmetic::div_mod::lemma_fundamental_div_mod(total, grid);
    vstd::arithmetic::div_mod::lemma_div_pos_is_pos(total, grid);
    assert(grid * (total / grid) == (total / grid) * grid) by (nonlinear_arith);
}

/// Each scanline of a buffer holds `width` pixels, which begin at the
/// buffer's pixel `y * width` for scanline `y`.
pub proof fn lemma_rows_of(pixels: Seq<ColoredPixel>, width: int, height: int)
    requires
        0 <= width,
        0 <= height,
        pixels.len() == width * height,
    ensures
        rows_of(pixels, width, height).len() == height,
        forall|y: int|
            0 <= y < height ==> (#[trigger] rows_of(pixels, width, height)[y]).len() == width,
        forall|y: int|
            0 <= y < height ==> (#[trigger] rows_of(pixels, width, height)[y]) == pixels.subrange(
                y * width,
                y * width + width,
            ),
{
    assert forall|y: int| 0 <= y < height implies (#[trigger] rows_of(pixels, width, height)[y]).len()
        == width by {
        lemma_row_bounds(width, height, y);
    }
    assert forall|y: int| 0 <= y < height implies (#[trigger] rows_of(pixels, width, height)[y])
        == pixels.subrange(y * width, y * width + width) by {
        lemma_row_bounds(width, height, y);
    }
}

/// Where scanline `y` begins and ends in a buffer of `height` scanlines.
pub proof fn lemma_row_bounds(width: int, height: int, y: int)
    requires
        0 <= width,
        0 <= y < height,
    ensures
        0 <= y * width,
        (y + 1) * width <= width * height,
        (y + 1) * width == y * width + width,
{
    assert((y + 1) * width <= height * width) by (nonlinear_arith)
        requires
            y + 1 <= height,
            width >= 0,
    ;
    assert(0 <= y * width) by (nonlinear_arith)
        requires
            0 <= y,
            0 <= width,
    ;
    assert((y + 1) * width == y * width + width) by (nonlinear_arith);
    assert(height * width == width * height) by (nonlinear_arith);
}

/// The scanlines of a buffer, as the slices that a rasterizer takes.
fn scanlines_of(buffer: &Vec<ColoredPixel>, width: usize, height: usize) -> (rows: Vec<
    &[ColoredPixel],
>)
    requires
        buffer@.len() == width * height,
    ensures
        crate::rasterizer::scanlines(rows@) == rows_of(buffer@, width as int, height as int),
        rows@.len() == height,
{
    let slice: &[ColoredPixel] = buffer.as_slice();
    let size: usize = buffer.len();
    let mut rows: Vec<&[ColoredPixel]> = Vec::with_capacity(height);
    let mut y: usize = 0;
    while y < height
        invariant
            slice@ == buffer@,
            buffer@.len() == width * height,
            size == width * height,
            0 <= y <= height,
            rows@.len() == y,
            forall|k: int|
                0 <= k < y ==> (#[trigger] rows@[k])@ == buffer@.subrange(
                    k * width,
                    (k + 1) * width,
                ),
        decreases height - y,
    {
        assert((y + 1) * width <= height * width) by (nonlinear_arith)
            requires
                y + 1 <= height,
                width >= 0,
        ;
        assert(y * width + width == (y + 1) * width) by (nonlinear_arith);
        assert(height * width == width * height) by (nonlinear_arith);
        let start: usize = y * width;
        let end: usize = start + width;
        let row: &[ColoredPixel] = &slice[start..end];
        rows.push(row);
        y += 1;
    }
    assert(crate::rasterizer::scanlines(rows@) =~= rows_of(buffer@, width as int, height as int));
    rows
}

impl<R: Rasterizer> Canvas<R> {
    /// A blank canvas for a frame of `render_width` by `render_height`
    /// characters. Its grid of pixels is larger than the frame by the
    /// rasterizer's grid size.
    pub fn new(render_width: usize, render_height: usize, rasterizer: R) -> (canvas: Canvas<R>)
        requires
            render_width * rasterizer.spec_grid_width() <= usize::MAX,
            render_height * rasterizer.spec_grid_height() <= usize::MAX,
            (render_width * rasterizer.spec_grid_width()) * (render_height
                * rasterizer.spec_grid_height()) <= usize::MAX,
            render_height * (render_width + 1) <= usize::MAX,
        ensures
            canvas.wf(),
            canvas.spec_rasterizer() == rasterizer,
            canvas.background() == default_background(),
            canvas.spec_width() == render_width * rasterizer.spec_grid_width(),
            canvas.spec_height() == render_height * rasterizer.spec_grid_height(),
            canvas.spec_render_width() == render_width,
            canvas.spec_render_height() == render_height,
            canvas.blank(),
            canvas.frame() == canvas.fresh_frame(),
    {
        let bg_pixel = ColoredPixel {
            intensity: Scalar::from_bits(0x3f8c_cccd),
            color: Color::Reset,
        };
        Canvas::blank_canvas(render_width, render_height, rasterizer, bg_pixel)
    }

    /// A blank canvas with the given background.
    fn blank_canvas(
        render_width: usize,
        render_height: usize,
        rasterizer: R,
        bg_pixel: ColoredPixel,
    ) -> (canvas: Canvas<R>)
        requires
            render_width * rasterizer.spec_grid_width() <= usize::MAX,
            render_height * rasterizer.spec_grid_height() <= usize::MAX,
            (render_width * rasterizer.spec_grid_width()) * (render_height
                * rasterizer.spec_grid_height()) <= usize::MAX,
            render_height * (render_width + 1) <= usize::MAX,
        ensures
            canvas.wf(),
            canvas.spec_rasterizer() == rasterizer,
            canvas.background() == bg_pixel,
            canvas.spec_width() == render_width * rasterizer.spec_grid_width(),
            canvas.spec_height() == render_height * rasterizer.spec_grid_height(),
            canvas.spec_render_width() == render_width,
            canvas.spec_render_height() == render_height,
            canvas.blank(),
            canvas.frame() == canvas.fresh_frame(),
    {
        let grid_width: usize = rasterizer.grid_width();
        let grid_height: usize = rasterizer.grid_height();
        proof {
            lemma_exact_division(render_width as int, grid_width as int);
            lemma_exact_division(render_height as int, grid_height as int);
        }
        assert(grid_width * render_width == render_width * grid_width) by (nonlinear_arith);
        assert(grid_height * render_height == render_height * grid_height) by (nonlinear_arith);
        let width: usize = grid_width * render_width;
        let height: usize = grid_height * render_height;
        let size: usize = width * height;
        let mut pixel_buffer: Vec<ColoredPixel> = Vec::with_capacity(size);
        let mut toi_buffer: Vec<Scalar> = Vec::with_capacity(size);
        let mut i: usize = 0;
        while i < size
            invariant
                0 <= i <= size,
                pixel_buffer@ == Seq::new(i as nat, |k: int| bg_pixel),
                toi_buffer@ == Seq::new(i as nat, |k: int| Scalar::spec_infinity()),
            decreases size - i,
        {
            pixel_buffer.push(bg_pixel);
            toi_buffer.push(Scalar::infinity());
            i += 1;
        }
        let rows = scanlines_of(&pixel_buffer, width, height);
        proof {
            lemma_rows_of(pixel_buffer@, width as int, height as int);
        }
        let frame_buffer = rasterizer.pixels_to_stdout(rows, render_width);
        Canvas { frame_buffer, pixel_buffer, toi_buffer, width, height, rasterizer, bg_pixel }
    }

    /// How many pixels across make one character of the frame.
    pub fn grid_width(&self) -> (w: usize)
        ensures
            w == self.spec_rasterizer().spec_grid_width(),
            w >= 1,
    {
        self.rasterizer.grid_width()
    }

    /// How many pixels down make one character of the frame.
    pub fn grid_height(&self) -> (h: usize)
        ensures
            h == self.spec_rasterizer().spec_grid_height(),
            h >= 1,
    {
        self.rasterizer.grid_height()
    }

    /// How many characters a row of the frame holds.
    pub fn render_width(&self) -> (w: usize)
        requires
            self.wf(),
        ensures
            w == self.spec_render_width(),
    {
        self.width / self.grid_width()
    }

    /// How many rows the frame holds.
    pub fn render_height(&self) -> (h: usize)
        requires
            self.wf(),
        ensures
            h == self.spec_render_height(),
    {
        self.height / self.grid_height()
    }

    /// The frame as it was last made.
    pub fn frame_buffer(&self) -> (frame: &Vec<ColoredChar>)
        ensures
            frame@ == self.frame(),
    {
        &self.frame_buffer
    }

    /// The pixels, scanline after scanline from the bottom one up.
    pub fn pixel_buffer(&self) -> (pixels: &Vec<ColoredPixel>)
        requires
            self.wf(),
        ensures
            pixels@ == self.pixels(),
            pixels@.len() == self.spec_width() * self.spec_height(),
    {
        &self.pixel_buffer
    }

    /// The depth of each pixel, in the order of the pixels.
    pub fn toi_buffer(&self) -> (depths: &Vec<Scalar>)
        requires
            self.wf(),
        ensures
            depths@ == self.depths(),
            depths@.len() == self.spec_width() * self.spec_height(),
    {
        &self.toi_buffer
    }

    /// The rasterizer that makes the frame.
    pub fn rasterizer(&self) -> (rasterizer: &R)
        ensures
            *rasterizer == self.spec_rasterizer(),
    {
        &self.rasterizer
    }

    /// The pixel of a place that no ray has reached.
    pub fn bg_pixel(&self) -> (pixel: ColoredPixel)
        ensures
            pixel == self.background(),
    {
        self.bg_pixel
    }
}


impl<R: Rasterizer> Canvas<R> {
    /// The place in the buffers of the pixel in column `x` of scanline `y`.
    /// The place is found block by block, as the rasterizer reads the grid:
    /// the block's row and column, then the pixel's row and column in the
    /// block. That is the pixel's place in a plain scanline order.
    pub fn pixel_to_index(&self, x: usize, y: usize) -> (res: Result<usize, CanvasError>)
        requires
            self.wf(),
        ensures
            match res {
                Ok(i) => self.holds(x as int, y as int) && i == y * self.spec_width() + x,
                Err(CanvasError::PixelOutOfRange { x: column, y: scanline }) => !self.holds(
                    x as int,
                    y as int,
                ) && column == x && scanline == y,
            },
            res is Ok ==> res->Ok_0 < self.pixels().len() && res->Ok_0 < self.depths().len(),
    {
        if x < self.width && y < self.height {
            let grid_width: usize = self.grid_width();
            let grid_height: usize = self.grid_height();
            let x_major: usize = x / grid_width;
            let x_minor: usize = x % grid_width;
            let y_major: usize = y / grid_height;
            let y_minor: usize = y % grid_height;
            proof {
                let w = self.width as int;
                vstd::arithmetic::div_mod::lemma_fundamental_div_mod(x as int, grid_width as int);
                vstd::arithmetic::div_mod::lemma_fundamental_div_mod(y as int, grid_height as int);
                assert((y_major * w) * grid_height + y_minor * w == y * w) by (nonlinear_arith)
                    requires
                        y == grid_height * y_major + y_minor,
                ;
                assert(0 <= y_major * w <= (y_major * w) * grid_height) by (nonlinear_arith)
                    requires
                        0 <= y_major,
                        0 <= w,
                        1 <= grid_height,
                ;
                assert(0 <= y_minor * w) by (nonlinear_arith)
                    requires
                        0 <= y_minor,
                        0 <= w,
                ;
                assert(x_major * grid_width == grid_width * x_major) by (nonlinear_arith);
                lemma_row_bounds(w, self.height as int, y as int);
            }
            let idx: usize = y_major * self.width * grid_height + y_minor * self.width + x_major
                * grid_width + x_minor;
            Ok(idx)
        } else {
            Err(CanvasError::PixelOutOfRange { x, y })
        }
    }

    /// Writes a pixel, whatever its place holds. Does nothing if the canvas
    /// has no such place.
    pub fn set_pixel(&mut self, x: usize, y: usize, colored_pixel: ColoredPixel)
        requires
            old(self).wf(),
        ensures
            final(self).wf(),
            final(self).resembles(*old(self)),
            final(self).depths() == old(self).depths(),
            final(self).pixels() == (if old(self).holds(x as int, y as int) {
                old(self).pixels().update(y * old(self).spec_width() + x, colored_pixel)
            } else {
                old(self).pixels()
            }),
    {
        if let Ok(idx) = self.pixel_to_index(x, y) {
            self.pixel_buffer[idx] = colored_pixel;
        }
    }

    /// Writes a pixel and its depth if the depth is less than the one that
    /// the place holds: of two surfaces on one ray the nearer is seen, and of
    /// two at one distance the one that was written first. Does nothing if
    /// the canvas has no such place.
    pub fn set_pixel_toi(&mut self, x: usize, y: usize, colored_pixel: ColoredPixel, toi: Scalar)
        requires
            old(self).wf(),
        ensures
            final(self).wf(),
            final(self).resembles(*old(self)),
            (final(self).pixels(), final(self).depths()) == (if old(self).holds(x as int, y as int) {
                depth_test(
                    old(self).pixels(),
                    old(self).depths(),
                    y * old(self).spec_width() + x,
                    colored_pixel,
                    toi,
                )
            } else {
                (old(self).pixels(), old(self).depths())
            }),
    {
        if let Ok(idx) = self.pixel_to_index(x, y) {
            if toi.lt(self.toi_buffer[idx]) {
                self.pixel_buffer[idx] = colored_pixel;
                self.toi_buffer[idx] = toi;
            }
        }
    }

    /// Writes a depth, whatever the place holds. Does nothing if the canvas
    /// has no such place.
    pub fn set_toi(&mut self, x: usize, y: usize, toi: Scalar)
        requires
            old(self).wf(),
        ensures
            final(self).wf(),
            final(self).resembles(*old(self)),
            final(self).pixels() == old(self).pixels(),
            final(self).depths() == (if old(self).holds(x as int, y as int) {
                old(self).depths().update(y * old(self).spec_width() + x, toi)
            } else {
                old(self).depths()
            }),
    {
        if let Ok(idx) = self.pixel_to_index(x, y) {
            self.toi_buffer[idx] = toi;
        }
    }

    /// Chooses the pixel that unreached places show from the next flush on.
    pub fn set_bg_pixel(&mut self, bg_pixel: ColoredPixel)
        requires
            old(self).wf(),
        ensures
            final(self).wf(),
            final(self).background() == bg_pixel,
            final(self).spec_width() == old(self).spec_width(),
            final(self).spec_height() == old(self).spec_height(),
            final(self).spec_rasterizer() == old(self).spec_rasterizer(),
            final(self).frame() == old(self).frame(),
            final(self).pixels() == old(self).pixels(),
            final(self).depths() == old(self).depths(),
    {
        self.bg_pixel = bg_pixel;
    }

    /// Resets every pixel to the background and every depth to infinity.
    pub fn flush_buffers(&mut self)
        requires
            old(self).wf(),
        ensures
            final(self).wf(),
            final(self).resembles(*old(self)),
            final(self).blank(),
    {
        let size: usize = self.pixel_buffer.len();
        let mut i: usize = 0;
        while i < size
            invariant
                0 <= i <= size,
                size == self.width * self.height,
                self.pixel_buffer.len() == size,
                self.toi_buffer.len() == size,
                self.resembles(*old(self)),
                self.wf(),
                forall|k: int| 0 <= k < i ==> self.pixel_buffer@[k] == self.bg_pixel,
                forall|k: int| 0 <= k < i ==> self.toi_buffer@[k] == Scalar::spec_infinity(),
            decreases size - i,
        {
            let bg_pixel = self.bg_pixel;
            self.pixel_buffer[i] = bg_pixel;
            self.toi_buffer[i] = Scalar::infinity();
            i += 1;
        }
        assert(self.pixel_buffer@ =~= Seq::new(
            (self.width * self.height) as nat,
            |k: int| self.bg_pixel,
        ));
        assert(self.toi_buffer@ =~= Seq::new(
            (self.width * self.height) as nat,
            |k: int| Scalar::spec_infinity(),
        ));
    }

    /// Makes the frame anew from the pixels as they are.
    pub fn update_frame(&mut self)
        requires
            old(self).wf(),
        ensures
            final(self).wf(),
            final(self).spec_width() == old(self).spec_width(),
            final(self).spec_height() == old(self).spec_height(),
            final(self).background() == old(self).background(),
            final(self).spec_rasterizer() == old(self).spec_rasterizer(),
            final(self).pixels() == old(self).pixels(),
            final(self).depths() == old(self).depths(),
            final(self).frame() == final(self).fresh_frame(),
    {
        proof {
            lemma_rows_of(self.pixel_buffer@, self.width as int, self.height as int);
            lemma_whole_multiple(self.width as int, self.rasterizer.spec_grid_width() as int);
        }
        let render_width: usize = self.render_width();
        let rows = scanlines_of(&self.pixel_buffer, self.width, self.height);
        let frame_buffer = self.rasterizer.pixels_to_stdout(rows, render_width);
        self.frame_buffer = frame_buffer;
    }

    /// Gives the canvas the size for a frame of `render_width` by
    /// `render_height` characters, and blanks it.
    pub fn resize(&mut self, render_width: usize, render_height: usize)
        requires
            old(self).wf(),
            render_width * old(self).spec_rasterizer().spec_grid_width() <= usize::MAX,
            render_height * old(self).spec_rasterizer().spec_grid_height() <= usize::MAX,
            (render_width * old(self).spec_rasterizer().spec_grid_width()) * (render_height * old(self).spec_rasterizer().spec_grid_height()) <= usize::MAX,
            render_height * (render_width + 1) <= usize::MAX,
        ensures
            final(self).wf(),
            final(self).spec_rasterizer() == old(self).spec_rasterizer(),
            final(self).background() == old(self).background(),
            final(self).spec_width() == render_width * old(self).spec_rasterizer().spec_grid_width(),
            final(self).spec_height() == render_height * old(self).spec_rasterizer().spec_grid_height(),
            final(self).spec_render_width() == render_width,
            final(self).spec_render_height() == render_height,
            final(self).blank(),
            final(self).frame() == final(self).fresh_frame(),
    {
        let grid_width: usize = self.grid_width();
        let grid_height: usize = self.grid_height();
        proof {
            lemma_exact_division(render_width as int, grid_width as int);
            lemma_exact_division(render_height as int, grid_height as int);
            assert(grid_width * render_width == render_width * grid_width) by (nonlinear_arith);
            assert(grid_height * render_height == render_height * grid_height)
                by (nonlinear_arith);
        }
        let width: usize = grid_width * render_width;
        let height: usize = grid_height * render_height;
        let size: usize = width * height;
        let mut pixel_buffer: Vec<ColoredPixel> = Vec::with_capacity(size);
        let mut toi_buffer: Vec<Scalar> = Vec::with_capacity(size);
        let bg_pixel = self.bg_pixel;
        let mut i: usize = 0;
        while i < size
            invariant
                0 <= i <= size,
                pixel_buffer@ == Seq::new(i as nat, |k: int| bg_pixel),
                toi_buffer@ == Seq::new(i as nat, |k: int| Scalar::spec_infinity()),
            decreases size - i,
        {
            pixel_buffer.push(bg_pixel);
            toi_buffer.push(Scalar::infinity());
            i += 1;
        }
        let rows = scanlines_of(&pixel_buffer, width, height);
        proof {
            lemma_rows_of(pixel_buffer@, width as int, height as int);
        }
        let frame_buffer = self.rasterizer.pixels_to_stdout(rows, render_width);
        self.frame_buffer = frame_buffer;
        self.pixel_buffer = pixel_buffer;
        self.toi_buffer = toi_buffer;
        self.width = width;
        self.height = height;
    }
}


/// What a place shows after one more hit: if the hit falls there and is
/// nearer than what the place held, the hit; otherwise what it held.
pub proof fn lemma_settled_step(
    hits: Seq<RayHit>,
    count: int,
    width: int,
    height: int,
    background: ColoredPixel,
    i: int,
    pixel: ColoredPixel,
    depth: Scalar,
)
    requires
        0 <= count < hits.len(),
        settled(hits, count, width, height, background, i, pixel, depth),
    ensures
        falls_on(hits[count], width, height, i) && hits[count].toi.spec_lt(depth) ==> settled(
            hits,
            count + 1,
            width,
            height,
            background,
            i,
            hits[count].pixel,
            hits[count].toi,
        ),
        !(falls_on(hits[count], width, height, i) && hits[count].toi.spec_lt(depth)) ==> settled(
            hits,
            count + 1,
            width,
            height,
            background,
            i,
            pixel,
            depth,
        ),
{
    let hit = hits[count];
    let untouched = pixel == background && depth == Scalar::spec_infinity() && forall|j: int|
        0 <= j < count && falls_on(#[trigger] hits[j], width, height, i) ==> !in_sight(hits[j]);
    if falls_on(hit, width, height, i) && hit.toi.spec_lt(depth) {
        if untouched {
            assert(nearest(hits, count + 1, width, height, i, count));
        } else {
            let k = choose|k: int|
                {
                    &&& #[trigger] nearest(hits, count, width, height, i, k)
                    &&& pixel == hits[k].pixel
                    &&& depth == hits[k].toi
                };
            assert(nearest(hits, count + 1, width, height, i, count));
        }
    } else if falls_on(hit, width, height, i) {
        if untouched {
            assert(!in_sight(hit));
        } else {
            let k = choose|k: int|
                {
                    &&& #[trigger] nearest(hits, count, width, height, i, k)
                    &&& pixel == hits[k].pixel
                    &&& depth == hits[k].toi
                };
            assert(nearest(hits, count + 1, width, height, i, k));
        }
    } else {
        if !untouched {
            let k = choose|k: int|
                {
                    &&& #[trigger] nearest(hits, count, width, height, i, k)
                    &&& pixel == hits[k].pixel
                    &&& depth == hits[k].toi
                };
            assert(nearest(hits, count + 1, width, height, i, k));
        }
    }
}

impl<R: Rasterizer> Canvas<R> {
    /// Draws what the rays of one picture met: blanks the canvas, lets every
    /// hit pass the depth test at its place, and makes the frame anew.
    /// Afterwards each place shows the nearest surface that a ray met there,
    /// whatever the order of the hits, and the background where none was met.
    /// Hits outside the canvas are passed over.
    pub fn draw_scene_to_canvas(&mut self, hits: &Vec<RayHit>)
        requires
            old(self).wf(),
        ensures
            final(self).wf(),
            final(self).spec_width() == old(self).spec_width(),
            final(self).spec_height() == old(self).spec_height(),
            final(self).background() == old(self).background(),
            final(self).spec_rasterizer() == old(self).spec_rasterizer(),
            forall|i: int|
                0 <= i < final(self).pixels().len() ==> settled(
                    hits@,
                    hits@.len() as int,
                    final(self).spec_width(),
                    final(self).spec_height(),
                    final(self).background(),
                    i,
                    #[trigger] final(self).pixels()[i],
                    final(self).depths()[i],
                ),
            hits@.len() == 0 ==> final(self).blank(),
            final(self).frame() == final(self).fresh_frame(),
    {
        self.flush_buffers();
        let mut n: usize = 0;
        while n < hits.len()
            invariant
                0 <= n <= hits.len(),
                self.wf(),
                self.resembles(*old(self)),
                hits@.len() == 0 ==> self.blank(),
                forall|i: int|
                    0 <= i < self.pixels().len() ==> settled(
                        hits@,
                        n as int,
                        self.spec_width(),
                        self.spec_height(),
                        self.background(),
                        i,
                        #[trigger] self.pixels()[i],
                        self.depths()[i],
                    ),
            decreases hits.len() - n,
        {
            let hit: RayHit = hits[n];
            let ghost pixels = self.pixels();
            let ghost depths = self.depths();
            self.set_pixel_toi(hit.x, hit.y, hit.pixel, hit.toi);
            proof {
                assert forall|i: int| 0 <= i < self.pixels().len() implies settled(
                    hits@,
                    n + 1,
                    self.spec_width(),
                    self.spec_height(),
                    self.background(),
                    i,
                    #[trigger] self.pixels()[i],
                    self.depths()[i],
                ) by {
                    lemma_settled_step(
                        hits@,
                        n as int,
                        self.spec_width(),
                        self.spec_height(),
                        self.background(),
                        i,
                        pixels[i],
                        depths[i],
                    );
                }
            }
            n += 1;
        }
        self.update_frame();
    }
}


impl<R: Rasterizer> Canvas<R> {
    /// The pixels as the blocks that become one character each, block row by
    /// block row from the bottom one up, each block read like text.
    pub fn pixels_as_grid_chunks(&self) -> (chunks: Vec<Vec<ColoredPixel>>)
        requires
            self.wf(),
        ensures
            chunks@.len() == self.spec_render_height() * self.spec_render_width(),
            forall|i: int|
                0 <= i < chunks@.len() ==> (#[trigger] chunks@[i])@ == crate::rasterizer::blocks(
                    rows_of(self.pixels(), self.spec_width(), self.spec_height()),
                    self.spec_render_width(),
                    self.spec_rasterizer().spec_grid_width() as int,
                    self.spec_rasterizer().spec_grid_height() as int,
                )[i],
    {
        proof {
            lemma_rows_of(self.pixel_buffer@, self.width as int, self.height as int);
            lemma_whole_multiple(self.width as int, self.rasterizer.spec_grid_width() as int);
        }
        let render_width: usize = self.render_width();
        let grid_width: usize = self.grid_width();
        let grid_height: usize = self.grid_height();
        let rows = scanlines_of(&self.pixel_buffer, self.width, self.height);
        crate::rasterizer::grid_chunks(&rows, render_width, grid_width, grid_height)
    }
}

/// A frame holds one cell for each character and one more at the end of
/// each row.
pub proof fn lemma_frame_length<R: Rasterizer>(canvas: Canvas<R>)
    requires
        canvas.wf(),
    ensures
        canvas.fresh_frame().len() == canvas.spec_render_width() * canvas.spec_render_height()
            + canvas.spec_render_height(),
        canvas.spec_render_width() * canvas.spec_rasterizer().spec_grid_width()
            == canvas.spec_width(),
        canvas.spec_render_height() * canvas.spec_rasterizer().spec_grid_height()
            == canvas.spec_height(),
{
    let gw = canvas.spec_rasterizer().spec_grid_width() as int;
    let gh = canvas.spec_rasterizer().spec_grid_height() as int;
    lemma_whole_multiple(canvas.spec_width(), gw);
    lemma_whole_multiple(canvas.spec_height(), gh);
    let rw = canvas.spec_render_width();
    let rh = canvas.spec_render_height();
    assert(rh * (rw + 1) == rw * rh + rh) by (nonlinear_arith);
    assert(rh * (rw + 1) >= 0) by (nonlinear_arith)
        requires
            rh >= 0,
            rw >= 0,
    ;
    let rows = rows_of(canvas.pixels(), canvas.spec_width(), canvas.spec_height());
    assert(rows.len() == canvas.spec_height());
    let rasterizer = canvas.spec_rasterizer();
    assert(canvas.fresh_frame() == crate::rasterizer::stack_rows(
        crate::rasterizer::block_chars(
            rows,
            rw,
            gw,
            gh,
            |cells: Seq<ColoredPixel>| rasterizer.block_char(cells),
        ),
        rw,
        rh,
    ));
}

/// Of two surfaces that a ray meets at one place, the nearer is seen, in
/// whichever order they are written: both orders leave the same buffers, and
/// if the nearer surface is nearer than what the place held, the place shows
/// it.
pub proof fn lemma_nearer_write_wins(
    pixels: Seq<ColoredPixel>,
    depths: Seq<Scalar>,
    i: int,
    near: ColoredPixel,
    near_toi: Scalar,
    far: ColoredPixel,
    far_toi: Scalar,
)
    requires
        pixels.len() == depths.len(),
        0 <= i < depths.len(),
        near_toi.spec_lt(far_toi),
    ensures
        ({
            let near_first = depth_test(pixels, depths, i, near, near_toi);
            let far_first = depth_test(pixels, depths, i, far, far_toi);
            let one = depth_test(near_first.0, near_first.1, i, far, far_toi);
            let other = depth_test(far_first.0, far_first.1, i, near, near_toi);
            &&& one == other
            &&& near_toi.spec_lt(depths[i]) ==> one.0[i] == near && one.1[i] == near_toi
            &&& !near_toi.spec_lt(depths[i]) ==> one == (pixels, depths)
        }),
{
    let near_first = depth_test(pixels, depths, i, near, near_toi);
    let far_first = depth_test(pixels, depths, i, far, far_toi);
    let one = depth_test(near_first.0, near_first.1, i, far, far_toi);
    let other = depth_test(far_first.0, far_first.1, i, near, near_toi);
    assert(one.0 =~= other.0);
    assert(one.1 =~= other.1);
}

/// Of two surfaces at one distance, the one that is written first is seen.
pub proof fn lemma_first_write_stays(
    pixels: Seq<ColoredPixel>,
    depths: Seq<Scalar>,
    i: int,
    first: ColoredPixel,
    second: ColoredPixel,
    toi: Scalar,
)
    requires
        pixels.len() == depths.len(),
        0 <= i < depths.len(),
        toi.spec_lt(depths[i]),
    ensures
        ({
            let once = depth_test(pixels, depths, i, first, toi);
            let twice = depth_test(once.0, once.1, i, second, toi);
            twice == once && twice.0[i] == first
        }),
{
}

/// Where no ray met anything, every place shows the background.
pub proof fn lemma_empty_scene_is_blank(
    width: int,
    height: int,
    background: ColoredPixel,
    i: int,
    pixel: ColoredPixel,
    depth: Scalar,
)
    requires
        settled(Seq::<RayHit>::empty(), 0, width, height, background, i, pixel, depth),
    ensures
        pixel == background,
        depth == Scalar::spec_infinity(),
{
}

/// The depth that a place shows does not depend on the order of the hits: if
/// it shows hit `k` of `hits` and hit `m` of the same hits in another order,
/// the two hits lie at one distance.
pub proof fn lemma_nearest_is_order_free(
    hits: Seq<RayHit>,
    other: Seq<RayHit>,
    width: int,
    height: int,
    i: int,
    k: int,
    m: int,
)
    requires
        nearest(hits, hits.len() as int, width, height, i, k),
        nearest(other, other.len() as int, width, height, i, m),
        forall|j: int| 0 <= j < hits.len() ==> other.contains(#[trigger] hits[j]),
        forall|j: int| 0 <= j < other.len() ==> hits.contains(#[trigger] other[j]),
    ensures
        hits[k].toi.key() == other[m].toi.key(),
{
    assert(other.contains(hits[k]));
    let a = choose|a: int| 0 <= a < other.len() && other[a] == hits[k];
    assert(falls_on(other[a], width, height, i));
    assert(hits.contains(other[m]));
    let b = choose|b: int| 0 <= b < hits.len() && hits[b] == other[m];
    assert(falls_on(hits[b], width, height, i));
}


/// How many characters a row of the frame of a canvas holds unless another
/// size is asked for.
pub const SCREEN_PIXELS_X: usize = 320;

/// How many rows the frame of a canvas holds unless another size is asked
/// for.
pub const SCREEN_PIXELS_Y: usize = 180;

impl Default for Canvas<BasicAsciiRasterizer> {
    /// A blank canvas of 320 by 180 characters, one for each pixel.
    fn default() -> (canvas: Canvas<BasicAsciiRasterizer>)
        ensures
            canvas.wf(),
            canvas.spec_width() == SCREEN_PIXELS_X,
            canvas.spec_height() == SCREEN_PIXELS_Y,
            canvas.background() == default_background(),
            canvas.blank(),
            canvas.frame() == canvas.fresh_frame(),
    {
        let rasterizer = BasicAsciiRasterizer::default();
        Canvas::new(SCREEN_PIXELS_X, SCREEN_PIXELS_Y, rasterizer)
    }
}

} // verus!
