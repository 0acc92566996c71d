//! The rasterizer that picks each character by the intensity of one pixel.
use crate::rasterizer::{ColoredChar, ColoredPixel, Rasterizer, RasterizerError};
use crate::scalar::Scalar;
use vstd::prelude::*;

verus! {

/// Maps every pixel to one character, chosen by the interval of intensities
/// that holds the pixel's intensity. The intervals lie between successive
/// thresholds, open below and closed above.
#[derive(Debug)]
pub struct BasicAsciiRasterizer {
    gradient: Vec<char>,
    ranges: Vec<(Scalar, Scalar)>,
    background: char,
}

/// Whether every threshold is below its successor.
pub open spec fn increasing(thresholds: Seq<Scalar>) -> bool {
    forall|i: int| 0 <= i < thresholds.len() - 1 ==> (#[trigger] thresholds[i]).spec_lt(thresholds[i + 1])
}

/// The intervals between successive thresholds.
pub open spec fn intervals(thresholds: Seq<Scalar>) -> Seq<(Scalar, Scalar)> {
    Seq::new(
        if thresholds.len() == 0 {
            0nat
        } else {
            (thresholds.len() - 1) as nat
        },
        |i: int| (thresholds[i], thresholds[i + 1]),
    )
}

/// Whether `intensity` lies above the interval's lower end and not above its
/// upper end.
pub open spec fn holds(interval: (Scalar, Scalar), intensity: Scalar) -> bool {
    interval.0.spec_lt(intensity) && intensity.spec_le(interval.1)
}

/// The index of the first interval from `from` on that holds `intensity`, or
/// the number of intervals if there is none.
pub open spec fn first_holding(ranges: Seq<(Scalar, Scalar)>, intensity: Scalar, from: int) -> int
    decreases ranges.len() - from,
{
    if from < 0 || from >= ranges.len() {
        ranges.len() as int
    } else if holds(ranges[from], intensity) {
        from
    } else {
        first_holding(ranges, intensity, from + 1)
    }
}

/// `first_holding` names the least index at or after `from` whose interval
/// holds the intensity.
pub proof fn lemma_first_holding(ranges: Seq<(Scalar, Scalar)>, intensity: Scalar, from: int)
    requires
        0 <= from <= ranges.len(),
    ensures
        from <= first_holding(ranges, intensity, from) <= ranges.len(),
        first_holding(ranges, intensity, from) < ranges.len() ==> holds(
            ranges[first_holding(ranges, intensity, from)],
            intensity,
        ),
        forall|j: int|
            from <= j < first_holding(ranges, intensity, from) ==> !holds(
                #[trigger] ranges[j],
                intensity,
            ),
    decreases ranges.len() - from,
{
    if from < ranges.len() && !holds(ranges[from], intensity) {
        lemma_first_holding(ranges, intensity, from + 1);
    }
}

impl BasicAsciiRasterizer {
    #[verifier::type_invariant]
    spec fn well_formed(self) -> bool {
        self.gradient.len() == self.ranges.len()
    }

    /// The characters, one for each interval.
    pub closed spec fn gradient(self) -> Seq<char> {
        self.gradient@
    }

    /// The intervals of intensity, in the order in which they are tried.
    pub closed spec fn ranges(self) -> Seq<(Scalar, Scalar)> {
        self.ranges@
    }

    /// The character of a pixel whose intensity no interval holds.
    pub closed spec fn background(self) -> char {
        self.background
    }

    /// The character for a pixel: that of the first interval that holds the
    /// pixel's intensity, or the background character. The colour is the
    /// pixel's.
    pub open spec fn spec_pixel_to_char(self, pixel: ColoredPixel) -> ColoredChar {
        let i = first_holding(self.ranges(), pixel.intensity, 0);
        ColoredChar {
            symbol: if i < self.gradient().len() {
                self.gradient()[i]
            } else {
                self.background()
            },
            color: pixel.color,
        }
    }

    /// Checks that there is one threshold more than there are characters and
    /// that the thresholds increase, and returns the intervals between them.
    fn validate_parameters(gradient: &[char], thresholds: &[Scalar]) -> (res: Result<
        Vec<(Scalar, Scalar)>,
        RasterizerError,
    >)
        ensures
            match res {
                Ok(ranges) => {
                    &&& gradient@.len() + 1 == thresholds@.len()
                    &&& increasing(thresholds@)
                    &&& ranges@ == intervals(thresholds@)
                },
                Err(RasterizerError::GradientNotMatchingThresholds) => gradient@.len() + 1
                    != thresholds@.len(),
                Err(RasterizerError::ThresholdsNotIncreasing) => {
                    &&& gradient@.len() + 1 == thresholds@.len()
                    &&& !increasing(thresholds@)
                },
            },
    {
        if thresholds.len() == 0 || thresholds.len() - 1 != gradient.len() {
            return Err(RasterizerError::GradientNotMatchingThresholds);
        }
        let count: usize = gradient.len();
        let mut ranges: Vec<(Scalar, Scalar)> = Vec::with_capacity(count);
        let mut i: usize = 0;
        while i < count
            invariant
                count + 1 == thresholds@.len(),
                count == gradient@.len(),
                0 <= i <= count,
                ranges@ == intervals(thresholds@).subrange(0, i as int),
                forall|j: int| 0 <= j < i ==> (#[trigger] thresholds@[j]).spec_lt(thresholds@[j + 1]),
            decreases count - i,
        {
            let low = thresholds[i];
            let high = thresholds[i + 1];
            if !low.lt(high) {
                assert(!(thresholds@[i as int]).spec_lt(thresholds@[i + 1]));
                assert(!increasing(thresholds@));
                assert(gradient@.len() + 1 == thresholds@.len());
                return Err(RasterizerError::ThresholdsNotIncreasing);
            }
            ranges.push((low, high));
            i += 1;
        }
        assert(ranges@ == intervals(thresholds@));
        Ok(ranges)
    }

    /// Builds the rasterizer for `gradient`, whose characters stand for the
    /// intervals between the successive `thresholds`, and for the character
    /// of every intensity outside all of them.
    pub fn new(gradient: Vec<char>, thresholds: Vec<Scalar>, background: char) -> (res: Result<
        BasicAsciiRasterizer,
        RasterizerError,
    >)
        ensures
            match res {
                Ok(rasterizer) => {
                    &&& gradient@.len() + 1 == thresholds@.len()
                    &&& increasing(thresholds@)
                    &&& rasterizer.gradient() == gradient@
                    &&& rasterizer.ranges() == intervals(thresholds@)
                    &&& rasterizer.background() == background
                },
                Err(RasterizerError::GradientNotMatchingThresholds) => gradient@.len() + 1
                    != thresholds@.len(),
                Err(RasterizerError::ThresholdsNotIncreasing) => {
                    &&& gradient@.len() + 1 == thresholds@.len()
                    &&& !increasing(thresholds@)
                },
            },
    {
        match BasicAsciiRasterizer::validate_parameters(gradient.as_slice(), thresholds.as_slice()) {
            Ok(ranges) => Ok(BasicAsciiRasterizer { gradient, ranges, background }),
            Err(e) => Err(e),
        }
    }

    /// The character for one pixel.
    pub fn pixel_to_char(&self, pixel: ColoredPixel) -> (cell: ColoredChar)
        ensures
            cell == self.spec_pixel_to_char(pixel),
    {
        proof {
            use_type_invariant(self);
        }
        let mut i: usize = 0;
        while i < self.ranges.len()
            invariant
                0 <= i <= self.ranges.len(),
                self.gradient.len() == self.ranges.len(),
                first_holding(self.ranges@, pixel.intensity, 0) == first_holding(
                    self.ranges@,
                    pixel.intensity,
                    i as int,
                ),
            decreases self.ranges.len() - i,
        {
            let (low, high) = self.ranges[i];
            if pixel.intensity.gt(low) && pixel.intensity.le(high) {
                return ColoredChar { symbol: self.gradient[i], color: pixel.color };
            }
            i += 1;
        }
        ColoredChar { symbol: self.background, color: pixel.color }
    }

    /// The character of a pixel whose intensity no interval holds.
    pub fn background_char(&self) -> (symbol: char)
        ensures
            symbol == self.background(),
    {
        self.background
    }
}

impl Clone for BasicAsciiRasterizer {
    fn clone(&self) -> (copy: BasicAsciiRasterizer)
        ensures
            copy.gradient() == self.gradient(),
            copy.ranges() == self.ranges(),
            copy.background() == self.background(),
    {
        proof {
            use_type_invariant(self);
        }
        let mut gradient: Vec<char> = Vec::with_capacity(self.gradient.len());
        let mut ranges: Vec<(Scalar, Scalar)> = Vec::with_capacity(self.ranges.len());
        let mut i: usize = 0;
        while i < self.ranges.len()
            invariant
                self.gradient.len() == self.ranges.len(),
                0 <= i <= self.ranges.len(),
                gradient@ == self.gradient@.subrange(0, i as int),
                ranges@ == self.ranges@.subrange(0, i as int),
            decreases self.ranges.len() - i,
        {
            gradient.push(self.gradient[i]);
            ranges.push(self.ranges[i]);
            i += 1;
        }
        assert(gradient@ == self.gradient@);
        assert(ranges@ == self.ranges@);
        BasicAsciiRasterizer { gradient, ranges, background: self.background }
    }
}

impl Default for BasicAsciiRasterizer {
    /// Nine characters from dense to sparse for the intensities from just
    /// below zero to just below one, and a blank for everything else.
    fn default() -> (rasterizer: BasicAsciiRasterizer)
        ensures
            rasterizer.gradient() == seq!['@', '%', '#', '*', '+', '=', '-', ':', '.'],
            rasterizer.ranges() == intervals(
                seq![
                    Scalar { bits: 0xbdcc_cccd },
                    Scalar { bits: 0x3e4c_cccd },
                    Scalar { bits: 0x3e99_999a },
                    Scalar { bits: 0x3ecc_cccd },
                    Scalar { bits: 0x3f00_0000 },
                    Scalar { bits: 0x3f19_999a },
                    Scalar { bits: 0x3f33_3333 },
                    Scalar { bits: 0x3f4c_cccd },
                    Scalar { bits: 0x3f66_6666 },
                    Scalar { bits: 0x3f7f_be77 },
                ],
            ),
            rasterizer.background() == ' ',
    {
        let gradient = vec!['@', '%', '#', '*', '+', '=', '-', ':', '.'];
        // -0.1, 0.2, 0.3, 0.4, 0.5, 0.6, 0.7, 0.8, 0.9 and 0.999
        let thresholds = vec![
            Scalar::from_bits(0xbdcc_cccd),
            Scalar::from_bits(0x3e4c_cccd),
            Scalar::from_bits(0x3e99_999a),
            Scalar::from_bits(0x3ecc_cccd),
            Scalar::from_bits(0x3f00_0000),
            Scalar::from_bits(0x3f19_999a),
            Scalar::from_bits(0x3f33_3333),
            Scalar::from_bits(0x3f4c_cccd),
            Scalar::from_bits(0x3f66_6666),
            Scalar::from_bits(0x3f7f_be77),
        ];
        assert(increasing(thresholds@));
        match BasicAsciiRasterizer::new(gradient, thresholds, ' ') {
            Ok(rasterizer) => rasterizer,
            Err(_) => {
                assert(false);
                BasicAsciiRasterizer { gradient: Vec::new(), ranges: Vec::new(), background: ' ' }
            },
        }
    }
}

impl Rasterizer for BasicAsciiRasterizer {
    open spec fn spec_grid_width(&self) -> nat {
        1
    }

    open spec fn spec_grid_height(&self) -> nat {
        1
    }

    open spec fn block_char(&self, block: Seq<ColoredPixel>) -> ColoredChar {
        self.spec_pixel_to_char(block[0])
    }

    fn pixels_to_stdout(&self, pixels: Vec<&[ColoredPixel]>, output_width: usize) -> (out: Vec<
        ColoredChar,
    >) {
        let height: usize = pixels.len();
        let ghost rows = crate::rasterizer::scanlines(pixels@);
        let ghost symbol = |cells: Seq<ColoredPixel>| self.block_char(cells);
        let ghost symbols = crate::rasterizer::block_chars(rows, output_width as int, 1, 1, symbol);
        let ghost frame = crate::rasterizer::framed(rows, output_width as int, 1, 1, symbol);
        let mut out: Vec<ColoredChar> = Vec::new();
        let mut row: usize = 0;
        assert(rows.len() as int / 1 == height);
        while row < height
            invariant
                height == pixels.len(),
                rows == crate::rasterizer::scanlines(pixels@),
                symbol == (|cells: Seq<ColoredPixel>| self.block_char(cells)),
                symbols == crate::rasterizer::block_chars(rows, output_width as int, 1, 1, symbol),
                frame == crate::rasterizer::stack_rows(symbols, output_width as int, height as int),
                crate::rasterizer::grid_shaped(rows, output_width as int, 1, 1),
                height * (output_width + 1) <= usize::MAX,
                0 <= row <= height,
                out@ == frame.subrange(0, row * (output_width + 1)),
            decreases height - row,
        {
            let block_row: usize = height - 1 - row;
            let scanline: &[ColoredPixel] = pixels[block_row];
            assert(scanline@ == rows[block_row as int]);
            let mut column: usize = 0;
            proof {
                crate::rasterizer::lemma_stack_rows_index(
                    symbols,
                    output_width as int,
                    height as int,
                    row as int,
                    0,
                );
            }
            while column < output_width
                invariant
                    height == pixels.len(),
                    rows == crate::rasterizer::scanlines(pixels@),
                    symbol == (|cells: Seq<ColoredPixel>| self.block_char(cells)),
                    symbols == crate::rasterizer::block_chars(rows, output_width as int, 1, 1, symbol),
                    frame == crate::rasterizer::stack_rows(
                        symbols,
                        output_width as int,
                        height as int,
                    ),
                    height * (output_width + 1) <= usize::MAX,
                    rows.len() == height,
                    0 <= row < height,
                    block_row == height - 1 - row,
                    scanline@ == rows[block_row as int],
                    scanline@.len() == output_width,
                    0 <= column <= output_width,
                    out@ == frame.subrange(0, row * (output_width + 1) + column),
                decreases output_width - column,
            {
                proof {
                    crate::rasterizer::lemma_stack_rows_index(
                        symbols,
                        output_width as int,
                        height as int,
                        row as int,
                        column as int,
                    );
                    crate::rasterizer::lemma_cell_index(
                        output_width as int,
                        height as int,
                        column as int,
                        block_row as int,
                    );
                    let i = block_row * output_width + column;
                    let b = crate::rasterizer::block(rows, column as int, block_row as int, 1, 1);
                    assert(rows.len() as int / 1 == height);
                    assert(symbols.len() == height * output_width);
                    assert(b[0] == rows[block_row as int][column as int]);
                    assert(symbols[i] == self.block_char(b));
                    assert(frame[row * (output_width + 1) + column] == self.spec_pixel_to_char(
                        scanline@[column as int],
                    ));
                }
                let cell = self.pixel_to_char(scanline[column]);
                out.push(cell);
                column += 1;
            }
            proof {
                crate::rasterizer::lemma_stack_rows_index(
                    symbols,
                    output_width as int,
                    height as int,
                    row as int,
                    output_width as int,
                );
            }
            out.push(ColoredChar::newline());
            row += 1;
            assert(row * (output_width + 1) == (row - 1) * (output_width + 1) + output_width + 1)
                by (nonlinear_arith);
        }
        assert(out@ == frame);
        out
    }

    fn grid_height(&self) -> (h: usize) {
        1
    }

    fn grid_width(&self) -> (w: usize) {
        1
    }
}

} // verus!
