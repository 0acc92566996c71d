//! The rasterizer that picks each character by how well its glyph matches a
//! block of pixels.
use crate::ascii::glyph_render::{AsciiMatrices, GlyphOutline, NUM_ASCII_MATRICES};
use crate::rasterizer::{Color, ColoredChar, ColoredPixel};
use crate::scalar::Scalar;
use vstd::prelude::*;

verus! {

/// How many of the first `count` pixels have the colour `color`.
pub open spec fn occurrences(chunk: Seq<ColoredPixel>, color: Color, count: int) -> int
    decreases count,
{
    if count <= 0 {
        0
    } else {
        occurrences(chunk, color, count - 1) + if chunk[count - 1].color == color {
            1int
        } else {
            0int
        }
    }
}

/// How many pixels of the block have the colour of pixel `k`.
pub open spec fn frequency(chunk: Seq<ColoredPixel>, k: int) -> int {
    occurrences(chunk, chunk[k].color, chunk.len() as int)
}

/// Whether, of the first `count` pixels, number `k` is the first whose colour
/// is the most frequent of the block.
pub open spec fn is_mode(chunk: Seq<ColoredPixel>, count: int, k: int) -> bool {
    &&& 0 <= k < count
    &&& forall|j: int| 0 <= j < count ==> #[trigger] frequency(chunk, j) <= frequency(chunk, k)
    &&& forall|j: int| 0 <= j < k ==> #[trigger] frequency(chunk, j) < frequency(chunk, k)
}

/// The number of the first pixel whose colour is the most frequent.
pub open spec fn mode_index(chunk: Seq<ColoredPixel>) -> int {
    choose|k: int| is_mode(chunk, chunk.len() as int, k)
}

/// The most frequent colour of the block; of several, the one that occurs
/// first.
pub open spec fn mode_color(chunk: Seq<ColoredPixel>) -> Color {
    chunk[mode_index(chunk)].color
}

/// Only one pixel is the first of the most frequent colour.
pub proof fn lemma_mode_unique(chunk: Seq<ColoredPixel>, count: int, a: int, b: int)
    requires
        is_mode(chunk, count, a),
        is_mode(chunk, count, b),
    ensures
        a == b,
{
    if a < b {
        assert(frequency(chunk, a) < frequency(chunk, b));
    }
    if b < a {
        assert(frequency(chunk, b) < frequency(chunk, a));
    }
}

/// The character for a block, given how well each glyph matches it: the
/// best match in the block's most frequent colour.
pub open spec fn spec_chunk_to_symbol(chunk: Seq<ColoredPixel>, scores: Seq<Scalar>) -> ColoredChar {
    ColoredChar {
        symbol: crate::ascii::glyph_render::spec_symbol_at(
            crate::ascii::glyph_render::best_index(scores),
        ),
        color: mode_color(chunk),
    }
}

/// Counts the pixels of one colour.
fn count_color(chunk: &[ColoredPixel], color: Color) -> (count: usize)
    ensures
        count == occurrences(chunk@, color, chunk@.len() as int),
{
    let mut count: usize = 0;
    let mut i: usize = 0;
    while i < chunk.len()
        invariant
            0 <= i <= chunk@.len(),
            count <= i,
            count == occurrences(chunk@, color, i as int),
        decreases chunk@.len() - i,
    {
        if chunk[i].color == color {
            count += 1;
        }
        i += 1;
    }
    count
}

/// Picks, for every block of pixels, the printable ASCII character whose
/// glyph looks most like the block. The blocks have the size of the glyphs.
#[derive(Debug)]
pub struct FancyAsciiRasterizer {
    ascii_matrices: AsciiMatrices,
}

impl FancyAsciiRasterizer {
    /// The glyphs that blocks are held against.
    pub closed spec fn matrices(self) -> AsciiMatrices {
        self.ascii_matrices
    }

    /// What holds of every such rasterizer: its glyphs are well formed and
    /// not empty.
    pub open spec fn wf(self) -> bool {
        &&& self.matrices().wf()
        &&& self.matrices().spec_width() >= 1
        &&& self.matrices().spec_height() >= 1
    }

    /// How many pixels across make one character.
    pub open spec fn spec_grid_width(self) -> int {
        self.matrices().spec_width()
    }

    /// How many pixels down make one character.
    pub open spec fn spec_grid_height(self) -> int {
        self.matrices().spec_height()
    }

    /// The rasterizer for blocks of `grid_width` by `grid_height` pixels,
    /// with the glyphs made of the outlines that the font has at a size of
    /// `grid_height` pixels.
    pub fn new(outlines: Vec<Option<GlyphOutline>>, grid_width: usize, grid_height: usize) -> (rasterizer:
        FancyAsciiRasterizer)
        requires
            outlines@.len() == NUM_ASCII_MATRICES,
            grid_width >= 1,
            grid_height >= 1,
            grid_width * grid_height <= usize::MAX,
        ensures
            rasterizer.wf(),
            rasterizer.spec_grid_width() == grid_width,
            rasterizer.spec_grid_height() == grid_height,
            rasterizer.matrices().outlines() == outlines@,
            rasterizer.matrices().centred(),
    {
        let ascii_matrices = AsciiMatrices::new(outlines, grid_width, grid_height);
        FancyAsciiRasterizer { ascii_matrices }
    }

    /// The glyphs that blocks are held against.
    pub fn ascii_matrices(&self) -> (matrices: &AsciiMatrices)
        ensures
            *matrices == self.matrices(),
    {
        &self.ascii_matrices
    }

    /// The most frequent colour of the block; of several, the one that occurs
    /// first in the block.
    pub fn mean_chunk_color(&self, chunk: &[ColoredPixel]) -> (color: Color)
        requires
            chunk@.len() > 0,
        ensures
            is_mode(chunk@, chunk@.len() as int, mode_index(chunk@)),
            color == mode_color(chunk@),
    {
        let mut best: usize = 0;
        let mut best_count: usize = count_color(chunk, chunk[0].color);
        let mut i: usize = 1;
        while i < chunk.len()
            invariant
                1 <= i <= chunk@.len(),
                0 <= best < i,
                best_count == frequency(chunk@, best as int),
                is_mode(chunk@, i as int, best as int),
            decreases chunk@.len() - i,
        {
            let count: usize = count_color(chunk, chunk[i].color);
            if count > best_count {
                best = i;
                best_count = count;
            }
            i += 1;
        }
        proof {
            lemma_mode_unique(chunk@, chunk@.len() as int, best as int, mode_index(chunk@));
        }
        chunk[best].color
    }

    /// The character for a block, given how well each glyph matches it
    /// (`scores[i]` for the character with the code `0x20 + i`).
    pub fn chunk_to_symbol(&self, chunk: &[ColoredPixel], scores: &[Scalar]) -> (cell: ColoredChar)
        requires
            self.wf(),
            chunk@.len() > 0,
            scores@.len() == NUM_ASCII_MATRICES,
        ensures
            cell == spec_chunk_to_symbol(chunk@, scores@),
    {
        let color = self.mean_chunk_color(chunk);
        let symbol = self.ascii_matrices.pick_best_symbol(scores);
        ColoredChar { symbol, color }
    }

    /// How many pixels down make one character.
    pub fn grid_height(&self) -> (h: usize)
        ensures
            h == self.spec_grid_height(),
    {
        self.ascii_matrices.height()
    }

    /// How many pixels across make one character.
    pub fn grid_width(&self) -> (w: usize)
        ensures
            w == self.spec_grid_width(),
    {
        self.ascii_matrices.width()
    }
}


/// The characters of all blocks of `rows`, block row by block row from the
/// bottom one up, where `scores[i]` says how well each glyph matches block
/// `i`.
pub open spec fn matched_symbols(
    rows: Seq<Seq<ColoredPixel>>,
    scores: Seq<Seq<Scalar>>,
    output_width: int,
    grid_width: int,
    grid_height: int,
) -> Seq<ColoredChar> {
    Seq::new(
        ((rows.len() as int / grid_height) * output_width) as nat,
        |i: int|
            spec_chunk_to_symbol(
                crate::rasterizer::block(
                    rows,
                    i % output_width,
                    i / output_width,
                    grid_width,
                    grid_height,
                ),
                scores[i],
            ),
    )
}

/// The scores of every block, as a rasterizer takes them.
pub open spec fn score_table(scores: Seq<Vec<Scalar>>) -> Seq<Seq<Scalar>> {
    Seq::new(scores.len(), |i: int| scores[i]@)
}

impl FancyAsciiRasterizer {
    /// The frame for the scanlines `rows` and the scores of their blocks.
    pub open spec fn frame(
        self,
        rows: Seq<Seq<ColoredPixel>>,
        scores: Seq<Seq<Scalar>>,
        output_width: int,
    ) -> Seq<ColoredChar> {
        crate::rasterizer::stack_rows(
            matched_symbols(
                rows,
                scores,
                output_width,
                self.spec_grid_width(),
                self.spec_grid_height(),
            ),
            output_width,
            rows.len() as int / self.spec_grid_height(),
        )
    }

    /// Turns scanlines, given from the bottom one up, into the frame that a
    /// terminal shows: the rows of characters from the top one down, each
    /// ended by a newline cell. Block `i`, counted row by row from the bottom
    /// left, becomes the character whose glyph has the best of `scores[i]`.
    pub fn pixels_to_stdout(
        &self,
        pixels: Vec<&[ColoredPixel]>,
        scores: &Vec<Vec<Scalar>>,
        output_width: usize,
    ) -> (out: Vec<ColoredChar>)
        requires
            self.wf(),
            crate::rasterizer::grid_shaped(
                crate::rasterizer::scanlines(pixels@),
                output_width as int,
                self.spec_grid_width(),
                self.spec_grid_height(),
            ),
            (pixels@.len() as int / self.spec_grid_height()) * (output_width + 1) <= usize::MAX,
            scores@.len() == (pixels@.len() as int / self.spec_grid_height()) * output_width,
            forall|i: int| 0 <= i < scores@.len() ==> (#[trigger] scores@[i])@.len() == NUM_ASCII_MATRICES,
        ensures
            out@ == self.frame(
                crate::rasterizer::scanlines(pixels@),
                score_table(scores@),
                output_width as int,
            ),
    {
        let grid_width: usize = self.grid_width();
        let grid_height: usize = self.grid_height();
        let height: usize = pixels.len() / grid_height;
        let ghost rows = crate::rasterizer::scanlines(pixels@);
        let ghost table = score_table(scores@);
        let ghost symbols = matched_symbols(
            rows,
            table,
            output_width as int,
            grid_width as int,
            grid_height as int,
        );
        let ghost frame = self.frame(rows, table, output_width as int);
        proof {
            vstd::arithmetic::div_mod::lemma_fundamental_div_mod(
                pixels@.len() as int,
                grid_height as int,
            );
            assert(grid_height * height == height * grid_height) by (nonlinear_arith);
        }
        let mut out: Vec<ColoredChar> = Vec::new();
        let mut row: usize = 0;
        let score_count: usize = scores.len();
        while row < height
            invariant
                self.wf(),
                score_count == scores@.len(),
                grid_width == self.spec_grid_width(),
                grid_height == self.spec_grid_height(),
                rows == crate::rasterizer::scanlines(pixels@),
                table == score_table(scores@),
                symbols == matched_symbols(
                    rows,
                    table,
                    output_width as int,
                    grid_width as int,
                    grid_height as int,
                ),
                symbols.len() == height * output_width,
                frame == crate::rasterizer::stack_rows(symbols, output_width as int, height as int),
                crate::rasterizer::grid_shaped(
                    rows,
                    output_width as int,
                    grid_width as int,
                    grid_height as int,
                ),
                height * grid_height == pixels@.len(),
                height * (output_width + 1) <= usize::MAX,
                scores@.len() == height * output_width,
                forall|i: int|
                    0 <= i < scores@.len() ==> (#[trigger] scores@[i])@.len() == NUM_ASCII_MATRICES,
                0 <= row <= height,
                out@ == frame.subrange(0, row * (output_width + 1)),
            decreases height - row,
        {
            let block_row: usize = height - 1 - row;
            let mut column: usize = 0;
            proof {
                crate::rasterizer::lemma_stack_rows_index(
                    symbols,
                    output_width as int,
                    height as int,
                    row as int,
                    0,
                );
            }
            while column < output_width
                invariant
                    self.wf(),
                    score_count == scores@.len(),
                    grid_width == self.spec_grid_width(),
                    grid_height == self.spec_grid_height(),
                    rows == crate::rasterizer::scanlines(pixels@),
                    table == score_table(scores@),
                    symbols == matched_symbols(
                        rows,
                        table,
                        output_width as int,
                        grid_width as int,
                        grid_height as int,
                    ),
                    symbols.len() == height * output_width,
                    frame == crate::rasterizer::stack_rows(
                        symbols,
                        output_width as int,
                        height as int,
                    ),
                    crate::rasterizer::grid_shaped(
                        rows,
                        output_width as int,
                        grid_width as int,
                        grid_height as int,
                    ),
                    height * grid_height == pixels@.len(),
                    height * (output_width + 1) <= usize::MAX,
                    scores@.len() == height * output_width,
                    forall|i: int|
                        0 <= i < scores@.len() ==> (#[trigger] scores@[i])@.len()
                            == NUM_ASCII_MATRICES,
                    0 <= row < height,
                    block_row == height - 1 - row,
                    0 <= column <= output_width,
                    out@ == frame.subrange(0, row * (output_width + 1) + column),
                decreases output_width - column,
            {
                proof {
                    crate::rasterizer::lemma_stack_rows_index(
                        symbols,
                        output_width as int,
                        height as int,
                        row as int,
                        column as int,
                    );
                    crate::rasterizer::lemma_cell_index(
                        output_width as int,
                        height as int,
                        column as int,
                        block_row as int,
                    );
                    assert((block_row + 1) * grid_height <= height * grid_height)
                        by (nonlinear_arith)
                        requires
                            block_row + 1 <= height,
                            0 <= grid_height,
                    ;
                    assert(grid_width * grid_height >= 1) by (nonlinear_arith)
                        requires
                            grid_width >= 1,
                            grid_height >= 1,
                    ;
                    assert(0 <= block_row * output_width) by (nonlinear_arith)
                        requires
                            0 <= block_row,
                            0 <= output_width,
                    ;
                }
                let i: usize = block_row * output_width + column;
                let chunk = crate::rasterizer::block_of(
                    &pixels,
                    column,
                    block_row,
                    output_width,
                    grid_width,
                    grid_height,
                );
                assert(table[i as int] == scores@[i as int]@);
                let cell = self.chunk_to_symbol(chunk.as_slice(), scores[i].as_slice());
                assert(cell == symbols[i as int]);
                out.push(cell);
                column += 1;
            }
            proof {
                crate::rasterizer::lemma_stack_rows_index(
                    symbols,
                    output_width as int,
                    height as int,
                    row as int,
                    output_width as int,
                );
            }
            out.push(ColoredChar::newline());
            row += 1;
            assert(row * (output_width + 1) == (row - 1) * (output_width + 1) + output_width + 1)
                by (nonlinear_arith);
        }
        assert(out@ == frame);
        out
    }
}

} // verus!
