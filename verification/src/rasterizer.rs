//! Pixels, characters and the interface of the rasterizers that turn one into
//! the other.
use crate::scalar::Scalar;
use vstd::prelude::*;

verus! {

/// A terminal colour: the sixteen named ones, the terminal's own default
/// (`Reset`), a 24-bit colour, or an entry of the 256-colour table.
#[derive(Clone, Copy, Debug, PartialEq, Eq, Hash, Structural)]
pub enum Color {
    Reset,
    Black,
    Red,
    Green,
    Yellow,
    Blue,
    Magenta,
    Cyan,
    Gray,
    DarkGray,
    LightRed,
    LightGreen,
    LightYellow,
    LightBlue,
    LightMagenta,
    LightCyan,
    White,
    Rgb(u8, u8, u8),
    Indexed(u8),
}

impl Default for Color {
    fn default() -> (color: Color)
        ensures
            color == Color::Reset,
    {
        Color::Reset
    }
}

/// One pixel of the rendered image. Intensities lie nominally between zero
/// and one; a larger intensity marks the background.
#[derive(Clone, Copy, Debug, PartialEq, Eq, Structural)]
pub struct ColoredPixel {
    pub intensity: Scalar,
    pub color: Color,
}

impl Default for ColoredPixel {
    fn default() -> (pixel: ColoredPixel)
        ensures
            pixel.intensity.bits == 0,
            pixel.color == Color::Reset,
    {
        ColoredPixel { intensity: Scalar::zero(), color: Color::Reset }
    }
}

/// One cell of the terminal: a character and its colour.
#[derive(Clone, Copy, Debug, PartialEq, Eq, Structural)]
pub struct ColoredChar {
    pub symbol: char,
    pub color: Color,
}

impl Default for ColoredChar {
    fn default() -> (cell: ColoredChar)
        ensures
            cell.symbol == '\0',
            cell.color == Color::Reset,
    {
        ColoredChar { symbol: '\0', color: Color::Reset }
    }
}

impl ColoredChar {
    /// The cell that ends every row of a frame.
    pub open spec fn spec_newline() -> ColoredChar {
        ColoredChar { symbol: '\n', color: Color::Reset }
    }

    #[verifier::when_used_as_spec(spec_newline)]
    pub fn newline() -> (cell: ColoredChar)
        ensures
            cell == ColoredChar::spec_newline(),
    {
        ColoredChar { symbol: '\n', color: Color::Reset }
    }
}

/// Why a threshold rasterizer could not be built.
#[derive(Debug, PartialEq, Eq, Structural)]
pub enum RasterizerError {
    /// There is not exactly one threshold more than there are characters.
    GradientNotMatchingThresholds,
    /// Some threshold is not below its successor.
    ThresholdsNotIncreasing,
}

/// The pixels of every scanline, bottom scanline first.
pub open spec fn scanlines(pixels: Seq<&[ColoredPixel]>) -> Seq<Seq<ColoredPixel>> {
    Seq::new(pixels.len(), |y: int| pixels[y]@)
}

/// Whether `rows` is a grid of `output_width` by `rows.len() / grid_height`
/// blocks, each `grid_width` pixels wide and `grid_height` pixels high.
pub open spec fn grid_shaped(
    rows: Seq<Seq<ColoredPixel>>,
    output_width: int,
    grid_width: int,
    grid_height: int,
) -> bool {
    &&& grid_width >= 1
    &&& grid_height >= 1
    &&& output_width >= 0
    &&& rows.len() as int % grid_height == 0
    &&& forall|y: int| 0 <= y < rows.len() ==> (#[trigger] rows[y]).len() == output_width * grid_width
}

/// The block of pixels behind the character in column `column` of the block
/// row `block_row` (counted from the bottom, as the scanlines are). The
/// block is read like text: its top scanline first, each from left to right.
pub open spec fn block(
    rows: Seq<Seq<ColoredPixel>>,
    column: int,
    block_row: int,
    grid_width: int,
    grid_height: int,
) -> Seq<ColoredPixel> {
    Seq::new(
        (grid_width * grid_height) as nat,
        |k: int| rows[block_row * grid_height + (grid_height - 1 - k / grid_width)][column * grid_width + k % grid_width],
    )
}

/// The frame that shows `height` rows of `output_width` characters. The
/// characters come row by row from the bottom row up, as the scanlines do; the
/// frame holds the rows from the top row down, each followed by a newline
/// cell.
pub open spec fn stack_rows(symbols: Seq<ColoredChar>, output_width: int, height: int) -> Seq<
    ColoredChar,
> {
    Seq::new(
        (height * (output_width + 1)) as nat,
        |p: int|
            {
                let row = p / (output_width + 1);
                let column = p % (output_width + 1);
                if column == output_width {
                    ColoredChar::spec_newline()
                } else {
                    symbols[(height - 1 - row) * output_width + column]
                }
            },
    )
}

/// The characters of all blocks of `rows`, block row by block row from the
/// bottom one up, where `symbol` gives the character of a block.
pub open spec fn block_chars(
    rows: Seq<Seq<ColoredPixel>>,
    output_width: int,
    grid_width: int,
    grid_height: int,
    symbol: spec_fn(Seq<ColoredPixel>) -> ColoredChar,
) -> Seq<ColoredChar> {
    Seq::new(
        ((rows.len() as int / grid_height) * output_width) as nat,
        |i: int| symbol(block(rows, i % output_width, i / output_width, grid_width, grid_height)),
    )
}

/// The frame for the scanlines `rows`, where `symbol` gives the character
/// of a block.
pub open spec fn framed(
    rows: Seq<Seq<ColoredPixel>>,
    output_width: int,
    grid_width: int,
    grid_height: int,
    symbol: spec_fn(Seq<ColoredPixel>) -> ColoredChar,
) -> Seq<ColoredChar> {
    stack_rows(
        block_chars(rows, output_width, grid_width, grid_height, symbol),
        output_width,
        rows.len() as int / grid_height,
    )
}

/// A way of turning a grid of pixels into a grid of characters, one
/// character for each block of `grid_width` by `grid_height` pixels.
pub trait Rasterizer {
    /// How many pixels across make one character.
    spec fn spec_grid_width(&self) -> nat;

    /// How many pixels down make one character.
    spec fn spec_grid_height(&self) -> nat;

    /// The character that stands for one block of pixels.
    spec fn block_char(&self, block: Seq<ColoredPixel>) -> ColoredChar;

    /// Turns scanlines, given from the bottom one up, into the frame that a
    /// terminal shows: the rows of characters from the top one down, each
    /// ended by a newline cell.
    fn pixels_to_stdout(&self, pixels: Vec<&[ColoredPixel]>, output_width: usize) -> (out: Vec<
        ColoredChar,
    >)
        requires
            grid_shaped(
                scanlines(pixels@),
                output_width as int,
                self.spec_grid_width() as int,
                self.spec_grid_height() as int,
            ),
            (pixels.len() as int / self.spec_grid_height() as int) * (output_width + 1) <= usize::MAX,
        ensures
            out@ == framed(
                scanlines(pixels@),
                output_width as int,
                self.spec_grid_width() as int,
                self.spec_grid_height() as int,
                |cells: Seq<ColoredPixel>| self.block_char(cells),
            ),
    ;

    /// How many pixels down make one character.
    fn grid_height(&self) -> (h: usize)
        ensures
            h == self.spec_grid_height(),
            h >= 1,
    ;

    /// How many pixels across make one character.
    fn grid_width(&self) -> (w: usize)
        ensures
            w == self.spec_grid_width(),
            w >= 1,
    ;
}

/// The frame that a rasterizer makes of the scanlines `rows`.
pub open spec fn frame_of<R: Rasterizer>(
    rasterizer: &R,
    rows: Seq<Seq<ColoredPixel>>,
    output_width: int,
) -> Seq<ColoredChar> {
    framed(
        rows,
        output_width,
        rasterizer.spec_grid_width() as int,
        rasterizer.spec_grid_height() as int,
        |cells: Seq<ColoredPixel>| rasterizer.block_char(cells),
    )
}

} // verus!

verus! {

/// Where the frame holds the cell in row `row` (from the top) and column
/// `column`; the column `output_width` is the row's newline cell.
pub proof fn lemma_stack_rows_index(
    symbols: Seq<ColoredChar>,
    output_width: int,
    height: int,
    row: int,
    column: int,
)
    requires
        0 <= row < height,
        0 <= column <= output_width,
    ensures
        0 <= row * (output_width + 1) + column < stack_rows(symbols, output_width, height).len(),
        stack_rows(symbols, output_width, height).len() == height * (output_width + 1),
        stack_rows(symbols, output_width, height)[row * (output_width + 1) + column] == (if column
            == output_width {
            ColoredChar::spec_newline()
        } else {
            symbols[(height - 1 - row) * output_width + column]
        }),
{
    let line = output_width + 1;
    let p = row * line + column;
    assert(row * line + line <= height * line) by (nonlinear_arith)
        requires
            row + 1 <= height,
            line >= 0,
    ;
    assert(0 <= row * line) by (nonlinear_arith)
        requires
            row >= 0,
            line >= 0,
    ;
    assert(height * line >= 0) by (nonlinear_arith)
        requires
            height >= 0,
            line >= 0,
    ;
    vstd::arithmetic::div_mod::lemma_fundamental_div_mod_converse(p, line, row, column);
}

/// Where `block_chars` holds the character of a block.
pub proof fn lemma_cell_index(output_width: int, height: int, column: int, block_row: int)
    requires
        0 <= block_row < height,
        0 <= column < output_width,
    ensures
        0 <= block_row * output_width + column < height * output_width,
        (block_row * output_width + column) / output_width == block_row,
        (block_row * output_width + column) % output_width == column,
{
    assert(block_row * output_width + output_width <= height * output_width) by (nonlinear_arith)
        requires
            block_row + 1 <= height,
            output_width >= 0,
    ;
    assert(0 <= block_row * output_width) by (nonlinear_arith)
        requires
            block_row >= 0,
            output_width >= 0,
    ;
    vstd::arithmetic::div_mod::lemma_fundamental_div_mod_converse(
        block_row * output_width + column,
        output_width,
        block_row,
        column,
    );
}

} // verus!

verus! {

/// Where a block holds the pixel in its row `j` (from the block's top) and
/// column `i`.
pub proof fn lemma_block_index(
    rows: Seq<Seq<ColoredPixel>>,
    column: int,
    block_row: int,
    grid_width: int,
    grid_height: int,
    j: int,
    i: int,
)
    requires
        0 <= j < grid_height,
        0 <= i < grid_width,
    ensures
        0 <= j * grid_width + i < grid_width * grid_height,
        block(rows, column, block_row, grid_width, grid_height)[j * grid_width + i]
            == rows[block_row * grid_height + (grid_height - 1 - j)][column * grid_width + i],
{
    lemma_cell_index(grid_width, grid_height, i, j);
    assert(grid_height * grid_width == grid_width * grid_height) by (nonlinear_arith);
}

/// The pixels of one block, read like text: the block's top scanline first.
pub fn block_of(
    pixels: &Vec<&[ColoredPixel]>,
    column: usize,
    block_row: usize,
    output_width: usize,
    grid_width: usize,
    grid_height: usize,
) -> (cells: Vec<ColoredPixel>)
    requires
        grid_shaped(scanlines(pixels@), output_width as int, grid_width as int, grid_height as int),
        column < output_width,
        (block_row + 1) * grid_height <= pixels@.len(),
    ensures
        cells@ == block(
            scanlines(pixels@),
            column as int,
            block_row as int,
            grid_width as int,
            grid_height as int,
        ),
{
    let ghost rows = scanlines(pixels@);
    let ghost whole = block(rows, column as int, block_row as int, grid_width as int, grid_height as int);
    let mut cells: Vec<ColoredPixel> = Vec::new();
    proof {
        assert((block_row + 1) * grid_height == block_row * grid_height + grid_height)
            by (nonlinear_arith);
        assert(0 <= block_row * grid_height) by (nonlinear_arith)
            requires
                0 <= block_row,
                0 <= grid_height,
        ;
        assert((column + 1) * grid_width <= output_width * grid_width) by (nonlinear_arith)
            requires
                column + 1 <= output_width,
                0 <= grid_width,
        ;
        assert((column + 1) * grid_width == column * grid_width + grid_width) by (nonlinear_arith);
        assert(0 <= column * grid_width) by (nonlinear_arith)
            requires
                0 <= column,
                0 <= grid_width,
        ;
    }
    let scanline_count: usize = pixels.len();
    assert(grid_height >= 1);
    assert(scanline_count >= 1) by (nonlinear_arith)
        requires
            (block_row + 1) * grid_height <= scanline_count,
            grid_height >= 1,
            block_row >= 0,
    ;
    let scanline_length: usize = pixels[0].len();
    assert(pixels@[0]@ == rows[0]);
    assert(scanline_length == output_width * grid_width);
    let first_row: usize = block_row * grid_height;
    let mut j: usize = 0;
    while j < grid_height
        invariant
            rows == scanlines(pixels@),
            whole == block(
                rows,
                column as int,
                block_row as int,
                grid_width as int,
                grid_height as int,
            ),
            grid_shaped(rows, output_width as int, grid_width as int, grid_height as int),
            first_row == block_row * grid_height,
            first_row + grid_height <= pixels@.len(),
            scanline_count == pixels@.len(),
            rows.len() == pixels@.len(),
            0 <= column * grid_width,
            column * grid_width + grid_width <= output_width * grid_width,
            output_width * grid_width <= usize::MAX,
            0 <= j <= grid_height,
            cells@.len() == j * grid_width,
            grid_width * grid_height == whole.len(),
            forall|k: int| 0 <= k < cells@.len() ==> #[trigger] cells@[k] == whole[k],
        decreases grid_height - j,
    {
        let scanline: &[ColoredPixel] = pixels[first_row + (grid_height - 1 - j)];
        assert(scanline@ == rows[first_row + (grid_height - 1 - j)]);
        let first_column: usize = column * grid_width;
        let mut i: usize = 0;
        while i < grid_width
            invariant
                whole == block(
                    rows,
                    column as int,
                    block_row as int,
                    grid_width as int,
                    grid_height as int,
                ),
                first_row == block_row * grid_height,
                first_column == column * grid_width,
                scanline@ == rows[first_row + (grid_height - 1 - j)],
                0 <= first_row + (grid_height - 1 - j) < rows.len(),
                scanline@.len() == output_width * grid_width,
                first_column + grid_width <= output_width * grid_width,
                output_width * grid_width <= usize::MAX,
                grid_width * grid_height == whole.len(),
                0 <= j < grid_height,
                0 <= i <= grid_width,
                cells@.len() == j * grid_width + i,
                forall|k: int| 0 <= k < cells@.len() ==> #[trigger] cells@[k] == whole[k],
            decreases grid_width - i,
        {
            proof {
                lemma_block_index(
                    rows,
                    column as int,
                    block_row as int,
                    grid_width as int,
                    grid_height as int,
                    j as int,
                    i as int,
                );
            }
            cells.push(scanline[first_column + i]);
            i += 1;
        }
        j += 1;
        assert(j * grid_width == (j - 1) * grid_width + grid_width) by (nonlinear_arith);
    }
    assert(grid_height * grid_width == grid_width * grid_height) by (nonlinear_arith);
    assert(cells@ =~= whole);
    cells
}

/// The blocks of the grid, block row by block row from the bottom one up,
/// each read like text.
pub open spec fn blocks(
    rows: Seq<Seq<ColoredPixel>>,
    output_width: int,
    grid_width: int,
    grid_height: int,
) -> Seq<Seq<ColoredPixel>> {
    Seq::new(
        ((rows.len() as int / grid_height) * output_width) as nat,
        |i: int| block(rows, i % output_width, i / output_width, grid_width, grid_height),
    )
}

/// Cuts the grid into its blocks of `grid_width` by `grid_height` pixels.
pub fn grid_chunks(
    pixels: &Vec<&[ColoredPixel]>,
    output_width: usize,
    grid_width: usize,
    grid_height: usize,
) -> (chunks: Vec<Vec<ColoredPixel>>)
    requires
        grid_shaped(scanlines(pixels@), output_width as int, grid_width as int, grid_height as int),
    ensures
        chunks@.len() == (pixels@.len() as int / grid_height as int) * output_width,
        forall|i: int|
            0 <= i < chunks@.len() ==> (#[trigger] chunks@[i])@ == blocks(
                scanlines(pixels@),
                output_width as int,
                grid_width as int,
                grid_height as int,
            )[i],
{
    let ghost rows = scanlines(pixels@);
    let height: usize = pixels.len() / grid_height;
    proof {
        vstd::arithmetic::div_mod::lemma_fundamental_div_mod(
            pixels@.len() as int,
            grid_height as int,
        );
        assert(grid_height * height == height * grid_height) by (nonlinear_arith);
    }
    let mut chunks: Vec<Vec<ColoredPixel>> = Vec::new();
    let mut block_row: usize = 0;
    while block_row < height
        invariant
            rows == scanlines(pixels@),
            grid_shaped(rows, output_width as int, grid_width as int, grid_height as int),
            height == pixels@.len() as int / grid_height as int,
            height * grid_height == pixels@.len(),
            0 <= block_row <= height,
            chunks@.len() == block_row * output_width,
            forall|i: int|
                0 <= i < chunks@.len() ==> (#[trigger] chunks@[i])@ == block(
                    rows,
                    i % output_width as int,
                    i / output_width as int,
                    grid_width as int,
                    grid_height as int,
                ),
        decreases height - block_row,
    {
        let mut column: usize = 0;
        while column < output_width
            invariant
                rows == scanlines(pixels@),
                grid_shaped(rows, output_width as int, grid_width as int, grid_height as int),
                height * grid_height == pixels@.len(),
                0 <= block_row < height,
                0 <= column <= output_width,
                chunks@.len() == block_row * output_width + column,
                forall|i: int|
                    0 <= i < chunks@.len() ==> (#[trigger] chunks@[i])@ == block(
                        rows,
                        i % output_width as int,
                        i / output_width as int,
                        grid_width as int,
                        grid_height as int,
                    ),
            decreases output_width - column,
        {
            proof {
                lemma_cell_index(
                    output_width as int,
                    height as int,
                    column as int,
                    block_row as int,
                );
                assert((block_row + 1) * grid_height <= height * grid_height) by (nonlinear_arith)
                    requires
                        block_row + 1 <= height,
                        0 <= grid_height,
                ;
            }
            let cells = block_of(pixels, column, block_row, output_width, grid_width, grid_height);
            chunks.push(cells);
            column += 1;
        }
        block_row += 1;
        assert(block_row * output_width == (block_row - 1) * output_width + output_width)
            by (nonlinear_arith);
    }
    chunks
}

} // verus!

verus! {

impl From<ColoredPixel> for Scalar {
    fn from(canvas_pixel: ColoredPixel) -> (intensity: Scalar) {
        canvas_pixel.intensity
    }
}

impl vstd::std_specs::convert::FromSpecImpl<ColoredPixel> for Scalar {
    open spec fn obeys_from_spec() -> bool {
        true
    }

    open spec fn from_spec(canvas_pixel: ColoredPixel) -> Scalar {
        canvas_pixel.intensity
    }
}

impl From<ColoredPixel> for Color {
    fn from(canvas_pixel: ColoredPixel) -> (color: Color) {
        canvas_pixel.color
    }
}

impl vstd::std_specs::convert::FromSpecImpl<ColoredPixel> for Color {
    open spec fn obeys_from_spec() -> bool {
        true
    }

    open spec fn from_spec(canvas_pixel: ColoredPixel) -> Color {
        canvas_pixel.color
    }
}

impl From<Scalar> for ColoredPixel {
    /// A black pixel of the given intensity.
    fn from(intensity: Scalar) -> (pixel: ColoredPixel) {
        ColoredPixel { intensity, color: Color::Black }
    }
}

impl vstd::std_specs::convert::FromSpecImpl<Scalar> for ColoredPixel {
    open spec fn obeys_from_spec() -> bool {
        true
    }

    open spec fn from_spec(intensity: Scalar) -> ColoredPixel {
        ColoredPixel { intensity, color: Color::Black }
    }
}

impl From<ColoredChar> for char {
    fn from(colored_char: ColoredChar) -> (symbol: char) {
        colored_char.symbol
    }
}

impl vstd::std_specs::convert::FromSpecImpl<ColoredChar> for char {
    open spec fn obeys_from_spec() -> bool {
        true
    }

    open spec fn from_spec(colored_char: ColoredChar) -> char {
        colored_char.symbol
    }
}

impl From<u8> for ColoredChar {
    /// The character with the given code, in red: what a shader writes as a
    /// byte.
    fn from(value: u8) -> (cell: ColoredChar) {
        ColoredChar { symbol: value as char, color: Color::Red }
    }
}

impl vstd::std_specs::convert::FromSpecImpl<u8> for ColoredChar {
    open spec fn obeys_from_spec() -> bool {
        true
    }

    open spec fn from_spec(value: u8) -> ColoredChar {
        ColoredChar { symbol: value as char, color: Color::Red }
    }
}

/// How many lines `count` characters fill, `output_width` to a line, the last
/// line perhaps not to its end.
pub open spec fn line_count(count: int, output_width: int) -> int {
    (count + output_width - 1) / output_width
}

/// Line number `line` from the top, of characters that are given line after
/// line from the bottom one up.
pub open spec fn line_from_top(chars: Seq<ColoredChar>, output_width: int, line: int) -> Seq<
    ColoredChar,
> {
    let from_bottom = line_count(chars.len() as int, output_width) - 1 - line;
    chars.subrange(
        from_bottom * output_width,
        if (from_bottom + 1) * output_width <= chars.len() {
            (from_bottom + 1) * output_width
        } else {
            chars.len() as int
        },
    )
}

/// Cuts characters into lines of `output_width` and puts the lines in the
/// order in which a terminal shows them: the last line first.
pub fn chars_to_lines(chars: &[ColoredChar], output_width: usize) -> (lines: Vec<Vec<ColoredChar>>)
    requires
        output_width > 0,
    ensures
        lines@.len() == line_count(chars@.len() as int, output_width as int),
        forall|line: int|
            0 <= line < lines@.len() ==> (#[trigger] lines@[line])@ == line_from_top(
                chars@,
                output_width as int,
                line,
            ),
{
    let total: usize = chars.len();
    let full: usize = total / output_width;
    proof {
        vstd::arithmetic::div_mod::lemma_fundamental_div_mod(total as int, output_width as int);
        vstd::arithmetic::div_mod::lemma_mod_bound(total as int, output_width as int);
        assert(output_width * full == full * output_width) by (nonlinear_arith);
        assert((full + 1) * output_width == full * output_width + output_width)
            by (nonlinear_arith);
        assert(full <= full * output_width) by (nonlinear_arith)
            requires
                0 <= full,
                1 <= output_width,
        ;
    }
    let count: usize = if total % output_width == 0 {
        full
    } else {
        full + 1
    };
    proof {
        if total % output_width == 0 {
            vstd::arithmetic::div_mod::lemma_fundamental_div_mod_converse(
                total + output_width - 1,
                output_width as int,
                full as int,
                output_width - 1,
            );
        } else {
            vstd::arithmetic::div_mod::lemma_fundamental_div_mod_converse(
                total + output_width - 1,
                output_width as int,
                full + 1,
                (total % output_width) - 1,
            );
        }
    }
    let mut lines: Vec<Vec<ColoredChar>> = Vec::with_capacity(count);
    let mut line: usize = 0;
    while line < count
        invariant
            output_width > 0,
            total == chars@.len(),
            count == line_count(total as int, output_width as int),
            full == total / output_width,
            full * output_width + total % output_width == total,
            count == (if total % output_width == 0 {
                full as int
            } else {
                full + 1
            }),
            0 <= line <= count,
            lines@.len() == line,
            forall|k: int|
                0 <= k < line ==> (#[trigger] lines@[k])@ == line_from_top(
                    chars@,
                    output_width as int,
                    k,
                ),
        decreases count - line,
    {
        let from_bottom: usize = count - 1 - line;
        assert(from_bottom * output_width <= full * output_width) by (nonlinear_arith)
            requires
                from_bottom <= full,
                0 <= output_width,
        ;
        assert(from_bottom < full ==> (from_bottom + 1) * output_width <= full * output_width)
            by (nonlinear_arith)
            requires
                0 <= output_width,
        ;
        assert(from_bottom >= full ==> (from_bottom + 1) * output_width >= full * output_width
            + output_width) by (nonlinear_arith)
            requires
                0 <= output_width,
        ;
        assert((from_bottom + 1) * output_width == from_bottom * output_width + output_width)
            by (nonlinear_arith);
        let start: usize = from_bottom * output_width;
        let end: usize = if total - start >= output_width {
            start + output_width
        } else {
            total
        };
        let mut cells: Vec<ColoredChar> = Vec::with_capacity(end - start);
        let mut i: usize = start;
        while i < end
            invariant
                start <= i <= end <= chars@.len(),
                cells@ == chars@.subrange(start as int, i as int),
            decreases end - i,
        {
            cells.push(chars[i]);
            i += 1;
        }
        lines.push(cells);
        line += 1;
    }
    lines
}

} // verus!
