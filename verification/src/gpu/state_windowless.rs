//! Sizes for rendering without a window: the grid of pixels for each
//! character, and the padding of the buffers that are read back.
use crate::rasterizer::{Color, ColoredChar};
use vstd::prelude::*;

verus! {

/// Whether `n` is a power of two: it is positive and shares no bit with its
/// predecessor.
pub open spec fn is_power_of_two(n: u32) -> bool {
    n > 0 && n & ((n - 1) as u32) == 0
}

/// The powers of two that a `u32` holds are 1, 2, 4 and so on up to 2^31.
pub proof fn lemma_powers_of_two(n: u32)
    by (bit_vector)
    ensures
        (n > 0 && n & ((n - 1) as u32) == 0) <==> (n == 0x1 || n == 0x2 || n == 0x4 || n == 0x8 || n == 0x10
            || n == 0x20 || n == 0x40 || n == 0x80 || n == 0x100 || n == 0x200 || n == 0x400 || n
            == 0x800 || n == 0x1000 || n == 0x2000 || n == 0x4000 || n == 0x8000 || n == 0x1_0000
            || n == 0x2_0000 || n == 0x4_0000 || n == 0x8_0000 || n == 0x10_0000 || n == 0x20_0000
            || n == 0x40_0000 || n == 0x80_0000 || n == 0x100_0000 || n == 0x200_0000 || n
            == 0x400_0000 || n == 0x800_0000 || n == 0x1000_0000 || n == 0x2000_0000 || n
            == 0x4000_0000 || n == 0x8000_0000),
{
}

/// How many pixels across and down make one character. The shader asks for
/// powers of two, and characters are twice as high as wide; the grid of one
/// pixel is valid too.
#[derive(Debug, Clone, Copy, PartialEq, Eq, Structural)]
pub struct ValidGridSize {
    width: u32,
    height: u32,
}

impl ValidGridSize {
    /// Whether a grid of `width` by `height` is valid.
    pub open spec fn valid(width: u32, height: u32) -> bool {
        ||| is_power_of_two(width) && is_power_of_two(height) && height == 2 * width
        ||| height == 1 && width == 1
    }

    /// The width of the grid.
    pub closed spec fn spec_width(self) -> u32 {
        self.width
    }

    /// The height of the grid.
    pub closed spec fn spec_height(self) -> u32 {
        self.height
    }

    /// The grid of `width` by `height` if that is valid, and the grid of one
    /// pixel otherwise.
    pub fn new(width: u32, height: u32) -> (grid: ValidGridSize)
        ensures
            ValidGridSize::valid(grid.spec_width(), grid.spec_height()),
            ValidGridSize::valid(width, height) ==> grid.spec_width() == width
                && grid.spec_height() == height,
            !ValidGridSize::valid(width, height) ==> grid.spec_width() == 1 && grid.spec_height()
                == 1,
    {
        let width_pow_2: bool = width > 0 && (width & (width - 1)) == 0;
        let height_pow_2: bool = height > 0 && (height & (height - 1)) == 0;
        let doubled: bool = width <= u32::MAX / 2 && height == 2 * width;
        if (width_pow_2 && height_pow_2 && doubled) || (height == 1 && width == 1) {
            ValidGridSize { width, height }
        } else {
            ValidGridSize { width: 1, height: 1 }
        }
    }

    /// The width of the grid.
    pub fn width(&self) -> (width: u32)
        ensures
            width == self.spec_width(),
    {
        self.width
    }

    /// The height of the grid.
    pub fn height(&self) -> (height: u32)
        ensures
            height == self.spec_height(),
    {
        self.height
    }
}

/// The least multiple of 256 that is not less than `bytes`.
pub fn pad_bytes_to_256(bytes: u32) -> (padded: u32)
    requires
        bytes <= 0xffff_ff00,
    ensures
        padded % 256 == 0,
        bytes <= padded < bytes + 256,
{
    let sum: u32 = bytes + 255;
    assert((sum & !255u32) % 256 == 0 && (sum & !255u32) <= sum && sum - (sum & !255u32) < 256)
        by (bit_vector);
    sum & !255
}

/// The least multiple of 64 that is not less than `width`. A row of pixels
/// of four bytes each then fills a multiple of 256 bytes.
pub fn pad_width_to_64(width: u32) -> (padded: u32)
    requires
        width <= 0xffff_ffc0,
    ensures
        padded % 64 == 0,
        width <= padded < width + 64,
{
    let sum: u32 = width + 63;
    assert((sum & !63u32) % 64 == 0 && (sum & !63u32) <= sum && sum - (sum & !63u32) < 64)
        by (bit_vector);
    sum & !63
}


impl ValidGridSize {
    /// How many pixels across and down are drawn for a frame of
    /// `output_width` by `output_height` characters.
    pub fn render_size(&self, output_width: u32, output_height: u32) -> (size: (u32, u32))
        requires
            output_width * self.spec_width() <= u32::MAX,
            output_height * self.spec_height() <= u32::MAX,
        ensures
            size.0 == output_width * self.spec_width(),
            size.1 == output_height * self.spec_height(),
    {
        (output_width * self.width, output_height * self.height)
    }
}

/// How many bytes a row of `width` pixels fills in a buffer that is read
/// back: four for each pixel of the padded row.
pub open spec fn row_stride(width: u32) -> int {
    4 * ((width + 63) / 64 * 64)
}

/// Takes the padding off the rows of an image that was read back: of every
/// row of the buffer, the bytes of the first `width` pixels are kept.
pub fn unpad_rows(image: &[u8], width: u32) -> (pixels: Vec<u8>)
    requires
        1 <= width <= 0x3fff_ffc0,
        image@.len() % (row_stride(width) as nat) == 0,
    ensures
        pixels@.len() == (image@.len() / (row_stride(width) as nat)) * (4 * width),
        forall|row: int, k: int|
            0 <= row < image@.len() / (row_stride(width) as nat) && 0 <= k < 4 * width
                ==> #[trigger] pixels@[kept_place(row, k, width)] == image@[row * row_stride(width)
                + k],
{
    let padded: u32 = pad_width_to_64(width);
    assert(padded == (width + 63) / 64 * 64);
    let stride: usize = 4 * (padded as usize);
    let kept: usize = 4 * (width as usize);
    let total: usize = image.len();
    let rows: usize = total / stride;
    proof {
        vstd::arithmetic::div_mod::lemma_fundamental_div_mod(total as int, stride as int);
        assert(stride * rows == rows * stride) by (nonlinear_arith);
    }
    let mut pixels: Vec<u8> = Vec::new();
    let mut row: usize = 0;
    while row < rows
        invariant
            stride == row_stride(width),
            kept == 4 * width,
            kept <= stride,
            total == image@.len(),
            rows * stride == total,
            0 <= row <= rows,
            pixels@.len() == row * kept,
            forall|r: int, k: int|
                0 <= r < row && 0 <= k < kept ==> #[trigger] pixels@[kept_place(r, k, width)]
                    == image@[r * stride + k],
        decreases rows - row,
    {
        assert((row + 1) * stride <= rows * stride) by (nonlinear_arith)
            requires
                row + 1 <= rows,
                0 <= stride,
        ;
        assert((row + 1) * stride == row * stride + stride) by (nonlinear_arith);
        assert(0 <= row * stride) by (nonlinear_arith)
            requires
                0 <= row,
                0 <= stride,
        ;
        let start: usize = row * stride;
        let ghost before = pixels@;
        let mut k: usize = 0;
        while k < kept
            invariant
                kept == 4 * width,
                kept <= stride,
                start == row * stride,
                start + stride <= image@.len(),
                total == image@.len(),
                0 <= k <= kept,
                pixels@.len() == row * kept + k,
                before.len() == row * kept,
                forall|i: int| 0 <= i < before.len() ==> pixels@[i] == before[i],
                forall|j: int|
                    0 <= j < k ==> #[trigger] pixels@[kept_place(row as int, j, width)]
                        == image@[start + j],
            decreases kept - k,
        {
            pixels.push(image[start + k]);
            k += 1;
        }
        proof {
            assert forall|r: int, j: int| 0 <= r < row + 1 && 0 <= j < kept implies #[trigger] pixels@[kept_place(
                r,
                j,
                width,
            )] == image@[r * stride + j] by {
                if r < row {
                    assert((r + 1) * kept <= row * kept) by (nonlinear_arith)
                        requires
                            r + 1 <= row,
                            0 <= kept,
                    ;
                    assert((r + 1) * kept == r * kept + kept) by (nonlinear_arith);
                    assert(0 <= r * kept) by (nonlinear_arith)
                        requires
                            0 <= r,
                            0 <= kept,
                    ;
                    assert(before[kept_place(r, j, width)] == image@[r * stride + j]);
                }
            }
            assert((row + 1) * kept == row * kept + kept) by (nonlinear_arith);
        }
        row += 1;
    }
    pixels
}

/// Where the bytes that are kept hold byte `k` of row `row`.
pub open spec fn kept_place(row: int, k: int, width: u32) -> int {
    row * (4 * width) + k
}

/// The characters that a shader has written into the last of the four bytes
/// of each pixel.
pub fn alpha_chars(image: &[u8]) -> (chars: Vec<ColoredChar>)
    requires
        image@.len() % 4 == 0,
    ensures
        chars@.len() == image@.len() / 4,
        forall|i: int|
            0 <= i < chars@.len() ==> #[trigger] chars@[i] == (ColoredChar {
                symbol: image@[4 * i + 3] as char,
                color: Color::Red,
            }),
{
    let total: usize = image.len();
    let count: usize = total / 4;
    let mut chars: Vec<ColoredChar> = Vec::with_capacity(count);
    let mut i: usize = 0;
    while i < count
        invariant
            total == image@.len(),
            total % 4 == 0,
            count == total / 4,
            0 <= i <= count,
            chars@.len() == i,
            forall|k: int|
                0 <= k < i ==> #[trigger] chars@[k] == (ColoredChar {
                    symbol: image@[4 * k + 3] as char,
                    color: Color::Red,
                }),
        decreases count - i,
    {
        chars.push(ColoredChar::from(image[4 * i + 3]));
        i += 1;
    }
    chars
}

} // verus!
