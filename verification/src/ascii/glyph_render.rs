//! The characters of a font as grids of coverage, moved so that the whole
//! alphabet sits in the middle of its cell.
use crate::scalar::Scalar;
use vstd::prelude::*;

verus! {

/// How many printable ASCII characters there are: the codes from `0x20` to
/// `0x7e`.
pub const NUM_ASCII_MATRICES: usize = 95;

/// Why a pixel of a glyph could not be addressed.
#[derive(Debug, PartialEq, Eq, Structural)]
pub enum GlyphError {
    /// The glyph's grid has no pixel in column `x` of row `y`.
    PixelOutOfRange { x: usize, y: usize },
}

/// How much of one pixel an outline covers. The pixel is counted from the
/// top left corner of the box around the outline; the coverage lies between
/// zero and one.
#[derive(Clone, Copy, Debug, PartialEq, Eq, Structural)]
pub struct Coverage {
    pub x: u32,
    pub y: u32,
    pub value: Scalar,
}

/// The outline of one character at one size, as a font renders it: the box
/// of whole pixels around it, in the font's coordinates with `y` growing
/// downwards, and the coverage of the pixels in the box.
#[derive(Debug)]
pub struct GlyphOutline {
    pub min_x: i32,
    pub min_y: i32,
    pub max_x: i32,
    pub max_y: i32,
    pub coverage: Vec<Coverage>,
}

/// Whether a pixel of coverage, moved right by `h_offset` and down by
/// `v_offset`, comes to lie on place `i` of a grid of `width` by `height`.
pub open spec fn lands_on(
    sample: Coverage,
    h_offset: int,
    v_offset: int,
    width: int,
    height: int,
    i: int,
) -> bool {
    &&& sample.x + h_offset < width
    &&& sample.y + v_offset < height
    &&& (sample.y + v_offset) * width + (sample.x + h_offset) == i
}

/// What place `i` of the grid holds once the first `count` pixels of
/// coverage are drawn: the value of the last of them that lands there, or
/// zero if none does.
pub open spec fn drawn_at(
    samples: Seq<Coverage>,
    count: int,
    h_offset: int,
    v_offset: int,
    width: int,
    height: int,
    i: int,
) -> Scalar
    decreases count,
{
    if count <= 0 {
        Scalar { bits: 0 }
    } else if lands_on(samples[count - 1], h_offset, v_offset, width, height, i) {
        samples[count - 1].value
    } else {
        drawn_at(samples, count - 1, h_offset, v_offset, width, height, i)
    }
}

/// The grid that shows the coverage at the given offsets.
pub open spec fn drawn(
    samples: Seq<Coverage>,
    h_offset: int,
    v_offset: int,
    width: int,
    height: int,
) -> Seq<Scalar> {
    Seq::new(
        (width * height) as nat,
        |i: int| drawn_at(samples, samples.len() as int, h_offset, v_offset, width, height, i),
    )
}

/// The place of the pixel in column `x` of row `y` in a grid of `width` by
/// `height` that is held row after row.
pub fn pixel_to_index(x: usize, y: usize, width: usize, height: usize) -> (res: Result<
    usize,
    GlyphError,
>)
    requires
        width * height <= usize::MAX,
    ensures
        match res {
            Ok(i) => x < width && y < height && i == y * width + x,
            Err(GlyphError::PixelOutOfRange { x: column, y: row }) => !(x < width && y < height)
                && column == x && row == y,
        },
        res is Ok ==> res->Ok_0 < width * height,
{
    if x < width && y < height {
        assert(y * width + x < width * height) by (nonlinear_arith)
            requires
                x < width,
                y < height,
        ;
        assert(0 <= y * width <= y * width + x) by (nonlinear_arith)
            requires
                0 <= x,
                0 <= y,
                0 <= width,
        ;
        Ok(y * width + x)
    } else {
        Err(GlyphError::PixelOutOfRange { x, y })
    }
}

/// Draws the coverage onto a grid of zeros.
fn draw(samples: &Vec<Coverage>, h_offset: u64, v_offset: u64, width: usize, height: usize) -> (matrix:
    Vec<Scalar>)
    requires
        width * height <= usize::MAX,
    ensures
        matrix@ == drawn(samples@, h_offset as int, v_offset as int, width as int, height as int),
{
    let size: usize = width * height;
    let mut matrix: Vec<Scalar> = Vec::with_capacity(size);
    let mut i: usize = 0;
    while i < size
        invariant
            0 <= i <= size,
            matrix@ == Seq::new(i as nat, |k: int| Scalar { bits: 0 }),
        decreases size - i,
    {
        matrix.push(Scalar::zero());
        i += 1;
    }
    let mut n: usize = 0;
    while n < samples.len()
        invariant
            0 <= n <= samples.len(),
            size == width * height,
            matrix@.len() == size,
            forall|k: int|
                0 <= k < size ==> #[trigger] matrix@[k] == drawn_at(
                    samples@,
                    n as int,
                    h_offset as int,
                    v_offset as int,
                    width as int,
                    height as int,
                    k,
                ),
        decreases samples.len() - n,
    {
        let sample: Coverage = samples[n];
        let x: u64 = sample.x as u64;
        let y: u64 = sample.y as u64;
        if h_offset <= u64::MAX - x && v_offset <= u64::MAX - y {
            let column: u64 = x + h_offset;
            let row: u64 = y + v_offset;
            if column < width as u64 && row < height as u64 {
                if let Ok(idx) = pixel_to_index(column as usize, row as usize, width, height) {
                    matrix.set(idx, sample.value);
                }
            }
        }
        n += 1;
    }
    assert(matrix@ =~= drawn(
        samples@,
        h_offset as int,
        v_offset as int,
        width as int,
        height as int,
    ));
    matrix
}


/// One character as a grid of coverage, `width` by `height`, held row after
/// row from the top. A character without an outline is blank: its grid is
/// all zero and it has no offsets.
#[derive(Debug)]
pub struct GlyphMatrix {
    symbol: char,
    width: usize,
    height: usize,
    matrix: Vec<Scalar>,
    glyph_outline: Option<GlyphOutline>,
    v_offset: Option<u64>,
    h_offset: Option<u64>,
}

impl GlyphMatrix {
    /// The character that the glyph shows.
    pub closed spec fn spec_symbol(self) -> char {
        self.symbol
    }

    /// How many pixels a row of the grid holds.
    pub closed spec fn spec_width(self) -> int {
        self.width as int
    }

    /// How many rows the grid holds.
    pub closed spec fn spec_height(self) -> int {
        self.height as int
    }

    /// The coverage, row after row from the top.
    pub closed spec fn cells(self) -> Seq<Scalar> {
        self.matrix@
    }

    /// The outline, if the character has one.
    pub closed spec fn outline(self) -> Option<GlyphOutline> {
        self.glyph_outline
    }

    /// How far down the outline is drawn, if there is one.
    pub closed spec fn spec_v_offset(self) -> Option<u64> {
        self.v_offset
    }

    /// How far to the right the outline is drawn, if there is one.
    pub closed spec fn spec_h_offset(self) -> Option<u64> {
        self.h_offset
    }

    /// Whether the character has no outline.
    pub open spec fn spec_is_blank(self) -> bool {
        self.outline() is None
    }

    /// What holds of every glyph: the grid has a cell for each of its places,
    /// and there are offsets exactly if there is an outline.
    pub open spec fn wf(self) -> bool {
        &&& 0 <= self.spec_width()
        &&& 0 <= self.spec_height()
        &&& self.spec_width() * self.spec_height() <= usize::MAX
        &&& self.cells().len() == self.spec_width() * self.spec_height()
        &&& self.spec_v_offset() is Some <==> self.outline() is Some
        &&& self.spec_h_offset() is Some <==> self.outline() is Some
    }

    /// The grid that shows the outline at the glyph's offsets, or nothing but
    /// zeros if the glyph is blank.
    pub open spec fn picture(self) -> Seq<Scalar> {
        match self.outline() {
            Some(outline) => drawn(
                outline.coverage@,
                self.spec_h_offset().unwrap() as int,
                self.spec_v_offset().unwrap() as int,
                self.spec_width(),
                self.spec_height(),
            ),
            None => Seq::new(
                (self.spec_width() * self.spec_height()) as nat,
                |i: int| Scalar { bits: 0 },
            ),
        }
    }

    /// How many rows the outline takes up.
    pub open spec fn spec_internal_height(self) -> int {
        self.outline().unwrap().max_y - self.outline().unwrap().min_y
    }

    /// How many columns the outline takes up.
    pub open spec fn spec_internal_width(self) -> int {
        self.outline().unwrap().max_x - self.outline().unwrap().min_x
    }

    /// The glyph of `symbol` on a grid of `width` by `height`, drawn from the
    /// outline that the font has for the character, with its top left corner
    /// in the grid's. Coverage that falls outside the grid is left out.
    pub fn new(outline: Option<GlyphOutline>, symbol: char, width: usize, height: usize) -> (glyph:
        GlyphMatrix)
        requires
            width * height <= usize::MAX,
        ensures
            glyph.wf(),
            glyph.spec_symbol() == symbol,
            glyph.spec_width() == width,
            glyph.spec_height() == height,
            glyph.outline() == outline,
            outline is Some ==> glyph.spec_v_offset() == Some(0u64) && glyph.spec_h_offset()
                == Some(0u64),
            glyph.cells() == glyph.picture(),
    {
        let mut v_offset: Option<u64> = None;
        let mut h_offset: Option<u64> = None;
        let matrix: Vec<Scalar> = match &outline {
            Some(go) => {
                v_offset = Some(0u64);
                h_offset = Some(0u64);
                draw(&go.coverage, 0, 0, width, height)
            },
            None => {
                let empty: Vec<Coverage> = Vec::new();
                let zeros = draw(&empty, 0, 0, width, height);
                assert(zeros@ =~= Seq::new(
                    (width * height) as nat,
                    |i: int| Scalar { bits: 0 },
                ));
                zeros
            },
        };
        GlyphMatrix { symbol, width, height, matrix, glyph_outline: outline, v_offset, h_offset }
    }

    /// The character that the glyph shows.
    pub fn symbol(&self) -> (symbol: char)
        ensures
            symbol == self.spec_symbol(),
    {
        self.symbol
    }

    /// How many pixels a row of the grid holds.
    pub fn width(&self) -> (width: usize)
        ensures
            width == self.spec_width(),
    {
        self.width
    }

    /// How many rows the grid holds.
    pub fn height(&self) -> (height: usize)
        ensures
            height == self.spec_height(),
    {
        self.height
    }

    /// The coverage, row after row from the top.
    pub fn matrix(&self) -> (cells: &Vec<Scalar>)
        ensures
            cells@ == self.cells(),
    {
        &self.matrix
    }

    /// How far down the outline is drawn, if there is one.
    pub fn v_offset(&self) -> (offset: Option<u64>)
        ensures
            offset == self.spec_v_offset(),
    {
        self.v_offset
    }

    /// How far to the right the outline is drawn, if there is one.
    pub fn h_offset(&self) -> (offset: Option<u64>)
        ensures
            offset == self.spec_h_offset(),
    {
        self.h_offset
    }

    /// The coverage of the pixel in column `x` of row `y`, if the grid has
    /// such a pixel.
    pub fn get_pixel(&self, x: usize, y: usize) -> (value: Option<Scalar>)
        requires
            self.wf(),
        ensures
            value == (if x < self.spec_width() && y < self.spec_height() {
                Some(self.cells()[y * self.spec_width() + x])
            } else {
                None
            }),
    {
        match pixel_to_index(x, y, self.width, self.height) {
            Ok(i) => Some(self.matrix[i]),
            Err(_) => None,
        }
    }

    /// Draws the grid anew from the outline, at the offsets as they are.
    pub fn update_matrix(&mut self)
        requires
            old(self).wf(),
        ensures
            final(self).wf(),
            final(self).spec_symbol() == old(self).spec_symbol(),
            final(self).spec_width() == old(self).spec_width(),
            final(self).spec_height() == old(self).spec_height(),
            final(self).outline() == old(self).outline(),
            final(self).spec_v_offset() == old(self).spec_v_offset(),
            final(self).spec_h_offset() == old(self).spec_h_offset(),
            final(self).cells() == final(self).picture(),
    {
        let matrix: Vec<Scalar> = match &self.glyph_outline {
            Some(go) => {
                let h_offset: u64 = self.h_offset.unwrap();
                let v_offset: u64 = self.v_offset.unwrap();
                draw(&go.coverage, h_offset, v_offset, self.width, self.height)
            },
            None => {
                let empty: Vec<Coverage> = Vec::new();
                let zeros = draw(&empty, 0, 0, self.width, self.height);
                assert(zeros@ =~= Seq::new(
                    (self.width * self.height) as nat,
                    |i: int| Scalar { bits: 0 },
                ));
                zeros
            },
        };
        self.matrix = matrix;
    }

    /// Whether the character has no outline, as a space has none.
    pub fn is_blank(&self) -> (blank: bool)
        ensures
            blank == self.spec_is_blank(),
    {
        self.glyph_outline.is_none()
    }

    /// Moves the outline further down by `v_offset` rows. The grid shows it
    /// after the next `update_matrix`. A blank glyph stays as it is.
    pub fn add_v_offset(&mut self, v_offset: usize)
        requires
            old(self).wf(),
            old(self).spec_v_offset() is Some ==> old(self).spec_v_offset().unwrap() + v_offset
                <= u64::MAX,
        ensures
            final(self).wf(),
            final(self).spec_symbol() == old(self).spec_symbol(),
            final(self).spec_width() == old(self).spec_width(),
            final(self).spec_height() == old(self).spec_height(),
            final(self).outline() == old(self).outline(),
            final(self).cells() == old(self).cells(),
            final(self).spec_h_offset() == old(self).spec_h_offset(),
            final(self).spec_v_offset() == (match old(self).spec_v_offset() {
                Some(offset) => Some((offset + v_offset) as u64),
                None => None,
            }),
    {
        if self.glyph_outline.is_some() {
            self.v_offset = Some(self.v_offset.unwrap() + v_offset as u64);
        }
    }

    /// Moves the outline further to the right by `h_offset` columns. The
    /// grid shows it after the next `update_matrix`. A blank glyph stays as it
    /// is.
    pub fn add_h_offset(&mut self, h_offset: usize)
        requires
            old(self).wf(),
            old(self).spec_h_offset() is Some ==> old(self).spec_h_offset().unwrap() + h_offset
                <= u64::MAX,
        ensures
            final(self).wf(),
            final(self).spec_symbol() == old(self).spec_symbol(),
            final(self).spec_width() == old(self).spec_width(),
            final(self).spec_height() == old(self).spec_height(),
            final(self).outline() == old(self).outline(),
            final(self).cells() == old(self).cells(),
            final(self).spec_v_offset() == old(self).spec_v_offset(),
            final(self).spec_h_offset() == (match old(self).spec_h_offset() {
                Some(offset) => Some((offset + h_offset) as u64),
                None => None,
            }),
    {
        if self.glyph_outline.is_some() {
            self.h_offset = Some(self.h_offset.unwrap() + h_offset as u64);
        }
    }

    /// Moves the outline down by `rows` and right by `columns`, and draws the
    /// grid anew.
    fn shift(&mut self, rows: u64, columns: u64)
        requires
            old(self).wf(),
            old(self).spec_v_offset() is Some ==> old(self).spec_v_offset().unwrap() + rows
                <= u64::MAX,
            old(self).spec_h_offset() is Some ==> old(self).spec_h_offset().unwrap() + columns
                <= u64::MAX,
        ensures
            final(self).wf(),
            final(self).spec_symbol() == old(self).spec_symbol(),
            final(self).spec_width() == old(self).spec_width(),
            final(self).spec_height() == old(self).spec_height(),
            final(self).outline() == old(self).outline(),
            final(self).spec_v_offset() == (match old(self).spec_v_offset() {
                Some(offset) => Some((offset + rows) as u64),
                None => None,
            }),
            final(self).spec_h_offset() == (match old(self).spec_h_offset() {
                Some(offset) => Some((offset + columns) as u64),
                None => None,
            }),
            final(self).cells() == final(self).picture(),
    {
        if self.glyph_outline.is_some() {
            self.v_offset = Some(self.v_offset.unwrap() + rows);
            self.h_offset = Some(self.h_offset.unwrap() + columns);
        }
        self.update_matrix();
    }

    /// The row of the outline's top edge, in the font's coordinates.
    pub fn internal_min_y(&self) -> (y: Option<i32>)
        ensures
            y == (match self.outline() {
                Some(outline) => Some(outline.min_y),
                None => None,
            }),
    {
        match &self.glyph_outline {
            Some(go) => Some(go.min_y),
            None => None,
        }
    }

    /// The row below the outline's bottom edge, in the font's coordinates.
    pub fn internal_max_y(&self) -> (y: Option<i32>)
        ensures
            y == (match self.outline() {
                Some(outline) => Some(outline.max_y),
                None => None,
            }),
    {
        match &self.glyph_outline {
            Some(go) => Some(go.max_y),
            None => None,
        }
    }

    /// The column of the outline's left edge, in the font's coordinates.
    pub fn internal_min_x(&self) -> (x: Option<i32>)
        ensures
            x == (match self.outline() {
                Some(outline) => Some(outline.min_x),
                None => None,
            }),
    {
        match &self.glyph_outline {
            Some(go) => Some(go.min_x),
            None => None,
        }
    }

    /// The column right of the outline's right edge, in the font's
    /// coordinates.
    pub fn internal_max_x(&self) -> (x: Option<i32>)
        ensures
            x == (match self.outline() {
                Some(outline) => Some(outline.max_x),
                None => None,
            }),
    {
        match &self.glyph_outline {
            Some(go) => Some(go.max_x),
            None => None,
        }
    }

    /// How many rows the outline takes up.
    pub fn internal_height(&self) -> (rows: Option<i64>)
        ensures
            rows == (match self.outline() {
                Some(outline) => Some((outline.max_y - outline.min_y) as i64),
                None => None,
            }),
    {
        match &self.glyph_outline {
            Some(go) => Some(go.max_y as i64 - go.min_y as i64),
            None => None,
        }
    }

    /// How many columns the outline takes up.
    pub fn internal_width(&self) -> (columns: Option<i64>)
        ensures
            columns == (match self.outline() {
                Some(outline) => Some((outline.max_x - outline.min_x) as i64),
                None => None,
            }),
    {
        match &self.glyph_outline {
            Some(go) => Some(go.max_x as i64 - go.min_x as i64),
            None => None,
        }
    }
}


/// The printable ASCII character number `i`, counted from the space.
pub open spec fn spec_symbol_at(i: int) -> char {
    ((i + 0x20) as u8) as char
}

/// The printable ASCII character number `i`, counted from the space.
pub fn symbol_at(i: usize) -> (symbol: char)
    requires
        i < NUM_ASCII_MATRICES,
    ensures
        symbol == spec_symbol_at(i as int),
{
    ((i + 0x20) as u8) as char
}

/// Whether outline number `i` exists.
pub open spec fn outlined(outlines: Seq<Option<GlyphOutline>>, i: int) -> bool {
    0 <= i < outlines.len() && outlines[i] is Some
}

/// Whether `top` is the least top edge among the first `count` outlines.
pub open spec fn is_top(outlines: Seq<Option<GlyphOutline>>, count: int, top: int) -> bool {
    &&& exists|i: int| i < count && #[trigger] outlined(outlines, i) && outlines[i].unwrap().min_y == top
    &&& forall|i: int| i < count && #[trigger] outlined(outlines, i) ==> top <= outlines[i].unwrap().min_y
}

/// Whether `left` is the least left edge among the first `count` outlines.
pub open spec fn is_left(outlines: Seq<Option<GlyphOutline>>, count: int, left: int) -> bool {
    &&& exists|i: int| i < count && #[trigger] outlined(outlines, i) && outlines[i].unwrap().min_x == left
    &&& forall|i: int| i < count && #[trigger] outlined(outlines, i) ==> left <= outlines[i].unwrap().min_x
}

/// Whether `bottom` is the greatest bottom edge among the first `count`
/// outlines, each taken at its offset.
pub open spec fn is_bottom(
    outlines: Seq<Option<GlyphOutline>>,
    v_offsets: Seq<Option<u64>>,
    count: int,
    bottom: int,
) -> bool {
    &&& exists|i: int|
        i < count && #[trigger] outlined(outlines, i) && v_offsets[i].unwrap()
            + outlines[i].unwrap().max_y == bottom
    &&& forall|i: int|
        i < count && #[trigger] outlined(outlines, i) ==> v_offsets[i].unwrap()
            + outlines[i].unwrap().max_y <= bottom
}

/// The least top edge of all outlines.
pub open spec fn top_edge(outlines: Seq<Option<GlyphOutline>>) -> int {
    choose|top: int| is_top(outlines, outlines.len() as int, top)
}

/// The least left edge of all outlines.
pub open spec fn left_edge(outlines: Seq<Option<GlyphOutline>>) -> int {
    choose|left: int| is_left(outlines, outlines.len() as int, left)
}

/// The greatest bottom edge of all outlines, each taken at its offset.
pub open spec fn bottom_edge(outlines: Seq<Option<GlyphOutline>>, v_offsets: Seq<Option<u64>>) -> int {
    choose|bottom: int| is_bottom(outlines, v_offsets, outlines.len() as int, bottom)
}

/// How far down a block of `extent` rows is moved to sit in the middle of
/// `height` rows: half of the rows left over, a half row counting as a whole
/// one, and nothing if no row is left over.
pub open spec fn centering_shift(height: int, extent: int) -> int {
    if extent < height {
        (height - extent + 1) / 2
    } else {
        0
    }
}

/// There is one least top edge, one least left edge and one greatest bottom
/// edge at most.
pub proof fn lemma_edges_unique(
    outlines: Seq<Option<GlyphOutline>>,
    v_offsets: Seq<Option<u64>>,
    count: int,
    a: int,
    b: int,
)
    ensures
        is_top(outlines, count, a) && is_top(outlines, count, b) ==> a == b,
        is_left(outlines, count, a) && is_left(outlines, count, b) ==> a == b,
        is_bottom(outlines, v_offsets, count, a) && is_bottom(outlines, v_offsets, count, b) ==> a
            == b,
{
}

/// If `top`, `left` and `bottom` are the edges of all outlines, they are
/// what `top_edge`, `left_edge` and `bottom_edge` name.
pub proof fn lemma_edges(
    outlines: Seq<Option<GlyphOutline>>,
    v_offsets: Seq<Option<u64>>,
    edge: int,
)
    ensures
        is_top(outlines, outlines.len() as int, edge) ==> top_edge(outlines) == edge,
        is_left(outlines, outlines.len() as int, edge) ==> left_edge(outlines) == edge,
        is_bottom(outlines, v_offsets, outlines.len() as int, edge) ==> bottom_edge(
            outlines,
            v_offsets,
        ) == edge,
{
    let n = outlines.len() as int;
    if is_top(outlines, n, edge) {
        lemma_edges_unique(outlines, v_offsets, n, edge, top_edge(outlines));
    }
    if is_left(outlines, n, edge) {
        lemma_edges_unique(outlines, v_offsets, n, edge, left_edge(outlines));
    }
    if is_bottom(outlines, v_offsets, n, edge) {
        lemma_edges_unique(outlines, v_offsets, n, edge, bottom_edge(outlines, v_offsets));
    }
}


/// The glyphs of the 95 printable ASCII characters on grids of one size, in
/// the order of their codes, moved so that the alphabet as a whole sits in the
/// middle of the grid's height and against its left edge.
#[derive(Debug)]
pub struct AsciiMatrices {
    width: usize,
    height: usize,
    glyph_matrices: Vec<GlyphMatrix>,
}

impl AsciiMatrices {
    /// The glyphs, in the order of the characters' codes.
    pub closed spec fn glyphs(self) -> Seq<GlyphMatrix> {
        self.glyph_matrices@
    }

    /// How many pixels a row of each grid holds.
    pub closed spec fn spec_width(self) -> int {
        self.width as int
    }

    /// How many rows each grid holds.
    pub closed spec fn spec_height(self) -> int {
        self.height as int
    }

    /// The outline of each glyph, if it has one.
    pub open spec fn outlines(self) -> Seq<Option<GlyphOutline>> {
        Seq::new(self.glyphs().len(), |i: int| self.glyphs()[i].outline())
    }

    /// How far down each outline is drawn.
    pub open spec fn v_offsets(self) -> Seq<Option<u64>> {
        Seq::new(self.glyphs().len(), |i: int| self.glyphs()[i].spec_v_offset())
    }

    /// How far to the right each outline is drawn.
    pub open spec fn h_offsets(self) -> Seq<Option<u64>> {
        Seq::new(self.glyphs().len(), |i: int| self.glyphs()[i].spec_h_offset())
    }

    /// What holds of every set of glyphs: there is one glyph for each
    /// printable ASCII character, in the order of their codes; all have the
    /// same size; and each grid shows its outline at its offsets.
    pub open spec fn wf(self) -> bool {
        &&& self.glyphs().len() == NUM_ASCII_MATRICES
        &&& 0 <= self.spec_width()
        &&& 0 <= self.spec_height()
        &&& self.spec_width() * self.spec_height() <= usize::MAX
        &&& forall|i: int|
            0 <= i < self.glyphs().len() ==> {
                let glyph = #[trigger] self.glyphs()[i];
                &&& glyph.wf()
                &&& glyph.spec_width() == self.spec_width()
                &&& glyph.spec_height() == self.spec_height()
                &&& glyph.spec_symbol() == spec_symbol_at(i)
                &&& glyph.cells() == glyph.picture()
            }
    }

    /// Whether no vertical offset is so large that centring could carry it
    /// beyond what a `u64` holds.
    pub open spec fn v_room(self) -> bool {
        forall|i: int|
            0 <= i < self.glyphs().len() && (#[trigger] self.v_offsets()[i]) is Some
                ==> self.v_offsets()[i].unwrap() + 0x1_0000_0000 + (self.spec_height()
                + 0x1_0000_0001) / 2 <= u64::MAX
    }

    /// Whether no horizontal offset is so large that centring could carry it
    /// beyond what a `u64` holds.
    pub open spec fn h_room(self) -> bool {
        forall|i: int|
            0 <= i < self.glyphs().len() && (#[trigger] self.h_offsets()[i]) is Some
                ==> self.h_offsets()[i].unwrap() + 0x1_0000_0000 <= u64::MAX
    }

    /// The offsets of glyphs that have not been moved: zero for each outline.
    pub open spec fn no_offsets(outlines: Seq<Option<GlyphOutline>>) -> Seq<Option<u64>> {
        Seq::new(
            outlines.len(),
            |k: int|
                if outlines[k] is Some {
                    Some(0u64)
                } else {
                    None
                },
        )
    }

    /// How far down vertical centring moves outline `i`: first by its
    /// distance from the alphabet's top edge, so that the tops of the tallest
    /// characters touch the top of the grid and all characters keep their
    /// places relative to each other; then, with all others, by the shift
    /// that centres the alphabet as a whole.
    pub open spec fn v_shift(
        outlines: Seq<Option<GlyphOutline>>,
        v_offsets: Seq<Option<u64>>,
        height: int,
        i: int,
    ) -> int {
        outlines[i].unwrap().min_y - top_edge(outlines) + centering_shift(
            height,
            bottom_edge(outlines, v_offsets) - top_edge(outlines),
        )
    }

    /// How far to the right horizontal centring moves outline `i`: by its
    /// distance from the alphabet's left edge.
    pub open spec fn h_shift(outlines: Seq<Option<GlyphOutline>>, i: int) -> int {
        outlines[i].unwrap().min_x - left_edge(outlines)
    }

    /// Whether every outline has been moved from the corner of its grid by
    /// one vertical and one horizontal centring, and no further.
    pub open spec fn centred(self) -> bool {
        forall|i: int|
            #[trigger] outlined(self.outlines(), i) ==> {
                &&& self.v_offsets()[i] is Some
                &&& self.v_offsets()[i].unwrap() == AsciiMatrices::v_shift(
                    self.outlines(),
                    AsciiMatrices::no_offsets(self.outlines()),
                    self.spec_height(),
                    i,
                )
                &&& self.h_offsets()[i] is Some
                &&& self.h_offsets()[i].unwrap() == AsciiMatrices::h_shift(self.outlines(), i)
            }
    }

    /// The least top edge and the greatest bottom edge of the outlines, if
    /// there is any outline.
    fn vertical_edges(&self) -> (edges: Option<(i32, i128)>)
        requires
            self.wf(),
        ensures
            match edges {
                Some((top, bottom)) => is_top(self.outlines(), NUM_ASCII_MATRICES as int, top as int)
                    && is_bottom(
                    self.outlines(),
                    self.v_offsets(),
                    NUM_ASCII_MATRICES as int,
                    bottom as int,
                ),
                None => forall|i: int| !outlined(self.outlines(), i),
            },
    {
        let mut edges: Option<(i32, i128)> = None;
        let mut i: usize = 0;
        while i < self.glyph_matrices.len()
            invariant
                self.wf(),
                0 <= i <= self.glyph_matrices.len(),
                match edges {
                    Some((top, bottom)) => is_top(self.outlines(), i as int, top as int)
                        && is_bottom(self.outlines(), self.v_offsets(), i as int, bottom as int),
                    None => forall|k: int| k < i ==> !outlined(self.outlines(), k),
                },
            decreases self.glyph_matrices.len() - i,
        {
            let glyph = &self.glyph_matrices[i];
            assert(glyph == self.glyphs()[i as int]);
            match (glyph.internal_min_y(), glyph.internal_max_y(), glyph.v_offset()) {
                (Some(min_y), Some(max_y), Some(offset)) => {
                    assert(outlined(self.outlines(), i as int));
                    let low: i128 = offset as i128 + max_y as i128;
                    edges = match edges {
                        Some((top, bottom)) => Some(
                            (
                                if min_y < top {
                                    min_y
                                } else {
                                    top
                                },
                                if low > bottom {
                                    low
                                } else {
                                    bottom
                                },
                            ),
                        ),
                        None => Some((min_y, low)),
                    };
                },
                _ => {
                    assert(!outlined(self.outlines(), i as int));
                },
            }
            i += 1;
        }
        edges
    }

    /// The least left edge of the outlines, if there is any outline.
    fn horizontal_edge(&self) -> (edge: Option<i32>)
        requires
            self.wf(),
        ensures
            match edge {
                Some(left) => is_left(self.outlines(), NUM_ASCII_MATRICES as int, left as int),
                None => forall|i: int| !outlined(self.outlines(), i),
            },
    {
        let mut edge: Option<i32> = None;
        let mut i: usize = 0;
        while i < self.glyph_matrices.len()
            invariant
                self.wf(),
                0 <= i <= self.glyph_matrices.len(),
                match edge {
                    Some(left) => is_left(self.outlines(), i as int, left as int),
                    None => forall|k: int| k < i ==> !outlined(self.outlines(), k),
                },
            decreases self.glyph_matrices.len() - i,
        {
            let glyph = &self.glyph_matrices[i];
            assert(glyph == self.glyphs()[i as int]);
            match glyph.internal_min_x() {
                Some(min_x) => {
                    assert(outlined(self.outlines(), i as int));
                    edge = match edge {
                        Some(left) => Some(
                            if min_x < left {
                                min_x
                            } else {
                                left
                            },
                        ),
                        None => Some(min_x),
                    };
                },
                None => {
                    assert(!outlined(self.outlines(), i as int));
                },
            }
            i += 1;
        }
        edge
    }

    /// Moves every outline either down, by its distance from `top` and by
    /// `down` more, or to the right, by its distance from `left`.
    fn shift_all(&mut self, top: i32, left: i32, down: u64, vertical: bool)
        requires
            old(self).wf(),
            vertical ==> old(self).v_room(),
            !vertical ==> old(self).h_room(),
            down <= (old(self).spec_height() + 0x1_0000_0000) / 2,
            forall|i: int|
                #[trigger] outlined(old(self).outlines(), i) ==> if vertical {
                    top <= old(self).outlines()[i].unwrap().min_y
                } else {
                    left <= old(self).outlines()[i].unwrap().min_x
                },
        ensures
            final(self).wf(),
            final(self).spec_width() == old(self).spec_width(),
            final(self).spec_height() == old(self).spec_height(),
            final(self).outlines() == old(self).outlines(),
            !vertical ==> final(self).v_offsets() == old(self).v_offsets(),
            vertical ==> final(self).h_offsets() == old(self).h_offsets(),
            forall|i: int|
                vertical && #[trigger] outlined(old(self).outlines(), i) ==> final(self).v_offsets()[i] is Some && final(self).v_offsets()[i].unwrap() == old(self).v_offsets()[i].unwrap() + (old(self).outlines()[i].unwrap().min_y - top) + down,
            forall|i: int|
                !vertical && #[trigger] outlined(old(self).outlines(), i) ==> final(self).h_offsets()[i] is Some && final(self).h_offsets()[i].unwrap() == old(self).h_offsets()[i].unwrap() + (old(self).outlines()[i].unwrap().min_x - left),
    {
        let ghost before = self.glyphs();
        let mut i: usize = 0;
        while i < self.glyph_matrices.len()
            invariant
                0 <= i <= self.glyph_matrices.len(),
                self.glyph_matrices.len() == NUM_ASCII_MATRICES,
                before == old(self).glyphs(),
                old(self).wf(),
                vertical ==> old(self).v_room(),
                !vertical ==> old(self).h_room(),
                self.width == old(self).width,
                self.height == old(self).height,
                down <= (old(self).spec_height() + 0x1_0000_0000) / 2,
                forall|k: int|
                    #[trigger] outlined(old(self).outlines(), k) ==> if vertical {
                        top <= old(self).outlines()[k].unwrap().min_y
                    } else {
                        left <= old(self).outlines()[k].unwrap().min_x
                    },
                forall|k: int| i <= k < NUM_ASCII_MATRICES ==> self.glyph_matrices@[k] == before[k],
                forall|k: int|
                    0 <= k < i ==> {
                        let glyph = #[trigger] self.glyph_matrices@[k];
                        &&& glyph.wf()
                        &&& glyph.spec_width() == before[k].spec_width()
                        &&& glyph.spec_height() == before[k].spec_height()
                        &&& glyph.spec_symbol() == before[k].spec_symbol()
                        &&& glyph.outline() == before[k].outline()
                        &&& glyph.cells() == glyph.picture()
                        &&& glyph.spec_v_offset() == (match before[k].spec_v_offset() {
                            Some(offset) if vertical => Some(
                                (offset + (before[k].outline().unwrap().min_y - top) + down) as u64,
                            ),
                            other => other,
                        })
                        &&& glyph.spec_h_offset() == (match before[k].spec_h_offset() {
                            Some(offset) if !vertical => Some(
                                (offset + (before[k].outline().unwrap().min_x - left)) as u64,
                            ),
                            other => other,
                        })
                    },
            decreases self.glyph_matrices.len() - i,
        {
            assert(before[i as int].wf());
            assert(old(self).v_offsets()[i as int] == before[i as int].spec_v_offset());
            assert(old(self).h_offsets()[i as int] == before[i as int].spec_h_offset());
            let min_y = self.glyph_matrices[i].internal_min_y();
            let min_x = self.glyph_matrices[i].internal_min_x();
            match (min_y, min_x) {
                (Some(min_y), Some(min_x)) => {
                    assert(outlined(old(self).outlines(), i as int));
                    if vertical {
                        let rows: u64 = (min_y as i64 - top as i64) as u64 + down;
                        self.glyph_matrices[i].shift(rows, 0);
                    } else {
                        let columns: u64 = (min_x as i64 - left as i64) as u64;
                        self.glyph_matrices[i].shift(0, columns);
                    }
                },
                _ => {},
            }
            i += 1;
        }
        assert(self.outlines() =~= old(self).outlines());
        if vertical {
            assert(self.h_offsets() =~= old(self).h_offsets());
        } else {
            assert(self.v_offsets() =~= old(self).v_offsets());
        }
    }
}


/// The place that a score takes among others: a number takes the place of
/// its value, and what is no number comes below every number.
pub open spec fn rank(score: Scalar) -> int {
    if score.spec_is_nan() {
        -0x8000_0000
    } else {
        score.key()
    }
}

/// Whether, of the first `count` scores, number `best` is the first of the
/// greatest.
pub open spec fn is_best(scores: Seq<Scalar>, count: int, best: int) -> bool {
    &&& 0 <= best < count
    &&& forall|j: int| 0 <= j < count ==> rank(#[trigger] scores[j]) <= rank(scores[best])
    &&& forall|j: int| 0 <= j < best ==> rank(#[trigger] scores[j]) < rank(scores[best])
}

/// The number of the first of the greatest scores.
pub open spec fn best_index(scores: Seq<Scalar>) -> int {
    choose|best: int| is_best(scores, scores.len() as int, best)
}

/// Only one score is the first of the greatest.
pub proof fn lemma_best_unique(scores: Seq<Scalar>, count: int, a: int, b: int)
    requires
        is_best(scores, count, a),
        is_best(scores, count, b),
    ensures
        a == b,
{
    if a < b {
        assert(rank(scores[a]) < rank(scores[b]));
    }
    if b < a {
        assert(rank(scores[b]) < rank(scores[a]));
    }
}

impl AsciiMatrices {
    /// The glyphs of the printable ASCII characters on grids of `width` by
    /// `height`, made of the outlines that the font has for them at a size of
    /// `height` pixels (`outlines[i]` for the character with the code
    /// `0x20 + i`), and centred: vertically as a whole, and against the left
    /// edge.
    pub fn new(outlines: Vec<Option<GlyphOutline>>, width: usize, height: usize) -> (matrices:
        AsciiMatrices)
        requires
            outlines@.len() == NUM_ASCII_MATRICES,
            width * height <= usize::MAX,
        ensures
            matrices.wf(),
            matrices.spec_width() == width,
            matrices.spec_height() == height,
            matrices.outlines() == outlines@,
            matrices.centred(),
    {
        let ghost given = outlines@;
        let mut outlines = outlines;
        let mut reversed: Vec<GlyphMatrix> = Vec::with_capacity(NUM_ASCII_MATRICES);
        let mut n: usize = NUM_ASCII_MATRICES;
        while n > 0
            invariant
                0 <= n <= NUM_ASCII_MATRICES,
                given.len() == NUM_ASCII_MATRICES,
                width * height <= usize::MAX,
                outlines@ == given.subrange(0, n as int),
                reversed@.len() == NUM_ASCII_MATRICES - n,
                forall|k: int|
                    0 <= k < reversed@.len() ==> {
                        let glyph = #[trigger] reversed@[k];
                        let i = NUM_ASCII_MATRICES - 1 - k;
                        &&& glyph.wf()
                        &&& glyph.spec_width() == width
                        &&& glyph.spec_height() == height
                        &&& glyph.spec_symbol() == spec_symbol_at(i)
                        &&& glyph.cells() == glyph.picture()
                        &&& glyph.outline() == given[i]
                        &&& given[i] is Some ==> glyph.spec_v_offset() == Some(0u64)
                            && glyph.spec_h_offset() == Some(0u64)
                    },
            decreases n,
        {
            let outline = outlines.pop().unwrap();
            n -= 1;
            reversed.push(GlyphMatrix::new(outline, symbol_at(n), width, height));
        }
        let mut glyph_matrices: Vec<GlyphMatrix> = Vec::with_capacity(NUM_ASCII_MATRICES);
        let ghost backwards = reversed@;
        let mut m: usize = 0;
        while m < NUM_ASCII_MATRICES
            invariant
                0 <= m <= NUM_ASCII_MATRICES,
                backwards.len() == NUM_ASCII_MATRICES,
                reversed@ == backwards.subrange(0, NUM_ASCII_MATRICES - m),
                glyph_matrices@.len() == m,
                forall|i: int|
                    0 <= i < m ==> #[trigger] glyph_matrices@[i] == backwards[NUM_ASCII_MATRICES
                        - 1 - i],
            decreases NUM_ASCII_MATRICES - m,
        {
            let glyph = reversed.pop().unwrap();
            glyph_matrices.push(glyph);
            m += 1;
        }
        let mut matrices = AsciiMatrices { width, height, glyph_matrices };
        assert(matrices.outlines() =~= given);
        assert(matrices.v_offsets() =~= AsciiMatrices::no_offsets(given));
        assert(matrices.h_offsets() =~= AsciiMatrices::no_offsets(given));
        matrices.v_center();
        matrices.h_center();
        matrices
    }

    /// Centres the glyphs vertically. Every outline is first moved down by
    /// its distance from the top edge of the alphabet, which keeps the
    /// characters on one line; then all are moved down together until the
    /// alphabet as a whole sits in the middle of the grid's height. The grids
    /// are drawn anew. Without any outline nothing changes.
    pub fn v_center(&mut self)
        requires
            old(self).wf(),
            old(self).v_room(),
        ensures
            final(self).wf(),
            final(self).spec_width() == old(self).spec_width(),
            final(self).spec_height() == old(self).spec_height(),
            final(self).outlines() == old(self).outlines(),
            final(self).h_offsets() == old(self).h_offsets(),
            forall|i: int|
                #[trigger] outlined(old(self).outlines(), i) ==> final(self).v_offsets()[i] is Some
                    && final(self).v_offsets()[i].unwrap() == old(self).v_offsets()[i].unwrap()
                    + AsciiMatrices::v_shift(
                    old(self).outlines(),
                    old(self).v_offsets(),
                    old(self).spec_height(),
                    i,
                ),
    {
        if let Some((top, bottom)) = self.vertical_edges() {
            proof {
                lemma_edges(self.outlines(), self.v_offsets(), top as int);
                lemma_edges(self.outlines(), self.v_offsets(), bottom as int);
            }
            let extent: i128 = bottom - top as i128;
            let down: u64 = if extent < self.height as i128 {
                ((self.height as i128 - extent + 1) / 2) as u64
            } else {
                0
            };
            self.shift_all(top, 0, down, true);
        }
    }

    /// Moves every outline to the right by its distance from the left edge
    /// of the alphabet, so that the leftmost characters touch the left edge
    /// of the grid and all keep their places relative to each other. The
    /// grids are drawn anew. Without any outline nothing changes.
    pub fn h_center(&mut self)
        requires
            old(self).wf(),
            old(self).h_room(),
        ensures
            final(self).wf(),
            final(self).spec_width() == old(self).spec_width(),
            final(self).spec_height() == old(self).spec_height(),
            final(self).outlines() == old(self).outlines(),
            final(self).v_offsets() == old(self).v_offsets(),
            forall|i: int|
                #[trigger] outlined(old(self).outlines(), i) ==> final(self).h_offsets()[i] is Some
                    && final(self).h_offsets()[i].unwrap() == old(self).h_offsets()[i].unwrap()
                    + AsciiMatrices::h_shift(old(self).outlines(), i),
    {
        if let Some(left) = self.horizontal_edge() {
            proof {
                lemma_edges(self.outlines(), self.v_offsets(), left as int);
            }
            self.shift_all(0, left, 0, false);
        }
    }

    /// How many pixels a row of each grid holds.
    pub fn width(&self) -> (width: usize)
        ensures
            width == self.spec_width(),
    {
        self.width
    }

    /// How many rows each grid holds.
    pub fn height(&self) -> (height: usize)
        ensures
            height == self.spec_height(),
    {
        self.height
    }

    /// The glyphs, in the order of the characters' codes.
    pub fn glyph_matrices(&self) -> (glyphs: &Vec<GlyphMatrix>)
        ensures
            glyphs@ == self.glyphs(),
    {
        &self.glyph_matrices
    }

    /// The character whose glyph matches best, given for each glyph how well
    /// it matches (`scores[i]` for the character with the code `0x20 + i`):
    /// that of the greatest score and, of several with the greatest score,
    /// the one with the least code. A score that is no number counts as less
    /// than every number.
    pub fn pick_best_symbol(&self, scores: &[Scalar]) -> (symbol: char)
        requires
            self.wf(),
            scores@.len() == NUM_ASCII_MATRICES,
        ensures
            is_best(scores@, NUM_ASCII_MATRICES as int, best_index(scores@)),
            symbol == spec_symbol_at(best_index(scores@)),
    {
        let mut best: usize = 0;
        let mut i: usize = 1;
        while i < scores.len()
            invariant
                1 <= i <= scores@.len(),
                scores@.len() == NUM_ASCII_MATRICES,
                is_best(scores@, i as int, best as int),
            decreases scores@.len() - i,
        {
            let challenger: Scalar = scores[i];
            let holder: Scalar = scores[best];
            if challenger.gt(holder) || (holder.is_nan() && !challenger.is_nan()) {
                best = i;
            }
            i += 1;
        }
        proof {
            lemma_best_unique(
                scores@,
                NUM_ASCII_MATRICES as int,
                best as int,
                best_index(scores@),
            );
        }
        self.glyph_matrices[best].symbol()
    }
}

/// The glyphs at the size at which they are looked at one by one: 60 pixels
/// wide and 120 high.
pub fn draw_chars(outlines: Vec<Option<GlyphOutline>>) -> (matrices: AsciiMatrices)
    requires
        outlines@.len() == NUM_ASCII_MATRICES,
    ensures
        matrices.wf(),
        matrices.spec_width() == 60,
        matrices.spec_height() == 120,
        matrices.outlines() == outlines@,
        matrices.centred(),
{
    let grid_size: usize = 120;
    AsciiMatrices::new(outlines, grid_size / 2, grid_size)
}


/// Where there is an outline among the first `count`, these have a least top
/// edge, a least left edge and a greatest bottom edge.
pub proof fn lemma_edges_exist(
    outlines: Seq<Option<GlyphOutline>>,
    v_offsets: Seq<Option<u64>>,
    count: int,
)
    requires
        count <= outlines.len(),
        exists|i: int| i < count && #[trigger] outlined(outlines, i),
    ensures
        exists|top: int| is_top(outlines, count, top),
        exists|left: int| is_left(outlines, count, left),
        exists|bottom: int| is_bottom(outlines, v_offsets, count, bottom),
    decreases count,
{
    let witness = choose|i: int| i < count && #[trigger] outlined(outlines, i);
    let last = count - 1;
    if exists|i: int| i < last && #[trigger] outlined(outlines, i) {
        lemma_edges_exist(outlines, v_offsets, last);
        let top = choose|top: int| is_top(outlines, last, top);
        let left = choose|left: int| is_left(outlines, last, left);
        let bottom = choose|bottom: int| is_bottom(outlines, v_offsets, last, bottom);
        if outlined(outlines, last) {
            let o = outlines[last].unwrap();
            let low = v_offsets[last].unwrap() + o.max_y;
            let new_top = if o.min_y < top {
                o.min_y as int
            } else {
                top
            };
            let new_left = if o.min_x < left {
                o.min_x as int
            } else {
                left
            };
            let new_bottom = if low > bottom {
                low
            } else {
                bottom
            };
            assert(is_top(outlines, count, new_top));
            assert(is_left(outlines, count, new_left));
            assert(is_bottom(outlines, v_offsets, count, new_bottom));
        } else {
            assert(is_top(outlines, count, top));
            assert(is_left(outlines, count, left));
            assert(is_bottom(outlines, v_offsets, count, bottom));
        }
    } else {
        assert(witness == last);
        let o = outlines[last].unwrap();
        assert(is_top(outlines, count, o.min_y as int));
        assert(is_left(outlines, count, o.min_x as int));
        assert(is_bottom(outlines, v_offsets, count, v_offsets[last].unwrap() + o.max_y));
    }
}

/// Once centred, every outline lies within the grid's height, provided the
/// alphabet as a whole is not higher than the grid: no outline is moved
/// upwards or to the left, and every outline ends at or above the grid's
/// bottom row.
pub proof fn lemma_centred_glyphs_fit(outlines: Seq<Option<GlyphOutline>>, height: int, i: int)
    requires
        outlined(outlines, i),
        bottom_edge(outlines, AsciiMatrices::no_offsets(outlines)) - top_edge(outlines) <= height,
    ensures
        0 <= AsciiMatrices::v_shift(outlines, AsciiMatrices::no_offsets(outlines), height, i),
        AsciiMatrices::v_shift(outlines, AsciiMatrices::no_offsets(outlines), height, i) + (
        outlines[i].unwrap().max_y - outlines[i].unwrap().min_y) <= height,
        0 <= AsciiMatrices::h_shift(outlines, i),
{
    let v_offsets = AsciiMatrices::no_offsets(outlines);
    lemma_edges_exist(outlines, v_offsets, outlines.len() as int);
    let top = top_edge(outlines);
    let bottom = bottom_edge(outlines, v_offsets);
    let left = left_edge(outlines);
    assert(is_top(outlines, outlines.len() as int, top));
    assert(is_bottom(outlines, v_offsets, outlines.len() as int, bottom));
    assert(is_left(outlines, outlines.len() as int, left));
    assert(v_offsets[i] == Some(0u64));
}

} // verus!
