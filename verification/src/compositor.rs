//! Lays the resampled image over a checkerboard backdrop and folds each pair
//! of stacked pixels into one terminal cell.

use vstd::prelude::*;

use crate::color::{blend, blend_spec, lemma_mix_extremes, mix_channel, Rgb, Rgba};
use crate::raster::{Raster, RasterView};

verus! {

/// Gray of the backdrop squares whose coordinates sum to an even number.
pub const LIGHT_GRAY: u8 = 153;

/// Gray of the other backdrop squares.
pub const DARK_GRAY: u8 = 102;

/// One terminal cell: the colour of its upper half, drawn by the glyph, and
/// of its lower half, drawn by the background.
#[derive(Clone, Copy, Debug, PartialEq, Eq, Structural)]
pub struct Cell {
    pub fg: Rgb,
    pub bg: Rgb,
}

/// The mathematical content of a cell grid: its cells row by row.
pub struct CellGridView {
    pub cols: u32,
    pub rows: u32,
    pub cells: Seq<Cell>,
}

impl CellGridView {
    /// A grid holds one cell for every column of every row.
    pub open spec fn wf(self) -> bool {
        self.cells.len() == self.cols * self.rows
    }

    /// The cell in column `x` of row `y`.
    pub open spec fn cell(self, x: int, y: int) -> Cell {
        self.cells[y * self.cols + x]
    }
}

/// Where the image begins inside the grid so that it sits in the middle;
/// an odd remainder leaves the extra pixel below and to the right.
pub open spec fn anchor(grid: (u32, u32), size: (u32, u32)) -> (int, int) {
    ((grid.0 - size.0) / 2, (grid.1 - size.1) / 2)
}

/// Whether grid pixel `(x, y)` lies under the image.
pub open spec fn covered(img: RasterView, grid: (u32, u32), x: int, y: int) -> bool {
    let a = anchor(grid, (img.width, img.height));
    a.0 <= x < a.0 + img.width && a.1 <= y < a.1 + img.height
}

/// The backdrop at `(x, y)`: a checkerboard of two grays, opaque under the
/// image and fully transparent elsewhere.
pub open spec fn backdrop_at(img: RasterView, grid: (u32, u32), x: int, y: int) -> Rgba {
    let gray = if (x + y) % 2 == 0 { LIGHT_GRAY } else { DARK_GRAY };
    Rgba { r: gray, g: gray, b: gray, a: if covered(img, grid, x, y) { 255u8 } else { 0u8 } }
}

/// The image layer at `(x, y)`: the image's pixel where it covers the grid,
/// nothing elsewhere.
pub open spec fn buffer_at(img: RasterView, grid: (u32, u32), x: int, y: int) -> Rgba {
    let a = anchor(grid, (img.width, img.height));
    if covered(img, grid, x, y) {
        img.pixel(x - a.0, y - a.1)
    } else {
        Rgba { r: 0, g: 0, b: 0, a: 0 }
    }
}

/// The colour shown at grid pixel `(x, y)`.
pub open spec fn shown_at(img: RasterView, grid: (u32, u32), x: int, y: int) -> Rgb {
    blend_spec(buffer_at(img, grid, x, y), backdrop_at(img, grid, x, y))
}

/// The cell in column `x` of row `y`: pixel row `2y` above pixel row `2y + 1`.
pub open spec fn cell_at(img: RasterView, grid: (u32, u32), x: int, y: int) -> Cell {
    Cell { fg: shown_at(img, grid, x, 2 * y), bg: shown_at(img, grid, x, 2 * y + 1) }
}

/// The cell grid for the image `img` centred in a pixel grid of size `grid`.
pub open spec fn composite_spec(img: RasterView, grid: (u32, u32)) -> CellGridView {
    let cols = grid.0;
    let rows = grid.1 / 2;
    CellGridView {
        cols,
        rows,
        cells: Seq::new(
            (cols * rows) as nat,
            |k: int| cell_at(img, grid, k % (cols as int), k / (cols as int)),
        ),
    }
}

/// The opaque backdrop square at `(x, y)`.
pub open spec fn checker_at(x: int, y: int) -> Rgba {
    let gray = if (x + y) % 2 == 0 { LIGHT_GRAY } else { DARK_GRAY };
    Rgba { r: gray, g: gray, b: gray, a: 255 }
}

/// Whether `color` can stand at grid pixel `(x, y)` of a picture made of
/// `src`: it is black, as outside the image, or one of the source's pixels
/// blended with the backdrop square there.
pub open spec fn shade_of(color: Rgb, src: RasterView, x: int, y: int) -> bool {
    color == (Rgb { r: 0, g: 0, b: 0 }) || exists|sx: int, sy: int|
        0 <= sx < src.width && 0 <= sy < src.height && color == blend_spec(
            #[trigger] src.pixel(sx, sy),
            checker_at(x, y),
        )
}

impl CellGridView {
    /// Whether every colour in the grid is black or a pixel of `src`
    /// blended with the backdrop square behind it.
    pub open spec fn drawn_from(self, src: RasterView) -> bool {
        forall|x: int, y: int|
            0 <= x < self.cols && 0 <= y < self.rows ==> shade_of(
                (#[trigger] self.cell(x, y)).fg,
                src,
                x,
                2 * y,
            ) && shade_of(self.cell(x, y).bg, src, x, 2 * y + 1)
    }
}

/// What the compositor shows at a grid pixel is black or a pixel of the
/// image blended with the backdrop square there; so it is for any raster
/// that the image's pixels are taken from.
pub proof fn lemma_shown_is_shade(img: RasterView, src: RasterView, grid: (u32, u32), x: int, y: int)
    requires
        img.wf(),
        img.width <= grid.0,
        img.height <= grid.1,
        img.taken_from(src),
    ensures
        shade_of(shown_at(img, grid, x, y), src, x, y),
{
    if covered(img, grid, x, y) {
        let a = anchor(grid, (img.width, img.height));
        let p = img.pixel(x - a.0, y - a.1);
        let (sx, sy) = choose|sx: int, sy: int|
            0 <= sx < src.width && 0 <= sy < src.height && p == #[trigger] src.pixel(sx, sy);
        assert(backdrop_at(img, grid, x, y) == checker_at(x, y));
        assert(shown_at(img, grid, x, y) == blend_spec(src.pixel(sx, sy), checker_at(x, y)));
    }
}

/// A composite of an image taken from `src` is drawn from `src`.
pub proof fn lemma_composite_drawn_from(img: RasterView, src: RasterView, grid: (u32, u32))
    requires
        img.wf(),
        img.width <= grid.0,
        img.height <= grid.1,
        img.taken_from(src),
    ensures
        composite_spec(img, grid).drawn_from(src),
{
    let out = composite_spec(img, grid);
    assert forall|x: int, y: int| 0 <= x < out.cols && 0 <= y < out.rows implies shade_of(
        (#[trigger] out.cell(x, y)).fg,
        src,
        x,
        2 * y,
    ) && shade_of(out.cell(x, y).bg, src, x, 2 * y + 1) by {
        lemma_cell_index(out.cols as int, out.rows as int, x, y);
        lemma_shown_is_shade(img, src, grid, x, 2 * y);
        lemma_shown_is_shade(img, src, grid, x, 2 * y + 1);
    }
}

/// In a picture drawn from an image whose every pixel is the opaque colour
/// `color`, every cell shows that colour or black, above and below.
pub proof fn lemma_uniform_image_draws_uniformly(cells: CellGridView, src: RasterView, color: Rgb, x: int, y: int)
    requires
        cells.drawn_from(src),
        forall|sx: int, sy: int|
            0 <= sx < src.width && 0 <= sy < src.height ==> #[trigger] src.pixel(sx, sy) == (Rgba {
                r: color.r,
                g: color.g,
                b: color.b,
                a: 255,
            }),
        0 <= x < cells.cols,
        0 <= y < cells.rows,
    ensures
        cells.cell(x, y).fg == color || cells.cell(x, y).fg == (Rgb { r: 0, g: 0, b: 0 }),
        cells.cell(x, y).bg == color || cells.cell(x, y).bg == (Rgb { r: 0, g: 0, b: 0 }),
{
    let c = cells.cell(x, y);
    assert forall|bg: u8| #![auto] mix_channel(color.r, bg, 255) == color.r && mix_channel(color.g, bg, 255)
        == color.g && mix_channel(color.b, bg, 255) == color.b by {
        lemma_mix_extremes(color.r, bg, 0);
        lemma_mix_extremes(color.g, bg, 0);
        lemma_mix_extremes(color.b, bg, 0);
    }
    assert(shade_of(c.fg, src, x, 2 * y));
    assert(shade_of(c.bg, src, x, 2 * y + 1));
}

/// A grid of terminal cells, each with a foreground and a background colour.
pub struct CellGrid {
    cols: u32,
    rows: u32,
    cells: Vec<Cell>,
}

impl View for CellGrid {
    type V = CellGridView;

    closed spec fn view(&self) -> CellGridView {
        CellGridView { cols: self.cols, rows: self.rows, cells: self.cells@ }
    }
}

/// Position `y * cols + x` is cell `x` of row `y`, and lies before the end
/// of a grid with more than `y` rows.
pub proof fn lemma_cell_index(cols: int, rows: int, x: int, y: int)
    requires
        0 <= x < cols,
        0 <= y < rows,
    ensures
        0 <= y * cols + x < cols * rows,
        (y * cols + x) % cols == x,
        (y * cols + x) / cols == y,
{
    assert(0 <= y * cols) by (nonlinear_arith)
        requires 0 <= y, 0 <= cols;
    assert(y * cols + cols <= cols * rows) by (nonlinear_arith)
        requires 0 <= y < rows, 0 <= cols;
    vstd::arithmetic::div_mod::lemma_fundamental_div_mod_converse(y * cols + x, cols, y, x);
}

impl CellGrid {
    #[verifier::type_invariant]
    spec fn inv(self) -> bool {
        self@.wf()
    }

    /// A grid of `cols` by `rows` cells without any cell in it, for a
    /// terminal that has no room.
    pub(crate) fn empty(cols: u32, rows: u32) -> (out: CellGrid)
        requires
            cols == 0 || rows == 0,
        ensures
            out@ == (CellGridView { cols, rows, cells: Seq::empty() }),
    {
        assert(cols * rows == 0) by (nonlinear_arith)
            requires cols == 0 || rows == 0;
        CellGrid { cols, rows, cells: Vec::new() }
    }

    /// The number of cell columns.
    pub fn cols(&self) -> (c: u32)
        ensures
            c == self@.cols,
            self@.wf(),
    {
        proof { use_type_invariant(self); }
        self.cols
    }

    /// The number of cell rows.
    pub fn rows(&self) -> (r: u32)
        ensures
            r == self@.rows,
            self@.wf(),
    {
        proof { use_type_invariant(self); }
        self.rows
    }

    /// The cell in column `x` of row `y`.
    pub fn cell(&self, x: u32, y: u32) -> (c: Cell)
        requires
            x < self@.cols,
            y < self@.rows,
        ensures
            c == self@.cell(x as int, y as int),
    {
        proof {
            use_type_invariant(self);
            lemma_cell_index(self.cols as int, self.rows as int, x as int, y as int);
            assert(self.cells.len() == self.cols * self.rows);
        }
        let row: usize = y as usize * self.cols as usize;
        self.cells[row + x as usize]
    }
}

/// The colour shown at grid pixel `(x, y)`.
fn shown(img: &Raster, grid: (u32, u32), x: u32, y: u32) -> (c: Rgb)
    requires
        img@.wf(),
        img@.width <= grid.0,
        img@.height <= grid.1,
        x < grid.0,
        y < grid.1,
    ensures
        c == shown_at(img@, grid, x as int, y as int),
{
    let w: u32 = img.width();
    let h: u32 = img.height();
    let ax: u32 = (grid.0 - w) / 2;
    let ay: u32 = (grid.1 - h) / 2;
    let gray: u8 = if (x as u64 + y as u64) % 2 == 0 { LIGHT_GRAY } else { DARK_GRAY };
    if ax <= x && x - ax < w && ay <= y && y - ay < h {
        let pixel = img.pixel(x - ax, y - ay);
        blend(pixel, Rgba { r: gray, g: gray, b: gray, a: 255 })
    } else {
        blend(Rgba { r: 0, g: 0, b: 0, a: 0 }, Rgba { r: gray, g: gray, b: gray, a: 0 })
    }
}

/// Centres the resampled image in a pixel grid of size `grid`, blends it
/// with the backdrop, and pairs the pixel rows into cells: the grid has one
/// column per pixel column and one row per two pixel rows.
pub fn composite(resampled: &Raster, grid: (u32, u32)) -> (out: CellGrid)
    requires
        resampled@.width <= grid.0,
        resampled@.height <= grid.1,
    ensures
        out@ == composite_spec(resampled@, grid),
        out@.cols == grid.0,
        out@.rows == grid.1 / 2,
{
    let cols: u32 = grid.0;
    let rows: u32 = grid.1 / 2;
    let w: u32 = resampled.width();
    let mut cells: Vec<Cell> = Vec::new();
    let mut y: u32 = 0;
    while y < rows
        invariant
            resampled@.wf(),
            resampled@.width <= grid.0,
            resampled@.height <= grid.1,
            cols == grid.0,
            rows == grid.1 / 2,
            y <= rows,
            cells@.len() == y * cols,
            forall|k: int| 0 <= k < cells@.len() ==> cells@[k] == cell_at(
                resampled@, grid, k % (cols as int), k / (cols as int)),
        decreases rows - y,
    {
        let mut x: u32 = 0;
        while x < cols
            invariant
                resampled@.wf(),
                resampled@.width <= grid.0,
                resampled@.height <= grid.1,
                cols == grid.0,
                rows == grid.1 / 2,
                y < rows,
                x <= cols,
                cells@.len() == y * cols + x,
                forall|k: int| 0 <= k < cells@.len() ==> cells@[k] == cell_at(
                    resampled@, grid, k % (cols as int), k / (cols as int)),
            decreases cols - x,
        {
            let fg = shown(resampled, grid, x, 2 * y);
            let bg = shown(resampled, grid, x, 2 * y + 1);
            proof {
                lemma_cell_index(cols as int, rows as int, x as int, y as int);
            }
            cells.push(Cell { fg, bg });
            x += 1;
        }
        proof {
            assert((y + 1) * cols == y * cols + cols) by (nonlinear_arith);
        }
        y += 1;
    }
    proof {
        assert(y * cols == cols * rows) by (nonlinear_arith)
            requires y == rows;
        assert(cells@ =~= composite_spec(resampled@, grid).cells);
    }
    CellGrid { cols, rows, cells }
}

} // verus!
