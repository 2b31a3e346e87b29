use vstd::prelude::*;

verus! {

/// Upper bound on a column index or column count within one line.
pub const MAX_COLUMN: usize = 0x10_0000;

/// Upper bound on the total document height, in row units.
pub const MAX_ROW_UNITS: usize = 0x10_0000;

/// Upper bound on a cell dimension, in pixels.
pub const MAX_CELL: i64 = 0x10_0000;

/// Upper bound on the magnitude of a scroll offset, a viewport size or a
/// pointer coordinate, in pixels.
pub const MAX_SCROLL: i64 = 0x100_0000_0000;

/// Size of one character cell of the monospace grid, in pixels.
#[derive(Clone, Copy, PartialEq, Eq, Structural, Debug)]
pub struct CellSize {
    pub width: i64,
    pub height: i64,
}

impl CellSize {
    /// A usable cell is positive and small enough that every product of a
    /// cell dimension with a column or row count fits comfortably in `i64`.
    pub open spec fn wf(self) -> bool {
        &&& 1 <= self.width <= MAX_CELL
        &&& 1 <= self.height <= MAX_CELL
    }
}

/// A point in pixel space.
#[derive(Clone, Copy, PartialEq, Eq, Structural, Debug)]
pub struct PixelPoint {
    pub x: i64,
    pub y: i64,
}

/// An extent in pixel space.
#[derive(Clone, Copy, PartialEq, Eq, Structural, Debug)]
pub struct PixelSize {
    pub width: i64,
    pub height: i64,
}

/// An axis-aligned rectangle in pixel space.
#[derive(Clone, Copy, PartialEq, Eq, Structural, Debug)]
pub struct PixelRect {
    pub pos: PixelPoint,
    pub size: PixelSize,
}

/// The viewport for one frame: `pos` is the scroll offset of its top-left
/// corner in document pixel space, `size` its extent.
#[derive(Clone, Copy, PartialEq, Eq, Structural, Debug)]
pub struct Viewport {
    pub pos: PixelPoint,
    pub size: PixelSize,
}

impl Viewport {
    pub open spec fn wf(self) -> bool {
        &&& -MAX_SCROLL <= self.pos.x <= MAX_SCROLL
        &&& -MAX_SCROLL <= self.pos.y <= MAX_SCROLL
        &&& 0 <= self.size.width <= MAX_SCROLL
        &&& 0 <= self.size.height <= MAX_SCROLL
    }
}

/// Product bound used throughout: a column or row count bounded by one
/// constant times a cell dimension bounded by another stays within bounds.
pub proof fn lemma_mul_le(a: int, b: int, ca: int, cb: int)
    by (nonlinear_arith)
    requires
        0 <= a <= ca,
        0 <= b <= cb,
    ensures
        0 <= a * b <= ca * cb,
{
}

/// As [`lemma_mul_le`], for a factor that may be negative.
pub proof fn lemma_mul_abs_le(a: int, b: int, ca: int, cb: int)
    by (nonlinear_arith)
    requires
        -ca <= a <= ca,
        0 <= b <= cb,
        0 <= ca,
    ensures
        -(ca * cb) <= a * b <= ca * cb,
{
}

/// The viewport-relative pixel x coordinate of a column: on a monospace
/// grid a column's x position is the column count times the cell width,
/// shifted by the scroll offset `sx`.
pub open spec fn spec_column_x_px(column: int, cell: CellSize, sx: int) -> int {
    column * cell.width - sx
}

/// Converts a column index to a viewport-relative pixel x coordinate.
pub fn column_x_px(column: usize, cell: CellSize, viewport: &Viewport) -> (x: i64)
    requires
        cell.wf(),
        viewport.wf(),
        column <= MAX_COLUMN,
    ensures
        x == spec_column_x_px(column as int, cell, viewport.pos.x as int),
{
    proof {
        lemma_mul_le(column as int, cell.width as int, MAX_COLUMN as int, MAX_CELL as int);
    }
    (column as i64) * cell.width - viewport.pos.x
}

/// Converts a y coordinate in row units to a viewport-relative pixel y
/// coordinate.
pub open spec fn spec_row_y_px(y: int, cell: CellSize, sy: int) -> int {
    y * cell.height - sy
}

pub fn row_y_px(y: usize, cell: CellSize, viewport: &Viewport) -> (r: i64)
    requires
        cell.wf(),
        viewport.wf(),
        y <= MAX_ROW_UNITS,
    ensures
        r == spec_row_y_px(y as int, cell, viewport.pos.y as int),
{
    proof {
        lemma_mul_le(y as int, cell.height as int, MAX_ROW_UNITS as int, MAX_CELL as int);
    }
    (y as i64) * cell.height - viewport.pos.y
}

/// The column a viewport-relative pixel x coordinate falls in, clamped to
/// `[0, max_column]`.
pub open spec fn spec_column_at_x(x: int, cell: CellSize, sx: int, max_column: int) -> int {
    let px = x + sx;
    if px <= 0 {
        0
    } else if px / (cell.width as int) > max_column {
        max_column
    } else {
        px / (cell.width as int)
    }
}

/// Inverse of the column-to-pixel mapping: converts a viewport-relative
/// pixel x coordinate back to a column, clamping out-of-range coordinates
/// to the row's `[0, max_column]` span.
pub fn column_at_x(x: i64, cell: CellSize, viewport: &Viewport, max_column: usize) -> (r: usize)
    requires
        cell.wf(),
        viewport.wf(),
        -MAX_SCROLL <= x <= MAX_SCROLL,
        max_column <= MAX_COLUMN,
    ensures
        r == spec_column_at_x(x as int, cell, viewport.pos.x as int, max_column as int),
{
    let px = x + viewport.pos.x;
    if px <= 0 {
        return 0;
    }
    let col = px / cell.width;
    if col > max_column as i64 {
        max_column
    } else {
        col as usize
    }
}

} // verus!
