use vstd::prelude::*;

verus! {

/// An axis-aligned rectangle in window pixels.
#[derive(Clone, Copy, Debug, PartialEq, Eq, Structural)]
pub struct Rect {
    pub x: i32,
    pub y: i32,
    pub width: u32,
    pub height: u32,
}

/// Returns a new rect that covers the inner portion of the given rectangle: one pixel is taken
/// off each side.
pub fn get_inner_rect(rect: Rect) -> (r: Rect)
    requires
        rect.x < i32::MAX,
        rect.y < i32::MAX,
        rect.width >= 2,
        rect.height >= 2,
    ensures
        r.x == rect.x + 1,
        r.y == rect.y + 1,
        r.width == rect.width - 2,
        r.height == rect.height - 2,
{
    Rect { x: rect.x + 1, y: rect.y + 1, width: rect.width - 2, height: rect.height - 2 }
}

/// The geometry of the window: a square window, a border around the playing area, and the
/// playing area divided into `squares` by `squares` cells of `square_size` pixels.
///
/// The playing area starts at `offset` (twice the border thickness) in both directions.
#[derive(Clone, Copy, Debug, PartialEq, Eq, Structural)]
pub struct Layout {
    pub window_size: u32,
    pub border_thickness: u32,
    pub squares: u32,
    pub offset: u32,
    pub square_size: u32,
}

impl Layout {
    /// The layout is consistent: its derived sizes follow from the window, the border and the
    /// number of squares, and every pixel of the window fits in an `i32`.
    pub open spec fn wf(self) -> bool {
        &&& self.squares >= 1
        &&& 4 * self.border_thickness <= self.window_size <= i32::MAX
        &&& self.squares * self.squares <= usize::MAX
        &&& self.offset == 2 * self.border_thickness
        &&& self.square_size == (self.window_size - 2 * self.offset) / (self.squares as int)
        &&& self.square_size * self.squares <= self.window_size - 2 * self.offset
    }

    /// The side of the square grid of cells, in pixels.
    pub open spec fn grid_size(self) -> int {
        self.square_size * self.squares
    }

    /// The left edge of the cells of column `col`.
    pub open spec fn cell_x(self, col: int) -> int {
        self.offset + self.square_size * col
    }

    /// The top edge of the cells of row `row`.
    pub open spec fn cell_y(self, row: int) -> int {
        self.offset + self.square_size * row
    }

    /// Builds the layout of a window of `window_size` pixels with a border of
    /// `border_thickness` pixels and `squares` cells along each side.
    pub fn new(window_size: u32, border_thickness: u32, squares: u32) -> (r: Layout)
        requires
            squares >= 1,
            4 * border_thickness <= window_size <= i32::MAX,
            squares * squares <= usize::MAX,
        ensures
            r.wf(),
            r.window_size == window_size,
            r.border_thickness == border_thickness,
            r.squares == squares,
    {
        let offset = border_thickness * 2;
        let area = window_size - offset * 2;
        let square_size = area / squares;
        proof {
            assert(square_size * squares <= area) by (nonlinear_arith)
                requires square_size == area / squares, squares >= 1;
        }
        Layout { window_size, border_thickness, squares, offset, square_size }
    }

    /// Extra pixels left over at the far edges of the playing area, which the grid of cells
    /// does not cover.
    pub fn fill_in(&self) -> (r: u32)
        requires
            self.wf(),
        ensures
            r == self.window_size - 2 * self.offset - self.grid_size(),
    {
        self.window_size - self.offset * 2 - self.square_size * self.squares
    }

    /// The white border frame around the playing area.
    pub fn border_rect(&self) -> (r: Rect)
        requires
            self.wf(),
        ensures
            r.x == self.border_thickness,
            r.y == self.border_thickness,
            r.width == self.window_size - 2 * self.border_thickness,
            r.height == self.window_size - 2 * self.border_thickness,
    {
        let side = self.window_size - self.border_thickness * 2;
        Rect { x: self.border_thickness as i32, y: self.border_thickness as i32, width: side, height: side }
    }

    /// The playing area: the square covered by the grid of cells.
    pub fn playing_area_rect(&self) -> (r: Rect)
        requires
            self.wf(),
        ensures
            r.x == self.offset,
            r.y == self.offset,
            r.width == self.grid_size(),
            r.height == self.grid_size(),
    {
        let side = self.square_size * self.squares;
        Rect { x: self.offset as i32, y: self.offset as i32, width: side, height: side }
    }

    /// The outline of the cell at `row`, `col`.
    pub fn cell_rect(&self, row: u32, col: u32) -> (r: Rect)
        requires
            self.wf(),
            row < self.squares,
            col < self.squares,
        ensures
            r.x == self.cell_x(col as int),
            r.y == self.cell_y(row as int),
            r.width == self.square_size,
            r.height == self.square_size,
    {
        proof {
            assert(self.square_size * row <= self.square_size * self.squares
                && self.square_size * col <= self.square_size * self.squares) by (nonlinear_arith)
                requires row < self.squares, col < self.squares;
        }
        let x = self.offset + self.square_size * col;
        let y = self.offset + self.square_size * row;
        Rect { x: x as i32, y: y as i32, width: self.square_size, height: self.square_size }
    }
}

} // verus!

verus! {

/// The cell under the window pixel (`x`, `y`), as a row-major index.
///
/// The coordinates are taken relative to the playing area's origin. A relative coordinate at or
/// below zero (the outer top or left edge line included) or at or beyond the grid's far edge is
/// outside the board. Inside, the column and row are the relative coordinates divided by the
/// cell size, rounded down.
pub open spec fn square_from_coords(layout: Layout, x: int, y: int) -> Option<int> {
    let rx = x - layout.offset;
    let ry = y - layout.offset;
    if rx <= 0 || ry <= 0 || rx >= layout.grid_size() || ry >= layout.grid_size() {
        None
    } else {
        Some((ry / layout.square_size as int) * layout.squares + rx / layout.square_size as int)
    }
}

/// Returns the index of the square that the given window coordinates lie within, or `None` if
/// they are outside the playing area.
pub fn get_square_from_coords(layout: &Layout, x: i32, y: i32) -> (r: Option<usize>)
    requires
        layout.wf(),
    ensures
        match r {
            Some(i) => square_from_coords(*layout, x as int, y as int) == Some(i as int),
            None => square_from_coords(*layout, x as int, y as int) is None,
        },
{
    let rx: i64 = x as i64 - layout.offset as i64;
    let ry: i64 = y as i64 - layout.offset as i64;
    let grid: i64 = layout.square_size as i64 * layout.squares as i64;
    if rx <= 0 || ry <= 0 || rx >= grid || ry >= grid {
        return None;
    }
    let size = layout.square_size as u64;
    let n = layout.squares as u64;
    proof {
        assert(size > 0) by (nonlinear_arith)
            requires grid == size * n, 0 < rx < grid;
    }
    let col = rx as u64 / size;
    let row = ry as u64 / size;
    proof {
        let g = grid as int;
        assert(col < n) by (nonlinear_arith)
            requires g == size * n, col as int == (rx as int) / (size as int), 0 < rx < g, size > 0;
        assert(row < n) by (nonlinear_arith)
            requires g == size * n, row as int == (ry as int) / (size as int), 0 < ry < g, size > 0;
        assert(row * n + col < n * n) by (nonlinear_arith)
            requires row < n, col < n;
    }
    Some((row * n + col) as usize)
}

/// Every pixel strictly inside a cell (off its top and left edge lines) maps back to that
/// cell's index; the cell's center is one such pixel once cells are two pixels wide.
pub proof fn lemma_point_in_cell_maps_back(layout: Layout, i: int, dx: int, dy: int)
    requires
        layout.wf(),
        0 <= i < layout.squares * layout.squares,
        1 <= dx < layout.square_size,
        1 <= dy < layout.square_size,
    ensures
        square_from_coords(
            layout,
            layout.cell_x(i % layout.squares as int) + dx,
            layout.cell_y(i / layout.squares as int) + dy,
        ) == Some(i),
{
    let n = layout.squares as int;
    let size = layout.square_size as int;
    let row = i / n;
    let col = i % n;
    assert(0 <= row < n && 0 <= col < n && row * n + col == i) by (nonlinear_arith)
        requires row == i / n, col == i % n, 0 <= i < n * n, n >= 1;
    let rx = size * col + dx;
    let ry = size * row + dy;
    assert(0 < rx < size * n && rx / size == col) by (nonlinear_arith)
        requires rx == size * col + dx, 1 <= dx < size, 0 <= col < n;
    assert(0 < ry < size * n && ry / size == row) by (nonlinear_arith)
        requires ry == size * row + dy, 1 <= dy < size, 0 <= row < n;
    assert(layout.cell_x(col) + dx - layout.offset == rx);
    assert(layout.cell_y(row) + dy - layout.offset == ry);
}

} // verus!
