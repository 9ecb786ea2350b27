//! Arithmetic on the grid of tiles that a map covers at one zoom level.
//!
//! Tile coordinates follow the Web-Mercator scheme: `x` grows eastward and
//! `y` grows southward. The tiles of a grid are numbered row by row, from
//! the north-west corner.

use vstd::prelude::*;

verus! {

/// The range of tile coordinates that a bounding box covers at one zoom
/// level: `x_min` is the column of its western edge, `x_max` that of its
/// eastern edge, `y_min` the row of its northern edge and `y_max` that of
/// its southern edge.
#[derive(Debug, Clone, Copy, PartialEq, Eq, Structural)]
pub struct TileGrid {
    pub x_min: i64,
    pub x_max: i64,
    pub y_min: i64,
    pub y_max: i64,
}

impl TileGrid {
    /// Whether the grid has at least one column and one row.
    pub open spec fn is_valid(&self) -> bool {
        self.x_min <= self.x_max && self.y_min <= self.y_max
    }

    /// The number of columns.
    pub open spec fn width(&self) -> int {
        self.x_max - self.x_min + 1
    }

    /// The number of rows.
    pub open spec fn height(&self) -> int {
        self.y_max - self.y_min + 1
    }

    /// The number of tiles: columns times rows.
    pub open spec fn spec_total_tiles(&self) -> int {
        self.width() * self.height()
    }

    /// Whether tile `(x, y)` lies inside the grid.
    pub open spec fn contains(&self, x: i64, y: i64) -> bool {
        self.x_min <= x <= self.x_max && self.y_min <= y <= self.y_max
    }

    /// The place of tile `(x, y)` in the row-by-row numbering of the grid.
    pub open spec fn linear_index(&self, x: i64, y: i64) -> int {
        (y - self.y_min) * self.width() + (x - self.x_min)
    }

    /// Tells whether the grid has at least one column and one row.
    pub fn check_valid(&self) -> (b: bool)
        ensures
            b == self.is_valid(),
    {
        self.x_min <= self.x_max && self.y_min <= self.y_max
    }

    /// The number of tiles of a valid grid, where it is `limit` at most.
    pub fn total_tiles_within(&self, limit: u64) -> (r: Option<u64>)
        requires
            self.is_valid(),
        ensures
            r == (if self.spec_total_tiles() <= limit {
                Some(self.spec_total_tiles() as u64)
            } else {
                None
            }),
    {
        let width: u128 = (self.x_max as i128 - self.x_min as i128 + 1) as u128;
        let height: u128 = (self.y_max as i128 - self.y_min as i128 + 1) as u128;
        let cap: u128 = limit as u128;
        if width > cap || height > cap {
            assert(width * height > cap) by (nonlinear_arith)
                requires
                    width >= 1,
                    height >= 1,
                    width > cap || height > cap,
            ;
            return None;
        }
        assert(width * height <= 0xffff_ffff_ffff_ffff * 0xffff_ffff_ffff_ffff) by (nonlinear_arith)
            requires
                width <= 0xffff_ffff_ffff_ffff,
                height <= 0xffff_ffff_ffff_ffff,
        ;
        let total: u128 = width * height;
        if total <= cap {
            Some(total as u64)
        } else {
            None
        }
    }

    /// The number of tiles of the grid, where the grid is valid and the
    /// number fits in 32 bits.
    pub fn checked_total_tiles(&self) -> (r: Option<u32>)
        ensures
            r == (if self.is_valid() && self.spec_total_tiles() <= u32::MAX {
                Some(self.spec_total_tiles() as u32)
            } else {
                None
            }),
    {
        if !self.check_valid() {
            return None;
        }
        match self.total_tiles_within(u32::MAX as u64) {
            Some(total) => Some(total as u32),
            None => None,
        }
    }

    /// The place of tile `(x, y)` in an index of `len` entries laid out over
    /// this grid; `None` where that place lies outside the index.
    pub fn entry_index(&self, x: i64, y: i64, len: usize) -> (r: Option<usize>)
        ensures
            r == (if 0 <= self.linear_index(x, y) < len {
                Some(self.linear_index(x, y) as usize)
            } else {
                None
            }),
    {
        let width: i128 = self.x_max as i128 - self.x_min as i128 + 1;
        let dy: i128 = y as i128 - self.y_min as i128;
        let dx: i128 = x as i128 - self.x_min as i128;
        let large: i128 = 0x2_0000_0000;
        let tall = dy >= large || dy <= -large;
        let wide = width >= large || width <= -large;
        if tall && wide {
            assert(dy * width >= large * large || dy * width <= -(large * large))
                by (nonlinear_arith)
                requires
                    large > 0,
                    dy >= large || dy <= -large,
                    width >= large || width <= -large,
            ;
            return None;
        }
        assert(-0x2_0000_0000_0000_0000_0000_0000 <= dy * width
            <= 0x2_0000_0000_0000_0000_0000_0000) by (nonlinear_arith)
            requires
                -0x1_0000_0000_0000_0000 <= dy <= 0x1_0000_0000_0000_0000,
                -0x1_0000_0000_0000_0000 <= width <= 0x1_0000_0000_0000_0000,
                -0x2_0000_0000 < dy < 0x2_0000_0000 || -0x2_0000_0000 < width < 0x2_0000_0000,
        ;
        let index: i128 = dy * width + dx;
        if index < 0 || index >= len as i128 {
            None
        } else {
            Some(index as usize)
        }
    }
}

/// A tile inside a valid grid has a place among the grid's tiles: its
/// row-by-row number is at least zero and below the number of tiles.
pub proof fn lemma_contained_tile_has_a_place(grid: TileGrid, x: i64, y: i64)
    requires
        grid.is_valid(),
        grid.contains(x, y),
    ensures
        0 <= grid.linear_index(x, y) < grid.spec_total_tiles(),
{
    let w = grid.width();
    let h = grid.height();
    let dy = y - grid.y_min;
    let dx = x - grid.x_min;
    assert(0 <= dy * w + dx < w * h) by (nonlinear_arith)
        requires
            0 <= dy <= h - 1,
            0 <= dx <= w - 1,
            w >= 1,
    ;
}

/// The corners of a valid grid: the north-west tile comes first, the
/// north-east tile ends the first row, and the south-east tile comes last.
pub proof fn lemma_corner_places(grid: TileGrid)
    requires
        grid.is_valid(),
    ensures
        grid.linear_index(grid.x_min, grid.y_min) == 0,
        grid.linear_index(grid.x_max, grid.y_min) == grid.width() - 1,
        grid.linear_index(grid.x_max, grid.y_max) == grid.spec_total_tiles() - 1,
        0 <= grid.width() - 1 < grid.spec_total_tiles(),
{
    let w = grid.width();
    let h = grid.height();
    assert(0 * w == 0);
    assert((h - 1) * w + (w - 1) == w * h - 1) by (nonlinear_arith);
    assert(w - 1 < w * h) by (nonlinear_arith)
        requires
            w >= 1,
            h >= 1,
    ;
}

/// Where a tile beyond a valid grid has no place among the grid's tiles:
/// north or south of the grid in one of its columns, east of it in or below
/// its last row, and west of it in or above its first row.
pub open spec fn lies_beyond(grid: TileGrid, x: i64, y: i64) -> bool {
    ||| grid.x_min <= x <= grid.x_max && (y < grid.y_min || y > grid.y_max)
    ||| x > grid.x_max && y >= grid.y_max
    ||| x < grid.x_min && y <= grid.y_min
}

/// A tile that lies beyond a valid grid has a row-by-row number below zero
/// or not below the number of tiles: it never takes the place of a tile of
/// the grid.
pub proof fn lemma_tile_beyond_has_no_place(grid: TileGrid, x: i64, y: i64)
    requires
        grid.is_valid(),
        lies_beyond(grid, x, y),
    ensures
        grid.linear_index(x, y) < 0 || grid.linear_index(x, y) >= grid.spec_total_tiles(),
{
    let w = grid.width();
    let h = grid.height();
    let dy = y - grid.y_min;
    let dx = x - grid.x_min;
    if dy < 0 && dx <= w - 1 {
        assert(dy * w + dx < 0) by (nonlinear_arith)
            requires
                dy <= -1,
                dx <= w - 1,
                w >= 1,
        ;
    } else if dy >= h && dx >= 0 {
        assert(dy * w + dx >= w * h) by (nonlinear_arith)
            requires
                dy >= h,
                dx >= 0,
                w >= 1,
        ;
    } else if dx >= w {
        assert(dy * w + dx >= w * h) by (nonlinear_arith)
            requires
                dy >= h - 1,
                dx >= w,
                w >= 1,
        ;
    } else {
        assert(dy * w + dx < 0) by (nonlinear_arith)
            requires
                dy <= 0,
                dx <= -1,
                w >= 1,
        ;
    }
}

} // verus!
