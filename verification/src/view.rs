//! Rectangles of the window, and what is drawn in one.

use crate::terminal::{Color, Line, PositionedImage};
use vstd::prelude::*;

verus! {

/// A rectangle of the window in pixels.
#[derive(Debug, Clone, Copy, PartialEq, Eq, Structural)]
pub struct Viewport {
    pub x: u32,
    pub y: u32,
    pub w: u32,
    pub h: u32,
}

/// Whether the pixel at `x`, `y` lies in a rectangle.
pub open spec fn inside(vp: Viewport, x: int, y: int) -> bool {
    vp.x <= x < vp.x + vp.w && vp.y <= y < vp.y + vp.h
}

impl Viewport {
    /// Whether the pixel at `x`, `y` lies in the rectangle.
    pub fn contains(&self, x: i64, y: i64) -> (r: bool)
        ensures
            r == inside(*self, x as int, y as int),
    {
        let left = self.x as i64;
        let top = self.y as i64;
        left <= x && x < left + self.w as i64 && top <= y && y < top + self.h as i64
    }
}

/// How many cells of a size fit beside each other: at least one.
pub open spec fn cells_in(extent: u32, cell: u32) -> nat {
    let n = extent as int / cell as int;
    if n < 1 {
        1
    } else {
        n as nat
    }
}

/// How many cells of a size fit beside each other: at least one.
pub fn count_cells_in(extent: u32, cell: u32) -> (r: usize)
    requires
        cell > 0,
    ensures
        r == cells_in(extent, cell),
        1 <= r <= 0xffff_ffff,
{
    let n = extent / cell;
    if n < 1 {
        1
    } else {
        n as usize
    }
}

/// The row of cells below the pixel row `y`; the first for a pixel above the
/// rectangle.
pub open spec fn row_at(vp: Viewport, cell_height: u32, y: int) -> int {
    let h = if cell_height == 0 {
        1int
    } else {
        cell_height as int
    };
    if y < vp.y {
        0
    } else {
        (y - vp.y) / h
    }
}

/// The row of cells below the pixel row `y`.
pub fn click_row(viewport: Viewport, cell_height: u32, y: i64) -> (r: u64)
    ensures
        r == row_at(viewport, cell_height, y as int),
{
    let h: i64 = if cell_height == 0 {
        1
    } else {
        cell_height as i64
    };
    if y < viewport.y as i64 {
        0
    } else {
        let d: i64 = y - viewport.y as i64;
        proof {
            assert(0 <= d / h <= d) by (nonlinear_arith)
                requires
                    d >= 0,
                    h >= 1,
            ;
        }
        (d / h) as u64
    }
}

/// What is drawn in a rectangle.
#[derive(Debug)]
pub struct Frame {
    pub lines: Vec<Line>,
    pub images: Vec<PositionedImage>,
    pub bg_color: Color,
    /// Leave the default background of cells undrawn.
    pub skip_default_bg: bool,
}

} // verus!
