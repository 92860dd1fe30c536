//! What is drawn of a terminal: the engine's grid as lines, the cursor, and
//! the images that still belong on the screen.

use crate::terminal::{
    head_cell, pictures, plain_attr, rows, spacer_cell, Cell, Cursor, CursorStyle, GraphicAttribute,
    Line, Picture, PositionedImage, TerminalSize,
};
use crate::vt::{drawn_color, map_color, GridColor};
use vstd::prelude::*;

verus! {

/// A cell of the engine's grid. Lines above the screen have negative numbers.
#[derive(Debug, Clone, Copy)]
pub struct GridCell {
    pub line: i32,
    pub col: usize,
    pub ch: char,
    pub fg: GridColor,
    pub bg: GridColor,
    /// The character is two columns wide.
    pub wide: bool,
    /// The right half of a wide character.
    pub wide_spacer: bool,
    /// The unused last column before a wide character on the next line.
    pub leading_spacer: bool,
    pub dim: bool,
    pub bold: bool,
    pub italic: bool,
    pub inverse: bool,
    pub hidden: bool,
}

#[derive(Debug, Clone, Copy, PartialEq, Eq, Structural)]
pub enum CursorShape {
    Block,
    Underline,
    Beam,
    HollowBlock,
    Hidden,
}

/// The engine's cursor.
#[derive(Debug, Clone, Copy)]
pub struct GridCursor {
    pub line: i32,
    pub col: usize,
    pub shape: CursorShape,
}

/// Everything to draw of one frame.
#[derive(Debug)]
pub struct Snapshot {
    pub lines: Vec<Line>,
    pub cursor: Option<Cursor>,
    pub images: Vec<PositionedImage>,
}

/// The weight of the text: faint, normal, or heavy. Slanted text is heavy too.
pub open spec fn weight(g: GridCell) -> i8 {
    if g.dim {
        -1i8
    } else if g.bold || g.italic {
        1i8
    } else {
        0i8
    }
}

/// The cell to draw for a cell of the grid.
pub open spec fn drawn_cell(g: GridCell) -> Cell {
    if g.wide_spacer || g.leading_spacer {
        spacer_cell(1)
    } else {
        head_cell(
            if g.ch == '\0' {
                ' '
            } else {
                g.ch
            },
            if g.wide {
                2
            } else {
                1
            },
            GraphicAttribute {
                fg: drawn_color(g.fg),
                bg: drawn_color(g.bg),
                bold: weight(g),
                inversed: g.inverse,
                blinking: 0,
                concealed: g.hidden,
            },
        )
    }
}

/// The cell to draw for a cell of the grid.
pub fn convert_cell(g: &GridCell) -> (r: Cell)
    ensures
        r == drawn_cell(*g),
        !g.wide_spacer && !g.leading_spacer ==> r.attr.fg == drawn_color(g.fg) && r.attr.bg
            == drawn_color(g.bg),
{
    if g.wide_spacer || g.leading_spacer {
        return Cell::spacer(1);
    }
    let width: u16 = if g.wide {
        2
    } else {
        1
    };
    let bold: i8 = if g.dim {
        -1
    } else if g.bold || g.italic {
        1
    } else {
        0
    };
    let attr = GraphicAttribute {
        fg: map_color(g.fg),
        bg: map_color(g.bg),
        bold,
        inversed: g.inverse,
        blinking: 0,
        concealed: g.hidden,
    };
    let ch = if g.ch == '\0' {
        ' '
    } else {
        g.ch
    };
    Cell::head(ch, width, attr)
}

/// Whether a cell of the grid is shown at `row`, `col` when the display is
/// scrolled back by `offset` lines.
pub open spec fn shown_at(g: GridCell, offset: int, row: int, col: int) -> bool {
    g.line + offset == row && g.col == col
}

/// What is drawn at `row`, `col`: the last cell shown there, or a blank.
pub open spec fn cell_at(cells: Seq<GridCell>, offset: int, row: int, col: int) -> Cell
    decreases cells.len(),
{
    if cells.len() == 0 {
        head_cell(' ', 1, plain_attr())
    } else if shown_at(cells.last(), offset, row, col) {
        drawn_cell(cells.last())
    } else {
        cell_at(cells.drop_last(), offset, row, col)
    }
}

/// The screen that the cells of the grid make.
pub open spec fn screen(cells: Seq<GridCell>, offset: int, lines: nat, columns: nat) -> Seq<Seq<Cell>> {
    Seq::new(lines, |r: int| Seq::new(columns, |c: int| cell_at(cells, offset, r, c)))
}

/// The contents of a screen being drawn.
pub open spec fn grid_view(v: Seq<Vec<Cell>>) -> Seq<Seq<Cell>> {
    Seq::new(v.len(), |i: int| v[i]@)
}

fn blank_row(columns: usize) -> (r: Vec<Cell>)
    ensures
        r@ == Seq::new(columns as nat, |c: int| head_cell(' ', 1, plain_attr())),
{
    let mut row: Vec<Cell> = Vec::new();
    while row.len() < columns
        invariant
            row.len() <= columns,
            forall|c: int| 0 <= c < row.len() ==> row[c] == head_cell(' ', 1, plain_attr()),
        decreases columns - row.len(),
    {
        row.push(Cell::head(' ', 1, GraphicAttribute::default()));
    }
    assert(row@ =~= Seq::new(columns as nat, |c: int| head_cell(' ', 1, plain_attr())));
    row
}

/// Draws the cells of the grid on a blank screen.
pub fn grid_rows(cells: &Vec<GridCell>, offset: i32, lines: usize, columns: usize) -> (r: Vec<
    Vec<Cell>,
>)
    ensures
        grid_view(r@) == screen(cells@, offset as int, lines as nat, columns as nat),
        forall|k: int| 0 <= k < r.len() ==> (#[trigger] r[k])@.len() == columns,
{
    let mut grid: Vec<Vec<Cell>> = Vec::new();
    while grid.len() < lines
        invariant
            grid.len() <= lines,
            forall|r: int|
                0 <= r < grid.len() ==> (#[trigger] grid[r])@ == Seq::new(
                    columns as nat,
                    |c: int| head_cell(' ', 1, plain_attr()),
                ),
        decreases lines - grid.len(),
    {
        grid.push(blank_row(columns));
    }
    let mut i: usize = 0;
    while i < cells.len()
        invariant
            i <= cells.len(),
            grid.len() == lines,
            forall|r: int| 0 <= r < lines ==> (#[trigger] grid[r])@.len() == columns,
            forall|r: int, c: int|
                0 <= r < lines && 0 <= c < columns ==> #[trigger] grid[r]@[c] == cell_at(
                    cells@.subrange(0, i as int),
                    offset as int,
                    r,
                    c,
                ),
        decreases cells.len() - i,
    {
        let g = cells[i];
        proof {
            assert(cells@.subrange(0, i + 1).drop_last() =~= cells@.subrange(0, i as int));
            assert(cells@.subrange(0, i + 1).last() == g);
        }
        let row: i64 = g.line as i64 + offset as i64;
        if row >= 0 && (row as u64) < lines as u64 && g.col < columns {
            let cell = convert_cell(&g);
            let at: usize = row as usize;
            let mut line: Vec<Cell> = Vec::new();
            std::mem::swap(&mut line, &mut grid[at]);
            line[g.col] = cell;
            grid[at] = line;
        }
        i += 1;
    }
    proof {
        assert(cells@.subrange(0, i as int) =~= cells@);
        let want = screen(cells@, offset as int, lines as nat, columns as nat);
        assert forall|r: int| 0 <= r < lines implies grid_view(grid@)[r] == want[r] by {
            assert(grid[r]@ =~= want[r]);
        }
        assert(grid_view(grid@) =~= want);
    }
    grid
}

/// How many cells of size `b` it takes to hold `a` pixels.
pub open spec fn cells_for(a: int, b: int) -> int {
    if a % b == 0 {
        a / b
    } else {
        a / b + 1
    }
}

fn count_cells(a: u64, b: u64) -> (r: u64)
    requires
        b > 0,
    ensures
        r == cells_for(a as int, b as int),
{
    let q = a / b;
    if a % b == 0 {
        q
    } else {
        proof {
            assert(b != 1) by {
                if b == 1 {
                    assert(a % 1 == 0);
                }
            }
            assert(q <= a / 2) by (nonlinear_arith)
                requires
                    q == a / b,
                    b >= 2,
            ;
        }
        q + 1
    }
}

/// At least one pixel.
pub open spec fn at_least_one(v: u16) -> int {
    if v == 0 {
        1
    } else {
        v as int
    }
}

/// Whether an image belongs on a screen: it begins on it, and no text has
/// been written over it.
pub open spec fn belongs(p: Picture, grid: Seq<Seq<Cell>>, columns: nat, cell_w: int, cell_h: int)
    -> bool {
    let c0 = if p.col < 0 {
        0
    } else {
        p.col
    };
    &&& 0 <= p.row < grid.len()
    &&& forall|r: int, c: int|
        p.row <= r < grid.len() && r < p.row + cells_for(p.height as int, cell_h) && c0 <= c
            < columns && c < c0 + cells_for(p.width as int, cell_w) ==> (#[trigger] grid[r][c]).ch
            == ' '
}

/// The images that belong on a screen, in order.
pub open spec fn remaining(
    all: Seq<Picture>,
    grid: Seq<Seq<Cell>>,
    columns: nat,
    cell_w: int,
    cell_h: int,
) -> Seq<Picture> {
    all.filter(|p: Picture| belongs(p, grid, columns, cell_w, cell_h))
}

/// `start + count`, or `limit` if that is less.
fn end_within(start: usize, count: u64, limit: usize) -> (r: usize)
    requires
        start <= limit,
    ensures
        r == if start + count < limit {
            start + count
        } else {
            limit as int
        },
{
    if count < (limit - start) as u64 {
        start + count as usize
    } else {
        limit
    }
}

fn image_belongs(
    im: &PositionedImage,
    grid: &Vec<Vec<Cell>>,
    columns: usize,
    cell_w: u64,
    cell_h: u64,
) -> (r: bool)
    requires
        cell_w > 0,
        cell_h > 0,
        forall|k: int| 0 <= k < grid.len() ==> (#[trigger] grid[k])@.len() == columns,
    ensures
        r == belongs(im@, grid_view(grid@), columns as nat, cell_w as int, cell_h as int),
{
    let lines = grid.len();
    let ghost gv = grid_view(grid@);
    if im.row < 0 || im.row as usize >= lines {
        return false;
    }
    let r0: usize = im.row as usize;
    let c0: usize = if im.col < 0 {
        0
    } else {
        im.col as usize
    };
    if c0 >= columns {
        return true;
    }
    let r1 = end_within(r0, count_cells(im.height, cell_h), lines);
    let c1 = end_within(c0, count_cells(im.width, cell_w), columns);
    let mut r: usize = r0;
    while r < r1
        invariant
            r0 <= r <= r1 || r == r0,
            r1 <= lines == grid.len(),
            c0 <= c1 <= columns,
            gv == grid_view(grid@),
            forall|k: int| 0 <= k < grid.len() ==> (#[trigger] grid[k])@.len() == columns,
            forall|k: int, c: int|
                r0 <= k < r && c0 <= c < c1 ==> (#[trigger] gv[k][c]).ch == ' ',
            belongs(im@, gv, columns as nat, cell_w as int, cell_h as int) ==> (forall|k: int, c: int|
                r0 <= k < r1 && c0 <= c < c1 ==> (#[trigger] gv[k][c]).ch == ' '),
        decreases r1 - r,
    {
        let mut c: usize = c0;
        while c < c1
            invariant
                r0 <= r < r1,
                r1 <= lines == grid.len(),
                c0 <= c <= c1 <= columns,
                gv == grid_view(grid@),
                forall|k: int| 0 <= k < grid.len() ==> (#[trigger] grid[k])@.len() == columns,
                forall|j: int| c0 <= j < c ==> (#[trigger] gv[r as int][j]).ch == ' ',
                belongs(im@, gv, columns as nat, cell_w as int, cell_h as int) ==> (forall|
                    k: int,
                    c: int,
                |
                    r0 <= k < r1 && c0 <= c < c1 ==> (#[trigger] gv[k][c]).ch == ' '),
            decreases c1 - c,
        {
            assert(gv[r as int] == grid[r as int]@);
            if grid[r][c].ch != ' ' {
                assert(gv[r as int][c as int].ch != ' ');
                return false;
            }
            c += 1;
        }
        r += 1;
    }
    true
}

/// The images of a terminal and the screen they were last drawn on.
#[derive(Debug)]
pub struct ScreenImages {
    pub images: Vec<PositionedImage>,
    /// Whether that was the alternate screen.
    pub last_alt: bool,
}

impl ScreenImages {
    /// A terminal without images.
    pub fn new() -> (r: Self)
        ensures
            r.images@.len() == 0,
            !r.last_alt,
    {
        ScreenImages { images: Vec::new(), last_alt: false }
    }

    /// Puts a decoded image at the cursor, unless it is empty. The result is
    /// the number of lines by which the cursor has to go down to get past it.
    pub fn place(
        &mut self,
        row: isize,
        col: isize,
        width: u64,
        height: u64,
        data: Vec<u8>,
        cell_height: u16,
    ) -> (r: u64)
        ensures
            width == 0 || height == 0 ==> r == 0 && *final(self) == *old(self),
            width != 0 && height != 0 ==> {
                &&& r == cells_for(height as int, at_least_one(cell_height))
                &&& final(self).last_alt == old(self).last_alt
                &&& pictures(final(self).images@) == pictures(old(self).images@).push(
                    Picture {
                        row: row as int,
                        col: col as int,
                        height: height as nat,
                        width: width as nat,
                        data: data@,
                    },
                )
            },
    {
        if width == 0 || height == 0 {
            return 0;
        }
        let ghost before = self.images@;
        let im = PositionedImage { row, col, height, width, data };
        self.images.push(im);
        assert(pictures(self.images@) =~= pictures(before).push(im@));
        let h: u64 = if cell_height == 0 {
            1
        } else {
            cell_height as u64
        };
        count_cells(height, h)
    }

    /// Drops the images that no longer belong on the screen: all of them when
    /// the screen was switched, else those off the screen or written over.
    pub fn prune(&mut self, alt: bool, grid: &Vec<Vec<Cell>>, columns: usize, cell_w: u16, cell_h: u16)
        requires
            forall|k: int| 0 <= k < grid.len() ==> (#[trigger] grid[k])@.len() == columns,
        ensures
            final(self).last_alt == alt,
            pictures(final(self).images@) == (if alt != old(self).last_alt {
                Seq::empty()
            } else {
                remaining(
                    pictures(old(self).images@),
                    grid_view(grid@),
                    columns as nat,
                    at_least_one(cell_w),
                    at_least_one(cell_h),
                )
            }),
    {
        let switched = alt != self.last_alt;
        self.last_alt = alt;
        let ghost all = pictures(self.images@);
        let mut kept: Vec<PositionedImage> = Vec::new();
        assert(pictures(kept@) =~= Seq::empty());
        if switched {
            self.images = kept;
            return;
        }
        let w: u64 = if cell_w == 0 {
            1
        } else {
            cell_w as u64
        };
        let h: u64 = if cell_h == 0 {
            1
        } else {
            cell_h as u64
        };
        let ghost gv = grid_view(grid@);
        let ghost keep = |p: Picture| belongs(p, gv, columns as nat, w as int, h as int);
        let mut i: usize = 0;
        proof {
            reveal(Seq::filter);
            assert(all.subrange(0, 0) =~= Seq::empty());
        }
        while i < self.images.len()
            invariant
                i <= self.images.len(),
                all == pictures(self.images@),
                self.last_alt == alt,
                w > 0,
                h > 0,
                gv == grid_view(grid@),
                forall|k: int| 0 <= k < grid.len() ==> (#[trigger] grid[k])@.len() == columns,
                keep == (|p: Picture| belongs(p, gv, columns as nat, w as int, h as int)),
                pictures(kept@) == all.subrange(0, i as int).filter(keep),
            decreases self.images.len() - i,
        {
            proof {
                reveal(Seq::filter);
                assert(all.subrange(0, i + 1).drop_last() =~= all.subrange(0, i as int));
                assert(all.subrange(0, i + 1).last() == all[i as int]);
            }
            if image_belongs(&self.images[i], grid, columns, w, h) {
                let ghost before = kept@;
                kept.push(self.images[i].clone());
                assert(pictures(kept@) =~= pictures(before).push(all[i as int]));
            }
            i += 1;
        }
        assert(all.subrange(0, i as int) =~= all);
        self.images = kept;
    }
}

/// The cursor to draw: none if it is hidden or scrolled off the screen.
pub open spec fn drawn_cursor(c: GridCursor, offset: int, lines: int) -> Option<Cursor> {
    let row = c.line + offset;
    if c.shape == CursorShape::Hidden || row < 0 || row >= lines {
        None
    } else {
        Some(
            Cursor {
                sz: TerminalSize { rows: 0, cols: 0 },
                row: row as usize,
                col: c.col,
                end: false,
                style: match c.shape {
                    CursorShape::Underline => CursorStyle::Underline,
                    CursorShape::Beam => CursorStyle::Bar,
                    _ => CursorStyle::Block,
                },
            },
        )
    }
}

/// The cursor to draw.
pub fn convert_cursor(c: GridCursor, offset: i32, lines: usize) -> (r: Option<Cursor>)
    ensures
        r == drawn_cursor(c, offset as int, lines as int),
{
    let style = match c.shape {
        CursorShape::Hidden => {
            return None;
        },
        CursorShape::Underline => CursorStyle::Underline,
        CursorShape::Beam => CursorStyle::Bar,
        CursorShape::Block => CursorStyle::Block,
        CursorShape::HollowBlock => CursorStyle::Block,
    };
    let row: i64 = c.line as i64 + offset as i64;
    if row < 0 || row as u64 >= lines as u64 {
        None
    } else {
        Some(Cursor::at(row as usize, c.col, style))
    }
}

/// Everything to draw of a terminal whose grid has `lines` rows of `columns`
/// cells and is scrolled back by `offset` lines.
pub fn snapshot(
    cells: &Vec<GridCell>,
    offset: i32,
    lines: usize,
    columns: usize,
    cursor: GridCursor,
    images: &mut ScreenImages,
    alt: bool,
    cell_w: u16,
    cell_h: u16,
) -> (r: Snapshot)
    ensures
        rows(r.lines@) == screen(cells@, offset as int, lines as nat, columns as nat),
        forall|i: int| 0 <= i < r.lines.len() ==> !(#[trigger] r.lines[i]).wraps(),
        r.cursor == drawn_cursor(cursor, offset as int, lines as int),
        pictures(r.images@) == pictures(final(images).images@),
        final(images).last_alt == alt,
        pictures(final(images).images@) == (if alt != old(images).last_alt {
            Seq::empty()
        } else {
            remaining(
                pictures(old(images).images@),
                screen(cells@, offset as int, lines as nat, columns as nat),
                columns as nat,
                at_least_one(cell_w),
                at_least_one(cell_h),
            )
        }),
{
    let mut grid = grid_rows(cells, offset, lines, columns);
    let ghost gv = grid_view(grid@);
    images.prune(alt, &grid, columns, cell_w, cell_h);
    let mut copies: Vec<PositionedImage> = Vec::new();
    let mut i: usize = 0;
    while i < images.images.len()
        invariant
            i <= images.images.len(),
            copies.len() == i,
            forall|k: int| 0 <= k < i ==> (#[trigger] copies[k])@ == images.images[k]@,
        decreases images.images.len() - i,
    {
        copies.push(images.images[i].clone());
        i += 1;
    }
    assert(pictures(copies@) =~= pictures(images.images@));
    let mut out: Vec<Line> = Vec::new();
    let ghost all = grid@;
    while out.len() < grid.len()
        invariant
            out.len() <= grid.len(),
            grid.len() == all.len(),
            forall|k: int| out.len() <= k < grid.len() ==> grid[k] == all[k],
            forall|k: int|
                0 <= k < out.len() ==> (#[trigger] out[k])@ == all[k]@ && !out[k].wraps(),
        decreases grid.len() - out.len(),
    {
        let k = out.len();
        let mut line: Vec<Cell> = Vec::new();
        std::mem::swap(&mut line, &mut grid[k]);
        out.push(Line::from_cells(line, false));
    }
    assert(rows(out@) =~= gv);
    Snapshot { lines: out, cursor: convert_cursor(cursor, offset, lines), images: copies }
}

} // verus!
