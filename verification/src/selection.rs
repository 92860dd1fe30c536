//! What is selected on the screen, and the text that is copied of it.

use crate::terminal::{head_pos, Cell, CellSize, Line, TerminalSize};
use vstd::prelude::*;

verus! {

/// The selected cells, both ends included.
#[derive(Debug, Clone, Copy, PartialEq, Eq, Structural)]
pub enum Selection {
    /// From one cell to another, counted row by row.
    Linear { left: usize, right: usize },
    /// The columns of a range within the rows of a range.
    Block { top: usize, bottom: usize, left: usize, right: usize },
}

/// A drag of the mouse. Positions are in half pixels, relative to the upper
/// left corner; beside each end stands how far the screen was scrolled back
/// then.
#[derive(Debug, Clone, Copy, PartialEq, Eq, Structural)]
pub struct Drag {
    pub start_x: i64,
    pub start_y: i64,
    pub start_offset: u32,
    pub end_x: i64,
    pub end_y: i64,
    pub end_offset: u32,
    /// How far the screen is scrolled back now.
    pub offset: u32,
    pub block: bool,
    pub clicks: usize,
}

/// The column whose left edge is nearest to a position.
pub open spec fn near_col(x: int, cell_w: u32, cols: nat) -> nat {
    if x < 0 {
        0
    } else {
        let n = (x + cell_w) / (2 * cell_w as int);
        if n < cols {
            n as nat
        } else {
            cols
        }
    }
}

/// `x` brought into the range from 0 to `top`.
pub open spec fn clamped(x: int, top: int) -> int {
    if x < 0 {
        0
    } else if x > top {
        top
    } else {
        x
    }
}

/// The row at a position, moved by how far the screen scrolled since.
pub open spec fn row_now(y: int, cell_h: u32, rows: nat, then: int, offset: int) -> int {
    clamped(y / (2 * cell_h as int), rows - 1) - then + offset
}

pub open spec fn delimiter(ch: char) -> bool {
    let n = ch as u32;
    0x21 <= n <= 0x2f || 0x3a <= n <= 0x40 || 0x5b <= n <= 0x60 || 0x7b <= n <= 0x7e || n == 0x20
        || n == 9 || n == 10 || n == 12 || n == 13
}

fn is_delimiter(ch: char) -> (r: bool)
    ensures
        r == delimiter(ch),
{
    let n = ch as u32;
    (0x21 <= n && n <= 0x2f) || (0x3a <= n && n <= 0x40) || (0x5b <= n && n <= 0x60) || (0x7b <= n
        && n <= 0x7e) || n == 0x20 || n == 9 || n == 10 || n == 12 || n == 13
}

/// The character that covers a column.
pub open spec fn char_at(c: Seq<Cell>, i: int) -> char {
    c[head_pos(c, i)].ch
}

/// Whether two neighbours belong to one word.
pub open spec fn same_word(c: Seq<Cell>, i: int) -> bool {
    !delimiter(char_at(c, i)) && !delimiter(char_at(c, i + 1))
}

/// Where the word that holds a column begins.
pub open spec fn word_left(c: Seq<Cell>, col: int, cols: int) -> int
    decreases col,
{
    if 0 < col < cols && same_word(c, col - 1) {
        word_left(c, col - 1, cols)
    } else {
        col
    }
}

/// Where the word that holds a column ends.
pub open spec fn word_right(c: Seq<Cell>, col: int, cols: int) -> int
    decreases cols - col,
{
    if col < cols - 1 && same_word(c, col) {
        word_right(c, col + 1, cols)
    } else {
        col
    }
}

/// A screen has a row for each line, all of its width, and in every row the
/// cells of a wide character point back to it.
pub open spec fn is_grid(lines: Seq<Line>, size: TerminalSize) -> bool {
    &&& lines.len() == size.rows
    &&& forall|i: int| 0 <= i < lines.len() ==> (#[trigger] lines[i])@.len() == size.cols
    &&& forall|i: int, j: int|
        0 <= i < lines.len() && 0 <= j < size.cols ==> (#[trigger] lines[i]@[j]).backlink <= j
}

/// Whether the lines make up a screen of a size.
pub fn fills_screen(lines: &Vec<Line>, size: TerminalSize) -> (r: bool)
    ensures
        r == is_grid(lines@, size),
{
    if lines.len() != size.rows {
        return false;
    }
    let mut i: usize = 0;
    while i < lines.len()
        invariant
            i <= lines.len(),
            lines.len() == size.rows,
            forall|k: int| 0 <= k < i ==> (#[trigger] lines[k])@.len() == size.cols,
            forall|k: int, j: int|
                0 <= k < i && 0 <= j < size.cols ==> (#[trigger] lines[k]@[j]).backlink <= j,
        decreases lines.len() - i,
    {
        let cells = lines[i].iter();
        if cells.len() != size.cols {
            assert(lines[i as int]@.len() != size.cols);
            return false;
        }
        let mut j: usize = 0;
        while j < cells.len()
            invariant
                j <= cells.len(),
                i < lines.len(),
                cells@ == lines[i as int]@,
                cells.len() == size.cols,
                forall|k: int| 0 <= k < j ==> (#[trigger] lines[i as int]@[k]).backlink <= k,
            decreases cells.len() - j,
        {
            if cells[j].backlink as usize > j {
                assert(lines[i as int]@[j as int].backlink > j);
                return false;
            }
            j += 1;
        }
        i += 1;
    }
    true
}

/// The selection between two cells in reading order, after a number of
/// clicks: two take whole words, more take whole rows.
pub open spec fn linear_selection(
    lines: Seq<Line>,
    cols: nat,
    clicks: nat,
    from: (int, int),
    to: (int, int),
) -> Option<Selection> {
    let backward = to.0 < from.0 || (to.0 == from.0 && to.1 < from.1);
    let (s, e) = if backward {
        (to, from)
    } else {
        (from, to)
    };
    let last = if e.1 > 0 {
        e.1 - 1
    } else {
        0
    };
    let (s_col, e_col) = if clicks == 1 {
        (s.1, last)
    } else if clicks == 2 {
        (
            word_left(lines[s.0]@, s.1, cols as int),
            word_right(lines[e.0]@, last, cols as int),
        )
    } else {
        (0, cols - 1)
    };
    let l = s.0 * cols + s_col;
    let r = e.0 * cols + e_col;
    if l <= r {
        Some(Selection::Linear { left: l as usize, right: r as usize })
    } else {
        None
    }
}

/// The selection of the columns between two cells in the rows between them.
pub open spec fn block_selection(from: (int, int), to: (int, int)) -> Option<Selection> {
    let (top, bottom) = if from.0 < to.0 {
        (from.0, to.0)
    } else {
        (to.0, from.0)
    };
    let (left, edge) = if from.1 < to.1 {
        (from.1, to.1)
    } else {
        (to.1, from.1)
    };
    let right = if edge > 0 {
        edge - 1
    } else {
        0
    };
    if left <= right {
        Some(
            Selection::Block {
                top: top as usize,
                bottom: bottom as usize,
                left: left as usize,
                right: right as usize,
            },
        )
    } else {
        None
    }
}

/// What a drag selects: nothing where both its ends have been scrolled off
/// the same edge of the screen.
pub open spec fn selected(d: Drag, cell: CellSize, size: TerminalSize, lines: Seq<Line>) -> Option<
    Selection,
> {
    let rows = size.rows as int;
    let s = row_now(d.start_y as int, cell.h, size.rows as nat, d.start_offset as int, d.offset as int);
    let e = row_now(d.end_y as int, cell.h, size.rows as nat, d.end_offset as int, d.offset as int);
    if (s < 0 && e < 0) || (s >= rows && e >= rows) {
        None
    } else {
        let from = (clamped(s, rows - 1), near_col(d.start_x as int, cell.w, size.cols as nat) as int);
        let to = (clamped(e, rows - 1), near_col(d.end_x as int, cell.w, size.cols as nat) as int);
        if d.block {
            block_selection(from, to)
        } else {
            linear_selection(lines, size.cols as nat, d.clicks as nat, from, to)
        }
    }
}

fn column_near(x: i64, cell_w: u32, cols: usize) -> (r: usize)
    requires
        cell_w > 0,
        x <= i64::MAX / 2,
        cols <= u32::MAX,
    ensures
        r == near_col(x as int, cell_w, cols as nat),
        r <= cols,
{
    if x < 0 {
        0
    } else {
        let n: i64 = (x + cell_w as i64) / (2 * cell_w as i64);
        if n < cols as i64 {
            n as usize
        } else {
            cols
        }
    }
}

fn clamp_row(x: i64, top: i64) -> (r: i64)
    ensures
        r == clamped(x as int, top as int),
{
    if x < 0 {
        0
    } else if x > top {
        top
    } else {
        x
    }
}

fn current_row(y: i64, cell_h: u32, rows: usize, then: u32, offset: u32) -> (r: i64)
    requires
        cell_h > 0,
        1 <= rows <= u32::MAX,
    ensures
        r == row_now(y as int, cell_h, rows as nat, then as int, offset as int),
        -0x1_0000_0000 <= r <= 0x2_0000_0000,
{
    let h: i64 = 2 * cell_h as i64;
    let raw: i64 = if y >= 0 {
        y / h
    } else {
        // A position above the upper edge counts as the first row.
        -1
    };
    proof {
        if y < 0 {
            assert(y as int / h as int <= -1) by (nonlinear_arith)
                requires
                    y < 0,
                    h >= 1,
            ;
        }
    }
    clamp_row(raw, rows as i64 - 1) - then as i64 + offset as i64
}

fn find_word_left(line: &Line, col: usize, cols: usize) -> (r: usize)
    requires
        line@.len() == cols,
        forall|j: int| 0 <= j < cols ==> (#[trigger] line@[j]).backlink <= j,
    ensures
        r == word_left(line@, col as int, cols as int),
        r <= col,
{
    let mut at = col;
    while 0 < at && at < cols
        invariant
            line@.len() == cols,
            at <= col,
            forall|j: int| 0 <= j < cols ==> (#[trigger] line@[j]).backlink <= j,
            word_left(line@, at as int, cols as int) == word_left(line@, col as int, cols as int),
        decreases at,
    {
        assert(line@[at as int].backlink <= at);
        assert(line@[at - 1].backlink <= at - 1);
        if let (Some(prev), Some(curr)) = (line.get(at - 1), line.get(at)) {
            if is_delimiter(prev.ch) || is_delimiter(curr.ch) {
                return at;
            }
        }
        at -= 1;
    }
    at
}

fn find_word_right(line: &Line, col: usize, cols: usize) -> (r: usize)
    requires
        line@.len() == cols,
        col < cols,
        forall|j: int| 0 <= j < cols ==> (#[trigger] line@[j]).backlink <= j,
    ensures
        r == word_right(line@, col as int, cols as int),
        col <= r < cols,
{
    let mut at = col;
    while at < cols - 1
        invariant
            line@.len() == cols,
            col <= at < cols,
            forall|j: int| 0 <= j < cols ==> (#[trigger] line@[j]).backlink <= j,
            word_right(line@, at as int, cols as int) == word_right(line@, col as int, cols as int),
        decreases cols - at,
    {
        assert(line@[at as int].backlink <= at);
        assert(line@[at + 1].backlink <= at + 1);
        if let (Some(prev), Some(curr)) = (line.get(at), line.get(at + 1)) {
            if is_delimiter(prev.ch) || is_delimiter(curr.ch) {
                return at;
            }
        }
        at += 1;
    }
    at
}

/// What a drag selects on a screen.
pub fn selection_of(d: Drag, cell: CellSize, size: TerminalSize, lines: &Vec<Line>) -> (r: Option<
    Selection,
>)
    requires
        cell.w > 0,
        cell.h > 0,
        1 <= size.rows <= u32::MAX,
        1 <= size.cols <= u32::MAX,
        size.rows * size.cols <= usize::MAX,
        d.start_x <= i64::MAX / 2,
        d.end_x <= i64::MAX / 2,
        d.clicks == 2 && !d.block ==> is_grid(lines@, size),
    ensures
        r == selected(d, cell, size, lines@),
{
    let rows = size.rows as i64;
    let cols = size.cols;
    let s_col = column_near(d.start_x, cell.w, cols);
    let e_col = column_near(d.end_x, cell.w, cols);
    let s_now = current_row(d.start_y, cell.h, size.rows, d.start_offset, d.offset);
    let e_now = current_row(d.end_y, cell.h, size.rows, d.end_offset, d.offset);
    if (s_now < 0 && e_now < 0) || (s_now >= rows && e_now >= rows) {
        return None;
    }
    let s_row = clamp_row(s_now, rows - 1) as usize;
    let e_row = clamp_row(e_now, rows - 1) as usize;
    if d.block {
        let (top, bottom) = if s_row < e_row {
            (s_row, e_row)
        } else {
            (e_row, s_row)
        };
        let (left, edge) = if s_col < e_col {
            (s_col, e_col)
        } else {
            (e_col, s_col)
        };
        let right = edge.saturating_sub(1);
        if left <= right {
            Some(Selection::Block { top, bottom, left, right })
        } else {
            None
        }
    } else {
        let backward = e_row < s_row || (e_row == s_row && e_col < s_col);
        let (s_row, s_col, e_row, e_col) = if backward {
            (e_row, e_col, s_row, s_col)
        } else {
            (s_row, s_col, e_row, e_col)
        };
        let last = e_col.saturating_sub(1);
        let (s_col, e_col) = match d.clicks {
            1 => (s_col, last),
            2 => {
                assert forall|j: int| 0 <= j < cols implies (#[trigger] lines[s_row as int]@[j]).backlink
                    <= j by {}
                assert forall|j: int| 0 <= j < cols implies (#[trigger] lines[e_row as int]@[j]).backlink
                    <= j by {}
                (
                    find_word_left(&lines[s_row], s_col, cols),
                    find_word_right(&lines[e_row], last, cols),
                )
            },
            _ => (0, cols - 1),
        };
        proof {
            let rows = size.rows as int;
            assert(s_row * cols + s_col <= rows * cols) by (nonlinear_arith)
                requires
                    0 <= s_row <= rows - 1,
                    0 <= s_col <= cols,
            ;
            assert(e_row * cols + e_col <= rows * cols) by (nonlinear_arith)
                requires
                    0 <= e_row <= rows - 1,
                    0 <= e_col <= cols,
            ;
            assert(s_row * cols >= 0 && e_row * cols >= 0) by (nonlinear_arith)
                requires
                    0 <= s_row,
                    0 <= e_row,
                    0 <= cols,
            ;
        }
        let l = s_row * cols + s_col;
        let r = e_row * cols + e_col;
        if l <= r {
            Some(Selection::Linear { left: l, right: r })
        } else {
            None
        }
    }
}

/// Whether a cell of a screen is selected.
pub open spec fn holds_cell(s: Option<Selection>, row: int, col: int, cols: int) -> bool {
    match s {
        None => false,
        Some(Selection::Linear { left, right }) => left <= row * cols + col <= right,
        Some(Selection::Block { top, bottom, left, right }) => top <= row <= bottom && left <= col
            <= right,
    }
}

/// Whether a cell of a screen is selected.
pub fn is_selected(s: Option<Selection>, row: usize, col: usize, cols: usize) -> (r: bool)
    requires
        row * cols + col <= usize::MAX,
    ensures
        r == holds_cell(s, row as int, col as int, cols as int),
{
    match s {
        None => false,
        Some(Selection::Linear { left, right }) => {
            proof {
                assert(row * cols >= 0) by (nonlinear_arith)
                    requires
                        row >= 0,
                        cols >= 0,
                ;
            }
            let at = row * cols + col;
            left <= at && at <= right
        },
        Some(Selection::Block { top, bottom, left, right }) => top <= row && row <= bottom && left
            <= col && col <= right,
    }
}

} // verus!
