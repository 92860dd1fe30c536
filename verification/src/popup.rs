//! Rows of an exact width, and boxes laid over them.

use crate::file_style::DIR_FG;
use crate::rows::{lesser, sat_sub};
use crate::styled::{lay, push_glyph, Laying};
use crate::terminal::{head_cell, plain_attr, rows, Cell, Color, GraphicAttribute, Line};
use crate::text::chars_of;
use crate::width::{char_columns, counted, display_width, width_sum};
use vstd::prelude::*;
use vstd::string::*;

verus! {

/// The attribute of text in a colour on another.
pub open spec fn on_color(fg: Color, bg: Color) -> GraphicAttribute {
    GraphicAttribute { fg, bg, ..plain_attr() }
}

/// The attribute of text in a colour on another.
pub fn color_attr(fg: Color, bg: Color) -> (r: GraphicAttribute)
    ensures
        r == on_color(fg, bg),
{
    let mut attr = GraphicAttribute::default();
    attr.fg = fg;
    attr.bg = bg;
    attr
}

/// Cells and then as much of a text, from its start, as fits.
pub open spec fn laid_onto(cells: Seq<Cell>, text: Seq<char>, attr: GraphicAttribute, cols: nat)
    -> Laying
    decreases text.len(),
{
    if text.len() == 0 {
        Laying { cells, full: false }
    } else {
        lay(laid_onto(cells, text.drop_last(), attr, cols), text.last(), attr, cols)
    }
}

/// Cells with `fill` behind them up to a width.
pub open spec fn filled(cells: Seq<Cell>, fill: Cell, width: nat) -> Seq<Cell> {
    if cells.len() < width {
        cells + Seq::new((width - cells.len()) as nat, |i: int| fill)
    } else {
        cells
    }
}

/// A text in a colour on another, cut or filled up to a width.
pub open spec fn column(text: Seq<char>, fg: Color, bg: Color, width: nat) -> Seq<Cell> {
    filled(
        laid_onto(Seq::empty(), text, on_color(fg, bg), width).cells,
        head_cell(' ', 1, on_color(fg, bg)),
        width,
    )
}

proof fn lemma_laid_onto_full(
    cells: Seq<Cell>,
    text: Seq<char>,
    attr: GraphicAttribute,
    cols: nat,
    k: int,
)
    requires
        0 <= k <= text.len(),
        laid_onto(cells, text.subrange(0, k), attr, cols).full,
    ensures
        laid_onto(cells, text, attr, cols) == laid_onto(cells, text.subrange(0, k), attr, cols),
    decreases text.len() - k,
{
    if k < text.len() {
        assert(text.subrange(0, k + 1).drop_last() =~= text.subrange(0, k));
        lemma_laid_onto_full(cells, text, attr, cols, k + 1);
    } else {
        assert(text.subrange(0, k) =~= text);
    }
}

/// Adds as much of a text as fits.
fn lay_text(cells: &mut Vec<Cell>, text: &str, attr: GraphicAttribute, cols: usize)
    requires
        old(cells).len() <= cols,
    ensures
        final(cells)@ == laid_onto(old(cells)@, text@, attr, cols as nat).cells,
        final(cells).len() <= cols,
{
    let ghost start = cells@;
    let cs = chars_of(text);
    let mut i: usize = 0;
    assert(cs@.subrange(0, 0) =~= Seq::empty());
    while i < cs.len()
        invariant
            i <= cs.len(),
            cs@ == text@,
            start == old(cells)@,
            cells.len() <= cols,
            laid_onto(start, cs@.subrange(0, i as int), attr, cols as nat) == (Laying {
                cells: cells@,
                full: false,
            }),
        decreases cs.len() - i,
    {
        let ch = cs[i];
        let w = char_columns(ch);
        proof {
            assert(cs@.subrange(0, i + 1).drop_last() =~= cs@.subrange(0, i as int));
            assert(cs@.subrange(0, i + 1).last() == ch);
        }
        if w == 0 || w > cols - cells.len() {
            proof {
                lemma_laid_onto_full(start, cs@, attr, cols as nat, i + 1);
            }
            return;
        }
        push_glyph(cells, ch, w, attr);
        i += 1;
    }
    assert(cs@.subrange(0, i as int) =~= cs@);
}

/// Fills a row up to a width.
fn fill_up(cells: &mut Vec<Cell>, fill: Cell, width: usize)
    ensures
        final(cells)@ == filled(old(cells)@, fill, width as nat),
{
    let ghost start = cells@;
    while cells.len() < width
        invariant
            cells.len() <= width || cells@ == start,
            start.len() <= cells.len(),
            cells@ == start + Seq::new((cells.len() - start.len()) as nat, |i: int| fill),
        decreases width - cells.len(),
    {
        let ghost n = cells.len();
        cells.push(fill);
        assert(cells@ =~= start + Seq::new((n + 1 - start.len()) as nat, |i: int| fill));
    }
    assert(cells@ =~= filled(start, fill, width as nat));
}

/// A text in a colour on another, cut or filled up to a width.
pub fn column_cells(text: &str, fg: Color, bg: Color, width: usize) -> (r: Vec<Cell>)
    ensures
        r@ == column(text@, fg, bg, width as nat),
        r.len() == width,
{
    let attr = color_attr(fg, bg);
    let mut cells: Vec<Cell> = Vec::new();
    assert(cells@ =~= Seq::empty());
    lay_text(&mut cells, text, attr, width);
    fill_up(&mut cells, Cell::head(' ', 1, attr), width);
    cells
}

/// A row has exactly the width it was made for.
pub proof fn law_column_width(text: Seq<char>, fg: Color, bg: Color, width: nat)
    ensures
        column(text, fg, bg, width).len() == width,
{
    lemma_laid_onto_fits(Seq::empty(), text, on_color(fg, bg), width);
}

proof fn lemma_laid_onto_fits(cells: Seq<Cell>, text: Seq<char>, attr: GraphicAttribute, cols: nat)
    requires
        cells.len() <= cols,
    ensures
        laid_onto(cells, text, attr, cols).cells.len() <= cols,
    decreases text.len(),
{
    if text.len() > 0 {
        lemma_laid_onto_fits(cells, text.drop_last(), attr, cols);
    }
}

/// The cells of the first `n` coloured texts, each as far as it fits.
pub open spec fn segs_laid(segs: Seq<(Seq<char>, Color)>, cols: nat, n: int) -> Seq<Cell>
    decreases n,
{
    if n <= 0 {
        Seq::empty()
    } else {
        laid_onto(
            segs_laid(segs, cols, n - 1),
            segs[n - 1].0,
            on_color(segs[n - 1].1, Color::Background),
            cols,
        ).cells
    }
}

/// A row of coloured texts, filled up to its width.
pub open spec fn segments_row(segs: Seq<(Seq<char>, Color)>, cols: nat) -> Seq<Cell> {
    filled(
        segs_laid(segs, cols, segs.len() as int),
        head_cell(' ', 1, on_color(Color::Foreground, Color::Background)),
        cols,
    )
}

/// A row of coloured texts, filled up to its width.
pub fn segments_line(cols: usize, segs: &Vec<(String, Color)>) -> (r: Line)
    ensures
        r@ == segments_row(crate::rows::seg_views(segs@), cols as nat),
{
    let ghost sv = crate::rows::seg_views(segs@);
    let mut cells: Vec<Cell> = Vec::new();
    let mut i: usize = 0;
    assert(cells@ =~= Seq::empty());
    while i < segs.len()
        invariant
            i <= segs.len(),
            sv == crate::rows::seg_views(segs@),
            cells.len() <= cols,
            cells@ == segs_laid(sv, cols as nat, i as int),
        decreases segs.len() - i,
    {
        lay_text(
            &mut cells,
            segs[i].0.as_str(),
            color_attr(segs[i].1, Color::Background),
            cols,
        );
        i += 1;
    }
    fill_up(&mut cells, Cell::head(' ', 1, color_attr(Color::Foreground, Color::Background)), cols);
    Line::from_cells(cells, false)
}

/// A row with text in one colour.
pub fn text_line(cols: usize, text: &str, fg: Color) -> (r: Line)
    ensures
        r@ == column(text@, fg, Color::Background, cols as nat),
{
    Line::from_cells(column_cells(text, fg, Color::Background, cols), false)
}

/// A cell of a box's border.
pub open spec fn border(ch: char, panel: Color) -> Cell {
    head_cell(ch, 1, on_color(DIR_FG, panel))
}

/// A cell of a box's border.
pub fn border_cell(ch: char, panel: Color) -> (r: Cell)
    ensures
        r == border(ch, panel),
{
    Cell::head(ch, 1, color_attr(DIR_FG, panel))
}

/// The upper or lower border of a box.
pub open spec fn border_cells(left: char, right: char, dash: nat, panel: Color) -> Seq<Cell> {
    seq![border(left, panel)] + Seq::new(dash, |i: int| border('─', panel)) + seq![
        border(right, panel),
    ]
}

/// The upper or lower border of a box.
pub fn border_row(left: char, right: char, dash: usize, panel: Color) -> (r: Vec<Cell>)
    ensures
        r@ == border_cells(left, right, dash as nat, panel),
{
    let mut cells: Vec<Cell> = Vec::new();
    cells.push(border_cell(left, panel));
    let mut i: usize = 0;
    while i < dash
        invariant
            i <= dash,
            cells@ == seq![border(left, panel)] + Seq::new(i as nat, |k: int| border('─', panel)),
        decreases dash - i,
    {
        cells.push(border_cell('─', panel));
        assert(cells@ =~= seq![border(left, panel)] + Seq::new(
            (i + 1) as nat,
            |k: int| border('─', panel),
        ));
        i += 1;
    }
    cells.push(border_cell(right, panel));
    assert(cells@ =~= border_cells(left, right, dash as nat, panel));
    cells
}

/// A row with cells written over it from a column on, as far as it goes.
pub open spec fn stamped(row: Seq<Cell>, x0: int, cells: Seq<Cell>) -> Seq<Cell> {
    Seq::new(
        row.len(),
        |i: int|
            if x0 <= i < x0 + cells.len() {
                cells[i - x0]
            } else {
                row[i]
            },
    )
}

/// Rows with cells written over one of them, if it is there.
pub open spec fn stamped_rows(r: Seq<Seq<Cell>>, y: int, x0: int, cells: Seq<Cell>) -> Seq<
    Seq<Cell>,
> {
    if 0 <= y < r.len() {
        r.update(y, stamped(r[y], x0, cells))
    } else {
        r
    }
}

/// Writes cells over a row from a column on.
pub fn stamp(lines: &mut Vec<Line>, y: usize, x0: usize, cells: &Vec<Cell>)
    ensures
        rows(final(lines)@) == stamped_rows(rows(old(lines)@), y as int, x0 as int, cells@),
{
    if y >= lines.len() {
        return;
    }
    let ghost before = rows(lines@);
    let mut row = lines[y].iter();
    let n = row.len();
    let mut i: usize = 0;
    while i < cells.len() && x0 < n && i < n - x0
        invariant
            i <= cells.len(),
            x0 < n ==> i <= n - x0,
            x0 >= n ==> i == 0,
            n == row.len(),
            n == before[y as int].len(),
            forall|k: int|
                0 <= k < n ==> row@[k] == (if x0 <= k < x0 + i {
                    cells@[k - x0]
                } else {
                    before[y as int][k]
                }),
        decreases cells.len() - i,
    {
        row[x0 + i] = cells[i];
        i += 1;
    }
    assert(row@ =~= stamped(before[y as int], x0 as int, cells@));
    lines[y] = Line::from_cells(row, false);
    assert(rows(lines@) =~= before.update(y as int, row@));
}

// ---------------------------------------------------------------------------
// Boxes
// ---------------------------------------------------------------------------

/// A line of a box: its text, and its colour on another.
pub struct BoxLine {
    pub text: String,
    pub fg: Color,
    pub bg: Color,
}

/// The contents of lines of a box.
pub open spec fn box_views(v: Seq<BoxLine>) -> Seq<(Seq<char>, Color, Color)> {
    Seq::new(v.len(), |i: int| (v[i].text@, v[i].fg, v[i].bg))
}

/// The width of the widest of the first `n` lines.
pub open spec fn widest(c: Seq<(Seq<char>, Color, Color)>, n: int) -> nat
    decreases n,
{
    if n <= 0 {
        0
    } else {
        let w = counted(width_sum(c[n - 1].0));
        let before = widest(c, n - 1);
        if w > before {
            w
        } else {
            before
        }
    }
}

/// The width of the text in a box: that of its widest line, at least ten, and
/// no more than the screen has room for.
pub open spec fn inner_width(c: Seq<(Seq<char>, Color, Color)>, cols: nat) -> nat {
    let w = widest(c, c.len() as int);
    let max = if sat_sub(cols, 6) < 10 {
        10
    } else {
        sat_sub(cols, 6)
    };
    if w < 10 {
        10
    } else if w > max {
        max
    } else {
        w
    }
}

/// Where a box stands and how big it is.
pub ghost struct BoxPlace {
    pub interior: nat,
    pub w: nat,
    pub h: nat,
    pub x0: nat,
    pub y0: nat,
    pub dash: nat,
}

/// A box in the middle of the screen.
pub open spec fn box_place(c: Seq<(Seq<char>, Color, Color)>, cols: nat, lines: nat) -> BoxPlace {
    let interior = inner_width(c, cols) + 2;
    let w = lesser(interior + 2, cols);
    let h = lesser(c.len() + 2, lines);
    BoxPlace {
        interior,
        w,
        h,
        x0: sat_sub(cols, w) / 2,
        y0: sat_sub(lines, h) / 2,
        dash: lesser(interior, sat_sub(w, 2)),
    }
}

/// A line of a box with its borders.
pub open spec fn box_row(line: (Seq<char>, Color, Color), interior: nat, panel: Color) -> Seq<Cell> {
    seq![border('│', panel)] + column(" "@ + line.0, line.1, line.2, interior) + seq![
        border('│', panel),
    ]
}

/// Rows with the first `n` lines of a box written over them, as far as they
/// stand above its lower border.
pub open spec fn box_lines(
    r: Seq<Seq<Cell>>,
    c: Seq<(Seq<char>, Color, Color)>,
    p: BoxPlace,
    panel: Color,
    n: int,
) -> Seq<Seq<Cell>>
    decreases n,
{
    if n <= 0 {
        r
    } else {
        let before = box_lines(r, c, p, panel, n - 1);
        if p.y0 + n >= p.y0 + p.h - 1 {
            before
        } else {
            stamped_rows(before, p.y0 + n, p.x0 as int, box_row(c[n - 1], p.interior, panel))
        }
    }
}

/// Rows with a box in their middle.
pub open spec fn boxed(
    r: Seq<Seq<Cell>>,
    c: Seq<(Seq<char>, Color, Color)>,
    cols: nat,
    lines: nat,
    panel: Color,
) -> Seq<Seq<Cell>> {
    let p = box_place(c, cols, lines);
    let top = stamped_rows(r, p.y0 as int, p.x0 as int, border_cells('╭', '╮', p.dash, panel));
    stamped_rows(
        box_lines(top, c, p, panel, c.len() as int),
        p.y0 + p.h - 1,
        p.x0 as int,
        border_cells('╰', '╯', p.dash, panel),
    )
}

proof fn lemma_box_lines_stop(
    r: Seq<Seq<Cell>>,
    c: Seq<(Seq<char>, Color, Color)>,
    p: BoxPlace,
    panel: Color,
    k: int,
    n: int,
)
    requires
        0 <= k <= n,
        k + 1 >= p.h - 1,
    ensures
        box_lines(r, c, p, panel, n) == box_lines(r, c, p, panel, k),
    decreases n - k,
{
    if k < n {
        lemma_box_lines_stop(r, c, p, panel, k, n - 1);
    }
}

/// Writes a box over the middle of the screen.
pub fn overlay_box(lines: &mut Vec<Line>, content: &Vec<BoxLine>, cols: usize, count: usize, panel: Color)
    requires
        1 <= count,
        cols <= 0xffff_ffff,
        content.len() < 0x7fff_ffff,
    ensures
        rows(final(lines)@) == boxed(
            rows(old(lines)@),
            box_views(content@),
            cols as nat,
            count as nat,
            panel,
        ),
{
    let ghost c = box_views(content@);
    let ghost r0 = rows(lines@);
    let mut wide: usize = 0;
    let mut k: usize = 0;
    while k < content.len()
        invariant
            k <= content.len(),
            c == box_views(content@),
            wide == widest(c, k as int),
        decreases content.len() - k,
    {
        let w = display_width(content[k].text.as_str());
        if w > wide {
            wide = w;
        }
        k += 1;
    }
    let max: usize = if cols.saturating_sub(6) < 10 {
        10
    } else {
        cols.saturating_sub(6)
    };
    let inner: usize = if wide < 10 {
        10
    } else if wide > max {
        max
    } else {
        wide
    };
    assert(inner == inner_width(c, cols as nat));
    let interior = inner + 2;
    let box_w: usize = if interior + 2 < cols {
        interior + 2
    } else {
        cols
    };
    let box_h: usize = if content.len() + 2 < count {
        content.len() + 2
    } else {
        count
    };
    let x0 = cols.saturating_sub(box_w) / 2;
    let y0 = count.saturating_sub(box_h) / 2;
    let dash: usize = if interior < box_w.saturating_sub(2) {
        interior
    } else {
        box_w.saturating_sub(2)
    };
    let ghost p = box_place(c, cols as nat, count as nat);
    assert(p == (BoxPlace {
        interior: interior as nat,
        w: box_w as nat,
        h: box_h as nat,
        x0: x0 as nat,
        y0: y0 as nat,
        dash: dash as nat,
    }));
    let top = border_row('╭', '╮', dash, panel);
    stamp(lines, y0, x0, &top);
    let ghost topped = rows(lines@);
    let mut i: usize = 0;
    while i < content.len() && i + 2 < box_h
        invariant
            i <= content.len(),
            content.len() < 0x7fff_ffff,
            c == box_views(content@),
            p == (BoxPlace {
                interior: interior as nat,
                w: box_w as nat,
                h: box_h as nat,
                x0: x0 as nat,
                y0: y0 as nat,
                dash: dash as nat,
            }),
            y0 + box_h <= count,
            rows(lines@) == box_lines(topped, c, p, panel, i as int),
        decreases content.len() - i,
    {
        let line = &content[i];
        let mut text = " ".to_owned();
        text.append(line.text.as_str());
        let mut inside = column_cells(text.as_str(), line.fg, line.bg, interior);
        let ghost iv = inside@;
        let mut row: Vec<Cell> = Vec::new();
        row.push(border_cell('│', panel));
        row.append(&mut inside);
        row.push(border_cell('│', panel));
        proof {
            assert(c[i as int] == (line.text@, line.fg, line.bg));
            assert(row@ =~= box_row(c[i as int], p.interior, panel));
        }
        stamp(lines, y0 + 1 + i, x0, &row);
        i += 1;
    }
    proof {
        if i < content.len() {
            lemma_box_lines_stop(topped, c, p, panel, i as int, c.len() as int);
        }
    }
    let bottom = border_row('╰', '╯', dash, panel);
    stamp(lines, y0 + (box_h - 1), x0, &bottom);
}

} // verus!
