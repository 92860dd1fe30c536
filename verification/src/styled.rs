//! Text with colours, laid out in cells and broken into rows.

use crate::terminal::{
    covers, fits, head_cell, head_pos, linked, linked_at, plain_attr, spacer_cell, Cell, Color,
    GraphicAttribute,
};
use crate::text::{chars_of, string_of};
use crate::width::{char_columns, columns_of, counted};
use vstd::prelude::*;
use vstd::string::*;

verus! {

/// The colour and weight of text.
#[derive(Debug, Clone, Copy, PartialEq, Eq, Structural)]
pub struct TextStyle {
    pub fg: Color,
    pub bold: bool,
}

/// A run of text in one style.
#[derive(Debug)]
pub struct StyledSegment {
    pub text: String,
    pub style: TextStyle,
}

/// A line of text in several styles.
pub type StyledLine = Vec<StyledSegment>;

/// The contents of a segment.
pub ghost struct Span {
    pub text: Seq<char>,
    pub style: TextStyle,
}

impl View for StyledSegment {
    type V = Span;

    open spec fn view(&self) -> Span {
        Span { text: self.text@, style: self.style }
    }
}

impl Clone for StyledSegment {
    fn clone(&self) -> (r: Self)
        ensures
            r@ == self@,
    {
        StyledSegment { text: self.text.clone(), style: self.style }
    }
}

/// The contents of a line.
pub open spec fn spans(line: Seq<StyledSegment>) -> Seq<Span> {
    Seq::new(line.len(), |i: int| line[i]@)
}

/// The contents of lines.
pub open spec fn spans_of(lines: Seq<StyledLine>) -> Seq<Seq<Span>> {
    Seq::new(lines.len(), |i: int| spans(lines[i]@))
}

/// One segment in a style that is not bold.
pub open spec fn plain_span(text: Seq<char>, fg: Color) -> Span {
    Span { text, style: TextStyle { fg, bold: false } }
}

/// A line of one segment.
pub open spec fn plain_line(text: Seq<char>, fg: Color) -> Seq<Span> {
    seq![plain_span(text, fg)]
}

/// A line of one segment.
pub fn styled_plain(text: String, fg: Color) -> (r: StyledLine)
    ensures
        spans(r@) == plain_line(text@, fg),
{
    let mut line: StyledLine = Vec::new();
    line.push(StyledSegment { text, style: TextStyle { fg, bold: false } });
    assert(spans(line@) =~= plain_line(line[0].text@, fg));
    line
}

pub proof fn lemma_spans_push(line: Seq<StyledSegment>, s: StyledSegment)
    ensures
        spans(line.push(s)) == spans(line).push(s@),
{
    assert(spans(line.push(s)) =~= spans(line).push(s@));
}

pub proof fn lemma_spans_of_push(lines: Seq<StyledLine>, l: StyledLine)
    ensures
        spans_of(lines.push(l)) == spans_of(lines).push(spans(l@)),
{
    assert(spans_of(lines.push(l)) =~= spans_of(lines).push(spans(l@)));
}

/// A copy of a line.
pub fn copy_line(line: &StyledLine) -> (r: StyledLine)
    ensures
        spans(r@) == spans(line@),
{
    let mut out: StyledLine = Vec::new();
    let mut i: usize = 0;
    while i < line.len()
        invariant
            i <= line.len(),
            out.len() == i,
            forall|k: int| 0 <= k < i ==> (#[trigger] out[k])@ == line[k]@,
        decreases line.len() - i,
    {
        out.push(line[i].clone());
        i += 1;
    }
    assert(spans(out@) =~= spans(line@));
    out
}

/// A character with its style.
pub type Glyph = (char, TextStyle);

/// The characters of a segment with its style.
pub open spec fn glyphs_of(s: Span) -> Seq<(char, TextStyle)> {
    Seq::new(s.text.len(), |i: int| (s.text[i], s.style))
}

/// The characters of a line with their styles.
pub open spec fn glyphs(line: Seq<Span>) -> Seq<(char, TextStyle)>
    decreases line.len(),
{
    if line.len() == 0 {
        Seq::empty()
    } else {
        glyphs(line.drop_last()) + glyphs_of(line.last())
    }
}

/// The characters of a line with their styles.
pub fn line_glyphs(line: &StyledLine) -> (r: Vec<(char, TextStyle)>)
    ensures
        r@ == glyphs(spans(line@)),
{
    let ghost all = spans(line@);
    let mut out: Vec<(char, TextStyle)> = Vec::new();
    let mut i: usize = 0;
    assert(all.subrange(0, 0) =~= Seq::empty());
    while i < line.len()
        invariant
            i <= line.len(),
            all == spans(line@),
            out@ == glyphs(all.subrange(0, i as int)),
        decreases line.len() - i,
    {
        let cs = chars_of(line[i].text.as_str());
        let style = line[i].style;
        let ghost before = out@;
        let ghost g = glyphs_of(all[i as int]);
        let mut k: usize = 0;
        assert(before + g.subrange(0, 0) =~= before);
        while k < cs.len()
            invariant
                k <= cs.len(),
                cs@ == all[i as int].text,
                style == all[i as int].style,
                g == glyphs_of(all[i as int]),
                out@ == before + g.subrange(0, k as int),
            decreases cs.len() - k,
        {
            out.push((cs[k], style));
            assert(g.subrange(0, k + 1) =~= g.subrange(0, k as int).push((cs[k as int], style)));
            assert(out@ =~= before + g.subrange(0, k + 1));
            k += 1;
        }
        proof {
            assert(g.subrange(0, k as int) =~= g);
            assert(all.subrange(0, i + 1).drop_last() =~= all.subrange(0, i as int));
            assert(all.subrange(0, i + 1).last() == all[i as int]);
        }
        i += 1;
    }
    assert(all.subrange(0, i as int) =~= all);
    out
}

/// The columns a line takes.
pub open spec fn glyph_width(g: Seq<(char, TextStyle)>) -> nat
    decreases g.len(),
{
    if g.len() == 0 {
        0
    } else {
        glyph_width(g.drop_last()) + columns_of(g.last().0)
    }
}

/// The columns a line takes.
pub fn styled_width(line: &StyledLine) -> (r: usize)
    ensures
        r == counted(glyph_width(glyphs(spans(line@)))),
{
    let g = line_glyphs(line);
    let mut sum: usize = 0;
    let mut i: usize = 0;
    assert(g@.subrange(0, 0) =~= Seq::empty());
    while i < g.len()
        invariant
            i <= g.len(),
            sum == counted(glyph_width(g@.subrange(0, i as int))),
        decreases g.len() - i,
    {
        proof {
            assert(g@.subrange(0, i + 1).drop_last() =~= g@.subrange(0, i as int));
            assert(g@.subrange(0, i + 1).last() == g@[i as int]);
        }
        sum = sum.saturating_add(char_columns(g[i].0));
        i += 1;
    }
    assert(g@.subrange(0, i as int) =~= g@);
    sum
}

// ---------------------------------------------------------------------------
// Cells
// ---------------------------------------------------------------------------

/// The attribute of text in a style.
pub open spec fn style_attr(style: TextStyle) -> GraphicAttribute {
    GraphicAttribute {
        fg: style.fg,
        bold: if style.bold {
            1i8
        } else {
            0i8
        },
        ..plain_attr()
    }
}

/// The cells a character takes: its head and a spacer for every further column.
pub open spec fn glyph_cells(ch: char, attr: GraphicAttribute) -> Seq<Cell> {
    Seq::new(
        columns_of(ch),
        |i: int|
            if i == 0 {
                head_cell(ch, columns_of(ch) as u16, attr)
            } else {
                spacer_cell(i as u16)
            },
    )
}

/// A row being laid out: its cells, and whether it takes no more.
pub ghost struct Laying {
    pub cells: Seq<Cell>,
    pub full: bool,
}

/// A row after one more character. A character without a width, or one that
/// does not fit into `cols` columns, ends the row.
pub open spec fn lay(l: Laying, ch: char, attr: GraphicAttribute, cols: nat) -> Laying {
    if l.full || columns_of(ch) == 0 || l.cells.len() + columns_of(ch) > cols {
        Laying { full: true, ..l }
    } else {
        Laying { cells: l.cells + glyph_cells(ch, attr), full: false }
    }
}

/// The row that characters make.
pub open spec fn laid(g: Seq<(char, TextStyle)>, cols: nat) -> Laying
    decreases g.len(),
{
    if g.len() == 0 {
        Laying { cells: Seq::empty(), full: false }
    } else {
        lay(laid(g.drop_last(), cols), g.last().0, style_attr(g.last().1), cols)
    }
}

/// The cells of a line: as much of it, from its start, as fits.
pub open spec fn line_cells(line: Seq<Span>, cols: nat) -> Seq<Cell> {
    laid(glyphs(line), cols).cells
}

proof fn lemma_laid_full(g: Seq<(char, TextStyle)>, cols: nat, k: int)
    requires
        0 <= k <= g.len(),
        laid(g.subrange(0, k), cols).full,
    ensures
        laid(g, cols) == laid(g.subrange(0, k), cols),
    decreases g.len() - k,
{
    if k < g.len() {
        assert(g.subrange(0, k + 1).drop_last() =~= g.subrange(0, k));
        lemma_laid_full(g, cols, k + 1);
    } else {
        assert(g.subrange(0, k) =~= g);
    }
}

/// Adds the cells of a character to a row.
pub fn push_glyph(cells: &mut Vec<Cell>, ch: char, width: usize, attr: GraphicAttribute)
    requires
        width == columns_of(ch),
        1 <= width <= 3,
    ensures
        final(cells)@ == old(cells)@ + glyph_cells(ch, attr),
{
    let ghost before = cells@;
    cells.push(Cell::head(ch, width as u16, attr));
    let mut i: usize = 1;
    while i < width
        invariant
            1 <= i <= width <= 3,
            width == columns_of(ch),
            cells@ == before + glyph_cells(ch, attr).subrange(0, i as int),
        decreases width - i,
    {
        cells.push(Cell::spacer(i as u16));
        assert(cells@ =~= before + glyph_cells(ch, attr).subrange(0, i + 1));
        i += 1;
    }
    assert(glyph_cells(ch, attr).subrange(0, i as int) =~= glyph_cells(ch, attr));
}

/// The attribute of text in a style.
pub fn attr_of(style: TextStyle) -> (r: GraphicAttribute)
    ensures
        r == style_attr(style),
{
    let plain = GraphicAttribute::default();
    GraphicAttribute {
        fg: style.fg,
        bold: if style.bold {
            1
        } else {
            0
        },
        bg: plain.bg,
        inversed: plain.inversed,
        blinking: plain.blinking,
        concealed: plain.concealed,
    }
}

/// The cells of a line: as much of it, from its start, as fits.
pub fn cells_for_styled_line(line: &StyledLine, cols: usize) -> (r: Vec<Cell>)
    ensures
        r@ == line_cells(spans(line@), cols as nat),
        r.len() <= cols,
{
    let g = line_glyphs(line);
    let mut cells: Vec<Cell> = Vec::new();
    let mut i: usize = 0;
    assert(g@.subrange(0, 0) =~= Seq::empty());
    while i < g.len()
        invariant
            i <= g.len(),
            g@ == glyphs(spans(line@)),
            cells.len() <= cols,
            laid(g@.subrange(0, i as int), cols as nat) == (Laying { cells: cells@, full: false }),
        decreases g.len() - i,
    {
        let (ch, style) = g[i];
        let width = char_columns(ch);
        proof {
            assert(g@.subrange(0, i + 1).drop_last() =~= g@.subrange(0, i as int));
            assert(g@.subrange(0, i + 1).last() == g@[i as int]);
        }
        if width == 0 || width > cols - cells.len() {
            proof {
                lemma_laid_full(g@, cols as nat, i + 1);
            }
            return cells;
        }
        push_glyph(&mut cells, ch, width, attr_of(style));
        i += 1;
    }
    assert(g@.subrange(0, i as int) =~= g@);
    cells
}

/// The cells of a text in one colour.
pub fn cells_for_line(text: &str, cols: usize, fg: Color) -> (r: Vec<Cell>)
    ensures
        r@ == line_cells(plain_line(text@, fg), cols as nat),
        r.len() <= cols,
{
    let line = styled_plain(text.to_owned(), fg);
    cells_for_styled_line(&line, cols)
}

/// The cells of texts, each in its colour, one after the other.
pub fn cells_for_segments(segments: &Vec<(String, Color)>, cols: usize) -> (r: Vec<Cell>)
    ensures
        r@ == line_cells(
            Seq::new(
                segments@.len(),
                |i: int| plain_span(segments@[i].0@, segments@[i].1),
            ),
            cols as nat,
        ),
        r.len() <= cols,
{
    let mut line: StyledLine = Vec::new();
    let mut i: usize = 0;
    while i < segments.len()
        invariant
            i <= segments.len(),
            line.len() == i,
            forall|k: int|
                0 <= k < i ==> (#[trigger] line[k])@ == plain_span(segments@[k].0@, segments@[k].1),
        decreases segments.len() - i,
    {
        line.push(
            StyledSegment {
                text: segments[i].0.clone(),
                style: TextStyle { fg: segments[i].1, bold: false },
            },
        );
        i += 1;
    }
    assert(spans(line@) =~= Seq::new(
        segments@.len(),
        |i: int| plain_span(segments@[i].0@, segments@[i].1),
    ));
    cells_for_styled_line(&line, cols)
}

// ---------------------------------------------------------------------------
// Rows
// ---------------------------------------------------------------------------

/// Items being broken into rows: the finished rows, the row under way, and
/// the columns it takes.
pub ghost struct Wrapping<T> {
    pub done: Seq<Seq<T>>,
    pub row: Seq<T>,
    pub used: nat,
}

/// One more item of width `w`. An item without a width is left out; one that
/// does not fit into the row begins the next.
pub open spec fn wrap_one<T>(s: Wrapping<T>, item: T, w: nat, cols: nat) -> Wrapping<T> {
    if w == 0 {
        s
    } else if s.used > 0 && s.used + w > cols {
        Wrapping { done: s.done.push(s.row), row: seq![item], used: w }
    } else {
        Wrapping { done: s.done, row: s.row.push(item), used: s.used + w }
    }
}

/// Items broken into rows of `cols` columns.
pub open spec fn wrapping<T>(items: Seq<T>, width: spec_fn(T) -> nat, cols: nat) -> Wrapping<T>
    decreases items.len(),
{
    if items.len() == 0 {
        Wrapping { done: Seq::empty(), row: Seq::empty(), used: 0 }
    } else {
        wrap_one(wrapping(items.drop_last(), width, cols), items.last(), width(items.last()), cols)
    }
}

/// The rows that items make; one empty row where there is nothing to show.
pub open spec fn wrapped<T>(items: Seq<T>, width: spec_fn(T) -> nat, cols: nat) -> Seq<Seq<T>> {
    wrapping(items, width, cols).done.push(wrapping(items, width, cols).row)
}

/// At least one column.
pub open spec fn some_cols(cols: nat) -> nat {
    if cols == 0 {
        1
    } else {
        cols
    }
}

/// The rows of a text.
pub open spec fn text_rows(line: Seq<char>, cols: nat) -> Seq<Seq<char>> {
    wrapped(line, |c: char| columns_of(c), some_cols(cols))
}

/// Breaks a text into rows of at most `cols` columns. Characters without a
/// width are left out.
pub fn wrap_line(line: &str, cols: usize) -> (r: Vec<String>)
    ensures
        crate::text::texts(r@) == text_rows(line@, cols as nat),
        r.len() >= 1,
{
    let cols1: usize = if cols == 0 {
        1
    } else {
        cols
    };
    let ghost width = |c: char| columns_of(c);
    let cs = chars_of(line);
    let mut out: Vec<String> = Vec::new();
    let mut row: Vec<char> = Vec::new();
    let mut used: usize = 0;
    let mut i: usize = 0;
    assert(cs@.subrange(0, 0) =~= Seq::empty());
    assert(crate::text::texts(out@) =~= Seq::empty());
    while i < cs.len()
        invariant
            i <= cs.len(),
            cs@ == line@,
            1 <= cols1,
            used <= cols1 || used <= 3,
            width == (|c: char| columns_of(c)),
            wrapping(cs@.subrange(0, i as int), width, cols1 as nat) == (Wrapping {
                done: crate::text::texts(out@),
                row: row@,
                used: used as nat,
            }),
        decreases cs.len() - i,
    {
        let ch = cs[i];
        let w = char_columns(ch);
        proof {
            assert(cs@.subrange(0, i + 1).drop_last() =~= cs@.subrange(0, i as int));
            assert(cs@.subrange(0, i + 1).last() == ch);
        }
        i += 1;
        if w == 0 {
            continue;
        }
        if used > 0 && (used > cols1 || w > cols1 - used) {
            let s = string_of(&row);
            let ghost before = out@;
            out.push(s);
            assert(crate::text::texts(out@) =~= crate::text::texts(before).push(s@));
            row = Vec::new();
            used = 0;
            row.push(ch);
            assert(row@ =~= seq![ch]);
            used = used + w;
        } else {
            row.push(ch);
            used = used + w;
        }
    }
    assert(cs@.subrange(0, i as int) =~= cs@);
    let s = string_of(&row);
    let ghost before = out@;
    out.push(s);
    assert(crate::text::texts(out@) =~= crate::text::texts(before).push(s@));
    out
}

/// A row of characters as a line with a segment for each.
pub open spec fn row_spans(row: Seq<(char, TextStyle)>) -> Seq<Span> {
    Seq::new(row.len(), |i: int| Span { text: seq![row[i].0], style: row[i].1 })
}

/// Rows of characters as lines.
pub open spec fn rows_spans(rows: Seq<Seq<(char, TextStyle)>>) -> Seq<Seq<Span>> {
    Seq::new(rows.len(), |i: int| row_spans(rows[i]))
}

/// The width of a character with its style.
pub open spec fn glyph_columns() -> spec_fn((char, TextStyle)) -> nat {
    |g: (char, TextStyle)| columns_of(g.0)
}

/// The rows of a line.
pub open spec fn styled_rows(line: Seq<Span>, cols: nat) -> Seq<Seq<Span>> {
    rows_spans(wrapped(glyphs(line), glyph_columns(), some_cols(cols)))
}

/// Breaks a line into rows of at most `cols` columns. Characters without a
/// width are left out.
pub fn wrap_styled_line(line: &StyledLine, cols: usize) -> (r: Vec<StyledLine>)
    ensures
        spans_of(r@) == styled_rows(spans(line@), cols as nat),
        r.len() >= 1,
{
    let cols1: usize = if cols == 0 {
        1
    } else {
        cols
    };
    let g = line_glyphs(line);
    let mut out: Vec<StyledLine> = Vec::new();
    let mut row: StyledLine = Vec::new();
    let mut used: usize = 0;
    let mut i: usize = 0;
    assert(g@.subrange(0, 0) =~= Seq::empty());
    assert(spans_of(out@) =~= rows_spans(Seq::empty()));
    assert(spans(row@) =~= row_spans(Seq::empty()));
    while i < g.len()
        invariant
            i <= g.len(),
            g@ == glyphs(spans(line@)),
            1 <= cols1,
            used <= cols1 || used <= 3,
            ({
                let w = wrapping(g@.subrange(0, i as int), glyph_columns(), cols1 as nat);
                &&& spans_of(out@) == rows_spans(w.done)
                &&& spans(row@) == row_spans(w.row)
                &&& used == w.used
            }),
        decreases g.len() - i,
    {
        let (ch, style) = g[i];
        let w = char_columns(ch);
        let ghost before = wrapping(g@.subrange(0, i as int), glyph_columns(), cols1 as nat);
        let ghost after = wrapping(g@.subrange(0, i + 1), glyph_columns(), cols1 as nat);
        proof {
            assert(g@.subrange(0, i + 1).drop_last() =~= g@.subrange(0, i as int));
            assert(g@.subrange(0, i + 1).last() == (ch, style));
            assert(after == wrap_one(before, (ch, style), w as nat, cols1 as nat));
        }
        i += 1;
        if w == 0 {
            continue;
        }
        let mut one = String::new();
        one.push(ch);
        assert(one@ =~= seq![ch]);
        let seg = StyledSegment { text: one, style };
        if used > 0 && (used > cols1 || w > cols1 - used) {
            let ghost done = out@;
            let ghost finished = row@;
            let mut next: StyledLine = Vec::new();
            std::mem::swap(&mut next, &mut row);
            out.push(next);
            proof {
                lemma_spans_of_push(done, next);
                assert(rows_spans(before.done.push(before.row)) =~= rows_spans(before.done).push(
                    row_spans(before.row),
                ));
            }
            row.push(seg);
            assert(spans(row@) =~= row_spans(seq![(ch, style)]));
            used = w;
        } else {
            let ghost old_row = row@;
            row.push(seg);
            proof {
                lemma_spans_push(old_row, seg);
                assert(row_spans(before.row.push((ch, style))) =~= row_spans(before.row).push(seg@));
            }
            used = used + w;
        }
    }
    assert(g@.subrange(0, i as int) =~= g@);
    let ghost w = wrapping(g@, glyph_columns(), cols1 as nat);
    let ghost done = out@;
    out.push(row);
    proof {
        lemma_spans_of_push(done, row);
        assert(rows_spans(w.done.push(w.row)) =~= rows_spans(w.done).push(row_spans(w.row)));
    }
    out
}

// ---------------------------------------------------------------------------
// Laws
// ---------------------------------------------------------------------------

/// The items with a width, in order.
pub open spec fn visible<T>(items: Seq<T>, width: spec_fn(T) -> nat) -> Seq<T>
    decreases items.len(),
{
    if items.len() == 0 {
        Seq::empty()
    } else if width(items.last()) == 0 {
        visible(items.drop_last(), width)
    } else {
        visible(items.drop_last(), width).push(items.last())
    }
}

/// Rows one after the other.
pub open spec fn unwrapped<T>(rows: Seq<Seq<T>>) -> Seq<T>
    decreases rows.len(),
{
    if rows.len() == 0 {
        Seq::empty()
    } else {
        unwrapped(rows.drop_last()) + rows.last()
    }
}

/// The columns that items take.
pub open spec fn total_width<T>(items: Seq<T>, width: spec_fn(T) -> nat) -> nat
    decreases items.len(),
{
    if items.len() == 0 {
        0
    } else {
        total_width(items.drop_last(), width) + width(items.last())
    }
}

/// Whether a row has no more than `cols` columns, or is a single item.
pub open spec fn row_fits<T>(row: Seq<T>, width: spec_fn(T) -> nat, cols: nat) -> bool {
    total_width(row, width) <= cols || row.len() == 1
}

proof fn lemma_unwrapped_push<T>(rows: Seq<Seq<T>>, row: Seq<T>)
    ensures
        unwrapped(rows.push(row)) == unwrapped(rows) + row,
{
    assert(rows.push(row).drop_last() =~= rows);
}

proof fn lemma_total_push<T>(row: Seq<T>, item: T, width: spec_fn(T) -> nat)
    ensures
        total_width(row.push(item), width) == total_width(row, width) + width(item),
{
    assert(row.push(item).drop_last() =~= row);
}

/// Breaking into rows loses nothing that can be seen and changes no order,
/// and no row is wider than `cols` unless it is a single character.
pub proof fn law_wrapping_keeps_text<T>(items: Seq<T>, width: spec_fn(T) -> nat, cols: nat)
    ensures
        unwrapped(wrapped(items, width, cols)) == visible(items, width),
        forall|i: int|
            0 <= i < wrapped(items, width, cols).len() ==> row_fits(
                #[trigger] wrapped(items, width, cols)[i],
                width,
                cols,
            ),
{
    lemma_wrapping(items, width, cols);
    let w = wrapping(items, width, cols);
    lemma_unwrapped_push(w.done, w.row);
}

proof fn lemma_wrapping<T>(items: Seq<T>, width: spec_fn(T) -> nat, cols: nat)
    ensures
        ({
            let w = wrapping(items, width, cols);
            &&& unwrapped(w.done) + w.row == visible(items, width)
            &&& w.used == total_width(w.row, width)
            &&& row_fits(w.row, width, cols)
            &&& (w.used == 0 ==> w.row.len() == 0)
            &&& forall|i: int|
                0 <= i < w.done.len() ==> row_fits(#[trigger] w.done[i], width, cols)
        }),
    decreases items.len(),
{
    if items.len() > 0 {
        lemma_wrapping(items.drop_last(), width, cols);
        let b = wrapping(items.drop_last(), width, cols);
        let item = items.last();
        let w = wrapping(items, width, cols);
        if width(item) != 0 {
            if b.used > 0 && b.used + width(item) > cols {
                lemma_unwrapped_push(b.done, b.row);
                assert(seq![item] =~= Seq::<T>::empty().push(item));
                lemma_total_push(Seq::<T>::empty(), item, width);
                assert((unwrapped(b.done) + b.row) + seq![item] =~= (unwrapped(b.done) + b.row).push(
                    item,
                ));
            } else {
                lemma_total_push(b.row, item, width);
                assert(unwrapped(b.done) + b.row.push(item) =~= (unwrapped(b.done) + b.row).push(
                    item,
                ));
                if b.used == 0 {
                    assert(b.row.push(item).len() == 1);
                }
            }
        }
    } else {
        assert(unwrapped(Seq::<Seq<T>>::empty()) + Seq::<T>::empty() =~= visible(items, width));
    }
}

/// The cells of a line fit into its columns, and wide characters in them are
/// linked to the cells they cover.
pub proof fn law_line_cells_linked(g: Seq<(char, TextStyle)>, cols: nat)
    ensures
        laid(g, cols).cells.len() <= cols,
        linked(laid(g, cols).cells),
        fits(laid(g, cols).cells),
    decreases g.len(),
{
    if g.len() > 0 {
        law_line_cells_linked(g.drop_last(), cols);
        let l = laid(g.drop_last(), cols);
        let ch = g.last().0;
        if !(l.full || columns_of(ch) == 0 || l.cells.len() + columns_of(ch) > cols) {
            lemma_append_glyph(l.cells, ch, style_attr(g.last().1));
        }
    }
}

proof fn lemma_append_glyph(c: Seq<Cell>, ch: char, attr: GraphicAttribute)
    requires
        linked(c),
        fits(c),
        1 <= columns_of(ch),
    ensures
        linked(c + glyph_cells(ch, attr)),
        fits(c + glyph_cells(ch, attr)),
{
    let e = c + glyph_cells(ch, attr);
    let n = c.len();
    assert forall|i: int| 0 <= i < e.len() implies #[trigger] linked_at(e, i) by {
        if i < n {
            assert(linked_at(c, i));
            assert(e[i] == c[i]);
            assert(e[head_pos(c, i)] == c[head_pos(c, i)]);
        } else {
            assert(e[n as int] == head_cell(ch, columns_of(ch) as u16, attr));
        }
    }
    assert forall|h: int, j: int| 0 <= h < j < e.len() implies #[trigger] covers(e, h, j) by {
        if j < n {
            assert(covers(c, h, j));
        } else if h < n {
            assert(c[h].backlink == 0 ==> h + c[h].width <= n);
            assert(e[h] == c[h]);
        }
    }
    assert forall|i: int| 0 <= i < e.len() && (#[trigger] e[i]).backlink == 0 implies i + e[i].width
        <= e.len() by {
        if i < n {
            assert(e[i] == c[i]);
        }
    }
}

} // verus!
