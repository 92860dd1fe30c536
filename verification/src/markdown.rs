//! Markdown as lines of styled text.

use crate::highlight::{block_lines, colored, highlight_code_block, HighlightedLine, Highlighter};
use crate::styled::{
    copy_line, glyph_width, glyphs, lemma_spans_of_push, lemma_spans_push, plain_line, plain_span, spans, spans_of,
    styled_plain, styled_width, Span, StyledLine, StyledSegment, TextStyle,
};
use crate::terminal::Color;
use crate::text::{
    chars_of, opt_text, pieces, repeat_char, repeated, split_at_char, split_words, string_between,
    texts, words,
};
use crate::width::counted;
use pulldown_cmark::CodeBlockKind::Fenced;
use pulldown_cmark::Event::{Code, End, HardBreak, Rule, SoftBreak, Start, Text};
use pulldown_cmark::Tag::CodeBlock as CodeTag;
use pulldown_cmark::TagEnd::{
    BlockQuote as EndQuote, CodeBlock as EndCode, Heading as EndHeading, Image as EndImage, Item as EndItem,
    List as EndList, Paragraph as EndParagraph, Strong as EndStrong, Table as EndTable, TableCell as EndCell,
    TableHead as EndHead, TableRow as EndRow,
};
use pulldown_cmark::{Options, Parser};
use vstd::prelude::*;
use vstd::string::*;

verus! {

use MdEvent::{Break, Close, Ignored, Open, Ruler, Verbatim, Words};
use MdTag::{
    BlockQuote, CodeBlock, Fence, Heading, Image, Item, List, Other, Paragraph, Strong, Table, TableCell,
    TableHead, TableRow,
};

/// A kind of element. A heading has its level, a fenced code block what
/// follows its fence.
#[derive(Debug)]
pub enum MdTag {
    Heading(u8),
    Paragraph,
    List,
    Item,
    CodeBlock,
    Fence(String),
    BlockQuote,
    Table,
    TableHead,
    TableRow,
    TableCell,
    Strong,
    Image,
    Other,
}

/// A step through a document.
#[derive(Debug)]
pub enum MdEvent {
    Open(MdTag),
    Close(MdTag),
    Words(String),
    Verbatim(String),
    Break,
    Ruler,
    Ignored,
}

/// The contents of a kind of element.
pub ghost enum TagView {
    Heading(u8),
    Paragraph,
    List,
    Item,
    CodeBlock,
    Fence(Seq<char>),
    BlockQuote,
    Table,
    TableHead,
    TableRow,
    TableCell,
    Strong,
    Image,
    Other,
}

/// The contents of a step.
pub ghost enum EventView {
    Open(TagView),
    Close(TagView),
    Words(Seq<char>),
    Verbatim(Seq<char>),
    Break,
    Ruler,
    Ignored,
}

impl View for MdTag {
    type V = TagView;

    open spec fn view(&self) -> TagView {
        match *self {
            MdTag::Heading(n) => TagView::Heading(n),
            MdTag::Paragraph => TagView::Paragraph,
            MdTag::List => TagView::List,
            MdTag::Item => TagView::Item,
            MdTag::CodeBlock => TagView::CodeBlock,
            MdTag::Fence(l) => TagView::Fence(l@),
            MdTag::BlockQuote => TagView::BlockQuote,
            MdTag::Table => TagView::Table,
            MdTag::TableHead => TagView::TableHead,
            MdTag::TableRow => TagView::TableRow,
            MdTag::TableCell => TagView::TableCell,
            MdTag::Strong => TagView::Strong,
            MdTag::Image => TagView::Image,
            MdTag::Other => TagView::Other,
        }
    }
}

impl View for MdEvent {
    type V = EventView;

    open spec fn view(&self) -> EventView {
        match *self {
            MdEvent::Open(t) => EventView::Open(t@),
            MdEvent::Close(t) => EventView::Close(t@),
            MdEvent::Words(t) => EventView::Words(t@),
            MdEvent::Verbatim(t) => EventView::Verbatim(t@),
            MdEvent::Break => EventView::Break,
            MdEvent::Ruler => EventView::Ruler,
            MdEvent::Ignored => EventView::Ignored,
        }
    }
}

/// The contents of steps.
pub open spec fn event_views(v: Seq<MdEvent>) -> Seq<EventView> {
    Seq::new(v.len(), |i: int| v[i]@)
}

/// The steps through a document that `pulldown_cmark::Parser` gives, with
/// tables and strikethrough enabled.
pub uninterp spec fn markdown_events(src: Seq<char>) -> Seq<EventView>;

/// Calls `pulldown_cmark::Parser::new_ext` and takes its events one by one.
/// They depend on the text alone.
#[verifier::external_body]
fn parse_markdown(src: &str) -> (r: Vec<MdEvent>)
    ensures
        event_views(r@) == markdown_events(src@),
{
    let kind = |t| match t {
        EndHeading(n) => Heading(n as u8), EndParagraph => Paragraph, EndList(_) => List, EndItem => Item,
        EndCode => CodeBlock, EndQuote(_) => BlockQuote, EndTable => Table, EndHead => TableHead,
        EndRow => TableRow, EndCell => TableCell, EndStrong => Strong, EndImage => Image, _ => Other
    };
    Parser::new_ext(src, Options::ENABLE_STRIKETHROUGH | Options::ENABLE_TABLES).map(|e| match e {
        Start(CodeTag(Fenced(l))) => Open(Fence(l.to_string())), Start(t) => Open(kind(t.to_end())),
        End(t) => Close(kind(t)), Text(t) => Words(t.to_string()), Code(t) => Verbatim(t.to_string()),
        SoftBreak | HardBreak => Break, Rule => Ruler, _ => Ignored
    }).collect()
}

// ---------------------------------------------------------------------------
// Tables
// ---------------------------------------------------------------------------

/// A segment for lines and gaps.
pub open spec fn dim_span(text: Seq<char>) -> Span {
    plain_span(text, Color::BrightBlack)
}

fn dim_segment(text: &str) -> (r: StyledSegment)
    ensures
        r@ == dim_span(text@),
{
    StyledSegment { text: text.to_owned(), style: TextStyle { fg: Color::BrightBlack, bold: false } }
}

/// The columns a cell takes.
pub open spec fn cell_width(cell: Seq<Span>) -> nat {
    counted(glyph_width(glyphs(cell)))
}

/// The most cells a row has.
pub open spec fn column_count(rows: Seq<Seq<Seq<Span>>>) -> nat
    decreases rows.len(),
{
    if rows.len() == 0 {
        0
    } else {
        let before = column_count(rows.drop_last());
        if rows.last().len() > before {
            rows.last().len()
        } else {
            before
        }
    }
}

/// The width of the widest cell in a column.
pub open spec fn column_width(rows: Seq<Seq<Seq<Span>>>, column: int) -> nat
    decreases rows.len(),
{
    if rows.len() == 0 {
        0
    } else {
        let before = column_width(rows.drop_last(), column);
        if column < rows.last().len() && cell_width(rows.last()[column]) > before {
            cell_width(rows.last()[column])
        } else {
            before
        }
    }
}

/// The width of each column.
pub open spec fn column_widths(rows: Seq<Seq<Seq<Span>>>) -> Seq<nat> {
    Seq::new(column_count(rows), |c: int| column_width(rows, c))
}

/// The contents of rows of cells.
pub open spec fn rows_view(rows: Seq<Vec<StyledLine>>) -> Seq<Seq<Seq<Span>>> {
    Seq::new(rows.len(), |i: int| spans_of(rows[i]@))
}

/// Widths as mathematical numbers.
pub open spec fn widths_view(w: Seq<usize>) -> Seq<nat> {
    Seq::new(w.len(), |i: int| w[i] as nat)
}

/// The width of each column: that of its widest cell.
pub fn table_column_widths(rows: &Vec<Vec<StyledLine>>) -> (r: Vec<usize>)
    ensures
        widths_view(r@) == column_widths(rows_view(rows@)),
{
    let ghost all = rows_view(rows@);
    let mut columns: usize = 0;
    let mut i: usize = 0;
    assert(all.subrange(0, 0) =~= Seq::empty());
    while i < rows.len()
        invariant
            i <= rows.len(),
            all == rows_view(rows@),
            columns == column_count(all.subrange(0, i as int)),
        decreases rows.len() - i,
    {
        proof {
            assert(all.subrange(0, i + 1).drop_last() =~= all.subrange(0, i as int));
            assert(all.subrange(0, i + 1).last() == spans_of(rows[i as int]@));
        }
        if rows[i].len() > columns {
            columns = rows[i].len();
        }
        i += 1;
    }
    assert(all.subrange(0, i as int) =~= all);
    let mut out: Vec<usize> = Vec::new();
    while out.len() < columns
        invariant
            out.len() <= columns,
            all == rows_view(rows@),
            columns == column_count(all),
            forall|c: int| 0 <= c < out.len() ==> #[trigger] out[c] == column_width(all, c),
        decreases columns - out.len(),
    {
        let c = out.len();
        let mut widest: usize = 0;
        let mut k: usize = 0;
        assert(all.subrange(0, 0) =~= Seq::empty());
        while k < rows.len()
            invariant
                k <= rows.len(),
                all == rows_view(rows@),
                widest == column_width(all.subrange(0, k as int), c as int),
            decreases rows.len() - k,
        {
            proof {
                assert(all.subrange(0, k + 1).drop_last() =~= all.subrange(0, k as int));
                assert(all.subrange(0, k + 1).last() == spans_of(rows[k as int]@));
            }
            if c < rows[k].len() {
                assert(spans_of(rows[k as int]@)[c as int] == spans(rows[k as int]@[c as int]@));
                let w = styled_width(&rows[k][c]);
                if w > widest {
                    widest = w;
                }
            }
            k += 1;
        }
        assert(all.subrange(0, k as int) =~= all);
        out.push(widest);
    }
    assert(widths_view(out@) =~= column_widths(all));
    out
}

/// The first `n` cells of a row of `len` cells as a line: a bar before each
/// cell but the first, and spaces up to the width of the column behind each
/// but the last.
pub open spec fn row_line(row: Seq<Seq<Span>>, widths: Seq<nat>, n: int) -> Seq<Span>
    decreases n,
{
    if n <= 0 {
        Seq::empty()
    } else {
        let c = n - 1;
        let before = row_line(row, widths, c);
        let barred = if c > 0 {
            before.push(dim_span(" │ "@))
        } else {
            before
        };
        let filled = barred + row[c];
        if c + 1 < row.len() && widths[c] > cell_width(row[c]) {
            filled.push(dim_span(repeated(' ', (widths[c] - cell_width(row[c])) as nat)))
        } else {
            filled
        }
    }
}

/// A row of a table as a line.
pub fn table_row_line(row: &Vec<StyledLine>, widths: &Vec<usize>) -> (r: StyledLine)
    requires
        row.len() <= widths.len(),
    ensures
        spans(r@) == row_line(spans_of(row@), widths_view(widths@), row.len() as int),
{
    let ghost rv = spans_of(row@);
    let ghost wv = widths_view(widths@);
    let mut line: StyledLine = Vec::new();
    let mut c: usize = 0;
    assert(spans(line@) =~= Seq::empty());
    while c < row.len()
        invariant
            c <= row.len() <= widths.len(),
            rv == spans_of(row@),
            wv == widths_view(widths@),
            spans(line@) == row_line(rv, wv, c as int),
        decreases row.len() - c,
    {
        let ghost before = line@;
        if c > 0 {
            let bar = dim_segment(" │ ");
            proof {
                lemma_spans_push(line@, bar);
            }
            line.push(bar);
        }
        let ghost barred = line@;
        let mut cell = copy_line(&row[c]);
        let ghost cv = cell@;
        line.append(&mut cell);
        assert(spans(line@) =~= spans(barred) + rv[c as int]);
        if c + 1 < row.len() {
            let w = styled_width(&row[c]);
            if widths[c] > w {
                let pad = repeat_char(' ', widths[c] - w);
                let seg = dim_segment(pad.as_str());
                proof {
                    lemma_spans_push(line@, seg);
                }
                line.push(seg);
            }
        }
        c += 1;
    }
    line
}

/// The line under the head of a table.
pub open spec fn rule_text(widths: Seq<nat>) -> Seq<char>
    decreases widths.len(),
{
    if widths.len() == 0 {
        Seq::empty()
    } else if widths.len() == 1 {
        repeated('─', widths[0])
    } else {
        rule_text(widths.drop_last()) + "─┼─"@ + repeated('─', widths.last())
    }
}

/// The line under the head of a table.
pub fn table_rule_line(widths: &Vec<usize>) -> (r: StyledLine)
    ensures
        spans(r@) == seq![dim_span(rule_text(widths_view(widths@)))],
{
    let ghost wv = widths_view(widths@);
    let mut rule = String::new();
    let mut c: usize = 0;
    assert(wv.subrange(0, 0) =~= Seq::empty());
    assert(rule@ =~= Seq::empty());
    while c < widths.len()
        invariant
            c <= widths.len(),
            wv == widths_view(widths@),
            rule@ == rule_text(wv.subrange(0, c as int)),
        decreases widths.len() - c,
    {
        let ghost before = rule@;
        if c > 0 {
            rule.append("─┼─");
        }
        let part = repeat_char('─', widths[c]);
        rule.append(part.as_str());
        proof {
            let next = wv.subrange(0, c + 1);
            assert(next.drop_last() =~= wv.subrange(0, c as int));
            assert(next.last() == widths[c as int] as nat);
            if c == 0 {
                assert(before + part@ =~= part@);
            }
        }
        c += 1;
    }
    assert(wv.subrange(0, c as int) =~= wv);
    let mut line: StyledLine = Vec::new();
    line.push(dim_segment(rule.as_str()));
    assert(spans(line@) =~= seq![dim_span(rule@)]);
    line
}

// ---------------------------------------------------------------------------
// The renderer
// ---------------------------------------------------------------------------

/// A table under way.
pub struct TableBuilder {
    pub rows: Vec<Vec<StyledLine>>,
    pub row: Vec<StyledLine>,
    /// How many rows are above the rule: none or one.
    pub head_rows: usize,
}

/// A document under way.
pub struct MarkdownRenderer {
    pub lines: Vec<StyledLine>,
    pub current: StyledLine,
    pub style: TextStyle,
    pub list_depth: usize,
    pub in_code_block: bool,
    pub code_lang: String,
    pub code_buffer: String,
    pub table: Option<TableBuilder>,
    pub image_alt: Option<String>,
}

/// The contents of a table under way.
pub ghost struct TableState {
    pub rows: Seq<Seq<Seq<Span>>>,
    pub row: Seq<Seq<Span>>,
    pub head_rows: nat,
}

/// The contents of a document under way.
pub ghost struct Rendering {
    pub lines: Seq<Seq<Span>>,
    pub current: Seq<Span>,
    pub style: TextStyle,
    pub list_depth: nat,
    pub in_code: bool,
    pub lang: Seq<char>,
    pub code: Seq<char>,
    pub table: Option<TableState>,
    pub image_alt: Option<Seq<char>>,
}

impl View for TableBuilder {
    type V = TableState;

    open spec fn view(&self) -> TableState {
        TableState {
            rows: rows_view(self.rows@),
            row: spans_of(self.row@),
            head_rows: self.head_rows as nat,
        }
    }
}

impl View for MarkdownRenderer {
    type V = Rendering;

    open spec fn view(&self) -> Rendering {
        Rendering {
            lines: spans_of(self.lines@),
            current: spans(self.current@),
            style: self.style,
            list_depth: self.list_depth as nat,
            in_code: self.in_code_block,
            lang: self.code_lang@,
            code: self.code_buffer@,
            table: match self.table {
                Some(t) => Some(t@),
                None => None,
            },
            image_alt: opt_text(self.image_alt),
        }
    }
}

/// The style of ordinary text.
pub open spec fn body_style() -> TextStyle {
    TextStyle { fg: Color::White, bold: false }
}

/// Nothing rendered yet.
pub open spec fn blank() -> Rendering {
    Rendering {
        lines: Seq::empty(),
        current: Seq::empty(),
        style: body_style(),
        list_depth: 0,
        in_code: false,
        lang: Seq::empty(),
        code: Seq::empty(),
        table: None,
        image_alt: None,
    }
}

/// The line under way is finished, if there is one.
pub open spec fn flushed(s: Rendering) -> Rendering {
    if s.current.len() == 0 {
        s
    } else {
        Rendering { lines: s.lines.push(s.current), current: Seq::empty(), ..s }
    }
}

/// Room before a block: an empty line, but not within a list, at the start,
/// behind another empty line, or in a line that has begun.
pub open spec fn spaced(s: Rendering) -> Rendering {
    if s.current.len() == 0 && s.list_depth == 0 && s.lines.len() > 0 && cell_width(s.lines.last())
        > 0 {
        Rendering { lines: s.lines.push(Seq::empty()), ..s }
    } else {
        s
    }
}

/// Text in the current style.
pub open spec fn texted(s: Rendering, text: Seq<char>) -> Rendering {
    if text.len() == 0 {
        s
    } else {
        Rendering { current: s.current.push(Span { text, style: s.style }), ..s }
    }
}

/// The mark and the colour of a heading.
pub open spec fn heading_look(level: u8) -> (Seq<char>, Color) {
    if level <= 1 {
        ("■ "@, Color::Rgb { rgba: 0x7AA2_F7FF })
    } else if level == 2 {
        ("◆ "@, Color::Rgb { rgba: 0x2AC3_DEFF })
    } else if level == 3 {
        ("▸ "@, Color::Rgb { rgba: 0x9ECE_6AFF })
    } else if level == 4 {
        ("  ▸ "@, Color::Rgb { rgba: 0x9ECE_6AFF })
    } else {
        ("  · "@, Color::Rgb { rgba: 0x565F_89FF })
    }
}

/// The mark and the colour of a heading.
pub fn heading_style(level: u8) -> (r: (&'static str, Color))
    ensures
        (r.0@, r.1) == heading_look(level),
{
    if level <= 1 {
        ("■ ", Color::Rgb { rgba: 0x7AA2_F7FF })
    } else if level == 2 {
        ("◆ ", Color::Rgb { rgba: 0x2AC3_DEFF })
    } else if level == 3 {
        ("▸ ", Color::Rgb { rgba: 0x9ECE_6AFF })
    } else if level == 4 {
        ("  ▸ ", Color::Rgb { rgba: 0x9ECE_6AFF })
    } else {
        ("  · ", Color::Rgb { rgba: 0x565F_89FF })
    }
}

/// The first word behind a fence, or nothing.
pub open spec fn fence_language(info: Option<Seq<char>>) -> Seq<char> {
    match info {
        Some(s) => if words(s).len() > 0 {
            words(s)[0]
        } else {
            Seq::empty()
        },
        None => Seq::empty(),
    }
}

/// An empty table.
pub open spec fn no_table() -> TableState {
    TableState { rows: Seq::empty(), row: Seq::empty(), head_rows: 0 }
}

/// One less, as far as zero.
pub open spec fn less_one(n: nat) -> nat {
    if n == 0 {
        0
    } else {
        (n - 1) as nat
    }
}

/// The effect of the start of a code block.
pub open spec fn code_opened(s: Rendering, info: Option<Seq<char>>) -> Rendering {
    Rendering {
        in_code: true,
        lang: fence_language(info),
        code: Seq::empty(),
        style: TextStyle { fg: Color::Green, bold: false },
        ..spaced(s)
    }
}

/// The effect of the start of an element.
pub open spec fn opened(s: Rendering, tag: TagView) -> Rendering {
    match tag {
        TagView::Heading(level) => {
            let r = spaced(s);
            texted(
                Rendering { style: TextStyle { fg: heading_look(level).1, bold: true }, ..r },
                heading_look(level).0,
            )
        },
        TagView::Paragraph => spaced(s),
        TagView::List => Rendering { list_depth: s.list_depth + 1, ..spaced(s) },
        TagView::Item => texted(
            flushed(s),
            repeated(' ', 2 * less_one(s.list_depth)) + "• "@,
        ),
        TagView::CodeBlock => code_opened(s, None),
        TagView::Fence(info) => code_opened(s, Some(info)),
        TagView::BlockQuote => {
            let r = spaced(s);
            Rendering { current: r.current.push(dim_span("│ "@)), ..r }
        },
        TagView::Table => Rendering { table: Some(no_table()), ..spaced(s) },
        TagView::TableHead | TagView::Strong => Rendering {
            style: TextStyle { bold: true, ..s.style },
            ..s
        },
        TagView::Image => Rendering { image_alt: Some(Seq::empty()), ..s },
        _ => s,
    }
}

/// The lines of a table: its rows, with a rule under the head.
pub open spec fn table_lines(t: TableState, widths: Seq<nat>, n: int) -> Seq<Seq<Span>>
    decreases n,
{
    if n <= 0 {
        Seq::empty()
    } else {
        let row = t.rows[n - 1];
        let more = table_lines(t, widths, n - 1).push(row_line(row, widths, row.len() as int));
        if n == t.head_rows {
            more.push(seq![dim_span(rule_text(widths))])
        } else {
            more
        }
    }
}

/// The table under way is finished.
pub open spec fn table_flushed(s: Rendering) -> Rendering {
    match s.table {
        None => s,
        Some(t) => {
            let widths = column_widths(t.rows);
            Rendering {
                table: None,
                lines: if widths.len() == 0 {
                    s.lines
                } else {
                    s.lines + table_lines(t, widths, t.rows.len() as int)
                },
                ..s
            }
        },
    }
}

/// A text without the line feeds at its end.
pub open spec fn without_newlines(s: Seq<char>) -> Seq<char>
    decreases s.len(),
{
    if s.len() > 0 && s.last() == '\n' {
        without_newlines(s.drop_last())
    } else {
        s
    }
}

/// A coloured line as styled text.
pub open spec fn code_line(line: Seq<(Color, Seq<char>)>) -> Seq<Span> {
    Seq::new(line.len(), |i: int| plain_span(line[i].1, line[i].0))
}

/// The lines of a code block: in colours where its language is known, else
/// all in green.
pub open spec fn code_lines(code: Seq<char>, lang: Seq<char>) -> Seq<Seq<Span>> {
    match block_lines(code, lang) {
        Some(h) => Seq::new(h.len(), |i: int| code_line(h[i])),
        None => {
            let p = pieces(code, '\n');
            Seq::new(p.len(), |i: int| plain_line(p[i], Color::Green))
        },
    }
}

/// The code block under way is finished.
pub open spec fn code_flushed(s: Rendering) -> Rendering {
    let r = flushed(s);
    let code = without_newlines(r.code);
    if code.len() == 0 {
        r
    } else {
        Rendering { lines: r.lines + code_lines(code, r.lang), code: Seq::empty(), ..r }
    }
}

/// The effect of the end of an element.
pub open spec fn closed(s: Rendering, tag: TagView) -> Rendering {
    match tag {
        TagView::Heading(_) => Rendering { style: body_style(), ..flushed(s) },
        TagView::Paragraph | TagView::Item | TagView::BlockQuote => flushed(s),
        TagView::List => Rendering { list_depth: less_one(s.list_depth), ..s },
        TagView::CodeBlock | TagView::Fence(_) => Rendering {
            in_code: false,
            style: body_style(),
            ..code_flushed(s)
        },
        TagView::TableCell => Rendering {
            current: Seq::empty(),
            table: match s.table {
                Some(t) => Some(TableState { row: t.row.push(s.current), ..t }),
                None => None,
            },
            ..s
        },
        TagView::TableHead => Rendering {
            style: TextStyle { bold: false, ..s.style },
            table: match s.table {
                Some(t) => Some(
                    TableState { rows: t.rows.push(t.row), row: Seq::empty(), head_rows: 1 },
                ),
                None => None,
            },
            ..s
        },
        TagView::TableRow => Rendering {
            table: match s.table {
                Some(t) => Some(TableState { rows: t.rows.push(t.row), row: Seq::empty(), ..t }),
                None => None,
            },
            ..s
        },
        TagView::Table => table_flushed(s),
        TagView::Strong => Rendering { style: TextStyle { bold: false, ..s.style }, ..s },
        TagView::Image => match s.image_alt {
            Some(alt) => texted(
                Rendering { image_alt: None, ..s },
                "[画像: "@ + alt + "]"@,
            ),
            None => s,
        },
        TagView::Other => s,
    }
}

/// The effect of text: it goes to the description of an image, to a code
/// block, or to the line under way; inline code is yellow.
pub open spec fn worded(s: Rendering, text: Seq<char>, inline_code: bool) -> Rendering {
    match s.image_alt {
        Some(alt) => Rendering { image_alt: Some(alt + text), ..s },
        None => if s.in_code {
            Rendering { code: s.code + text, ..s }
        } else if inline_code {
            Rendering {
                style: s.style,
                ..texted(
                    Rendering { style: TextStyle { fg: Color::Yellow, bold: s.style.bold }, ..s },
                    text,
                )
            }
        } else {
            texted(s, text)
        },
    }
}

/// The effect of a step.
pub open spec fn handled(s: Rendering, e: EventView) -> Rendering {
    match e {
        EventView::Open(t) => opened(s, t),
        EventView::Close(t) => closed(s, t),
        EventView::Words(t) => worded(s, t, false),
        EventView::Verbatim(t) => worded(s, t, true),
        EventView::Break => flushed(s),
        EventView::Ruler => Rendering {
            lines: s.lines.push(plain_line(" ────"@, Color::BrightBlack)),
            ..s
        },
        EventView::Ignored => s,
    }
}

/// The effect of steps.
pub open spec fn handled_all(events: Seq<EventView>) -> Rendering
    decreases events.len(),
{
    if events.len() == 0 {
        blank()
    } else {
        handled(handled_all(events.drop_last()), events.last())
    }
}

/// The lines of a document: at least one.
pub open spec fn finished(s: Rendering) -> Seq<Seq<Span>> {
    let r = flushed(s);
    if r.lines.len() == 0 {
        seq![Seq::empty()]
    } else {
        r.lines
    }
}

/// The lines that steps through a document make.
pub open spec fn document(events: Seq<EventView>) -> Seq<Seq<Span>> {
    finished(handled_all(events))
}

/// A coloured line as styled text.
pub fn styled_code(line: &HighlightedLine) -> (r: StyledLine)
    ensures
        spans(r@) == code_line(colored(line@)),
{
    let mut out: StyledLine = Vec::new();
    let mut i: usize = 0;
    while i < line.len()
        invariant
            i <= line.len(),
            out.len() == i,
            forall|k: int| 0 <= k < i ==> (#[trigger] out[k])@ == plain_span(line[k].1@, line[k].0),
        decreases line.len() - i,
    {
        out.push(
            StyledSegment {
                text: line[i].1.clone(),
                style: TextStyle { fg: line[i].0, bold: false },
            },
        );
        i += 1;
    }
    assert(spans(out@) =~= code_line(colored(line@)));
    out
}

fn strip_newlines(s: &str) -> (r: String)
    ensures
        r@ == without_newlines(s@),
{
    let cs = chars_of(s);
    let mut to: usize = cs.len();
    assert(cs@.subrange(0, to as int) =~= s@);
    while to > 0 && cs[to - 1] == '\n'
        invariant
            to <= cs.len(),
            without_newlines(cs@.subrange(0, to as int)) == without_newlines(s@),
        decreases to,
    {
        assert(cs@.subrange(0, to as int).drop_last() =~= cs@.subrange(0, to - 1));
        to -= 1;
    }
    string_between(&cs, 0, to)
}

/// The mark of a list item.
fn item_mark(depth: usize) -> (r: String)
    ensures
        r@ == repeated(' ', 2 * less_one(depth as nat)) + "• "@,
{
    let mut out = String::new();
    let mut i: usize = 1;
    assert(out@ =~= repeated(' ', 0));
    while i < depth
        invariant
            1 <= i,
            i <= depth || i == 1,
            out@ == repeated(' ', 2 * (i - 1) as nat),
        decreases depth - i,
    {
        out.push(' ');
        out.push(' ');
        assert(out@ =~= repeated(' ', (2 * (i - 1) + 2) as nat));
        i += 1;
    }
    out.append("• ");
    out
}

impl MarkdownRenderer {
    pub fn new() -> (r: Self)
        ensures
            r@ == blank(),
    {
        let r = MarkdownRenderer {
            lines: Vec::new(),
            current: Vec::new(),
            style: TextStyle { fg: Color::White, bold: false },
            list_depth: 0,
            in_code_block: false,
            code_lang: String::new(),
            code_buffer: String::new(),
            table: None,
            image_alt: None,
        };
        assert(spans_of(r.lines@) =~= Seq::empty());
        assert(spans(r.current@) =~= Seq::empty());
        r
    }

    fn flush_current(&mut self)
        ensures
            final(self)@ == flushed(old(self)@),
    {
        if self.current.len() == 0 {
            return;
        }
        let ghost before = self.lines@;
        let mut line: StyledLine = Vec::new();
        std::mem::swap(&mut line, &mut self.current);
        proof {
            lemma_spans_of_push(before, line);
        }
        self.lines.push(line);
        assert(spans(self.current@) =~= Seq::empty());
    }

    fn blank_line_before_block(&mut self)
        ensures
            final(self)@ == spaced(old(self)@),
    {
        if self.current.len() > 0 || self.list_depth > 0 || self.lines.len() == 0 {
            return;
        }
        let n = self.lines.len();
        assert(spans_of(self.lines@).last() == spans(self.lines[n - 1]@));
        if styled_width(&self.lines[n - 1]) > 0 {
            let empty: StyledLine = Vec::new();
            proof {
                lemma_spans_of_push(self.lines@, empty);
                assert(spans(empty@) =~= Seq::empty());
            }
            self.lines.push(empty);
        }
    }

    fn push_text(&mut self, text: &str)
        ensures
            final(self)@ == texted(old(self)@, text@),
    {
        if text.is_empty() {
            return;
        }
        let seg = StyledSegment { text: text.to_owned(), style: self.style };
        proof {
            lemma_spans_push(self.current@, seg);
        }
        self.current.push(seg);
    }

    fn flush_table(&mut self)
        ensures
            final(self)@ == table_flushed(old(self)@),
    {
        let taken = self.table.take();
        let table = match taken {
            Some(t) => t,
            None => {
                return;
            },
        };
        let ghost t = table@;
        let widths = table_column_widths(&table.rows);
        let ghost wv = column_widths(t.rows);
        assert(widths_view(widths@).len() == widths.len());
        if widths.len() == 0 {
            return;
        }
        let ghost before = spans_of(self.lines@);
        let ghost s0 = self@;
        let mut i: usize = 0;
        assert(before + table_lines(t, wv, 0) =~= before);
        while i < table.rows.len()
            invariant
                i <= table.rows.len(),
                t == table@,
                wv == column_widths(t.rows),
                wv == widths_view(widths@),
                spans_of(self.lines@) == before + table_lines(t, wv, i as int),
                self@ == (Rendering { lines: spans_of(self.lines@), ..s0 }),
            decreases table.rows.len() - i,
        {
            assert(t.rows[i as int] == spans_of(table.rows[i as int]@));
            proof {
                lemma_row_fits(t.rows, i as int);
            }
            let line = table_row_line(&table.rows[i], &widths);
            proof {
                lemma_spans_of_push(self.lines@, line);
            }
            self.lines.push(line);
            let ghost more = table_lines(t, wv, i as int).push(spans(line@));
            assert(spans_of(self.lines@) =~= before + more);
            if i + 1 == table.head_rows {
                let rule = table_rule_line(&widths);
                proof {
                    lemma_spans_of_push(self.lines@, rule);
                }
                self.lines.push(rule);
                assert(spans_of(self.lines@) =~= before + more.push(spans(rule@)));
            }
            i += 1;
        }
    }

    fn flush_code_block(&mut self, h: &Highlighter)
        ensures
            final(self)@ == code_flushed(old(self)@),
    {
        self.flush_current();
        let ghost s0 = self@;
        let code = strip_newlines(self.code_buffer.as_str());
        if code.as_str().is_empty() {
            return;
        }
        let ghost before = spans_of(self.lines@);
        let ghost want = code_lines(code@, self.code_lang@);
        assert(before + want.subrange(0, 0) =~= before);
        match highlight_code_block(h, code.as_str(), self.code_lang.as_str()) {
            Some(hl) => {
                let mut i: usize = 0;
                while i < hl.len()
                    invariant
                        i <= hl.len(),
                        want.len() == hl.len(),
                        forall|k: int|
                            0 <= k < hl.len() ==> want[k] == code_line(colored((#[trigger] hl[k])@)),
                        spans_of(self.lines@) == before + want.subrange(0, i as int),
                        self@ == (Rendering { lines: spans_of(self.lines@), ..s0 }),
                    decreases hl.len() - i,
                {
                    let line = styled_code(&hl[i]);
                    proof {
                        lemma_spans_of_push(self.lines@, line);
                    }
                    self.lines.push(line);
                    assert(spans_of(self.lines@) =~= before + want.subrange(0, i + 1));
                    i += 1;
                }
                assert(want.subrange(0, i as int) =~= want);
            },
            None => {
                let parts = split_at_char(code.as_str(), '\n');
                let ghost pv = pieces(code@, '\n');
                assert(texts(parts@).len() == parts.len());
                let mut i: usize = 0;
                while i < parts.len()
                    invariant
                        i <= parts.len(),
                        texts(parts@) == pv,
                        pv.len() == parts.len(),
                        want.len() == parts.len(),
                        forall|k: int|
                            0 <= k < pv.len() ==> #[trigger] want[k] == plain_line(
                                pv[k],
                                Color::Green,
                            ),
                        spans_of(self.lines@) == before + want.subrange(0, i as int),
                        self@ == (Rendering { lines: spans_of(self.lines@), ..s0 }),
                    decreases parts.len() - i,
                {
                    assert(pv[i as int] == parts[i as int]@);
                    let line = styled_plain(parts[i].clone(), Color::Green);
                    proof {
                        lemma_spans_of_push(self.lines@, line);
                    }
                    self.lines.push(line);
                    assert(spans_of(self.lines@) =~= before + want.subrange(0, i + 1));
                    i += 1;
                }
                assert(want.subrange(0, i as int) =~= want);
            },
        }
        self.code_buffer = String::new();
        assert(self.code_buffer@ =~= Seq::empty());
    }

    fn open_code(&mut self, info: Option<&str>)
        ensures
            final(self)@ == code_opened(
                old(self)@,
                match info {
                    Some(i) => Some(i@),
                    None => None,
                },
            ),
    {
        self.blank_line_before_block();
        self.in_code_block = true;
        let mut lang = String::new();
        assert(lang@ =~= Seq::empty());
        if let Some(i) = info {
            let w = split_words(i);
            assert(texts(w@).len() == w.len());
            if w.len() > 0 {
                assert(texts(w@)[0] == w[0]@);
                lang = w[0].clone();
            }
        }
        self.code_lang = lang;
        self.code_buffer = String::new();
        assert(self.code_buffer@ =~= Seq::empty());
        self.style = TextStyle { fg: Color::Green, bold: false };
    }

    fn start(&mut self, tag: &MdTag)
        requires
            old(self).list_depth < usize::MAX,
        ensures
            final(self)@ == opened(old(self)@, tag@),
    {
        match tag {
            MdTag::Heading(level) => {
                self.blank_line_before_block();
                let (mark, fg) = heading_style(*level);
                self.style = TextStyle { fg, bold: true };
                self.push_text(mark);
            },
            MdTag::Paragraph => {
                self.blank_line_before_block();
            },
            MdTag::List => {
                self.blank_line_before_block();
                self.list_depth = self.list_depth + 1;
            },
            MdTag::Item => {
                self.flush_current();
                let mark = item_mark(self.list_depth);
                self.push_text(mark.as_str());
            },
            MdTag::CodeBlock => {
                self.open_code(None);
            },
            MdTag::Fence(info) => {
                self.open_code(Some(info.as_str()));
            },
            MdTag::BlockQuote => {
                self.blank_line_before_block();
                let seg = dim_segment("│ ");
                proof {
                    lemma_spans_push(self.current@, seg);
                }
                self.current.push(seg);
            },
            MdTag::Table => {
                self.blank_line_before_block();
                let t = TableBuilder { rows: Vec::new(), row: Vec::new(), head_rows: 0 };
                assert(rows_view(t.rows@) =~= Seq::empty());
                assert(spans_of(t.row@) =~= Seq::empty());
                self.table = Some(t);
            },
            MdTag::TableHead => {
                self.style.bold = true;
            },
            MdTag::Strong => {
                self.style.bold = true;
            },
            MdTag::Image => {
                let e = String::new();
                assert(e@ =~= Seq::empty());
                self.image_alt = Some(e);
            },
            MdTag::TableRow => {},
            MdTag::TableCell => {},
            MdTag::Other => {},
        }
    }

    /// Adds the row under way to the table under way.
    fn end_row(&mut self, head: bool)
        ensures
            final(self)@ == (Rendering {
                table: match old(self)@.table {
                    Some(t) => Some(
                        TableState {
                            rows: t.rows.push(t.row),
                            row: Seq::empty(),
                            head_rows: if head {
                                1
                            } else {
                                t.head_rows
                            },
                        },
                    ),
                    None => None,
                },
                ..old(self)@
            }),
    {
        let taken = self.table.take();
        if let Some(table) = taken {
            let mut t = table;
            let mut row: Vec<StyledLine> = Vec::new();
            std::mem::swap(&mut row, &mut t.row);
            let ghost before = t.rows@;
            t.rows.push(row);
            assert(rows_view(t.rows@) =~= rows_view(before).push(spans_of(row@)));
            assert(spans_of(t.row@) =~= Seq::empty());
            if head {
                t.head_rows = 1;
            }
            self.table = Some(t);
        }
    }

    fn end(&mut self, tag: &MdTag, h: &Highlighter)
        ensures
            final(self)@ == closed(old(self)@, tag@),
    {
        match tag {
            MdTag::Heading(_) => {
                self.flush_current();
                self.style = TextStyle { fg: Color::White, bold: false };
            },
            MdTag::Paragraph => {
                self.flush_current();
            },
            MdTag::Item => {
                self.flush_current();
            },
            MdTag::BlockQuote => {
                self.flush_current();
            },
            MdTag::List => {
                if self.list_depth > 0 {
                    self.list_depth = self.list_depth - 1;
                }
            },
            MdTag::CodeBlock | MdTag::Fence(_) => {
                self.flush_code_block(h);
                self.in_code_block = false;
                self.style = TextStyle { fg: Color::White, bold: false };
            },
            MdTag::TableCell => {
                let mut cell: StyledLine = Vec::new();
                std::mem::swap(&mut cell, &mut self.current);
                assert(spans(self.current@) =~= Seq::empty());
                let taken = self.table.take();
                if let Some(table) = taken {
                    let mut t = table;
                    proof {
                        lemma_spans_of_push(t.row@, cell);
                    }
                    t.row.push(cell);
                    self.table = Some(t);
                }
            },
            MdTag::TableHead => {
                self.style.bold = false;
                self.end_row(true);
            },
            MdTag::TableRow => {
                self.end_row(false);
            },
            MdTag::Table => {
                self.flush_table();
            },
            MdTag::Strong => {
                self.style.bold = false;
            },
            MdTag::Image => {
                let taken = self.image_alt.take();
                if let Some(alt) = taken {
                    let mut text = "[画像: ".to_owned();
                    text.append(alt.as_str());
                    text.append("]");
                    self.push_text(text.as_str());
                }
            },
            MdTag::Other => {},
        }
    }

    fn text(&mut self, text: &str, inline_code: bool)
        ensures
            final(self)@ == worded(old(self)@, text@, inline_code),
    {
        let taken = self.image_alt.take();
        if let Some(a) = taken {
            let mut alt = a;
            alt.append(text);
            self.image_alt = Some(alt);
            return;
        }
        if self.in_code_block {
            self.code_buffer.append(text);
            return;
        }
        let previous = self.style;
        if inline_code {
            self.style = TextStyle { fg: Color::Yellow, bold: previous.bold };
        }
        self.push_text(text);
        self.style = previous;
    }

    /// Takes a step through the document.
    pub fn handle(&mut self, event: &MdEvent, h: &Highlighter)
        requires
            old(self).list_depth < usize::MAX,
        ensures
            final(self)@ == handled(old(self)@, event@),
    {
        match event {
            MdEvent::Open(tag) => self.start(tag),
            MdEvent::Close(tag) => self.end(tag, h),
            MdEvent::Words(text) => self.text(text.as_str(), false),
            MdEvent::Verbatim(text) => self.text(text.as_str(), true),
            MdEvent::Break => self.flush_current(),
            MdEvent::Ruler => {
                let line = styled_plain(" ────".to_owned(), Color::BrightBlack);
                proof {
                    lemma_spans_of_push(self.lines@, line);
                }
                self.lines.push(line);
            },
            MdEvent::Ignored => {},
        }
    }

    /// The lines of the document.
    pub fn finish(self) -> (r: Vec<StyledLine>)
        ensures
            spans_of(r@) == finished(self@),
            r.len() > 0,
    {
        let mut s = self;
        s.flush_current();
        if s.lines.len() == 0 {
            let empty: StyledLine = Vec::new();
            s.lines.push(empty);
            assert(spans(empty@) =~= Seq::empty());
            assert(spans_of(s.lines@) =~= seq![Seq::<Span>::empty()]);
        }
        s.lines
    }
}

/// A row has no more cells than the table has columns.
proof fn lemma_row_fits(rows: Seq<Seq<Seq<Span>>>, i: int)
    requires
        0 <= i < rows.len(),
    ensures
        rows[i].len() <= column_count(rows),
    decreases rows.len(),
{
    if i < rows.len() - 1 {
        lemma_row_fits(rows.drop_last(), i);
    }
}

/// How deep lists are nested never exceeds the number of steps.
proof fn lemma_depth(events: Seq<EventView>)
    ensures
        handled_all(events).list_depth <= events.len(),
    decreases events.len(),
{
    if events.len() > 0 {
        lemma_depth(events.drop_last());
    }
}

/// The lines that steps through a document make.
pub fn render_events(events: &Vec<MdEvent>, h: &Highlighter) -> (r: Vec<StyledLine>)
    ensures
        spans_of(r@) == document(event_views(events@)),
        r.len() > 0,
{
    let ghost all = event_views(events@);
    let mut renderer = MarkdownRenderer::new();
    let mut i: usize = 0;
    assert(all.subrange(0, 0) =~= Seq::empty());
    while i < events.len()
        invariant
            i <= events.len(),
            all == event_views(events@),
            renderer@ == handled_all(all.subrange(0, i as int)),
        decreases events.len() - i,
    {
        proof {
            assert(all.subrange(0, i + 1).drop_last() =~= all.subrange(0, i as int));
            assert(all.subrange(0, i + 1).last() == events[i as int]@);
            lemma_depth(all.subrange(0, i as int));
        }
        renderer.handle(&events[i], h);
        i += 1;
    }
    assert(all.subrange(0, i as int) =~= all);
    renderer.finish()
}

/// Renders a document.
pub fn render_markdown(src: &str, h: &Highlighter) -> (r: Vec<StyledLine>)
    ensures
        spans_of(r@) == document(markdown_events(src@)),
        r.len() > 0,
{
    let events = parse_markdown(src);
    render_events(&events, h)
}

} // verus!
