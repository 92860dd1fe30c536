//! The pane that shows a file.

use crate::highlight::{colored_lines, HighlightedLine, Highlighter};
use crate::keys::KeyCode;
use crate::markdown::{code_line, document, markdown_events, render_markdown, styled_code};
use crate::path::{extension, extension_of};
use crate::preview::{
    asked, content_message, has_nul, plain_text, polled, request_view, started, tail_of, Content,
    FilePreview, Preview, PreviewLines, ReadRequest, ReadStatus,
};
use crate::rows::{lesser, one_if, opt_view, row_views, RowSink};
use crate::styled::{
    cells_for_line, cells_for_styled_line, lemma_spans_of_push, line_cells, plain_line, plain_span, spans, spans_of,
    styled_plain, styled_rows, text_rows, wrap_line, wrap_styled_line, Span, StyledLine, StyledSegment, TextStyle,
};
use crate::terminal::{pictures, Cell, CellSize, Color, Picture, PositionedImage};
use crate::text::{
    ascii_lower, decimal, decimal_text, has_prefix, join_with, opt_text, repeat_char, repeated,
    same_text, starts_with, texts, to_ascii_lower,
};
use crate::view::{cells_in, click_row, count_cells_in, inside, row_at, Frame, Viewport};
use crate::width::{abbreviate_start, abbreviated, counted, display_width, width_sum};
use vstd::prelude::*;
use vstd::string::*;

verus! {

/// What is shown where there is no file.
pub open spec fn placeholder() -> Seq<char> {
    "ファイルを選ぶか、AI がファイルを書くとここに表示されます"@
}

/// The widest rows of text.
pub const READER_WRAP_MAX: usize = 100;

/// The free columns to the left of text.
pub const BODY_MARGIN: usize = 1;

/// The colour of line numbers.
#[verifier::allow_in_spec]
pub fn line_number_fg() -> Color
    returns
        (Color::Rgb { rgba: 0x565F_89FF }),
{
    Color::Rgb { rgba: 0x565F_89FF }
}

// ---------------------------------------------------------------------------
// Scrolling
// ---------------------------------------------------------------------------

/// The last position to scroll to: the one with the last line at the bottom.
pub open spec fn scroll_limit(len: nat, visible: nat) -> nat {
    if len > visible {
        (len - visible) as nat
    } else {
        0
    }
}

/// The last position to scroll to.
pub fn reader_scroll_max(len: usize, visible: usize) -> (r: usize)
    ensures
        r == scroll_limit(len as nat, visible as nat),
{
    if len > visible {
        len - visible
    } else {
        0
    }
}

/// A position, or the last one to scroll to if it is beyond that.
pub fn clamp_reader_scroll(offset: usize, len: usize, visible: usize) -> (r: usize)
    ensures
        r == lesser(offset as nat, scroll_limit(len as nat, visible as nat)),
{
    let max = reader_scroll_max(len, visible);
    if offset < max {
        offset
    } else {
        max
    }
}

// ---------------------------------------------------------------------------
// Keys
// ---------------------------------------------------------------------------

#[derive(Debug, Clone, Copy, PartialEq, Eq, Structural)]
pub enum ReaderHeaderAction {
    Edit,
    OpenWithSystem,
}

/// What a key means in the pane.
#[derive(Debug, Clone, Copy, PartialEq, Eq, Structural)]
pub enum ReaderKeyIntent {
    Scroll(i64),
    Page(i64),
    Top,
    Bottom,
    Release,
    Header(ReaderHeaderAction),
    Ignore,
}

/// What a key means in the pane.
pub open spec fn intent_of(code: KeyCode) -> ReaderKeyIntent {
    match code {
        KeyCode::Escape => ReaderKeyIntent::Release,
        KeyCode::ArrowUp | KeyCode::KeyK => ReaderKeyIntent::Scroll(-1i64),
        KeyCode::ArrowDown | KeyCode::KeyJ => ReaderKeyIntent::Scroll(1),
        KeyCode::PageUp => ReaderKeyIntent::Page(-1i64),
        KeyCode::PageDown => ReaderKeyIntent::Page(1),
        KeyCode::Home => ReaderKeyIntent::Top,
        KeyCode::End => ReaderKeyIntent::Bottom,
        KeyCode::KeyE => ReaderKeyIntent::Header(ReaderHeaderAction::Edit),
        KeyCode::KeyO => ReaderKeyIntent::Header(ReaderHeaderAction::OpenWithSystem),
        _ => ReaderKeyIntent::Ignore,
    }
}

/// What a key means in the pane.
pub fn reader_key_intent(code: KeyCode) -> (r: ReaderKeyIntent)
    ensures
        r == intent_of(code),
{
    match code {
        KeyCode::Escape => ReaderKeyIntent::Release,
        KeyCode::ArrowUp | KeyCode::KeyK => ReaderKeyIntent::Scroll(-1),
        KeyCode::ArrowDown | KeyCode::KeyJ => ReaderKeyIntent::Scroll(1),
        KeyCode::PageUp => ReaderKeyIntent::Page(-1),
        KeyCode::PageDown => ReaderKeyIntent::Page(1),
        KeyCode::Home => ReaderKeyIntent::Top,
        KeyCode::End => ReaderKeyIntent::Bottom,
        KeyCode::KeyE => ReaderKeyIntent::Header(ReaderHeaderAction::Edit),
        KeyCode::KeyO => ReaderKeyIntent::Header(ReaderHeaderAction::OpenWithSystem),
        _ => ReaderKeyIntent::Ignore,
    }
}

// ---------------------------------------------------------------------------
// Lines of a document
// ---------------------------------------------------------------------------

/// The colour of a line of a difference.
pub open spec fn diff_color(line: Seq<char>) -> Color {
    if has_prefix(line, "@@"@) {
        Color::Cyan
    } else if has_prefix(line, "+++ "@) || has_prefix(line, "--- "@) || has_prefix(
        line,
        "diff --git"@,
    ) || has_prefix(line, "index "@) || has_prefix(line, "new file"@) || has_prefix(
        line,
        "deleted file"@,
    ) || has_prefix(line, "rename "@) || has_prefix(line, "similarity "@) {
        Color::BrightBlack
    } else if has_prefix(line, "+"@) {
        Color::Green
    } else if has_prefix(line, "-"@) {
        Color::Red
    } else {
        Color::White
    }
}

/// The colour of a line of a difference.
pub fn diff_line_color(line: &str) -> (r: Color)
    ensures
        r == diff_color(line@),
{
    if starts_with(line, "@@") {
        Color::Cyan
    } else if starts_with(line, "+++ ") || starts_with(line, "--- ") {
        Color::BrightBlack
    } else if starts_with(line, "diff --git") || starts_with(line, "index ") || starts_with(
        line,
        "new file",
    ) || starts_with(line, "deleted file") || starts_with(line, "rename ") || starts_with(
        line,
        "similarity ",
    ) {
        Color::BrightBlack
    } else if starts_with(line, "+") {
        Color::Green
    } else if starts_with(line, "-") {
        Color::Red
    } else {
        Color::White
    }
}

/// A row behind a first segment.
pub open spec fn behind(first: Span, row: Seq<Span>) -> Seq<Span> {
    seq![first] + row
}

/// `a - b`, but at least one.
pub open spec fn less_but_one(a: nat, b: nat) -> nat {
    if a > b + 1 {
        (a - b) as nat
    } else {
        1
    }
}

/// The rows of a line, one column in from the left.
pub open spec fn indented_rows(line: Seq<Span>, cols: nat) -> Seq<Seq<Span>> {
    let r = styled_rows(line, less_but_one(cols, BODY_MARGIN as nat));
    Seq::new(
        r.len(),
        |i: int| behind(plain_span(repeated(' ', BODY_MARGIN as nat), Color::White), r[i]),
    )
}

/// `first` and then the segments of `row`.
fn put_behind(first: StyledSegment, row: StyledLine) -> (r: StyledLine)
    ensures
        spans(r@) == behind(first@, spans(row@)),
{
    let mut out: StyledLine = Vec::new();
    out.push(first);
    let mut rest = row;
    out.append(&mut rest);
    assert(spans(out@) =~= behind(first@, spans(row@)));
    out
}

/// Breaks a line into rows, one column in from the left.
pub fn indent_wrapped(line: &StyledLine, cols: usize) -> (r: Vec<StyledLine>)
    ensures
        spans_of(r@) == indented_rows(spans(line@), cols as nat),
{
    let width: usize = if cols > BODY_MARGIN + 1 {
        cols - BODY_MARGIN
    } else {
        1
    };
    let mut wrapped = wrap_styled_line(line, width);
    let ghost wv = spans_of(wrapped@);
    let n = wrapped.len();
    let mut out: Vec<StyledLine> = Vec::new();
    let ghost want = indented_rows(spans(line@), cols as nat);
    while out.len() < n
        invariant
            out.len() <= n,
            n == wrapped.len(),
            n == wv.len(),
            want.len() == n,
            forall|k: int|
                0 <= k < n ==> #[trigger] want[k] == behind(
                    plain_span(repeated(' ', BODY_MARGIN as nat), Color::White),
                    wv[k],
                ),
            forall|k: int| out.len() <= k < n ==> spans((#[trigger] wrapped[k])@) == wv[k],
            forall|k: int| 0 <= k < out.len() ==> spans((#[trigger] out[k])@) == want[k],
        decreases n - out.len(),
    {
        let k = out.len();
        let mut row: StyledLine = Vec::new();
        std::mem::swap(&mut row, &mut wrapped[k]);
        let margin = StyledSegment {
            text: repeat_char(' ', BODY_MARGIN),
            style: TextStyle { fg: Color::White, bold: false },
        };
        out.push(put_behind(margin, row));
    }
    assert(spans_of(out@) =~= want);
    out
}

/// The columns that line numbers take for so many lines: their digits, at
/// least two, and a space.
pub open spec fn gutter(lines: nat) -> nat {
    let d = decimal(
        if lines == 0 {
            1
        } else {
            lines
        },
    ).len();
    if d < 2 {
        3
    } else {
        d + 1
    }
}

/// The columns that line numbers take for so many lines.
pub fn gutter_width(lines: usize) -> (r: usize)
    ensures
        r == gutter(lines as nat),
        3 <= r <= 21,
{
    let n: usize = if lines == 0 {
        1
    } else {
        lines
    };
    let mut d: usize = 1;
    let mut rest: usize = n;
    assert(n <= 0xffff_ffff_ffff_ffff);
    assert(pow10(0) == 1);
    assert(rest * pow10(0) == rest) by (nonlinear_arith)
        requires
            pow10(0) == 1,
    ;
    while rest >= 10
        invariant
            1 <= n,
            1 <= rest <= n <= 0xffff_ffff_ffff_ffff,
            1 <= d <= 20,
            decimal(n as nat).len() == d - 1 + decimal(rest as nat).len(),
            rest * pow10((d - 1) as nat) <= n,
        decreases rest,
    {
        proof {
            reveal_with_fuel(pow10, 2);
            assert((rest / 10) * (10 * pow10((d - 1) as nat)) <= rest * pow10((d - 1) as nat))
                by (nonlinear_arith)
                requires
                    10 * (rest / 10) <= rest,
                    pow10((d - 1) as nat) >= 0,
            ;
            lemma_pow10_small((d - 1) as nat, rest as nat, n as nat);
        }
        rest = rest / 10;
        d = d + 1;
    }
    if d < 2 {
        3
    } else {
        d + 1
    }
}

/// Ten to the power of `n`.
spec fn pow10(n: nat) -> nat
    decreases n,
{
    if n == 0 {
        1
    } else {
        10 * pow10((n - 1) as nat)
    }
}

proof fn lemma_pow10_19()
    ensures
        pow10(19) == 10_000_000_000_000_000_000nat,
{
    reveal_with_fuel(pow10, 20);
}

proof fn lemma_pow10_grows(a: nat, b: nat)
    requires
        a <= b,
    ensures
        pow10(a) <= pow10(b),
    decreases b,
{
    if a < b {
        lemma_pow10_grows(a, (b - 1) as nat);
    }
}

/// A number of at least ten with `d` digits before it has fewer than twenty.
proof fn lemma_pow10_small(d: nat, rest: nat, n: nat)
    requires
        rest >= 10,
        rest * pow10(d) <= n,
        n <= 0xffff_ffff_ffff_ffff,
    ensures
        d < 19,
{
    if d >= 19 {
        lemma_pow10_19();
        lemma_pow10_grows(19, d);
        assert(rest * pow10(d) >= 10 * pow10(d)) by (nonlinear_arith)
            requires
                rest >= 10,
                pow10(d) >= 0,
        ;
    }
}

/// A text with spaces before it, to a width.
pub open spec fn padded_left(s: Seq<char>, width: nat) -> Seq<char> {
    if s.len() < width {
        repeated(' ', (width - s.len()) as nat) + s
    } else {
        s
    }
}

/// What stands before a row of the line with a number: the number for the
/// first row, else spaces.
pub open spec fn row_label(number: nat, row: int, gutter: nat) -> Seq<char> {
    if row == 0 {
        padded_left(decimal(number), (gutter - 1) as nat).push(' ')
    } else {
        repeated(' ', gutter)
    }
}

/// The rows of a line with a number.
pub open spec fn numbered_rows(line: Seq<Span>, number: nat, cols: nat, gutter: nat) -> Seq<Seq<Span>> {
    let r = styled_rows(line, less_but_one(cols, gutter));
    Seq::new(
        r.len(),
        |i: int| behind(plain_span(row_label(number, i, gutter), line_number_fg()), r[i]),
    )
}

/// The rows of the first `n` lines.
pub open spec fn body_rows(source: Seq<Seq<Span>>, cols: nat, numbered: bool, n: int) -> Seq<Seq<Span>>
    decreases n,
{
    if n <= 0 {
        Seq::empty()
    } else {
        body_rows(source, cols, numbered, n - 1) + if numbered {
            numbered_rows(source[n - 1], n as nat, cols, gutter(source.len()))
        } else {
            indented_rows(source[n - 1], cols)
        }
    }
}

fn make_label(number: usize, row: usize, gutter: usize) -> (r: String)
    requires
        gutter >= 1,
    ensures
        r@ == row_label(number as nat, row as int, gutter as nat),
{
    if row != 0 {
        return repeat_char(' ', gutter);
    }
    let digits = decimal_text(number as u64);
    let n = crate::text::chars_of(digits.as_str()).len();
    let mut out = if n < gutter - 1 {
        repeat_char(' ', gutter - 1 - n)
    } else {
        String::new()
    };
    let ghost pad = out@;
    out.append(digits.as_str());
    assert(out@ =~= padded_left(digits@, (gutter - 1) as nat));
    out.push(' ');
    out
}

/// Breaks lines into rows, with line numbers to their left or one column in.
/// Only the first row of a line has its number.
pub fn number_and_wrap(source: &Vec<StyledLine>, cols: usize, numbered: bool) -> (r: Vec<StyledLine>)
    ensures
        spans_of(r@) == body_rows(
            spans_of(source@),
            cols as nat,
            numbered,
            source@.len() as int,
        ),
{
    let ghost sv = spans_of(source@);
    let gw = gutter_width(source.len());
    let body_cols: usize = if cols > gw + 1 {
        cols - gw
    } else {
        1
    };
    let mut out: Vec<StyledLine> = Vec::new();
    let mut i: usize = 0;
    assert(spans_of(out@) =~= Seq::empty());
    while i < source.len()
        invariant
            i <= source.len(),
            sv == spans_of(source@),
            gw == gutter(sv.len()),
            3 <= gw <= 21,
            body_cols == less_but_one(cols as nat, gw as nat),
            spans_of(out@) == body_rows(sv, cols as nat, numbered, i as int),
        decreases source.len() - i,
    {
        let ghost before = spans_of(out@);
        assert(sv[i as int] == spans(source[i as int]@));
        if numbered {
            let mut wrapped = wrap_styled_line(&source[i], body_cols);
            let ghost wv = spans_of(wrapped@);
            let ghost want = numbered_rows(sv[i as int], (i + 1) as nat, cols as nat, gw as nat);
            let n = wrapped.len();
            let mut k: usize = 0;
            assert(before + want.subrange(0, 0) =~= before);
            while k < n
                invariant
                    k <= n,
                    i < source.len(),
                    n == wrapped.len(),
                    n == wv.len(),
                    want.len() == n,
                    3 <= gw,
                    forall|j: int|
                        0 <= j < n ==> #[trigger] want[j] == behind(
                            plain_span(row_label((i + 1) as nat, j, gw as nat), line_number_fg()),
                            wv[j],
                        ),
                    forall|j: int| k <= j < n ==> spans((#[trigger] wrapped[j])@) == wv[j],
                    spans_of(out@) == before + want.subrange(0, k as int),
                decreases n - k,
            {
                let mut row: StyledLine = Vec::new();
                std::mem::swap(&mut row, &mut wrapped[k]);
                let label = StyledSegment {
                    text: make_label(i + 1, k, gw),
                    style: TextStyle { fg: line_number_fg(), bold: false },
                };
                let line = put_behind(label, row);
                proof {
                    lemma_spans_of_push(out@, line);
                }
                out.push(line);
                assert(spans_of(out@) =~= before + want.subrange(0, k + 1));
                k += 1;
            }
            assert(want.subrange(0, k as int) =~= want);
        } else {
            let mut wrapped = indent_wrapped(&source[i], cols);
            let ghost wv = wrapped@;
            out.append(&mut wrapped);
            assert(spans_of(out@) =~= before + spans_of(wv));
        }
        i += 1;
    }
    out
}

// ---------------------------------------------------------------------------
// The pane
// ---------------------------------------------------------------------------

/// What a row of the pane does when it is clicked.
#[derive(Debug)]
pub enum ReaderAction {
    Unpin,
    EditFile(String),
    OpenWithSystem(String),
}

/// The contents of an action.
pub ghost enum Action {
    Unpin,
    EditFile(Seq<char>),
    OpenWithSystem(Seq<char>),
}

impl View for ReaderAction {
    type V = Action;

    open spec fn view(&self) -> Action {
        match *self {
            ReaderAction::Unpin => Action::Unpin,
            ReaderAction::EditFile(p) => Action::EditFile(p@),
            ReaderAction::OpenWithSystem(p) => Action::OpenWithSystem(p@),
        }
    }
}

/// What the pane asks for.
#[derive(Debug)]
pub enum ReaderRequest {
    EditFile(String),
    OpenWithSystem(String),
}

/// The action a request stands for.
pub open spec fn reader_request_view(r: Option<ReaderRequest>) -> Option<Action> {
    match r {
        Some(ReaderRequest::EditFile(p)) => Some(Action::EditFile(p@)),
        Some(ReaderRequest::OpenWithSystem(p)) => Some(Action::OpenWithSystem(p@)),
        None => None,
    }
}

/// What became of a key.
#[derive(Debug)]
pub enum ReaderKeyResult {
    Consumed,
    ReleaseFocus,
    Request(ReaderRequest),
}

/// The state of the pane.
pub ghost struct Reader {
    pub viewport: Viewport,
    pub cell: CellSize,
    pub preview: Preview,
    pub pinned: bool,
    pub focused: bool,
    pub scroll: nat,
    pub notice: Option<Seq<char>>,
    pub editor: Seq<char>,
    /// The frame has not been drawn since it was made.
    pub updated: bool,
}

/// The columns of the pane.
pub open spec fn columns(m: Reader) -> nat {
    cells_in(m.viewport.w, m.cell.w)
}

/// The rows of the pane.
pub open spec fn row_count(m: Reader) -> nat {
    cells_in(m.viewport.h, m.cell.h)
}

/// The columns of a row of text.
pub open spec fn wrap_cols(m: Reader) -> nat {
    lesser(less_but_one(columns(m), 1), READER_WRAP_MAX as nat)
}

/// The rows that are left for text.
pub open spec fn body_slots(m: Reader) -> nat {
    let header = one_if(m.preview.target is Some) * 2 + one_if(m.preview.content is Diff) + one_if(
        m.preview.target_abs is Some,
    ) * 2 + one_if(m.notice is Some) + one_if(m.focused);
    if row_count(m) > header {
        (row_count(m) - header) as nat
    } else {
        0
    }
}

/// Whether a path is that of a Markdown file, by its ending.
pub open spec fn names_markdown(path: Seq<char>) -> bool {
    match extension(path) {
        Some(e) => ascii_lower(e) == "md"@ || ascii_lower(e) == "markdown"@,
        None => false,
    }
}

/// Whether a path is that of a Markdown file.
pub fn is_markdown_path(path: &str) -> (r: bool)
    ensures
        r == names_markdown(path@),
{
    match extension_of(path) {
        Some(e) => {
            let low = to_ascii_lower(e.as_str());
            same_text(low.as_str(), "md") || same_text(low.as_str(), "markdown")
        },
        None => false,
    }
}

/// The lines of a text before they are broken into rows: in their colours
/// where they have any, else white.
pub open spec fn source_spans(
    lines: Seq<Seq<char>>,
    highlighted: Option<Seq<Seq<(Color, Seq<char>)>>>,
) -> Seq<Seq<Span>> {
    match highlighted {
        Some(h) => Seq::new(h.len(), |i: int| code_line(h[i])),
        None => Seq::new(lines.len(), |i: int| plain_line(lines[i], Color::White)),
    }
}

/// The rows of a line of a difference.
pub open spec fn diff_line_rows(line: Seq<char>, cols: nat) -> Seq<Seq<Span>> {
    let r = text_rows(line, cols);
    Seq::new(r.len(), |i: int| plain_line(r[i], diff_color(line)))
}

/// The rows of the first `n` lines of a difference.
pub open spec fn diff_rows(lines: Seq<Seq<char>>, cols: nat, n: int) -> Seq<Seq<Span>>
    decreases n,
{
    if n <= 0 {
        Seq::empty()
    } else {
        diff_rows(lines, cols, n - 1) + diff_line_rows(lines[n - 1], cols)
    }
}

/// The rows of the document the pane shows. A pinned Markdown file is
/// rendered; other text has line numbers unless its start is missing.
pub open spec fn document_rows(m: Reader) -> Seq<Seq<Span>> {
    match m.preview.target {
        None => seq![plain_line(placeholder(), Color::BrightBlack)],
        Some(target) => match m.preview.content {
            Content::Text { lines, highlighted, truncated } => if m.pinned && names_markdown(
                target,
            ) {
                let d = document(markdown_events(join_with(lines, '\n')));
                body_rows(d, wrap_cols(m), false, d.len() as int)
            } else {
                let s = source_spans(lines, highlighted);
                body_rows(s, wrap_cols(m), !truncated, s.len() as int)
            },
            Content::Diff(lines) => diff_rows(lines, wrap_cols(m), lines.len() as int),
            _ => seq![plain_line(content_message(m.preview.content), Color::BrightBlack)],
        },
    }
}

/// The pane scrolled no further than its document goes.
pub open spec fn clamped(m: Reader) -> Reader {
    Reader { scroll: lesser(m.scroll, scroll_limit(document_rows(m).len(), body_slots(m))), ..m }
}

/// The pane with a new frame.
pub open spec fn repainted(m: Reader) -> Reader {
    Reader { updated: true, ..clamped(m) }
}

/// A row of the pane: its cells and its action.
pub type Row = (Seq<Cell>, Option<Action>);

/// A row with text in one colour.
pub open spec fn text_row(m: Reader, text: Seq<char>, fg: Color, action: Option<Action>) -> (
    Seq<Cell>,
    Option<Action>,
) {
    (line_cells(plain_line(text, fg), columns(m)), action)
}

/// The mark of a file that stays shown.
pub open spec fn pin_mark(m: Reader) -> Seq<char> {
    if m.pinned {
        " 📌(クリックで追従に戻る)"@
    } else {
        ""@
    }
}

/// The first row: the path, its start cut if need be, and the pin.
pub open spec fn title_row(m: Reader) -> (Seq<Cell>, Option<Action>) {
    let taken = counted(1 + counted(width_sum(pin_mark(m))));
    let room = if columns(m) > taken {
        (columns(m) - taken) as nat
    } else {
        0
    };
    text_row(
        m,
        " "@ + abbreviated(m.preview.target->0, room) + pin_mark(m),
        Color::BrightWhite,
        if m.pinned {
            Some(Action::Unpin)
        } else {
            None
        },
    )
}

/// The rows above the document.
pub open spec fn header_rows(m: Reader) -> Seq<(Seq<Cell>, Option<Action>)> {
    let none = Seq::<(Seq<Cell>, Option<Action>)>::empty();
    let title = if m.preview.target is Some {
        if m.preview.content is Diff {
            seq![title_row(m), text_row(m, " ● HEAD との差分"@, Color::Cyan, None)]
        } else {
            seq![title_row(m)]
        }
    } else {
        none
    };
    let tools = match m.preview.target_abs {
        Some(abs) => seq![
            text_row(
                m,
                " [編集: "@ + m.editor + "]"@,
                Color::Cyan,
                Some(Action::EditFile(abs)),
            ),
            text_row(m, " [OSの既定アプリで開く]"@, Color::Cyan, Some(Action::OpenWithSystem(abs))),
        ],
        None => none,
    };
    let note = match m.notice {
        Some(n) => seq![text_row(m, n, Color::BrightBlack, None)],
        None => none,
    };
    let top = title + tools + note;
    if top.len() == 0 {
        top
    } else {
        top.push(text_row(m, separator_text(), Color::BrightBlack, None))
    }
}

/// The rule under the header.
pub open spec fn separator_text() -> Seq<char> {
    " \u{2500}\u{2500}\u{2500}\u{2500}\u{2500}\u{2500}\u{2500}\u{2500}\u{2500}\u{2500}\u{2500}\u{2500}\u{2500}"@
}

/// The rows for header and document: one less where the last is for hints.
pub open spec fn usable_rows(m: Reader) -> nat {
    (row_count(m) - one_if(m.focused)) as nat
}

/// The first row of the document that is shown when `room` rows are: a pinned
/// file stays where it was scrolled to, another shows its end.
pub open spec fn first_shown(m: Reader, room: nat) -> nat {
    let len = document_rows(m).len();
    if m.pinned {
        lesser(m.scroll, scroll_limit(len, room))
    } else {
        scroll_limit(len, room)
    }
}

/// The rows of the document that are shown when `room` rows are.
pub open spec fn shown_rows(m: Reader, room: nat) -> Seq<(Seq<Cell>, Option<Action>)> {
    let d = document_rows(m);
    let first = first_shown(m, room);
    Seq::new(
        lesser(room, (d.len() - first) as nat),
        |i: int| (line_cells(d[first + i], columns(m)), None),
    )
}

/// All rows of the pane.
pub open spec fn pane_rows(m: Reader) -> Seq<(Seq<Cell>, Option<Action>)> {
    let header = header_rows(m);
    let room = if usable_rows(m) > header.len() {
        (usable_rows(m) - header.len()) as nat
    } else {
        0
    };
    let all = if m.preview.content is Image {
        header
    } else {
        header + shown_rows(m, room)
    };
    let cut = if all.len() > usable_rows(m) {
        all.subrange(0, usable_rows(m) as int)
    } else {
        all
    };
    if m.focused {
        cut.push(
            text_row(
                m,
                " j/k:スクロール e:編集 o:既定アプリ Esc:端末"@,
                Color::Rgb { rgba: 0x565F_89FF },
                None,
            ),
        )
    } else {
        cut
    }
}

/// The image the pane shows, under the header and in the middle.
pub open spec fn pane_images(m: Reader) -> Seq<Picture> {
    match m.preview.content {
        Content::Image { rgb, w, h } => {
            let free = if m.viewport.w > w {
                m.viewport.w - w
            } else {
                0
            };
            seq![
                Picture {
                    row: header_rows(m).len() as int,
                    col: (free / 2) / m.cell.w as int,
                    height: h as nat,
                    width: w as nat,
                    data: rgb,
                },
            ]
        },
        _ => Seq::empty(),
    }
}

/// A pane without a file.
pub open spec fn reader_at_start(viewport: Viewport, cell: CellSize, editor: Seq<char>) -> Reader {
    clamped(
        Reader {
            viewport,
            cell,
            preview: Preview {
                target: None,
                target_abs: None,
                content: Content::Empty,
                pending: false,
                last_read: None,
                queued: None,
                fit: (640, 480),
            },
            pinned: false,
            focused: false,
            scroll: 0,
            notice: None,
            editor,
            updated: true,
        },
    )
}

/// The pane that shows a file.
#[derive(Debug)]
pub struct ReaderPane {
    pub viewport: Viewport,
    pub cell: CellSize,
    pub preview: FilePreview,
    pub pinned: bool,
    pub focused: bool,
    pub reader_scroll: usize,
    pub reader_lines: Vec<StyledLine>,
    pub reader_notice: Option<String>,
    pub row_actions: Vec<Option<ReaderAction>>,
    /// The name of the editor that is offered.
    pub editor: String,
    pub frame: Frame,
    /// The frame has not been drawn since it changed.
    pub updated: bool,
}

impl View for ReaderPane {
    type V = Reader;

    open spec fn view(&self) -> Reader {
        Reader {
            viewport: self.viewport,
            cell: self.cell,
            preview: self.preview@,
            pinned: self.pinned,
            focused: self.focused,
            scroll: self.reader_scroll as nat,
            notice: opt_text(self.reader_notice),
            editor: self.editor@,
            updated: self.updated,
        }
    }
}

impl ReaderPane {
    /// A cell has a size, the rows of the document are those of the file, and
    /// what is drawn is what the state says.
    pub open spec fn wf(&self) -> bool {
        &&& self.has_document()
        &&& self.is_drawn()
    }

    pub open spec fn has_document(&self) -> bool {
        &&& self.cell.w > 0
        &&& self.cell.h > 0
        &&& spans_of(self.reader_lines@) == document_rows(self@)
    }

    pub open spec fn is_drawn(&self) -> bool {
        &&& self.frame.lines.len() == self.row_actions.len()
        &&& row_views(self.frame.lines@, self.row_actions@) == pane_rows(self@)
        &&& pictures(self.frame.images@) == pane_images(self@)
        &&& self.frame.bg_color == Color::Background
        &&& !self.frame.skip_default_bg
    }

    /// An empty pane.
    pub fn new(viewport: Viewport, cell: CellSize, editor: &str, h: &Highlighter) -> (r: Self)
        requires
            cell.w > 0,
            cell.h > 0,
        ensures
            r.wf(),
            r@ == reader_at_start(viewport, cell, editor@),
    {
        let mut pane = ReaderPane {
            viewport,
            cell,
            preview: FilePreview::new(),
            pinned: false,
            focused: false,
            reader_scroll: 0,
            reader_lines: Vec::new(),
            reader_notice: None,
            row_actions: Vec::new(),
            editor: editor.to_owned(),
            frame: Frame {
                lines: Vec::new(),
                images: Vec::new(),
                bg_color: Color::Background,
                skip_default_bg: false,
            },
            updated: true,
        };
        pane.refresh_reader_document(h);
        pane.rebuild();
        pane
    }

    fn count_cols(&self) -> (r: usize)
        requires
            self.cell.w > 0,
        ensures
            r == columns(self@),
            1 <= r <= 0xffff_ffff,
    {
        count_cells_in(self.viewport.w, self.cell.w)
    }

    fn count_rows(&self) -> (r: usize)
        requires
            self.cell.h > 0,
        ensures
            r == row_count(self@),
            1 <= r <= 0xffff_ffff,
    {
        count_cells_in(self.viewport.h, self.cell.h)
    }

    fn reader_wrap_cols(&self) -> (r: usize)
        requires
            self.cell.w > 0,
        ensures
            r == wrap_cols(self@),
    {
        let cols = self.count_cols();
        let c: usize = if cols > 2 {
            cols - 1
        } else {
            1
        };
        if c < READER_WRAP_MAX {
            c
        } else {
            READER_WRAP_MAX
        }
    }

    fn reader_body_slots(&self) -> (r: usize)
        requires
            self.cell.h > 0,
        ensures
            r == body_slots(self@),
            r <= 0xffff_ffff,
    {
        let n = self.count_rows();
        let mut header: usize = 0;
        if self.preview.target.is_some() {
            header += 2;
        }
        if self.preview.is_diff() {
            header += 1;
        }
        if self.preview.target_abs.is_some() {
            header += 2;
        }
        if self.reader_notice.is_some() {
            header += 1;
        }
        if self.focused {
            header += 1;
        }
        if n > header {
            n - header
        } else {
            0
        }
    }

    /// Makes the rows of the document anew.
    fn refresh_reader_document(&mut self, h: &Highlighter)
        requires
            old(self).cell.w > 0,
            old(self).cell.h > 0,
        ensures
            final(self).has_document(),
            final(self)@ == clamped(old(self)@),
            final(self).frame == old(self).frame,
            final(self).row_actions == old(self).row_actions,
    {
        let ghost m = self@;
        let lines = self.make_document(h);
        self.reader_lines = lines;
        let slots = self.reader_body_slots();
        assert(spans_of(self.reader_lines@).len() == self.reader_lines.len());
        self.reader_scroll = clamp_reader_scroll(self.reader_scroll, self.reader_lines.len(), slots);
        assert(document_rows(self@) == document_rows(m));
    }

    /// The rows of the document.
    fn make_document(&self, h: &Highlighter) -> (r: Vec<StyledLine>)
        requires
            self.cell.w > 0,
        ensures
            spans_of(r@) == document_rows(self@),
    {
        let target = match self.preview.target() {
            Some(t) => t,
            None => {
                return one_line("ファイルを選ぶか、AI がファイルを書くとここに表示されます");
            },
        };
        let cols = self.reader_wrap_cols();
        match self.preview.lines() {
            PreviewLines::Text(text) => {
                if self.pinned && is_markdown_path(target.as_str()) {
                    let src = crate::text::join_texts(&text.lines, '\n');
                    let rendered = render_markdown(src.as_str(), h);
                    assert(spans_of(rendered@).len() == rendered.len());
                    number_and_wrap(&rendered, cols, false)
                } else {
                    let source = source_of(&text.lines, &text.highlighted);
                    assert(spans_of(source@).len() == source.len());
                    number_and_wrap(&source, cols, !text.truncated)
                }
            },
            PreviewLines::Diff(lines) => wrap_diff(lines, cols),
            PreviewLines::Message(message) => one_line(message),
        }
    }

    /// Draws the pane anew.
    fn rebuild(&mut self)
        requires
            old(self).has_document(),
        ensures
            final(self).wf(),
            final(self)@ == (Reader { updated: true, ..old(self)@ }),
    {
        let ghost m = self@;
        let cols = self.count_cols();
        let mut usable = self.count_rows();
        if self.focused {
            usable = usable - 1;
        }
        let mut sink = self.make_header(cols);
        let header_len = sink.lines.len();
        let ghost header = header_rows(m);
        assert(row_views(sink.lines@, sink.actions@).len() == header_len);
        let mut images: Vec<PositionedImage> = Vec::new();
        let is_image = match self.preview.image() {
            Some((rgb, w, hh)) => {
                let free: u32 = if self.viewport.w > w {
                    self.viewport.w - w
                } else {
                    0
                };
                let data = rgb.clone();
                assert(data@ =~= rgb@);
                let col: u32 = (free / 2) / self.cell.w;
                proof {
                    assert((free / 2) / self.cell.w <= free / 2) by (nonlinear_arith)
                        requires
                            self.cell.w >= 1,
                    ;
                }
                let im = PositionedImage {
                    row: header_len as isize,
                    col: col as isize,
                    height: hh as u64,
                    width: w as u64,
                    data,
                };
                images.push(im);
                assert(pictures(images@) =~= pane_images(m));
                true
            },
            None => {
                assert(pictures(images@) =~= pane_images(m));
                false
            },
        };
        let ghost room: nat = if usable > header_len {
            (usable - header_len) as nat
        } else {
            0
        };
        let ghost shown = shown_rows(m, room);
        let ghost all = if is_image {
            header
        } else {
            header + shown
        };
        assert(spans_of(self.reader_lines@).len() == self.reader_lines.len());
        if !is_image && usable > header_len {
            let space = usable - header_len;
            let len = self.reader_lines.len();
            let first = if self.pinned {
                clamp_reader_scroll(self.reader_scroll, len, space)
            } else {
                reader_scroll_max(len, space)
            };
            let count: usize = if space < len - first {
                space
            } else {
                len - first
            };
            let ghost d = document_rows(m);
            let mut i: usize = 0;
            assert(header + shown.subrange(0, 0) =~= header);
            while i < count
                invariant
                    i <= count,
                    first + count <= len,
                    len == self.reader_lines.len(),
                    shown.len() == count,
                    cols == columns(m),
                    d == spans_of(self.reader_lines@),
                    forall|k: int|
                        0 <= k < count ==> #[trigger] shown[k] == (
                            line_cells(d[first + k], columns(m)),
                            None::<Action>,
                        ),
                    sink.holds(header + shown.subrange(0, i as int)),
                    *self == *old(self),
                decreases count - i,
            {
                let cells = cells_for_styled_line(&self.reader_lines[first + i], cols);
                assert(d[first + i] == spans(self.reader_lines[first + i]@));
                sink.push(cells, None, Ghost(header + shown.subrange(0, i as int)));
                assert((header + shown.subrange(0, i as int)).push(shown[i as int]) =~= header
                    + shown.subrange(0, i + 1));
                i += 1;
            }
            assert(shown.subrange(0, i as int) =~= shown);
        } else if !is_image {
            assert(header + shown =~= header);
        }
        assert(sink.holds(all));
        let ghost cut = if all.len() > usable {
            all.subrange(0, usable as int)
        } else {
            all
        };
        sink.truncate(usable, Ghost(all));
        if self.focused {
            let cells = cells_for_line(
                " j/k:スクロール e:編集 o:既定アプリ Esc:端末",
                cols,
                Color::Rgb { rgba: 0x565F_89FF },
            );
            sink.push(cells, None, Ghost(cut));
        }
        self.row_actions = sink.actions;
        self.frame = Frame {
            lines: sink.lines,
            images,
            bg_color: Color::Background,
            skip_default_bg: false,
        };
        self.updated = true;
        proof {
            lemma_same_content(m, self@);
        }
    }

    /// The rows above the document.
    fn make_header(&self, cols: usize) -> (r: RowSink<ReaderAction>)
        requires
            cols == columns(self@),
        ensures
            r.holds(header_rows(self@)),
            r.lines.len() <= 6,
    {
        let ghost m = self@;
        let ghost none = Seq::<(Seq<Cell>, Option<Action>)>::empty();
        let mut sink: RowSink<ReaderAction> = RowSink::new();
        let ghost mut r = none;
        if let Some(target) = self.preview.target() {
            let suffix: &'static str = if self.pinned {
                " 📌(クリックで追従に戻る)"
            } else {
                ""
            };
            let taken = display_width(suffix).saturating_add(1);
            let room: usize = if cols > taken {
                cols - taken
            } else {
                0
            };
            let path = abbreviate_start(target.as_str(), room);
            let mut text = " ".to_owned();
            text.append(path.as_str());
            text.append(suffix);
            let action = if self.pinned {
                Some(ReaderAction::Unpin)
            } else {
                None
            };
            let cells = cells_for_line(text.as_str(), cols, Color::BrightWhite);
            proof {
                assert((cells@, opt_view(action)) == title_row(m));
            }
            sink.push(cells, action, Ghost(r));
            proof {
                r = r.push(title_row(m));
            }
            if self.preview.is_diff() {
                sink.push(cells_for_line(" ● HEAD との差分", cols, Color::Cyan), None, Ghost(r));
                proof {
                    r = r.push(text_row(m, " ● HEAD との差分"@, Color::Cyan, None));
                }
            }
        }
        let ghost title = r;
        if let Some(abs) = self.preview.target_abs() {
            let mut text = " [編集: ".to_owned();
            text.append(self.editor.as_str());
            text.append("]");
            sink.push(
                cells_for_line(text.as_str(), cols, Color::Cyan),
                Some(ReaderAction::EditFile(abs.clone())),
                Ghost(r),
            );
            proof {
                r = r.push(
                    text_row(
                        m,
                        " [編集: "@ + m.editor + "]"@,
                        Color::Cyan,
                        Some(Action::EditFile(abs@)),
                    ),
                );
            }
            sink.push(
                cells_for_line(" [OSの既定アプリで開く]", cols, Color::Cyan),
                Some(ReaderAction::OpenWithSystem(abs.clone())),
                Ghost(r),
            );
            proof {
                r = r.push(
                    text_row(
                        m,
                        " [OSの既定アプリで開く]"@,
                        Color::Cyan,
                        Some(Action::OpenWithSystem(abs@)),
                    ),
                );
            }
        }
        if let Some(notice) = &self.reader_notice {
            sink.push(
                cells_for_line(notice.as_str(), cols, Color::BrightBlack),
                None,
                Ghost(r),
            );
            proof {
                r = r.push(text_row(m, notice@, Color::BrightBlack, None));
            }
        }
        assert(row_views(sink.lines@, sink.actions@).len() == sink.lines.len());
        if sink.lines.len() > 0 {
            sink.push(
                cells_for_line(
                    " \u{2500}\u{2500}\u{2500}\u{2500}\u{2500}\u{2500}\u{2500}\u{2500}\u{2500}\u{2500}\u{2500}\u{2500}\u{2500}",
                    cols,
                    Color::BrightBlack,
                ),
                None,
                Ghost(r),
            );
            proof {
                r = r.push(text_row(m, separator_text(), Color::BrightBlack, None));
            }
        }
        assert(r =~= header_rows(m));
        assert(row_views(sink.lines@, sink.actions@).len() == sink.lines.len());
        sink
    }
}

/// The rectangle's size less some cells for margins, for an image to fit in.
pub open spec fn image_room(m: Reader) -> (u32, u32) {
    let w = m.viewport.w - m.cell.w * 2;
    let h = m.viewport.h - m.cell.h * 5;
    (
        if w < 1 {
            1u32
        } else {
            w as u32
        },
        if h < 1 {
            1u32
        } else {
            h as u32
        },
    )
}

/// The pane with the room for images worked out anew.
pub open spec fn fitted(m: Reader) -> Reader {
    Reader { preview: Preview { fit: image_room(m), ..m.preview }, ..m }
}

/// The pane in another rectangle, and the read that asks for: an image is
/// read again where the room for it changed.
#[verifier::opaque]
pub open spec fn moved(m: Reader, viewport: Viewport, now: u64) -> (
    Reader,
    Option<(Seq<char>, Seq<char>, (u32, u32))>,
) {
    let placed = Reader { viewport, ..m };
    let f = fitted(placed);
    if f.preview.fit != m.preview.fit && f.preview.content is Image && f.preview.target is Some
        && f.preview.target_abs is Some {
        (
            repainted(Reader { preview: started(f.preview, now), ..f }),
            Some((f.preview.target_abs->0, f.preview.target->0, f.preview.fit)),
        )
    } else {
        (repainted(f), None)
    }
}

/// A pane that follows changes is pinned where it shows the end, as soon as
/// it is scrolled.
pub open spec fn pinned_at_tail(m: Reader) -> Reader {
    if m.pinned || m.preview.target is None {
        m
    } else {
        let p = Reader { pinned: true, ..m };
        Reader { scroll: scroll_limit(document_rows(p).len(), body_slots(p)), ..p }
    }
}

/// The pane scrolled to a position, or as far as the document goes. It gets a
/// new frame where that moves or pins it.
pub open spec fn scrolled_to(m: Reader, offset: int) -> Reader {
    let p = pinned_at_tail(m);
    let limit = scroll_limit(document_rows(p).len(), body_slots(p));
    let scroll = if offset < 0 {
        0
    } else {
        lesser(offset as nat, limit)
    };
    Reader {
        scroll,
        updated: m.updated || scroll != p.scroll || !m.pinned && m.preview.target is Some,
        ..p
    }
}

/// The pane with the focus or without it.
pub open spec fn focus_set(m: Reader, focused: bool) -> Reader {
    Reader { focused, updated: m.updated || focused != m.focused, ..m }
}

/// The pane scrolled by a number of rows.
#[verifier::opaque]
pub open spec fn scrolled_by(m: Reader, delta: int) -> Reader {
    scrolled_to(m, pinned_at_tail(m).scroll + delta)
}

/// The rows by which a page key scrolls: all but one that are shown.
pub open spec fn page_rows(m: Reader) -> nat {
    if body_slots(m) > 2 {
        (body_slots(m) - 1) as nat
    } else {
        1
    }
}

/// The path as it is shown: below `root` where it lies there.
pub open spec fn shown_path(abs: Seq<char>, root: Option<Seq<char>>) -> Seq<char> {
    match root {
        None => abs,
        Some(r) => match crate::path::stripped(abs, r) {
            Some(p) => if p.len() == 0 {
                abs
            } else {
                p
            },
            None => abs,
        },
    }
}

/// The path as it is shown.
fn display_path(abs: &str, root: Option<&str>) -> (r: String)
    ensures
        r@ == shown_path(
            abs@,
            match root {
                Some(x) => Some(x@),
                None => None,
            },
        ),
{
    if let Some(base) = root {
        if let Some(p) = crate::path::strip_prefix(abs, base) {
            if !p.as_str().is_empty() {
                return p;
            }
        }
    }
    abs.to_owned()
}

/// The pane after a file was chosen, and the read that asks for.
#[verifier::opaque]
pub open spec fn previewed(m: Reader, path: Seq<char>, root: Option<Seq<char>>, now: u64) -> (
    Reader,
    Option<(Seq<char>, Seq<char>, (u32, u32))>,
) {
    let f = fitted(Reader { pinned: true, scroll: 0, notice: None, ..m });
    let shown = shown_path(path, root);
    (
        repainted(
            Reader {
                preview: started(
                    Preview {
                        target: Some(shown),
                        target_abs: Some(path),
                        content: Content::Empty,
                        ..f.preview
                    },
                    now,
                ),
                ..f
            },
        ),
        Some((path, shown, f.preview.fit)),
    )
}

/// The pane after a file changed, and the read that asks for: a pinned pane
/// does not follow.
#[verifier::opaque]
pub open spec fn followed(m: Reader, path: Seq<char>, root: Option<Seq<char>>, now: u64) -> (
    Reader,
    Option<(Seq<char>, Seq<char>, (u32, u32))>,
) {
    if m.pinned {
        (m, None)
    } else {
        let f = fitted(m);
        let shown = shown_path(path, root);
        let (p, req) = asked(
            Preview { target: Some(shown), target_abs: Some(path), ..f.preview },
            path,
            shown,
            false,
            now,
        );
        (repainted(Reader { preview: p, ..f }), req)
    }
}

/// The pane with a file that was sent to it.
#[verifier::opaque]
pub open spec fn remote_shown(m: Reader, path: Seq<char>, bytes: Seq<u8>) -> Reader {
    repainted(
        Reader {
            pinned: true,
            scroll: 0,
            notice: Some(" (remote)"@),
            preview: Preview {
                target: Some(path),
                target_abs: None,
                pending: false,
                queued: None,
                content: if has_nul(bytes) {
                    Content::Binary
                } else {
                    plain_text(tail_of(bytes, usize::MAX as nat))
                },
                ..m.preview
            },
            ..m
        },
    )
}

/// The pane when its file is read again, and the read that asks for.
#[verifier::opaque]
pub open spec fn reread(m: Reader, now: u64) -> (
    Reader,
    Option<(Seq<char>, Seq<char>, (u32, u32))>,
) {
    let p = m.preview;
    let known = p.target is Some && p.target_abs is Some;
    (
        repainted(
            Reader {
                notice: None,
                preview: if known {
                    started(p, now)
                } else {
                    p
                },
                ..m
            },
        ),
        if known {
            Some((p.target_abs->0, p.target->0, p.fit))
        } else {
            None
        },
    )
}

/// The pane when it hears of its read, whether that changed what it shows,
/// and the read that comes next.
#[verifier::opaque]
pub open spec fn heard(m: Reader, status: ReadStatus, now: u64) -> (
    Reader,
    bool,
    Option<(Seq<char>, Seq<char>, (u32, u32))>,
) {
    let (p, changed, req) = polled(m.preview, status, now);
    let next = Reader { preview: p, ..m };
    (
        if changed {
            repainted(next)
        } else {
            next
        },
        changed,
        req,
    )
}

/// The pane when the editor is not to be found.
#[verifier::opaque]
pub open spec fn editor_missing(m: Reader, command: Seq<char>) -> Reader {
    repainted(
        Reader {
            notice: Some(
                " （編集コマンドが見つかりません: "@ + command
                    + "。config.toml の editor で設定できます）"@,
            ),
            ..m
        },
    )
}

/// The contents of an optional text.
pub open spec fn opt_str(o: Option<&str>) -> Option<Seq<char>> {
    match o {
        Some(s) => Some(s@),
        None => None,
    }
}

/// The pane after an action, and what it asks for.
#[verifier::opaque]
pub open spec fn acted(m: Reader, a: Action) -> (Reader, Option<Action>) {
    match a {
        Action::Unpin => (
            repainted(Reader { pinned: false, scroll: 0, notice: None, ..m }),
            None,
        ),
        other => (m, Some(other)),
    }
}

/// The action of the row at a pixel of the pane.
#[verifier::opaque]
pub open spec fn action_at(m: Reader, x: int, y: int) -> Option<Action> {
    let r = pane_rows(m);
    let k = row_at(m.viewport, m.cell.h, y);
    if inside(m.viewport, x, y) && k < r.len() {
        r[k].1
    } else {
        None
    }
}

/// Whether an action is the one a header key stands for.
pub open spec fn is_header_action(a: Option<Action>, which: ReaderHeaderAction) -> bool {
    match a {
        Some(Action::EditFile(_)) => which == ReaderHeaderAction::Edit,
        Some(Action::OpenWithSystem(_)) => which == ReaderHeaderAction::OpenWithSystem,
        _ => false,
    }
}

/// The first action of a kind among rows, from row `from` on.
pub open spec fn find_action(
    r: Seq<(Seq<Cell>, Option<Action>)>,
    which: ReaderHeaderAction,
    from: int,
) -> Option<Action>
    decreases r.len() - from,
{
    if from < 0 || from >= r.len() {
        None
    } else if is_header_action(r[from].1, which) {
        r[from].1
    } else {
        find_action(r, which, from + 1)
    }
}

/// The pane after a key, and what became of the key: an action to ask for,
/// or nothing; the pane gives up the focus only on Escape.
pub open spec fn keyed(m: Reader, code: KeyCode) -> (Reader, Option<Action>) {
    match intent_of(code) {
        ReaderKeyIntent::Scroll(d) => (scrolled_by(m, d as int), None),
        ReaderKeyIntent::Page(p) => (scrolled_by(m, p * page_rows(m)), None),
        ReaderKeyIntent::Top => (scrolled_to(m, 0), None),
        ReaderKeyIntent::Bottom => (scrolled_to(m, usize::MAX as int), None),
        ReaderKeyIntent::Header(which) => (m, find_action(pane_rows(m), which, 0)),
        _ => (m, None),
    }
}

impl ReaderPane {
    pub fn contains(&self, x: i64, y: i64) -> (r: bool)
        ensures
            r == inside(self.viewport, x as int, y as int),
    {
        self.viewport.contains(x, y)
    }

    pub fn cell_height(&self) -> (r: u32)
        ensures
            r == self.cell.h,
    {
        self.cell.h
    }

    pub fn needs_redraw(&self) -> (r: bool)
        ensures
            r == self.updated,
    {
        self.updated
    }

    /// Notes that the frame has been drawn.
    pub fn drawn(&mut self)
        ensures
            *final(self) == (ReaderPane { updated: false, ..*old(self) }),
            final(self)@ == (Reader { updated: false, ..old(self)@ }),
            old(self).wf() ==> final(self).wf(),
    {
        let ghost m = self@;
        self.updated = false;
        proof {
            lemma_same_content(m, self@);
        }
    }

    pub fn is_following(&self) -> (r: bool)
        ensures
            r == !self.pinned,
    {
        !self.pinned
    }

    pub fn viewport(&self) -> (r: Viewport)
        ensures
            r == self.viewport,
    {
        self.viewport
    }

    pub fn target_abs(&self) -> (r: Option<&String>)
        ensures
            (match r {
                Some(s) => Some(s@),
                None => None,
            }) == self@.preview.target_abs,
    {
        self.preview.target_abs()
    }

    /// Works out the room for images; `true` if it changed.
    fn update_fit(&mut self) -> (r: bool)
        ensures
            final(self)@ == fitted(old(self)@),
            r == (final(self)@.preview.fit != old(self)@.preview.fit),
            final(self).frame == old(self).frame,
            final(self).row_actions == old(self).row_actions,
            final(self).reader_lines == old(self).reader_lines,
            final(self).cell == old(self).cell,
    {
        let w: i64 = self.viewport.w as i64 - self.cell.w as i64 * 2;
        let hh: i64 = self.viewport.h as i64 - self.cell.h as i64 * 5;
        let fw: u32 = if w < 1 {
            1
        } else {
            w as u32
        };
        let fh: u32 = if hh < 1 {
            1
        } else {
            hh as u32
        };
        let ghost before = self.preview.fit;
        let changed = self.preview.set_fit(fw, fh);
        changed
    }

    /// Moves the pane to another rectangle.
    pub fn set_viewport(&mut self, viewport: Viewport, h: &Highlighter, now: u64) -> (r: Option<
        ReadRequest,
    >)
        requires
            old(self).wf(),
        ensures
            final(self).wf(),
            (final(self)@, request_view(r)) == moved(old(self)@, viewport, now),
    {
        proof {
            reveal(moved);
        }
        self.viewport = viewport;
        let changed = self.update_fit();
        let is_image = self.preview.image().is_some();
        let req = if changed && is_image {
            self.preview.refresh_current(now)
        } else {
            None
        };
        self.refresh_reader_document(h);
        self.rebuild();
        req
    }

    /// A click at a pixel: what its row asks for.
    pub fn on_click(&mut self, x: i64, y: i64, h: &Highlighter) -> (r: Option<ReaderRequest>)
        requires
            old(self).wf(),
        ensures
            final(self).wf(),
            (final(self)@, reader_request_view(r)) == (match action_at(
                old(self)@,
                x as int,
                y as int,
            ) {
                Some(a) => acted(old(self)@, a),
                None => (old(self)@, None),
            }),
    {
        proof {
            reveal(acted);
            reveal(action_at);
        }
        if !self.contains(x, y) {
            return None;
        }
        let row = click_row(self.viewport, self.cell.h, y);
        assert(pane_rows(self@).len() == self.row_actions.len());
        if row >= self.row_actions.len() as u64 {
            return None;
        }
        let k = row as usize;
        assert(pane_rows(self@)[k as int] == row_views(self.frame.lines@, self.row_actions@)[k as int]);
        let action = match &self.row_actions[k] {
            Some(ReaderAction::Unpin) => ReaderAction::Unpin,
            Some(ReaderAction::EditFile(p)) => ReaderAction::EditFile(p.clone()),
            Some(ReaderAction::OpenWithSystem(p)) => ReaderAction::OpenWithSystem(p.clone()),
            None => {
                return None;
            },
        };
        self.run_action(action, h)
    }

    pub fn set_focused(&mut self, focused: bool)
        requires
            old(self).wf(),
        ensures
            final(self).wf(),
            final(self)@ == focus_set(old(self)@, focused),
    {
        if self.focused == focused {
            return;
        }
        self.focused = focused;
        assert(document_rows(self@) == document_rows(old(self)@));
        self.rebuild();
    }

    /// The wheel turned by a number of rows, up if positive.
    pub fn on_scroll(&mut self, delta: i32, h: &Highlighter)
        requires
            old(self).wf(),
        ensures
            final(self).wf(),
            final(self)@ == if delta == 0 {
                old(self)@
            } else {
                scrolled_by(old(self)@, -(delta as int))
            },
    {
        proof {
            reveal(scrolled_by);
        }
        if delta != 0 {
            self.scroll_by(-(delta as i64), h);
        }
    }

    /// A key event. Whatever the key is, it is not for the shell.
    pub fn on_key(&mut self, pressed: bool, code: Option<KeyCode>, h: &Highlighter) -> (r:
        ReaderKeyResult)
        requires
            old(self).wf(),
        ensures
            final(self).wf(),
            !pressed || code is None ==> final(self)@ == old(self)@ && r is Consumed,
            pressed && code is Some ==> {
                let (next, asks) = keyed(old(self)@, code->0);
                &&& final(self)@ == next
                &&& (intent_of(code->0) == ReaderKeyIntent::Release <==> r is ReleaseFocus)
                &&& (asks is Some <==> r is Request)
                &&& (asks is Some ==> reader_request_view(Some(r->Request_0)) == asks)
            },
    {
        if !pressed {
            return ReaderKeyResult::Consumed;
        }
        let c = match code {
            Some(c) => c,
            None => {
                return ReaderKeyResult::Consumed;
            },
        };
        match reader_key_intent(c) {
            ReaderKeyIntent::Release => ReaderKeyResult::ReleaseFocus,
            ReaderKeyIntent::Scroll(delta) => {
                self.scroll_by(delta, h);
                ReaderKeyResult::Consumed
            },
            ReaderKeyIntent::Page(pages) => {
                let step = self.page_step() as i64;
                proof {
                    assert(pages == 1 || pages == -1);
                    assert(pages * step == if pages == 1 {
                        step as int
                    } else {
                        -step
                    }) by (nonlinear_arith)
                        requires
                            pages == 1 || pages == -1,
                    ;
                }
                self.scroll_by(pages * step, h);
                ReaderKeyResult::Consumed
            },
            ReaderKeyIntent::Top => {
                self.scroll_to(0, h);
                ReaderKeyResult::Consumed
            },
            ReaderKeyIntent::Bottom => {
                self.scroll_to(usize::MAX, h);
                ReaderKeyResult::Consumed
            },
            ReaderKeyIntent::Header(action) => match self.on_header_key(action) {
                Some(req) => ReaderKeyResult::Request(req),
                None => ReaderKeyResult::Consumed,
            },
            ReaderKeyIntent::Ignore => ReaderKeyResult::Consumed,
        }
    }

    fn page_step(&self) -> (r: usize)
        requires
            self.cell.h > 0,
        ensures
            r == page_rows(self@),
            r <= 0xffff_ffff,
    {
        let slots = self.reader_body_slots();
        if slots > 2 {
            slots - 1
        } else {
            1
        }
    }

    /// What the header offers under a key, if it is shown.
    pub fn on_header_key(&self, action: ReaderHeaderAction) -> (r: Option<ReaderRequest>)
        requires
            self.wf(),
        ensures
            reader_request_view(r) == find_action(pane_rows(self@), action, 0),
    {
        let ghost all = pane_rows(self@);
        let mut i: usize = 0;
        while i < self.row_actions.len()
            invariant
                i <= self.row_actions.len(),
                self.wf(),
                all == pane_rows(self@),
                find_action(all, action, i as int) == find_action(all, action, 0),
            decreases self.row_actions.len() - i,
        {
            assert(all[i as int] == row_views(self.frame.lines@, self.row_actions@)[i as int]);
            assert(all.len() == self.row_actions.len());
            match &self.row_actions[i] {
                Some(ReaderAction::EditFile(p)) => {
                    if action == ReaderHeaderAction::Edit {
                        return Some(ReaderRequest::EditFile(p.clone()));
                    }
                },
                Some(ReaderAction::OpenWithSystem(p)) => {
                    if action == ReaderHeaderAction::OpenWithSystem {
                        return Some(ReaderRequest::OpenWithSystem(p.clone()));
                    }
                },
                _ => {},
            }
            i += 1;
        }
        assert(all.len() == self.row_actions.len());
        None
    }

    /// Scrolls by a number of rows, down if positive.
    pub fn scroll_by(&mut self, delta: i64, h: &Highlighter)
        requires
            old(self).wf(),
        ensures
            final(self).wf(),
            final(self)@ == scrolled_by(old(self)@, delta as int),
    {
        proof {
            reveal(scrolled_by);
        }
        let pinned_now = self.pin_at_tail(h);
        assert(spans_of(self.reader_lines@).len() == self.reader_lines.len());
        let next: usize = if delta < 0 {
            let up: u64 = if delta == i64::MIN {
                0x8000_0000_0000_0000
            } else {
                (-delta) as u64
            };
            if up >= self.reader_scroll as u64 {
                0
            } else {
                self.reader_scroll - up as usize
            }
        } else if delta as u64 > (usize::MAX - self.reader_scroll) as u64 {
            usize::MAX
        } else {
            self.reader_scroll + delta as usize
        };
        self.set_scroll(next, pinned_now);
    }

    fn scroll_to(&mut self, offset: usize, h: &Highlighter)
        requires
            old(self).wf(),
        ensures
            final(self).wf(),
            final(self)@ == scrolled_to(old(self)@, offset as int),
    {
        let pinned_now = self.pin_at_tail(h);
        self.set_scroll(offset, pinned_now);
    }

    /// Pins a pane that follows changes where it shows the end; `true` if it
    /// did, and the pane has to be drawn.
    fn pin_at_tail(&mut self, h: &Highlighter) -> (r: bool)
        requires
            old(self).wf(),
        ensures
            final(self).has_document(),
            final(self)@ == pinned_at_tail(old(self)@),
            r == (!old(self).pinned && old(self)@.preview.target is Some),
            !r ==> final(self).is_drawn(),
    {
        if self.pinned || self.preview.target.is_none() {
            return false;
        }
        self.pinned = true;
        let ghost p = self@;
        self.refresh_reader_document(h);
        let slots = self.reader_body_slots();
        assert(spans_of(self.reader_lines@).len() == self.reader_lines.len());
        self.reader_scroll = reader_scroll_max(self.reader_lines.len(), slots);
        assert(document_rows(self@) == document_rows(p));
        true
    }

    /// Scrolls to a position, and draws the pane if it moved or has to be.
    fn set_scroll(&mut self, offset: usize, draw: bool)
        requires
            old(self).has_document(),
            !draw ==> old(self).is_drawn(),
        ensures
            final(self).wf(),
            ({
                let scroll = lesser(
                    offset as nat,
                    scroll_limit(document_rows(old(self)@).len(), body_slots(old(self)@)),
                );
                final(self)@ == (Reader {
                    scroll,
                    updated: old(self).updated || draw || scroll != old(self)@.scroll,
                    ..old(self)@
                })
            }),
    {
        let slots = self.reader_body_slots();
        assert(spans_of(self.reader_lines@).len() == self.reader_lines.len());
        let clamped = clamp_reader_scroll(offset, self.reader_lines.len(), slots);
        if clamped != self.reader_scroll {
            self.reader_scroll = clamped;
            assert(document_rows(self@) == document_rows(old(self)@));
            self.rebuild();
        } else if draw {
            self.rebuild();
        }
    }

    /// Shows a file and keeps it.
    pub fn preview_pinned(
        &mut self,
        abs_path: &str,
        root: Option<&str>,
        h: &Highlighter,
        now: u64,
    ) -> (r: Option<ReadRequest>)
        requires
            old(self).wf(),
        ensures
            final(self).wf(),
            (final(self)@, request_view(r)) == previewed(old(self)@, abs_path@, opt_str(root), now),
    {
        proof {
            reveal(previewed);
        }
        let shown = display_path(abs_path, root);
        self.pinned = true;
        self.reader_scroll = 0;
        self.reader_notice = None;
        self.update_fit();
        let req = self.preview.set_target_abs(abs_path, shown.as_str(), now);
        self.refresh_reader_document(h);
        self.rebuild();
        req
    }

    /// Shows a file that changed, unless another one is kept.
    pub fn follow_target(&mut self, abs_path: &str, root: Option<&str>, h: &Highlighter, now: u64)
        -> (r: Option<ReadRequest>)
        requires
            old(self).wf(),
        ensures
            final(self).wf(),
            (final(self)@, request_view(r)) == followed(old(self)@, abs_path@, opt_str(root), now),
    {
        proof {
            reveal(followed);
        }
        if self.pinned {
            return None;
        }
        let shown = display_path(abs_path, root);
        self.update_fit();
        let req = self.preview.notify_target_abs(abs_path, shown.as_str(), now);
        self.refresh_reader_document(h);
        self.rebuild();
        req
    }

    /// Shows bytes from elsewhere and keeps them.
    pub fn show_remote_content(&mut self, path: &str, bytes: Vec<u8>, h: &Highlighter)
        requires
            old(self).wf(),
        ensures
            final(self).wf(),
            final(self)@ == remote_shown(old(self)@, path@, bytes@),
    {
        proof {
            reveal(remote_shown);
        }
        self.pinned = true;
        self.reader_scroll = 0;
        self.reader_notice = Some(" (remote)".to_owned());
        self.preview.set_memory_content(path, bytes);
        self.refresh_reader_document(h);
        self.rebuild();
    }

    /// Reads the file shown again.
    pub fn refresh_current(&mut self, h: &Highlighter, now: u64) -> (r: Option<ReadRequest>)
        requires
            old(self).wf(),
        ensures
            final(self).wf(),
            (final(self)@, request_view(r)) == reread(old(self)@, now),
    {
        proof {
            reveal(reread);
        }
        let req = self.preview.refresh_current(now);
        self.reader_notice = None;
        self.refresh_reader_document(h);
        self.rebuild();
        req
    }

    /// Takes up what has become of the read under way. The first result says
    /// whether what is shown changed.
    pub fn poll(&mut self, status: ReadStatus, h: &Highlighter, now: u64) -> (r: (
        bool,
        Option<ReadRequest>,
    ))
        requires
            old(self).wf(),
        ensures
            final(self).wf(),
            (final(self)@, r.0, request_view(r.1)) == heard(old(self)@, status, now),
    {
        proof {
            reveal(heard);
        }
        let ghost m = self@;
        let (changed, req) = self.preview.poll(status, now);
        if changed {
            self.refresh_reader_document(h);
            self.rebuild();
        } else {
            proof {
                lemma_same_content(m, self@);
            }
        }
        (changed, req)
    }

    /// Says that the editor was not found.
    pub fn show_missing_editor(&mut self, command: &str, h: &Highlighter)
        requires
            old(self).wf(),
        ensures
            final(self).wf(),
            final(self)@ == editor_missing(old(self)@, command@),
    {
        proof {
            reveal(editor_missing);
        }
        let mut text = " （編集コマンドが見つかりません: ".to_owned();
        text.append(command);
        text.append("。config.toml の editor で設定できます）");
        self.reader_notice = Some(text);
        self.refresh_reader_document(h);
        self.rebuild();
    }

    fn run_action(&mut self, action: ReaderAction, h: &Highlighter) -> (r: Option<ReaderRequest>)
        requires
            old(self).wf(),
        ensures
            final(self).wf(),
            (final(self)@, reader_request_view(r)) == acted(old(self)@, action@),
    {
        proof {
            reveal(acted);
        }
        match action {
            ReaderAction::Unpin => {
                self.pinned = false;
                self.reader_scroll = 0;
                self.reader_notice = None;
                self.refresh_reader_document(h);
                self.rebuild();
                None
            },
            ReaderAction::EditFile(path) => Some(ReaderRequest::EditFile(path)),
            ReaderAction::OpenWithSystem(path) => Some(ReaderRequest::OpenWithSystem(path)),
        }
    }
}

/// What is shown depends only on the file shown and its contents, not on the
/// reads under way nor on whether the frame was drawn.
proof fn lemma_same_content(a: Reader, b: Reader)
    requires
        b == (Reader { preview: b.preview, updated: b.updated, ..a }),
        a.preview.target == b.preview.target,
        a.preview.target_abs == b.preview.target_abs,
        a.preview.content == b.preview.content,
    ensures
        document_rows(a) == document_rows(b),
        pane_rows(a) == pane_rows(b),
        pane_images(a) == pane_images(b),
{
    assert(document_rows(a) == document_rows(b));
    assert(header_rows(a) =~= header_rows(b));
    let room = if usable_rows(a) > header_rows(a).len() {
        (usable_rows(a) - header_rows(a).len()) as nat
    } else {
        0
    };
    assert(shown_rows(a, room) =~= shown_rows(b, room));
    assert(pane_rows(a) =~= pane_rows(b));
}

/// A document of one faint line.
fn one_line(text: &str) -> (r: Vec<StyledLine>)
    ensures
        spans_of(r@) == seq![plain_line(text@, Color::BrightBlack)],
{
    let mut v: Vec<StyledLine> = Vec::new();
    v.push(styled_plain(text.to_owned(), Color::BrightBlack));
    assert(spans_of(v@) =~= seq![plain_line(text@, Color::BrightBlack)]);
    v
}

/// The lines of a text before they are broken into rows.
fn source_of(lines: &Vec<String>, highlighted: &Option<Vec<HighlightedLine>>) -> (r: Vec<StyledLine>)
    ensures
        spans_of(r@) == source_spans(
            texts(lines@),
            match *highlighted {
                Some(h) => Some(colored_lines(h@)),
                None => None,
            },
        ),
{
    let mut out: Vec<StyledLine> = Vec::new();
    match highlighted {
        Some(h) => {
            let mut i: usize = 0;
            while i < h.len()
                invariant
                    i <= h.len(),
                    out.len() == i,
                    forall|k: int|
                        0 <= k < i ==> spans((#[trigger] out[k])@) == code_line(
                            colored_lines(h@)[k],
                        ),
                decreases h.len() - i,
            {
                assert(colored_lines(h@)[i as int] == crate::highlight::colored(h[i as int]@));
                out.push(styled_code(&h[i]));
                i += 1;
            }
            assert(spans_of(out@) =~= source_spans(texts(lines@), Some(colored_lines(h@))));
        },
        None => {
            let mut i: usize = 0;
            while i < lines.len()
                invariant
                    i <= lines.len(),
                    out.len() == i,
                    forall|k: int|
                        0 <= k < i ==> spans((#[trigger] out[k])@) == plain_line(
                            lines[k]@,
                            Color::White,
                        ),
                decreases lines.len() - i,
            {
                out.push(styled_plain(lines[i].clone(), Color::White));
                i += 1;
            }
            assert(spans_of(out@) =~= source_spans(texts(lines@), None));
        },
    }
    out
}

/// The rows of a difference.
fn wrap_diff(lines: &Vec<String>, cols: usize) -> (r: Vec<StyledLine>)
    ensures
        spans_of(r@) == diff_rows(texts(lines@), cols as nat, lines@.len() as int),
{
    let ghost lv = texts(lines@);
    let mut out: Vec<StyledLine> = Vec::new();
    let mut i: usize = 0;
    assert(spans_of(out@) =~= Seq::empty());
    while i < lines.len()
        invariant
            i <= lines.len(),
            lv == texts(lines@),
            spans_of(out@) == diff_rows(lv, cols as nat, i as int),
        decreases lines.len() - i,
    {
        let ghost before = spans_of(out@);
        let color = diff_line_color(lines[i].as_str());
        let pieces = wrap_line(lines[i].as_str(), cols);
        let ghost want = diff_line_rows(lv[i as int], cols as nat);
        assert(texts(pieces@).len() == pieces.len());
        let mut k: usize = 0;
        assert(before + want.subrange(0, 0) =~= before);
        while k < pieces.len()
            invariant
                k <= pieces.len(),
                want.len() == pieces.len(),
                forall|j: int|
                    0 <= j < pieces.len() ==> #[trigger] want[j] == plain_line(
                        pieces[j]@,
                        color,
                    ),
                spans_of(out@) == before + want.subrange(0, k as int),
            decreases pieces.len() - k,
        {
            let line = styled_plain(pieces[k].clone(), color);
            proof {
                lemma_spans_of_push(out@, line);
            }
            out.push(line);
            assert(spans_of(out@) =~= before + want.subrange(0, k + 1));
            k += 1;
        }
        assert(want.subrange(0, k as int) =~= want);
        i += 1;
    }
    out
}

} // verus!
