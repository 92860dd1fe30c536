//! What becomes of the parts of a Markdown document.

use crate::highlight::block_lines;
use crate::markdown::{
    body_style, cell_width, code_lines, column_count, column_width, document, finished, handled,
    handled_all, row_line, rule_text, table_lines, without_newlines, EventView, Rendering,
    TableState, TagView,
};
use crate::styled::{Span, TextStyle};
use crate::terminal::Color;
use crate::text::{join_with, lemma_pieces_join, repeated, words};
use vstd::prelude::*;
use vstd::string::*;

verus! {

/// The text of a line.
pub open spec fn text_of(line: Seq<Span>) -> Seq<char>
    decreases line.len(),
{
    if line.len() == 0 {
        Seq::empty()
    } else {
        text_of(line.drop_last()) + line.last().text
    }
}

proof fn lemma_text_push(line: Seq<Span>, s: Span)
    ensures
        text_of(line.push(s)) == text_of(line) + s.text,
{
    assert(line.push(s).drop_last() =~= line);
}

proof fn lemma_text_one(s: Span)
    ensures
        text_of(seq![s]) == s.text,
{
    assert(seq![s] =~= Seq::<Span>::empty().push(s));
    lemma_text_push(Seq::empty(), s);
    assert(Seq::<char>::empty() + s.text =~= s.text);
}

/// The text of all lines, and of the one under way, without line ends.
pub open spec fn text_so_far(s: Rendering) -> Seq<char> {
    texts_of(s.lines) + text_of(s.current)
}

/// The text of lines one after the other.
pub open spec fn texts_of(lines: Seq<Seq<Span>>) -> Seq<char>
    decreases lines.len(),
{
    if lines.len() == 0 {
        Seq::empty()
    } else {
        texts_of(lines.drop_last()) + text_of(lines.last())
    }
}

proof fn lemma_texts_push(lines: Seq<Seq<Span>>, l: Seq<Span>)
    ensures
        texts_of(lines.push(l)) == texts_of(lines) + text_of(l),
{
    assert(lines.push(l).drop_last() =~= lines);
}

/// Ordinary text is under way: no picture is described, and no code block is
/// open.
pub open spec fn in_text(s: Rendering) -> bool {
    s.image_alt is None && !s.in_code
}

/// Words are added to the line under way, in its style; no line is begun or
/// ended by them.
pub proof fn law_words_join_the_line(s: Rendering, t: Seq<char>)
    requires
        in_text(s),
    ensures
        handled(s, EventView::Words(t)).lines == s.lines,
        text_of(handled(s, EventView::Words(t)).current) == text_of(s.current) + t,
        t.len() > 0 ==> handled(s, EventView::Words(t)).current.last().style == s.style,
        handled(s, EventView::Words(t)).style == s.style,
{
    if t.len() > 0 {
        lemma_text_push(s.current, Span { text: t, style: s.style });
    } else {
        assert(text_of(s.current) + t =~= text_of(s.current));
    }
}

/// A break ends the line under way. What was said stays, and what follows is
/// in a line of its own.
pub proof fn law_break_ends_the_line(s: Rendering)
    ensures
        handled(s, EventView::Break).current.len() == 0,
        s.current.len() > 0 ==> handled(s, EventView::Break).lines == s.lines.push(s.current),
        s.current.len() == 0 ==> handled(s, EventView::Break).lines == s.lines,
        text_so_far(handled(s, EventView::Break)) == text_so_far(s),
        handled(s, EventView::Break).style == s.style,
{
    if s.current.len() > 0 {
        lemma_texts_push(s.lines, s.current);
        assert(texts_of(s.lines) + text_of(s.current) + Seq::<char>::empty() =~= texts_of(s.lines)
            + text_of(s.current));
    }
}

/// Texts on different sides of a break never share a line: they end up in two
/// lines, one below the other.
pub proof fn law_break_parts_texts(s: Rendering, a: Seq<char>, b: Seq<char>)
    requires
        in_text(s),
        s.current.len() == 0,
        a.len() > 0,
        b.len() > 0,
    ensures
        ({
            let r = handled(
                handled(handled(s, EventView::Words(a)), EventView::Break),
                EventView::Words(b),
            );
            let all = finished(r);
            &&& all.len() == s.lines.len() + 2
            &&& all.subrange(0, s.lines.len() as int) == s.lines
            &&& text_of(all[s.lines.len() as int]) == a
            &&& text_of(all[s.lines.len() as int + 1]) == b
        }),
{
    let r = handled(
        handled(handled(s, EventView::Words(a)), EventView::Break),
        EventView::Words(b),
    );
    assert(s.current =~= Seq::empty());
    assert(Seq::<Span>::empty().push(Span { text: a, style: s.style }) =~= seq![
        Span { text: a, style: s.style },
    ]);
    assert(Seq::<Span>::empty().push(Span { text: b, style: s.style }) =~= seq![
        Span { text: b, style: s.style },
    ]);
    lemma_text_one(Span { text: a, style: s.style });
    lemma_text_one(Span { text: b, style: s.style });
    assert(finished(r).subrange(0, s.lines.len() as int) =~= s.lines);
}

proof fn lemma_handled_push(events: Seq<EventView>, e: EventView)
    ensures
        handled_all(events.push(e)) == handled(handled_all(events), e),
{
    assert(events.push(e).drop_last() =~= events);
}

/// A paragraph of two texts and a break has exactly two lines.
pub proof fn law_paragraph_with_break(a: Seq<char>, b: Seq<char>)
    requires
        a.len() > 0,
        b.len() > 0,
    ensures
        ({
            let all = document(
                seq![
                    EventView::Open(TagView::Paragraph),
                    EventView::Words(a),
                    EventView::Break,
                    EventView::Words(b),
                    EventView::Close(TagView::Paragraph),
                ],
            );
            all.len() == 2 && text_of(all[0]) == a && text_of(all[1]) == b
        }),
{
    let e0 = Seq::<EventView>::empty();
    let e1 = e0.push(EventView::Open(TagView::Paragraph));
    let e2 = e1.push(EventView::Words(a));
    let e3 = e2.push(EventView::Break);
    let e4 = e3.push(EventView::Words(b));
    let e5 = e4.push(EventView::Close(TagView::Paragraph));
    lemma_handled_push(e0, EventView::Open(TagView::Paragraph));
    lemma_handled_push(e1, EventView::Words(a));
    lemma_handled_push(e2, EventView::Break);
    lemma_handled_push(e3, EventView::Words(b));
    lemma_handled_push(e4, EventView::Close(TagView::Paragraph));
    assert(e5 =~= seq![
        EventView::Open(TagView::Paragraph),
        EventView::Words(a),
        EventView::Break,
        EventView::Words(b),
        EventView::Close(TagView::Paragraph),
    ]);
    law_break_parts_texts(handled_all(e1), a, b);
}

/// The end of a paragraph, of an item and of a quotation ends the line, like
/// the end of a heading.
pub proof fn law_blocks_end_lines(s: Rendering, tag: TagView)
    requires
        tag is Paragraph || tag is Item || tag is BlockQuote || tag is Heading,
    ensures
        handled(s, EventView::Close(tag)).current.len() == 0,
        text_so_far(handled(s, EventView::Close(tag))) == text_so_far(s),
        s.current.len() > 0 ==> handled(s, EventView::Close(tag)).lines == s.lines.push(s.current),
        tag is Heading ==> handled(s, EventView::Close(tag)).style == body_style(),
        body_style() == (TextStyle { fg: Color::White, bold: false }),
{
    law_break_ends_the_line(s);
}

/// Blocks outside of lists are kept apart by one empty line.
pub proof fn law_blocks_are_kept_apart(s: Rendering, tag: TagView)
    requires
        tag is Paragraph || tag is Heading || tag is CodeBlock || tag is Fence || tag is Table || tag
            is BlockQuote,
        s.current.len() == 0,
    ensures
        ({
            let r = handled(s, EventView::Open(tag));
            &&& s.list_depth == 0 && s.lines.len() > 0 && cell_width(s.lines.last()) > 0 ==> r.lines
                == s.lines.push(Seq::empty())
            &&& s.list_depth > 0 || s.lines.len() == 0 ==> r.lines == s.lines
            &&& s.lines.len() > 0 && cell_width(s.lines.last()) == 0 ==> r.lines == s.lines
        }),
{
}

/// A heading is a line in bold with a mark before it; what follows is ordinary
/// text again.
pub proof fn law_heading_is_marked(s: Rendering, level: u8, t: Seq<char>)
    requires
        in_text(s),
        s.current.len() == 0,
        t.len() > 0,
    ensures
        ({
            let r = handled(
                handled(handled(s, EventView::Open(TagView::Heading(level))), EventView::Words(t)),
                EventView::Close(TagView::Heading(level)),
            );
            let line = r.lines.last();
            &&& r.lines.len() > 0
            &&& line.len() == 2
            &&& line[0].style.bold && line[1].style.bold
            &&& line[0].style.fg == line[1].style.fg
            &&& line[1].text == t
            &&& level <= 1 ==> line[0].text == "■ "@
            &&& level == 2 ==> line[0].text == "◆ "@
            &&& level == 3 ==> line[0].text == "▸ "@
            &&& level == 4 ==> line[0].text == "  ▸ "@
            &&& level >= 5 ==> line[0].text == "  · "@
            &&& !r.style.bold
        }),
{
    reveal_strlit("■ ");
    reveal_strlit("◆ ");
    reveal_strlit("▸ ");
    reveal_strlit("  ▸ ");
    reveal_strlit("  · ");
}

/// Strong text is bold, and the text behind it is not.
pub proof fn law_strong_text_is_bold(s: Rendering, t: Seq<char>)
    requires
        in_text(s),
        t.len() > 0,
    ensures
        ({
            let r = handled(handled(s, EventView::Open(TagView::Strong)), EventView::Words(t));
            let after = handled(r, EventView::Close(TagView::Strong));
            &&& r.current.last().text == t
            &&& r.current.last().style == (TextStyle { fg: s.style.fg, bold: true })
            &&& after.style == (TextStyle { fg: s.style.fg, bold: false })
            &&& after.current == r.current
        }),
{
}

/// Code within a line is yellow, and the text behind it is as before.
pub proof fn law_inline_code_is_yellow(s: Rendering, t: Seq<char>)
    requires
        in_text(s),
        t.len() > 0,
    ensures
        ({
            let r = handled(s, EventView::Verbatim(t));
            &&& r.lines == s.lines
            &&& r.current == s.current.push(
                Span { text: t, style: TextStyle { fg: Color::Yellow, bold: s.style.bold } },
            )
            &&& r.style == s.style
        }),
{
}

/// An item begins a line of its own with a bullet, indented by two columns for
/// each list around its own.
pub proof fn law_items_are_bulleted(s: Rendering)
    requires
        s.list_depth > 0,
    ensures
        ({
            let r = handled(s, EventView::Open(TagView::Item));
            &&& r.current.len() == 1
            &&& r.current[0].text == repeated(' ', 2 * (s.list_depth - 1) as nat) + "• "@
            &&& s.current.len() > 0 ==> r.lines == s.lines.push(s.current)
            &&& s.current.len() == 0 ==> r.lines == s.lines
        }),
        handled(handled(s, EventView::Open(TagView::List)), EventView::Close(TagView::List)).list_depth
            == s.list_depth,
        handled(s, EventView::Open(TagView::List)).list_depth == s.list_depth + 1,
{
    reveal_strlit("• ");
}

/// A quotation begins with a bar.
pub proof fn law_quotations_are_barred(s: Rendering)
    requires
        s.current.len() == 0,
    ensures
        handled(s, EventView::Open(TagView::BlockQuote)).current.len() == 1,
        handled(s, EventView::Open(TagView::BlockQuote)).current[0].text == "│ "@,
        handled(s, EventView::Open(TagView::BlockQuote)).current[0].style.fg == Color::BrightBlack,
{
}

/// A rule is a line of its own.
pub proof fn law_rules_are_lines(s: Rendering)
    ensures
        handled(s, EventView::Ruler).lines.len() == s.lines.len() + 1,
        handled(s, EventView::Ruler).lines.drop_last() == s.lines,
        text_of(handled(s, EventView::Ruler).lines.last()) == " ────"@,
        handled(s, EventView::Ruler).current == s.current,
        handled(s, EventView::Ignored) == s,
{
    let l = crate::styled::plain_line(" ────"@, Color::BrightBlack);
    assert(handled(s, EventView::Ruler).lines.drop_last() =~= s.lines);
    lemma_text_one(l[0]);
    assert(l =~= seq![l[0]]);
}

/// A picture is told by its description in brackets.
pub proof fn law_pictures_are_described(s: Rendering, t: Seq<char>)
    requires
        in_text(s),
    ensures
        ({
            let r = handled(handled(s, EventView::Open(TagView::Image)), EventView::Words(t));
            let after = handled(r, EventView::Close(TagView::Image));
            &&& r.current == s.current && r.lines == s.lines
            &&& after.lines == s.lines
            &&& after.current.len() == s.current.len() + 1
            &&& after.current.last().text == "[画像: "@ + t + "]"@
            &&& in_text(after)
        }),
{
    reveal_strlit("[画像: ");
    assert(Seq::<char>::empty() + t =~= t);
}

/// What stands in a code block is kept for its end, whatever it is, and then
/// becomes lines of their own in the language that its fence names first. The
/// line feeds at its end are left out.
pub proof fn law_code_blocks_keep_their_code(s: Rendering, info: Seq<char>, t: Seq<char>)
    requires
        s.image_alt is None,
        s.current.len() == 0,
    ensures
        ({
            let open = handled(s, EventView::Open(TagView::Fence(info)));
            let r = handled(open, EventView::Words(t));
            let after = handled(r, EventView::Close(TagView::CodeBlock));
            &&& open.in_code && open.code.len() == 0
            &&& words(info).len() > 0 ==> open.lang == words(info)[0]
            &&& words(info).len() == 0 ==> open.lang.len() == 0
            &&& handled(s, EventView::Open(TagView::CodeBlock)).lang.len() == 0
            &&& r.lines == open.lines && r.code == t
            &&& !after.in_code
            &&& after.style == body_style()
            &&& without_newlines(t).len() > 0 ==> after.lines == open.lines + code_lines(
                without_newlines(t),
                open.lang,
            )
            &&& without_newlines(t).len() == 0 ==> after.lines == open.lines
        }),
{
    assert(Seq::<char>::empty() + t =~= t);
}

// ---------------------------------------------------------------------------
// Tables
// ---------------------------------------------------------------------------

/// A column is as wide as its widest cell: no cell is wider, and where one has
/// a width at all, one has that of the column.
pub proof fn law_column_holds_its_cells(rows: Seq<Seq<Seq<Span>>>, column: int, i: int)
    requires
        0 <= i < rows.len(),
        0 <= column < rows[i].len(),
    ensures
        cell_width(rows[i][column]) <= column_width(rows, column),
        exists|k: int|
            0 <= k < rows.len() && column < (#[trigger] rows[k]).len() && cell_width(
                rows[k][column],
            ) == column_width(rows, column),
        rows[i].len() <= column_count(rows),
    decreases rows.len(),
{
    let before = rows.drop_last();
    if i < rows.len() - 1 {
        assert(before[i] == rows[i]);
        law_column_holds_its_cells(before, column, i);
        let k = choose|k: int|
            0 <= k < before.len() && column < (#[trigger] before[k]).len() && cell_width(
                before[k][column],
            ) == column_width(before, column);
        assert(rows[k] == before[k]);
        if column_width(rows, column) != column_width(before, column) {
            assert(rows[rows.len() - 1] == rows.last());
        }
    } else {
        assert(rows[rows.len() - 1] == rows.last());
        if column_width(rows, column) != cell_width(rows.last()[column]) {
            lemma_width_attained(before, column);
            let k = choose|k: int|
                0 <= k < before.len() && column < (#[trigger] before[k]).len() && cell_width(
                    before[k][column],
                ) == column_width(before, column);
            assert(rows[k] == before[k]);
        }
    }
}

proof fn lemma_width_attained(rows: Seq<Seq<Seq<Span>>>, column: int)
    requires
        0 <= column,
        column_width(rows, column) > 0,
    ensures
        exists|k: int|
            0 <= k < rows.len() && column < (#[trigger] rows[k]).len() && cell_width(
                rows[k][column],
            ) == column_width(rows, column),
    decreases rows.len(),
{
    if rows.len() > 0 {
        let before = rows.drop_last();
        assert(rows[rows.len() - 1] == rows.last());
        if column_width(rows, column) == column_width(before, column) {
            lemma_width_attained(before, column);
            let k = choose|k: int|
                0 <= k < before.len() && column < (#[trigger] before[k]).len() && cell_width(
                    before[k][column],
                ) == column_width(before, column);
            assert(rows[k] == before[k]);
        }
    }
}

/// A row shows its cells in their order, with a bar before each but the first
/// and spaces up to the width of the column behind each but the last.
pub proof fn law_row_shows_its_cells(row: Seq<Seq<Span>>, widths: Seq<nat>, c: int)
    requires
        0 <= c < row.len() <= widths.len(),
    ensures
        ({
            let before = row_line(row, widths, c);
            let after = row_line(row, widths, c + 1);
            let barred = if c > 0 {
                before.len() + 1
            } else {
                before.len()
            };
            &&& after.subrange(0, before.len() as int) == before
            &&& after.len() >= barred + row[c].len()
            &&& after.subrange(barred as int, (barred + row[c].len()) as int) == row[c]
            &&& c > 0 ==> after[before.len() as int].text == " │ "@
            &&& c + 1 < row.len() && widths[c] > cell_width(row[c]) ==> after.last().text
                == repeated(' ', (widths[c] - cell_width(row[c])) as nat)
            &&& c + 1 == row.len() ==> after.len() == barred + row[c].len()
        }),
{
    let before = row_line(row, widths, c);
    let after = row_line(row, widths, c + 1);
    let barred: int = if c > 0 {
        before.len() as int + 1
    } else {
        before.len() as int
    };
    assert(after.subrange(0, before.len() as int) =~= before);
    assert(after.subrange(barred, barred + row[c].len()) =~= row[c]);
}

proof fn lemma_table_lines(t: TableState, widths: Seq<nat>, n: int)
    requires
        0 <= n <= t.rows.len(),
        t.head_rows <= 1,
    ensures
        t.head_rows == 0 ==> table_lines(t, widths, n).len() == n,
        t.head_rows == 1 && n >= 1 ==> table_lines(t, widths, n).len() == n + 1,
        t.head_rows == 0 ==> forall|i: int|
            0 <= i < n ==> #[trigger] table_lines(t, widths, n)[i] == row_line(
                t.rows[i],
                widths,
                t.rows[i].len() as int,
            ),
        t.head_rows == 1 && n >= 1 ==> table_lines(t, widths, n)[0] == row_line(
            t.rows[0],
            widths,
            t.rows[0].len() as int,
        ),
        t.head_rows == 1 ==> forall|i: int|
            2 <= i < n + 1 ==> #[trigger] table_lines(t, widths, n)[i] == row_line(
                t.rows[i - 1],
                widths,
                t.rows[i - 1].len() as int,
            ),
        n == 0 ==> table_lines(t, widths, n).len() == 0,
    decreases n,
{
    if n > 0 {
        lemma_table_lines(t, widths, n - 1);
    }
}

/// A table has a line for each row, in their order, and with a head one more
/// line behind the first.
pub proof fn law_table_rows_in_order(t: TableState, widths: Seq<nat>, i: int)
    requires
        t.head_rows <= 1,
        0 <= i < t.rows.len(),
    ensures
        ({
            let all = table_lines(t, widths, t.rows.len() as int);
            let at: int = if t.head_rows == 1 && i > 0 {
                i + 1
            } else {
                i
            };
            &&& all.len() == t.rows.len() + t.head_rows
            &&& all[at] == row_line(t.rows[i], widths, t.rows[i].len() as int)
        }),
{
    lemma_table_lines(t, widths, t.rows.len() as int);
}

/// The line of a cell goes into its row, the row into its table, and the table
/// becomes lines at its end; its head is bold.
pub proof fn law_tables_are_gathered(s: Rendering, t: TableState)
    requires
        s.table == Some(t),
    ensures
        handled(s, EventView::Close(TagView::TableCell)).table->0.row == t.row.push(s.current),
        handled(s, EventView::Close(TagView::TableCell)).current.len() == 0,
        handled(s, EventView::Close(TagView::TableRow)).table->0.rows == t.rows.push(t.row),
        handled(s, EventView::Close(TagView::TableRow)).table->0.row.len() == 0,
        handled(s, EventView::Close(TagView::TableHead)).table->0.rows == t.rows.push(t.row),
        handled(s, EventView::Close(TagView::TableHead)).table->0.head_rows == 1,
        !handled(s, EventView::Close(TagView::TableHead)).style.bold,
        handled(s, EventView::Open(TagView::TableHead)).style.bold,
        handled(s, EventView::Close(TagView::Table)).table is None,
{
}

/// The columns of a table together.
pub open spec fn total(widths: Seq<nat>) -> nat
    decreases widths.len(),
{
    if widths.len() == 0 {
        0
    } else {
        total(widths.drop_last()) + widths.last()
    }
}

/// The rule under the head of a table is as wide as its columns and the bars
/// between them.
pub proof fn law_rule_spans_the_table(widths: Seq<nat>)
    requires
        widths.len() > 0,
    ensures
        rule_text(widths).len() == total(widths) + 3 * (widths.len() - 1),
        forall|i: int|
            0 <= i < rule_text(widths).len() ==> #[trigger] rule_text(widths)[i] == '─' || rule_text(
                widths,
            )[i] == '┼',
    decreases widths.len(),
{
    reveal_strlit("─┼─");
    if widths.len() == 1 {
        assert(widths.drop_last() =~= Seq::empty());
        assert(total(widths.drop_last()) == 0);
    } else {
        law_rule_spans_the_table(widths.drop_last());
    }
}

/// Behind a column the rule crosses the bar of the rows, in its middle.
pub proof fn law_rule_crosses_the_bars(widths: Seq<nat>)
    requires
        widths.len() > 1,
    ensures
        ({
            let before = rule_text(widths.drop_last());
            let all = rule_text(widths);
            &&& all.subrange(0, before.len() as int) == before
            &&& all[before.len() as int + 1] == '┼'
        }),
{
    reveal_strlit("─┼─");
    let before = rule_text(widths.drop_last());
    assert(rule_text(widths).subrange(0, before.len() as int) =~= before);
}

/// Code in a language without a grammar is shown line by line, all in green.
pub proof fn law_plain_code_is_green(parts: Seq<Seq<char>>, lang: Seq<char>, i: int)
    requires
        0 <= i < parts.len(),
        forall|a: int, b: int|
            0 <= a < parts.len() && 0 <= b < parts[a].len() ==> #[trigger] parts[a][b] != '\n',
        block_lines(join_with(parts, '\n'), lang) is None,
    ensures
        ({
            let l = code_lines(join_with(parts, '\n'), lang);
            l.len() == parts.len() && text_of(l[i]) == parts[i] && l[i].len() == 1
                && l[i][0].style.fg == Color::Green
        }),
{
    lemma_pieces_join(parts, '\n');
    lemma_text_one(crate::styled::plain_span(parts[i], Color::Green));
    let l = code_lines(join_with(parts, '\n'), lang);
    assert(l[i] =~= seq![crate::styled::plain_span(parts[i], Color::Green)]);
}

/// Code in a language with a grammar is shown in its colours, part by part.
pub proof fn law_code_keeps_its_colours(code: Seq<char>, lang: Seq<char>, i: int, k: int)
    requires
        block_lines(code, lang) is Some,
        0 <= i < (block_lines(code, lang)->0).len(),
        0 <= k < (block_lines(code, lang)->0)[i].len(),
    ensures
        code_lines(code, lang).len() == (block_lines(code, lang)->0).len(),
        code_lines(code, lang)[i].len() == (block_lines(code, lang)->0)[i].len(),
        code_lines(code, lang)[i][k].text == (block_lines(code, lang)->0)[i][k].1,
        code_lines(code, lang)[i][k].style.fg == (block_lines(code, lang)->0)[i][k].0,
{
}

/// Line feeds at the end of code are left out, and nothing else.
pub proof fn law_code_ends_without_line_feeds(s: Seq<char>)
    ensures
        ({
            let t = without_newlines(s);
            &&& t.len() <= s.len()
            &&& t == s.subrange(0, t.len() as int)
            &&& t.len() > 0 ==> t.last() != '\n'
            &&& forall|i: int| t.len() <= i < s.len() ==> #[trigger] s[i] == '\n'
        }),
    decreases s.len(),
{
    if s.len() > 0 && s.last() == '\n' {
        law_code_ends_without_line_feeds(s.drop_last());
        let t = without_newlines(s);
        assert(s.drop_last().subrange(0, t.len() as int) =~= s.subrange(0, t.len() as int));
        assert forall|i: int| t.len() <= i < s.len() implies #[trigger] s[i] == '\n' by {
            if i < s.len() - 1 {
                assert(s.drop_last()[i] == s[i]);
            }
        }
    } else {
        assert(s =~= s.subrange(0, s.len() as int));
    }
}

} // verus!
