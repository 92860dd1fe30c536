//! What the mouse selects, and what is copied of it.

use crate::clipboard::{block_chars, copied, linear_chars, row_chars, span_chars, without_blank_end};
use crate::links::{
    column_chars, is_url, kept_names, link_char, link_of, stop_char, token_in, token_left,
    token_path, token_right, without_stops, Link,
};
use crate::path::{absolute, joined};
use crate::selection::{
    block_selection, char_at, delimiter, holds_cell, linear_selection, near_col, selected,
    word_left, word_right, Drag, Selection,
};
use crate::terminal::{Cell, CellSize, Line, TerminalSize};
use crate::text::has_prefix;
use vstd::prelude::*;
use vstd::string::*;

verus! {

/// Whether a cell comes before another in reading order.
pub open spec fn reads_before(a: (int, int), b: (int, int)) -> bool {
    a.0 < b.0 || (a.0 == b.0 && a.1 < b.1)
}

proof fn lemma_reading(a: (int, int), b: (int, int), cols: int)
    requires
        0 < cols,
        0 <= a.1 <= cols,
        0 <= b.1 < cols,
    ensures
        a.0 * cols + a.1 <= b.0 * cols + b.1 <==> !reads_before(b, a) || (a.1 == cols && b.0 == a.0
            + 1),
        a.0 < b.0 ==> a.0 * cols + cols <= b.0 * cols,
        b.0 < a.0 ==> b.0 * cols + cols <= a.0 * cols,
{
    if a.0 < b.0 {
        assert(a.0 * cols + cols <= b.0 * cols) by (nonlinear_arith)
            requires
                a.0 < b.0,
                cols > 0,
        ;
    }
    if b.0 < a.0 {
        assert(b.0 * cols + cols <= a.0 * cols) by (nonlinear_arith)
            requires
                b.0 < a.0,
                cols > 0,
        ;
    }
}

/// A drag selects the cells between its ends in reading order: the one it
/// begins on, and all before the one it ends on.
pub proof fn law_drag_selects_what_lies_between(
    lines: Seq<Line>,
    cols: nat,
    from: (int, int),
    to: (int, int),
    row: int,
    col: int,
)
    requires
        0 < cols,
        reads_before(from, to),
        0 <= from.0,
        0 <= from.1 < cols,
        0 < to.1 <= cols,
        (to.0 + 1) * cols <= usize::MAX,
        0 <= row,
        0 <= col < cols,
    ensures
        holds_cell(linear_selection(lines, cols, 1, from, to), row, col, cols as int) <==> (
        !reads_before((row, col), from) && reads_before((row, col), to)),
{
    let c = cols as int;
    let last = to.1 - 1;
    lemma_reading(from, (to.0, last), c);
    lemma_reading(from, (row, col), c);
    lemma_reading((row, col), (to.0, last), c);
    assert((to.0 + 1) * c == to.0 * c + c) by (nonlinear_arith);
    assert(0 <= from.0 * c && 0 <= to.0 * c) by (nonlinear_arith)
        requires
            0 <= from.0,
            0 <= to.0,
            c > 0,
    ;
}

/// It is the same whichever end of a drag comes first.
pub proof fn law_drag_can_go_back(
    lines: Seq<Line>,
    cols: nat,
    clicks: nat,
    from: (int, int),
    to: (int, int),
)
    ensures
        linear_selection(lines, cols, clicks, from, to) == linear_selection(
            lines,
            cols,
            clicks,
            to,
            from,
        ),
        block_selection(from, to) == block_selection(to, from),
{
}

/// Three clicks select whole rows.
pub proof fn law_three_clicks_select_rows(
    lines: Seq<Line>,
    cols: nat,
    clicks: nat,
    from: (int, int),
    to: (int, int),
    row: int,
    col: int,
)
    requires
        clicks > 2,
        0 < cols,
        0 <= from.0 <= to.0,
        !reads_before(to, from),
        (to.0 + 1) * cols <= usize::MAX,
        0 <= row,
        0 <= col < cols,
    ensures
        holds_cell(linear_selection(lines, cols, clicks, from, to), row, col, cols as int) <==> from.0
            <= row <= to.0,
{
    let c = cols as int;
    lemma_reading((from.0, 0), (to.0, c - 1), c);
    lemma_reading((from.0, 0), (row, col), c);
    lemma_reading((row, col), (to.0, c - 1), c);
    assert((to.0 + 1) * c == to.0 * c + c) by (nonlinear_arith);
    assert(0 <= from.0 * c && 0 <= to.0 * c) by (nonlinear_arith)
        requires
            0 <= from.0,
            0 <= to.0,
            c > 0,
    ;
}

/// A word reaches to the left as long as no space or sign comes between, and no
/// further.
pub proof fn law_word_reaches_left(c: Seq<Cell>, col: int, cols: int)
    requires
        0 <= col < cols,
    ensures
        0 <= word_left(c, col, cols) <= col,
        forall|i: int|
            word_left(c, col, cols) <= i < col ==> !delimiter(#[trigger] char_at(c, i)) && !delimiter(
                char_at(c, i + 1),
            ),
        word_left(c, col, cols) > 0 ==> delimiter(char_at(c, word_left(c, col, cols) - 1))
            || delimiter(char_at(c, word_left(c, col, cols))),
    decreases col,
{
    if col > 0 && crate::selection::same_word(c, col - 1) {
        law_word_reaches_left(c, col - 1, cols);
    }
}

/// A word reaches to the right as long as no space or sign comes between, and
/// no further.
pub proof fn law_word_reaches_right(c: Seq<Cell>, col: int, cols: int)
    requires
        0 <= col < cols,
    ensures
        col <= word_right(c, col, cols) < cols,
        forall|i: int|
            col <= i < word_right(c, col, cols) ==> !delimiter(#[trigger] char_at(c, i))
                && !delimiter(char_at(c, i + 1)),
        word_right(c, col, cols) < cols - 1 ==> delimiter(char_at(c, word_right(c, col, cols)))
            || delimiter(char_at(c, word_right(c, col, cols) + 1)),
    decreases cols - col,
{
    if col < cols - 1 && crate::selection::same_word(c, col) {
        law_word_reaches_right(c, col + 1, cols);
    }
}

/// Letters and digits make words; spaces and signs part them.
pub proof fn law_letters_make_words(ch: char)
    ensures
        'a' <= ch <= 'z' || 'A' <= ch <= 'Z' || '0' <= ch <= '9' ==> !delimiter(ch),
        ch as u32 > 0x7f ==> !delimiter(ch),
        ch == ' ' || ch == '\t' || ch == '/' || ch == '.' || ch == '-' || ch == '_' || ch == ':' ==> delimiter(
            ch,
        ),
{
}

/// A rectangle holds the columns between its ends in the rows between them.
pub proof fn law_rectangle_is_selected(from: (int, int), to: (int, int), row: int, col: int, cols: int)
    requires
        0 <= from.0 <= to.0 <= usize::MAX,
        0 <= from.1 < to.1 <= usize::MAX,
    ensures
        holds_cell(block_selection(from, to), row, col, cols) <==> (from.0 <= row <= to.0 && from.1
            <= col < to.1),
{
}

/// A position belongs to the edge of a column that is nearest to it.
pub proof fn law_nearest_edge(x: int, cell_w: u32, cols: nat)
    requires
        0 <= x <= 2 * cols * cell_w,
        cell_w > 0,
    ensures
        ({
            let n = near_col(x, cell_w, cols) as int;
            &&& n <= cols
            &&& 2 * n * cell_w - x <= cell_w
            &&& x - 2 * n * cell_w <= cell_w
        }),
{
    let w = cell_w as int;
    let q = (x + w) / (2 * w);
    vstd::arithmetic::div_mod::lemma_fundamental_div_mod(x + w, 2 * w);
    vstd::arithmetic::div_mod::lemma_mod_bound(x + w, 2 * w);
    assert(2 * w * q == 2 * q * w) by (nonlinear_arith);
    assert(q >= 0) by (nonlinear_arith)
        requires
            x + w == (2 * w) * q + (x + w) % (2 * w),
            (x + w) % (2 * w) < 2 * w,
            x >= 0,
            w > 0,
    ;
    if q > cols {
        assert(2 * q * w >= 2 * cols * w + 2 * w) by (nonlinear_arith)
            requires
                q >= cols + 1,
                w > 0,
        ;
    }
}

/// A row of simple characters: each takes one column, and the line does not
/// end in it.
pub open spec fn simple_row(c: Seq<Cell>) -> bool {
    forall|i: int| 0 <= i < c.len() ==> (#[trigger] c[i]).width == 1 && c[i].ch != '\n'
}

proof fn lemma_row_chars(c: Seq<Cell>, base: int, left: int, right: int, j: int)
    requires
        simple_row(c),
        0 <= j <= c.len(),
        base <= left,
        right < base + c.len(),
        left <= right + 1,
        j <= left - base,
    ensures
        row_chars(c, base, left, right, j) == c.subrange(left - base, right - base + 1).map_values(
            |x: Cell| x.ch,
        ),
    decreases c.len() - j,
{
    if j < left - base {
        lemma_row_chars(c, base, left, right, j + 1);
        assert(c[j].width == 1);
        assert(Seq::<char>::empty() + row_chars(c, base, left, right, j + 1) =~= row_chars(
            c,
            base,
            left,
            right,
            j + 1,
        ));
    } else {
        lemma_row_rest(c, base, left, right, j);
    }
}

proof fn lemma_row_rest(c: Seq<Cell>, base: int, left: int, right: int, j: int)
    requires
        simple_row(c),
        0 <= j <= c.len(),
        left - base <= j,
        right < base + c.len(),
    ensures
        j <= right - base ==> row_chars(c, base, left, right, j) == c.subrange(
            j,
            right - base + 1,
        ).map_values(|x: Cell| x.ch),
        j > right - base ==> row_chars(c, base, left, right, j).len() == 0,
        j == right - base + 1 ==> row_chars(c, base, left, right, j) == c.subrange(j, j).map_values(
            |x: Cell| x.ch,
        ),
    decreases c.len() - j,
{
    if j < c.len() {
        assert(c[j].width == 1);
        lemma_row_rest(c, base, left, right, j + 1);
        if j <= right - base {
            assert(row_chars(c, base, left, right, j) =~= c.subrange(j, right - base + 1).map_values(
                |x: Cell| x.ch,
            ));
        }
    }
    if j == right - base + 1 {
        assert(row_chars(c, base, left, right, j) =~= c.subrange(j, j).map_values(|x: Cell| x.ch));
    }
}

/// What is copied of a row are its characters from the first selected column
/// to the last, in their order.
pub proof fn law_copied_row_is_its_text(c: Seq<Cell>, base: int, left: int, right: int)
    requires
        simple_row(c),
        base <= left <= right,
        right < base + c.len(),
    ensures
        row_chars(c, base, left, right, 0) == c.subrange(
            left - base,
            right - base + 1,
        ).map_values(|x: Cell| x.ch),
{
    lemma_row_chars(c, base, left, right, 0);
}

/// Where a selection of running text goes on behind a row, the row ends in a
/// line break without blanks before it, unless its line goes on in the next.
pub proof fn law_copied_rows_are_lines(lines: Seq<Line>, left: int, right: int, n: int)
    requires
        0 <= n < lines.len(),
        simple_row(lines[n]@),
    ensures
        ({
            let cols = lines[n]@.len();
            let before = linear_chars(lines, left, right, n);
            let after = linear_chars(lines, left, right, n + 1);
            let own = row_chars(lines[n]@, n * cols, left, right, 0);
            let goes_on = left < (n + 1) * cols <= right;
            &&& goes_on && !lines[n].wraps() ==> after == without_blank_end(before + own).push('\n')
            &&& !goes_on || lines[n].wraps() ==> after == before + own
        }),
{
    let c = lines[n]@;
    if crate::clipboard::ends_within(c, 0) {
        let k = choose|k: int| 0 <= k < c.len() && (#[trigger] c[k]).width != 0 && c[k].ch == '\n';
        assert(c[k].ch != '\n');
    }
}

/// What is copied of a rectangle are its rows from the top to the bottom, a
/// line for each.
pub proof fn law_copied_rectangle_is_lines(
    r: Seq<Seq<Cell>>,
    top: int,
    bottom: int,
    left: int,
    right: int,
    n: int,
)
    requires
        0 <= n < r.len(),
    ensures
        ({
            let before = block_chars(r, top, bottom, left, right, n);
            let after = block_chars(r, top, bottom, left, right, n + 1);
            let own = without_blank_end(span_chars(r[n], left, right, 0));
            &&& n < top || n > bottom ==> after == before
            &&& top <= n < bottom ==> after == before + own + seq!['\n']
            &&& n == bottom && top <= bottom ==> after == before + own
        }),
{
    let before = block_chars(r, top, bottom, left, right, n);
    let own = without_blank_end(span_chars(r[n], left, right, 0));
    assert((before + own).push('\n') =~= before + own + seq!['\n']);
}

/// Spaces and tabs at the end are left out, and nothing else.
pub proof fn law_blank_end_is_left_out(s: Seq<char>)
    ensures
        ({
            let t = without_blank_end(s);
            &&& t.len() <= s.len()
            &&& t == s.subrange(0, t.len() as int)
            &&& t.len() > 0 ==> t.last() != ' ' && t.last() != '\t'
            &&& forall|i: int| t.len() <= i < s.len() ==> #[trigger] s[i] == ' ' || s[i] == '\t'
        }),
    decreases s.len(),
{
    if s.len() > 0 && crate::clipboard::blank_char(s.last()) {
        law_blank_end_is_left_out(s.drop_last());
        let t = without_blank_end(s);
        assert(s.drop_last().subrange(0, t.len() as int) =~= s.subrange(0, t.len() as int));
        assert forall|i: int| t.len() <= i < s.len() implies #[trigger] s[i] == ' ' || s[i]
            == '\t' by {
            if i < s.len() - 1 {
                assert(s.drop_last()[i] == s[i]);
            }
        }
    } else {
        assert(s =~= s.subrange(0, s.len() as int));
    }
}

/// Without a selection nothing is copied, and what is copied has no blanks at
/// its end.
pub proof fn law_copied_text_ends_plainly(lines: Seq<Line>, selection: Option<Selection>)
    ensures
        copied(lines, None).len() == 0,
        copied(lines, selection).len() > 0 ==> copied(lines, selection).last() != ' ' && copied(
            lines,
            selection,
        ).last() != '\t',
{
    law_blank_end_is_left_out(Seq::empty());
    match selection {
        Some(Selection::Linear { left, right }) => {
            law_blank_end_is_left_out(
                crate::clipboard::dedented(
                    linear_chars(
                        lines,
                        left as int,
                        right as int,
                        lines.len() as int,
                    ),
                ),
            );
        },
        Some(Selection::Block { top, bottom, left, right }) => {
            law_blank_end_is_left_out(
                block_chars(
                    crate::terminal::rows(lines),
                    top as int,
                    bottom as int,
                    left as int,
                    right as int,
                    lines.len() as int,
                ),
            );
        },
        None => {},
    }
}

// ---------------------------------------------------------------------------
// Links
// ---------------------------------------------------------------------------

/// A click opens the address of a page. A path is a file to open only while the
/// control key is held down.
pub proof fn law_click_follows_links(rest: Seq<char>, t: Seq<char>, control: bool)
    ensures
        link_of(Some("http://"@ + rest), control) == Some(Link::Page("http://"@ + rest)),
        link_of(Some("https://"@ + rest), control) == Some(Link::Page("https://"@ + rest)),
        !is_url(t) ==> link_of(Some(t), true) == Some(Link::File(t)),
        !is_url(t) ==> link_of(Some(t), false) is None,
        link_of(None, control) is None,
        !has_prefix(t, "http"@) ==> !is_url(t),
{
    reveal_strlit("http://");
    reveal_strlit("https://");
    reveal_strlit("http");
    assert(("http://"@ + rest).subrange(0, 7) =~= "http://"@);
    assert(("https://"@ + rest).subrange(0, 8) =~= "https://"@);
    if is_url(t) {
        if has_prefix(t, "http://"@) {
            let p = t.subrange(0, 7);
            assert(t.subrange(0, 4) =~= p.subrange(0, 4));
            assert("http://"@.subrange(0, 4) =~= "http"@);
        } else {
            let p = t.subrange(0, 8);
            assert(t.subrange(0, 4) =~= p.subrange(0, 4));
            assert("https://"@.subrange(0, 4) =~= "http"@);
        }
    }
}

/// The word under the mouse reaches as far as its characters can be part of a
/// link, on both sides.
pub proof fn law_link_reaches_both_ways(s: Seq<char>, col: int)
    requires
        0 <= col < s.len(),
    ensures
        0 <= token_left(s, col) <= col <= token_right(s, col) < s.len(),
        forall|i: int| token_left(s, col) <= i < col ==> link_char(#[trigger] s[i]),
        forall|i: int| col < i <= token_right(s, col) ==> link_char(#[trigger] s[i]),
        token_left(s, col) > 0 ==> !link_char(s[token_left(s, col) - 1]),
        token_right(s, col) + 1 < s.len() ==> !link_char(s[token_right(s, col) + 1]),
{
    lemma_token_left(s, col);
    lemma_token_right(s, col);
}

proof fn lemma_token_left(s: Seq<char>, col: int)
    requires
        0 <= col < s.len(),
    ensures
        0 <= token_left(s, col) <= col,
        forall|i: int| token_left(s, col) <= i < col ==> link_char(#[trigger] s[i]),
        token_left(s, col) > 0 ==> !link_char(s[token_left(s, col) - 1]),
    decreases col,
{
    if col > 0 && link_char(s[col - 1]) {
        lemma_token_left(s, col - 1);
    }
}

proof fn lemma_token_right(s: Seq<char>, col: int)
    requires
        0 <= col < s.len(),
    ensures
        col <= token_right(s, col) < s.len(),
        forall|i: int| col < i <= token_right(s, col) ==> link_char(#[trigger] s[i]),
        token_right(s, col) + 1 < s.len() ==> !link_char(s[token_right(s, col) + 1]),
    decreases s.len() - col,
{
    if col + 1 < s.len() && link_char(s[col + 1]) {
        lemma_token_right(s, col + 1);
    }
}

/// A word names a file from the directory of the shell, unless it begins at the
/// root or in the home directory.
pub proof fn law_words_name_files(t: Seq<char>, cwd: Seq<char>, home: Seq<char>, rest: Seq<char>)
    requires
        t.len() > 0,
        !is_url(t),
        !has_prefix(t, "~/"@),
    ensures
        absolute(t) ==> token_path(t, cwd, Some(home), None) == Some(crate::links::normalized(t)),
        !absolute(t) && absolute(cwd) ==> token_path(t, cwd, Some(home), None) == Some(
            crate::links::normalized(joined(cwd, t)),
        ),
        token_path("~/"@ + rest, cwd, Some(home), None) == Some(
            crate::links::normalized(joined(home, rest)),
        ),
        token_path(Seq::empty(), cwd, Some(home), None) is None,
{
    reveal_strlit("~/");
    reveal_strlit("http://");
    reveal_strlit("https://");
    let s = "~/"@ + rest;
    assert(s.subrange(0, 2) =~= "~/"@);
    assert(s.subrange(2, s.len() as int) =~= rest);
    if has_prefix(s, "http://"@) {
        assert(s.subrange(0, 7)[0] == "http://"@[0]);
    }
    if has_prefix(s, "https://"@) {
        assert(s.subrange(0, 8)[0] == "https://"@[0]);
    }
}

/// A drag on a screen that was not scrolled selects from the row and the column
/// edge where it began to those where it ended, in reading order.
pub proof fn law_drag_selects_on_the_screen(
    d: Drag,
    cell: CellSize,
    size: TerminalSize,
    lines: Seq<Line>,
    from: (int, int),
    to: (int, int),
    row: int,
    col: int,
)
    requires
        d.start_offset == d.offset,
        d.end_offset == d.offset,
        !d.block,
        d.clicks == 1,
        cell.w > 0,
        cell.h > 0,
        size.rows > 0,
        size.cols > 0,
        size.rows * size.cols <= usize::MAX,
        0 <= from.0 < size.rows,
        0 <= to.0 < size.rows,
        from.0 * (2 * cell.h) <= d.start_y < (from.0 + 1) * (2 * cell.h),
        to.0 * (2 * cell.h) <= d.end_y < (to.0 + 1) * (2 * cell.h),
        from.1 == near_col(d.start_x as int, cell.w, size.cols as nat),
        to.1 == near_col(d.end_x as int, cell.w, size.cols as nat),
        reads_before(from, to),
        from.1 < size.cols,
        0 < to.1,
        0 <= row,
        0 <= col < size.cols,
    ensures
        holds_cell(selected(d, cell, size, lines), row, col, size.cols as int) <==> (!reads_before(
            (row, col),
            from,
        ) && reads_before((row, col), to)),
{
    lemma_row(d.start_y as int, 2 * cell.h as int, from.0);
    lemma_row(d.end_y as int, 2 * cell.h as int, to.0);
    let cols = size.cols as int;
    assert((to.0 + 1) * cols <= size.rows * cols) by (nonlinear_arith)
        requires
            to.0 + 1 <= size.rows,
            cols > 0,
    ;
    law_drag_selects_what_lies_between(lines, size.cols as nat, from, to, row, col);
}

proof fn lemma_row(y: int, h: int, r: int)
    requires
        h > 0,
        r * h <= y < (r + 1) * h,
    ensures
        y / h == r,
{
    vstd::arithmetic::div_mod::lemma_fundamental_div_mod(y, h);
    vstd::arithmetic::div_mod::lemma_mod_bound(y, h);
    let q = y / h;
    assert(q == r) by (nonlinear_arith)
        requires
            y == h * q + y % h,
            0 <= y % h < h,
            r * h <= y < (r + 1) * h,
            h > 0,
    ;
}

/// In a path `..` takes back the name before it, a dot takes back nothing, and
/// any other name is one more.
pub proof fn law_paths_are_walked(c: Seq<Seq<char>>, n: int)
    requires
        0 <= n < c.len(),
    ensures
        ({
            let before = kept_names(c, n);
            let after = kept_names(c, n + 1);
            &&& c[n] == "."@ ==> after == before
            &&& c[n] == ".."@ && before.len() > 0 ==> after == before.drop_last()
            &&& c[n] == ".."@ && before.len() == 0 ==> after.len() == 0
            &&& c[n] != "."@ && c[n] != ".."@ && c[n] != "/"@ ==> after == before.push(c[n])
        }),
{
    reveal_strlit("/");
    reveal_strlit(".");
    reveal_strlit("..");
    assert(".."@.len() == 2 && "."@.len() == 1 && "/"@.len() == 1);
    assert("."@[0] == '.' && "/"@[0] == '/');
}

/// The stops at the end of a word are not part of a link.
pub proof fn law_stops_end_links(s: Seq<char>)
    ensures
        ({
            let t = without_stops(s);
            &&& t.len() <= s.len()
            &&& t == s.subrange(0, t.len() as int)
            &&& t.len() > 0 ==> t.last() != '.' && t.last() != ',' && t.last() != ':' && t.last()
                != ';' && t.last() != '!' && t.last() != '?'
            &&& forall|i: int| t.len() <= i < s.len() ==> stop_char(#[trigger] s[i])
        }),
    decreases s.len(),
{
    if s.len() > 0 && stop_char(s.last()) {
        law_stops_end_links(s.drop_last());
        let t = without_stops(s);
        assert(s.drop_last().subrange(0, t.len() as int) =~= s.subrange(0, t.len() as int));
        assert forall|i: int| t.len() <= i < s.len() implies stop_char(#[trigger] s[i]) by {
            if i < s.len() - 1 {
                assert(s.drop_last()[i] == s[i]);
            }
        }
    } else {
        assert(s =~= s.subrange(0, s.len() as int));
    }
}

/// The word under the mouse is the run of characters around its column, without
/// the stops at its end; between words there is none.
pub proof fn law_word_under_the_mouse(c: Seq<Cell>, col: int)
    requires
        simple_row(c),
        0 <= col < c.len(),
    ensures
        column_chars(c, c.len() as int) == c.map_values(|x: Cell| x.ch),
        !link_char(c[col].ch) ==> token_in(c, col) is None,
        link_char(c[col].ch) ==> token_in(c, col) is Some,
{
    lemma_column_chars(c, c.len() as int);
    assert(c.subrange(0, c.len() as int) =~= c);
}

proof fn lemma_column_chars(c: Seq<Cell>, n: int)
    requires
        simple_row(c),
        0 <= n <= c.len(),
    ensures
        column_chars(c, n) == c.subrange(0, n).map_values(|x: Cell| x.ch),
    decreases n,
{
    if n > 0 {
        lemma_column_chars(c, n - 1);
        assert(c[n - 1].width == 1);
    }
    assert(column_chars(c, n) =~= c.subrange(0, n).map_values(|x: Cell| x.ch));
}

} // verus!
