//! The text that goes to the clipboard and comes from it.

use crate::selection::Selection;
use crate::terminal::{rows, Cell, Line};
use crate::text::{
    chars_of, has_prefix, join_texts, join_with, lemma_next_at, lemma_pieces_join,
    lemma_texts_push, next_at, pieces, pieces_from, split_at_char, string_between, string_of, texts,
};
use vstd::prelude::*;
use vstd::slice::slice_to_vec;
use vstd::utf8::encode_utf8;

verus! {

/// Spaces and tabs.
pub open spec fn blank_char(c: char) -> bool {
    c == ' ' || c == '\t'
}

/// Whether a line holds only spaces and tabs.
pub open spec fn blank(line: Seq<char>) -> bool {
    forall|i: int| 0 <= i < line.len() ==> blank_char(#[trigger] line[i])
}

/// The text without spaces and tabs at its end.
pub open spec fn without_blank_end(s: Seq<char>) -> Seq<char>
    decreases s.len(),
{
    if s.len() > 0 && blank_char(s.last()) {
        without_blank_end(s.drop_last())
    } else {
        s
    }
}

fn cut_blank_end(s: &mut Vec<char>)
    ensures
        final(s)@ == without_blank_end(old(s)@),
{
    let ghost start = s@;
    while s.len() > 0
        invariant
            start == old(s)@,
            without_blank_end(s@) == without_blank_end(start),
        ensures
            s@ == without_blank_end(start),
        decreases s.len(),
    {
        let last = s[s.len() - 1];
        if last != ' ' && last != '\t' {
            return ;
        }
        let ghost before = s@;
        s.pop();
        assert(s@ =~= before.drop_last());
    }
}

// ---------------------------------------------------------------------------
// Selected text
// ---------------------------------------------------------------------------

/// The selected characters of a row from column `j` on, up to the end of its
/// line. The row's cells are counted from `base`; a wide character is
/// selected with its middle.
pub open spec fn row_chars(c: Seq<Cell>, base: int, left: int, right: int, j: int) -> Seq<char>
    decreases c.len() - j,
{
    if j < 0 || j >= c.len() {
        Seq::empty()
    } else if c[j].width == 0 {
        row_chars(c, base, left, right, j + 1)
    } else {
        let center = base + j + c[j].width as int / 2;
        let own = if left <= center <= right {
            seq![c[j].ch]
        } else {
            Seq::empty()
        };
        if c[j].ch == '\n' {
            own
        } else {
            own + row_chars(c, base, left, right, j + 1)
        }
    }
}

/// Whether a line ends within the row, at column `j` or behind it.
pub open spec fn ends_within(c: Seq<Cell>, j: int) -> bool {
    exists|k: int| j <= k < c.len() && (#[trigger] c[k]).width != 0 && c[k].ch == '\n'
}

/// The text of the first `n` rows between two cells. Where the selection goes
/// on behind a row that is not continued, the row ends in a line break, with
/// no blanks before it.
pub open spec fn linear_chars(lines: Seq<Line>, left: int, right: int, n: int) -> Seq<char>
    decreases n,
{
    if n <= 0 {
        Seq::empty()
    } else {
        let c = lines[n - 1]@;
        let cols = c.len() as int;
        let t = linear_chars(lines, left, right, n - 1) + row_chars(
            c,
            (n - 1) * cols,
            left,
            right,
            0,
        );
        if !ends_within(c, 0) && !lines[n - 1].wraps() && left < n * cols && n * cols <= right {
            without_blank_end(t).push('\n')
        } else {
            t
        }
    }
}

/// The characters that start in the columns from `left` to `right`, from
/// column `j` on.
pub open spec fn span_chars(c: Seq<Cell>, left: int, right: int, j: int) -> Seq<char>
    decreases c.len() - j,
{
    if j < 0 || j >= c.len() {
        Seq::empty()
    } else {
        (if c[j].width != 0 && left <= j <= right {
            seq![c[j].ch]
        } else {
            Seq::empty()
        }) + span_chars(c, left, right, j + 1)
    }
}

/// The text of a rectangle within the first `n` rows: a line for each row,
/// without blanks at its end.
pub open spec fn block_chars(
    r: Seq<Seq<Cell>>,
    top: int,
    bottom: int,
    left: int,
    right: int,
    n: int,
) -> Seq<char>
    decreases n,
{
    if n <= 0 {
        Seq::empty()
    } else {
        let before = block_chars(r, top, bottom, left, right, n - 1);
        let i = n - 1;
        if i < top || i > bottom {
            before
        } else {
            let t = before + without_blank_end(span_chars(r[i], left, right, 0));
            if i != bottom {
                t.push('\n')
            } else {
                t
            }
        }
    }
}

/// The text to copy of a selection. A selection of running text loses the
/// indent that its lines share.
pub open spec fn copied(lines: Seq<Line>, selection: Option<Selection>) -> Seq<char> {
    let t = match selection {
        None => Seq::empty(),
        Some(Selection::Linear { left, right }) => dedented(
            linear_chars(lines, left as int, right as int, lines.len() as int),
        ),
        Some(Selection::Block { top, bottom, left, right }) => block_chars(
            rows(lines),
            top as int,
            bottom as int,
            left as int,
            right as int,
            lines.len() as int,
        ),
    };
    without_blank_end(t)
}

/// The positions of all cells can be counted.
pub open spec fn countable(lines: Seq<Line>) -> bool {
    forall|i: int|
        0 <= i < lines.len() ==> (i + 1) * (#[trigger] lines[i])@.len() + 0xffff <= usize::MAX
}

fn take_row(
    text: &mut Vec<char>,
    cells: &Vec<Cell>,
    base: usize,
    left: usize,
    right: usize,
) -> (ended: bool)
    requires
        base + cells.len() + 0xffff <= usize::MAX,
    ensures
        final(text)@ == old(text)@ + row_chars(cells@, base as int, left as int, right as int, 0),
        ended == ends_within(cells@, 0),
{
    let ghost start = text@;
    let ghost c = cells@;
    let mut j: usize = 0;
    assert(start + row_chars(c, base as int, left as int, right as int, 0) =~= text@ + row_chars(
        c,
        base as int,
        left as int,
        right as int,
        0,
    ));
    while j < cells.len()
        invariant
            j <= cells.len(),
            c == cells@,
            start == old(text)@,
            base + cells.len() + 0xffff <= usize::MAX,
            forall|k: int| 0 <= k < j ==> (#[trigger] c[k]).width == 0 || c[k].ch != '\n',
            text@ + row_chars(c, base as int, left as int, right as int, j as int) == start
                + row_chars(c, base as int, left as int, right as int, 0),
        decreases cells.len() - j,
    {
        let cell = cells[j];
        if cell.width != 0 {
            let center = base + j + (cell.width / 2) as usize;
            let ghost before = text@;
            let ghost rest = row_chars(c, base as int, left as int, right as int, j + 1);
            if left <= center && center <= right {
                text.push(cell.ch);
                assert(before + (seq![cell.ch] + rest) =~= text@ + rest);
                assert(before + seq![cell.ch] =~= text@);
            } else {
                assert(before + (Seq::<char>::empty() + rest) =~= text@ + rest);
                assert(before + Seq::<char>::empty() =~= text@);
            }
            if cell.ch == '\n' {
                assert(c[j as int].width != 0 && c[j as int].ch == '\n');
                return true;
            }
        }
        j += 1;
    }
    assert(text@ + Seq::<char>::empty() =~= text@);
    false
}

fn take_span(text: &mut Vec<char>, cells: &Vec<Cell>, left: usize, right: usize)
    ensures
        final(text)@ == old(text)@ + span_chars(cells@, left as int, right as int, 0),
{
    let ghost start = text@;
    let ghost c = cells@;
    let mut j: usize = 0;
    while j < cells.len()
        invariant
            j <= cells.len(),
            c == cells@,
            text@ + span_chars(c, left as int, right as int, j as int) == start + span_chars(
                c,
                left as int,
                right as int,
                0,
            ),
        decreases cells.len() - j,
    {
        let ghost before = text@;
        let ghost rest = span_chars(c, left as int, right as int, j + 1);
        if cells[j].width != 0 && left <= j && j <= right {
            text.push(cells[j].ch);
            assert(before + (seq![c[j as int].ch] + rest) =~= text@ + rest);
        } else {
            assert(before + (Seq::<char>::empty() + rest) =~= text@ + rest);
        }
        j += 1;
    }
    assert(text@ + Seq::<char>::empty() =~= text@);
}

fn linear_text(lines: &Vec<Line>, left: usize, right: usize) -> (r: Vec<char>)
    requires
        countable(lines@),
    ensures
        r@ == linear_chars(lines@, left as int, right as int, lines.len() as int),
{
    let mut text: Vec<char> = Vec::new();
    let mut i: usize = 0;
    assert(text@ =~= Seq::empty());
    while i < lines.len()
        invariant
            i <= lines.len(),
            countable(lines@),
            text@ == linear_chars(lines@, left as int, right as int, i as int),
        decreases lines.len() - i,
    {
        let cells = lines[i].iter();
        let cols = cells.len();
        proof {
            assert((i + 1) * lines[i as int]@.len() + 0xffff <= usize::MAX);
            assert((i + 1) * cols == i * cols + cols) by (nonlinear_arith);
            assert(i * cols >= 0) by (nonlinear_arith)
                requires
                    i >= 0,
                    cols >= 0,
            ;
        }
        let ended = take_row(&mut text, &cells, i * cols, left, right);
        if !ended && !lines[i].linewrap() {
            let edge = (i + 1) * cols;
            if left < edge && edge <= right {
                cut_blank_end(&mut text);
                text.push('\n');
            }
        }
        i += 1;
    }
    text
}

fn block_text(lines: &Vec<Line>, top: usize, bottom: usize, left: usize, right: usize) -> (r: Vec<char>)
    ensures
        r@ == block_chars(
            rows(lines@),
            top as int,
            bottom as int,
            left as int,
            right as int,
            lines.len() as int,
        ),
{
    let mut text: Vec<char> = Vec::new();
    let mut i: usize = 0;
    assert(text@ =~= Seq::empty());
    while i < lines.len()
        invariant
            i <= lines.len(),
            text@ == block_chars(
                rows(lines@),
                top as int,
                bottom as int,
                left as int,
                right as int,
                i as int,
            ),
        decreases lines.len() - i,
    {
        if top <= i && i <= bottom {
            let cells = lines[i].iter();
            let mut line: Vec<char> = Vec::new();
            take_span(&mut line, &cells, left, right);
            assert(line@ =~= span_chars(rows(lines@)[i as int], left as int, right as int, 0));
            cut_blank_end(&mut line);
            text.append(&mut line);
            if i != bottom {
                text.push('\n');
            }
        }
        i += 1;
    }
    text
}

/// The text to copy of a selection.
pub fn selected_text(lines: &Vec<Line>, selection: Option<Selection>) -> (r: String)
    requires
        selection is Some && selection->0 is Linear ==> countable(lines@),
    ensures
        r@ == copied(lines@, selection),
{
    let mut text = match selection {
        None => {
            let v: Vec<char> = Vec::new();
            assert(v@ =~= Seq::empty());
            v
        },
        Some(Selection::Linear { left, right }) => {
            let t = linear_text(lines, left, right);
            chars_of(dedent_common_indent(string_of(&t).as_str()).as_str())
        },
        Some(Selection::Block { top, bottom, left, right }) => block_text(
            lines,
            top,
            bottom,
            left,
            right,
        ),
    };
    cut_blank_end(&mut text);
    string_of(&text)
}

// ---------------------------------------------------------------------------
// Indents
// ---------------------------------------------------------------------------

/// The length of the indent of a line, from position `from` on.
pub open spec fn indent_end(line: Seq<char>, from: int) -> int
    decreases line.len() - from,
{
    if 0 <= from < line.len() && blank_char(line[from]) {
        indent_end(line, from + 1)
    } else {
        from
    }
}

/// The spaces and tabs at the start of a line.
pub open spec fn indent(line: Seq<char>) -> Seq<char> {
    line.subrange(0, indent_end(line, 0))
}

/// How far two texts agree, from position `from` on.
pub open spec fn agreement(a: Seq<char>, b: Seq<char>, from: int) -> int
    decreases a.len() - from,
{
    if 0 <= from < a.len() && from < b.len() && a[from] == b[from] {
        agreement(a, b, from + 1)
    } else {
        from
    }
}

/// The longest start that two texts share.
pub open spec fn shared_start(a: Seq<char>, b: Seq<char>) -> Seq<char> {
    a.subrange(0, agreement(a, b, 0))
}

/// The indent that the first `n` lines share, where blank lines do not count.
pub open spec fn shared_indent(lines: Seq<Seq<char>>, n: int) -> Option<Seq<char>>
    decreases n,
{
    if n <= 0 {
        None
    } else {
        let before = shared_indent(lines, n - 1);
        let line = lines[n - 1];
        if blank(line) {
            before
        } else {
            match before {
                None => Some(indent(line)),
                Some(s) => Some(shared_start(s, indent(line))),
            }
        }
    }
}

/// A line without an indent; a blank line becomes empty.
pub open spec fn without_indent(line: Seq<char>, by: Seq<char>) -> Seq<char> {
    if blank(line) {
        Seq::empty()
    } else if has_prefix(line, by) {
        line.subrange(by.len() as int, line.len() as int)
    } else {
        line
    }
}

/// The lines without an indent.
pub open spec fn without_indents(lines: Seq<Seq<char>>, by: Seq<char>) -> Seq<Seq<char>> {
    Seq::new(lines.len(), |i: int| without_indent(lines[i], by))
}

/// The indent to take from the lines.
pub open spec fn indent_of(lines: Seq<Seq<char>>) -> Seq<char> {
    match shared_indent(lines, lines.len() as int) {
        None => Seq::empty(),
        Some(s) => s,
    }
}

/// The text without the indent that its lines share.
pub open spec fn dedented(text: Seq<char>) -> Seq<char> {
    let l = pieces(text, '\n');
    join_with(without_indents(l, indent_of(l)), '\n')
}

fn is_blank(line: &Vec<char>) -> (r: bool)
    ensures
        r == blank(line@),
{
    let mut i: usize = 0;
    while i < line.len()
        invariant
            i <= line.len(),
            forall|k: int| 0 <= k < i ==> blank_char(#[trigger] line[k]),
        decreases line.len() - i,
    {
        if line[i] != ' ' && line[i] != '\t' {
            assert(!blank_char(line@[i as int]));
            return false;
        }
        i += 1;
    }
    true
}

fn indent_len(line: &Vec<char>) -> (r: usize)
    ensures
        r == indent_end(line@, 0),
        r <= line.len(),
{
    let mut i: usize = 0;
    while i < line.len() && (line[i] == ' ' || line[i] == '\t')
        invariant
            i <= line.len(),
            indent_end(line@, i as int) == indent_end(line@, 0),
        decreases line.len() - i,
    {
        i += 1;
    }
    i
}

fn agreement_len(a: &Vec<char>, b: &Vec<char>, bound: usize) -> (r: usize)
    requires
        bound <= b.len(),
    ensures
        r == agreement(a@, b@.subrange(0, bound as int), 0),
        r <= a.len(),
{
    let mut i: usize = 0;
    let ghost p = b@.subrange(0, bound as int);
    while i < a.len() && i < bound && a[i] == b[i]
        invariant
            i <= a.len(),
            i <= bound <= b.len(),
            p == b@.subrange(0, bound as int),
            agreement(a@, p, i as int) == agreement(a@, p, 0),
        decreases a.len() - i,
    {
        assert(p[i as int] == b@[i as int]);
        i += 1;
    }
    assert(i < bound ==> p[i as int] == b@[i as int]);
    i
}

/// Takes the indent that all lines share from a text. Lines of blanks do not
/// count, and become empty.
pub fn dedent_common_indent(text: &str) -> (r: String)
    ensures
        r@ == dedented(text@),
{
    let lines = split_at_char(text, '\n');
    let ghost lv = pieces(text@, '\n');
    let mut common: Option<Vec<char>> = None;
    let mut i: usize = 0;
    while i < lines.len()
        invariant
            i <= lines.len(),
            texts(lines@) == lv,
            (match common {
                Some(c) => Some(c@),
                None => None,
            }) == shared_indent(lv, i as int),
        decreases lines.len() - i,
    {
        let line = chars_of(lines[i].as_str());
        assert(line@ == lv[i as int]);
        if !is_blank(&line) {
            let n = indent_len(&line);
            match &mut common {
                Some(c) => {
                    let k = agreement_len(c, &line, n);
                    let ghost before = c@;
                    c.truncate(k);
                    assert(c@ =~= shared_start(before, indent(line@)));
                },
                None => {
                    let mut c = line;
                    c.truncate(n);
                    assert(c@ =~= indent(lv[i as int]));
                    common = Some(c);
                },
            }
        }
        i += 1;
    }
    let by = match common {
        Some(c) => c,
        None => Vec::new(),
    };
    assert(by@ =~= indent_of(lv));
    let mut out: Vec<String> = Vec::new();
    let mut i: usize = 0;
    assert(texts(out@) =~= without_indents(lv, by@).subrange(0, 0));
    while i < lines.len()
        invariant
            i <= lines.len(),
            texts(lines@) == lv,
            texts(out@) == without_indents(lv, by@).subrange(0, i as int),
        decreases lines.len() - i,
    {
        let line = chars_of(lines[i].as_str());
        assert(line@ == lv[i as int]);
        let piece = if is_blank(&line) {
            String::new()
        } else if crate::text::occurs_here(&line, &by, 0) {
            string_between(&line, by.len(), line.len())
        } else {
            string_of(&line)
        };
        assert(piece@ =~= without_indent(lv[i as int], by@));
        let ghost before = out@;
        out.push(piece);
        proof {
            lemma_texts_push(before, piece);
            assert(texts(out@) =~= without_indents(lv, by@).subrange(0, i + 1));
        }
        i += 1;
    }
    assert(without_indents(lv, by@).subrange(0, lv.len() as int) =~= without_indents(lv, by@));
    join_texts(&out, '\n')
}

proof fn lemma_indent_end(line: Seq<char>, from: int)
    requires
        0 <= from <= line.len(),
    ensures
        from <= indent_end(line, from) <= line.len(),
        forall|k: int| from <= k < indent_end(line, from) ==> blank_char(#[trigger] line[k]),
        indent_end(line, from) < line.len() ==> !blank_char(line[indent_end(line, from)]),
    decreases line.len() - from,
{
    if from < line.len() && blank_char(line[from]) {
        lemma_indent_end(line, from + 1);
    }
}

proof fn lemma_indent_end_is(line: Seq<char>, from: int, k: int)
    requires
        0 <= from <= k <= line.len(),
        forall|j: int| from <= j < k ==> blank_char(#[trigger] line[j]),
        k < line.len() ==> !blank_char(line[k]),
    ensures
        indent_end(line, from) == k,
    decreases k - from,
{
    if from < k {
        lemma_indent_end_is(line, from + 1, k);
    }
}

proof fn lemma_agreement(a: Seq<char>, b: Seq<char>, from: int)
    requires
        0 <= from <= a.len(),
        from <= b.len(),
    ensures
        from <= agreement(a, b, from) <= a.len(),
        agreement(a, b, from) <= b.len(),
        forall|k: int| from <= k < agreement(a, b, from) ==> #[trigger] a[k] == b[k],
        agreement(a, b, from) < a.len() && agreement(a, b, from) < b.len() ==> a[agreement(
            a,
            b,
            from,
        )] != b[agreement(a, b, from)],
    decreases a.len() - from,
{
    if from < a.len() && from < b.len() && a[from] == b[from] {
        lemma_agreement(a, b, from + 1);
    }
}

proof fn lemma_agreement_is(a: Seq<char>, b: Seq<char>, from: int, k: int)
    requires
        0 <= from <= k <= a.len(),
        k <= b.len(),
        forall|j: int| from <= j < k ==> #[trigger] a[j] == b[j],
        k < a.len() && k < b.len() ==> a[k] != b[k],
    ensures
        agreement(a, b, from) == k,
    decreases k - from,
{
    if from < k {
        lemma_agreement_is(a, b, from + 1, k);
    }
}

/// The shared indent starts every indent that counts, and holds only blanks.
proof fn lemma_shared_indent(lines: Seq<Seq<char>>, n: int)
    requires
        0 <= n <= lines.len(),
    ensures
        shared_indent(lines, n) is Some ==> blank(shared_indent(lines, n)->0),
        shared_indent(lines, n) is None ==> forall|i: int|
            0 <= i < n ==> blank(#[trigger] lines[i]),
        shared_indent(lines, n) is Some ==> forall|i: int|
            0 <= i < n && !blank(#[trigger] lines[i]) ==> has_prefix(
                indent(lines[i]),
                shared_indent(lines, n)->0,
            ),
    decreases n,
{
    if n > 0 {
        lemma_shared_indent(lines, n - 1);
        let line = lines[n - 1];
        let before = shared_indent(lines, n - 1);
        lemma_indent_end(line, 0);
        let own = indent(line);
        assert(blank(own)) by {
            assert forall|k: int| 0 <= k < own.len() implies blank_char(#[trigger] own[k]) by {
                assert(own[k] == line[k]);
            }
        }
        if !blank(line) {
            if before is Some {
                let s = before->0;
                lemma_agreement(s, own, 0);
                let t = shared_start(s, own);
                assert(own.subrange(0, t.len() as int) =~= t);
                assert forall|i: int| 0 <= i < n && !blank(#[trigger] lines[i]) implies has_prefix(
                    indent(lines[i]),
                    t,
                ) by {
                    if i < n - 1 {
                        let u = indent(lines[i]);
                        assert(u.subrange(0, t.len() as int) =~= u.subrange(
                            0,
                            s.len() as int,
                        ).subrange(0, t.len() as int));
                    }
                }
            } else {
                assert(own.subrange(0, own.len() as int) =~= own);
            }
        }
    }
}

/// An indent that starts all others is left out of what the lines share.
proof fn lemma_shared_after(lines: Seq<Seq<char>>, by: Seq<char>, n: int)
    requires
        0 <= n <= lines.len(),
        blank(by),
        forall|i: int|
            0 <= i < lines.len() && !blank(#[trigger] lines[i]) ==> has_prefix(
                indent(lines[i]),
                by,
            ),
    ensures
        shared_indent(lines, n) is None == shared_indent(without_indents(lines, by), n) is None,
        shared_indent(lines, n) is Some ==> shared_indent(lines, n)->0 == by + shared_indent(
            without_indents(lines, by),
            n,
        )->0,
    decreases n,
{
    if n > 0 {
        lemma_shared_after(lines, by, n - 1);
        let line = lines[n - 1];
        let cut = without_indents(lines, by)[n - 1];
        if blank(line) {
            assert(blank(cut));
        } else {
            let b = by.len() as int;
            lemma_indent_end(line, 0);
            let k = indent_end(line, 0);
            let own = indent(line);
            assert(k < line.len());
            assert(line.subrange(0, b) =~= own.subrange(0, b));
            assert(has_prefix(line, by));
            assert(cut[k - b] == line[k]);
            assert(!blank(cut));
            assert forall|j: int| 0 <= j < k - b implies blank_char(#[trigger] cut[j]) by {
                assert(cut[j] == line[j + b]);
            }
            lemma_indent_end_is(cut, 0, k - b);
            assert(own =~= by + indent(cut));
            let before = shared_indent(lines, n - 1);
            if before is Some {
                let s = before->0;
                let x = shared_indent(without_indents(lines, by), n - 1)->0;
                let y = indent(cut);
                lemma_agreement(x, y, 0);
                let m = agreement(x, y, 0);
                assert forall|j: int| 0 <= j < b + m implies #[trigger] s[j] == own[j] by {
                    if j >= b {
                        assert(s[j] == x[j - b]);
                        assert(own[j] == y[j - b]);
                    }
                }
                lemma_agreement_is(s, own, 0, b + m);
                assert(shared_start(s, own) =~= by + shared_start(x, y));
            }
        }
    }
}

/// Taking the shared indent away leaves none to take: a second time nothing
/// changes.
pub proof fn law_dedent_once(text: Seq<char>)
    ensures
        dedented(dedented(text)) == dedented(text),
{
    let l = pieces(text, '\n');
    let by = indent_of(l);
    let d = without_indents(l, by);
    lemma_no_separator(text, '\n');
    lemma_shared_indent(l, l.len() as int);
    if shared_indent(l, l.len() as int) is Some {
        lemma_shared_after(l, by, l.len() as int);
        assert(by =~= by + indent_of(d));
        assert(indent_of(d).len() == 0);
    } else {
        lemma_shared_indent(d, d.len() as int);
        assert forall|i: int| 0 <= i < d.len() implies blank(#[trigger] d[i]) by {
            assert(blank(l[i]));
        }
        lemma_all_blank(d, d.len() as int);
    }
    assert forall|i: int, j: int| 0 <= i < d.len() && 0 <= j < d[i].len() implies #[trigger] d[i][j]
        != '\n' by {
        if has_prefix(l[i], by) {
            assert(d[i][j] == l[i][j + by.len()]);
        } else {
            assert(d[i][j] == l[i][j]);
        }
    }
    lemma_pieces_join(d, '\n');
    assert forall|i: int| 0 <= i < d.len() implies #[trigger] without_indents(d, indent_of(d))[i]
        == d[i] by {
        if blank(d[i]) {
            if blank(l[i]) {
                assert(d[i] =~= Seq::empty());
            } else {
                let line = l[i];
                lemma_indent_end(line, 0);
                let k = indent_end(line, 0);
                assert(has_prefix(indent(line), by));
                assert(line.subrange(0, by.len() as int) =~= indent(line).subrange(
                    0,
                    by.len() as int,
                ));
                assert(d[i][k - by.len()] == line[k]);
                assert(false);
            }
        } else {
            assert(d[i].subrange(0, d[i].len() as int) =~= d[i]);
            assert(d[i].subrange(0, 0) =~= indent_of(d));
        }
    }
    assert(without_indents(d, indent_of(d)) =~= d);
}

proof fn lemma_shared_is_longest(lines: Seq<Seq<char>>, by: Seq<char>, n: int)
    requires
        0 <= n <= lines.len(),
        blank(by),
        forall|i: int| 0 <= i < n && !blank(#[trigger] lines[i]) ==> has_prefix(lines[i], by),
    ensures
        shared_indent(lines, n) is Some ==> has_prefix(shared_indent(lines, n)->0, by),
    decreases n,
{
    if n > 0 {
        lemma_shared_is_longest(lines, by, n - 1);
        let line = lines[n - 1];
        if !blank(line) {
            lemma_indent_end(line, 0);
            assert forall|k: int| 0 <= k < by.len() implies #[trigger] line[k] == by[k] by {
                assert(line.subrange(0, by.len() as int)[k] == by[k]);
            }
            if indent_end(line, 0) < by.len() {
                assert(blank_char(by[indent_end(line, 0)]));
                assert(indent_end(line, 0) < line.len());
            }
            let own = indent(line);
            assert(own.subrange(0, by.len() as int) =~= by);
            if shared_indent(lines, n - 1) is Some {
                let s = shared_indent(lines, n - 1)->0;
                lemma_agreement(s, own, 0);
                let k = agreement(s, own, 0);
                assert forall|j: int| 0 <= j < by.len() implies #[trigger] s[j] == by[j] by {
                    assert(s.subrange(0, by.len() as int)[j] == by[j]);
                }
                if k < by.len() {
                    assert(s[k] == by[k]);
                    assert(own[k] == line[k]);
                    assert(line[k] == by[k]);
                }
                assert(shared_start(s, own).subrange(0, by.len() as int) =~= by);
            }
        }
    }
}

/// Blanks that all lines begin with are taken away, from each line as many. The
/// rest of a line stays as it is, and a blank line becomes empty.
pub proof fn law_dedent_takes_shared_blanks(text: Seq<char>, by: Seq<char>, i: int, j: int)
    requires
        blank(by),
        0 <= i < pieces(text, '\n').len(),
        0 <= j < pieces(text, '\n').len(),
        forall|k: int|
            0 <= k < pieces(text, '\n').len() && !blank(#[trigger] pieces(text, '\n')[k])
                ==> has_prefix(pieces(text, '\n')[k], by),
    ensures
        ({
            let l = pieces(text, '\n');
            let d = pieces(dedented(text), '\n');
            let taken = l[i].len() - d[i].len();
            &&& d.len() == l.len()
            &&& blank(l[i]) ==> d[i].len() == 0
            &&& !blank(l[i]) ==> by.len() <= taken && d[i] == l[i].subrange(
                taken,
                l[i].len() as int,
            ) && blank(l[i].subrange(0, taken))
            &&& !blank(l[i]) && !blank(l[j]) ==> l[j].len() - d[j].len() == taken
        }),
{
    let l = pieces(text, '\n');
    let n = l.len() as int;
    let most = indent_of(l);
    let d = without_indents(l, most);
    lemma_no_separator(text, '\n');
    lemma_shared_indent(l, n);
    lemma_shared_is_longest(l, by, n);
    assert forall|a: int, b: int| 0 <= a < d.len() && 0 <= b < d[a].len() implies #[trigger] d[a][b]
        != '\n' by {
        if has_prefix(l[a], most) {
            assert(d[a][b] == l[a][b + most.len()]);
        } else {
            assert(d[a][b] == l[a][b]);
        }
    }
    lemma_pieces_join(d, '\n');
    lemma_own_prefix(l, most, i);
    lemma_own_prefix(l, most, j);
}

proof fn lemma_own_prefix(l: Seq<Seq<char>>, most: Seq<char>, i: int)
    requires
        0 <= i < l.len(),
        most == indent_of(l),
    ensures
        !blank(l[i]) ==> has_prefix(l[i], most) && blank(most) && shared_indent(l, l.len() as int)
            is Some,
{
    lemma_shared_indent(l, l.len() as int);
    if !blank(l[i]) {
        lemma_indent_end(l[i], 0);
        assert(shared_indent(l, l.len() as int) is Some);
        assert(has_prefix(indent(l[i]), most));
        assert(l[i].subrange(0, most.len() as int) =~= indent(l[i]).subrange(
            0,
            most.len() as int,
        ));
    }
}

proof fn lemma_all_blank(lines: Seq<Seq<char>>, n: int)
    requires
        n <= lines.len(),
        forall|i: int| 0 <= i < lines.len() ==> blank(#[trigger] lines[i]),
    ensures
        shared_indent(lines, n) is None,
    decreases n,
{
    if n > 0 {
        lemma_all_blank(lines, n - 1);
        assert(blank(lines[n - 1]));
    }
}

/// No piece holds the separator.
proof fn lemma_no_separator_from(s: Seq<char>, sep: char, from: int)
    requires
        0 <= from <= s.len(),
    ensures
        pieces_from(s, sep, from).len() >= 1,
        forall|i: int, j: int|
            0 <= i < pieces_from(s, sep, from).len() && 0 <= j < pieces_from(s, sep, from)[i].len()
                ==> #[trigger] pieces_from(s, sep, from)[i][j] != sep,
    decreases s.len() - from,
{
    lemma_next_at(s, sep, from);
    let k = next_at(s, sep, from);
    let p = pieces_from(s, sep, from);
    if k < s.len() {
        lemma_no_separator_from(s, sep, k + 1);
        let rest = pieces_from(s, sep, k + 1);
        assert forall|i: int, j: int| 0 <= i < p.len() && 0 <= j < p[i].len() implies #[trigger] p[i][j]
            != sep by {
            if i == 0 {
                assert(p[0][j] == s[from + j]);
            } else {
                assert(p[i] == rest[i - 1]);
                assert(rest[i - 1][j] != sep);
            }
        }
    } else {
        assert forall|i: int, j: int| 0 <= i < p.len() && 0 <= j < p[i].len() implies #[trigger] p[i][j]
            != sep by {
            assert(p[0][j] == s[from + j]);
        }
    }
}

proof fn lemma_no_separator(s: Seq<char>, sep: char)
    ensures
        pieces(s, sep).len() >= 1,
        forall|i: int, j: int|
            0 <= i < pieces(s, sep).len() && 0 <= j < pieces(s, sep)[i].len() ==> #[trigger] pieces(
                s,
                sep,
            )[i][j] != sep,
{
    lemma_no_separator_from(s, sep, 0);
}

// ---------------------------------------------------------------------------
// Pasting
// ---------------------------------------------------------------------------

/// What marks the start of pasted text.
pub open spec fn paste_start() -> Seq<u8> {
    seq![0x1bu8, 0x5b, 0x32, 0x30, 0x30, 0x7e]
}

/// What marks the end of pasted text.
pub open spec fn paste_end() -> Seq<u8> {
    seq![0x1bu8, 0x5b, 0x32, 0x30, 0x31, 0x7e]
}

/// The bytes to write for pasted text.
pub open spec fn pasted(text: Seq<char>, bracketed: bool) -> Seq<u8> {
    if bracketed {
        paste_start() + encode_utf8(text) + paste_end()
    } else {
        encode_utf8(text)
    }
}

/// The bytes of a text.
pub fn bytes_of(text: &str) -> (r: Vec<u8>)
    ensures
        r@ == encode_utf8(text@),
{
    slice_to_vec(text.as_bytes())
}

/// The bytes to write for pasted text.
pub fn paste_bytes(text: &str, bracketed: bool) -> (r: Vec<u8>)
    ensures
        r@ == pasted(text@, bracketed),
{
    let mut body = bytes_of(text);
    if bracketed {
        let mut out: Vec<u8> = vec![0x1b, 0x5b, 0x32, 0x30, 0x30, 0x7e];
        let mut end: Vec<u8> = vec![0x1b, 0x5b, 0x32, 0x30, 0x31, 0x7e];
        assert(out@ =~= paste_start());
        assert(end@ =~= paste_end());
        out.append(&mut body);
        out.append(&mut end);
        out
    } else {
        body
    }
}

} // verus!
