//! What the preview shows, and what its keys and rows do.

use crate::keys::KeyCode;
use crate::markdown::{document, markdown_events};
use crate::path::extension;
use crate::preview::{may_read, Content, PreviewRead, ReadStatus};
use crate::reader::{
    acted, action_at, body_rows, body_slots, columns, diff_color, diff_line_rows, diff_rows,
    document_rows, editor_missing, find_action, followed, gutter, header_rows, heard, image_room,
    keyed, names_markdown, numbered_rows, page_rows, pane_images, pane_rows, previewed,
    remote_shown, reread, row_label, scroll_limit, scrolled_by, shown_path, shown_rows,
    source_spans, title_row, usable_rows, wrap_cols, Action, Reader, ReaderHeaderAction,
};
use crate::rows::lesser;
use crate::styled::{
    glyph_columns, glyphs, law_wrapping_keeps_text, line_cells, plain_line, row_spans, styled_rows,
    unwrapped, visible, wrapped, Span,
};
use crate::terminal::Color;
use crate::text::{ascii_lower, decimal, has_prefix, join_with, repeated};
use crate::view::{inside, row_at};
use crate::width::{counted, width_sum};
use vstd::prelude::*;
use vstd::string::*;

verus! {

// ---------------------------------------------------------------------------
// Scrolling
// ---------------------------------------------------------------------------

/// The last position to scroll to.
pub open spec fn last_position(m: Reader) -> nat {
    scroll_limit(document_rows(m).len(), body_slots(m))
}

/// A file that is kept is scrolled by a row down or up, by a page, to its start
/// or to its end, and never past either. The keys do it as their names say.
pub proof fn law_keys_scroll_the_file(m: Reader)
    requires
        m.pinned,
        m.scroll <= last_position(m),
        last_position(m) < 0x7fff_ffff,
    ensures
        ({
            let last = last_position(m);
            let page = page_rows(m);
            let down = lesser(m.scroll + 1, last);
            let up: nat = if m.scroll > 0 {
                (m.scroll - 1) as nat
            } else {
                0
            };
            &&& keyed(m, KeyCode::ArrowDown).0.scroll == down
            &&& keyed(m, KeyCode::KeyJ).0.scroll == down
            &&& keyed(m, KeyCode::ArrowUp).0.scroll == up
            &&& keyed(m, KeyCode::KeyK).0.scroll == up
            &&& keyed(m, KeyCode::PageDown).0.scroll == lesser(m.scroll + page, last)
            &&& m.scroll >= page ==> keyed(m, KeyCode::PageUp).0.scroll == m.scroll - page
            &&& m.scroll < page ==> keyed(m, KeyCode::PageUp).0.scroll == 0
            &&& keyed(m, KeyCode::Home).0.scroll == 0
            &&& keyed(m, KeyCode::End).0.scroll == last
            &&& page >= 1
            &&& body_slots(m) > 2 ==> page == body_slots(m) - 1
        }),
{
    reveal(scrolled_by);
    let page = page_rows(m);
    assert(1 * page == page) by (nonlinear_arith);
    assert(-1 * page == -page) by (nonlinear_arith);
}

/// Scrolling changes where the file is shown from, and nothing of the file.
pub proof fn law_scrolling_keeps_the_file(m: Reader, code: KeyCode)
    ensures
        keyed(m, code).0.preview == m.preview,
        keyed(m, code).0.notice == m.notice,
        keyed(m, code).0.focused == m.focused,
        m.pinned ==> keyed(m, code).0.pinned,
        keyed(m, KeyCode::Escape) == (m, None::<Action>),
{
    reveal(scrolled_by);
}

/// The wheel scrolls a file that is kept by its rows, down where it turns
/// down, and never past its start or its end.
pub proof fn law_wheel_scrolls_the_file(m: Reader, delta: int)
    requires
        m.pinned,
        m.scroll <= last_position(m),
    ensures
        ({
            let s = scrolled_by(m, delta).scroll as int;
            &&& 0 <= s <= last_position(m)
            &&& 0 <= m.scroll + delta <= last_position(m) ==> s == m.scroll + delta
            &&& m.scroll + delta < 0 ==> s == 0
            &&& m.scroll + delta > last_position(m) ==> s == last_position(m)
        }),
{
    reveal(scrolled_by);
}

/// A file that is kept is shown from the row it was scrolled to, row by row.
pub proof fn law_rows_are_shown_from_the_position(m: Reader, room: nat, i: int)
    requires
        m.pinned,
        m.scroll <= scroll_limit(document_rows(m).len(), room),
        0 <= i < room,
        m.scroll + i < document_rows(m).len(),
    ensures
        i < shown_rows(m, room).len(),
        shown_rows(m, room)[i].0 == line_cells(document_rows(m)[m.scroll + i], columns(m)),
        shown_rows(m, room)[i].1 is None,
{
}

/// All rows can be scrolled to: at the last position the last row is the last
/// one shown, and it leaves no room unused.
pub proof fn law_last_position_shows_the_end(len: nat, room: nat)
    ensures
        len <= room ==> scroll_limit(len, room) == 0,
        len > room ==> scroll_limit(len, room) + room == len,
{
}

// ---------------------------------------------------------------------------
// The header
// ---------------------------------------------------------------------------

/// Every row of the header fits in the pane.
pub open spec fn header_fits(m: Reader) -> bool {
    header_rows(m).len() <= usable_rows(m)
}

/// The header names the file first. A click on the name of a file that is kept
/// lets the pane follow changes again. Below are the rows that open the file in
/// the editor and with another program.
pub proof fn law_header_opens_the_file(m: Reader, abs: Seq<char>)
    requires
        m.preview.target is Some,
        m.preview.target_abs == Some(abs),
        header_fits(m),
    ensures
        m.pinned ==> pane_rows(m)[0].1 == Some(Action::Unpin),
        !m.pinned ==> pane_rows(m)[0].1 is None,
        find_action(pane_rows(m), ReaderHeaderAction::Edit, 0) == Some(Action::EditFile(abs)),
        find_action(pane_rows(m), ReaderHeaderAction::OpenWithSystem, 0) == Some(
            Action::OpenWithSystem(abs),
        ),
        keyed(m, KeyCode::KeyE).1 == Some(Action::EditFile(abs)),
        keyed(m, KeyCode::KeyO).1 == Some(Action::OpenWithSystem(abs)),
        keyed(m, KeyCode::KeyE).0 == m,
        keyed(m, KeyCode::KeyO).0 == m,
{
    let r = pane_rows(m);
    let h = header_rows(m);
    let k: int = if m.preview.content is Diff {
        2
    } else {
        1
    };
    assert(h.len() >= k + 2);
    assert(h[k].1 == Some(Action::EditFile(abs)));
    assert(h[k + 1].1 == Some(Action::OpenWithSystem(abs)));
    assert forall|i: int| 0 <= i < h.len() implies #[trigger] r[i] == h[i] by {}
    assert(r[0] == h[0]);
    assert(r[1] == h[1]);
    assert(r[k] == h[k]);
    assert(r[k + 1] == h[k + 1]);
    reveal_with_fuel(find_action, 5);
}

/// A click on a row does what the row does. Taking the pin away lets the pane
/// follow changes; the other rows leave the pane as it is.
pub proof fn law_click_does_what_the_row_does(m: Reader, x: int, y: int, a: Action)
    requires
        inside(m.viewport, x, y),
        row_at(m.viewport, m.cell.h, y) < pane_rows(m).len(),
    ensures
        action_at(m, x, y) == pane_rows(m)[row_at(m.viewport, m.cell.h, y) as int].1,
        !acted(m, Action::Unpin).0.pinned,
        acted(m, Action::Unpin).0.preview == m.preview,
        acted(m, Action::Unpin).1 is None,
        !(a is Unpin) ==> acted(m, a) == (m, Some(a)),
{
    reveal(action_at);
    reveal(acted);
}

// ---------------------------------------------------------------------------
// The file
// ---------------------------------------------------------------------------

/// A file that is chosen is read at once and kept: it is the file shown from
/// then on, from its start.
pub proof fn law_chosen_file_is_read(
    m: Reader,
    path: Seq<char>,
    root: Option<Seq<char>>,
    now: u64,
)
    ensures
        ({
            let (next, read) = previewed(m, path, root, now);
            &&& next.pinned
            &&& next.scroll == 0
            &&& next.notice is None
            &&& next.preview.target_abs == Some(path)
            &&& next.preview.target == Some(shown_path(path, root))
            &&& next.preview.pending
            &&& read == Some((path, shown_path(path, root), image_room(m)))
        }),
{
    reveal(previewed);
}

/// A pane that follows changes goes over to the file that changed; one whose
/// file is kept does not.
pub proof fn law_following_takes_the_changed_file(
    m: Reader,
    path: Seq<char>,
    root: Option<Seq<char>>,
    now: u64,
)
    ensures
        ({
            let (next, read) = followed(m, path, root, now);
            &&& m.pinned ==> next == m && read is None
            &&& !m.pinned ==> !next.pinned && next.preview.target_abs == Some(path)
                && next.preview.target == Some(shown_path(path, root))
            &&& !m.pinned && may_read(m.preview.last_read, now) ==> read is Some && (read->0).0
                == path
            &&& !m.pinned && !may_read(m.preview.last_read, now) ==> read is None
                && next.preview.queued == Some((path, shown_path(path, root)))
        }),
{
    reveal(followed);
}

/// What was read of the file shown is what is shown, and the pane is drawn
/// anew; what was read of another file is not.
pub proof fn law_read_file_is_shown(m: Reader, read: PreviewRead, now: u64)
    requires
        m.preview.pending,
        m.preview.target is Some,
    ensures
        ({
            let (next, changed, _) = heard(m, ReadStatus::Done(read), now);
            let ours = crate::path::path_eq(m.preview.target->0, read.target@);
            &&& ours ==> next.preview.content == read.content@ && changed && next.updated
            &&& !ours ==> next.preview.content == m.preview.content && !changed
            &&& next.preview.target == m.preview.target
        }),
        !heard(m, ReadStatus::Running, now).1,
        heard(m, ReadStatus::Running, now).0.preview.content == m.preview.content,
{
    reveal(heard);
}

/// A file that was sent is kept, under its own name, and cannot be edited
/// here.
pub proof fn law_sent_file_is_kept(m: Reader, path: Seq<char>, bytes: Seq<u8>)
    ensures
        ({
            let next = remote_shown(m, path, bytes);
            &&& next.pinned
            &&& next.preview.target == Some(path)
            &&& next.preview.target_abs is None
            &&& next.scroll == 0
            &&& !next.preview.pending
            &&& next.notice == Some(" (remote)"@)
        }),
{
    reveal(remote_shown);
}

/// A file below the root is shown by its path from there, any other by its
/// whole path.
pub proof fn law_paths_are_shown_from_the_root(abs: Seq<char>, root: Seq<char>)
    ensures
        shown_path(abs, None) == abs,
        crate::path::stripped(abs, root) is None ==> shown_path(abs, Some(root)) == abs,
        crate::path::stripped(abs, root) is Some && (crate::path::stripped(abs, root)->0).len() > 0
            ==> Some(shown_path(abs, Some(root))) == crate::path::stripped(abs, root),
{
}

/// Reading a file again asks for the file that is shown, with the room that
/// there is, and takes the notice away.
pub proof fn law_reread_asks_for_the_file(m: Reader, now: u64)
    ensures
        ({
            let (next, read) = reread(m, now);
            &&& m.preview.target is Some && m.preview.target_abs is Some ==> read == Some(
                (m.preview.target_abs->0, m.preview.target->0, m.preview.fit),
            ) && next.preview.pending
            &&& m.preview.target_abs is None ==> read is None
            &&& next.notice is None
            &&& next.preview.target == m.preview.target
            &&& next.preview.content == m.preview.content
        }),
{
    reveal(reread);
}

/// Where the editor is not found, the pane says so and names it.
pub proof fn law_missing_editor_is_named(m: Reader, command: Seq<char>, i: int)
    requires
        0 <= i < command.len(),
    ensures
        editor_missing(m, command).notice is Some,
        ({
            let n = editor_missing(m, command).notice->0;
            let at = (" （編集コマンドが見つかりません: "@).len();
            at + i < n.len() && n[at + i] == command[i]
        }),
        editor_missing(m, command).preview == m.preview,
{
    reveal(editor_missing);
}

// ---------------------------------------------------------------------------
// Rows
// ---------------------------------------------------------------------------

/// In a difference what was added is green, what was taken away is red, where
/// it stands is cyan, and the names of files are faint. The rest is white.
pub proof fn law_difference_is_coloured(rest: Seq<char>, line: Seq<char>)
    ensures
        diff_color("@@"@ + rest) == Color::Cyan,
        diff_color("+++ "@ + rest) == Color::BrightBlack,
        diff_color("--- "@ + rest) == Color::BrightBlack,
        diff_color("diff --git"@ + rest) == Color::BrightBlack,
        rest.len() == 0 || rest[0] != '+' ==> diff_color("+"@ + rest) == Color::Green,
        rest.len() == 0 || rest[0] != '-' ==> diff_color("-"@ + rest) == Color::Red,
        line.len() == 0 || line[0] == ' ' ==> diff_color(line) == Color::White,
{
    reveal_strlit("@@");
    reveal_strlit("+++ ");
    reveal_strlit("--- ");
    reveal_strlit("diff --git");
    reveal_strlit("index ");
    reveal_strlit("new file");
    reveal_strlit("deleted file");
    reveal_strlit("rename ");
    reveal_strlit("similarity ");
    reveal_strlit("+");
    reveal_strlit("-");
    lemma_prefix("@@"@, rest);
    lemma_prefix("+++ "@, rest);
    lemma_prefix("--- "@, rest);
    lemma_prefix("diff --git"@, rest);
    lemma_prefix("+"@, rest);
    lemma_prefix("-"@, rest);
    lemma_first("+++ "@ + rest, "@@"@);
    lemma_first("--- "@ + rest, "@@"@);
    lemma_first("diff --git"@ + rest, "@@"@);
    let a = "+"@ + rest;
    lemma_firsts(a);
    if has_prefix(a, "+++ "@) {
        assert(a.subrange(0, 4)[1] == "+++ "@[1]);
        assert(a[1] == rest[0]);
    }
    let b = "-"@ + rest;
    lemma_firsts(b);
    if has_prefix(b, "--- "@) {
        assert(b.subrange(0, 4)[1] == "--- "@[1]);
        assert(b[1] == rest[0]);
    }
    lemma_firsts(line);
}

proof fn lemma_prefix(p: Seq<char>, rest: Seq<char>)
    ensures
        has_prefix(p + rest, p),
{
    assert((p + rest).subrange(0, p.len() as int) =~= p);
}

proof fn lemma_first(s: Seq<char>, p: Seq<char>)
    requires
        p.len() > 0,
        s.len() == 0 || s[0] != p[0],
    ensures
        !has_prefix(s, p),
{
    if has_prefix(s, p) {
        assert(s.subrange(0, p.len() as int)[0] == p[0]);
    }
}

proof fn lemma_firsts(s: Seq<char>)
    ensures
        has_prefix(s, "@@"@) ==> s[0] == '@',
        has_prefix(s, "+++ "@) ==> s.len() > 0 && s[0] == '+',
        has_prefix(s, "--- "@) ==> s.len() > 0 && s[0] == '-',
        has_prefix(s, "diff --git"@) ==> s.len() > 0 && s[0] == 'd',
        has_prefix(s, "index "@) ==> s.len() > 0 && s[0] == 'i',
        has_prefix(s, "new file"@) ==> s.len() > 0 && s[0] == 'n',
        has_prefix(s, "deleted file"@) ==> s.len() > 0 && s[0] == 'd',
        has_prefix(s, "rename "@) ==> s.len() > 0 && s[0] == 'r',
        has_prefix(s, "similarity "@) ==> s.len() > 0 && s[0] == 's',
        has_prefix(s, "+"@) ==> s.len() > 0 && s[0] == '+',
        has_prefix(s, "-"@) ==> s.len() > 0 && s[0] == '-',
        has_prefix(s, "@@"@) ==> s.len() > 0,
{
    reveal_strlit("@@");
    reveal_strlit("+++ ");
    reveal_strlit("--- ");
    reveal_strlit("diff --git");
    reveal_strlit("index ");
    reveal_strlit("new file");
    reveal_strlit("deleted file");
    reveal_strlit("rename ");
    reveal_strlit("similarity ");
    reveal_strlit("+");
    reveal_strlit("-");
    if s.len() > 0 {
        if s[0] != '@' {
            lemma_first(s, "@@"@);
        }
        if s[0] != '+' {
            lemma_first(s, "+++ "@);
            lemma_first(s, "+"@);
        }
        if s[0] != '-' {
            lemma_first(s, "--- "@);
            lemma_first(s, "-"@);
        }
        if s[0] != 'd' {
            lemma_first(s, "diff --git"@);
            lemma_first(s, "deleted file"@);
        }
        if s[0] != 'i' {
            lemma_first(s, "index "@);
        }
        if s[0] != 'n' {
            lemma_first(s, "new file"@);
        }
        if s[0] != 'r' {
            lemma_first(s, "rename "@);
        }
        if s[0] != 's' {
            lemma_first(s, "similarity "@);
        }
    }
}

/// Lines are shown in their order, each with the rows that it takes. In a file
/// that is shown from its start each has its number, counted from one.
pub proof fn law_lines_are_shown_in_order(
    source: Seq<Seq<Span>>,
    cols: nat,
    n: int,
)
    requires
        0 <= n < source.len(),
    ensures
        ({
            let before = body_rows(source, cols, true, n);
            let after = body_rows(source, cols, true, n + 1);
            let own = numbered_rows(source[n], (n + 1) as nat, cols, gutter(source.len()));
            &&& after == before + own
            &&& own.len() > 0 ==> own[0][0].text == row_label(
                (n + 1) as nat,
                0,
                gutter(source.len()),
            )
        }),
{
}

/// The number of a line stands at the right of its column, and only before the
/// first of its rows.
pub proof fn law_line_numbers_stand_right(number: nat, row: int, width: nat)
    requires
        width >= 2,
        decimal(number).len() < width,
    ensures
        row_label(number, row, width).len() == width,
        row == 0 ==> row_label(number, row, width).subrange(
            width - 1 - decimal(number).len(),
            width - 1,
        ) == decimal(number),
        row == 0 ==> row_label(number, row, width).last() == ' ',
        row != 0 ==> row_label(number, row, width) == repeated(' ', width),
{
    if row == 0 {
        let d = decimal(number);
        assert(row_label(number, row, width).subrange(width - 1 - d.len(), width - 1) =~= d);
    }
}

/// Every row of a line of a difference has the colour of that line.
pub proof fn law_difference_rows_keep_their_colour(line: Seq<char>, cols: nat, i: int)
    requires
        0 <= i < diff_line_rows(line, cols).len(),
    ensures
        diff_line_rows(line, cols)[i].len() == 1,
        diff_line_rows(line, cols)[i][0].style.fg == diff_color(line),
{
}

/// Text in colours is shown in its colours, other text in white.
pub proof fn law_text_keeps_its_colours(
    lines: Seq<Seq<char>>,
    colored: Seq<Seq<(Color, Seq<char>)>>,
    i: int,
    k: int,
)
    requires
        0 <= i < colored.len(),
        0 <= k < colored[i].len(),
    ensures
        source_spans(lines, Some(colored)).len() == colored.len(),
        source_spans(lines, Some(colored))[i].len() == colored[i].len(),
        source_spans(lines, Some(colored))[i][k].text == colored[i][k].1,
        source_spans(lines, Some(colored))[i][k].style.fg == colored[i][k].0,
        source_spans(lines, None).len() == lines.len(),
        i < lines.len() ==> source_spans(lines, None)[i].len() == 1 && source_spans(lines, None)[i][0].text
            == lines[i] && source_spans(lines, None)[i][0].style.fg == Color::White,
{
}

/// An image stands below the header, as near to the middle as whole columns
/// allow, and with all of its pixels.
pub proof fn law_image_stands_in_the_middle(m: Reader, rgb: Seq<u8>, w: u32, h: u32)
    requires
        m.preview.content == (Content::Image { rgb, w, h }),
        w <= m.viewport.w,
        m.cell.w > 0,
    ensures
        pane_images(m).len() == 1,
        pane_images(m)[0].data == rgb,
        pane_images(m)[0].width == w,
        pane_images(m)[0].height == h,
        pane_images(m)[0].row == header_rows(m).len(),
        2 * (pane_images(m)[0].col * m.cell.w) <= m.viewport.w - w,
        m.viewport.w - w < 2 * ((pane_images(m)[0].col + 1) * m.cell.w),
        pane_rows(m).len() <= header_rows(m).len() + 1,
{
    let free = (m.viewport.w - w) / 2;
    let c = free / (m.cell.w as int);
    vstd::arithmetic::div_mod::lemma_fundamental_div_mod(free, m.cell.w as int);
    vstd::arithmetic::div_mod::lemma_mod_bound(free, m.cell.w as int);
    assert(m.cell.w as int * c == c * m.cell.w) by (nonlinear_arith);
    assert((c + 1) * m.cell.w == c * m.cell.w + m.cell.w) by (nonlinear_arith);
}

/// What is no image has none.
pub proof fn law_only_images_are_drawn(m: Reader)
    requires
        !(m.preview.content is Image),
    ensures
        pane_images(m).len() == 0,
{
}

/// The room for an image leaves a column at each side and five rows.
pub proof fn law_image_room(m: Reader)
    requires
        m.viewport.w > 2 * m.cell.w,
        m.viewport.h > 5 * m.cell.h,
    ensures
        image_room(m).0 + 2 * m.cell.w == m.viewport.w,
        image_room(m).1 + 5 * m.cell.h == m.viewport.h,
{
}

// ---------------------------------------------------------------------------
// What is shown of a file
// ---------------------------------------------------------------------------

/// A Markdown file that is kept is rendered; any other text is shown line by
/// line, with numbers where it is shown from its start. A difference is shown
/// as one.
pub proof fn law_files_are_shown_by_their_kind(m: Reader, target: Seq<char>)
    requires
        m.preview.target == Some(target),
    ensures
        m.preview.content is Text && m.pinned && names_markdown(target) ==> document_rows(m) == ({
            let d = document(markdown_events(join_with(m.preview.content->Text_lines, '\n')));
            body_rows(d, wrap_cols(m), false, d.len() as int)
        }),
        m.preview.content is Text && !(m.pinned && names_markdown(target)) ==> document_rows(m) == ({
            let s = source_spans(m.preview.content->Text_lines, m.preview.content->highlighted);
            body_rows(s, wrap_cols(m), !m.preview.content->truncated, s.len() as int)
        }),
        m.preview.content is Diff ==> document_rows(m) == diff_rows(
            m.preview.content->Diff_0,
            wrap_cols(m),
            m.preview.content->Diff_0.len() as int,
        ),
        m.preview.content is Deleted ==> document_rows(m).len() == 1 && document_rows(m)[0][0].text
            == "(削除されました)"@,
        m.preview.content is Binary ==> document_rows(m).len() == 1 && document_rows(m)[0][0].text
            == "(バイナリファイル)"@,
{
}

/// The lines of a difference are shown in their order.
pub proof fn law_difference_is_shown_in_order(lines: Seq<Seq<char>>, cols: nat, n: int)
    requires
        0 <= n < lines.len(),
    ensures
        diff_rows(lines, cols, n + 1) == diff_rows(lines, cols, n) + diff_line_rows(lines[n], cols),
        diff_rows(lines, cols, 0).len() == 0,
{
}

/// Breaking a line into rows keeps its characters and their order, and no row is
/// wider than there is room.
pub proof fn law_rows_hold_the_line(line: Seq<Span>, cols: nat, i: int)
    requires
        cols > 0,
    ensures
        unwrapped(wrapped(glyphs(line), glyph_columns(), cols)) == visible(
            glyphs(line),
            glyph_columns(),
        ),
        styled_rows(line, cols).len() == wrapped(glyphs(line), glyph_columns(), cols).len(),
        0 <= i < styled_rows(line, cols).len() ==> styled_rows(line, cols)[i] == row_spans(
            wrapped(glyphs(line), glyph_columns(), cols)[i],
        ),
{
    law_wrapping_keeps_text(glyphs(line), glyph_columns(), cols);
}

/// A path ends in the mark of Markdown whatever the case of its letters.
pub proof fn law_markdown_is_told_by_its_ending(path: Seq<char>)
    ensures
        extension(path) is None ==> !names_markdown(path),
        extension(path) is Some ==> (names_markdown(path) <==> ascii_lower(extension(path)->0)
            == "md"@ || ascii_lower(extension(path)->0) == "markdown"@),
{
}

/// The title is the path of the file and, where it is kept, a pin.
pub proof fn law_title_names_the_file(m: Reader)
    ensures
        m.pinned ==> title_row(m).1 == Some(Action::Unpin),
        !m.pinned ==> title_row(m).1 is None,
        !m.pinned && counted(width_sum(m.preview.target->0)) + 1 < columns(m) ==> title_row(m).0
            == line_cells(plain_line(" "@ + m.preview.target->0, Color::BrightWhite), columns(m)),
{
    reveal_strlit("");
    assert(""@ =~= Seq::empty());
    assert(width_sum(Seq::<char>::empty()) == 0);
    let t = m.preview.target->0;
    assert(" "@ + t + ""@ =~= " "@ + t);
}

} // verus!
