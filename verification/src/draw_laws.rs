//! What stands out on the screen, and where.

use crate::config::Config;
use crate::file_style::{look, sel_bg, suffix, DIR_FG, SEL_FG};
use crate::highlight::{extension_has_syntax, scheme, shown, syntax_key, text_color};
use crate::launcher::{
    agent_lines, bar, browse_rows, label_of, launcher_rows, left_text, list_rows, mark_of, scrolled,
    selected_place, tilde_path, visible, Launch, Mode,
};
use crate::popup::{box_lines, box_place, box_row, column, laid_onto, on_color, stamped, BoxPlace};
use crate::preview::{image_plan, tail_content, Content, ImagePlan};
use crate::sidebar::{same_act, Act};
use crate::sidebar_rows::{act_row, marked};
use crate::terminal::{Cell, Color};
use vstd::prelude::*;
use vstd::string::*;

verus! {

// ---------------------------------------------------------------------------
// Bars
// ---------------------------------------------------------------------------

/// Every character of a column has its colours.
pub open spec fn in_colors(c: Seq<Cell>, fg: Color, bg: Color) -> bool {
    forall|i: int|
        0 <= i < c.len() && (#[trigger] c[i]).width > 0 ==> c[i].attr.fg == fg && c[i].attr.bg == bg
}

proof fn lemma_laid_colors(text: Seq<char>, fg: Color, bg: Color, cols: nat)
    ensures
        in_colors(laid_onto(Seq::empty(), text, on_color(fg, bg), cols).cells, fg, bg),
        laid_onto(Seq::empty(), text, on_color(fg, bg), cols).cells.len() <= cols,
    decreases text.len(),
{
    if text.len() > 0 {
        lemma_laid_colors(text.drop_last(), fg, bg, cols);
        let l = laid_onto(Seq::empty(), text.drop_last(), on_color(fg, bg), cols);
        let r = laid_onto(Seq::empty(), text, on_color(fg, bg), cols);
        assert forall|i: int| 0 <= i < r.cells.len() && (#[trigger] r.cells[i]).width > 0 implies
            r.cells[i].attr.fg == fg && r.cells[i].attr.bg == bg by {
            if i < l.cells.len() {
                assert(r.cells[i] == l.cells[i]);
            }
        }
    }
}

/// A column is as wide as it should be, and all of it is in its colours, also
/// where the text does not reach.
pub proof fn law_column_is_in_its_colors(text: Seq<char>, fg: Color, bg: Color, width: nat)
    ensures
        column(text, fg, bg, width).len() == width,
        in_colors(column(text, fg, bg, width), fg, bg),
        text.len() == 0 ==> forall|i: int|
            0 <= i < width ==> (#[trigger] column(text, fg, bg, width)[i]).ch == ' ',
{
    lemma_laid_colors(text, fg, bg, width);
}

/// What is selected is a bar, and nothing else is.
pub proof fn law_selected_row_is_a_bar(text: Seq<char>, fg: Color, width: nat)
    ensures
        in_colors(bar(text, fg, true, width), SEL_FG, sel_bg()),
        in_colors(bar(text, fg, false, width), fg, Color::Background),
        bar(text, fg, true, width).len() == width,
        sel_bg() != Color::Background,
{
    law_column_is_in_its_colors(text, SEL_FG, sel_bg(), width);
    law_column_is_in_its_colors(text, fg, Color::Background, width);
}

/// The row of the sidebar that the selection is on stands out; the others are
/// as they were.
pub proof fn law_selection_is_marked(r: Seq<(Seq<Cell>, Option<Act>)>, act: Act, i: int)
    requires
        0 <= i < r.len(),
    ensures
        marked(r, Some(act)).len() == r.len(),
        marked(r, Some(act))[i].1 == r[i].1,
        marked(r, None) == r,
        ({
            let k = act_row(r, act, 0);
            &&& i != k ==> marked(r, Some(act))[i] == r[i]
            &&& i == k ==> marked(r, Some(act))[i].0.len() == r[i].0.len() && forall|c: int|
                0 <= c < r[i].0.len() ==> (#[trigger] marked(r, Some(act))[i].0[c]).ch == r[i].0[c].ch
                    && marked(r, Some(act))[i].0[c].attr.bg == sel_bg() && marked(
                    r,
                    Some(act),
                )[i].0[c].attr.fg == SEL_FG
            &&& k < r.len() ==> r[k].1 is Some && same_act(r[k].1->0, act)
            &&& forall|j: int|
                0 <= j < k && j < r.len() ==> !((#[trigger] r[j]).1 is Some && same_act(
                    r[j].1->0,
                    act,
                ))
        }),
{
    lemma_act_row(r, act, 0);
}

proof fn lemma_act_row(r: Seq<(Seq<Cell>, Option<Act>)>, act: Act, from: int)
    requires
        0 <= from <= r.len(),
    ensures
        from <= act_row(r, act, from) <= r.len(),
        act_row(r, act, from) < r.len() ==> r[act_row(r, act, from)].1 is Some && same_act(
            r[act_row(r, act, from)].1->0,
            act,
        ),
        forall|j: int|
            from <= j < act_row(r, act, from) ==> !((#[trigger] r[j]).1 is Some && same_act(
                r[j].1->0,
                act,
            )),
    decreases r.len() - from,
{
    if from < r.len() && !(r[from].1 is Some && same_act(r[from].1->0, act)) {
        lemma_act_row(r, act, from + 1);
    }
}

// ---------------------------------------------------------------------------
// The launcher
// ---------------------------------------------------------------------------

/// The browser shows the entries in their order, from the one it is scrolled to
/// on, so that the selected one is among them.
pub proof fn law_browser_shows_the_selected(m: Launch, body: nat)
    requires
        body > 0,
    ensures
        selected_place(m) >= 0 ==> scrolled(m, body) <= selected_place(m) < scrolled(m, body) + body,
{
}

/// A row of the browser is that of its entry, with a star before a directory
/// that has a bookmark.
pub proof fn law_browser_rows(m: Launch, k: int)
    requires
        0 <= k < visible(m).len(),
    ensures
        ({
            let e = m.entries[visible(m)[k] as int];
            &&& left_text(m, k).0 == mark_of(m, e) + label_of(e)
            &&& left_text(m, k).1 == look(e.0, e.1).1
            &&& mark_of(m, e) == "★"@ || mark_of(m, e) == " "@
        }),
{
}

/// A directory is told by a slash behind its name, and has a look of its own.
pub proof fn law_directories_are_told(name: Seq<char>)
    requires
        name != ".."@,
    ensures
        label_of((name, true)).last() == '/',
        label_of((name, false)).subrange(
            label_of((name, false)).len() - name.len(),
            label_of((name, false)).len() as int,
        ) == name,
        look(name, true).0 == '\u{f07b}',
        look(name, true).1 == DIR_FG,
        look(".."@, true).0 == '\u{f062}',
{
    reveal_strlit("/");
    let l = label_of((name, false));
    assert(l.subrange(l.len() - name.len(), l.len() as int) =~= name);
}

/// The home directory is written as a tilde.
pub proof fn law_home_is_a_tilde(path: Seq<char>, home: Seq<char>)
    ensures
        crate::path::stripped(path, home) is None ==> tilde_path(path, Some(home)) == path,
        crate::path::stripped(path, home) == Some(Seq::<char>::empty()) ==> tilde_path(
            path,
            Some(home),
        ) == "~"@,
        tilde_path(path, None) == path,
{
}

/// A list shows its paths in their order, and the selected one is a bar.
pub proof fn law_lists_show_their_paths(
    title: Seq<char>,
    paths: Seq<Seq<char>>,
    selected: nat,
    hint: Seq<char>,
    home: Option<Seq<char>>,
    cols: nat,
    count: nat,
    i: int,
)
    requires
        0 <= i < paths.len(),
        i + 5 <= count,
    ensures
        ({
            let r = list_rows(title, paths, selected, hint, home, cols, count);
            &&& r.len() == count
            &&& r[i + 2] == bar("  "@ + tilde_path(paths[i], home), DIR_FG, i == selected, cols)
        }),
{
}

/// What to open a directory with: first the shell, then the tools in their
/// order, of which the selected one stands out.
pub proof fn law_tools_are_listed(
    m: Launch,
    tools: Seq<Seq<char>>,
    home: Option<Seq<char>>,
    panel: Color,
    i: int,
)
    requires
        0 <= i < tools.len(),
    ensures
        ({
            let l = agent_lines(m, tools, home, panel);
            &&& l.len() == tools.len() + 6
            &&& l[4 + i].0 == tools[i]
            &&& m.agent_selected == i + 1 ==> l[4 + i].1 == SEL_FG && l[4 + i].2 == sel_bg()
            &&& m.agent_selected != i + 1 ==> l[4 + i].2 == panel
            &&& m.agent_selected == 0 ==> l[3].1 == SEL_FG && l[3].2 == sel_bg()
            &&& m.agent_selected != 0 ==> l[3].2 == panel
        }),
{
}

/// A mode shows its own list.
pub proof fn law_modes_show_their_lists(
    m: Launch,
    preview: Seq<(Seq<char>, bool)>,
    tools: Seq<Seq<char>>,
    home: Option<Seq<char>>,
    panel: Color,
    cols: nat,
    count: nat,
    i: int,
)
    requires
        0 <= i,
        i + 5 <= count,
    ensures
        ({
            let r = launcher_rows(m, preview, tools, home, panel, cols, count);
            &&& m.mode == Mode::Recent && i < m.recent.len() ==> r[i + 2] == bar(
                "  "@ + tilde_path(m.recent[i], home),
                DIR_FG,
                i == m.recent_selected,
                cols,
            )
            &&& m.mode == Mode::Bookmarks && i < m.bookmarks.len() ==> r[i + 2] == bar(
                "  "@ + tilde_path(m.bookmarks[i], home),
                DIR_FG,
                i == m.bookmark_selected,
                cols,
            )
            &&& m.mode == Mode::Browse ==> r == browse_rows(m, preview, home, cols, count)
        }),
{
}

/// A box stands in the middle: as far from the left as from the right, and from
/// the top as from the bottom, to a cell.
pub proof fn law_box_stands_in_the_middle(
    c: Seq<(Seq<char>, Color, Color)>,
    cols: nat,
    lines: nat,
)
    ensures
        ({
            let p = box_place(c, cols, lines);
            &&& p.x0 + p.w <= cols && p.y0 + p.h <= lines
            &&& 0 <= (cols - p.w - p.x0) - p.x0 <= 1
            &&& 0 <= (lines - p.h - p.y0) - p.y0 <= 1
            &&& c.len() + 2 <= lines ==> p.h == c.len() + 2
        }),
{
}

/// Cells that are written over a row stand in their columns, and the others
/// stay.
pub proof fn law_writing_over_a_row(row: Seq<Cell>, x0: int, cells: Seq<Cell>, i: int)
    requires
        0 <= i < row.len(),
    ensures
        stamped(row, x0, cells).len() == row.len(),
        x0 <= i < x0 + cells.len() ==> stamped(row, x0, cells)[i] == cells[i - x0],
        i < x0 || i >= x0 + cells.len() ==> stamped(row, x0, cells)[i] == row[i],
{
}

// ---------------------------------------------------------------------------
// Files
// ---------------------------------------------------------------------------

/// A picture that fits is shown as it is, and is never made larger; one that
/// does not is made to fit where its pixels can be averaged.
pub proof fn law_pictures_are_never_enlarged(size: (u32, u32), color: (u16, u8), fit: (u32, u32))
    requires
        fit.0 > 0,
        fit.1 > 0,
        size.0 > 0,
        size.1 > 0,
    ensures
        ({
            let plan = image_plan(Ok::<((u32, u32), (u16, u8)), Seq<char>>((size, color)), fit);
            &&& size.0 <= fit.0 && size.1 <= fit.1 <==> plan == ImagePlan::Whole
            &&& size.0 * size.1 <= 65_536 ==> plan != ImagePlan::TooLarge
        }),
        image_plan(Err::<((u32, u32), (u16, u8)), Seq<char>>(Seq::empty()), fit)
            == ImagePlan::Whole,
{
    if size.0 * size.1 <= 65_536 {
        assert(size.0 <= 65_536) by (nonlinear_arith)
            requires
                size.0 * size.1 <= 65_536,
                size.1 >= 1,
                size.0 >= 0,
        ;
        assert(size.1 <= 65_536) by (nonlinear_arith)
            requires
                size.0 * size.1 <= 65_536,
                size.0 >= 1,
                size.1 >= 0,
        ;
    }
}

/// A file that cannot be read is told to be gone, one with a zero byte near its
/// start is no text, and of a long one only the end is shown.
pub proof fn law_files_are_told_apart(bytes: Seq<u8>, len: u64, path: Seq<char>, i: int)
    ensures
        tail_content(None, len, path) == Content::Deleted,
        0 <= i < bytes.len() && i < 8192 && bytes[i] == 0 ==> tail_content(Some(bytes), len, path)
            == Content::Binary,
        (forall|k: int| 0 <= k < bytes.len() ==> #[trigger] bytes[k] != 0) ==> tail_content(
            Some(bytes),
            len,
            path,
        ) is Text,
        (forall|k: int| 0 <= k < bytes.len() ==> #[trigger] bytes[k] != 0) ==> (tail_content(
            Some(bytes),
            len,
            path,
        )->truncated <==> len > 65_536),
{
}

/// A part of a highlighted line is drawn in its own red, green and blue.
pub proof fn law_highlighted_parts_keep_their_colors(r: u8, g: u8, b: u8, text: Seq<char>)
    requires
        text.len() > 0,
        text.last() != '\n',
        text.last() != '\r',
    ensures
        shown(seq![((r, g, b), text)]).len() == 1,
        shown(seq![((r, g, b), text)])[0].1 == text,
        shown(seq![((r, g, b), text)])[0].0 is Rgb,
        shown(seq![((r, g, b), text)])[0].0->rgba == r * 0x100_0000 + g * 0x1_0000 + b * 0x100 + 0xff,
{
    let one = seq![((r, g, b), text)];
    assert(one.drop_last() =~= Seq::empty());
    reveal_with_fuel(shown, 2);
    let v: u32 = ((r as u32) << 24) | ((g as u32) << 16) | ((b as u32) << 8) | 0xff;
    assert(v == ((r as u32) << 24) | ((g as u32) << 16) | ((b as u32) << 8) | 0xff ==> v == r as u32
        * 0x100_0000 + g as u32 * 0x1_0000 + b as u32 * 0x100 + 0xff) by (bit_vector);
}

// ---------------------------------------------------------------------------
// Built-in colours
// ---------------------------------------------------------------------------

/// The red, green and blue of a value.
pub open spec fn parts(rgba: u32) -> (int, int, int) {
    (rgba as int / 0x100_0000, rgba as int / 0x1_0000 % 0x100, rgba as int / 0x100 % 0x100)
}

/// The built-in colours are what they are called: red is mostly red, green
/// mostly green, blue mostly blue, and in the mixed ones the third part is the
/// least. Text is lighter than its background, and white than black.
pub proof fn law_colors_are_what_they_are_called(cfg: Config)
    requires
        cfg.has_default_colors(),
    ensures
        ({
            let (r, g, b) = parts(cfg.color_red);
            r > g && r > b
        }),
        ({
            let (r, g, b) = parts(cfg.color_green);
            g > r && g > b
        }),
        ({
            let (r, g, b) = parts(cfg.color_blue);
            b > r && b > g
        }),
        ({
            let (r, g, b) = parts(cfg.color_yellow);
            b < r && b < g
        }),
        ({
            let (r, g, b) = parts(cfg.color_magenta);
            g < r && g < b
        }),
        ({
            let (r, g, b) = parts(cfg.color_cyan);
            r < g && r < b
        }),
        cfg.color_bright_red == cfg.color_red,
        cfg.color_bright_green == cfg.color_green,
        cfg.color_bright_blue == cfg.color_blue,
        cfg.color_bright_yellow == cfg.color_yellow,
        cfg.color_bright_magenta == cfg.color_magenta,
        cfg.color_bright_cyan == cfg.color_cyan,
        parts(cfg.color_foreground).0 > 128 && parts(cfg.color_background).0 < 128,
        parts(cfg.color_black).1 < parts(cfg.color_bright_black).1 < parts(cfg.color_white).1
            < parts(cfg.color_bright_white).1,
        cfg.color_background as int % 0x100 < 255,
        cfg.color_foreground as int % 0x100 == 255,
{
}

/// The kinds of files have looks of their own, by the ending of their names.
pub proof fn law_files_look_by_their_ending(name: Seq<char>)
    requires
        name != ".."@,
    ensures
        suffix(name) == "rs"@ ==> look(name, false).0 == '\u{e7a8}',
        suffix(name) == "md"@ ==> look(name, false).0 == '\u{f48a}',
        suffix(name) == "toml"@ || suffix(name) == "json"@ || suffix(name) == "yaml"@ ==> look(
            name,
            false,
        ).0 == '\u{e615}',
        suffix(name) == "png"@ || suffix(name) == "jpg"@ || suffix(name) == "svg"@ ==> look(
            name,
            false,
        ).0 == '\u{f1c5}',
        suffix(name) == "sh"@ ==> look(name, false).0 == '\u{f489}',
        suffix(name) == "py"@ || suffix(name) == "js"@ || suffix(name) == "c"@ ==> look(
            name,
            false,
        ).0 == '\u{f121}',
        suffix(name) == "txt"@ || suffix(name) == "log"@ ==> look(name, false).0 == '\u{f0f6}',
        suffix(name).len() == 0 ==> look(name, false).0 == '\u{f15b}',
{
    reveal_strlit("rs");
    reveal_strlit("md");
    reveal_strlit("markdown");
    reveal_strlit("toml");
    reveal_strlit("yaml");
    reveal_strlit("yml");
    reveal_strlit("json");
    reveal_strlit("lock");
    reveal_strlit("ini");
    reveal_strlit("conf");
    reveal_strlit("png");
    reveal_strlit("jpg");
    reveal_strlit("jpeg");
    reveal_strlit("gif");
    reveal_strlit("webp");
    reveal_strlit("bmp");
    reveal_strlit("svg");
    reveal_strlit("ico");
    reveal_strlit("sh");
    reveal_strlit("bash");
    reveal_strlit("zsh");
    reveal_strlit("fish");
    reveal_strlit("js");
    reveal_strlit("ts");
    reveal_strlit("py");
    reveal_strlit("go");
    reveal_strlit("c");
    reveal_strlit("cpp");
    reveal_strlit("h");
    reveal_strlit("html");
    reveal_strlit("css");
    reveal_strlit("txt");
    reveal_strlit("log");
    let e = suffix(name);
    if e.len() > 0 {
        let first = e[0];
    }
    if e.len() > 1 {
        let second = e[1];
    }
}

/// The colours of code: comments are faint, strings green, numbers orange, words
/// of the language violet, and functions blue.
pub proof fn law_code_colors()
    ensures
        scheme()[0].1 == (0x56u8, 0x5fu8, 0x89u8),
        crate::text::has_prefix(scheme()[0].0, "comment"@),
        scheme()[1].1 == (0x9eu8, 0xceu8, 0x6au8),
        crate::text::has_prefix(scheme()[1].0, "string"@),
        scheme()[2].1 == (0xffu8, 0x9eu8, 0x64u8),
        crate::text::has_prefix(scheme()[2].0, "constant.numeric"@),
        scheme()[4].1 == (0xbbu8, 0x9au8, 0xf7u8),
        crate::text::has_prefix(scheme()[4].0, "keyword"@),
        scheme()[7].1 == (0x7au8, 0xa2u8, 0xf7u8),
        crate::text::has_prefix(scheme()[7].0, "entity.name.function"@),
        text_color() == (0xc0u8, 0xcau8, 0xf5u8),
{
    reveal_strlit("comment, punctuation.definition.comment");
    reveal_strlit("comment");
    reveal_strlit("string, punctuation.definition.string, constant.character");
    reveal_strlit("string");
    reveal_strlit("constant.numeric, constant.language");
    reveal_strlit("constant.numeric");
    reveal_strlit("keyword, storage.modifier, keyword.operator.word");
    reveal_strlit("keyword");
    reveal_strlit("entity.name.function, support.function, meta.function-call");
    reveal_strlit("entity.name.function");
    assert(scheme()[0].0.subrange(0, "comment"@.len() as int) =~= "comment"@);
    assert(scheme()[1].0.subrange(0, "string"@.len() as int) =~= "string"@);
    assert(scheme()[2].0.subrange(0, "constant.numeric"@.len() as int) =~= "constant.numeric"@);
    assert(scheme()[4].0.subrange(0, "keyword"@.len() as int) =~= "keyword"@);
    assert(scheme()[7].0.subrange(0, "entity.name.function"@.len() as int)
        =~= "entity.name.function"@);
}

/// A grammar is looked for by the ending of a name first, and by the whole name
/// where there is none for it.
pub proof fn law_grammar_is_looked_for(path: Seq<char>, name: Seq<char>, ext: Seq<char>)
    requires
        crate::path::file_name(path) == Some(name),
        crate::path::extension(path) == Some(ext),
    ensures
        extension_has_syntax(ext) ==> syntax_key(path) == Some(ext),
        !extension_has_syntax(ext) && extension_has_syntax(name) ==> syntax_key(path) == Some(name),
        !extension_has_syntax(ext) && !extension_has_syntax(name) ==> syntax_key(path) is None,
{
}

/// The lines of a box stand below each other within its borders.
pub proof fn law_box_rows(
    r: Seq<Seq<Cell>>,
    c: Seq<(Seq<char>, Color, Color)>,
    p: BoxPlace,
    panel: Color,
    n: int,
)
    requires
        0 <= n < c.len(),
        n + 2 < p.h,
        p.y0 + p.h <= r.len(),
        box_lines(r, c, p, panel, n).len() == r.len(),
    ensures
        ({
            let before = box_lines(r, c, p, panel, n);
            let after = box_lines(r, c, p, panel, n + 1);
            &&& after.len() == before.len()
            &&& after[p.y0 + n + 1] == stamped(
                before[p.y0 + n + 1],
                p.x0 as int,
                box_row(c[n], p.interior, panel),
            )
            &&& forall|y: int|
                0 <= y < before.len() && y != p.y0 + n + 1 ==> #[trigger] after[y] == before[y]
            &&& box_row(c[n], p.interior, panel).len() == p.interior + 2
            &&& box_row(c[n], p.interior, panel)[0].ch == '│'
            &&& box_row(c[n], p.interior, panel).last().ch == '│'
            &&& box_row(c[n], p.interior, panel).subrange(1, p.interior as int + 1) == column(
                " "@ + c[n].0,
                c[n].1,
                c[n].2,
                p.interior,
            )
        }),
{
    law_column_is_in_its_colors(" "@ + c[n].0, c[n].1, c[n].2, p.interior);
    let b = box_row(c[n], p.interior, panel);
    assert(b.subrange(1, p.interior as int + 1) =~= column(
        " "@ + c[n].0,
        c[n].1,
        c[n].2,
        p.interior,
    ));
}

} // verus!
