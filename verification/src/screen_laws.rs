//! What the screen of a terminal shows of the engine's grid.

use crate::config::Config;
use crate::display::color_value;
use crate::snapshot::{
    belongs, cell_at, cells_for, drawn_cell, drawn_cursor, remaining, screen, CursorShape, GridCell,
    GridCursor,
};
use crate::terminal::{erased, placed, stretched, touches, Cell, Color, CursorStyle, Picture};
use crate::vt::{cube_color, drawn_color, gray_color, index_color, rgb_of, GridColor, Rgb};
use vstd::prelude::*;

verus! {

/// A cell of the grid that is no spacer is drawn with its own character, in
/// its own colours: the text in the colour of the text, on the colour of the
/// background. A cell that was never written is blank.
pub proof fn law_cell_is_drawn_as_it_is(g: GridCell)
    requires
        !g.wide_spacer,
        !g.leading_spacer,
    ensures
        drawn_cell(g).attr.fg == drawn_color(g.fg),
        drawn_cell(g).attr.bg == drawn_color(g.bg),
        g.ch != '\0' ==> drawn_cell(g).ch == g.ch,
        g.ch == '\0' ==> drawn_cell(g).ch == ' ',
        drawn_cell(g).width == 2 <==> g.wide,
        drawn_cell(g).width == 1 <==> !g.wide,
        drawn_cell(g).attr.inversed <==> g.inverse,
        drawn_cell(g).attr.concealed <==> g.hidden,
        drawn_cell(g).attr.bold < 0 <==> g.dim,
        drawn_cell(g).attr.bold > 0 <==> !g.dim && (g.bold || g.italic),
{
}

/// The columns that belong to a wide character beside them are drawn without
/// a width of their own.
pub proof fn law_spacers_take_no_room(g: GridCell)
    requires
        g.wide_spacer || g.leading_spacer,
    ensures
        drawn_cell(g).width == 0,
{
}

/// The eight colours of a terminal in their order.
pub open spec fn eight_colors() -> Seq<Color> {
    seq![
        Color::Black,
        Color::Red,
        Color::Green,
        Color::Yellow,
        Color::Blue,
        Color::Magenta,
        Color::Cyan,
        Color::White,
    ]
}

/// The bright form of the eight colours in their order.
pub open spec fn bright_colors() -> Seq<Color> {
    seq![
        Color::BrightBlack,
        Color::BrightRed,
        Color::BrightGreen,
        Color::BrightYellow,
        Color::BrightBlue,
        Color::BrightMagenta,
        Color::BrightCyan,
        Color::BrightWhite,
    ]
}

/// The first sixteen numbers are the eight colours and then their bright
/// forms. The default colours stay the default colours.
pub proof fn law_numbers_name_colors(i: u8)
    ensures
        i < 8 ==> drawn_color(GridColor::Indexed(i)) == eight_colors()[i as int],
        8 <= i < 16 ==> drawn_color(GridColor::Indexed(i)) == bright_colors()[i - 8],
        drawn_color(GridColor::Foreground) == Color::Foreground,
        drawn_color(GridColor::Background) == Color::Background,
        drawn_color(GridColor::OtherNamed) == Color::Foreground,
{
}

proof fn lemma_channels(r: u8, g: u8, b: u8)
    ensures
        ({
            let v: u32 = ((r as u32) << 24) | ((g as u32) << 16) | ((b as u32) << 8) | 0xff;
            &&& ((v >> 24) & 0xff) as u8 == r
            &&& ((v >> 16) & 0xff) as u8 == g
            &&& ((v >> 8) & 0xff) as u8 == b
            &&& v & 0xff == 0xff
            &&& v == r * 0x100_0000 + g * 0x1_0000 + b * 0x100 + 0xff
        }),
{
    let v: u32 = ((r as u32) << 24) | ((g as u32) << 16) | ((b as u32) << 8) | 0xff;
    assert(v == ((r as u32) << 24) | ((g as u32) << 16) | ((b as u32) << 8) | 0xff ==> ((v >> 24)
        & 0xff) as u8 == r && ((v >> 16) & 0xff) as u8 == g && ((v >> 8) & 0xff) as u8 == b && v & 0xff
        == 0xff && v == r as u32 * 0x100_0000 + g as u32 * 0x1_0000 + b as u32 * 0x100 + 0xff)
        by (bit_vector);
}

/// A colour given by value is drawn with that red, green and blue, opaque.
pub proof fn law_values_are_kept(c: Rgb)
    ensures
        drawn_color(GridColor::Spec(c)) is Rgb,
        ({
            let v = drawn_color(GridColor::Spec(c))->rgba;
            v == c.r * 0x100_0000 + c.g * 0x1_0000 + c.b * 0x100 + 0xff
        }),
{
    lemma_channels(c.r, c.g, c.b);
}

/// The brightness of a step of the colour cube.
pub open spec fn cube_steps() -> Seq<u8> {
    seq![0u8, 95, 135, 175, 215, 255]
}

/// The numbers from 16 to 231 are a cube: red counts most, then green, then
/// blue.
pub proof fn law_cube_counts_red_first(r: int, g: int, b: int)
    requires
        0 <= r < 6,
        0 <= g < 6,
        0 <= b < 6,
    ensures
        cube_color(16 + 36 * r + 6 * g + b) == (Rgb {
            r: cube_steps()[r],
            g: cube_steps()[g],
            b: cube_steps()[b],
        }),
{
}

/// The numbers from 232 on are greys, each ten steps brighter than the one
/// before, from 8 on.
pub proof fn law_greys_get_brighter(i: int)
    requires
        232 <= i < 256,
    ensures
        gray_color(i).r == gray_color(i).g,
        gray_color(i).g == gray_color(i).b,
        gray_color(232).r == 8,
        i < 255 ==> gray_color(i + 1).r == gray_color(i).r + 10,
{
}

/// A program that asks for the colour of a number is told the one that is
/// drawn for it.
pub proof fn law_told_colors_are_drawn(cfg: Config, i: u8)
    ensures
        rgb_of(color_value(cfg, drawn_color(GridColor::Indexed(i)))) == index_color(&cfg, i as int),
        rgb_of(color_value(cfg, drawn_color(GridColor::Foreground))) == index_color(&cfg, 256),
        rgb_of(color_value(cfg, drawn_color(GridColor::Background))) == index_color(&cfg, 257),
{
    if 16 <= i <= 231 {
        let c = cube_color(i as int);
        lemma_channels(c.r, c.g, c.b);
    } else if i >= 232 {
        let c = gray_color(i as int);
        lemma_channels(c.r, c.g, c.b);
    }
}

/// A colour with a name has the value that the settings give that name.
pub proof fn law_settings_color_names(cfg: Config)
    ensures
        color_value(cfg, Color::Foreground) == cfg.color_foreground,
        color_value(cfg, Color::Background) == cfg.color_background,
        color_value(cfg, Color::Selection) == cfg.color_selection,
        eight_colors().map_values(|c: Color| color_value(cfg, c)) == seq![
            cfg.color_black,
            cfg.color_red,
            cfg.color_green,
            cfg.color_yellow,
            cfg.color_blue,
            cfg.color_magenta,
            cfg.color_cyan,
            cfg.color_white,
        ],
        bright_colors().map_values(|c: Color| color_value(cfg, c)) == seq![
            cfg.color_bright_black,
            cfg.color_bright_red,
            cfg.color_bright_green,
            cfg.color_bright_yellow,
            cfg.color_bright_blue,
            cfg.color_bright_magenta,
            cfg.color_bright_cyan,
            cfg.color_bright_white,
        ],
{
    assert(eight_colors().map_values(|c: Color| color_value(cfg, c)) =~= seq![
        cfg.color_black,
        cfg.color_red,
        cfg.color_green,
        cfg.color_yellow,
        cfg.color_blue,
        cfg.color_magenta,
        cfg.color_cyan,
        cfg.color_white,
    ]);
    assert(bright_colors().map_values(|c: Color| color_value(cfg, c)) =~= seq![
        cfg.color_bright_black,
        cfg.color_bright_red,
        cfg.color_bright_green,
        cfg.color_bright_yellow,
        cfg.color_bright_blue,
        cfg.color_bright_magenta,
        cfg.color_bright_cyan,
        cfg.color_bright_white,
    ]);
}

proof fn lemma_cell_at(cells: Seq<GridCell>, offset: int, i: int)
    requires
        0 <= i < cells.len(),
        forall|j: int|
            i < j < cells.len() ==> (#[trigger] cells[j]).line != cells[i].line || cells[j].col
                != cells[i].col,
    ensures
        cell_at(cells, offset, cells[i].line + offset, cells[i].col as int) == drawn_cell(cells[i]),
    decreases cells.len(),
{
    if i < cells.len() - 1 {
        assert(cells.last() == cells[cells.len() - 1]);
        lemma_cell_at(cells.drop_last(), offset, i);
    }
}

/// A cell of the grid is drawn in its own column, and as many rows below its
/// own line as the display is scrolled back.
pub proof fn law_cells_stand_in_their_places(
    cells: Seq<GridCell>,
    offset: int,
    lines: nat,
    columns: nat,
    i: int,
)
    requires
        0 <= i < cells.len(),
        0 <= cells[i].line + offset < lines,
        cells[i].col < columns,
        forall|j: int|
            i < j < cells.len() ==> (#[trigger] cells[j]).line != cells[i].line || cells[j].col
                != cells[i].col,
    ensures
        screen(cells, offset, lines, columns).len() == lines,
        screen(cells, offset, lines, columns)[cells[i].line + offset].len() == columns,
        screen(cells, offset, lines, columns)[cells[i].line + offset][cells[i].col as int]
            == drawn_cell(cells[i]),
{
    lemma_cell_at(cells, offset, i);
}

/// Where the grid has no cell, the screen is blank.
pub proof fn law_rest_of_screen_is_blank(
    cells: Seq<GridCell>,
    offset: int,
    lines: nat,
    columns: nat,
    row: int,
    col: int,
)
    requires
        0 <= row < lines,
        0 <= col < columns,
        forall|j: int|
            0 <= j < cells.len() ==> (#[trigger] cells[j]).line + offset != row || cells[j].col
                != col,
    ensures
        screen(cells, offset, lines, columns)[row][col].ch == ' ',
        screen(cells, offset, lines, columns)[row][col].width == 1,
        screen(cells, offset, lines, columns)[row][col].attr.bg == Color::Background,
    decreases cells.len(),
{
    if cells.len() > 0 {
        assert(cells.last() == cells[cells.len() - 1]);
        assert forall|j: int| 0 <= j < cells.drop_last().len() implies (
        #[trigger] cells.drop_last()[j]).line + offset != row || cells.drop_last()[j].col != col by {
            assert(cells.drop_last()[j] == cells[j]);
        }
        law_rest_of_screen_is_blank(cells.drop_last(), offset, lines, columns, row, col);
    }
}

/// The cursor is drawn over the cell that it is on, in the form that the
/// program asked for, unless it is hidden or scrolled off the screen.
pub proof fn law_cursor_stands_on_its_cell(c: GridCursor, offset: int, lines: int)
    requires
        lines <= usize::MAX,
    ensures
        c.shape == CursorShape::Hidden ==> drawn_cursor(c, offset, lines) is None,
        c.shape != CursorShape::Hidden ==> (drawn_cursor(c, offset, lines) is Some <==> 0 <= c.line
            + offset < lines),
        drawn_cursor(c, offset, lines) is Some ==> {
            let d = drawn_cursor(c, offset, lines)->0;
            &&& d.row == c.line + offset
            &&& d.col == c.col
            &&& d.style == CursorStyle::Underline <==> c.shape == CursorShape::Underline
            &&& d.style == CursorStyle::Bar <==> c.shape == CursorShape::Beam
            &&& d.style == CursorStyle::Block <==> c.shape == CursorShape::Block || c.shape
                == CursorShape::HollowBlock
        },
{
}

/// The cells that an image takes hold it, and one less would not.
pub proof fn law_images_take_whole_cells(pixels: int, cell: int)
    requires
        0 <= pixels,
        0 < cell,
    ensures
        cells_for(pixels, cell) * cell >= pixels,
        pixels > 0 ==> (cells_for(pixels, cell) - 1) * cell < pixels,
{
    vstd::arithmetic::div_mod::lemma_fundamental_div_mod(pixels, cell);
    let q = pixels / cell;
    assert((q + 1) * cell == q * cell + cell) by (nonlinear_arith);
    assert((q - 1) * cell == q * cell - cell) by (nonlinear_arith);
    assert(cell * q == q * cell) by (nonlinear_arith);
    vstd::arithmetic::div_mod::lemma_mod_bound(pixels, cell);
}

/// An image goes as soon as a character is written in one of its cells.
pub proof fn law_text_drives_images_out(
    all: Seq<Picture>,
    grid: Seq<Seq<Cell>>,
    columns: nat,
    cell_w: int,
    cell_h: int,
    p: Picture,
    r: int,
    c: int,
)
    requires
        0 < cell_w,
        0 < cell_h,
        0 <= p.col,
        0 <= p.row,
        p.row <= r < grid.len(),
        p.col <= c < columns,
        grid[r].len() == columns,
        (r - p.row) * cell_h < p.height,
        (c - p.col) * cell_w < p.width,
        grid[r][c].ch != ' ',
    ensures
        !remaining(all, grid, columns, cell_w, cell_h).contains(p),
{
    law_images_take_whole_cells(p.height as int, cell_h);
    law_images_take_whole_cells(p.width as int, cell_w);
    let rows = cells_for(p.height as int, cell_h);
    let cols = cells_for(p.width as int, cell_w);
    assert(r - p.row < rows) by (nonlinear_arith)
        requires
            (r - p.row) * cell_h < p.height,
            rows * cell_h >= p.height,
            cell_h > 0,
    ;
    assert(c - p.col < cols) by (nonlinear_arith)
        requires
            (c - p.col) * cell_w < p.width,
            cols * cell_w >= p.width,
            cell_w > 0,
    ;
    assert(!belongs(p, grid, columns, cell_w, cell_h)) by {
        assert(grid[r][c].ch != ' ');
    }
    let keep = |q: Picture| belongs(q, grid, columns, cell_w, cell_h);
    let left = remaining(all, grid, columns, cell_w, cell_h);
    if left.contains(p) {
        let i = choose|i: int| 0 <= i < left.len() && left[i] == p;
        all.lemma_filter_pred(keep, i);
    }
}

/// An image that begins on the screen stays while all of the screen is blank,
/// and images keep their order.
pub proof fn law_images_stay_on_blank_screen(
    all: Seq<Picture>,
    grid: Seq<Seq<Cell>>,
    columns: nat,
    cell_w: int,
    cell_h: int,
)
    requires
        forall|i: int| 0 <= i < all.len() ==> 0 <= (#[trigger] all[i]).row < grid.len(),
        forall|r: int, c: int|
            0 <= r < grid.len() && 0 <= c < columns ==> (#[trigger] grid[r][c]).ch == ' ',
    ensures
        remaining(all, grid, columns, cell_w, cell_h) == all,
    decreases all.len(),
{
    reveal(Seq::filter);
    if all.len() > 0 {
        assert forall|i: int| 0 <= i < all.drop_last().len() implies 0 <= (
        #[trigger] all.drop_last()[i]).row < grid.len() by {
            assert(all.drop_last()[i] == all[i]);
        }
        law_images_stay_on_blank_screen(all.drop_last(), grid, columns, cell_w, cell_h);
        assert(belongs(all[all.len() - 1], grid, columns, cell_w, cell_h));
        assert(all.drop_last().push(all.last()) =~= all);
    }
}

// ---------------------------------------------------------------------------
// Lines
// ---------------------------------------------------------------------------

/// A character that is written stands at its place, its further columns point
/// back to it, and what it does not touch stays.
pub proof fn law_written_characters_stay(c: Seq<Cell>, at: int, cell: Cell, i: int)
    requires
        0 <= at,
        1 <= cell.width,
        at + cell.width <= c.len(),
        0 <= i < c.len(),
    ensures
        ({
            let r = placed(erased(c, at, at + cell.width), at, cell);
            &&& r.len() == c.len()
            &&& r[at] == cell
            &&& at < i < at + cell.width ==> r[i].width == 0 && r[i].backlink == i - at
            &&& (i < at || i >= at + cell.width) && !touches(c, i, at, at + cell.width) ==> r[i]
                == c[i]
            &&& (i < at || i >= at + cell.width) && touches(c, i, at, at + cell.width) ==> r[i].ch
                == ' '
        }),
{
}

/// What is erased is blank, and what is not touched stays.
pub proof fn law_erased_characters_are_blank(c: Seq<Cell>, a: int, b: int, i: int)
    requires
        0 <= i < c.len(),
    ensures
        erased(c, a, b).len() == c.len(),
        touches(c, i, a, b) ==> erased(c, a, b)[i].ch == ' ' && erased(c, a, b)[i].width == 1,
        !touches(c, i, a, b) ==> erased(c, a, b)[i] == c[i],
        c[i].backlink == 0 && c[i].width >= 1 && a <= i < b ==> touches(c, i, a, b),
{
}

/// A longer line keeps its cells and gets more behind them; a shorter one keeps
/// the first.
pub proof fn law_lines_keep_their_start(c: Seq<Cell>, n: int, i: int)
    requires
        0 <= i < n,
    ensures
        stretched(c, n).len() == n,
        i < c.len() ==> stretched(c, n)[i] == c[i],
{
}

} // verus!
