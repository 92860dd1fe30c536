//! The byte stream of a shell and the picture of its screen: Sixel images are
//! taken out of the stream, and the engine's grid becomes lines to draw.

use crate::config::Config;
use crate::terminal::Color;
use crate::text::same_text;
use vstd::prelude::*;
use vstd::string::*;

verus! {

/// Where the shell of a pane is.
#[derive(Debug)]
pub enum ShellLocation {
    Local(String),
    Remote { host: String, path: String },
}

// ---------------------------------------------------------------------------
// Colours
// ---------------------------------------------------------------------------

#[derive(Debug, Clone, Copy, PartialEq, Eq, Structural)]
pub struct Rgb {
    pub r: u8,
    pub g: u8,
    pub b: u8,
}

/// The first three bytes of a colour written `0xRRGGBBAA`.
pub open spec fn rgb_of(rgba: u32) -> Rgb {
    Rgb {
        r: ((rgba >> 24) & 0xff) as u8,
        g: ((rgba >> 16) & 0xff) as u8,
        b: ((rgba >> 8) & 0xff) as u8,
    }
}

fn split_rgba(rgba: u32) -> (r: Rgb)
    ensures
        r == rgb_of(rgba),
{
    Rgb {
        r: ((rgba >> 24) & 0xff) as u8,
        g: ((rgba >> 16) & 0xff) as u8,
        b: ((rgba >> 8) & 0xff) as u8,
    }
}

/// A step of the colour cube: 0, 95, 135, 175, 215 or 255.
pub open spec fn cube_level(v: int) -> int {
    if v == 0 {
        0
    } else {
        55 + 40 * v
    }
}

fn level(v: u8) -> (r: u8)
    requires
        v < 6,
    ensures
        r == cube_level(v as int),
{
    if v == 0 {
        0
    } else {
        55 + 40 * v
    }
}

/// The colour with number `i` of the 6x6x6 cube, which has the numbers from 16.
pub open spec fn cube_color(i: int) -> Rgb {
    Rgb {
        r: cube_level((i - 16) / 36) as u8,
        g: cube_level(((i - 16) / 6) % 6) as u8,
        b: cube_level((i - 16) % 6) as u8,
    }
}

fn cube(i: u8) -> (r: Rgb)
    requires
        16 <= i <= 231,
    ensures
        r == cube_color(i as int),
{
    let k: u8 = i - 16;
    Rgb { r: level((k / 36) % 6), g: level((k / 6) % 6), b: level(k % 6) }
}

/// The grey with number `i`, from 232 to 255.
pub open spec fn gray_color(i: int) -> Rgb {
    let v = (8 + 10 * (i - 232)) as u8;
    Rgb { r: v, g: v, b: v }
}

fn gray(i: u8) -> (r: Rgb)
    requires
        232 <= i,
    ensures
        r == gray_color(i as int),
{
    let v: u8 = 8 + 10 * (i - 232);
    Rgb { r: v, g: v, b: v }
}

/// The colour the settings give the number `i` below 16.
pub open spec fn palette(cfg: &Config, i: int) -> u32 {
    if i == 0 {
        cfg.color_black
    } else if i == 1 {
        cfg.color_red
    } else if i == 2 {
        cfg.color_green
    } else if i == 3 {
        cfg.color_yellow
    } else if i == 4 {
        cfg.color_blue
    } else if i == 5 {
        cfg.color_magenta
    } else if i == 6 {
        cfg.color_cyan
    } else if i == 7 {
        cfg.color_white
    } else if i == 8 {
        cfg.color_bright_black
    } else if i == 9 {
        cfg.color_bright_red
    } else if i == 10 {
        cfg.color_bright_green
    } else if i == 11 {
        cfg.color_bright_yellow
    } else if i == 12 {
        cfg.color_bright_blue
    } else if i == 13 {
        cfg.color_bright_magenta
    } else if i == 14 {
        cfg.color_bright_cyan
    } else {
        cfg.color_bright_white
    }
}

/// The colour of a number a program may ask for: the 16 of the settings, the
/// cube, the greys, 257 for the background, and the foreground for the rest.
pub open spec fn index_color(cfg: &Config, index: int) -> Rgb {
    if index < 16 {
        rgb_of(palette(cfg, index))
    } else if index <= 231 {
        cube_color(index)
    } else if index <= 255 {
        gray_color(index)
    } else if index == 257 {
        rgb_of(cfg.color_background)
    } else {
        rgb_of(cfg.color_foreground)
    }
}

/// The colour of a number a program asks for.
pub fn color_index_to_rgb(cfg: &Config, index: usize) -> (r: Rgb)
    ensures
        r == index_color(cfg, index as int),
{
    match index {
        0 => split_rgba(cfg.color_black),
        1 => split_rgba(cfg.color_red),
        2 => split_rgba(cfg.color_green),
        3 => split_rgba(cfg.color_yellow),
        4 => split_rgba(cfg.color_blue),
        5 => split_rgba(cfg.color_magenta),
        6 => split_rgba(cfg.color_cyan),
        7 => split_rgba(cfg.color_white),
        8 => split_rgba(cfg.color_bright_black),
        9 => split_rgba(cfg.color_bright_red),
        10 => split_rgba(cfg.color_bright_green),
        11 => split_rgba(cfg.color_bright_yellow),
        12 => split_rgba(cfg.color_bright_blue),
        13 => split_rgba(cfg.color_bright_magenta),
        14 => split_rgba(cfg.color_bright_cyan),
        15 => split_rgba(cfg.color_bright_white),
        16..=231 => cube(index as u8),
        232..=255 => gray(index as u8),
        257 => split_rgba(cfg.color_background),
        _ => split_rgba(cfg.color_foreground),
    }
}

/// A colour as the terminal engine reports it: one of the sixteen by its
/// number, another by its number, the default ones, or a value.
#[derive(Debug, Clone, Copy, PartialEq, Eq, Structural)]
pub enum GridColor {
    Foreground,
    Background,
    /// A colour with a name that the lines do not know.
    OtherNamed,
    Indexed(u8),
    Spec(Rgb),
}

/// `0xRRGGBBAA` with full opacity.
pub open spec fn opaque_rgba(c: Rgb) -> u32 {
    ((c.r as u32) << 24) | ((c.g as u32) << 16) | ((c.b as u32) << 8) | 0xff
}

/// `0xRRGGBBAA` with full opacity.
pub fn rgba_u32(r: u8, g: u8, b: u8) -> (v: u32)
    ensures
        v == opaque_rgba(Rgb { r, g, b }),
{
    ((r as u32) << 24) | ((g as u32) << 16) | ((b as u32) << 8) | 0xff
}

/// The colour with number `i` below 16, by name, so that the settings apply.
pub open spec fn named_color(i: int) -> Color {
    if i == 0 {
        Color::Black
    } else if i == 1 {
        Color::Red
    } else if i == 2 {
        Color::Green
    } else if i == 3 {
        Color::Yellow
    } else if i == 4 {
        Color::Blue
    } else if i == 5 {
        Color::Magenta
    } else if i == 6 {
        Color::Cyan
    } else if i == 7 {
        Color::White
    } else if i == 8 {
        Color::BrightBlack
    } else if i == 9 {
        Color::BrightRed
    } else if i == 10 {
        Color::BrightGreen
    } else if i == 11 {
        Color::BrightYellow
    } else if i == 12 {
        Color::BrightBlue
    } else if i == 13 {
        Color::BrightMagenta
    } else if i == 14 {
        Color::BrightCyan
    } else {
        Color::BrightWhite
    }
}

/// The colour to draw for a colour of the engine.
pub open spec fn drawn_color(c: GridColor) -> Color {
    match c {
        GridColor::Foreground => Color::Foreground,
        GridColor::Background => Color::Background,
        GridColor::OtherNamed => Color::Foreground,
        GridColor::Spec(rgb) => Color::Rgb { rgba: opaque_rgba(rgb) },
        GridColor::Indexed(i) => if i < 16 {
            named_color(i as int)
        } else if i <= 231 {
            Color::Rgb { rgba: opaque_rgba(cube_color(i as int)) }
        } else {
            Color::Rgb { rgba: opaque_rgba(gray_color(i as int)) }
        },
    }
}

/// The colour to draw: the sixteen and the default ones by name, any other by
/// value.
pub fn map_color(c: GridColor) -> (r: Color)
    ensures
        r == drawn_color(c),
{
    match c {
        GridColor::Foreground => Color::Foreground,
        GridColor::Background => Color::Background,
        GridColor::OtherNamed => Color::Foreground,
        GridColor::Spec(rgb) => Color::Rgb { rgba: rgba_u32(rgb.r, rgb.g, rgb.b) },
        GridColor::Indexed(i) => match i {
            0 => Color::Black,
            1 => Color::Red,
            2 => Color::Green,
            3 => Color::Yellow,
            4 => Color::Blue,
            5 => Color::Magenta,
            6 => Color::Cyan,
            7 => Color::White,
            8 => Color::BrightBlack,
            9 => Color::BrightRed,
            10 => Color::BrightGreen,
            11 => Color::BrightYellow,
            12 => Color::BrightBlue,
            13 => Color::BrightMagenta,
            14 => Color::BrightCyan,
            15 => Color::BrightWhite,
            16..=231 => {
                let v = cube(i);
                Color::Rgb { rgba: rgba_u32(v.r, v.g, v.b) }
            },
            _ => {
                let v = gray(i);
                Color::Rgb { rgba: rgba_u32(v.r, v.g, v.b) }
            },
        },
    }
}

// ---------------------------------------------------------------------------
// Sizes and replies
// ---------------------------------------------------------------------------

#[derive(Debug, Clone, Copy, PartialEq, Eq, Structural)]
pub struct GridSize {
    pub cols: usize,
    pub lines: usize,
}

impl GridSize {
    pub fn total_lines(&self) -> (r: usize)
        ensures
            r == self.lines,
    {
        self.lines
    }

    pub fn screen_lines(&self) -> (r: usize)
        ensures
            r == self.lines,
    {
        self.lines
    }

    pub fn columns(&self) -> (r: usize)
        ensures
            r == self.cols,
    {
        self.cols
    }
}

/// The size of the text area in cells, and of a cell in pixels.
#[derive(Debug, Clone, Copy, PartialEq, Eq, Structural)]
pub struct WindowSize {
    pub num_lines: u16,
    pub num_cols: u16,
    pub cell_width: u16,
    pub cell_height: u16,
}

/// The size to report to a program; counts keep their low sixteen bits.
pub fn window_size(cols: usize, lines: usize, cell_w: u16, cell_h: u16) -> (r: WindowSize)
    ensures
        r == (WindowSize {
            num_lines: (lines % 65536) as u16,
            num_cols: (cols % 65536) as u16,
            cell_width: cell_w,
            cell_height: cell_h,
        }),
{
    WindowSize {
        num_lines: (lines % 65536) as u16,
        num_cols: (cols % 65536) as u16,
        cell_width: cell_w,
        cell_height: cell_h,
    }
}

/// The size of a pseudo-terminal.
#[derive(Debug, Clone, Copy, PartialEq, Eq, Structural)]
pub struct PtySize {
    pub rows: u16,
    pub cols: u16,
    pub pixel_width: u16,
    pub pixel_height: u16,
}

/// The size to give the pseudo-terminal.
pub fn pty_size(cols: usize, lines: usize, cell_w: u16, cell_h: u16) -> (r: PtySize)
    requires
        (cols % 65536) * cell_w <= u16::MAX,
        (lines % 65536) * cell_h <= u16::MAX,
    ensures
        r.rows == lines % 65536,
        r.cols == cols % 65536,
        r.pixel_width == (cols % 65536) * cell_w,
        r.pixel_height == (lines % 65536) * cell_h,
{
    let rows: u16 = (lines % 65536) as u16;
    let columns: u16 = (cols % 65536) as u16;
    PtySize { rows, cols: columns, pixel_width: columns * cell_w, pixel_height: rows * cell_h }
}

/// The answer to send for the engine's answer `text`: the report of a plain
/// VT102 becomes one that also announces Sixel images.
pub open spec fn reply_text(text: Seq<char>) -> Seq<char> {
    if text == "\x1b[?6c"@ {
        "\x1b[?62;4c"@
    } else {
        text
    }
}

/// The answer to send for the engine's answer.
pub fn pty_reply(text: &str) -> (r: String)
    ensures
        r@ == reply_text(text@),
{
    if same_text(text, "\x1b[?6c") {
        "\x1b[?62;4c".to_owned()
    } else {
        text.to_owned()
    }
}

/// The variables that tell a program which terminal it runs in.
pub open spec fn names_terminal(key: Seq<char>) -> bool {
    ||| key == "TERM_PROGRAM"@
    ||| key == "TERM_PROGRAM_VERSION"@
    ||| key == "KITTY_WINDOW_ID"@
    ||| key == "KITTY_PID"@
    ||| key == "KITTY_INSTALLATION_DIR"@
    ||| key == "GHOSTTY_RESOURCES_DIR"@
    ||| key == "GHOSTTY_BIN_DIR"@
    ||| key == "GHOSTTY_SHELL_FEATURES"@
    ||| key == "GHOSTTY_SHELL_INTEGRATION_XDG_DIR"@
    ||| key == "KONSOLE_VERSION"@
    ||| key == "KONSOLE_DBUS_SESSION"@
    ||| key == "KONSOLE_DBUS_SERVICE"@
    ||| key == "KONSOLE_DBUS_WINDOW"@
    ||| key == "VTE_VERSION"@
    ||| key == "WEZTERM_EXECUTABLE"@
    ||| key == "WEZTERM_PANE"@
    ||| key == "WEZTERM_UNIX_SOCKET"@
    ||| key == "WEZTERM_CONFIG_FILE"@
}

/// Whether a variable of the environment is kept from the shell.
pub fn is_stripped(key: &str) -> (r: bool)
    ensures
        r == names_terminal(key@),
{
    same_text(key, "TERM_PROGRAM") || same_text(key, "TERM_PROGRAM_VERSION") || same_text(
        key,
        "KITTY_WINDOW_ID",
    ) || same_text(key, "KITTY_PID") || same_text(key, "KITTY_INSTALLATION_DIR") || same_text(
        key,
        "GHOSTTY_RESOURCES_DIR",
    ) || same_text(key, "GHOSTTY_BIN_DIR") || same_text(key, "GHOSTTY_SHELL_FEATURES")
        || same_text(key, "GHOSTTY_SHELL_INTEGRATION_XDG_DIR") || same_text(key, "KONSOLE_VERSION")
        || same_text(key, "KONSOLE_DBUS_SESSION") || same_text(key, "KONSOLE_DBUS_SERVICE")
        || same_text(key, "KONSOLE_DBUS_WINDOW") || same_text(key, "VTE_VERSION") || same_text(
        key,
        "WEZTERM_EXECUTABLE",
    ) || same_text(key, "WEZTERM_PANE") || same_text(key, "WEZTERM_UNIX_SOCKET") || same_text(
        key,
        "WEZTERM_CONFIG_FILE",
    )
}

/// The pairs of an environment as texts.
pub open spec fn env_view(v: Seq<(String, String)>) -> Seq<(Seq<char>, Seq<char>)> {
    Seq::new(v.len(), |i: int| (v[i].0@, v[i].1@))
}

/// The variables a shell inherits: those that do not name a terminal.
pub open spec fn inherited(vars: Seq<(Seq<char>, Seq<char>)>) -> Seq<(Seq<char>, Seq<char>)> {
    vars.filter(|p: (Seq<char>, Seq<char>)| !names_terminal(p.0))
}

/// The environment of a shell: what it inherits, and this terminal's own name
/// and kind, which come last.
pub fn shell_environment(vars: &Vec<(String, String)>) -> (r: Vec<(String, String)>)
    ensures
        env_view(r@) == inherited(env_view(vars@)).push(("TERM"@, "xterm-256color"@)).push(
            ("TERM_PROGRAM"@, "gototerm"@),
        ),
{
    let ghost keep = |p: (Seq<char>, Seq<char>)| !names_terminal(p.0);
    let ghost all = env_view(vars@);
    let mut out: Vec<(String, String)> = Vec::new();
    let mut i: usize = 0;
    assert(all.subrange(0, 0) =~= Seq::empty());
    assert(env_view(out@) =~= Seq::empty());
    proof {
        reveal(Seq::filter);
    }
    while i < vars.len()
        invariant
            i <= vars.len(),
            all == env_view(vars@),
            keep == (|p: (Seq<char>, Seq<char>)| !names_terminal(p.0)),
            env_view(out@) == all.subrange(0, i as int).filter(keep),
        decreases vars.len() - i,
    {
        proof {
            reveal(Seq::filter);
            assert(all.subrange(0, i + 1).drop_last() =~= all.subrange(0, i as int));
            assert(all.subrange(0, i + 1).last() == all[i as int]);
        }
        if !is_stripped(vars[i].0.as_str()) {
            let ghost before = out@;
            out.push((vars[i].0.clone(), vars[i].1.clone()));
            assert(env_view(out@) =~= env_view(before).push(all[i as int]));
        }
        i += 1;
    }
    assert(all.subrange(0, i as int) =~= all);
    let ghost kept = out@;
    out.push(("TERM".to_owned(), "xterm-256color".to_owned()));
    out.push(("TERM_PROGRAM".to_owned(), "gototerm".to_owned()));
    assert(env_view(out@) =~= env_view(kept).push(("TERM"@, "xterm-256color"@)).push(
        ("TERM_PROGRAM"@, "gototerm"@),
    ));
    out
}

} // verus!
