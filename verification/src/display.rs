//! The drawing surface of the window.

use crate::config::Config;
use crate::terminal::Color;
use vstd::prelude::*;

verus! {

/// How well a configuration of the surface suits: transparency counts most, and
/// eight bits for it next.
pub open spec fn score(transparent: bool, alpha: u8) -> int {
    (if transparent {
        2int
    } else {
        0
    }) + (if alpha == 8 {
        1int
    } else {
        0
    })
}

/// How well a configuration of the surface suits.
pub fn config_score(transparent: bool, alpha: u8) -> (r: i32)
    ensures
        r == score(transparent, alpha),
{
    match (transparent, alpha) {
        (true, 8) => 3,
        (true, _) => 2,
        (false, 8) => 1,
        _ => 0,
    }
}

/// The configuration to take: the first of those that suit best.
pub fn best_config(configs: &Vec<(bool, u8)>) -> (r: Option<usize>)
    ensures
        r is None <==> configs.len() == 0,
        r is Some ==> {
            &&& r->0 < configs.len()
            &&& forall|k: int|
                0 <= k < configs.len() ==> score((#[trigger] configs[k]).0, configs[k].1) <= score(
                    configs[r->0 as int].0,
                    configs[r->0 as int].1,
                )
            &&& forall|k: int|
                0 <= k < r->0 ==> score((#[trigger] configs[k]).0, configs[k].1) < score(
                    configs[r->0 as int].0,
                    configs[r->0 as int].1,
                )
        },
{
    if configs.len() == 0 {
        return None;
    }
    let mut best: usize = 0;
    let mut i: usize = 1;
    while i < configs.len()
        invariant
            best < i <= configs.len(),
            forall|k: int|
                0 <= k < i ==> score((#[trigger] configs[k]).0, configs[k].1) <= score(
                    configs[best as int].0,
                    configs[best as int].1,
                ),
            forall|k: int|
                0 <= k < best ==> score((#[trigger] configs[k]).0, configs[k].1) < score(
                    configs[best as int].0,
                    configs[best as int].1,
                ),
        decreases configs.len() - i,
    {
        let here = config_score(configs[i].0, configs[i].1);
        let there = config_score(configs[best].0, configs[best].1);
        if here > there {
            best = i;
        }
        i += 1;
    }
    Some(best)
}

/// The red, green, blue and opacity of a colour.
pub fn rgba_channels(rgba: u32) -> (r: (u8, u8, u8, u8))
    ensures
        r.0 == rgba / 0x100_0000,
        r.1 == rgba / 0x1_0000 % 0x100,
        r.2 == rgba / 0x100 % 0x100,
        r.3 == rgba % 0x100,
{
    (
        (rgba / 0x100_0000) as u8,
        (rgba / 0x1_0000 % 0x100) as u8,
        (rgba / 0x100 % 0x100) as u8,
        (rgba % 0x100) as u8,
    )
}

/// The value of a colour: the named ones are chosen in the settings.
pub open spec fn color_value(cfg: Config, c: Color) -> u32 {
    match c {
        Color::Black => cfg.color_black,
        Color::Red => cfg.color_red,
        Color::Green => cfg.color_green,
        Color::Yellow => cfg.color_yellow,
        Color::Blue => cfg.color_blue,
        Color::Magenta => cfg.color_magenta,
        Color::Cyan => cfg.color_cyan,
        Color::White => cfg.color_white,
        Color::BrightBlack => cfg.color_bright_black,
        Color::BrightRed => cfg.color_bright_red,
        Color::BrightGreen => cfg.color_bright_green,
        Color::BrightYellow => cfg.color_bright_yellow,
        Color::BrightBlue => cfg.color_bright_blue,
        Color::BrightMagenta => cfg.color_bright_magenta,
        Color::BrightCyan => cfg.color_bright_cyan,
        Color::BrightWhite => cfg.color_bright_white,
        Color::Foreground => cfg.color_foreground,
        Color::Background => cfg.color_background,
        Color::Selection => cfg.color_selection,
        Color::Special => cfg.color_foreground,
        Color::Rgb { rgba } => rgba,
    }
}

/// The value of a colour.
pub fn resolve_color(cfg: &Config, c: Color) -> (r: u32)
    ensures
        r == color_value(*cfg, c),
{
    match c {
        Color::Black => cfg.color_black,
        Color::Red => cfg.color_red,
        Color::Green => cfg.color_green,
        Color::Yellow => cfg.color_yellow,
        Color::Blue => cfg.color_blue,
        Color::Magenta => cfg.color_magenta,
        Color::Cyan => cfg.color_cyan,
        Color::White => cfg.color_white,
        Color::BrightBlack => cfg.color_bright_black,
        Color::BrightRed => cfg.color_bright_red,
        Color::BrightGreen => cfg.color_bright_green,
        Color::BrightYellow => cfg.color_bright_yellow,
        Color::BrightBlue => cfg.color_bright_blue,
        Color::BrightMagenta => cfg.color_bright_magenta,
        Color::BrightCyan => cfg.color_bright_cyan,
        Color::BrightWhite => cfg.color_bright_white,
        Color::Foreground => cfg.color_foreground,
        Color::Background => cfg.color_background,
        Color::Selection => cfg.color_selection,
        Color::Special => cfg.color_foreground,
        Color::Rgb { rgba } => rgba,
    }
}

} // verus!
