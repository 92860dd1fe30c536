//! The look of file lists: icons, colours and the selection bar.

use crate::terminal::Color;
use crate::text::{ascii_lower, chars_of, find_last, last_at, same_text, string_between, to_ascii_lower};
use vstd::prelude::*;
use vstd::string::*;

verus! {

/// Faint text, and files of no particular kind.
#[verifier::allow_in_spec]
pub fn dim() -> Color
    returns
        (Color::Rgb { rgba: 0x565F_89FF }),
{
    Color::Rgb { rgba: 0x565F_89FF }
}

/// Directory names.
pub const DIR_FG: Color = Color::BrightBlue;

/// The background of the selection bar.
#[verifier::allow_in_spec]
pub fn sel_bg() -> Color
    returns
        (Color::Rgb { rgba: 0x3D59_A1FF }),
{
    Color::Rgb { rgba: 0x3D59_A1FF }
}

/// The text on the selection bar.
pub const SEL_FG: Color = Color::BrightWhite;

/// Accents, such as `..` and the end of a breadcrumb.
#[verifier::allow_in_spec]
pub fn accent() -> Color
    returns
        (Color::Rgb { rgba: 0x7DCF_FFFF }),
{
    Color::Rgb { rgba: 0x7DCF_FFFF }
}

/// What follows the last dot of a name, in small letters; nothing where there
/// is no dot.
pub open spec fn suffix(name: Seq<char>) -> Seq<char> {
    let k = last_at(name, '.');
    if k < 0 {
        Seq::empty()
    } else {
        ascii_lower(name.subrange(k + 1, name.len() as int))
    }
}

/// What follows the last dot of a name, in small letters.
pub fn suffix_of(name: &str) -> (r: String)
    ensures
        r@ == suffix(name@),
{
    let cs = chars_of(name);
    match find_last(&cs, '.') {
        Some(k) => {
            let ext = string_between(&cs, k + 1, cs.len());
            to_ascii_lower(ext.as_str())
        },
        None => {
            let e = String::new();
            assert(e@ =~= Seq::<char>::empty());
            e
        },
    }
}

pub open spec fn is_settings(ext: Seq<char>) -> bool {
    ext == "toml"@ || ext == "yaml"@ || ext == "yml"@ || ext == "json"@ || ext == "lock"@ || ext
        == "ini"@ || ext == "conf"@
}

pub open spec fn is_picture(ext: Seq<char>) -> bool {
    ext == "png"@ || ext == "jpg"@ || ext == "jpeg"@ || ext == "gif"@ || ext == "webp"@ || ext
        == "bmp"@ || ext == "svg"@ || ext == "ico"@
}

pub open spec fn is_shell_script(ext: Seq<char>) -> bool {
    ext == "sh"@ || ext == "bash"@ || ext == "zsh"@ || ext == "fish"@
}

pub open spec fn is_program(ext: Seq<char>) -> bool {
    ext == "js"@ || ext == "ts"@ || ext == "py"@ || ext == "go"@ || ext == "c"@ || ext == "cpp"@
        || ext == "h"@ || ext == "html"@ || ext == "css"@
}

/// The icon and colour of a file with the given suffix.
pub open spec fn file_look(ext: Seq<char>) -> (char, Color) {
    if ext == "rs"@ {
        ('\u{e7a8}', Color::Rgb { rgba: 0xE0AF_68FF })
    } else if ext == "md"@ || ext == "markdown"@ {
        ('\u{f48a}', Color::BrightCyan)
    } else if is_settings(ext) {
        ('\u{e615}', Color::Rgb { rgba: 0xE0AF_68FF })
    } else if is_picture(ext) {
        ('\u{f1c5}', Color::BrightMagenta)
    } else if is_shell_script(ext) {
        ('\u{f489}', Color::Rgb { rgba: 0x9ECE_6AFF })
    } else if is_program(ext) {
        ('\u{f121}', Color::BrightCyan)
    } else if ext == "txt"@ || ext == "log"@ {
        ('\u{f0f6}', dim())
    } else {
        ('\u{f15b}', dim())
    }
}

/// The icon and colour of an entry of a file list.
pub open spec fn look(name: Seq<char>, is_dir: bool) -> (char, Color) {
    if name == ".."@ {
        ('\u{f062}', accent())
    } else if is_dir {
        ('\u{f07b}', DIR_FG)
    } else {
        file_look(suffix(name))
    }
}

/// The icon and colour of an entry: an arrow for `..`, a folder for a
/// directory, and by suffix for a file.
pub fn icon_and_color(name: &str, is_dir: bool) -> (r: (char, Color))
    ensures
        r == look(name@, is_dir),
{
    if same_text(name, "..") {
        return ('\u{f062}', accent());
    }
    if is_dir {
        return ('\u{f07b}', DIR_FG);
    }
    let suffix = suffix_of(name);
    let ext = suffix.as_str();
    if same_text(ext, "rs") {
        ('\u{e7a8}', Color::Rgb { rgba: 0xE0AF_68FF })
    } else if same_text(ext, "md") || same_text(ext, "markdown") {
        ('\u{f48a}', Color::BrightCyan)
    } else if same_text(ext, "toml") || same_text(ext, "yaml") || same_text(ext, "yml")
        || same_text(ext, "json") || same_text(ext, "lock") || same_text(ext, "ini") || same_text(
        ext,
        "conf",
    ) {
        ('\u{e615}', Color::Rgb { rgba: 0xE0AF_68FF })
    } else if same_text(ext, "png") || same_text(ext, "jpg") || same_text(ext, "jpeg")
        || same_text(ext, "gif") || same_text(ext, "webp") || same_text(ext, "bmp") || same_text(
        ext,
        "svg",
    ) || same_text(ext, "ico") {
        ('\u{f1c5}', Color::BrightMagenta)
    } else if same_text(ext, "sh") || same_text(ext, "bash") || same_text(ext, "zsh")
        || same_text(ext, "fish") {
        ('\u{f489}', Color::Rgb { rgba: 0x9ECE_6AFF })
    } else if same_text(ext, "js") || same_text(ext, "ts") || same_text(ext, "py") || same_text(
        ext,
        "go",
    ) || same_text(ext, "c") || same_text(ext, "cpp") || same_text(ext, "h") || same_text(
        ext,
        "html",
    ) || same_text(ext, "css") {
        ('\u{f121}', Color::BrightCyan)
    } else if same_text(ext, "txt") || same_text(ext, "log") {
        ('\u{f0f6}', dim())
    } else {
        ('\u{f15b}', dim())
    }
}

} // verus!
