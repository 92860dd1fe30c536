//! The settings and their defaults.

use crate::path::{join, joined};
use crate::text::{copy_texts, opt_text, split_words, texts, words};
use vstd::prelude::*;
use vstd::string::*;

verus! {

/// A tool the launcher offers to start: its shown name and its command line.
#[derive(Debug)]
pub struct AgentDef {
    pub name: String,
    pub command: Vec<String>,
}

/// The settings. Colours are written `0xRRGGBBAA`.
#[derive(Debug)]
pub struct Config {
    pub shell: Vec<String>,
    /// Paths of font files.
    pub fonts_regular: Vec<String>,
    pub fonts_bold: Vec<String>,
    pub fonts_faint: Vec<String>,
    pub font_size: u32,
    /// The character size of the tab bar.
    pub status_bar_font_size: u32,
    pub color_background: u32,
    pub color_foreground: u32,
    pub color_selection: u32,
    pub color_black: u32,
    pub color_red: u32,
    pub color_green: u32,
    pub color_yellow: u32,
    pub color_blue: u32,
    pub color_magenta: u32,
    pub color_cyan: u32,
    pub color_white: u32,
    pub color_bright_black: u32,
    pub color_bright_red: u32,
    pub color_bright_green: u32,
    pub color_bright_yellow: u32,
    pub color_bright_blue: u32,
    pub color_bright_magenta: u32,
    pub color_bright_cyan: u32,
    pub color_bright_white: u32,
    pub scroll_bar_width: u32,
    pub scroll_bar_fg_color: u32,
    pub scroll_bar_bg_color: u32,
    pub east_asian_width_ambiguous: u8,
    pub cursor_blink: bool,
    /// The thickness in pixels of a bar or underline cursor.
    pub cursor_thickness: u32,
    /// The editor's command line; empty to follow the environment.
    pub editor: Vec<String>,
    /// Names of directories whose changes are not watched.
    pub watch_ignore: Vec<String>,
    pub launcher_agents: Vec<AgentDef>,
    pub show_launcher_on_start: bool,
}

/// One text in a list.
fn one(s: &str) -> (r: Vec<String>)
    ensures
        texts(r@) == seq![s@],
        r.len() == 1,
{
    let mut v: Vec<String> = Vec::new();
    v.push(s.to_owned());
    assert(texts(v@) =~= seq![s@]);
    v
}

/// Whether `v` holds the tools offered where the settings name none: the one
/// that was asked for, and Codex.
pub open spec fn default_tools(preferred: Option<AgentDef>, v: Seq<AgentDef>) -> bool {
    &&& v.len() == (if preferred is Some {
        2int
    } else {
        1
    })
    &&& preferred is Some ==> v[0] == preferred->0
    &&& v.last().name@ == "Codex"@
    &&& texts(v.last().command@) == seq!["codex"@]
}

/// The tools offered where the settings name none.
fn default_agents(preferred: Option<AgentDef>) -> (r: Vec<AgentDef>)
    ensures
        default_tools(preferred, r@),
{
    let mut v: Vec<AgentDef> = Vec::new();
    if let Some(a) = preferred {
        v.push(a);
    }
    v.push(AgentDef { name: "Codex".to_owned(), command: one("codex") });
    v
}

/// The names that are not watched where the settings name none.
fn default_ignore() -> (r: Vec<String>)
    ensures
        texts(r@) == seq![".git"@, "node_modules"@, "target"@, "dist"@, "__pycache__"@],
{
    let mut v: Vec<String> = Vec::new();
    v.push(".git".to_owned());
    v.push("node_modules".to_owned());
    v.push("target".to_owned());
    v.push("dist".to_owned());
    v.push("__pycache__".to_owned());
    assert(texts(v@) =~= seq![".git"@, "node_modules"@, "target"@, "dist"@, "__pycache__"@]);
    v
}

impl Config {
    /// The built-in settings, with `/bin/sh` as the shell.
    pub fn with_shell(shell_var: Option<String>, preferred: Option<AgentDef>) -> (r: Config)
        ensures
            texts(r.shell@) == seq![
                match opt_text(shell_var) {
                    Some(s) => s,
                    None => "/bin/sh"@,
                },
            ],
            r.has_default_fonts(),
            r.has_default_colors(),
            r.scroll_bar_width == 5,
            r.east_asian_width_ambiguous == 0,
            r.cursor_blink,
            r.cursor_thickness == 8,
            r.editor@.len() == 0,
            texts(r.watch_ignore@) == seq![
                ".git"@,
                "node_modules"@,
                "target"@,
                "dist"@,
                "__pycache__"@,
            ],
            default_tools(preferred, r.launcher_agents@),
            r.show_launcher_on_start,
    {
        let mut shell: Vec<String> = Vec::new();
        match shell_var {
            Some(s) => shell.push(s),
            None => shell.push("/bin/sh".to_owned()),
        }
        assert(texts(shell@) =~= seq![
            match opt_text(shell_var) {
                Some(s) => s,
                None => "/bin/sh"@,
            },
        ]);
        let mut fonts_regular: Vec<String> = Vec::new();
        fonts_regular.push(String::new());
        let mut fonts_bold: Vec<String> = Vec::new();
        fonts_bold.push(String::new());
        let mut fonts_faint: Vec<String> = Vec::new();
        fonts_faint.push(String::new());
        assert(texts(fonts_regular@) =~= seq![Seq::<char>::empty()]);
        assert(texts(fonts_bold@) =~= seq![Seq::<char>::empty()]);
        assert(texts(fonts_faint@) =~= seq![Seq::<char>::empty()]);
        Config {
            shell,
            fonts_regular,
            fonts_bold,
            fonts_faint,
            font_size: 18,
            status_bar_font_size: 16,
            color_background: 0x1A1B26B0,
            color_foreground: 0xC0CAF5FF,
            color_selection: 0x283457FF,
            color_black: 0x15161EFF,
            color_red: 0xF7768EFF,
            color_green: 0x9ECE6AFF,
            color_yellow: 0xE0AF68FF,
            color_blue: 0x7AA2F7FF,
            color_magenta: 0xBB9AF7FF,
            color_cyan: 0x7DCFFFFF,
            color_white: 0xA9B1D6FF,
            color_bright_black: 0x414868FF,
            color_bright_red: 0xF7768EFF,
            color_bright_green: 0x9ECE6AFF,
            color_bright_yellow: 0xE0AF68FF,
            color_bright_blue: 0x7AA2F7FF,
            color_bright_magenta: 0xBB9AF7FF,
            color_bright_cyan: 0x7DCFFFFF,
            color_bright_white: 0xC0CAF5FF,
            scroll_bar_width: 5,
            scroll_bar_fg_color: 0x414868FF,
            scroll_bar_bg_color: 0x1A1B26FF,
            east_asian_width_ambiguous: 0,
            cursor_blink: true,
            cursor_thickness: 8,
            editor: Vec::new(),
            watch_ignore: default_ignore(),
            launcher_agents: default_agents(preferred),
            show_launcher_on_start: true,
        }
    }

    /// One empty path per font list, and the default sizes.
    pub open spec fn has_default_fonts(&self) -> bool {
        &&& texts(self.fonts_regular@) == seq![Seq::<char>::empty()]
        &&& texts(self.fonts_bold@) == seq![Seq::<char>::empty()]
        &&& texts(self.fonts_faint@) == seq![Seq::<char>::empty()]
        &&& self.font_size == 18
        &&& self.status_bar_font_size == 16
    }

    /// The Tokyo Night colours, with a background that lets some light through.
    pub open spec fn has_default_colors(&self) -> bool {
        &&& self.color_background == 0x1A1B26B0u32
        &&& self.color_foreground == 0xC0CAF5FFu32
        &&& self.color_selection == 0x283457FFu32
        &&& self.color_black == 0x15161EFFu32
        &&& self.color_red == 0xF7768EFFu32
        &&& self.color_green == 0x9ECE6AFFu32
        &&& self.color_yellow == 0xE0AF68FFu32
        &&& self.color_blue == 0x7AA2F7FFu32
        &&& self.color_magenta == 0xBB9AF7FFu32
        &&& self.color_cyan == 0x7DCFFFFFu32
        &&& self.color_white == 0xA9B1D6FFu32
        &&& self.color_bright_black == 0x414868FFu32
        &&& self.color_bright_red == 0xF7768EFFu32
        &&& self.color_bright_green == 0x9ECE6AFFu32
        &&& self.color_bright_yellow == 0xE0AF68FFu32
        &&& self.color_bright_blue == 0x7AA2F7FFu32
        &&& self.color_bright_magenta == 0xBB9AF7FFu32
        &&& self.color_bright_cyan == 0x7DCFFFFFu32
        &&& self.color_bright_white == 0xC0CAF5FFu32
        &&& self.scroll_bar_fg_color == 0x414868FFu32
        &&& self.scroll_bar_bg_color == 0x1A1B26FFu32
    }
}

impl Default for Config {
    fn default() -> (r: Config)
        ensures
            texts(r.shell@) == seq!["/bin/sh"@],
            r.has_default_fonts(),
            r.has_default_colors(),
            r.scroll_bar_width == 5,
            r.east_asian_width_ambiguous == 0,
            r.cursor_blink,
            r.cursor_thickness == 8,
            r.editor@.len() == 0,
            texts(r.watch_ignore@) == seq![
                ".git"@,
                "node_modules"@,
                "target"@,
                "dist"@,
                "__pycache__"@,
            ],
            default_tools(None, r.launcher_agents@),
            r.show_launcher_on_start,
    {
        Config::with_shell(None, None)
    }
}

/// The directory for a kind of user file: the one the environment names, or
/// `name` below the home directory.
pub open spec fn user_dir(named: Option<Seq<char>>, home: Option<Seq<char>>, name: Seq<char>)
    -> Option<Seq<char>> {
    match named {
        Some(d) => Some(d),
        None => match home {
            Some(h) => Some(joined(h, name)),
            None => None,
        },
    }
}

/// The directory for a kind of user file.
pub fn find_user_dir(named: Option<String>, home: Option<String>, name: &str) -> (r: Option<String>)
    ensures
        opt_text(r) == user_dir(opt_text(named), opt_text(home), name@),
{
    match named {
        Some(d) => Some(d),
        None => match home {
            Some(h) => Some(join(h.as_str(), name)),
            None => None,
        },
    }
}

/// Where the settings file is looked for, given `XDG_CONFIG_HOME` and `HOME`.
pub fn find_config_file(xdg_config_home: Option<String>, home: Option<String>) -> (r: Option<String>)
    ensures
        opt_text(r) == (match user_dir(opt_text(xdg_config_home), opt_text(home), ".config"@) {
            Some(d) => Some(joined(joined(d, "gototerm"@), "config.toml"@)),
            None => None,
        }),
{
    match find_user_dir(xdg_config_home, home, ".config") {
        Some(d) => {
            let dir = join(d.as_str(), "gototerm");
            Some(join(dir.as_str(), "config.toml"))
        },
        None => None,
    }
}

/// The editor's command line: the configured one; else the words of the
/// environment's; else the platform's own editor.
pub open spec fn editor_command(
    configured: Seq<Seq<char>>,
    env_editor: Option<Seq<char>>,
    fallback: Seq<char>,
) -> Seq<Seq<char>> {
    if configured.len() > 0 {
        configured
    } else if env_editor is Some && words(env_editor->0).len() > 0 {
        words(env_editor->0)
    } else {
        seq![fallback]
    }
}

/// The command line that edits a file. `fallback` is the platform's own
/// editor, `nvim` or `notepad`.
pub fn resolve_editor(config_editor: &Vec<String>, env_editor: Option<&str>, fallback: &str) -> (r:
    Vec<String>)
    ensures
        texts(r@) == editor_command(
            texts(config_editor@),
            match env_editor {
                Some(e) => Some(e@),
                None => None,
            },
            fallback@,
        ),
        r.len() > 0,
{
    if config_editor.len() > 0 {
        return copy_texts(config_editor);
    }
    if let Some(e) = env_editor {
        let w = split_words(e);
        assert(texts(w@).len() == w.len());
        if w.len() > 0 {
            return w;
        }
    }
    one(fallback)
}

} // verus!
