//! The launcher: a file browser to choose where to work and with what.

use crate::bookmarks::{toggled, Bookmarks};
use crate::config::AgentDef;
use crate::entries::{entry_views as pair_views, not_hidden, ordered, sort_all};
use crate::file_style::{accent, dim, icon_and_color, look, sel_bg, DIR_FG, SEL_FG};
use crate::keys::KeyCode;
use crate::path::{absolute, file_name, file_name_of, is_absolute, join, joined, parent, parent_of, strip_prefix, stripped};
use crate::pathlist::holds_path;
use crate::popup::{
    box_views, boxed, color_attr, column, column_cells, on_color, overlay_box, segments_line, segments_row, text_line,
    BoxLine,
};
use crate::preview::first_of;
use crate::reader::opt_str;
use crate::rows::{lesser, sat_sub, seg_views};
use crate::terminal::{head_cell, rows, Cell, CellSize, Color, Line};
use crate::text::{
    ascii_lower, chars_of, contains, contains_text, copy_opt, copy_texts, find_last, is_printable,
    join_texts, join_with, last_at, lowercase, opt_text, printable, repeat_char, repeated,
    same_text, string_between, texts, to_ascii_lower, to_lower,
};
use crate::view::{cells_in, count_cells_in, Frame, Viewport};
use vstd::prelude::*;
use vstd::string::*;

verus! {

// ---------------------------------------------------------------------------
// Files that other programs open
// ---------------------------------------------------------------------------

/// The endings of pictures.
pub open spec fn names_picture(ext: Seq<char>) -> bool {
    ext == "png"@ || ext == "jpg"@ || ext == "jpeg"@ || ext == "gif"@ || ext == "webp"@ || ext == "bmp"@ || ext == "ico"@ || ext == "tif"@ || ext == "tiff"@ || ext == "heic"@ || ext == "avif"@
}

/// The endings of documents.
pub open spec fn names_office(ext: Seq<char>) -> bool {
    ext == "pdf"@ || ext == "doc"@ || ext == "docx"@ || ext == "xls"@ || ext == "xlsx"@ || ext == "ppt"@ || ext == "pptx"@ || ext == "odt"@ || ext == "ods"@ || ext == "odp"@
}

/// The endings of sound and film.
pub open spec fn names_media(ext: Seq<char>) -> bool {
    ext == "mp3"@ || ext == "wav"@ || ext == "flac"@ || ext == "ogg"@ || ext == "m4a"@ || ext == "opus"@ || ext == "mp4"@ || ext == "mkv"@ || ext == "mov"@ || ext == "avi"@ || ext == "webm"@
}

/// The endings of archives and images of disks.
pub open spec fn names_archive(ext: Seq<char>) -> bool {
    ext == "zip"@ || ext == "tar"@ || ext == "gz"@ || ext == "tgz"@ || ext == "bz2"@ || ext == "xz"@ || ext == "zst"@ || ext == "7z"@ || ext == "rar"@ || ext == "jar"@ || ext == "iso"@ || ext == "img"@ || ext == "deb"@ || ext == "rpm"@ || ext == "apk"@ || ext == "msi"@
}

/// The endings of programs.
pub open spec fn names_binary(ext: Seq<char>) -> bool {
    ext == "exe"@ || ext == "dll"@ || ext == "so"@ || ext == "dylib"@ || ext == "bin"@ || ext == "o"@ || ext == "a"@ || ext == "class"@
}

/// The endings of fonts.
pub open spec fn names_font(ext: Seq<char>) -> bool {
    ext == "ttf"@ || ext == "otf"@ || ext == "ttc"@ || ext == "woff"@ || ext == "woff2"@
}

/// What follows the last dot of a name that has something before it, in small
/// letters.
pub open spec fn ending(name: Seq<char>) -> Option<Seq<char>> {
    let k = last_at(name, '.');
    if k <= 0 {
        None
    } else {
        Some(ascii_lower(name.subrange(k + 1, name.len() as int)))
    }
}

/// Whether a file is opened by another program rather than in the editor.
pub open spec fn is_external(name: Seq<char>) -> bool {
    match ending(name) {
        None => false,
        Some(ext) => names_picture(ext) || names_office(ext) || names_media(ext) || names_archive(ext) || names_binary(ext) || names_font(ext),
    }
}

/// Whether a file is opened by another program rather than in the editor.
pub fn opens_externally(name: &str) -> (r: bool)
    ensures
        r == is_external(name@),
{
    let cs = chars_of(name);
    let ext = match find_last(&cs, '.') {
        Some(k) => {
            if k == 0 {
                return false;
            }
            let tail = string_between(&cs, k + 1, cs.len());
            to_ascii_lower(tail.as_str())
        },
        None => {
            return false;
        },
    };
    let e = ext.as_str();
    let picture = same_text(e, "png") || same_text(e, "jpg") || same_text(e, "jpeg") || same_text(e, "gif") || same_text(e, "webp") || same_text(e, "bmp") || same_text(e, "ico") || same_text(e, "tif") || same_text(e, "tiff") || same_text(e, "heic") || same_text(e, "avif");
    let office = same_text(e, "pdf") || same_text(e, "doc") || same_text(e, "docx") || same_text(e, "xls") || same_text(e, "xlsx") || same_text(e, "ppt") || same_text(e, "pptx") || same_text(e, "odt") || same_text(e, "ods") || same_text(e, "odp");
    let media = same_text(e, "mp3") || same_text(e, "wav") || same_text(e, "flac") || same_text(e, "ogg") || same_text(e, "m4a") || same_text(e, "opus") || same_text(e, "mp4") || same_text(e, "mkv") || same_text(e, "mov") || same_text(e, "avi") || same_text(e, "webm");
    let archive = same_text(e, "zip") || same_text(e, "tar") || same_text(e, "gz") || same_text(e, "tgz") || same_text(e, "bz2") || same_text(e, "xz") || same_text(e, "zst") || same_text(e, "7z") || same_text(e, "rar") || same_text(e, "jar") || same_text(e, "iso") || same_text(e, "img") || same_text(e, "deb") || same_text(e, "rpm") || same_text(e, "apk") || same_text(e, "msi");
    let binary = same_text(e, "exe") || same_text(e, "dll") || same_text(e, "so") || same_text(e, "dylib") || same_text(e, "bin") || same_text(e, "o") || same_text(e, "a") || same_text(e, "class");
    let font = same_text(e, "ttf") || same_text(e, "otf") || same_text(e, "ttc") || same_text(e, "woff") || same_text(e, "woff2");
    picture || office || media || archive || binary || font
}

// ---------------------------------------------------------------------------
// State
// ---------------------------------------------------------------------------

/// An entry of a directory.
#[derive(Debug)]
pub struct Entry {
    pub name: String,
    pub is_dir: bool,
}

/// The contents of entries.
pub open spec fn entry_views(v: Seq<Entry>) -> Seq<(Seq<char>, bool)> {
    Seq::new(v.len(), |i: int| (v[i].name@, v[i].is_dir))
}

#[derive(Debug, Clone, Copy, PartialEq, Eq, Structural)]
pub enum Mode {
    Browse,
    Recent,
    Bookmarks,
    Agent,
}

/// What the launcher has come to.
#[derive(Debug)]
pub enum LauncherOutcome {
    /// A terminal in a directory, with a command to run in it.
    OpenIn { dir: String, command: Option<Vec<String>> },
    /// A file in the editor.
    OpenFile { file: String, dir: String },
    /// A file in another program; the launcher stays.
    OpenExternal { file: String },
    /// Nothing; the launcher closes.
    Cancelled,
    /// Nothing yet.
    Pending,
}

/// The contents of what the launcher has come to.
pub ghost enum Outcome {
    OpenIn { dir: Seq<char>, command: Option<Seq<Seq<char>>> },
    OpenFile { file: Seq<char>, dir: Seq<char> },
    OpenExternal { file: Seq<char> },
    Cancelled,
    Pending,
}

impl View for LauncherOutcome {
    type V = Outcome;

    open spec fn view(&self) -> Outcome {
        match *self {
            LauncherOutcome::OpenIn { dir, command } => Outcome::OpenIn {
                dir: dir@,
                command: match command {
                    Some(c) => Some(texts(c@)),
                    None => None,
                },
            },
            LauncherOutcome::OpenFile { file, dir } => Outcome::OpenFile { file: file@, dir: dir@ },
            LauncherOutcome::OpenExternal { file } => Outcome::OpenExternal { file: file@ },
            LauncherOutcome::Cancelled => Outcome::Cancelled,
            LauncherOutcome::Pending => Outcome::Pending,
        }
    }
}

/// What a directory is looked up for.
#[derive(Debug, Clone, Copy, PartialEq, Eq, Structural)]
pub enum Purpose {
    /// To choose what to open it with.
    Agent,
    /// To browse it.
    Browse,
    /// To set or remove a bookmark.
    Bookmark,
}

/// What the launcher needs before it can go on, or what it has come to.
#[derive(Debug)]
pub enum LauncherStep {
    Done(LauncherOutcome),
    /// The entries of a directory; then the one named is selected.
    ReadDir { dir: String, select: Option<String> },
    /// The real directory that a path stands for.
    Resolve { path: String, purpose: Purpose },
    /// Whether a file is there.
    CheckFile { file: String, name: String, external: bool },
}

/// The contents of a step.
pub ghost enum Step {
    Done(Outcome),
    ReadDir { dir: Seq<char>, select: Option<Seq<char>> },
    Resolve { path: Seq<char>, purpose: Purpose },
    CheckFile { file: Seq<char>, name: Seq<char>, external: bool },
}

impl View for LauncherStep {
    type V = Step;

    open spec fn view(&self) -> Step {
        match *self {
            LauncherStep::Done(o) => Step::Done(o@),
            LauncherStep::ReadDir { dir, select } => Step::ReadDir {
                dir: dir@,
                select: opt_text(select),
            },
            LauncherStep::Resolve { path, purpose } => Step::Resolve { path: path@, purpose },
            LauncherStep::CheckFile { file, name, external } => Step::CheckFile {
                file: file@,
                name: name@,
                external,
            },
        }
    }
}

/// Nothing yet.
pub open spec fn pending() -> Step {
    Step::Done(Outcome::Pending)
}

/// The state of the launcher.
#[derive(Debug)]
pub struct LauncherState {
    pub dir: String,
    pub entries: Vec<Entry>,
    /// The real directory that `dir` stands for.
    pub canonical_dir: String,
    pub selected: usize,
    pub scroll: usize,
    pub show_hidden: bool,
    pub recent: Vec<String>,
    pub recent_selected: usize,
    pub bookmarks: Bookmarks,
    pub bookmark_selected: usize,
    pub mode: Mode,
    pub filter: Option<String>,
    pub chosen_dir: Option<String>,
    pub agent_selected: usize,
}

/// The contents of the state.
pub ghost struct Launch {
    pub dir: Seq<char>,
    pub entries: Seq<(Seq<char>, bool)>,
    pub canonical: Seq<char>,
    pub selected: nat,
    pub scroll: nat,
    pub show_hidden: bool,
    pub recent: Seq<Seq<char>>,
    pub recent_selected: nat,
    pub bookmarks: Seq<Seq<char>>,
    pub bookmark_path: Option<Seq<char>>,
    pub bookmark_selected: nat,
    pub mode: Mode,
    pub filter: Option<Seq<char>>,
    pub chosen: Option<Seq<char>>,
    pub agent_selected: nat,
}

impl View for LauncherState {
    type V = Launch;

    open spec fn view(&self) -> Launch {
        Launch {
            dir: self.dir@,
            entries: entry_views(self.entries@),
            canonical: self.canonical_dir@,
            selected: self.selected as nat,
            scroll: self.scroll as nat,
            show_hidden: self.show_hidden,
            recent: texts(self.recent@),
            recent_selected: self.recent_selected as nat,
            bookmarks: texts(self.bookmarks.entries@),
            bookmark_path: opt_text(self.bookmarks.path),
            bookmark_selected: self.bookmark_selected as nat,
            mode: self.mode,
            filter: opt_text(self.filter),
            chosen: opt_text(self.chosen_dir),
            agent_selected: self.agent_selected as nat,
        }
    }
}

/// Whether an entry matches a search: its name, whatever its case, has the
/// text in it. The way up never matches.
pub open spec fn entry_matches(name: Seq<char>, query: Seq<char>) -> bool {
    name != ".."@ && contains_text(lowercase(name), lowercase(query))
}

/// The numbers of the first `n` entries that match.
pub open spec fn matches(entries: Seq<(Seq<char>, bool)>, query: Seq<char>, n: int) -> Seq<nat>
    decreases n,
{
    if n <= 0 {
        Seq::empty()
    } else {
        let before = matches(entries, query, n - 1);
        if entry_matches(entries[n - 1].0, query) {
            before.push((n - 1) as nat)
        } else {
            before
        }
    }
}

/// The numbers of the entries that are shown.
pub open spec fn visible(m: Launch) -> Seq<nat> {
    match m.filter {
        Some(q) => matches(m.entries, q, m.entries.len() as int),
        None => Seq::new(m.entries.len(), |i: int| i as nat),
    }
}

/// Positions as mathematical numbers.
pub open spec fn nats(v: Seq<usize>) -> Seq<nat> {
    Seq::new(v.len(), |i: int| v[i] as nat)
}

/// Where a number stands among others from `from` on; their count where it
/// does not.
pub open spec fn place_of(v: Seq<nat>, x: nat, from: int) -> int
    decreases v.len() - from,
{
    if from >= v.len() || v[from] == x {
        from
    } else {
        place_of(v, x, from + 1)
    }
}

/// The place of the selected entry among those shown, the first if it is not.
pub open spec fn selected_place(m: Launch) -> int {
    let p = place_of(visible(m), m.selected, 0);
    if p < visible(m).len() {
        p
    } else {
        0
    }
}

/// The selected entry, if it is shown.
pub open spec fn current(m: Launch) -> Option<(Seq<char>, bool)> {
    if m.filter is Some && place_of(visible(m), m.selected, 0) >= visible(m).len() {
        None
    } else if m.selected < m.entries.len() {
        Some(m.entries[m.selected as int])
    } else {
        None
    }
}

/// `pos` moved by one, between zero and `last`.
pub open spec fn stepped(pos: int, down: bool, last: int) -> int {
    let p = if down {
        pos + 1
    } else {
        pos - 1
    };
    if p < 0 {
        0
    } else if p > last {
        last
    } else {
        p
    }
}

/// The selection moved by one entry.
pub open spec fn moved(m: Launch, down: bool) -> Launch {
    let v = visible(m);
    if v.len() == 0 {
        m
    } else {
        Launch { selected: v[stepped(selected_place(m), down, v.len() - 1)], ..m }
    }
}

/// The way up: the parent directory is read, and the entry come from selected.
pub open spec fn ascended(m: Launch) -> (Launch, Step) {
    match parent(m.dir) {
        None => (m, pending()),
        Some(p) => (
            Launch { filter: None, dir: p, ..m },
            Step::ReadDir { dir: p, select: file_name(m.dir) },
        ),
    }
}

/// The way down, into the selected directory; `..` leads up.
pub open spec fn descended(m: Launch) -> (Launch, Step) {
    match current(m) {
        None => (m, pending()),
        Some((name, is_dir)) => if name == ".."@ {
            ascended(m)
        } else if is_dir {
            let d = joined(m.dir, name);
            (Launch { filter: None, dir: d, ..m }, Step::ReadDir { dir: d, select: None })
        } else {
            (m, pending())
        },
    }
}

/// The directory that Enter opens: the selected one, or else the one shown.
pub open spec fn target(m: Launch) -> Option<Seq<char>> {
    match current(m) {
        None => None,
        Some((name, is_dir)) => if name != ".."@ && is_dir {
            Some(joined(m.dir, name))
        } else {
            Some(m.dir)
        },
    }
}

/// A directory is looked up, if there is one to look up.
pub open spec fn looked_up(path: Option<Seq<char>>, purpose: Purpose) -> Step {
    match path {
        Some(p) => Step::Resolve { path: p, purpose },
        None => pending(),
    }
}

/// Enter: a file is opened, a directory is looked up.
pub open spec fn chosen(m: Launch) -> Step {
    match current(m) {
        Some((name, is_dir)) => if name != ".."@ && !is_dir {
            Step::CheckFile { file: joined(m.canonical, name), name, external: false }
        } else {
            looked_up(target(m), Purpose::Agent)
        },
        None => looked_up(target(m), Purpose::Agent),
    }
}

/// The selected file goes to another program.
pub open spec fn sent_out(m: Launch) -> Step {
    match current(m) {
        Some((name, is_dir)) => if name == ".."@ || is_dir {
            pending()
        } else {
            Step::CheckFile { file: joined(m.canonical, name), name, external: true }
        },
        None => pending(),
    }
}

/// The first match is selected, if there is one.
pub open spec fn first_match(m: Launch) -> Launch {
    let v = visible(m);
    if v.len() == 0 {
        m
    } else {
        Launch { selected: v[0], scroll: 0, ..m }
    }
}

/// A key in the browser while a search is under way: text is searched for.
pub open spec fn filter_keyed(m: Launch, code: KeyCode, text: Option<Seq<char>>) -> (Launch, Step) {
    match code {
        KeyCode::Escape => (Launch { filter: None, ..m }, pending()),
        KeyCode::Enter => (m, chosen(m)),
        KeyCode::ArrowDown => (moved(m, true), pending()),
        KeyCode::ArrowUp => (moved(m, false), pending()),
        KeyCode::ArrowRight => descended(m),
        KeyCode::Backspace => (
            match m.filter {
                None => m,
                Some(q) => if q.len() == 0 {
                    Launch { filter: None, ..m }
                } else {
                    first_match(Launch { filter: Some(q.drop_last()), ..m })
                },
            },
            pending(),
        ),
        _ => (
            match (m.filter, text) {
                (Some(q), Some(t)) => if printable(t) {
                    first_match(Launch { filter: Some(q + t), ..m })
                } else {
                    m
                },
                _ => m,
            },
            pending(),
        ),
    }
}

/// Text typed in the browser.
pub open spec fn browse_typed(m: Launch, t: Seq<char>) -> (Launch, Step) {
    if t == "j"@ {
        (moved(m, true), pending())
    } else if t == "k"@ {
        (moved(m, false), pending())
    } else if t == "l"@ {
        descended(m)
    } else if t == "h"@ {
        ascended(m)
    } else if t == "o"@ {
        (m, sent_out(m))
    } else if t == "/"@ {
        (first_match(Launch { filter: Some(Seq::empty()), ..m }), pending())
    } else if t == "."@ {
        (
            Launch { show_hidden: !m.show_hidden, ..m },
            Step::ReadDir { dir: m.dir, select: None },
        )
    } else if t == "r"@ && m.recent.len() > 0 {
        (Launch { mode: Mode::Recent, recent_selected: 0, ..m }, pending())
    } else if t == "m"@ {
        (m, looked_up(target(m), Purpose::Bookmark))
    } else if t == "b"@ && m.bookmarks.len() > 0 {
        (Launch { mode: Mode::Bookmarks, bookmark_selected: 0, ..m }, pending())
    } else {
        (m, pending())
    }
}

/// A key in the browser.
pub open spec fn browse_keyed(m: Launch, code: KeyCode, text: Option<Seq<char>>) -> (Launch, Step) {
    if m.filter is Some {
        filter_keyed(m, code, text)
    } else {
        match code {
            KeyCode::Escape => (m, Step::Done(Outcome::Cancelled)),
            KeyCode::Enter => (m, chosen(m)),
            KeyCode::ArrowDown => (moved(m, true), pending()),
            KeyCode::ArrowUp => (moved(m, false), pending()),
            KeyCode::ArrowRight => descended(m),
            KeyCode::ArrowLeft => ascended(m),
            _ => match text {
                Some(t) => browse_typed(m, t),
                None => (m, pending()),
            },
        }
    }
}

/// The selection among recent directories moved by one.
pub open spec fn recent_moved(m: Launch, down: bool) -> Launch {
    if m.recent.len() == 0 {
        m
    } else {
        Launch {
            recent_selected: stepped(m.recent_selected as int, down, m.recent.len() - 1) as nat,
            ..m
        }
    }
}

/// A key in the list of recent directories.
pub open spec fn recent_keyed(m: Launch, code: KeyCode, text: Option<Seq<char>>) -> (Launch, Step) {
    match code {
        KeyCode::Escape => (Launch { mode: Mode::Browse, ..m }, pending()),
        KeyCode::Enter => (
            m,
            if m.recent_selected < m.recent.len() {
                Step::Resolve {
                    path: m.recent[m.recent_selected as int],
                    purpose: Purpose::Agent,
                }
            } else {
                pending()
            },
        ),
        KeyCode::ArrowDown => (recent_moved(m, true), pending()),
        KeyCode::ArrowUp => (recent_moved(m, false), pending()),
        _ => match text {
            None => (m, pending()),
            Some(t) => if t == "j"@ {
                (recent_moved(m, true), pending())
            } else if t == "k"@ {
                (recent_moved(m, false), pending())
            } else if t == "r"@ {
                (Launch { mode: Mode::Browse, ..m }, pending())
            } else {
                (m, pending())
            },
        },
    }
}

/// The selection among bookmarks moved by one.
pub open spec fn bookmark_moved(m: Launch, down: bool) -> Launch {
    if m.bookmarks.len() == 0 {
        m
    } else {
        Launch {
            bookmark_selected: stepped(
                m.bookmark_selected as int,
                down,
                m.bookmarks.len() - 1,
            ) as nat,
            ..m
        }
    }
}

/// The selected bookmark.
pub open spec fn selected_mark(m: Launch) -> Option<Seq<char>> {
    if m.bookmark_selected < m.bookmarks.len() {
        Some(m.bookmarks[m.bookmark_selected as int])
    } else {
        None
    }
}

/// The selected bookmark removed; without any left, back to the browser.
pub open spec fn unmarked(m: Launch) -> Launch {
    match selected_mark(m) {
        None => m,
        Some(p) => {
            let left = toggled(m.bookmarks, p);
            if left.len() == 0 {
                Launch { bookmarks: left, mode: Mode::Browse, ..m }
            } else {
                Launch {
                    bookmarks: left,
                    bookmark_selected: lesser(m.bookmark_selected, (left.len() - 1) as nat),
                    ..m
                }
            }
        },
    }
}

/// A key in the list of bookmarks.
pub open spec fn bookmark_keyed(m: Launch, code: KeyCode, text: Option<Seq<char>>) -> (Launch, Step) {
    match code {
        KeyCode::Escape => (Launch { mode: Mode::Browse, ..m }, pending()),
        KeyCode::Enter => (m, looked_up(selected_mark(m), Purpose::Agent)),
        KeyCode::ArrowRight => (m, looked_up(selected_mark(m), Purpose::Browse)),
        KeyCode::ArrowDown => (bookmark_moved(m, true), pending()),
        KeyCode::ArrowUp => (bookmark_moved(m, false), pending()),
        _ => match text {
            None => (m, pending()),
            Some(t) => if t == "j"@ {
                (bookmark_moved(m, true), pending())
            } else if t == "k"@ {
                (bookmark_moved(m, false), pending())
            } else if t == "l"@ {
                (m, looked_up(selected_mark(m), Purpose::Browse))
            } else if t == "b"@ {
                (Launch { mode: Mode::Browse, ..m }, pending())
            } else if t == "m"@ || t == "d"@ {
                (unmarked(m), pending())
            } else {
                (m, pending())
            },
        },
    }
}

/// The contents of commands.
pub open spec fn commands(agents: Seq<AgentDef>) -> Seq<Seq<Seq<char>>> {
    Seq::new(agents.len(), |i: int| texts(agents[i].command@))
}

/// The selection among tools moved by one; the first is the plain shell.
pub open spec fn agent_moved(m: Launch, down: bool, count: nat) -> Launch {
    Launch { agent_selected: stepped(m.agent_selected as int, down, count as int) as nat, ..m }
}

/// A key in the list of tools.
pub open spec fn agent_keyed(
    m: Launch,
    code: KeyCode,
    text: Option<Seq<char>>,
    tools: Seq<Seq<Seq<char>>>,
) -> (Launch, Step) {
    match code {
        KeyCode::Escape => (
            Launch { mode: Mode::Browse, chosen: None, agent_selected: 0, ..m },
            pending(),
        ),
        KeyCode::Enter => match m.chosen {
            None => (Launch { mode: Mode::Browse, ..m }, pending()),
            Some(dir) => (
                m,
                Step::Done(
                    Outcome::OpenIn {
                        dir,
                        command: if 0 < m.agent_selected <= tools.len() {
                            Some(tools[m.agent_selected - 1])
                        } else {
                            None
                        },
                    },
                ),
            ),
        },
        KeyCode::ArrowDown => (agent_moved(m, true, tools.len()), pending()),
        KeyCode::ArrowUp => (agent_moved(m, false, tools.len()), pending()),
        _ => match text {
            None => (m, pending()),
            Some(t) => if t == "j"@ {
                (agent_moved(m, true, tools.len()), pending())
            } else if t == "k"@ {
                (agent_moved(m, false, tools.len()), pending())
            } else {
                (m, pending())
            },
        },
    }
}

/// A key.
pub open spec fn keyed(
    m: Launch,
    code: KeyCode,
    text: Option<Seq<char>>,
    tools: Seq<Seq<Seq<char>>>,
) -> (Launch, Step) {
    match m.mode {
        Mode::Browse => browse_keyed(m, code, text),
        Mode::Recent => recent_keyed(m, code, text),
        Mode::Bookmarks => bookmark_keyed(m, code, text),
        Mode::Agent => agent_keyed(m, code, text, tools),
    }
}

/// The first entry from `from` on with a name; their count where there is none.
pub open spec fn name_place(entries: Seq<(Seq<char>, bool)>, name: Seq<char>, from: int) -> int
    decreases entries.len() - from,
{
    if from >= entries.len() || entries[from].0 == name {
        from
    } else {
        name_place(entries, name, from + 1)
    }
}

/// A directory was read: its entries are shown from the first, and the one to
/// be selected is, if it is there.
pub open spec fn read_in(
    m: Launch,
    entries: Seq<(Seq<char>, bool)>,
    canonical: Option<Seq<char>>,
    select: Option<Seq<char>>,
) -> Launch {
    let k = match select {
        Some(n) => name_place(entries, n, 0),
        None => entries.len() as int,
    };
    Launch {
        entries,
        canonical: match canonical {
            Some(r) => r,
            None => m.dir,
        },
        selected: if k < entries.len() {
            k as nat
        } else {
            0
        },
        scroll: 0,
        ..m
    }
}

/// A directory was looked up.
pub open spec fn found(m: Launch, purpose: Purpose, dir: Option<Seq<char>>) -> (Launch, Step) {
    match dir {
        None => (m, pending()),
        Some(d) => match purpose {
            Purpose::Agent => (
                Launch { chosen: Some(d), agent_selected: 0, mode: Mode::Agent, ..m },
                pending(),
            ),
            Purpose::Browse => (
                Launch { dir: d, filter: None, mode: Mode::Browse, ..m },
                Step::ReadDir { dir: d, select: None },
            ),
            Purpose::Bookmark => (
                Launch { bookmarks: toggled(m.bookmarks, d), ..m },
                pending(),
            ),
        },
    }
}

/// A file was looked for.
pub open spec fn file_found(
    m: Launch,
    file: Seq<char>,
    name: Seq<char>,
    external: bool,
    exists: bool,
) -> Outcome {
    if !exists {
        Outcome::Pending
    } else if external || is_external(name) {
        Outcome::OpenExternal { file }
    } else {
        Outcome::OpenFile {
            file,
            dir: match parent(file) {
                Some(p) => p,
                None => m.canonical,
            },
        }
    }
}

/// Finds the entries that match a search.
pub fn filter_entries(entries: &Vec<Entry>, query: &str) -> (r: Vec<usize>)
    ensures
        nats(r@) == matches(entry_views(entries@), query@, entries@.len() as int),
        forall|i: int| 0 <= i < r.len() ==> (#[trigger] r[i]) < entries.len(),
{
    let low = to_lower(query);
    let ghost ev = entry_views(entries@);
    let mut out: Vec<usize> = Vec::new();
    let mut i: usize = 0;
    assert(nats(out@) =~= Seq::empty());
    while i < entries.len()
        invariant
            i <= entries.len(),
            ev == entry_views(entries@),
            low@ == lowercase(query@),
            nats(out@) == matches(ev, query@, i as int),
            forall|k: int| 0 <= k < out.len() ==> (#[trigger] out[k]) < i,
        decreases entries.len() - i,
    {
        let name = entries[i].name.as_str();
        let small = to_lower(name);
        if !same_text(name, "..") && contains(small.as_str(), low.as_str()) {
            let ghost before = out@;
            out.push(i);
            assert(nats(out@) =~= nats(before).push(i as nat));
        }
        i += 1;
    }
    out
}

/// An entry as it was found: its name, unless that is not text.
#[derive(Debug)]
pub struct RawEntry {
    pub name: Option<String>,
    pub is_dir: bool,
}

/// The most entries of a directory that are looked at.
pub const MAX_READ: usize = 2000;

/// The entries among the first `n` that are listed.
pub open spec fn listed(raw: Seq<RawEntry>, show_hidden: bool, n: int) -> Seq<(Seq<char>, bool)>
    decreases n,
{
    if n <= 0 {
        Seq::empty()
    } else {
        let before = listed(raw, show_hidden, n - 1);
        match raw[n - 1].name {
            Some(name) => if show_hidden || not_hidden((name@, raw[n - 1].is_dir)) {
                before.push((name@, raw[n - 1].is_dir))
            } else {
                before
            },
            None => before,
        }
    }
}

/// The entries of a directory as they are shown: the way up, where there is
/// one, then directories, then files, each by name.
pub open spec fn arranged(raw: Seq<RawEntry>, show_hidden: bool, has_parent: bool) -> Seq<
    (Seq<char>, bool),
> {
    let all = ordered(
        listed(raw, show_hidden, lesser(raw.len(), MAX_READ as nat) as int),
    );
    if has_parent {
        seq![(".."@, true)] + all
    } else {
        all
    }
}

/// The entries of a directory as they are shown.
pub fn read_entries(raw: &Vec<RawEntry>, show_hidden: bool, has_parent: bool) -> (r: Vec<Entry>)
    ensures
        entry_views(r@) == arranged(raw@, show_hidden, has_parent),
{
    let n: usize = if raw.len() < MAX_READ {
        raw.len()
    } else {
        MAX_READ
    };
    let mut pairs: Vec<(String, bool)> = Vec::new();
    let mut i: usize = 0;
    assert(pair_views(pairs@) =~= Seq::empty());
    while i < n
        invariant
            i <= n <= raw.len(),
            pair_views(pairs@) == listed(raw@, show_hidden, i as int),
        decreases n - i,
    {
        if let Some(name) = &raw[i].name {
            let cs = chars_of(name.as_str());
            if show_hidden || !(cs.len() > 0 && cs[0] == '.') {
                let ghost before = pairs@;
                pairs.push((name.clone(), raw[i].is_dir));
                assert(pair_views(pairs@) =~= pair_views(before).push(
                    (name@, raw[i as int].is_dir),
                ));
            }
        }
        i += 1;
    }
    let sorted = sort_all(pairs);
    let ghost sv = pair_views(sorted@);
    let mut out: Vec<Entry> = Vec::new();
    if has_parent {
        out.push(Entry { name: "..".to_owned(), is_dir: true });
    }
    let ghost head = entry_views(out@);
    let mut k: usize = 0;
    assert(head + sv.subrange(0, 0) =~= head);
    while k < sorted.len()
        invariant
            k <= sorted.len(),
            sv == pair_views(sorted@),
            entry_views(out@) == head + sv.subrange(0, k as int),
        decreases sorted.len() - k,
    {
        let ghost before = out@;
        out.push(Entry { name: sorted[k].0.clone(), is_dir: sorted[k].1 });
        proof {
            assert(entry_views(out@) =~= entry_views(before).push(sv[k as int]));
            assert((head + sv.subrange(0, k as int)).push(sv[k as int]) =~= head + sv.subrange(
                0,
                k + 1,
            ));
        }
        k += 1;
    }
    assert(sv.subrange(0, k as int) =~= sv);
    assert(head + sv =~= arranged(raw@, show_hidden, has_parent));
    out
}

/// What stands at a path.
#[derive(Debug, Clone, Copy, PartialEq, Eq, Structural)]
pub enum PathKind {
    Dir,
    File,
    Missing,
}

/// A path seen from the working directory, if that is known or not needed.
pub fn absolute_path(path: &str, cwd: Option<&str>) -> (r: Option<String>)
    ensures
        opt_text(r) == if absolute(path@) {
            Some(path@)
        } else {
            match opt_str(cwd) {
                Some(c) => Some(joined(c, path@)),
                None => None,
            }
        },
{
    if is_absolute(path) {
        return Some(path.to_owned());
    }
    match cwd {
        Some(c) => Some(join(c, path)),
        None => None,
    }
}

/// The directory a path stands for: itself, or that of a file.
pub fn resolve_existing_dir(path: &str, kind: PathKind) -> (r: Option<String>)
    ensures
        opt_text(r) == (match kind {
            PathKind::Dir => Some(path@),
            PathKind::File => parent(path@),
            PathKind::Missing => None,
        }),
{
    match kind {
        PathKind::Dir => Some(path.to_owned()),
        PathKind::File => parent_of(path),
        PathKind::Missing => None,
    }
}

fn done(o: LauncherOutcome) -> (r: LauncherStep)
    ensures
        r@ == Step::Done(o@),
{
    LauncherStep::Done(o)
}

fn wait() -> (r: LauncherStep)
    ensures
        r@ == pending(),
{
    LauncherStep::Done(LauncherOutcome::Pending)
}

fn look_up(path: Option<String>, purpose: Purpose) -> (r: LauncherStep)
    ensures
        r@ == looked_up(opt_text(path), purpose),
{
    match path {
        Some(p) => LauncherStep::Resolve { path: p, purpose },
        None => wait(),
    }
}

/// `pos` moved by one, between zero and `last`.
fn step_by_one(pos: usize, down: bool, last: usize) -> (r: usize)
    ensures
        r == stepped(pos as int, down, last as int),
        r <= last,
{
    if down {
        if pos >= last {
            last
        } else {
            pos + 1
        }
    } else if pos == 0 {
        0
    } else if pos - 1 > last {
        last
    } else {
        pos - 1
    }
}

impl LauncherState {
    /// A launcher for a directory that has not been read yet.
    pub fn new(recent: Vec<String>, dir: String, bookmarks: Bookmarks) -> (r: Self)
        ensures
            r@ == (Launch {
                dir: dir@,
                entries: Seq::empty(),
                canonical: dir@,
                selected: 0,
                scroll: 0,
                show_hidden: false,
                recent: texts(recent@),
                recent_selected: 0,
                bookmarks: texts(bookmarks.entries@),
                bookmark_path: opt_text(bookmarks.path),
                bookmark_selected: 0,
                mode: Mode::Browse,
                filter: None,
                chosen: None,
                agent_selected: 0,
            }),
    {
        let entries: Vec<Entry> = Vec::new();
        assert(entry_views(entries@) =~= Seq::empty());
        LauncherState {
            canonical_dir: dir.clone(),
            dir,
            entries,
            selected: 0,
            scroll: 0,
            show_hidden: false,
            recent,
            recent_selected: 0,
            bookmarks,
            bookmark_selected: 0,
            mode: Mode::Browse,
            filter: None,
            chosen_dir: None,
            agent_selected: 0,
        }
    }

    /// A key event.
    pub fn handle_key(
        &mut self,
        pressed: bool,
        code: Option<KeyCode>,
        text: Option<&str>,
        agents: &Vec<AgentDef>,
    ) -> (r: LauncherStep)
        ensures
            (final(self)@, r@) == if pressed && code is Some {
                keyed(old(self)@, code->0, opt_str(text), commands(agents@))
            } else {
                (old(self)@, pending())
            },
    {
        if !pressed {
            return wait();
        }
        match code {
            Some(c) => self.handle_key_parts(c, text, agents),
            None => wait(),
        }
    }

    /// A key.
    pub fn handle_key_parts(&mut self, code: KeyCode, text: Option<&str>, agents: &Vec<AgentDef>) -> (r:
        LauncherStep)
        ensures
            (final(self)@, r@) == keyed(old(self)@, code, opt_str(text), commands(agents@)),
    {
        match self.mode {
            Mode::Browse => self.handle_browse_key(code, text),
            Mode::Recent => self.handle_recent_key(code, text),
            Mode::Bookmarks => self.handle_bookmark_key(code, text),
            Mode::Agent => self.handle_agent_key(code, text, agents),
        }
    }

    fn handle_browse_key(&mut self, code: KeyCode, text: Option<&str>) -> (r: LauncherStep)
        ensures
            (final(self)@, r@) == browse_keyed(old(self)@, code, opt_str(text)),
    {
        if self.filter.is_some() {
            return self.handle_filter_key(code, text);
        }
        match code {
            KeyCode::Escape => done(LauncherOutcome::Cancelled),
            KeyCode::Enter => self.choose_target(),
            KeyCode::ArrowDown => {
                self.move_sel(true);
                wait()
            },
            KeyCode::ArrowUp => {
                self.move_sel(false);
                wait()
            },
            KeyCode::ArrowRight => self.descend(),
            KeyCode::ArrowLeft => self.ascend(),
            _ => match text {
                Some(t) => self.handle_browse_text(t),
                None => wait(),
            },
        }
    }

    fn handle_browse_text(&mut self, t: &str) -> (r: LauncherStep)
        ensures
            (final(self)@, r@) == browse_typed(old(self)@, t@),
    {
        assert(self@.recent.len() == self.recent.len());
        assert(self@.bookmarks.len() == self.bookmarks.entries.len());
        if same_text(t, "j") {
            self.move_sel(true);
            wait()
        } else if same_text(t, "k") {
            self.move_sel(false);
            wait()
        } else if same_text(t, "l") {
            self.descend()
        } else if same_text(t, "h") {
            self.ascend()
        } else if same_text(t, "o") {
            self.open_selected_external()
        } else if same_text(t, "/") {
            let e = String::new();
            assert(e@ =~= Seq::empty());
            self.filter = Some(e);
            self.select_first_filter_match();
            wait()
        } else if same_text(t, ".") {
            self.show_hidden = !self.show_hidden;
            LauncherStep::ReadDir { dir: self.dir.clone(), select: None }
        } else if same_text(t, "r") && self.recent.len() > 0 {
            self.mode = Mode::Recent;
            self.recent_selected = 0;
            wait()
        } else if same_text(t, "m") {
            look_up(self.target_dir(), Purpose::Bookmark)
        } else if same_text(t, "b") && self.bookmarks.entries.len() > 0 {
            self.mode = Mode::Bookmarks;
            self.bookmark_selected = 0;
            wait()
        } else {
            wait()
        }
    }

    fn handle_filter_key(&mut self, code: KeyCode, text: Option<&str>) -> (r: LauncherStep)
        ensures
            (final(self)@, r@) == filter_keyed(old(self)@, code, opt_str(text)),
    {
        match code {
            KeyCode::Escape => {
                self.filter = None;
                wait()
            },
            KeyCode::Enter => self.choose_target(),
            KeyCode::ArrowDown => {
                self.move_sel(true);
                wait()
            },
            KeyCode::ArrowUp => {
                self.move_sel(false);
                wait()
            },
            KeyCode::ArrowRight => self.descend(),
            KeyCode::Backspace => {
                self.backspace_filter();
                wait()
            },
            _ => {
                if let Some(t) = text {
                    self.push_filter_text(t);
                }
                wait()
            },
        }
    }

    fn handle_recent_key(&mut self, code: KeyCode, text: Option<&str>) -> (r: LauncherStep)
        ensures
            (final(self)@, r@) == recent_keyed(old(self)@, code, opt_str(text)),
    {
        match code {
            KeyCode::Escape => {
                self.mode = Mode::Browse;
                wait()
            },
            KeyCode::Enter => {
                assert(self@.recent.len() == self.recent.len());
                if self.recent_selected < self.recent.len() {
                    LauncherStep::Resolve {
                        path: self.recent[self.recent_selected].clone(),
                        purpose: Purpose::Agent,
                    }
                } else {
                    wait()
                }
            },
            KeyCode::ArrowDown => {
                self.move_recent(true);
                wait()
            },
            KeyCode::ArrowUp => {
                self.move_recent(false);
                wait()
            },
            _ => {
                if let Some(t) = text {
                    if same_text(t, "j") {
                        self.move_recent(true);
                    } else if same_text(t, "k") {
                        self.move_recent(false);
                    } else if same_text(t, "r") {
                        self.mode = Mode::Browse;
                    }
                }
                wait()
            },
        }
    }

    fn handle_bookmark_key(&mut self, code: KeyCode, text: Option<&str>) -> (r: LauncherStep)
        ensures
            (final(self)@, r@) == bookmark_keyed(old(self)@, code, opt_str(text)),
    {
        match code {
            KeyCode::Escape => {
                self.mode = Mode::Browse;
                wait()
            },
            KeyCode::Enter => look_up(self.selected_bookmark(), Purpose::Agent),
            KeyCode::ArrowRight => look_up(self.selected_bookmark(), Purpose::Browse),
            KeyCode::ArrowDown => {
                self.move_bookmark(true);
                wait()
            },
            KeyCode::ArrowUp => {
                self.move_bookmark(false);
                wait()
            },
            _ => {
                let t = match text {
                    Some(t) => t,
                    None => {
                        return wait();
                    },
                };
                if same_text(t, "j") {
                    self.move_bookmark(true);
                    wait()
                } else if same_text(t, "k") {
                    self.move_bookmark(false);
                    wait()
                } else if same_text(t, "l") {
                    look_up(self.selected_bookmark(), Purpose::Browse)
                } else if same_text(t, "b") {
                    self.mode = Mode::Browse;
                    wait()
                } else if same_text(t, "m") || same_text(t, "d") {
                    self.remove_selected_bookmark();
                    wait()
                } else {
                    wait()
                }
            },
        }
    }

    fn selected_bookmark(&self) -> (r: Option<String>)
        ensures
            opt_text(r) == selected_mark(self@),
    {
        assert(self@.bookmarks.len() == self.bookmarks.entries.len());
        if self.bookmark_selected < self.bookmarks.entries.len() {
            Some(self.bookmarks.entries[self.bookmark_selected].clone())
        } else {
            None
        }
    }

    fn remove_selected_bookmark(&mut self)
        ensures
            final(self)@ == unmarked(old(self)@),
    {
        let path = match self.selected_bookmark() {
            Some(p) => p,
            None => {
                return;
            },
        };
        self.bookmarks.toggle(path.as_str());
        assert(self@.bookmarks.len() == self.bookmarks.entries.len());
        if self.bookmarks.entries.len() == 0 {
            self.mode = Mode::Browse;
            return;
        }
        let last = self.bookmarks.entries.len() - 1;
        if self.bookmark_selected > last {
            self.bookmark_selected = last;
        }
    }

    fn move_bookmark(&mut self, down: bool)
        ensures
            final(self)@ == bookmark_moved(old(self)@, down),
    {
        let len = self.bookmarks.entries.len();
        assert(self@.bookmarks.len() == len);
        if len == 0 {
            return;
        }
        self.bookmark_selected = step_by_one(self.bookmark_selected, down, len - 1);
    }

    fn handle_agent_key(&mut self, code: KeyCode, text: Option<&str>, agents: &Vec<AgentDef>) -> (r:
        LauncherStep)
        ensures
            (final(self)@, r@) == agent_keyed(old(self)@, code, opt_str(text), commands(agents@)),
    {
        assert(commands(agents@).len() == agents.len());
        match code {
            KeyCode::Escape => {
                self.mode = Mode::Browse;
                self.chosen_dir = None;
                self.agent_selected = 0;
                wait()
            },
            KeyCode::Enter => {
                let dir = match copy_opt(&self.chosen_dir) {
                    Some(d) => d,
                    None => {
                        self.mode = Mode::Browse;
                        return wait();
                    },
                };
                let k = self.agent_selected;
                let command = if k > 0 && k <= agents.len() {
                    Some(copy_texts(&agents[k - 1].command))
                } else {
                    None
                };
                done(LauncherOutcome::OpenIn { dir, command })
            },
            KeyCode::ArrowDown => {
                self.agent_selected = step_by_one(self.agent_selected, true, agents.len());
                wait()
            },
            KeyCode::ArrowUp => {
                self.agent_selected = step_by_one(self.agent_selected, false, agents.len());
                wait()
            },
            _ => {
                if let Some(t) = text {
                    if same_text(t, "j") {
                        self.agent_selected = step_by_one(self.agent_selected, true, agents.len());
                    } else if same_text(t, "k") {
                        self.agent_selected = step_by_one(self.agent_selected, false, agents.len());
                    }
                }
                wait()
            },
        }
    }

    fn backspace_filter(&mut self)
        ensures
            final(self)@ == filter_keyed(old(self)@, KeyCode::Backspace, None).0,
    {
        let q = match copy_opt(&self.filter) {
            Some(q) => q,
            None => {
                return;
            },
        };
        let cs = chars_of(q.as_str());
        if cs.len() == 0 {
            self.filter = None;
            return;
        }
        let shorter = string_between(&cs, 0, cs.len() - 1);
        assert(shorter@ =~= q@.drop_last());
        self.filter = Some(shorter);
        self.select_first_filter_match();
    }

    fn push_filter_text(&mut self, input: &str)
        ensures
            final(self)@ == (match old(self)@.filter {
                Some(q) => if printable(input@) {
                    first_match(Launch { filter: Some(q + input@), ..old(self)@ })
                } else {
                    old(self)@
                },
                None => old(self)@,
            }),
    {
        if !is_printable(input) {
            return;
        }
        let q = match copy_opt(&self.filter) {
            Some(q) => q,
            None => {
                return;
            },
        };
        let mut longer = q;
        longer.append(input);
        self.filter = Some(longer);
        self.select_first_filter_match();
    }

    fn move_sel(&mut self, down: bool)
        ensures
            final(self)@ == moved(old(self)@, down),
    {
        let v = self.visible_entry_indices();
        assert(visible(self@).len() == v.len());
        if v.len() == 0 {
            return;
        }
        let p = find_place(&v, self.selected);
        let pos = if p < v.len() {
            p
        } else {
            0
        };
        let next = step_by_one(pos, down, v.len() - 1);
        assert(visible(self@)[next as int] == v[next as int]);
        self.selected = v[next];
    }

    fn move_recent(&mut self, down: bool)
        ensures
            final(self)@ == recent_moved(old(self)@, down),
    {
        assert(self@.recent.len() == self.recent.len());
        if self.recent.len() == 0 {
            return;
        }
        self.recent_selected = step_by_one(self.recent_selected, down, self.recent.len() - 1);
    }

    /// Goes into the selected directory.
    pub fn descend(&mut self) -> (r: LauncherStep)
        ensures
            (final(self)@, r@) == descended(old(self)@),
    {
        let (name, is_dir) = match self.current_entry() {
            Some(e) => (e.name.clone(), e.is_dir),
            None => {
                return wait();
            },
        };
        if same_text(name.as_str(), "..") {
            self.ascend()
        } else if is_dir {
            self.filter = None;
            self.dir = join(self.dir.as_str(), name.as_str());
            LauncherStep::ReadDir { dir: self.dir.clone(), select: None }
        } else {
            wait()
        }
    }

    /// Goes to the parent directory.
    pub fn ascend(&mut self) -> (r: LauncherStep)
        ensures
            (final(self)@, r@) == ascended(old(self)@),
    {
        let p = match parent_of(self.dir.as_str()) {
            Some(p) => p,
            None => {
                return wait();
            },
        };
        self.filter = None;
        let came_from = file_name_of(self.dir.as_str());
        self.dir = p;
        LauncherStep::ReadDir { dir: self.dir.clone(), select: came_from }
    }

    /// The selected entry, if it is shown.
    pub fn current_entry(&self) -> (r: Option<&Entry>)
        ensures
            (match r {
                Some(e) => Some((e.name@, e.is_dir)),
                None => None,
            }) == current(self@),
    {
        if self.filter.is_some() {
            let v = self.visible_entry_indices();
            assert(visible(self@).len() == v.len());
            if find_place(&v, self.selected) >= v.len() {
                return None;
            }
        }
        assert(self@.entries.len() == self.entries.len());
        if self.selected < self.entries.len() {
            Some(&self.entries[self.selected])
        } else {
            None
        }
    }

    /// The numbers of the entries that are shown.
    pub fn visible_entry_indices(&self) -> (r: Vec<usize>)
        ensures
            nats(r@) == visible(self@),
            forall|i: int| 0 <= i < r.len() ==> (#[trigger] r[i]) < self.entries.len(),
    {
        match &self.filter {
            Some(q) => filter_entries(&self.entries, q.as_str()),
            None => {
                let mut out: Vec<usize> = Vec::new();
                let mut i: usize = 0;
                while i < self.entries.len()
                    invariant
                        i <= self.entries.len(),
                        out.len() == i,
                        forall|k: int| 0 <= k < i ==> out[k] == k,
                    decreases self.entries.len() - i,
                {
                    out.push(i);
                    i += 1;
                }
                assert(nats(out@) =~= visible(self@));
                out
            },
        }
    }

    fn select_first_filter_match(&mut self)
        ensures
            final(self)@ == first_match(old(self)@),
    {
        let v = self.visible_entry_indices();
        assert(visible(self@).len() == v.len());
        if v.len() > 0 {
            assert(visible(self@)[0] == v[0]);
            self.selected = v[0];
            self.scroll = 0;
        }
    }

    fn target_dir(&self) -> (r: Option<String>)
        ensures
            opt_text(r) == target(self@),
    {
        match self.current_entry() {
            None => None,
            Some(e) => if !same_text(e.name.as_str(), "..") && e.is_dir {
                Some(join(self.dir.as_str(), e.name.as_str()))
            } else {
                Some(self.dir.clone())
            },
        }
    }

    /// Enter: opens the selected file, or looks up the directory to open.
    pub fn choose_target(&self) -> (r: LauncherStep)
        ensures
            r@ == chosen(self@),
    {
        if let Some(e) = self.current_entry() {
            if !same_text(e.name.as_str(), "..") && !e.is_dir {
                return LauncherStep::CheckFile {
                    file: join(self.canonical_dir.as_str(), e.name.as_str()),
                    name: e.name.clone(),
                    external: false,
                };
            }
        }
        look_up(self.target_dir(), Purpose::Agent)
    }

    /// Opens the selected file in another program.
    pub fn open_selected_external(&self) -> (r: LauncherStep)
        ensures
            r@ == sent_out(self@),
    {
        match self.current_entry() {
            None => wait(),
            Some(e) => if same_text(e.name.as_str(), "..") || e.is_dir {
                wait()
            } else {
                LauncherStep::CheckFile {
                    file: join(self.canonical_dir.as_str(), e.name.as_str()),
                    name: e.name.clone(),
                    external: true,
                }
            },
        }
    }

    /// Takes up whether a file is there.
    pub fn file_checked(&self, file: String, name: &str, external: bool, exists: bool) -> (r:
        LauncherOutcome)
        ensures
            r@ == file_found(self@, file@, name@, external, exists),
    {
        if !exists {
            return LauncherOutcome::Pending;
        }
        if external || opens_externally(name) {
            return LauncherOutcome::OpenExternal { file };
        }
        let dir = match parent_of(file.as_str()) {
            Some(p) => p,
            None => self.canonical_dir.clone(),
        };
        LauncherOutcome::OpenFile { file, dir }
    }

    /// Takes up a directory that was looked up.
    pub fn resolved(&mut self, purpose: Purpose, dir: Option<String>) -> (r: LauncherStep)
        ensures
            (final(self)@, r@) == found(old(self)@, purpose, opt_text(dir)),
    {
        let d = match dir {
            Some(d) => d,
            None => {
                return wait();
            },
        };
        match purpose {
            Purpose::Agent => {
                self.enter_agent_mode(d);
                wait()
            },
            Purpose::Browse => {
                self.dir = d.clone();
                self.filter = None;
                self.mode = Mode::Browse;
                LauncherStep::ReadDir { dir: d, select: None }
            },
            Purpose::Bookmark => {
                self.bookmarks.toggle(d.as_str());
                wait()
            },
        }
    }

    /// Lets the user choose what to open a directory with.
    pub fn enter_agent_mode(&mut self, dir: String)
        ensures
            final(self)@ == (Launch {
                chosen: Some(dir@),
                agent_selected: 0,
                mode: Mode::Agent,
                ..old(self)@
            }),
    {
        self.chosen_dir = Some(dir);
        self.agent_selected = 0;
        self.mode = Mode::Agent;
    }

    /// Takes up the entries of the directory, and the real directory it is.
    pub fn reload(&mut self, entries: Vec<Entry>, canonical: Option<String>, select: Option<String>)
        ensures
            final(self)@ == read_in(
                old(self)@,
                entry_views(entries@),
                opt_text(canonical),
                opt_text(select),
            ),
    {
        let ghost ev = entry_views(entries@);
        self.canonical_dir = match canonical {
            Some(x) => x,
            None => self.dir.clone(),
        };
        self.selected = 0;
        self.scroll = 0;
        if let Some(name) = &select {
            let mut k: usize = 0;
            while k < entries.len() && !same_text(entries[k].name.as_str(), name.as_str())
                invariant
                    k <= entries.len(),
                    ev == entry_views(entries@),
                    name_place(ev, name@, k as int) == name_place(ev, name@, 0),
                decreases entries.len() - k,
            {
                assert(ev[k as int].0 == entries[k as int].name@);
                k += 1;
            }
            if k < entries.len() {
                assert(ev[k as int].0 == entries[k as int].name@);
                self.selected = k;
            }
        }
        self.entries = entries;
    }
}

/// Where a number stands among others; their count where it does not.
fn find_place(v: &Vec<usize>, x: usize) -> (r: usize)
    ensures
        r == place_of(nats(v@), x as nat, 0),
        r <= v.len(),
{
    let ghost nv = nats(v@);
    let mut i: usize = 0;
    while i < v.len() && v[i] != x
        invariant
            i <= v.len(),
            nv == nats(v@),
            place_of(nv, x as nat, i as int) == place_of(nv, x as nat, 0),
        decreases v.len() - i,
    {
        i += 1;
    }
    i
}

// ---------------------------------------------------------------------------
// Rows
// ---------------------------------------------------------------------------

/// A path with `~` for the home directory.
pub open spec fn tilde_path(path: Seq<char>, home: Option<Seq<char>>) -> Seq<char> {
    match home {
        None => path,
        Some(h) => match stripped(path, h) {
            None => path,
            Some(rest) => if rest.len() == 0 {
                "~"@
            } else {
                "~/"@ + rest
            },
        },
    }
}

/// A path with `~` for the home directory.
pub fn display_path(path: &str, home: Option<&str>) -> (r: String)
    ensures
        r@ == tilde_path(path@, opt_str(home)),
{
    if let Some(h) = home {
        if let Some(rest) = strip_prefix(path, h) {
            if rest.as_str().is_empty() {
                return "~".to_owned();
            }
            let mut out = "~/".to_owned();
            out.append(rest.as_str());
            return out;
        }
    }
    path.to_owned()
}

/// The label of an entry.
pub open spec fn label_of(e: (Seq<char>, bool)) -> Seq<char> {
    let icon = ("  "@).push(look(e.0, e.1).0);
    if e.0 == ".."@ {
        icon + "  ../"@
    } else if e.1 {
        icon + "  "@ + e.0 + "/"@
    } else {
        icon + "  "@ + e.0
    }
}

fn entry_label(e: &Entry) -> (r: String)
    ensures
        r@ == label_of((e.name@, e.is_dir)),
{
    let (icon, _) = icon_and_color(e.name.as_str(), e.is_dir);
    let mut out = "  ".to_owned();
    out.push(icon);
    if same_text(e.name.as_str(), "..") {
        out.append("  ../");
    } else {
        out.append("  ");
        out.append(e.name.as_str());
        if e.is_dir {
            out.append("/");
        }
    }
    out
}

/// The mark of an entry: a star for a bookmarked directory.
pub open spec fn mark_of(m: Launch, e: (Seq<char>, bool)) -> Seq<char> {
    if e.0 != ".."@ && e.1 && holds_path(m.bookmarks, joined(m.canonical, e.0)) {
        "★"@
    } else {
        " "@
    }
}

/// The path of a directory, its last name set off.
pub open spec fn breadcrumb(path: Seq<char>) -> Seq<(Seq<char>, Color)> {
    let k = last_at(path, '/');
    if k < 0 {
        seq![(path, accent())]
    } else {
        seq![
            (path.subrange(0, k + 1), dim()),
            (path.subrange(k + 1, path.len() as int), accent()),
        ]
    }
}

fn breadcrumb_line(cols: usize, path: &str) -> (r: Line)
    ensures
        r@ == segments_row(breadcrumb(path@), cols as nat),
{
    let cs = chars_of(path);
    let mut segs: Vec<(String, Color)> = Vec::new();
    match find_last(&cs, '/') {
        Some(k) => {
            segs.push((string_between(&cs, 0, k + 1), dim()));
            segs.push((string_between(&cs, k + 1, cs.len()), accent()));
        },
        None => {
            segs.push((path.to_owned(), accent()));
        },
    }
    assert(seg_views(segs@) =~= breadcrumb(path@));
    segments_line(cols, &segs)
}

/// A row that is a bar where it is selected.
pub open spec fn bar(text: Seq<char>, fg: Color, selected: bool, cols: nat) -> Seq<Cell> {
    if selected {
        column(text, SEL_FG, sel_bg(), cols)
    } else {
        column(text, fg, Color::Background, cols)
    }
}

fn bar_line(cols: usize, text: &str, fg: Color, selected: bool) -> (r: Line)
    ensures
        r@ == bar(text@, fg, selected, cols as nat),
{
    if selected {
        Line::from_cells(column_cells(text, SEL_FG, sel_bg(), cols), false)
    } else {
        Line::from_cells(column_cells(text, fg, Color::Background, cols), false)
    }
}

/// A row of two columns with a rule between them.
pub open spec fn pane_row(
    left: (Seq<char>, Color),
    selected: bool,
    right: (Seq<char>, Color),
    left_w: nat,
    right_w: nat,
) -> Seq<Cell> {
    bar(left.0, left.1, selected, left_w).push(
        head_cell('│', 1, on_color(dim(), Color::Background)),
    ) + column(right.0, right.1, Color::Background, right_w)
}

fn two_pane_row(
    ltext: &str,
    lfg: Color,
    selected: bool,
    rtext: &str,
    rfg: Color,
    left_w: usize,
    right_w: usize,
) -> (r: Line)
    ensures
        r@ == pane_row((ltext@, lfg), selected, (rtext@, rfg), left_w as nat, right_w as nat),
{
    let mut cells = if selected {
        column_cells(ltext, SEL_FG, sel_bg(), left_w)
    } else {
        column_cells(ltext, lfg, Color::Background, left_w)
    };
    cells.push(Cell::head('│', 1, color_attr(dim(), Color::Background)));
    let mut right = column_cells(rtext, rfg, Color::Background, right_w);
    cells.append(&mut right);
    Line::from_cells(cells, false)
}

/// The rows of the body of a list: all but a few, at least one.
pub open spec fn body_of(count: nat, taken: nat) -> nat {
    if sat_sub(count, taken) < 1 {
        1
    } else {
        sat_sub(count, taken)
    }
}

/// The first entry shown, so that the selected one is.
pub open spec fn scrolled(m: Launch, body: nat) -> nat {
    let p = selected_place(m) as nat;
    if p < m.scroll {
        p
    } else if p >= m.scroll + body {
        (p + 1 - body) as nat
    } else {
        m.scroll
    }
}

/// The width of the left column.
pub open spec fn left_width(cols: nat) -> nat {
    let w = sat_sub(cols, 3) * 2 / 5;
    let max = if sat_sub(cols, 6) < 18 {
        18
    } else {
        sat_sub(cols, 6)
    };
    if w < 18 {
        18
    } else if w > max {
        max
    } else {
        w
    }
}

/// The text and colour of an entry on the left.
pub open spec fn left_text(m: Launch, k: int) -> (Seq<char>, Color) {
    let v = visible(m);
    if k < v.len() {
        let e = m.entries[v[k] as int];
        (mark_of(m, e) + label_of(e), look(e.0, e.1).1)
    } else {
        (Seq::empty(), Color::White)
    }
}

/// The text and colour of an entry on the right.
pub open spec fn right_text(preview: Seq<(Seq<char>, bool)>, i: int) -> (Seq<char>, Color) {
    if i < preview.len() {
        (label_of(preview[i]), look(preview[i].0, preview[i].1).1)
    } else {
        (Seq::empty(), Color::White)
    }
}

/// A row of the browser.
pub open spec fn browse_row(m: Launch, preview: Seq<(Seq<char>, bool)>, i: int, cols: nat) -> Seq<Cell> {
    let v = visible(m);
    let k = m.scroll + i;
    pane_row(
        left_text(m, k),
        k < v.len() && v[k] == m.selected,
        right_text(preview, i),
        left_width(cols),
        sat_sub(cols, left_width(cols) + 1),
    )
}

/// The rule above the hints.
pub open spec fn rule_row(cols: nat) -> Seq<Cell> {
    column(repeated('─', lesser(cols, 120)), dim(), Color::Background, cols)
}

/// The hints of the browser.
pub open spec fn browse_hint(m: Launch) -> Seq<char> {
    match m.filter {
        Some(q) => "検索: "@ + q + "_  ↑/↓:移動  l/→:入る  Enter:開く  Backspace/Esc:解除"@,
        None => "j/k:移動  l:入る  h:上へ  Enter:開く  o:既定アプリ  m:★登録  b:★一覧  .:隠し  r:最近  Esc:閉じる"@,
    }
}

/// The rows of the browser, scrolled so that the selected entry is shown.
pub open spec fn browse_rows(
    m: Launch,
    preview: Seq<(Seq<char>, bool)>,
    home: Option<Seq<char>>,
    cols: nat,
    count: nat,
) -> Seq<Seq<Cell>> {
    let s = Launch { scroll: scrolled(m, body_of(count, 5)), ..m };
    first_of(
        seq![
            segments_row(seq![("gototerm"@, DIR_FG), ("  開く場所を選ぶ"@, dim())], cols),
            segments_row(breadcrumb(tilde_path(m.dir, home)), cols),
            column(""@, Color::White, Color::Background, cols),
        ] + Seq::new(body_of(count, 5), |i: int| browse_row(s, preview, i, cols)) + seq![
            rule_row(cols),
            column(browse_hint(m), dim(), Color::Background, cols),
        ],
        count,
    )
}

/// The rows of a list of paths.
pub open spec fn list_rows(
    title: Seq<char>,
    paths: Seq<Seq<char>>,
    selected: nat,
    hint: Seq<char>,
    home: Option<Seq<char>>,
    cols: nat,
    count: nat,
) -> Seq<Seq<Cell>> {
    first_of(
        seq![
            column(title, Color::BrightWhite, Color::Background, cols),
            column(""@, Color::White, Color::Background, cols),
        ] + Seq::new(
            body_of(count, 4),
            |i: int|
                if i < paths.len() {
                    bar("  "@ + tilde_path(paths[i], home), DIR_FG, i == selected, cols)
                } else {
                    column(""@, Color::White, Color::Background, cols)
                },
        ) + seq![rule_row(cols), column(hint, dim(), Color::Background, cols)],
        count,
    )
}

/// A line of a box, a bar where it is selected.
pub open spec fn choice(text: Seq<char>, fg: Color, selected: bool, panel: Color) -> (
    Seq<char>,
    Color,
    Color,
) {
    if selected {
        (text, SEL_FG, sel_bg())
    } else {
        (text, fg, panel)
    }
}

/// The contents of names.
pub open spec fn names(agents: Seq<AgentDef>) -> Seq<Seq<char>> {
    Seq::new(agents.len(), |i: int| agents[i].name@)
}

/// The lines of the box that asks what to open a directory with.
pub open spec fn agent_lines(
    m: Launch,
    tools: Seq<Seq<char>>,
    home: Option<Seq<char>>,
    panel: Color,
) -> Seq<(Seq<char>, Color, Color)> {
    seq![
        choice("何で開く？"@, accent(), false, panel),
        choice(
            tilde_path(
                match m.chosen {
                    Some(d) => d,
                    None => m.dir,
                },
                home,
            ),
            dim(),
            false,
            panel,
        ),
        choice(Seq::empty(), Color::White, false, panel),
        choice("そのまま作業（シェル）"@, Color::BrightWhite, m.agent_selected == 0, panel),
    ] + Seq::new(
        tools.len(),
        |i: int| choice(tools[i], Color::BrightWhite, m.agent_selected == i + 1, panel),
    ) + seq![
        choice(Seq::empty(), Color::White, false, panel),
        choice("j/k:選択  Enter:起動  Esc:戻る"@, dim(), false, panel),
    ]
}

/// The rows of the launcher.
pub open spec fn launcher_rows(
    m: Launch,
    preview: Seq<(Seq<char>, bool)>,
    tools: Seq<Seq<char>>,
    home: Option<Seq<char>>,
    panel: Color,
    cols: nat,
    count: nat,
) -> Seq<Seq<Cell>> {
    match m.mode {
        Mode::Browse => browse_rows(m, preview, home, cols, count),
        Mode::Recent => list_rows(
            "最近使ったプロジェクト"@,
            m.recent,
            m.recent_selected,
            "j/k:移動  Enter:開く  r/Esc:ブラウザへ戻る"@,
            home,
            cols,
            count,
        ),
        Mode::Bookmarks => list_rows(
            "★ ブックマーク"@,
            m.bookmarks,
            m.bookmark_selected,
            "j/k:移動  Enter:開く  l:そこへ移動  m/d:外す  b/Esc:ブラウザへ戻る"@,
            home,
            cols,
            count,
        ),
        Mode::Agent => boxed(
            browse_rows(m, preview, home, cols, count),
            agent_lines(m, tools, home, panel),
            cols,
            count,
            panel,
        ),
    }
}

/// The launcher after it was drawn: the browser is scrolled.
pub open spec fn after_drawing(m: Launch, count: nat) -> Launch {
    match m.mode {
        Mode::Browse | Mode::Agent => Launch { scroll: scrolled(m, body_of(count, 5)), ..m },
        _ => m,
    }
}

fn push_rule(lines: &mut Vec<Line>, cols: usize)
    ensures
        rows(final(lines)@) == rows(old(lines)@).push(rule_row(cols as nat)),
{
    let n: usize = if cols < 120 {
        cols
    } else {
        120
    };
    let dashes = repeat_char('─', n);
    push_line(lines, text_line(cols, dashes.as_str(), dim()));
}

fn push_line(lines: &mut Vec<Line>, line: Line)
    ensures
        rows(final(lines)@) == rows(old(lines)@).push(line@),
        final(lines).len() == old(lines).len() + 1,
{
    let ghost before = lines@;
    lines.push(line);
    assert(rows(lines@) =~= rows(before).push(line@));
}

fn cut_lines(lines: &mut Vec<Line>, count: usize)
    ensures
        rows(final(lines)@) == first_of(rows(old(lines)@), count as nat),
{
    let ghost before = rows(lines@);
    lines.truncate(count);
    assert(rows(lines@) =~= first_of(before, count as nat));
}

/// Draws a list of paths.
fn render_list(
    title: &str,
    paths: &Vec<String>,
    selected: usize,
    hint: &str,
    home: Option<&str>,
    cols: usize,
    count: usize,
) -> (r: Vec<Line>)
    ensures
        rows(r@) == list_rows(
            title@,
            texts(paths@),
            selected as nat,
            hint@,
            opt_str(home),
            cols as nat,
            count as nat,
        ),
{
    let ghost hv = opt_str(home);
    let ghost pv = texts(paths@);
    let mut lines: Vec<Line> = Vec::new();
    assert(rows(lines@) =~= Seq::empty());
    push_line(&mut lines, text_line(cols, title, Color::BrightWhite));
    push_line(&mut lines, text_line(cols, "", Color::White));
    let ghost head = rows(lines@);
    let body: usize = if count.saturating_sub(4) < 1 {
        1
    } else {
        count.saturating_sub(4)
    };
    let ghost middle = Seq::new(
        body as nat,
        |i: int|
            if i < pv.len() {
                bar("  "@ + tilde_path(pv[i], hv), DIR_FG, i == selected, cols as nat)
            } else {
                column(""@, Color::White, Color::Background, cols as nat)
            },
    );
    let mut i: usize = 0;
    assert(head + middle.subrange(0, 0) =~= head);
    while i < body
        invariant
            i <= body,
            pv == texts(paths@),
            hv == opt_str(home),
            middle.len() == body,
            forall|k: int|
                0 <= k < body ==> #[trigger] middle[k] == (if k < pv.len() {
                    bar("  "@ + tilde_path(pv[k], hv), DIR_FG, k == selected, cols as nat)
                } else {
                    column(""@, Color::White, Color::Background, cols as nat)
                }),
            rows(lines@) == head + middle.subrange(0, i as int),
        decreases body - i,
    {
        assert(pv.len() == paths.len());
        if i < paths.len() {
            let shown = display_path(paths[i].as_str(), home);
            let mut label = "  ".to_owned();
            label.append(shown.as_str());
            push_line(&mut lines, bar_line(cols, label.as_str(), DIR_FG, i == selected));
        } else {
            push_line(&mut lines, text_line(cols, "", Color::White));
        }
        assert((head + middle.subrange(0, i as int)).push(middle[i as int]) =~= head
            + middle.subrange(0, i + 1));
        i += 1;
    }
    assert(middle.subrange(0, i as int) =~= middle);
    push_rule(&mut lines, cols);
    push_line(&mut lines, text_line(cols, hint, dim()));
    proof {
        assert(rows(lines@) =~= head + middle + seq![
            rule_row(cols as nat),
            column(hint@, dim(), Color::Background, cols as nat),
        ]);
        assert(head =~= seq![
            column(title@, Color::BrightWhite, Color::Background, cols as nat),
            column(""@, Color::White, Color::Background, cols as nat),
        ]);
    }
    cut_lines(&mut lines, count);
    lines
}

impl LauncherState {
    /// The directory whose entries stand beside the selected one.
    pub fn preview_dir(&self) -> (r: Option<String>)
        ensures
            opt_text(r) == (match current(self@) {
                None => None,
                Some((name, is_dir)) => if name == ".."@ {
                    parent(self@.dir)
                } else if is_dir {
                    Some(joined(self@.dir, name))
                } else {
                    None
                },
            }),
    {
        match self.current_entry() {
            None => None,
            Some(e) => if same_text(e.name.as_str(), "..") {
                parent_of(self.dir.as_str())
            } else if e.is_dir {
                Some(join(self.dir.as_str(), e.name.as_str()))
            } else {
                None
            },
        }
    }

    /// The entries that stand beside the selected one, from what was read of
    /// `preview_dir`. The parent directory is not among them.
    pub fn preview_entries(&self, raw: &Vec<RawEntry>) -> (r: Vec<Entry>)
        ensures
            entry_views(r@) == arranged(raw@, self.show_hidden, false),
    {
        read_entries(raw, self.show_hidden, false)
    }

    /// The mark of an entry.
    pub fn bookmark_mark(&self, entry: &Entry) -> (r: &'static str)
        ensures
            r@ == mark_of(self@, (entry.name@, entry.is_dir)),
    {
        if same_text(entry.name.as_str(), "..") || !entry.is_dir {
            return " ";
        }
        let path = join(self.canonical_dir.as_str(), entry.name.as_str());
        if self.bookmarks.contains(path.as_str()) {
            "★"
        } else {
            " "
        }
    }

    /// Draws the launcher. `preview` has the entries beside the selected one.
    pub fn render(
        &mut self,
        preview: &Vec<Entry>,
        agents: &Vec<AgentDef>,
        home: Option<&str>,
        panel: Color,
        cols: usize,
        count: usize,
    ) -> (r: Vec<Line>)
        requires
            1 <= count,
            cols <= 0xffff_ffff,
            agents.len() < 0x7fff_0000,
        ensures
            rows(r@) == launcher_rows(
                old(self)@,
                entry_views(preview@),
                names(agents@),
                opt_str(home),
                panel,
                cols as nat,
                count as nat,
            ),
            final(self)@ == after_drawing(old(self)@, count as nat),
    {
        match self.mode {
            Mode::Browse => self.render_browse(preview, home, cols, count),
            Mode::Recent => render_list(
                "最近使ったプロジェクト",
                &self.recent,
                self.recent_selected,
                "j/k:移動  Enter:開く  r/Esc:ブラウザへ戻る",
                home,
                cols,
                count,
            ),
            Mode::Bookmarks => render_list(
                "★ ブックマーク",
                &self.bookmarks.entries,
                self.bookmark_selected,
                "j/k:移動  Enter:開く  l:そこへ移動  m/d:外す  b/Esc:ブラウザへ戻る",
                home,
                cols,
                count,
            ),
            Mode::Agent => {
                let ghost m = self@;
                let mut lines = self.render_browse(preview, home, cols, count);
                let content = self.agent_content(agents, home, panel);
                assert(box_views(content@).len() == content.len());
                assert(box_views(content@) == agent_lines(m, names(agents@), opt_str(home), panel));
                overlay_box(&mut lines, &content, cols, count, panel);
                lines
            },
        }
    }

    fn render_browse(&mut self, preview: &Vec<Entry>, home: Option<&str>, cols: usize, count: usize)
        -> (r: Vec<Line>)
        requires
            cols <= 0xffff_ffff,
        ensures
            rows(r@) == browse_rows(
                old(self)@,
                entry_views(preview@),
                opt_str(home),
                cols as nat,
                count as nat,
            ),
            final(self)@ == (Launch {
                scroll: scrolled(old(self)@, body_of(count as nat, 5)),
                ..old(self)@
            }),
    {
        let ghost m = self@;
        let ghost pv = entry_views(preview@);
        let body: usize = if count.saturating_sub(5) < 1 {
            1
        } else {
            count.saturating_sub(5)
        };
        let v = self.visible_entry_indices();
        let ghost vv = visible(m);
        assert(vv.len() == v.len());
        let p = find_place(&v, self.selected);
        let place = if p < v.len() {
            p
        } else {
            0
        };
        if place < self.scroll {
            self.scroll = place;
        } else if place - self.scroll >= body {
            self.scroll = place - (body - 1);
        }
        let ghost s = self@;
        assert(s == (Launch { scroll: scrolled(m, body as nat), ..m }));
        assert(visible(s) == vv);
        let wide: u64 = cols.saturating_sub(3) as u64 * 2 / 5;
        let max: usize = if cols.saturating_sub(6) < 18 {
            18
        } else {
            cols.saturating_sub(6)
        };
        let left_w: usize = if wide < 18 {
            18
        } else if wide > max as u64 {
            max
        } else {
            wide as usize
        };
        assert(left_w == left_width(cols as nat));
        let right_w = cols.saturating_sub(left_w).saturating_sub(1);
        let mut lines: Vec<Line> = Vec::new();
        assert(rows(lines@) =~= Seq::empty());
        let mut segs: Vec<(String, Color)> = Vec::new();
        segs.push(("gototerm".to_owned(), DIR_FG));
        segs.push(("  開く場所を選ぶ".to_owned(), dim()));
        assert(seg_views(segs@) =~= seq![("gototerm"@, DIR_FG), ("  開く場所を選ぶ"@, dim())]);
        push_line(&mut lines, segments_line(cols, &segs));
        let shown = display_path(self.dir.as_str(), home);
        push_line(&mut lines, breadcrumb_line(cols, shown.as_str()));
        push_line(&mut lines, text_line(cols, "", Color::White));
        let ghost head = rows(lines@);
        let ghost middle = Seq::new(body as nat, |i: int| browse_row(s, pv, i, cols as nat));
        let mut i: usize = 0;
        assert(head + middle.subrange(0, 0) =~= head);
        while i < body
            invariant
                i <= body,
                s == self@,
                vv == visible(s),
                nats(v@) == vv,
                vv.len() == v.len(),
                forall|k: int| 0 <= k < v.len() ==> (#[trigger] v[k]) < self.entries.len(),
                pv == entry_views(preview@),
                left_w == left_width(cols as nat),
                right_w == sat_sub(cols as nat, left_width(cols as nat) + 1),
                middle.len() == body,
                forall|k: int|
                    0 <= k < body ==> #[trigger] middle[k] == browse_row(s, pv, k, cols as nat),
                rows(lines@) == head + middle.subrange(0, i as int),
            decreases body - i,
        {
            let scroll = self.scroll;
            let mut ltext = String::new();
            assert(ltext@ =~= Seq::empty());
            let mut lfg = Color::White;
            let mut selected = false;
            if scroll < v.len() && i < v.len() - scroll {
                let idx = v[scroll + i];
                assert(vv[scroll + i] == idx);
                let e = &self.entries[idx];
                assert(s.entries[idx as int] == (e.name@, e.is_dir));
                ltext = self.bookmark_mark(e).to_owned();
                let label = entry_label(e);
                ltext.append(label.as_str());
                let (_, fg) = icon_and_color(e.name.as_str(), e.is_dir);
                lfg = fg;
                selected = idx == self.selected;
            }
            let mut rtext = String::new();
            assert(rtext@ =~= Seq::empty());
            let mut rfg = Color::White;
            assert(pv.len() == preview.len());
            if i < preview.len() {
                let e = &preview[i];
                assert(pv[i as int] == (e.name@, e.is_dir));
                rtext = entry_label(e);
                let (_, fg) = icon_and_color(e.name.as_str(), e.is_dir);
                rfg = fg;
            }
            assert((ltext@, lfg) == left_text(s, scroll + i));
            assert((rtext@, rfg) == right_text(pv, i as int));
            push_line(
                &mut lines,
                two_pane_row(
                    ltext.as_str(),
                    lfg,
                    selected,
                    rtext.as_str(),
                    rfg,
                    left_w,
                    right_w,
                ),
            );
            assert((head + middle.subrange(0, i as int)).push(middle[i as int]) =~= head
                + middle.subrange(0, i + 1));
            i += 1;
        }
        assert(middle.subrange(0, i as int) =~= middle);
        push_rule(&mut lines, cols);
        let hint = match &self.filter {
            Some(q) => {
                let mut t = "検索: ".to_owned();
                t.append(q.as_str());
                t.append("_  ↑/↓:移動  l/→:入る  Enter:開く  Backspace/Esc:解除");
                t
            },
            None => "j/k:移動  l:入る  h:上へ  Enter:開く  o:既定アプリ  m:★登録  b:★一覧  .:隠し  r:最近  Esc:閉じる".to_owned(),
        };
        assert(hint@ == browse_hint(m));
        push_line(&mut lines, text_line(cols, hint.as_str(), dim()));
        proof {
            assert(rows(lines@) =~= head + middle + seq![
                rule_row(cols as nat),
                column(hint@, dim(), Color::Background, cols as nat),
            ]);
            assert(head =~= seq![
                segments_row(seq![("gototerm"@, DIR_FG), ("  開く場所を選ぶ"@, dim())], cols as nat),
                segments_row(breadcrumb(tilde_path(m.dir, opt_str(home))), cols as nat),
                column(""@, Color::White, Color::Background, cols as nat),
            ]);
        }
        cut_lines(&mut lines, count);
        lines
    }

    fn agent_content(&self, agents: &Vec<AgentDef>, home: Option<&str>, panel: Color) -> (r: Vec<
        BoxLine,
    >)
        requires
            agents.len() < 0x7fff_0000,
        ensures
            box_views(r@) == agent_lines(self@, names(agents@), opt_str(home), panel),
            r.len() == agents.len() + 6,
    {
        let ghost m = self@;
        let ghost tools = names(agents@);
        let mut out: Vec<BoxLine> = Vec::new();
        assert(box_views(out@) =~= Seq::empty());
        push_choice(&mut out, "何で開く？", accent(), false, panel);
        let subtitle = match &self.chosen_dir {
            Some(d) => display_path(d.as_str(), home),
            None => display_path(self.dir.as_str(), home),
        };
        push_choice(&mut out, subtitle.as_str(), dim(), false, panel);
        let empty = String::new();
        assert(empty@ =~= Seq::empty());
        push_choice(&mut out, empty.as_str(), Color::White, false, panel);
        push_choice(
            &mut out,
            "そのまま作業（シェル）",
            Color::BrightWhite,
            self.agent_selected == 0,
            panel,
        );
        let ghost head = box_views(out@);
        let ghost middle = Seq::new(
            tools.len(),
            |i: int| choice(tools[i], Color::BrightWhite, m.agent_selected == i + 1, panel),
        );
        let mut i: usize = 0;
        assert(head + middle.subrange(0, 0) =~= head);
        while i < agents.len()
            invariant
                i <= agents.len(),
                agents.len() < 0x7fff_0000,
                m == self@,
                tools == names(agents@),
                middle.len() == agents.len(),
                forall|k: int|
                    0 <= k < agents.len() ==> #[trigger] middle[k] == choice(
                        tools[k],
                        Color::BrightWhite,
                        m.agent_selected == k + 1,
                        panel,
                    ),
                box_views(out@) == head + middle.subrange(0, i as int),
                out.len() == 4 + i,
            decreases agents.len() - i,
        {
            push_choice(
                &mut out,
                agents[i].name.as_str(),
                Color::BrightWhite,
                self.agent_selected == i + 1,
                panel,
            );
            assert((head + middle.subrange(0, i as int)).push(middle[i as int]) =~= head
                + middle.subrange(0, i + 1));
            i += 1;
        }
        assert(middle.subrange(0, i as int) =~= middle);
        push_choice(&mut out, empty.as_str(), Color::White, false, panel);
        push_choice(&mut out, "j/k:選択  Enter:起動  Esc:戻る", dim(), false, panel);
        assert(box_views(out@) =~= agent_lines(m, tools, opt_str(home), panel));
        out
    }
}

fn push_choice(out: &mut Vec<BoxLine>, text: &str, fg: Color, selected: bool, panel: Color)
    ensures
        box_views(final(out)@) == box_views(old(out)@).push(choice(text@, fg, selected, panel)),
        final(out).len() == old(out).len() + 1,
{
    let ghost before = out@;
    let line = if selected {
        BoxLine { text: text.to_owned(), fg: SEL_FG, bg: sel_bg() }
    } else {
        BoxLine { text: text.to_owned(), fg, bg: panel }
    };
    out.push(line);
    assert(box_views(out@) =~= box_views(before).push(choice(text@, fg, selected, panel)));
}

/// The launcher on the screen.
#[derive(Debug)]
pub struct Launcher {
    pub viewport: Viewport,
    pub cell: CellSize,
    pub state: LauncherState,
    pub panel: Color,
    pub frame: Frame,
    /// The frame has not been drawn since it changed.
    pub updated: bool,
}

impl Launcher {
    /// A launcher that has not been drawn.
    pub fn new(viewport: Viewport, cell: CellSize, state: LauncherState, panel: Color) -> (r: Self)
        requires
            cell.w > 0,
            cell.h > 0,
        ensures
            r.viewport == viewport,
            r.cell == cell,
            r.state == state,
            r.panel == panel,
            r.frame.lines@.len() == 0,
            r.frame.images@.len() == 0,
            r.frame.bg_color == Color::Background,
            !r.frame.skip_default_bg,
            r.updated,
    {
        Launcher {
            viewport,
            cell,
            state,
            panel,
            frame: Frame {
                lines: Vec::new(),
                images: Vec::new(),
                bg_color: Color::Background,
                skip_default_bg: false,
            },
            updated: true,
        }
    }

    pub fn set_viewport(&mut self, viewport: Viewport)
        ensures
            *final(self) == (Launcher { viewport, updated: true, ..*old(self) }),
    {
        self.viewport = viewport;
        self.updated = true;
    }

    /// Takes the cell size of another font size.
    pub fn change_font_size(&mut self, cell: CellSize)
        requires
            cell.w > 0,
            cell.h > 0,
        ensures
            *final(self) == (Launcher { cell, updated: true, ..*old(self) }),
    {
        self.cell = cell;
        self.updated = true;
    }

    pub fn needs_redraw(&self) -> (r: bool)
        ensures
            r == self.updated,
    {
        self.updated
    }

    /// Draws the launcher anew.
    pub fn rebuild(&mut self, preview: &Vec<Entry>, agents: &Vec<AgentDef>, home: Option<&str>)
        requires
            old(self).cell.w > 0,
            old(self).cell.h > 0,
            agents.len() < 0x7fff_0000,
        ensures
            ({
                let cols = cells_in(old(self).viewport.w, old(self).cell.w);
                let count = cells_in(old(self).viewport.h, old(self).cell.h);
                &&& rows(final(self).frame.lines@) == launcher_rows(
                    old(self).state@,
                    entry_views(preview@),
                    names(agents@),
                    opt_str(home),
                    old(self).panel,
                    cols,
                    count,
                )
                &&& final(self).state@ == after_drawing(old(self).state@, count)
            }),
            final(self).frame.images.len() == 0,
            final(self).frame.bg_color == Color::Background,
            !final(self).frame.skip_default_bg,
            final(self).updated,
            final(self).viewport == old(self).viewport,
            final(self).cell == old(self).cell,
            final(self).panel == old(self).panel,
    {
        let cols = count_cells_in(self.viewport.w, self.cell.w);
        let count = count_cells_in(self.viewport.h, self.cell.h);
        let lines = self.state.render(preview, agents, home, self.panel, cols, count);
        self.frame = Frame {
            lines,
            images: Vec::new(),
            bg_color: Color::Background,
            skip_default_bg: false,
        };
        self.updated = true;
    }
}

// ---------------------------------------------------------------------------
// Laws
// ---------------------------------------------------------------------------

proof fn lemma_matches(entries: Seq<(Seq<char>, bool)>, q: Seq<char>, n: int)
    requires
        0 <= n <= entries.len(),
    ensures
        forall|i: int|
            0 <= i < matches(entries, q, n).len() ==> (#[trigger] matches(entries, q, n)[i]) < n
                && entry_matches(entries[matches(entries, q, n)[i] as int].0, q),
    decreases n,
{
    if n > 0 {
        lemma_matches(entries, q, n - 1);
        let before = matches(entries, q, n - 1);
        let all = matches(entries, q, n);
        assert forall|i: int| 0 <= i < all.len() implies (#[trigger] all[i]) < n && entry_matches(
            entries[all[i] as int].0,
            q,
        ) by {
            if i < before.len() {
                assert(all[i] == before[i]);
            }
        }
    }
}

/// Moving the selection selects an entry that is shown; while a search is
/// under way, one that matches.
pub proof fn law_moves_to_shown(m: Launch, down: bool)
    requires
        visible(m).len() > 0,
    ensures
        moved(m, down).selected < m.entries.len(),
        m.filter is Some ==> entry_matches(
            m.entries[moved(m, down).selected as int].0,
            m.filter->0,
        ),
        current(moved(m, down)) is Some,
{
    let v = visible(m);
    let p = stepped(selected_place(m), down, v.len() - 1);
    lemma_place(v, m.selected, 0);
    if m.filter is Some {
        lemma_matches(m.entries, m.filter->0, m.entries.len() as int);
    }
    let n = moved(m, down);
    assert(visible(n) == v);
    assert(n.selected == v[p]);
    lemma_found_place(v, p, 0);
}

proof fn lemma_place(v: Seq<nat>, x: nat, from: int)
    requires
        0 <= from <= v.len(),
    ensures
        from <= place_of(v, x, from) <= v.len(),
    decreases v.len() - from,
{
    if from < v.len() && v[from] != x {
        lemma_place(v, x, from + 1);
    }
}

proof fn lemma_found_place(v: Seq<nat>, p: int, from: int)
    requires
        0 <= from <= p < v.len(),
    ensures
        from <= place_of(v, v[p], from) <= p,
    decreases v.len() - from,
{
    if from < p && v[from] != v[p] {
        lemma_found_place(v, p, from + 1);
    }
}

/// Going up selects the directory come from, if it is listed.
pub proof fn law_ascend_selects_origin(
    m: Launch,
    entries: Seq<(Seq<char>, bool)>,
    canonical: Option<Seq<char>>,
    k: int,
)
    requires
        parent(m.dir) is Some,
        file_name(m.dir) is Some,
        0 <= k < entries.len(),
        entries[k].0 == file_name(m.dir)->0,
    ensures
        ({
            let (up, step) = ascended(m);
            let back = read_in(up, entries, canonical, step->select);
            back.selected < entries.len() && entries[back.selected as int].0 == file_name(m.dir)->0
        }),
{
    lemma_name_place(entries, file_name(m.dir)->0, 0, k);
}

proof fn lemma_name_place(entries: Seq<(Seq<char>, bool)>, name: Seq<char>, from: int, k: int)
    requires
        0 <= from <= k < entries.len(),
        entries[k].0 == name,
    ensures
        from <= name_place(entries, name, from) <= k,
        entries[name_place(entries, name, from)].0 == name,
    decreases entries.len() - from,
{
    if entries[from].0 != name {
        lemma_name_place(entries, name, from + 1, k);
    }
}

/// Enter on a directory, and on the way up, leads to the choice of a tool for
/// the directory that was found.
pub proof fn law_enter_chooses_dir(m: Launch, dir: Seq<char>)
    requires
        current(m) is Some,
        (current(m)->0).0 == ".."@ || (current(m)->0).1,
    ensures
        chosen(m) is Resolve,
        chosen(m)->purpose == Purpose::Agent,
        (current(m)->0).0 == ".."@ ==> chosen(m)->path == m.dir,
        found(m, Purpose::Agent, Some(dir)).0.mode == Mode::Agent,
        found(m, Purpose::Agent, Some(dir)).0.chosen == Some(dir),
{
}

/// The command of a tab: the shell, or a tool that leaves its place to the
/// shell when it ends.
pub open spec fn tab_command(shell: Seq<Seq<char>>, tool: Option<Seq<Seq<char>>>) -> Seq<Seq<char>> {
    match tool {
        None => shell,
        Some(t) => seq![shell[0], "-c"@, join_with(t, ' ') + "; exec "@ + shell[0]],
    }
}

/// The command of a tab.
pub fn shell_running(shell: &Vec<String>, tool: &Option<Vec<String>>) -> (r: Vec<String>)
    requires
        shell.len() > 0,
    ensures
        texts(r@) == tab_command(
            texts(shell@),
            match *tool {
                Some(t) => Some(texts(t@)),
                None => None,
            },
        ),
{
    match tool {
        None => copy_texts(shell),
        Some(t) => {
            let mut line = join_texts(t, ' ');
            line.append("; exec ");
            line.append(shell[0].as_str());
            let mut out: Vec<String> = Vec::new();
            out.push(shell[0].clone());
            out.push("-c".to_owned());
            out.push(line);
            assert(texts(shell@)[0] == shell[0]@);
            assert(texts(out@) =~= seq![shell[0]@, "-c"@, line@]);
            out
        },
    }
}

} // verus!
