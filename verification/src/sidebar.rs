//! The sidebar: the file list, the list of changes, and what they are doing.

use crate::entries::entry_views;
use crate::keys::KeyCode;
use crate::path::{file_name, file_name_of, join, joined, parent, parent_of, path_eq, same_path};
use crate::reader::{clamp_reader_scroll, reader_scroll_max, scroll_limit};
use crate::rows::{lesser, one_if, opt_view, row_views, sat_sub};
use crate::sidebar_rows::{draw_sidebar, sidebar_rows};
use crate::terminal::{rows, Cell, CellSize, Color};
use crate::text::{
    chars_of, copy_opt, has_prefix, is_printable, lowercase, opt_text, printable, same_text,
    starts_with, string_between, to_lower,
};
use crate::view::{click_row, inside, row_at, Frame, Viewport};
use crate::vt::ShellLocation;
use crate::watcher::{change_views, merge_kind, merged, ChangeKind, FileChange};
use crate::workspace::{Summary, WorkspaceInfo};
use vstd::prelude::*;
use vstd::string::*;

verus! {

/// The state of the working directory is asked for this often, in nanoseconds.
pub const REFRESH_INTERVAL: u64 = 5_000_000_000;

/// The rows of the file list, with the one for the parent directory and the
/// one that counts the rest.
pub const FILE_BROWSER_VISIBLE_ROWS: usize = 15;

/// The most entries of a directory that are listed.
pub const FILE_BROWSER_MAX_ENTRIES: usize = 500;

/// The most changes that are remembered.
pub const MAX_CHANGES: usize = 100;

/// How many changes are listed.
pub const LISTED_CHANGES: usize = 5;

#[derive(Debug, Clone, Copy, PartialEq, Eq, Structural)]
pub enum SidebarMode {
    Changes,
    Files,
}

/// What a row does.
#[derive(Debug)]
pub enum RowAction {
    ToggleMode,
    ToggleFollow,
    BrowseParent,
    BrowseDir(String),
    PreviewFile(String),
}

/// The contents of what a row does.
pub ghost enum Act {
    ToggleMode,
    ToggleFollow,
    BrowseParent,
    BrowseDir(Seq<char>),
    PreviewFile(Seq<char>),
}

impl View for RowAction {
    type V = Act;

    open spec fn view(&self) -> Act {
        match *self {
            RowAction::ToggleMode => Act::ToggleMode,
            RowAction::ToggleFollow => Act::ToggleFollow,
            RowAction::BrowseParent => Act::BrowseParent,
            RowAction::BrowseDir(p) => Act::BrowseDir(p@),
            RowAction::PreviewFile(p) => Act::PreviewFile(p@),
        }
    }
}

impl Clone for RowAction {
    fn clone(&self) -> (r: Self)
        ensures
            r@ == self@,
    {
        match self {
            RowAction::ToggleMode => RowAction::ToggleMode,
            RowAction::ToggleFollow => RowAction::ToggleFollow,
            RowAction::BrowseParent => RowAction::BrowseParent,
            RowAction::BrowseDir(p) => RowAction::BrowseDir(p.clone()),
            RowAction::PreviewFile(p) => RowAction::PreviewFile(p.clone()),
        }
    }
}

/// Whether two rows do the same.
pub open spec fn same_act(a: Act, b: Act) -> bool {
    match (a, b) {
        (Act::ToggleMode, Act::ToggleMode) => true,
        (Act::ToggleFollow, Act::ToggleFollow) => true,
        (Act::BrowseParent, Act::BrowseParent) => true,
        (Act::BrowseDir(p), Act::BrowseDir(q)) => path_eq(p, q),
        (Act::PreviewFile(p), Act::PreviewFile(q)) => path_eq(p, q),
        _ => false,
    }
}

impl RowAction {
    /// Whether two rows do the same.
    pub fn same(&self, other: &RowAction) -> (r: bool)
        ensures
            r == same_act(self@, other@),
    {
        match (self, other) {
            (RowAction::ToggleMode, RowAction::ToggleMode) => true,
            (RowAction::ToggleFollow, RowAction::ToggleFollow) => true,
            (RowAction::BrowseParent, RowAction::BrowseParent) => true,
            (RowAction::BrowseDir(p), RowAction::BrowseDir(q)) => same_path(p.as_str(), q.as_str()),
            (RowAction::PreviewFile(p), RowAction::PreviewFile(q)) => same_path(
                p.as_str(),
                q.as_str(),
            ),
            _ => false,
        }
    }
}

/// What the sidebar asks for.
#[derive(Debug)]
pub enum SidebarRequest {
    PreviewFile(String),
    ScrollPreview(i64),
    EditPreview,
    OpenPreview,
}

/// The contents of what the sidebar asks for.
pub ghost enum Ask {
    PreviewFile(Seq<char>),
    ScrollPreview(int),
    EditPreview,
    OpenPreview,
}

impl View for SidebarRequest {
    type V = Ask;

    open spec fn view(&self) -> Ask {
        match *self {
            SidebarRequest::PreviewFile(p) => Ask::PreviewFile(p@),
            SidebarRequest::ScrollPreview(d) => Ask::ScrollPreview(d as int),
            SidebarRequest::EditPreview => Ask::EditPreview,
            SidebarRequest::OpenPreview => Ask::OpenPreview,
        }
    }
}

/// What became of a key.
#[derive(Debug)]
pub enum SidebarKeyResult {
    Consumed,
    ReleaseFocus,
    Request(SidebarRequest),
}

/// The contents of what became of a key.
pub ghost enum KeyOutcome {
    Consumed,
    ReleaseFocus,
    Request(Ask),
}

impl View for SidebarKeyResult {
    type V = KeyOutcome;

    open spec fn view(&self) -> KeyOutcome {
        match *self {
            SidebarKeyResult::Consumed => KeyOutcome::Consumed,
            SidebarKeyResult::ReleaseFocus => KeyOutcome::ReleaseFocus,
            SidebarKeyResult::Request(q) => KeyOutcome::Request(q@),
        }
    }
}

/// What was seen last of the tool at work.
#[derive(Debug)]
pub struct AiActivity {
    pub kind: ChangeKind,
    pub path: String,
    pub tool: Option<String>,
    pub at: u64,
}

/// The contents of what was seen last of the tool at work.
pub ghost struct Activity {
    pub kind: ChangeKind,
    pub path: Seq<char>,
    pub tool: Option<Seq<char>>,
    pub at: u64,
}

impl View for AiActivity {
    type V = Activity;

    open spec fn view(&self) -> Activity {
        Activity { kind: self.kind, path: self.path@, tool: opt_text(self.tool), at: self.at }
    }
}

/// Work to be done in the background.
#[derive(Debug)]
pub enum SidebarTask {
    CollectWorkspace(String),
    ReadDir(String),
    SpawnWatcher(String),
}

/// The contents of work to be done in the background.
pub ghost enum Task {
    CollectWorkspace(Seq<char>),
    ReadDir(Seq<char>),
    SpawnWatcher(Seq<char>),
}

impl View for SidebarTask {
    type V = Task;

    open spec fn view(&self) -> Task {
        match *self {
            SidebarTask::CollectWorkspace(p) => Task::CollectWorkspace(p@),
            SidebarTask::ReadDir(p) => Task::ReadDir(p@),
            SidebarTask::SpawnWatcher(p) => Task::SpawnWatcher(p@),
        }
    }
}

/// The contents of tasks.
pub open spec fn task_views(v: Seq<SidebarTask>) -> Seq<Task> {
    Seq::new(v.len(), |i: int| v[i]@)
}

/// What has become of a watcher that is being set up.
#[derive(Debug, Clone, Copy, PartialEq, Eq, Structural)]
pub enum WatcherPoll {
    Waiting,
    Ready { partial: bool },
    Failed,
    /// Whoever set it up is gone.
    Lost,
}

/// What has become of the reading of a directory.
#[derive(Debug)]
pub enum BrowsePoll {
    Waiting,
    Done(Result<Vec<(String, bool)>, String>),
    /// Whoever read it is gone.
    Lost,
}

/// What has become of the question about the working directory.
#[derive(Debug)]
pub enum WorkspacePoll {
    Waiting,
    Done(WorkspaceInfo),
    /// Whoever asked is gone.
    Lost,
}

/// What has become of the work in the background.
#[derive(Debug)]
pub struct SidebarPoll {
    pub watcher: WatcherPoll,
    /// The changes the watcher has seen, and whether it watches only in part.
    pub drained: Vec<FileChange>,
    pub partial: bool,
    pub browse: BrowsePoll,
    pub workspace: WorkspacePoll,
}

/// The contents of the state of a working directory.
pub open spec fn info_view(i: WorkspaceInfo) -> (Seq<char>, Option<Summary>) {
    (
        i.cwd@,
        match i.git {
            Some(g) => Some(g@),
            None => None,
        },
    )
}

/// The state of the sidebar.
pub ghost struct Side {
    pub viewport: Viewport,
    pub cell: CellSize,
    pub visible: bool,
    pub info: Option<(Seq<char>, Option<Summary>)>,
    pub info_pending: Option<Seq<char>>,
    pub last_refresh: Option<u64>,
    pub changes: Seq<(Seq<char>, ChangeKind)>,
    pub mode: SidebarMode,
    pub dir: Seq<char>,
    pub entries: Seq<(Seq<char>, bool)>,
    pub dir_pending: Option<Seq<char>>,
    pub dir_error: bool,
    pub scroll: nat,
    pub focused: bool,
    pub selected: nat,
    pub search: Option<Seq<char>>,
    pub watcher: Option<bool>,
    pub watcher_pending: Option<Seq<char>>,
    pub root: Option<Seq<char>>,
    pub watch_failed: bool,
    pub remote: Option<(Seq<char>, Seq<char>)>,
    pub follow_target: Option<Seq<char>>,
    pub frozen: bool,
    pub activity: Option<Activity>,
    /// The name of the tool at work.
    pub agent: Seq<char>,
    pub tasks: Seq<Task>,
    /// The cells of the rows as they were made last.
    pub lines: Seq<Seq<Cell>>,
    /// What these rows do.
    pub acts: Seq<Option<Act>>,
    /// The rows have not been drawn since they were made.
    pub updated: bool,
}

/// What rows do.
pub open spec fn act_views(v: Seq<Option<RowAction>>) -> Seq<Option<Act>> {
    Seq::new(v.len(), |i: int| opt_view(v[i]))
}

/// The cells of rows.
pub open spec fn row_cells(r: Seq<(Seq<Cell>, Option<Act>)>) -> Seq<Seq<Cell>> {
    Seq::new(r.len(), |i: int| r[i].0)
}

/// What rows do.
pub open spec fn row_acts(r: Seq<(Seq<Cell>, Option<Act>)>) -> Seq<Option<Act>> {
    Seq::new(r.len(), |i: int| r[i].1)
}

/// The rows that were made last are those of the state at a time.
pub open spec fn shows(m: Side, now: u64) -> bool {
    m.lines == row_cells(sidebar_rows(m, now)) && m.acts == row_acts(sidebar_rows(m, now))
}

/// The sidebar with its rows made anew, if it is shown.
pub open spec fn redrawn(m: Side, now: u64) -> Side {
    if m.visible {
        Side {
            lines: row_cells(sidebar_rows(m, now)),
            acts: row_acts(sidebar_rows(m, now)),
            updated: true,
            ..m
        }
    } else {
        m
    }
}

/// While the sidebar is hidden it knows of no other machine, and a watcher is
/// only waited for where it is to watch.
pub open spec fn sound(m: Side) -> bool {
    &&& !m.visible ==> m.remote is None
    &&& m.watcher_pending is Some ==> m.root == m.watcher_pending
}

/// The sidebar. Times are in nanoseconds.
#[derive(Debug)]
pub struct Sidebar {
    pub viewport: Viewport,
    pub cell: CellSize,
    pub visible: bool,
    pub info: Option<WorkspaceInfo>,
    pub info_pending: Option<String>,
    pub last_refresh: Option<u64>,
    pub changes: Vec<FileChange>,
    pub mode: SidebarMode,
    pub browse_dir: String,
    pub browse_entries: Vec<(String, bool)>,
    pub browse_pending: Option<String>,
    pub browse_error: bool,
    pub browse_scroll: usize,
    pub row_actions: Vec<Option<RowAction>>,
    pub focused: bool,
    pub browse_selected: usize,
    /// What is searched for, while a search is under way.
    pub search: Option<String>,
    /// Whether the watcher, if there is one, watches only in part.
    pub watcher: Option<bool>,
    pub watcher_pending: Option<String>,
    pub watcher_root: Option<String>,
    pub watch_failed: bool,
    pub remote_location: Option<(String, String)>,
    pub follow_target: Option<String>,
    /// The preview does not go to the newest change.
    pub follow_frozen: bool,
    pub ai_activity: Option<AiActivity>,
    /// The name of the tool at work.
    pub agent: String,
    pub tasks: Vec<SidebarTask>,
    pub frame: Frame,
    /// The frame has not been drawn since it changed.
    pub updated: bool,
}

impl View for Sidebar {
    type V = Side;

    open spec fn view(&self) -> Side {
        Side {
            viewport: self.viewport,
            cell: self.cell,
            visible: self.visible,
            info: match self.info {
                Some(i) => Some(info_view(i)),
                None => None,
            },
            info_pending: opt_text(self.info_pending),
            last_refresh: self.last_refresh,
            changes: change_views(self.changes@),
            mode: self.mode,
            dir: self.browse_dir@,
            entries: entry_views(self.browse_entries@),
            dir_pending: opt_text(self.browse_pending),
            dir_error: self.browse_error,
            scroll: self.browse_scroll as nat,
            focused: self.focused,
            selected: self.browse_selected as nat,
            search: opt_text(self.search),
            watcher: self.watcher,
            watcher_pending: opt_text(self.watcher_pending),
            root: opt_text(self.watcher_root),
            watch_failed: self.watch_failed,
            remote: match self.remote_location {
                Some((h, p)) => Some((h@, p@)),
                None => None,
            },
            follow_target: opt_text(self.follow_target),
            frozen: self.follow_frozen,
            activity: match self.ai_activity {
                Some(a) => Some(a@),
                None => None,
            },
            agent: self.agent@,
            tasks: task_views(self.tasks@),
            lines: rows(self.frame.lines@),
            acts: act_views(self.row_actions@),
            updated: self.updated,
        }
    }
}

// ---------------------------------------------------------------------------
// Scrolling and selection
// ---------------------------------------------------------------------------

/// A position, or the last one to scroll to if it is beyond that.
pub fn clamp_browse_scroll(offset: usize, len: usize, visible: usize) -> (r: usize)
    ensures
        r == lesser(offset as nat, scroll_limit(len as nat, visible as nat)),
{
    clamp_reader_scroll(offset, len, visible)
}

/// Where to scroll so that the selected one of `len` entries is among the
/// `visible` ones, moving as little as possible.
pub open spec fn kept_visible(scroll: nat, selected: nat, len: nat, visible: nat) -> nat {
    let s = lesser(scroll, scroll_limit(len, visible));
    if visible == 0 || len == 0 {
        s
    } else if selected < s {
        selected
    } else if selected >= s + visible {
        lesser((selected + 1 - visible) as nat, scroll_limit(len, visible))
    } else {
        s
    }
}

/// Where to scroll so that the selected entry is shown.
pub fn keep_selection_visible(scroll: usize, selected: usize, len: usize, visible: usize) -> (r: usize)
    ensures
        r == kept_visible(scroll as nat, selected as nat, len as nat, visible as nat),
{
    let s = clamp_browse_scroll(scroll, len, visible);
    if visible == 0 || len == 0 {
        return s;
    }
    if selected < s {
        selected
    } else if selected - s >= visible {
        clamp_browse_scroll(selected - (visible - 1), len, visible)
    } else {
        s
    }
}

/// A selected entry is shown, and the list is not scrolled beyond its end.
pub proof fn law_selection_visible(scroll: nat, selected: nat, len: nat, visible: nat)
    requires
        visible > 0,
        selected < len,
    ensures
        ({
            let s = kept_visible(scroll, selected, len, visible);
            s <= selected < s + visible && s <= scroll_limit(len, visible)
        }),
{
}

/// One row for the parent directory, where there is one.
pub open spec fn parent_rows(m: Side) -> nat {
    one_if(parent(m.dir) is Some)
}

/// The rows for entries: a long list leaves one for the count of the rest.
pub open spec fn slots_for(dir: Seq<char>, len: nat) -> nat {
    let base = sat_sub(FILE_BROWSER_VISIBLE_ROWS as nat, one_if(parent(dir) is Some));
    if len > base {
        sat_sub(base, 1)
    } else {
        base
    }
}

/// The rows for entries.
pub open spec fn entry_slots(m: Side) -> nat {
    slots_for(m.dir, m.entries.len())
}

/// How many rows can be selected.
pub open spec fn selectable(m: Side) -> nat {
    match m.mode {
        SidebarMode::Changes => lesser(m.changes.len(), LISTED_CHANGES as nat),
        SidebarMode::Files => m.entries.len() + parent_rows(m),
    }
}

/// The sidebar with a row selected, or the last if there are fewer.
pub open spec fn selecting(m: Side, selected: nat, now: u64) -> Side {
    let len = selectable(m);
    if len == 0 {
        Side { selected: 0, ..m }
    } else {
        let s = lesser(selected, (len - 1) as nat);
        let scroll = if m.mode == SidebarMode::Files && s >= parent_rows(m) {
            kept_visible(
                m.scroll,
                (s - parent_rows(m)) as nat,
                m.entries.len(),
                entry_slots(m),
            )
        } else {
            m.scroll
        };
        redrawn(Side { selected: s, scroll, ..m }, now)
    }
}

/// The sidebar with the selection moved.
pub open spec fn moving(m: Side, delta: int, now: u64) -> Side {
    let len = selectable(m);
    if len == 0 {
        Side { selected: 0, ..m }
    } else {
        let current = lesser(m.selected, (len - 1) as nat);
        selecting(
            m,
            if current + delta < 0 {
                0
            } else {
                (current + delta) as nat
            },
            now,
        )
    }
}

/// The directory changes are relative to.
pub open spec fn change_root(m: Side) -> Seq<char> {
    match m.root {
        Some(r) => r,
        None => Seq::empty(),
    }
}

/// What an entry of the file list does.
pub open spec fn entry_act(m: Side, i: int) -> Act {
    let path = joined(m.dir, m.entries[i].0);
    if m.entries[i].1 {
        Act::BrowseDir(path)
    } else {
        Act::PreviewFile(path)
    }
}

/// What the selected row does.
pub open spec fn selected_act(m: Side) -> Option<Act> {
    match m.mode {
        SidebarMode::Changes => if m.remote is Some || m.selected >= m.changes.len() {
            None
        } else {
            Some(Act::PreviewFile(joined(change_root(m), m.changes[m.selected as int].0)))
        },
        SidebarMode::Files => if m.selected < parent_rows(m) {
            Some(Act::BrowseParent)
        } else if m.selected - parent_rows(m) < m.entries.len() {
            Some(entry_act(m, m.selected - parent_rows(m)))
        } else {
            None
        },
    }
}

// ---------------------------------------------------------------------------
// What happens
// ---------------------------------------------------------------------------

/// The directory is read.
pub open spec fn reading(m: Side) -> Side {
    Side {
        entries: Seq::empty(),
        dir_error: false,
        dir_pending: Some(m.dir),
        tasks: m.tasks.push(Task::ReadDir(m.dir)),
        ..m
    }
}

/// Another directory is listed.
pub open spec fn entering(m: Side, dir: Seq<char>, now: u64) -> Side {
    redrawn(reading(Side { dir, search: None, scroll: 0, selected: 0, ..m }), now)
}

/// The other list is shown.
pub open spec fn switched(m: Side, now: u64) -> Side {
    let s = Side {
        mode: if m.mode == SidebarMode::Changes {
            SidebarMode::Files
        } else {
            SidebarMode::Changes
        },
        search: None,
        selected: 0,
        scroll: 0,
        ..m
    };
    redrawn(
        if s.mode == SidebarMode::Files && s.entries.len() == 0 {
            reading(s)
        } else {
            s
        },
        now,
    )
}

/// Following is stopped or taken up again. What was to be followed when it is
/// stopped is forgotten.
pub open spec fn frozen_switched(m: Side, now: u64) -> Side {
    redrawn(
        Side {
            frozen: !m.frozen,
            follow_target: if !m.frozen {
                None
            } else {
                m.follow_target
            },
            ..m
        },
        now,
    )
}

/// A row is used: the sidebar after it, and what it asks for.
#[verifier::opaque]
pub open spec fn performed(m: Side, a: Act, now: u64) -> (Side, Option<Ask>) {
    match a {
        Act::ToggleMode => (switched(m, now), None),
        Act::ToggleFollow => (frozen_switched(m, now), None),
        Act::BrowseParent => match parent(m.dir) {
            Some(p) => (entering(m, p, now), None),
            None => (m, None),
        },
        Act::BrowseDir(p) => (entering(m, p, now), None),
        Act::PreviewFile(p) => (m, Some(Ask::PreviewFile(p))),
    }
}

/// What the row at a pixel does, as the rows were made last.
pub open spec fn act_at(m: Side, x: int, y: int) -> Option<Act> {
    let k = row_at(m.viewport, m.cell.h, y);
    if m.visible && inside(m.viewport, x, y) && k < m.acts.len() {
        m.acts[k as int]
    } else {
        None
    }
}

/// A click at a pixel: the sidebar after it, and what it asks for.
pub open spec fn clicked(m: Side, x: int, y: int, now: u64) -> (Side, Option<Ask>) {
    match act_at(m, x, y) {
        Some(a) => performed(m, a, now),
        None => (m, None),
    }
}

/// Whether a key outcome asks for something.
pub open spec fn outcome(q: Option<Ask>) -> KeyOutcome {
    match q {
        Some(a) => KeyOutcome::Request(a),
        None => KeyOutcome::Consumed,
    }
}

/// The rows by which the preview is scrolled.
pub open spec fn page_step(m: Side) -> nat {
    match m.mode {
        SidebarMode::Changes => LISTED_CHANGES as nat,
        SidebarMode::Files => if entry_slots(m) == 0 {
            1
        } else {
            entry_slots(m)
        },
    }
}

/// A key in the list.
pub open spec fn list_keyed(m: Side, code: KeyCode, now: u64) -> (Side, KeyOutcome) {
    match code {
        KeyCode::ArrowUp | KeyCode::KeyK => (moving(m, -1, now), KeyOutcome::Consumed),
        KeyCode::ArrowDown | KeyCode::KeyJ => (moving(m, 1, now), KeyOutcome::Consumed),
        KeyCode::PageUp => (m, KeyOutcome::Request(Ask::ScrollPreview(-page_step(m)))),
        KeyCode::PageDown => (m, KeyOutcome::Request(Ask::ScrollPreview(page_step(m) as int))),
        KeyCode::Home => (selecting(m, 0, now), KeyOutcome::Consumed),
        KeyCode::End => (selecting(m, sat_sub(selectable(m), 1), now), KeyOutcome::Consumed),
        KeyCode::Enter | KeyCode::ArrowRight | KeyCode::KeyL => match selected_act(m) {
            Some(a) => (performed(m, a, now).0, outcome(performed(m, a, now).1)),
            None => (m, KeyOutcome::Consumed),
        },
        KeyCode::Backspace | KeyCode::ArrowLeft | KeyCode::KeyH => if m.mode == SidebarMode::Files {
            (performed(m, Act::BrowseParent, now).0, KeyOutcome::Consumed)
        } else {
            (m, KeyOutcome::Consumed)
        },
        KeyCode::Tab => (switched(m, now), KeyOutcome::Consumed),
        KeyCode::KeyE => (m, KeyOutcome::Request(Ask::EditPreview)),
        KeyCode::KeyO => (m, KeyOutcome::Request(Ask::OpenPreview)),
        _ => (m, KeyOutcome::Consumed),
    }
}

/// The first entry from `from` on whose name begins with what is searched
/// for, whatever its case; the number of entries where there is none.
pub open spec fn entry_match(entries: Seq<(Seq<char>, bool)>, low: Seq<char>, from: int) -> int
    decreases entries.len() - from,
{
    if from >= entries.len() || has_prefix(lowercase(entries[from].0), low) {
        from
    } else {
        entry_match(entries, low, from + 1)
    }
}

/// Whether the name of a changed file begins with what is searched for.
pub open spec fn change_matches(path: Seq<char>, low: Seq<char>) -> bool {
    match file_name(path) {
        Some(n) => has_prefix(lowercase(n), low),
        None => false,
    }
}

/// The first listed change from `from` on that matches.
pub open spec fn change_match(
    changes: Seq<(Seq<char>, ChangeKind)>,
    low: Seq<char>,
    from: int,
) -> int
    decreases changes.len() - from,
{
    if from >= changes.len() || from >= LISTED_CHANGES || change_matches(changes[from].0, low) {
        from
    } else {
        change_match(changes, low, from + 1)
    }
}

/// The selection goes to the first row that matches the search, if any does.
pub open spec fn jumped(m: Side, now: u64) -> Side {
    match m.search {
        None => m,
        Some(q) => if q.len() == 0 {
            redrawn(m, now)
        } else {
            match m.mode {
                SidebarMode::Files => {
                    let i = entry_match(m.entries, lowercase(q), 0);
                    if i < m.entries.len() {
                        selecting(m, parent_rows(m) + i as nat, now)
                    } else {
                        redrawn(m, now)
                    }
                },
                SidebarMode::Changes => {
                    let i = change_match(m.changes, lowercase(q), 0);
                    if i < m.changes.len() && i < LISTED_CHANGES {
                        selecting(m, i as nat, now)
                    } else {
                        redrawn(m, now)
                    }
                },
            }
        },
    }
}

/// A text without its last character.
pub open spec fn without_last(s: Seq<char>) -> Seq<char> {
    if s.len() == 0 {
        s
    } else {
        s.drop_last()
    }
}

/// A key while a search is under way.
pub open spec fn search_keyed(m: Side, code: KeyCode, text: Option<Seq<char>>, now: u64) -> Side {
    match m.search {
        None => m,
        Some(q) => match code {
            KeyCode::Escape | KeyCode::Enter => redrawn(Side { search: None, ..m }, now),
            KeyCode::Backspace => jumped(Side { search: Some(without_last(q)), ..m }, now),
            _ => match text {
                Some(t) => if t.len() > 0 && printable(t) {
                    jumped(Side { search: Some(q + t), ..m }, now)
                } else {
                    m
                },
                None => m,
            },
        },
    }
}

/// A key: while a search is under way it is a line of input, otherwise Escape
/// gives up the focus, a slash begins a search, and the rest is for the list.
#[verifier::opaque]
pub open spec fn keyed(m: Side, code: KeyCode, text: Option<Seq<char>>, now: u64) -> (
    Side,
    KeyOutcome,
) {
    if m.search is Some {
        (search_keyed(m, code, text, now), KeyOutcome::Consumed)
    } else if code == KeyCode::Escape {
        (m, KeyOutcome::ReleaseFocus)
    } else if text == Some("/"@) {
        (redrawn(Side { search: Some(Seq::empty()), ..m }, now), KeyOutcome::Consumed)
    } else {
        list_keyed(m, code, now)
    }
}

/// The wheel: the file list scrolls, as far as it goes.
#[verifier::opaque]
pub open spec fn scrolled(m: Side, delta: int, now: u64) -> Side {
    if !m.visible || delta == 0 || m.mode != SidebarMode::Files {
        m
    } else {
        let next = if m.scroll - delta < 0 {
            0
        } else {
            (m.scroll - delta) as nat
        };
        let scroll = lesser(next, scroll_limit(m.entries.len(), entry_slots(m)));
        if scroll == m.scroll {
            m
        } else {
            redrawn(Side { scroll, ..m }, now)
        }
    }
}

/// Everything that is known of the local file system is forgotten, and the
/// rows do nothing any more.
pub open spec fn forgotten(m: Side) -> Side {
    Side {
        info_pending: None,
        watcher: None,
        watcher_pending: None,
        root: None,
        watch_failed: false,
        changes: Seq::empty(),
        mode: SidebarMode::Files,
        entries: Seq::empty(),
        dir_pending: None,
        dir_error: false,
        scroll: 0,
        selected: 0,
        follow_target: None,
        activity: None,
        acts: Seq::empty(),
        ..m
    }
}

/// Where a path is among changes from `from` on; their number where it is not.
pub open spec fn change_index(
    changes: Seq<(Seq<char>, ChangeKind)>,
    path: Seq<char>,
    from: int,
) -> int
    decreases changes.len() - from,
{
    if from >= changes.len() || path_eq(changes[from].0, path) {
        from
    } else {
        change_index(changes, path, from + 1)
    }
}

/// The changes with one more: it comes first, merged with an earlier change of
/// the same file. The second result is the merged kind.
pub open spec fn noted(
    changes: Seq<(Seq<char>, ChangeKind)>,
    path: Seq<char>,
    kind: ChangeKind,
) -> (Seq<(Seq<char>, ChangeKind)>, ChangeKind) {
    let k = change_index(changes, path, 0);
    if k < changes.len() {
        let both = merged(Some(changes[k].1), kind);
        (changes.remove(k).insert(0, (path, both)), both)
    } else {
        (changes.insert(0, (path, merged(None, kind))), merged(None, kind))
    }
}

/// At most so many changes, the newest.
pub open spec fn newest(changes: Seq<(Seq<char>, ChangeKind)>) -> Seq<(Seq<char>, ChangeKind)> {
    if changes.len() > MAX_CHANGES {
        changes.subrange(0, MAX_CHANGES as int)
    } else {
        changes
    }
}

/// The changes and what to follow after changes below `root` were noted.
pub open spec fn noted_all(
    changes: Seq<(Seq<char>, ChangeKind)>,
    follow: Option<Seq<char>>,
    root: Seq<char>,
    new: Seq<(Seq<char>, ChangeKind)>,
) -> (Seq<(Seq<char>, ChangeKind)>, Option<Seq<char>>)
    decreases new.len(),
{
    if new.len() == 0 {
        (changes, follow)
    } else {
        let (before, f) = noted_all(changes, follow, root, new.drop_last());
        let (path, kind) = new.last();
        let (after, both) = noted(before, path, kind);
        (
            after,
            if both == ChangeKind::Deleted {
                f
            } else {
                Some(joined(root, path))
            },
        )
    }
}

/// Changes below `root` were seen.
pub open spec fn changed(m: Side, root: Seq<char>, new: Seq<(Seq<char>, ChangeKind)>) -> Side {
    let (c, f) = noted_all(m.changes, m.follow_target, root, new);
    Side { changes: newest(c), follow_target: f, ..m }
}

/// Another directory is the root of the list of files.
pub open spec fn rerooted(m: Side, dir: Seq<char>) -> Side {
    let s = Side {
        dir,
        entries: Seq::empty(),
        dir_pending: None,
        dir_error: false,
        scroll: 0,
        selected: 0,
        ..m
    };
    if s.mode == SidebarMode::Files {
        reading(s)
    } else {
        s
    }
}

/// Whether another directory is watched.
pub open spec fn watches_other(m: Side, cwd: Seq<char>) -> bool {
    m.root is None || !path_eq(m.root->0, cwd)
}

/// Another directory is to be watched: what was seen in the other is forgotten.
pub open spec fn rewatched(m: Side, cwd: Seq<char>) -> Side {
    let s = rerooted(
        Side {
            changes: Seq::empty(),
            watcher: None,
            watch_failed: false,
            root: Some(cwd),
            follow_target: None,
            ..m
        },
        cwd,
    );
    Side {
        watcher_pending: Some(cwd),
        tasks: s.tasks.push(Task::SpawnWatcher(cwd)),
        ..s
    }
}

/// The watcher being set up was heard of: the sidebar after it, and whether
/// that changes what is shown.
pub open spec fn watcher_heard(m: Side, p: WatcherPoll) -> (Side, bool) {
    match m.watcher_pending {
        None => (m, false),
        Some(pending) => {
            let current = m.root is Some && path_eq(m.root->0, pending);
            match p {
                WatcherPoll::Waiting => (m, false),
                WatcherPoll::Ready { partial } => if current {
                    (Side { watcher_pending: None, watcher: Some(partial), ..m }, true)
                } else {
                    (Side { watcher_pending: None, ..m }, false)
                },
                WatcherPoll::Failed => if current {
                    (Side { watcher_pending: None, watch_failed: true, ..m }, true)
                } else {
                    (Side { watcher_pending: None, ..m }, false)
                },
                WatcherPoll::Lost => (
                    Side { watcher_pending: None, watch_failed: true, ..m },
                    true,
                ),
            }
        },
    }
}

/// The working directory is watched: the sidebar after what came in, and
/// whether that changes what is shown. What a watcher saw counts from when it
/// is ready. When another directory is to be watched, nothing that came in
/// counts.
pub open spec fn drained(
    m: Side,
    cwd: Seq<char>,
    p: WatcherPoll,
    new: Seq<(Seq<char>, ChangeKind)>,
    partial: bool,
) -> (Side, bool) {
    if watches_other(m, cwd) {
        (rewatched(m, cwd), true)
    } else {
        let (s, heard) = watcher_heard(m, p);
        if s.watcher is Some {
            (
                changed(Side { watcher: Some(partial), ..s }, cwd, new),
                heard || new.len() > 0,
            )
        } else {
            (s, heard)
        }
    }
}

/// The directory that was read is taken up.
pub open spec fn listed(m: Side, result: Result<Seq<(Seq<char>, bool)>, Seq<char>>) -> Side {
    match result {
        Ok(entries) => Side {
            scroll: lesser(
                m.scroll,
                scroll_limit(entries.len(), slots_for(m.dir, entries.len())),
            ),
            entries,
            selected: lesser(m.selected, sat_sub(entries.len() + parent_rows(m), 1)),
            dir_error: false,
            ..m
        },
        Err(_) => Side { entries: Seq::empty(), dir_error: true, ..m },
    }
}

/// The contents of a read directory.
pub open spec fn read_view(r: Result<Vec<(String, bool)>, String>) -> Result<
    Seq<(Seq<char>, bool)>,
    Seq<char>,
> {
    match r {
        Ok(v) => Ok(entry_views(v@)),
        Err(e) => Err(e@),
    }
}

/// The reading of the directory was heard of: the sidebar after it, and
/// whether that changes what is shown. A directory no longer listed does not
/// count.
pub open spec fn dir_heard(m: Side, p: BrowsePoll) -> (Side, bool) {
    match m.dir_pending {
        None => (m, false),
        Some(pending) => match p {
            BrowsePoll::Waiting => (m, false),
            BrowsePoll::Done(result) => if path_eq(pending, m.dir) {
                (Side { dir_pending: None, ..listed(m, read_view(result)) }, true)
            } else {
                (Side { dir_pending: None, ..m }, true)
            },
            BrowsePoll::Lost => (
                Side { dir_pending: None, entries: Seq::empty(), dir_error: true, ..m },
                true,
            ),
        },
    }
}

/// The question about the working directory was heard of.
pub open spec fn workspace_heard(m: Side, p: WorkspacePoll) -> (Side, bool) {
    match m.info_pending {
        None => (m, false),
        Some(_) => match p {
            WorkspacePoll::Waiting => (m, false),
            WorkspacePoll::Done(info) => (
                Side { info: Some(info_view(info)), info_pending: None, ..m },
                true,
            ),
            WorkspacePoll::Lost => (Side { info_pending: None, ..m }, false),
        },
    }
}

/// Everything about the working directory is asked for anew.
pub open spec fn refreshed(m: Side, cwd: Seq<char>, now: u64) -> Side {
    let w = if watches_other(m, cwd) {
        rewatched(m, cwd)
    } else {
        m
    };
    let asked = if w.info_pending is Some && path_eq(w.info_pending->0, cwd) {
        w
    } else {
        Side {
            info_pending: Some(cwd),
            tasks: w.tasks.push(Task::CollectWorkspace(cwd)),
            ..w
        }
    };
    redrawn(
        Side {
            dir: if asked.dir.len() == 0 {
                cwd
            } else {
                asked.dir
            },
            last_refresh: Some(now),
            ..asked
        },
        now,
    )
}

/// The shell is on another machine: nothing local is shown of it.
pub open spec fn gone_remote(m: Side, host: Seq<char>, path: Seq<char>, now: u64) -> Side {
    if m.remote is Some && (m.remote->0).0 == host && path_eq((m.remote->0).1, path) {
        m
    } else {
        redrawn(forgotten(Side { remote: Some((host, path)), info: None, ..m }), now)
    }
}

/// Whether it is time to ask about the working directory.
pub open spec fn is_stale(m: Side, cwd: Seq<char>, now: u64) -> bool {
    let current = if m.info_pending is Some {
        m.info_pending
    } else {
        match m.info {
            Some(i) => Some(i.0),
            None => None,
        }
    };
    ||| current is None
    ||| !path_eq(current->0, cwd)
    ||| m.last_refresh is None
    ||| now - m.last_refresh->0 >= REFRESH_INTERVAL
}

/// What came in about a local shell: the sidebar after it, and whether that
/// changes what is shown.
pub open spec fn local_heard(m: Side, cwd: Seq<char>, poll: SidebarPoll) -> (Side, bool) {
    let (a, drew) = drained(m, cwd, poll.watcher, change_views(poll.drained@), poll.partial);
    let (b, read) = if watches_other(m, cwd) {
        (a, false)
    } else {
        dir_heard(a, poll.browse)
    };
    let (c, told) = workspace_heard(b, poll.workspace);
    (c, drew || read || told)
}

/// The regular look at what has changed. The rows are made anew where what
/// came in changes what is shown, and where everything is asked for anew.
#[verifier::opaque]
pub open spec fn ticked(m: Side, location: ShellLocation, poll: SidebarPoll, now: u64) -> Side {
    if !m.visible {
        m
    } else {
        match location {
            ShellLocation::Remote { host, path } => gone_remote(m, host@, path@, now),
            ShellLocation::Local(cwd) => if m.remote is Some {
                refreshed(Side { remote: None, info: None, ..m }, cwd@, now)
            } else {
                let (c, redraw) = local_heard(m, cwd@, poll);
                if is_stale(c, cwd@, now) {
                    refreshed(c, cwd@, now)
                } else if redraw {
                    redrawn(c, now)
                } else {
                    c
                }
            },
        }
    }
}

/// A tool reported a change.
#[verifier::opaque]
pub open spec fn reported(
    m: Side,
    root: Option<Seq<char>>,
    kind: ChangeKind,
    path: Seq<char>,
    tool: Option<Seq<char>>,
    now: u64,
) -> Side {
    let (c, both) = noted(m.changes, path, kind);
    redrawn(
        Side {
            changes: newest(c),
            activity: Some(Activity { kind: both, path, tool, at: now }),
            follow_target: if m.remote is None && root is Some && both != ChangeKind::Deleted {
                Some(joined(root->0, path))
            } else {
                m.follow_target
            },
            ..m
        },
        now,
    )
}

/// The sidebar shown or hidden.
#[verifier::opaque]
pub open spec fn toggled(m: Side, location: ShellLocation, now: u64) -> Side {
    if m.visible {
        Side { remote: None, ..forgotten(Side { visible: false, focused: false, ..m }) }
    } else {
        let v = Side { visible: true, ..m };
        match location {
            ShellLocation::Local(cwd) => refreshed(Side { remote: None, ..v }, cwd@, now),
            ShellLocation::Remote { host, path } => gone_remote(v, host@, path@, now),
        }
    }
}

/// The sidebar after the focus came to it or left it. It has none while it is
/// hidden, and a search ends with the focus.
#[verifier::opaque]
pub open spec fn focus_given(m: Side, focused: bool, now: u64) -> Side {
    if m.focused == focused {
        m
    } else {
        redrawn(
            Side {
                focused: focused && m.visible,
                search: if focused && m.visible {
                    m.search
                } else {
                    None
                },
                ..m
            },
            now,
        )
    }
}

/// The directory that changes are told from.
pub open spec fn root_of(m: Side) -> Option<Seq<char>> {
    match m.root {
        Some(x) => Some(x),
        None => match m.info {
            Some(i) => Some(i.0),
            None => None,
        },
    }
}

/// A sidebar that has not been opened.
pub open spec fn side_at_start(viewport: Viewport, cell: CellSize, agent: Seq<char>) -> Side {
    Side {
        viewport,
        cell,
        visible: false,
        info: None,
        info_pending: None,
        last_refresh: None,
        changes: Seq::empty(),
        mode: SidebarMode::Files,
        dir: Seq::empty(),
        entries: Seq::empty(),
        dir_pending: None,
        dir_error: false,
        scroll: 0,
        focused: false,
        selected: 0,
        search: None,
        watcher: None,
        watcher_pending: None,
        root: None,
        watch_failed: false,
        remote: None,
        follow_target: None,
        frozen: false,
        activity: None,
        agent,
        tasks: Seq::empty(),
        lines: Seq::empty(),
        acts: Seq::empty(),
        updated: true,
    }
}

// ---------------------------------------------------------------------------
// The sidebar itself
// ---------------------------------------------------------------------------

impl Sidebar {
    /// A cell has a size, the lists are no longer than they may be, the frame
    /// is one of rows alone, and the state is sound.
    pub open spec fn wf(&self) -> bool {
        &&& self.cell.w > 0
        &&& self.cell.h > 0
        &&& self.browse_entries.len() <= FILE_BROWSER_MAX_ENTRIES
        &&& self.changes.len() <= MAX_CHANGES
        &&& self.frame.images.len() == 0
        &&& self.frame.bg_color == Color::Background
        &&& !self.frame.skip_default_bg
        &&& sound(self@)
    }

    /// A sidebar that is not shown.
    pub fn new(viewport: Viewport, cell: CellSize, agent: &str) -> (r: Self)
        requires
            cell.w > 0,
            cell.h > 0,
        ensures
            r.wf(),
            r@ == side_at_start(viewport, cell, agent@),
    {
        let r = Sidebar {
            viewport,
            cell,
            visible: false,
            info: None,
            info_pending: None,
            last_refresh: None,
            changes: Vec::new(),
            mode: SidebarMode::Files,
            browse_dir: String::new(),
            browse_entries: Vec::new(),
            browse_pending: None,
            browse_error: false,
            browse_scroll: 0,
            row_actions: Vec::new(),
            focused: false,
            browse_selected: 0,
            search: None,
            watcher: None,
            watcher_pending: None,
            watcher_root: None,
            watch_failed: false,
            remote_location: None,
            follow_target: None,
            follow_frozen: false,
            ai_activity: None,
            agent: agent.to_owned(),
            tasks: Vec::new(),
            frame: Frame {
                lines: Vec::new(),
                images: Vec::new(),
                bg_color: Color::Background,
                skip_default_bg: false,
            },
            updated: true,
        };
        assert(change_views(r.changes@) =~= Seq::empty());
        assert(entry_views(r.browse_entries@) =~= Seq::empty());
        assert(task_views(r.tasks@) =~= Seq::empty());
        assert(r.browse_dir@ =~= Seq::empty());
        assert(rows(r.frame.lines@) =~= Seq::empty());
        assert(act_views(r.row_actions@) =~= Seq::empty());
        r
    }

    /// Draws the sidebar anew, if it is shown.
    fn rebuild(&mut self, now: u64)
        requires
            old(self).wf(),
        ensures
            final(self).wf(),
            final(self)@ == redrawn(old(self)@, now),
    {
        if !self.visible {
            return;
        }
        let ghost r = sidebar_rows(self@, now);
        let sink = draw_sidebar(self, now);
        self.row_actions = sink.actions;
        self.frame = Frame {
            lines: sink.lines,
            images: Vec::new(),
            bg_color: Color::Background,
            skip_default_bg: false,
        };
        self.updated = true;
        proof {
            let held = row_views(self.frame.lines@, self.row_actions@);
            assert(held == r);
            assert forall|i: int| 0 <= i < r.len() implies #[trigger] held[i] == (
                self.frame.lines[i]@,
                opt_view(self.row_actions[i]),
            ) by {}
            assert(rows(self.frame.lines@) =~= row_cells(r));
            assert(act_views(self.row_actions@) =~= row_acts(r));
        }
    }

    /// Stops following changes, or takes it up again.
    pub fn toggle_follow(&mut self, now: u64)
        requires
            old(self).wf(),
        ensures
            final(self).wf(),
            final(self)@ == frozen_switched(old(self)@, now),
    {
        self.follow_frozen = !self.follow_frozen;
        if self.follow_frozen {
            self.follow_target = None;
        }
        self.rebuild(now);
    }

    /// Shows or hides the sidebar.
    pub fn toggle(&mut self, location: &ShellLocation, now: u64)
        requires
            old(self).wf(),
        ensures
            final(self).wf(),
            final(self)@ == toggled(old(self)@, *location, now),
    {
        proof {
            reveal(toggled);
        }
        self.visible = !self.visible;
        if self.visible {
            self.refresh_location(location, now);
        } else {
            self.focused = false;
            self.remote_location = None;
            self.clear_live_state();
        }
    }

    pub fn is_visible(&self) -> (r: bool)
        ensures
            r == self.visible,
    {
        self.visible
    }

    /// Gives or takes the focus; a search ends when it is taken.
    pub fn set_focused(&mut self, focused: bool, now: u64)
        requires
            old(self).wf(),
        ensures
            final(self).wf(),
            final(self)@ == focus_given(old(self)@, focused, now),
    {
        proof {
            reveal(focus_given);
        }
        if self.focused == focused {
            return;
        }
        self.focused = focused && self.visible;
        if !self.focused {
            self.search = None;
        }
        self.rebuild(now);
    }

    pub fn contains(&self, x: i64, y: i64) -> (r: bool)
        ensures
            r == (self.visible && inside(self.viewport, x as int, y as int)),
    {
        self.visible && self.viewport.contains(x, y)
    }

    pub fn cell_height(&self) -> (r: u32)
        ensures
            r == self.cell.h,
    {
        self.cell.h
    }

    /// A click at a pixel: its row is used.
    pub fn on_click(&mut self, x: i64, y: i64, now: u64) -> (r: Option<SidebarRequest>)
        requires
            old(self).wf(),
        ensures
            final(self).wf(),
            (final(self)@, opt_view(r)) == clicked(old(self)@, x as int, y as int, now),
    {
        proof {
            reveal(performed);
        }
        if !self.contains(x, y) {
            return None;
        }
        let row = click_row(self.viewport, self.cell.h, y);
        if row >= self.row_actions.len() as u64 {
            return None;
        }
        let action = match sidebar_action_at(&self.row_actions, row as usize) {
            Some(a) => a.clone(),
            None => {
                return None;
            },
        };
        self.run_row_action(action, now)
    }

    /// A key event. Whatever the key is, it is not for the shell.
    pub fn on_key(&mut self, pressed: bool, code: Option<KeyCode>, text: Option<&str>, now: u64) -> (r:
        SidebarKeyResult)
        requires
            old(self).wf(),
        ensures
            final(self).wf(),
            (final(self)@, r@) == if pressed && code is Some {
                keyed(old(self)@, code->0, crate::reader::opt_str(text), now)
            } else {
                (old(self)@, KeyOutcome::Consumed)
            },
    {
        proof {
            reveal(keyed);
        }
        if !pressed {
            return SidebarKeyResult::Consumed;
        }
        let c = match code {
            Some(c) => c,
            None => {
                return SidebarKeyResult::Consumed;
            },
        };
        if self.search.is_some() {
            self.on_search_key(c, text, now);
            return SidebarKeyResult::Consumed;
        }
        if c == KeyCode::Escape {
            return SidebarKeyResult::ReleaseFocus;
        }
        if let Some(t) = text {
            if same_text(t, "/") {
                let e = String::new();
                assert(e@ =~= Seq::empty());
                self.search = Some(e);
                self.rebuild(now);
                return SidebarKeyResult::Consumed;
            }
        }
        self.on_list_key(c, now)
    }

    fn on_search_key(&mut self, code: KeyCode, text: Option<&str>, now: u64)
        requires
            old(self).wf(),
            old(self).search is Some,
        ensures
            final(self).wf(),
            final(self)@ == search_keyed(old(self)@, code, crate::reader::opt_str(text), now),
    {
        if code == KeyCode::Escape || code == KeyCode::Enter {
            self.search = None;
            self.rebuild(now);
            return;
        }
        let query = copy_opt(&self.search);
        let q = match query {
            Some(q) => q,
            None => {
                return;
            },
        };
        if code == KeyCode::Backspace {
            let cs = chars_of(q.as_str());
            let shorter = if cs.len() == 0 {
                q
            } else {
                string_between(&cs, 0, cs.len() - 1)
            };
            assert(shorter@ =~= without_last(q@));
            self.search = Some(shorter);
            self.jump_to_search(now);
            return;
        }
        if let Some(t) = text {
            if !t.is_empty() && is_printable(t) {
                let mut longer = q;
                longer.append(t);
                self.search = Some(longer);
                self.jump_to_search(now);
            }
        }
    }

    /// Selects the first row that matches the search.
    fn jump_to_search(&mut self, now: u64)
        requires
            old(self).wf(),
        ensures
            final(self).wf(),
            final(self)@ == jumped(old(self)@, now),
    {
        let query = copy_opt(&self.search);
        let q = match query {
            Some(q) => q,
            None => {
                return;
            },
        };
        if q.as_str().is_empty() {
            self.rebuild(now);
            return;
        }
        let low = to_lower(q.as_str());
        let ghost m = self@;
        match self.mode {
            SidebarMode::Files => {
                let i = self.find_entry(low.as_str());
                if i < self.browse_entries.len() {
                    let at = i + self.count_parent_rows();
                    self.set_list_selection(at, now);
                    return;
                }
            },
            SidebarMode::Changes => {
                let i = self.find_change(low.as_str());
                if i < self.changes.len() && i < LISTED_CHANGES {
                    self.set_list_selection(i, now);
                    return;
                }
            },
        }
        self.rebuild(now);
    }

    fn find_entry(&self, low: &str) -> (r: usize)
        ensures
            r == entry_match(self@.entries, low@, 0),
            r <= self.browse_entries.len(),
    {
        let ghost all = self@.entries;
        let mut i: usize = 0;
        while i < self.browse_entries.len()
            invariant
                i <= self.browse_entries.len(),
                all == entry_views(self.browse_entries@),
                entry_match(all, low@, i as int) == entry_match(all, low@, 0),
            decreases self.browse_entries.len() - i,
        {
            assert(all[i as int].0 == self.browse_entries[i as int].0@);
            let name = to_lower(self.browse_entries[i].0.as_str());
            if starts_with(name.as_str(), low) {
                return i;
            }
            i += 1;
        }
        i
    }

    fn find_change(&self, low: &str) -> (r: usize)
        ensures
            r == change_match(self@.changes, low@, 0),
    {
        let ghost all = self@.changes;
        let mut i: usize = 0;
        while i < self.changes.len() && i < LISTED_CHANGES
            invariant
                i <= self.changes.len(),
                i <= LISTED_CHANGES,
                all == change_views(self.changes@),
                change_match(all, low@, i as int) == change_match(all, low@, 0),
            decreases self.changes.len() - i,
        {
            assert(all[i as int].0 == self.changes[i as int].path@);
            let hit = match file_name_of(self.changes[i].path.as_str()) {
                Some(n) => {
                    let name = to_lower(n.as_str());
                    starts_with(name.as_str(), low)
                },
                None => false,
            };
            if hit {
                return i;
            }
            i += 1;
        }
        i
    }

    fn run_row_action(&mut self, action: RowAction, now: u64) -> (r: Option<SidebarRequest>)
        requires
            old(self).wf(),
        ensures
            final(self).wf(),
            (final(self)@, opt_view(r)) == performed(old(self)@, action@, now),
    {
        proof {
            reveal(performed);
        }
        match action {
            RowAction::ToggleMode => {
                self.toggle_mode(now);
                None
            },
            RowAction::ToggleFollow => {
                self.toggle_follow(now);
                None
            },
            RowAction::BrowseParent => {
                if let Some(p) = parent_of(self.browse_dir.as_str()) {
                    self.set_browse_dir(p, now);
                }
                None
            },
            RowAction::BrowseDir(path) => {
                self.set_browse_dir(path, now);
                None
            },
            RowAction::PreviewFile(path) => Some(SidebarRequest::PreviewFile(path)),
        }
    }

    fn on_list_key(&mut self, code: KeyCode, now: u64) -> (r: SidebarKeyResult)
        requires
            old(self).wf(),
        ensures
            final(self).wf(),
            (final(self)@, r@) == list_keyed(old(self)@, code, now),
    {
        match code {
            KeyCode::ArrowUp | KeyCode::KeyK => {
                self.move_list_selection(false, now);
                SidebarKeyResult::Consumed
            },
            KeyCode::ArrowDown | KeyCode::KeyJ => {
                self.move_list_selection(true, now);
                SidebarKeyResult::Consumed
            },
            KeyCode::PageUp => SidebarKeyResult::Request(
                SidebarRequest::ScrollPreview(-(self.list_page_step() as i64)),
            ),
            KeyCode::PageDown => SidebarKeyResult::Request(
                SidebarRequest::ScrollPreview(self.list_page_step() as i64),
            ),
            KeyCode::Home => {
                self.set_list_selection(0, now);
                SidebarKeyResult::Consumed
            },
            KeyCode::End => {
                let last = self.list_selectable_len().saturating_sub(1);
                self.set_list_selection(last, now);
                SidebarKeyResult::Consumed
            },
            KeyCode::Enter | KeyCode::ArrowRight | KeyCode::KeyL => {
                match self.selected_row_action() {
                    Some(action) => match self.run_row_action(action, now) {
                        Some(q) => SidebarKeyResult::Request(q),
                        None => SidebarKeyResult::Consumed,
                    },
                    None => SidebarKeyResult::Consumed,
                }
            },
            KeyCode::Backspace | KeyCode::ArrowLeft | KeyCode::KeyH => {
                if self.mode == SidebarMode::Files {
                    self.run_row_action(RowAction::BrowseParent, now);
                }
                SidebarKeyResult::Consumed
            },
            KeyCode::Tab => {
                self.toggle_mode(now);
                SidebarKeyResult::Consumed
            },
            KeyCode::KeyE => SidebarKeyResult::Request(SidebarRequest::EditPreview),
            KeyCode::KeyO => SidebarKeyResult::Request(SidebarRequest::OpenPreview),
            _ => SidebarKeyResult::Consumed,
        }
    }

    /// The wheel turned by a number of rows, up if positive.
    pub fn on_scroll(&mut self, delta: i32, now: u64)
        requires
            old(self).wf(),
        ensures
            final(self).wf(),
            final(self)@ == scrolled(old(self)@, delta as int, now),
    {
        proof {
            reveal(scrolled);
        }
        if !self.visible || delta == 0 {
            return;
        }
        if self.mode != SidebarMode::Files {
            return;
        }
        let visible = self.browse_entry_slots();
        let len = self.browse_entries.len();
        assert(self@.entries.len() == len);
        let max = reader_scroll_max(len, visible);
        let target: i128 = self.browse_scroll as i128 - delta as i128;
        let next: usize = if target < 0 {
            0
        } else if target > max as i128 {
            max
        } else {
            target as usize
        };
        if next != self.browse_scroll {
            self.browse_scroll = next;
            self.rebuild(now);
        }
    }

    fn list_page_step(&self) -> (r: usize)
        requires
            self.wf(),
        ensures
            r == page_step(self@),
            r <= FILE_BROWSER_VISIBLE_ROWS,
    {
        match self.mode {
            SidebarMode::Changes => LISTED_CHANGES,
            SidebarMode::Files => {
                let slots = self.browse_entry_slots();
                if slots == 0 {
                    1
                } else {
                    slots
                }
            },
        }
    }

    fn count_parent_rows(&self) -> (r: usize)
        ensures
            r == parent_rows(self@),
            r <= 1,
    {
        if parent_of(self.browse_dir.as_str()).is_some() {
            1
        } else {
            0
        }
    }

    fn list_selectable_len(&self) -> (r: usize)
        requires
            self.wf(),
        ensures
            r == selectable(self@),
    {
        match self.mode {
            SidebarMode::Changes => if self.changes.len() < LISTED_CHANGES {
                self.changes.len()
            } else {
                LISTED_CHANGES
            },
            SidebarMode::Files => self.browse_entries.len() + self.count_parent_rows(),
        }
    }

    /// Moves the selection by one row.
    fn move_list_selection(&mut self, down: bool, now: u64)
        requires
            old(self).wf(),
        ensures
            final(self).wf(),
            final(self)@ == moving(
                old(self)@,
                if down {
                    1
                } else {
                    -1
                },
                now,
            ),
    {
        let len = self.list_selectable_len();
        if len == 0 {
            self.browse_selected = 0;
            return;
        }
        let current = if self.browse_selected < len - 1 {
            self.browse_selected
        } else {
            len - 1
        };
        let next: usize = if down {
            current + 1
        } else if current == 0 {
            0
        } else {
            current - 1
        };
        self.set_list_selection(next, now);
    }

    /// Selects a row, and scrolls so that it is shown.
    fn set_list_selection(&mut self, selected: usize, now: u64)
        requires
            old(self).wf(),
        ensures
            final(self).wf(),
            final(self)@ == selecting(old(self)@, selected as nat, now),
    {
        let len = self.list_selectable_len();
        if len == 0 {
            self.browse_selected = 0;
            return;
        }
        self.browse_selected = if selected < len - 1 {
            selected
        } else {
            len - 1
        };
        if self.mode == SidebarMode::Files {
            let p = self.count_parent_rows();
            if self.browse_selected >= p {
                let slots = self.browse_entry_slots();
                assert(self@.entries.len() == self.browse_entries.len());
                self.browse_scroll = keep_selection_visible(
                    self.browse_scroll,
                    self.browse_selected - p,
                    self.browse_entries.len(),
                    slots,
                );
            }
        }
        self.rebuild(now);
    }

    /// What the selected row does.
    pub fn selected_row_action(&self) -> (r: Option<RowAction>)
        requires
            self.wf(),
        ensures
            opt_view(r) == selected_act(self@),
    {
        match self.mode {
            SidebarMode::Changes => {
                if self.remote_location.is_some() {
                    return None;
                }
                let k = self.browse_selected;
                if k >= self.changes.len() {
                    return None;
                }
                assert(self@.changes[k as int].0 == self.changes[k as int].path@);
                let path = self.changes[k].path.as_str();
                let full = match &self.watcher_root {
                    Some(root) => join(root.as_str(), path),
                    None => {
                        let e = String::new();
                        assert(e@ =~= Seq::empty());
                        join(e.as_str(), path)
                    },
                };
                Some(RowAction::PreviewFile(full))
            },
            SidebarMode::Files => {
                let p = self.count_parent_rows();
                if self.browse_selected < p {
                    return Some(RowAction::BrowseParent);
                }
                let k = self.browse_selected - p;
                if k >= self.browse_entries.len() {
                    return None;
                }
                assert(self@.entries[k as int] == (
                    self.browse_entries[k as int].0@,
                    self.browse_entries[k as int].1,
                ));
                let path = join(self.browse_dir.as_str(), self.browse_entries[k].0.as_str());
                Some(
                    if self.browse_entries[k].1 {
                        RowAction::BrowseDir(path)
                    } else {
                        RowAction::PreviewFile(path)
                    },
                )
            },
        }
    }

    /// The file to follow, once; none while following is stopped.
    pub fn take_follow_target(&mut self) -> (r: Option<String>)
        ensures
            final(self)@ == (Side { follow_target: None, ..old(self)@ }),
            opt_text(r) == if old(self).follow_frozen {
                None
            } else {
                old(self)@.follow_target
            },
            old(self).wf() ==> final(self).wf(),
    {
        if self.follow_frozen {
            self.follow_target = None;
            return None;
        }
        self.follow_target.take()
    }

    /// Notes a change, and gives its kind merged with an earlier one.
    fn note_change(&mut self, path: &str, kind: ChangeKind) -> (r: ChangeKind)
        ensures
            final(self)@ == (Side {
                changes: noted(old(self)@.changes, path@, kind).0,
                ..old(self)@
            }),
            r == noted(old(self)@.changes, path@, kind).1,
            final(self).changes.len() <= old(self).changes.len() + 1,
            final(self).browse_entries == old(self).browse_entries,
            final(self).frame == old(self).frame,
    {
        let ghost all = self@.changes;
        let mut k: usize = 0;
        while k < self.changes.len() && !same_path(self.changes[k].path.as_str(), path)
            invariant
                k <= self.changes.len(),
                *self == *old(self),
                all == change_views(self.changes@),
                change_index(all, path@, k as int) == change_index(all, path@, 0),
            decreases self.changes.len() - k,
        {
            assert(all[k as int].0 == self.changes[k as int].path@);
            k += 1;
        }
        if k < self.changes.len() {
            assert(all[k as int] == (self.changes[k as int].path@, self.changes[k as int].kind));
            let old_change = self.changes.remove(k);
            let both = merge_kind(Some(old_change.kind), kind);
            assert(change_views(self.changes@) =~= all.remove(k as int));
            let ghost rest = self.changes@;
            self.changes.insert(0, FileChange { path: path.to_owned(), kind: both });
            assert(change_views(self.changes@) =~= all.remove(k as int).insert(0, (path@, both)));
            both
        } else {
            let both = merge_kind(None, kind);
            self.changes.insert(0, FileChange { path: path.to_owned(), kind: both });
            assert(change_views(self.changes@) =~= all.insert(0, (path@, both)));
            both
        }
    }

    /// Takes up a change that a tool reported.
    pub fn apply_gt_event(
        &mut self,
        root: Option<&str>,
        kind: ChangeKind,
        path: &str,
        tool: Option<String>,
        now: u64,
    )
        requires
            old(self).wf(),
        ensures
            final(self).wf(),
            final(self)@ == reported(
                old(self)@,
                crate::reader::opt_str(root),
                kind,
                path@,
                opt_text(tool),
                now,
            ),
    {
        proof {
            reveal(reported);
        }
        let both = self.note_change(path, kind);
        let ghost c = self@.changes;
        self.changes.truncate(MAX_CHANGES);
        assert(change_views(self.changes@) =~= newest(c));
        self.ai_activity = Some(AiActivity { kind: both, path: path.to_owned(), tool, at: now });
        if self.remote_location.is_none() && both != ChangeKind::Deleted {
            if let Some(r) = root {
                self.follow_target = Some(join(r, path));
            }
        }
        self.rebuild(now);
    }

    /// The directory that is watched, or else the working directory.
    pub fn root(&self) -> (r: Option<&String>)
        ensures
            (match r {
                Some(s) => Some(s@),
                None => None,
            }) == root_of(self@),
    {
        match &self.watcher_root {
            Some(x) => Some(x),
            None => match &self.info {
                Some(i) => Some(&i.cwd),
                None => None,
            },
        }
    }

    pub fn set_viewport(&mut self, viewport: Viewport, now: u64)
        requires
            old(self).wf(),
        ensures
            final(self).wf(),
            final(self)@ == redrawn(Side { viewport, ..old(self)@ }, now),
    {
        self.viewport = viewport;
        self.rebuild(now);
    }

    /// Takes the cell size of another font size.
    pub fn change_font_size(&mut self, cell: CellSize, now: u64)
        requires
            old(self).wf(),
            cell.w > 0,
            cell.h > 0,
        ensures
            final(self).wf(),
            final(self)@ == redrawn(Side { cell, ..old(self)@ }, now),
    {
        self.cell = cell;
        self.rebuild(now);
    }

    pub fn needs_redraw(&self) -> (r: bool)
        ensures
            r == (self.visible && self.updated),
    {
        self.visible && self.updated
    }

    /// Notes that the frame has been drawn.
    pub fn drawn(&mut self)
        ensures
            *final(self) == (Sidebar { updated: false, ..*old(self) }),
            final(self)@ == (Side { updated: false, ..old(self)@ }),
            old(self).wf() ==> final(self).wf(),
    {
        self.updated = false;
    }

    /// The work to be done in the background, once.
    pub fn take_tasks(&mut self) -> (r: Vec<SidebarTask>)
        ensures
            task_views(r@) == old(self)@.tasks,
            final(self)@ == (Side { tasks: Seq::empty(), ..old(self)@ }),
            old(self).wf() ==> final(self).wf(),
    {
        let mut out: Vec<SidebarTask> = Vec::new();
        std::mem::swap(&mut out, &mut self.tasks);
        assert(task_views(self.tasks@) =~= Seq::empty());
        out
    }

    /// The regular look at what has changed.
    pub fn refresh_if_stale(&mut self, location: &ShellLocation, poll: SidebarPoll, now: u64)
        requires
            old(self).wf(),
            poll.browse is Done && poll.browse->Done_0 is Ok ==> poll.browse->Done_0->Ok_0.len()
                <= FILE_BROWSER_MAX_ENTRIES,
        ensures
            final(self).wf(),
            final(self)@ == ticked(old(self)@, *location, poll, now),
    {
        proof {
            reveal(ticked);
        }
        if !self.visible {
            return;
        }
        let cwd = match location {
            ShellLocation::Local(cwd) => cwd.as_str(),
            ShellLocation::Remote { host, path } => {
                self.set_remote(host.as_str(), path.as_str(), now);
                return;
            },
        };
        if self.remote_location.is_some() {
            self.remote_location = None;
            self.info = None;
            self.refresh(cwd, now);
            return;
        }
        let other = !self.watches(cwd);
        let mut redraw = self.drain_watcher(cwd, poll.watcher, &poll.drained, poll.partial);
        if !other {
            if self.poll_browse_dir(poll.browse) {
                redraw = true;
            }
        }
        if self.poll_workspace(poll.workspace) {
            redraw = true;
        }
        let known = match &self.info_pending {
            Some(p) => same_path(p.as_str(), cwd),
            None => match &self.info {
                Some(i) => same_path(i.cwd.as_str(), cwd),
                None => false,
            },
        };
        let due = match self.last_refresh {
            None => true,
            Some(t) => now >= t && now - t >= REFRESH_INTERVAL,
        };
        if !known || due {
            self.refresh(cwd, now);
        } else if redraw {
            self.rebuild(now);
        }
    }

    /// Takes up an answer about the working directory.
    fn poll_workspace(&mut self, poll: WorkspacePoll) -> (r: bool)
        ensures
            (final(self)@, r) == workspace_heard(old(self)@, poll),
            old(self).wf() ==> final(self).wf(),
    {
        if self.info_pending.is_none() {
            return false;
        }
        match poll {
            WorkspacePoll::Waiting => false,
            WorkspacePoll::Done(info) => {
                self.info = Some(info);
                self.info_pending = None;
                true
            },
            WorkspacePoll::Lost => {
                self.info_pending = None;
                false
            },
        }
    }

    fn refresh_location(&mut self, location: &ShellLocation, now: u64)
        requires
            old(self).wf(),
            old(self).visible,
        ensures
            final(self).wf(),
            final(self)@ == (match *location {
                ShellLocation::Local(cwd) => refreshed(
                    Side { remote: None, ..old(self)@ },
                    cwd@,
                    now,
                ),
                ShellLocation::Remote { host, path } => gone_remote(old(self)@, host@, path@, now),
            }),
    {
        match location {
            ShellLocation::Local(cwd) => {
                self.remote_location = None;
                self.refresh(cwd.as_str(), now);
            },
            ShellLocation::Remote { host, path } => {
                self.set_remote(host.as_str(), path.as_str(), now);
            },
        }
    }

    fn set_remote(&mut self, host: &str, path: &str, now: u64)
        requires
            old(self).wf(),
            old(self).visible,
        ensures
            final(self).wf(),
            final(self)@ == gone_remote(old(self)@, host@, path@, now),
    {
        let same = match &self.remote_location {
            Some((h, p)) => same_text(h.as_str(), host) && same_path(p.as_str(), path),
            None => false,
        };
        if !same {
            self.remote_location = Some((host.to_owned(), path.to_owned()));
            self.info = None;
            self.clear_live_state();
            self.rebuild(now);
        }
    }

    /// Forgets everything about the local file system.
    fn clear_live_state(&mut self)
        ensures
            final(self)@ == forgotten(old(self)@),
            old(self).wf() ==> final(self).wf(),
    {
        self.info_pending = None;
        self.watcher = None;
        self.watcher_pending = None;
        self.watcher_root = None;
        self.watch_failed = false;
        self.changes = Vec::new();
        self.mode = SidebarMode::Files;
        self.browse_entries = Vec::new();
        self.browse_pending = None;
        self.browse_error = false;
        self.browse_scroll = 0;
        self.row_actions = Vec::new();
        self.browse_selected = 0;
        self.follow_target = None;
        self.ai_activity = None;
        assert(change_views(self.changes@) =~= Seq::empty());
        assert(entry_views(self.browse_entries@) =~= Seq::empty());
        assert(act_views(self.row_actions@) =~= Seq::empty());
    }

    /// Asks for everything about the working directory anew.
    fn refresh(&mut self, cwd: &str, now: u64)
        requires
            old(self).wf(),
        ensures
            final(self).wf(),
            final(self)@ == refreshed(old(self)@, cwd@, now),
    {
        if !self.watches(cwd) {
            self.watch_anew(cwd);
        }
        let asked = match &self.info_pending {
            Some(p) => same_path(p.as_str(), cwd),
            None => false,
        };
        if !asked {
            self.info_pending = Some(cwd.to_owned());
            self.add_task(SidebarTask::CollectWorkspace(cwd.to_owned()));
        }
        if self.browse_dir.as_str().is_empty() {
            self.browse_dir = cwd.to_owned();
        }
        self.last_refresh = Some(now);
        self.rebuild(now);
    }

    fn add_task(&mut self, task: SidebarTask)
        ensures
            final(self)@ == (Side { tasks: old(self)@.tasks.push(task@), ..old(self)@ }),
            *final(self) == (Sidebar { tasks: final(self).tasks, ..*old(self) }),
    {
        let ghost before = self.tasks@;
        self.tasks.push(task);
        assert(task_views(self.tasks@) =~= task_views(before).push(task@));
    }

    /// Whether the directory that is watched is `cwd`.
    fn watches(&self, cwd: &str) -> (r: bool)
        ensures
            r == !watches_other(self@, cwd@),
    {
        match &self.watcher_root {
            Some(x) => same_path(x.as_str(), cwd),
            None => false,
        }
    }

    /// Begins to watch another directory.
    fn watch_anew(&mut self, cwd: &str)
        requires
            old(self).wf(),
        ensures
            final(self).wf(),
            final(self)@ == rewatched(old(self)@, cwd@),
    {
        self.changes = Vec::new();
        assert(change_views(self.changes@) =~= Seq::empty());
        self.watcher = None;
        self.watch_failed = false;
        self.watcher_root = Some(cwd.to_owned());
        self.follow_target = None;
        self.watcher_pending = Some(cwd.to_owned());
        self.set_browse_dir_for_root(cwd.to_owned());
        self.add_task(SidebarTask::SpawnWatcher(cwd.to_owned()));
    }

    /// Takes up what the watcher has seen; `true` if that changes what is shown.
    fn drain_watcher(
        &mut self,
        cwd: &str,
        poll: WatcherPoll,
        new: &Vec<FileChange>,
        partial: bool,
    ) -> (r: bool)
        requires
            old(self).wf(),
        ensures
            final(self).wf(),
            (final(self)@, r) == drained(old(self)@, cwd@, poll, change_views(new@), partial),
    {
        if !self.watches(cwd) {
            self.watch_anew(cwd);
            return true;
        }
        let heard = self.hear_watcher(poll);
        assert(change_views(new@).len() == new.len());
        if self.watcher.is_some() {
            self.take_drained(cwd, new, partial);
            heard || new.len() > 0
        } else {
            heard
        }
    }

    fn take_drained(&mut self, cwd: &str, new: &Vec<FileChange>, partial: bool)
        requires
            old(self).wf(),
        ensures
            final(self).wf(),
            final(self)@ == changed(
                Side { watcher: Some(partial), ..old(self)@ },
                cwd@,
                change_views(new@),
            ),
    {
        self.watcher = Some(partial);
        self.apply_changes(cwd, new);
    }

    fn hear_watcher(&mut self, poll: WatcherPoll) -> (r: bool)
        ensures
            (final(self)@, r) == watcher_heard(old(self)@, poll),
            old(self).wf() ==> final(self).wf(),
    {
        let current = match (&self.watcher_pending, &self.watcher_root) {
            (Some(p), Some(x)) => same_path(x.as_str(), p.as_str()),
            (Some(_), None) => false,
            (None, _) => {
                return false;
            },
        };
        match poll {
            WatcherPoll::Waiting => false,
            WatcherPoll::Ready { partial } => {
                self.watcher_pending = None;
                if current {
                    self.watcher = Some(partial);
                }
                current
            },
            WatcherPoll::Failed => {
                self.watcher_pending = None;
                if current {
                    self.watch_failed = true;
                }
                current
            },
            WatcherPoll::Lost => {
                self.watcher_pending = None;
                self.watch_failed = true;
                true
            },
        }
    }

    /// Notes changes below `root`.
    fn apply_changes(&mut self, root: &str, new: &Vec<FileChange>)
        requires
            old(self).wf(),
        ensures
            final(self).wf(),
            final(self)@ == changed(old(self)@, root@, change_views(new@)),
    {
        let ghost m = self@;
        let ghost all = change_views(new@);
        let mut i: usize = 0;
        assert(all.subrange(0, 0) =~= Seq::empty());
        while i < new.len()
            invariant
                i <= new.len(),
                all == change_views(new@),
                self.cell == old(self).cell,
                self.browse_entries == old(self).browse_entries,
                self.frame == old(self).frame,
                ({
                    let (c, f) = noted_all(
                        m.changes,
                        m.follow_target,
                        root@,
                        all.subrange(0, i as int),
                    );
                    self@ == (Side { changes: c, follow_target: f, ..m })
                }),
            decreases new.len() - i,
        {
            proof {
                assert(all.subrange(0, i + 1).drop_last() =~= all.subrange(0, i as int));
                assert(all.subrange(0, i + 1).last() == (new[i as int].path@, new[i as int].kind));
            }
            let both = self.note_change(new[i].path.as_str(), new[i].kind);
            if both != ChangeKind::Deleted {
                self.follow_target = Some(join(root, new[i].path.as_str()));
            }
            i += 1;
        }
        assert(all.subrange(0, i as int) =~= all);
        let ghost c = self@.changes;
        self.changes.truncate(MAX_CHANGES);
        assert(change_views(self.changes@) =~= newest(c));
    }

    fn toggle_mode(&mut self, now: u64)
        requires
            old(self).wf(),
        ensures
            final(self).wf(),
            final(self)@ == switched(old(self)@, now),
    {
        self.mode = match self.mode {
            SidebarMode::Changes => SidebarMode::Files,
            SidebarMode::Files => SidebarMode::Changes,
        };
        self.search = None;
        self.browse_selected = 0;
        self.browse_scroll = 0;
        assert(self@.entries.len() == self.browse_entries.len());
        if self.mode == SidebarMode::Files && self.browse_entries.len() == 0 {
            self.request_browse_dir();
        }
        self.rebuild(now);
    }

    fn set_browse_dir_for_root(&mut self, dir: String)
        requires
            old(self).wf(),
        ensures
            final(self).wf(),
            final(self)@ == rerooted(old(self)@, dir@),
    {
        self.browse_dir = dir;
        self.browse_entries = Vec::new();
        assert(entry_views(self.browse_entries@) =~= Seq::empty());
        self.browse_pending = None;
        self.browse_error = false;
        self.browse_scroll = 0;
        self.browse_selected = 0;
        if self.mode == SidebarMode::Files {
            self.request_browse_dir();
        }
    }

    fn set_browse_dir(&mut self, dir: String, now: u64)
        requires
            old(self).wf(),
        ensures
            final(self).wf(),
            final(self)@ == entering(old(self)@, dir@, now),
    {
        self.browse_dir = dir;
        self.search = None;
        self.browse_scroll = 0;
        self.browse_selected = 0;
        self.request_browse_dir();
        self.rebuild(now);
    }

    fn request_browse_dir(&mut self)
        requires
            old(self).wf(),
        ensures
            final(self).wf(),
            final(self)@ == reading(old(self)@),
    {
        self.browse_entries = Vec::new();
        assert(entry_views(self.browse_entries@) =~= Seq::empty());
        self.browse_error = false;
        let dir = self.browse_dir.clone();
        self.browse_pending = Some(dir.clone());
        self.add_task(SidebarTask::ReadDir(dir));
    }

    /// Lists a directory that was read.
    fn list_dir(&mut self, result: Result<Vec<(String, bool)>, String>)
        requires
            old(self).wf(),
            result is Ok ==> result->Ok_0.len() <= FILE_BROWSER_MAX_ENTRIES,
        ensures
            final(self).wf(),
            final(self)@ == listed(old(self)@, read_view(result)),
            final(self).browse_pending == old(self).browse_pending,
    {
        match result {
            Ok(entries) => {
                let slots = self.slots_of(entries.len());
                assert(entry_views(entries@).len() == entries.len());
                self.browse_scroll = clamp_browse_scroll(self.browse_scroll, entries.len(), slots);
                let last = (entries.len() + self.count_parent_rows()).saturating_sub(1);
                self.browse_entries = entries;
                if self.browse_selected > last {
                    self.browse_selected = last;
                }
                self.browse_error = false;
            },
            Err(_) => {
                self.browse_entries = Vec::new();
                assert(entry_views(self.browse_entries@) =~= Seq::empty());
                self.browse_error = true;
            },
        }
    }

    /// Takes up a directory that was read; `true` if that changes what is shown.
    fn poll_browse_dir(&mut self, poll: BrowsePoll) -> (r: bool)
        requires
            old(self).wf(),
            poll is Done && poll->Done_0 is Ok ==> poll->Done_0->Ok_0.len()
                <= FILE_BROWSER_MAX_ENTRIES,
        ensures
            final(self).wf(),
            (final(self)@, r) == dir_heard(old(self)@, poll),
    {
        let current = match &self.browse_pending {
            Some(p) => same_path(p.as_str(), self.browse_dir.as_str()),
            None => {
                return false;
            },
        };
        match poll {
            BrowsePoll::Waiting => false,
            BrowsePoll::Done(result) => {
                if current {
                    self.list_dir(result);
                }
                self.browse_pending = None;
                true
            },
            BrowsePoll::Lost => {
                self.browse_pending = None;
                self.browse_entries = Vec::new();
                assert(entry_views(self.browse_entries@) =~= Seq::empty());
                self.browse_error = true;
                true
            },
        }
    }

    fn slots_of(&self, len: usize) -> (r: usize)
        ensures
            r == slots_for(self@.dir, len as nat),
            r <= FILE_BROWSER_VISIBLE_ROWS,
    {
        let base = FILE_BROWSER_VISIBLE_ROWS - self.count_parent_rows();
        if len > base {
            base - 1
        } else {
            base
        }
    }

    /// The rows for entries of the file list.
    pub fn browse_entry_slots(&self) -> (r: usize)
        ensures
            r == entry_slots(self@),
            r <= FILE_BROWSER_VISIBLE_ROWS,
    {
        assert(self@.entries.len() == self.browse_entries.len());
        self.slots_of(self.browse_entries.len())
    }
}

/// What the row with a number does, if it does anything.
pub fn sidebar_action_at(row_actions: &Vec<Option<RowAction>>, row: usize) -> (r: Option<&RowAction>)
    ensures
        (match r {
            Some(a) => Some(*a),
            None => None,
        }) == if row < row_actions.len() {
            row_actions[row as int]
        } else {
            None
        },
{
    if row < row_actions.len() {
        match &row_actions[row] {
            Some(a) => Some(a),
            None => None,
        }
    } else {
        None
    }
}

} // verus!
