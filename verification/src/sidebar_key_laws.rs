//! What the keys, the rows and the changes of the sidebar do.

use crate::file_style::look;
use crate::keys::KeyCode;
use crate::path::{joined, parent};
use crate::reader::scroll_limit;
use crate::rows::{sat_sub, seg_cells, text_cells};
use crate::sidebar::{
    changed, dir_heard, drained, entry_match, focus_given, gone_remote, is_stale, keyed, noted,
    noted_all, performed, refreshed, reported, same_act, scrolled, selectable, selected_act,
    toggled, watcher_heard, workspace_heard, Act, Ask, BrowsePoll, KeyOutcome, Side, SidebarMode,
    Task, WatcherPoll, WorkspacePoll, MAX_CHANGES,
};
use crate::sidebar_rows::{
    act_row, activity_rows, body_rows, change_look, change_row, changes_rows, columns, entry_row,
    files_rows, first_entry, follow_row, git_row, hint_row, local_rows, mode_row, plain_row,
    remote_rows, row_count, seg_row, shown_entries, sidebar_rows,
};
use crate::terminal::{Cell, Color};
use crate::text::{decimal, has_prefix, lowercase};
use crate::vt::ShellLocation;
use crate::watcher::ChangeKind;
use crate::width::abbreviated;
use vstd::prelude::*;
use vstd::string::*;

verus! {

/// No search is under way, and the key does not begin one.
pub open spec fn listing(m: Side, text: Option<Seq<char>>) -> bool {
    m.search is None && text != Some("/"@)
}

// ---------------------------------------------------------------------------
// Keys
// ---------------------------------------------------------------------------

/// Down and up select the row below and above, and stay at the ends; Home and
/// End select the first and the last.
pub proof fn law_keys_select_rows(m: Side, text: Option<Seq<char>>, now: u64)
    requires
        listing(m, text),
        m.selected < selectable(m),
    ensures
        ({
            let n = selectable(m);
            let down = if m.selected + 1 < n {
                m.selected + 1
            } else {
                m.selected
            };
            let up: nat = if m.selected > 0 {
                (m.selected - 1) as nat
            } else {
                0
            };
            &&& keyed(m, KeyCode::ArrowDown, text, now).0.selected == down
            &&& keyed(m, KeyCode::KeyJ, text, now).0.selected == down
            &&& keyed(m, KeyCode::ArrowUp, text, now).0.selected == up
            &&& keyed(m, KeyCode::KeyK, text, now).0.selected == up
            &&& keyed(m, KeyCode::Home, text, now).0.selected == 0
            &&& keyed(m, KeyCode::End, text, now).0.selected == n - 1
            &&& keyed(m, KeyCode::ArrowDown, text, now).1 is Consumed
            &&& keyed(m, KeyCode::ArrowUp, text, now).1 is Consumed
        }),
{
    reveal(keyed);
}

/// In the list of files the rows are the parent directory, where there is one,
/// and the entries. Enter, Right and `l` go into a directory, which is read,
/// and show a file.
pub proof fn law_enter_uses_the_selected_entry(
    m: Side,
    code: KeyCode,
    text: Option<Seq<char>>,
    now: u64,
    i: int,
)
    requires
        listing(m, text),
        m.mode == SidebarMode::Files,
        code == KeyCode::Enter || code == KeyCode::ArrowRight || code == KeyCode::KeyL,
        0 <= i < m.entries.len(),
        m.selected == i + (if parent(m.dir) is Some {
            1int
        } else {
            0
        }),
    ensures
        ({
            let (next, out) = keyed(m, code, text, now);
            let path = joined(m.dir, m.entries[i].0);
            &&& m.entries[i].1 ==> next.dir == path && next.tasks == m.tasks.push(
                Task::ReadDir(path),
            ) && out is Consumed
            &&& !m.entries[i].1 ==> next == m && out == KeyOutcome::Request(Ask::PreviewFile(path))
        }),
{
    reveal(keyed);
    reveal(performed);
}

/// The way up is the first row, and Left, Backspace and `h` from everywhere.
pub proof fn law_keys_lead_up(m: Side, code: KeyCode, text: Option<Seq<char>>, now: u64)
    requires
        listing(m, text),
        m.mode == SidebarMode::Files,
        parent(m.dir) is Some,
        code == KeyCode::ArrowLeft || code == KeyCode::Backspace || code == KeyCode::KeyH || (
        m.selected == 0 && (code == KeyCode::Enter || code == KeyCode::ArrowRight || code
            == KeyCode::KeyL)),
    ensures
        ({
            let (next, out) = keyed(m, code, text, now);
            &&& next.dir == parent(m.dir)->0
            &&& next.tasks == m.tasks.push(Task::ReadDir(parent(m.dir)->0))
            &&& next.selected == 0 && next.scroll == 0
            &&& out is Consumed
        }),
{
    reveal(keyed);
    reveal(performed);
}

/// In the list of changes Enter shows the selected file below the directory
/// that is watched.
pub proof fn law_enter_shows_the_changed_file(
    m: Side,
    code: KeyCode,
    text: Option<Seq<char>>,
    now: u64,
    root: Seq<char>,
)
    requires
        listing(m, text),
        m.mode == SidebarMode::Changes,
        m.remote is None,
        m.root == Some(root),
        m.selected < m.changes.len(),
        code == KeyCode::Enter || code == KeyCode::ArrowRight || code == KeyCode::KeyL,
    ensures
        keyed(m, code, text, now) == (
            m,
            KeyOutcome::Request(
                Ask::PreviewFile(joined(root, m.changes[m.selected as int].0)),
            ),
        ),
{
    reveal(keyed);
    reveal(performed);
}

/// Tab shows the other list, from its first row; twice it leads back.
pub proof fn law_tab_changes_lists(m: Side, text: Option<Seq<char>>, now: u64, later: u64)
    requires
        listing(m, text),
    ensures
        ({
            let next = keyed(m, KeyCode::Tab, text, now).0;
            &&& m.mode == SidebarMode::Files <==> next.mode == SidebarMode::Changes
            &&& next.selected == 0 && next.scroll == 0
            &&& keyed(next, KeyCode::Tab, text, later).0.mode == m.mode
        }),
{
    reveal(keyed);
}

/// Escape gives up the focus, `e` and `o` are for the file in the preview, and
/// the page keys scroll it: down where they go down.
pub proof fn law_other_keys(m: Side, text: Option<Seq<char>>, now: u64)
    requires
        listing(m, text),
    ensures
        keyed(m, KeyCode::Escape, text, now) == (m, KeyOutcome::ReleaseFocus),
        keyed(m, KeyCode::KeyE, text, now) == (m, KeyOutcome::Request(Ask::EditPreview)),
        keyed(m, KeyCode::KeyO, text, now) == (m, KeyOutcome::Request(Ask::OpenPreview)),
        ({
            let down = keyed(m, KeyCode::PageDown, text, now);
            let up = keyed(m, KeyCode::PageUp, text, now);
            &&& down.0 == m && up.0 == m
            &&& down.1 is Request && (down.1)->Request_0 is ScrollPreview
            &&& up.1 is Request && (up.1)->Request_0 is ScrollPreview
            &&& ((down.1)->Request_0)->ScrollPreview_0 > 0
            &&& ((up.1)->Request_0)->ScrollPreview_0 == -((down.1)->Request_0)->ScrollPreview_0
        }),
{
    reveal(keyed);
}

/// A slash begins a search. While it is under way what is typed is added to
/// it, Backspace takes the last character away, and Enter and Escape end it
/// and keep the selection. No key leaves the sidebar.
pub proof fn law_search_is_typed(
    m: Side,
    code: KeyCode,
    t: Seq<char>,
    now: u64,
    q: Seq<char>,
)
    requires
        m.search == Some(q),
    ensures
        !(code == KeyCode::Escape || code == KeyCode::Enter || code == KeyCode::Backspace)
            && t.len() > 0 && crate::text::printable(t) ==> keyed(m, code, Some(t), now).0.search
            == Some(q + t),
        q.len() > 0 ==> keyed(m, KeyCode::Backspace, None, now).0.search == Some(
            q.subrange(0, q.len() - 1),
        ),
        keyed(m, KeyCode::Escape, None, now).0.search is None,
        keyed(m, KeyCode::Enter, None, now).0.search is None,
        keyed(m, KeyCode::Escape, None, now).0.selected == m.selected,
        keyed(m, KeyCode::Enter, None, now).0.selected == m.selected,
        keyed(m, code, Some(t), now).1 is Consumed,
        keyed(m, code, Some(t), now).0.entries == m.entries,
        keyed(m, code, Some(t), now).0.dir == m.dir,
{
    reveal(keyed);
    if q.len() > 0 {
        assert(q.drop_last() =~= q.subrange(0, q.len() - 1));
    }
}

/// A slash begins a search for nothing yet.
pub proof fn law_slash_begins_a_search(m: Side, code: KeyCode, now: u64)
    requires
        m.search is None,
        code != KeyCode::Escape,
    ensures
        keyed(m, code, Some("/"@), now).0.search == Some(Seq::<char>::empty()),
        keyed(m, code, Some("/"@), now).0.selected == m.selected,
{
    reveal(keyed);
}

proof fn lemma_first_match(entries: Seq<(Seq<char>, bool)>, low: Seq<char>, from: int)
    requires
        0 <= from <= entries.len(),
    ensures
        from <= entry_match(entries, low, from) <= entries.len(),
        entry_match(entries, low, from) < entries.len() ==> has_prefix(
            lowercase(entries[entry_match(entries, low, from)].0),
            low,
        ),
        forall|j: int|
            from <= j < entry_match(entries, low, from) ==> !has_prefix(
                lowercase(#[trigger] entries[j].0),
                low,
            ),
    decreases entries.len() - from,
{
    if from < entries.len() && !has_prefix(lowercase(entries[from].0), low) {
        lemma_first_match(entries, low, from + 1);
    }
}

/// The search selects the first entry whose name begins with what is searched
/// for, whatever its case. Where none does, the selection stays.
pub proof fn law_search_selects_first_match(m: Side, code: KeyCode, t: Seq<char>, now: u64, q: Seq<
    char,
>)
    requires
        m.search == Some(q),
        m.mode == SidebarMode::Files,
        !(code == KeyCode::Escape || code == KeyCode::Enter || code == KeyCode::Backspace),
        t.len() > 0,
        crate::text::printable(t),
    ensures
        ({
            let next = keyed(m, code, Some(t), now).0;
            let up: int = if parent(m.dir) is Some {
                1
            } else {
                0
            };
            let low = lowercase(q + t);
            ||| next.selected == m.selected && forall|j: int|
                0 <= j < m.entries.len() ==> !has_prefix(lowercase(#[trigger] m.entries[j].0), low)
            ||| up <= next.selected < m.entries.len() + up && has_prefix(
                lowercase(m.entries[next.selected - up].0),
                low,
            ) && forall|j: int|
                0 <= j < next.selected - up ==> !has_prefix(
                    lowercase(#[trigger] m.entries[j].0),
                    low,
                )
        }),
{
    reveal(keyed);
    lemma_first_match(m.entries, lowercase(q + t), 0);
    assert((q + t).len() > 0);
}

/// The wheel scrolls the list of files: towards its start where it turns up,
/// and never past its ends.
pub proof fn law_wheel_scrolls_the_list(m: Side, delta: int, now: u64)
    requires
        m.visible,
        m.mode == SidebarMode::Files,
        m.scroll <= scroll_limit(m.entries.len(), crate::sidebar::entry_slots(m)),
    ensures
        ({
            let s = scrolled(m, delta, now).scroll as int;
            let last = scroll_limit(m.entries.len(), crate::sidebar::entry_slots(m)) as int;
            &&& 0 <= s <= last
            &&& 0 <= m.scroll - delta <= last ==> s == m.scroll - delta
            &&& m.scroll - delta < 0 ==> s == 0
            &&& m.scroll - delta > last ==> s == last
        }),
        scrolled(m, delta, now).selected == m.selected,
        scrolled(m, delta, now).entries == m.entries,
{
    reveal(scrolled);
}

// ---------------------------------------------------------------------------
// Rows
// ---------------------------------------------------------------------------

/// What a row does: the heads switch the list and following, the others go to
/// a directory or show a file.
pub proof fn law_rows_are_used(m: Side, path: Seq<char>, now: u64)
    ensures
        performed(m, Act::BrowseDir(path), now).0.dir == path,
        performed(m, Act::BrowseDir(path), now).1 is None,
        performed(m, Act::PreviewFile(path), now) == (m, Some(Ask::PreviewFile(path))),
        performed(m, Act::ToggleFollow, now).0.frozen == !m.frozen,
        performed(m, Act::ToggleMode, now).0.mode != m.mode,
        parent(m.dir) is Some ==> performed(m, Act::BrowseParent, now).0.dir == parent(m.dir)->0,
        parent(m.dir) is None ==> performed(m, Act::BrowseParent, now) == (m, None::<Ask>),
{
    reveal(performed);
}

/// The list of files shows the way up, where there is one, and the entries from
/// the one it is scrolled to on, in their order. A row does what its entry is
/// for.
pub proof fn law_files_are_listed(m: Side, i: int)
    requires
        m.dir_pending is None,
        !m.dir_error,
        0 <= i < shown_entries(m),
    ensures
        ({
            let r = files_rows(m);
            let up: int = if parent(m.dir) is Some {
                1
            } else {
                0
            };
            let e = m.entries[first_entry(m) + i];
            let path = joined(m.dir, e.0);
            &&& first_entry(m) + i < m.entries.len()
            &&& parent(m.dir) is Some ==> r[1].1 == Some(Act::BrowseParent)
            &&& r[0].1 is None
            &&& 1 + up + i < r.len()
            &&& r[1 + up + i].1 == (if e.1 {
                Some(Act::BrowseDir(path))
            } else {
                Some(Act::PreviewFile(path))
            })
            &&& r[1 + up + i] == entry_row(m, first_entry(m) + i)
        }),
        m.scroll <= scroll_limit(m.entries.len(), crate::sidebar::entry_slots(m)) ==> first_entry(m)
            == m.scroll,
{
}

/// The list of changes shows the newest, each with what became of the file,
/// and a row shows its file.
pub proof fn law_changes_are_listed(m: Side, i: int, root: Seq<char>)
    requires
        !m.watch_failed,
        m.watcher is Some,
        m.remote is None,
        m.root == Some(root),
        0 <= i < m.changes.len(),
        i < 5,
    ensures
        i + 1 < changes_rows(m).len(),
        changes_rows(m)[i + 1] == change_row(m, i),
        changes_rows(m)[i + 1].1 == Some(Act::PreviewFile(joined(root, m.changes[i].0))),
        change_look(ChangeKind::New) == ("NEW"@, Color::Green),
        change_look(ChangeKind::Modified) == ("MOD"@, Color::Yellow),
        change_look(ChangeKind::Deleted) == ("DEL"@, Color::Red),
{
}

/// A row about a repository tells its branch, and how many files are staged,
/// changed and not tracked, in this order.
pub proof fn law_repository_is_told(m: Side, g: crate::workspace::Summary)
    requires
        m.info is Some,
        (m.info->0).1 == Some(g),
    ensures
        git_row(m) == plain_row(
            m,
            " git: "@ + g.branch + "  +"@ + decimal(g.staged) + " ~"@ + decimal(g.modified) + " ?"@
                + decimal(g.untracked),
            Color::White,
        ),
{
}

/// The heads of the sidebar switch following and the list.
pub proof fn law_heads_switch(m: Side)
    ensures
        follow_row(m).1 == Some(Act::ToggleFollow),
        mode_row(m).1 == Some(Act::ToggleMode),
{
}

proof fn lemma_act_row(r: Seq<(Seq<Cell>, Option<Act>)>, act: Act, from: int)
    requires
        0 <= from,
    ensures
        from <= act_row(r, act, from),
    decreases r.len() - from,
{
    if from < r.len() && !(r[from].1 is Some && same_act(r[from].1->0, act)) {
        lemma_act_row(r, act, from + 1);
    }
}

/// There are no more rows than fit, with one for a search or the keys while
/// the sidebar has the focus.
pub proof fn law_sidebar_fits(m: Side, now: u64)
    requires
        m.cell.h > 0,
        m.viewport.h >= m.cell.h,
    ensures
        sidebar_rows(m, now).len() <= row_count(m),
        m.focused ==> sidebar_rows(m, now).len() > 0 && sidebar_rows(m, now).last() == hint_row(m),
{
    reveal(sidebar_rows);
    assert(row_count(m) >= 1);
    let room = (row_count(m) - 1) as int;
    let all = body_rows(m, now);
    let cut = if all.len() > room {
        all.subrange(0, room)
    } else {
        all
    };
    if m.focused && selected_act(m) is Some {
        lemma_act_row(cut, selected_act(m)->0, 0);
    }
}

// ---------------------------------------------------------------------------
// Changes
// ---------------------------------------------------------------------------

/// A change that is noted comes first, under its own name. No file is listed
/// twice by it: an earlier change of the same file is taken out, and the others
/// keep their order.
pub proof fn law_noted_change_comes_first(
    changes: Seq<(Seq<char>, ChangeKind)>,
    path: Seq<char>,
    kind: ChangeKind,
)
    ensures
        noted(changes, path, kind).0.len() > 0,
        noted(changes, path, kind).0[0].0 == path,
        noted(changes, path, kind).0[0].1 == noted(changes, path, kind).1,
        (forall|i: int|
            0 <= i < changes.len() ==> !crate::path::path_eq(#[trigger] changes[i].0, path)) ==> noted(
            changes,
            path,
            kind,
        ) == (seq![(path, kind)] + changes, kind),
{
    lemma_not_listed(changes, path, 0);
    lemma_index(changes, path, 0);
    if forall|i: int| 0 <= i < changes.len() ==> !crate::path::path_eq(#[trigger] changes[i].0, path) {
        assert(changes.insert(0, (path, kind)) =~= seq![(path, kind)] + changes);
    }
}

proof fn lemma_index(changes: Seq<(Seq<char>, ChangeKind)>, path: Seq<char>, from: int)
    requires
        0 <= from <= changes.len(),
    ensures
        from <= crate::sidebar::change_index(changes, path, from) <= changes.len(),
    decreases changes.len() - from,
{
    if from < changes.len() && !crate::path::path_eq(changes[from].0, path) {
        lemma_index(changes, path, from + 1);
    }
}

proof fn lemma_not_listed(changes: Seq<(Seq<char>, ChangeKind)>, path: Seq<char>, from: int)
    requires
        0 <= from <= changes.len(),
    ensures
        (forall|i: int|
            0 <= i < changes.len() ==> !crate::path::path_eq(#[trigger] changes[i].0, path))
            ==> crate::sidebar::change_index(changes, path, from) == changes.len(),
    decreases changes.len() - from,
{
    if from < changes.len() {
        lemma_not_listed(changes, path, from + 1);
    }
}

/// Of several changes the last is listed first, and the last file that was not
/// deleted is the one to follow.
pub proof fn law_newest_change_is_followed(
    m: Side,
    root: Seq<char>,
    new: Seq<(Seq<char>, ChangeKind)>,
)
    requires
        new.len() > 0,
    ensures
        changed(m, root, new).changes.len() > 0,
        changed(m, root, new).changes[0].0 == new.last().0,
        changed(m, root, new).changes.len() <= MAX_CHANGES,
        new.last().1 != ChangeKind::Deleted ==> changed(m, root, new).follow_target == Some(
            joined(root, new.last().0),
        ),
        (forall|i: int| 0 <= i < new.len() ==> (#[trigger] new[i]).1 == ChangeKind::Deleted) ==> changed(
            m,
            root,
            new,
        ).follow_target == m.follow_target,
        changed(m, root, Seq::empty()).follow_target == m.follow_target,
{
    let (before, f) = noted_all(m.changes, m.follow_target, root, new.drop_last());
    law_noted_change_comes_first(before, new.last().0, new.last().1);
    lemma_all_deleted(m.changes, m.follow_target, root, new);
}

proof fn lemma_all_deleted(
    changes: Seq<(Seq<char>, ChangeKind)>,
    follow: Option<Seq<char>>,
    root: Seq<char>,
    new: Seq<(Seq<char>, ChangeKind)>,
)
    ensures
        (forall|i: int| 0 <= i < new.len() ==> (#[trigger] new[i]).1 == ChangeKind::Deleted)
            ==> noted_all(changes, follow, root, new).1 == follow,
    decreases new.len(),
{
    if new.len() > 0 {
        lemma_all_deleted(changes, follow, root, new.drop_last());
        if forall|i: int| 0 <= i < new.len() ==> (#[trigger] new[i]).1 == ChangeKind::Deleted {
            assert(new[new.len() - 1].1 == ChangeKind::Deleted);
            assert forall|i: int| 0 <= i < new.drop_last().len() implies (
            #[trigger] new.drop_last()[i]).1 == ChangeKind::Deleted by {
                assert(new.drop_last()[i] == new[i]);
            }
        }
    }
}

/// What a tool reports is listed first and told with its time, and the file is
/// the one to follow, unless it is gone or the shell is on another machine.
pub proof fn law_reports_are_told(
    m: Side,
    root: Seq<char>,
    kind: ChangeKind,
    path: Seq<char>,
    tool: Option<Seq<char>>,
    now: u64,
)
    ensures
        ({
            let next = reported(m, Some(root), kind, path, tool, now);
            &&& next.changes.len() > 0 && next.changes[0].0 == path
            &&& next.activity is Some
            &&& next.activity->0.path == path && next.activity->0.tool == tool
                && next.activity->0.at == now
            &&& m.remote is None && kind != ChangeKind::Deleted ==> next.follow_target == Some(
                joined(root, path),
            )
            &&& m.remote is Some || kind == ChangeKind::Deleted ==> next.follow_target
                == m.follow_target
        }),
{
    reveal(reported);
    law_noted_change_comes_first(m.changes, path, kind);
}

/// Stopping to follow forgets what was to be followed; taking it up again
/// changes nothing else.
pub proof fn law_following_is_stopped(m: Side, now: u64)
    ensures
        performed(m, Act::ToggleFollow, now).0.frozen != m.frozen,
        !m.frozen ==> performed(m, Act::ToggleFollow, now).0.follow_target is None,
        m.frozen ==> performed(m, Act::ToggleFollow, now).0.follow_target == m.follow_target,
{
    reveal(performed);
}

// ---------------------------------------------------------------------------
// What comes in
// ---------------------------------------------------------------------------

/// A directory that was read is listed where it is still the one shown; one
/// that cannot be read is told to be so.
pub proof fn law_read_directory_is_listed(m: Side, entries: Vec<(String, bool)>, error: String)
    requires
        m.dir_pending is Some,
        crate::path::path_eq(m.dir_pending->0, m.dir),
    ensures
        ({
            let next = dir_heard(m, BrowsePoll::Done(Ok(entries))).0;
            &&& next.entries == crate::entries::entry_views(entries@)
            &&& next.dir_pending is None && !next.dir_error
            &&& next.dir == m.dir
        }),
        dir_heard(m, BrowsePoll::Done(Err(error))).0.dir_error,
        dir_heard(m, BrowsePoll::Done(Err(error))).0.entries.len() == 0,
        dir_heard(m, BrowsePoll::Waiting) == (m, false),
        dir_heard(m, BrowsePoll::Lost).0.dir_error,
{
}

/// An answer about the working directory is what is shown of it.
pub proof fn law_answer_is_shown(m: Side, info: crate::workspace::WorkspaceInfo)
    requires
        m.info_pending is Some,
    ensures
        workspace_heard(m, WorkspacePoll::Done(info)).0.info is Some,
        (workspace_heard(m, WorkspacePoll::Done(info)).0.info->0).0 == info.cwd@,
        workspace_heard(m, WorkspacePoll::Done(info)).0.info_pending is None,
        workspace_heard(m, WorkspacePoll::Done(info)).1,
        workspace_heard(m, WorkspacePoll::Waiting) == (m, false),
{
}

/// A watcher that is ready watches, and one that failed is told to have.
pub proof fn law_watcher_is_heard(m: Side, partial: bool, root: Seq<char>)
    requires
        m.watcher_pending == Some(root),
        m.root == Some(root),
        crate::path::path_eq(root, root),
    ensures
        watcher_heard(m, WatcherPoll::Ready { partial }).0.watcher == Some(partial),
        watcher_heard(m, WatcherPoll::Failed).0.watch_failed,
        watcher_heard(m, WatcherPoll::Lost).0.watch_failed,
        watcher_heard(m, WatcherPoll::Waiting) == (m, false),
{
}

/// A shell in another directory has the sidebar look at that one: it is
/// listed, watched and asked about.
pub proof fn law_sidebar_goes_along(m: Side, cwd: Seq<char>, now: u64)
    requires
        m.root is None || !crate::path::path_eq(m.root->0, cwd),
        m.mode == SidebarMode::Files,
        m.info_pending is None,
    ensures
        ({
            let next = refreshed(m, cwd, now);
            &&& next.dir == cwd
            &&& next.root == Some(cwd)
            &&& next.changes.len() == 0
            &&& next.follow_target is None
            &&& next.tasks == m.tasks.push(Task::ReadDir(cwd)).push(Task::SpawnWatcher(cwd)).push(
                Task::CollectWorkspace(cwd),
            )
            &&& next.last_refresh == Some(now)
        }),
{
}

/// A shell on another machine has nothing local shown, and its place is told.
pub proof fn law_remote_shell_is_told(m: Side, host: Seq<char>, path: Seq<char>, now: u64)
    requires
        m.remote is None,
    ensures
        ({
            let next = gone_remote(m, host, path, now);
            &&& next.remote == Some((host, path))
            &&& next.info is None && next.root is None && next.watcher is None
            &&& next.changes.len() == 0 && next.entries.len() == 0
            &&& next.follow_target is None
        }),
{
}

/// A hidden sidebar has no focus, and one that is shown again is shown for the
/// place that the shell is at.
pub proof fn law_sidebar_is_shown_and_hidden(m: Side, cwd: String, now: u64)
    ensures
        toggled(m, ShellLocation::Local(cwd), now).visible == !m.visible,
        m.visible ==> !toggled(m, ShellLocation::Local(cwd), now).focused,
        !m.visible ==> toggled(m, ShellLocation::Local(cwd), now).last_refresh == Some(now),
        !m.visible ==> toggled(m, ShellLocation::Local(cwd), now).remote is None,
        focus_given(m, true, now).focused == m.visible || m.focused,
        !focus_given(m, false, now).focused,
        m.focused ==> focus_given(m, false, now).search is None,
{
    reveal(toggled);
    reveal(focus_given);
}

// ---------------------------------------------------------------------------
// What stands where
// ---------------------------------------------------------------------------

/// For a local shell the directory, the repository and following come first,
/// then what a tool did last, then the switch of the lists, and then the list
/// that is chosen.
pub proof fn law_local_rows_in_order(m: Side, now: u64)
    requires
        m.info is Some,
    ensures
        ({
            let r = local_rows(m, now);
            let n = activity_rows(m, now).len() as int;
            let list = if m.mode == SidebarMode::Changes {
                changes_rows(m)
            } else {
                files_rows(m)
            };
            &&& r[1] == git_row(m)
            &&& r[2] == follow_row(m)
            &&& r[3 + n] == mode_row(m)
            &&& r.len() == 5 + n + list.len()
            &&& r.subrange(5 + n, r.len() as int) == list
        }),
        m.remote is None ==> body_rows(m, now) == local_rows(m, now),
        m.remote is Some ==> body_rows(m, now) == remote_rows(m, now),
{
    let r = local_rows(m, now);
    let n = activity_rows(m, now).len() as int;
    let list = if m.mode == SidebarMode::Changes {
        changes_rows(m)
    } else {
        files_rows(m)
    };
    assert(r.subrange(5 + n, r.len() as int) =~= list);
}

/// What a tool did last is told for a minute.
pub proof fn law_activity_is_told_for_a_minute(m: Side, now: u64)
    requires
        m.activity is Some,
        now >= m.activity->0.at,
    ensures
        now - m.activity->0.at <= 60_000_000_000 ==> activity_rows(m, now).len() == 1,
        now - m.activity->0.at > 60_000_000_000 ==> activity_rows(m, now).len() == 0,
{
}

/// The list that is shown stands in brackets in the row that switches lists.
pub proof fn law_chosen_list_is_bracketed(m: Side)
    ensures
        m.mode == SidebarMode::Changes ==> mode_row(m) == seg_row(
            m,
            seq![
                (" "@, Color::White),
                ("[changes]"@, Color::BrightWhite),
                ("  "@, Color::White),
                (" files "@, Color::BrightWhite),
            ],
            Some(Act::ToggleMode),
        ),
        m.mode == SidebarMode::Files ==> mode_row(m) == seg_row(
            m,
            seq![
                (" "@, Color::White),
                (" changes "@, Color::BrightWhite),
                ("  "@, Color::White),
                ("[files]"@, Color::BrightWhite),
            ],
            Some(Act::ToggleMode),
        ),
{
}

/// Following that is stopped is told to be, and has a mark of its own.
pub proof fn law_stopped_following_is_told(m: Side)
    ensures
        m.frozen ==> follow_row(m).0 == seg_cells(
            seq![
                (" "@, Color::White),
                ("⏸"@, Color::BrightYellow),
                (" "@, Color::White),
                ("追従: フリーズ中"@, Color::White),
                ("  (Ctrl+Shift+P)"@, Color::Rgb { rgba: 0x565F_89FF }),
            ],
            columns(m),
        ),
        !m.frozen ==> follow_row(m).0 == seg_cells(
            seq![
                (" "@, Color::White),
                ("●"@, Color::Green),
                (" "@, Color::White),
                ("追従: 自動"@, Color::White),
                ("  (Ctrl+Shift+P)"@, Color::Rgb { rgba: 0x565F_89FF }),
            ],
            columns(m),
        ),
{
}

/// An entry is told by its icon and its name, in the colour of its kind, and a
/// directory by a slash behind it.
pub proof fn law_entries_are_told(m: Side, i: int)
    requires
        0 <= i < m.entries.len(),
    ensures
        ({
            let (name, is_dir) = m.entries[i];
            let full = if is_dir {
                name + "/"@
            } else {
                name
            };
            entry_row(m, i).0 == text_cells(
                ("  "@).push(look(name, is_dir).0) + "  "@ + abbreviated(
                    full,
                    sat_sub(columns(m), 5),
                ),
                look(name, is_dir).1,
                columns(m),
            )
        }),
{
    reveal_strlit("");
    let (name, is_dir) = m.entries[i];
    assert(name + ""@ =~= name);
}

/// A change is told by its kind and its file.
pub proof fn law_changes_are_told(m: Side, i: int)
    requires
        0 <= i < m.changes.len(),
    ensures
        change_row(m, i).0 == seg_cells(
            seq![
                ("   "@, Color::White),
                (change_look(m.changes[i].1).0, change_look(m.changes[i].1).1),
                ("  "@, Color::White),
                (abbreviated(m.changes[i].0, sat_sub(columns(m), 10)), Color::White),
            ],
            columns(m),
        ),
{
}

/// What is searched for stands in the last row.
pub proof fn law_search_is_shown(m: Side, q: Seq<char>)
    requires
        m.search == Some(q),
    ensures
        hint_row(m).0 == text_cells(" /"@ + q + "_"@, Color::BrightYellow, columns(m)),
{
}

/// Everything about the working directory is asked for anew after five seconds,
/// and at once in another directory.
pub proof fn law_directory_is_asked_about(m: Side, cwd: Seq<char>, now: u64)
    ensures
        m.last_refresh is None ==> is_stale(m, cwd, now),
        m.info_pending is None && m.info is None ==> is_stale(m, cwd, now),
        m.last_refresh is Some && now - m.last_refresh->0 >= 5_000_000_000 ==> is_stale(
            m,
            cwd,
            now,
        ),
        m.info_pending is Some && !crate::path::path_eq(m.info_pending->0, cwd) ==> is_stale(
            m,
            cwd,
            now,
        ),
        m.info_pending is Some && crate::path::path_eq(m.info_pending->0, cwd) && m.last_refresh
            is Some && now - m.last_refresh->0 < 5_000_000_000 ==> !is_stale(m, cwd, now),
{
}

/// Nothing that a watcher of another directory saw counts; what the watcher of
/// this one saw does, once it is ready.
pub proof fn law_changes_of_the_directory_count(
    m: Side,
    cwd: Seq<char>,
    p: WatcherPoll,
    new: Seq<(Seq<char>, ChangeKind)>,
    partial: bool,
)
    ensures
        m.root is None || !crate::path::path_eq(m.root->0, cwd) ==> drained(
            m,
            cwd,
            p,
            new,
            partial,
        ).0.changes.len() == 0,
        m.root is Some && crate::path::path_eq(m.root->0, cwd) && m.watcher is Some
            && m.watcher_pending is None && new.len() > 0 ==> {
            let r = drained(m, cwd, p, new, partial);
            r.1 && r.0.changes.len() > 0 && r.0.changes[0].0 == new.last().0 && r.0.watcher == Some(
                partial,
            )
        },
        m.root is Some && crate::path::path_eq(m.root->0, cwd) && m.watcher is None
            && m.watcher_pending is None ==> drained(m, cwd, p, new, partial).0.changes
            == m.changes,
{
    if new.len() > 0 {
        law_newest_change_is_followed(Side { watcher: Some(partial), ..m }, cwd, new);
    }
}

/// The list of files takes no more than fifteen rows, with the way up and the
/// row that counts the rest. A list that fits is shown whole.
pub proof fn law_file_list_takes_fifteen_rows(m: Side)
    ensures
        ({
            let up: int = if parent(m.dir) is Some {
                1
            } else {
                0
            };
            let rest = m.entries.len() - first_entry(m) - shown_entries(m);
            &&& up + shown_entries(m) + (if rest > 0 {
                1int
            } else {
                0
            }) <= 15
            &&& m.entries.len() + up <= 15 ==> shown_entries(m) == m.entries.len()
                && first_entry(m) == 0
        }),
{
}

proof fn lemma_first_change(changes: Seq<(Seq<char>, ChangeKind)>, low: Seq<char>, from: int)
    requires
        0 <= from <= changes.len(),
        from <= 5,
    ensures
        ({
            let k = crate::sidebar::change_match(changes, low, from);
            &&& from <= k <= changes.len() && k <= 5
            &&& k < changes.len() && k < 5 ==> crate::sidebar::change_matches(changes[k].0, low)
            &&& forall|j: int|
                from <= j < k ==> !crate::sidebar::change_matches(#[trigger] changes[j].0, low)
        }),
    decreases changes.len() - from,
{
    if from < changes.len() && from < 5 && !crate::sidebar::change_matches(changes[from].0, low) {
        lemma_first_change(changes, low, from + 1);
    }
}

/// In the list of changes the search selects the first file of those listed
/// whose name begins with what is searched for.
pub proof fn law_search_selects_first_change(m: Side, code: KeyCode, t: Seq<char>, now: u64, q: Seq<
    char,
>)
    requires
        m.search == Some(q),
        m.mode == SidebarMode::Changes,
        !(code == KeyCode::Escape || code == KeyCode::Enter || code == KeyCode::Backspace),
        t.len() > 0,
        crate::text::printable(t),
    ensures
        ({
            let next = keyed(m, code, Some(t), now).0;
            let low = lowercase(q + t);
            ||| next.selected == m.selected && forall|j: int|
                0 <= j < m.changes.len() && j < 5 ==> !crate::sidebar::change_matches(
                    #[trigger] m.changes[j].0,
                    low,
                )
            ||| next.selected < m.changes.len() && next.selected < 5
                && crate::sidebar::change_matches(m.changes[next.selected as int].0, low)
                && forall|j: int|
                0 <= j < next.selected ==> !crate::sidebar::change_matches(
                    #[trigger] m.changes[j].0,
                    low,
                )
        }),
{
    reveal(keyed);
    lemma_first_change(m.changes, lowercase(q + t), 0);
    assert((q + t).len() > 0);
}

} // verus!
