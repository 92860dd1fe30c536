//! The rows of the sidebar keep up with its state.

use crate::arrange::workbench_arranged;
use crate::gt::Message;
use crate::keybindings::{KeyBinding, ShortcutAction};
use crate::keys::KeyCode;
use crate::multiplexer::{
    action_done, all_told, asking, awake, bar_drawn, changes_followed, composed, draw_asked,
    editor_entered, editor_left, editor_opened, file_clicked, file_shown, handled, key_handled,
    line_moved, messages_heard, modifiers_set, mouse_moved, mouse_pressed, mouse_released, moved_focus, over_preview, over_side, pane_closed, pane_divided,
    pane_moved, pane_under_focused, passed_on, preview_pressed, shortcut, side_clicked,
    side_entered, side_key, side_left, side_served, side_switched, sight_changed, surface_resized,
    tab_opened, tab_switched, terminal_pressed, to_panes, wheel_turned, window_focused,
    window_resized, Effect, Mux, MuxEvent,
};
use crate::path::path_eq;
use crate::rows::{lesser, sat_sub};
use crate::sidebar::{
    act_at, clicked, entry_match, focus_given, is_stale, jumped, keyed, local_heard, moving,
    performed, redrawn, reported, root_of, scrolled, selectable, selected_act, selecting, shows, sound,
    ticked, toggled, without_last, Act, Ask, KeyOutcome, Side, SidebarPoll, MAX_CHANGES,
};
use crate::sidebar_rows::{
    activity_rows, body_rows, change_row, changes_rows, entry_row, files_rows, local_rows,
    remote_rows, sidebar_rows,
};
use crate::text::{lowercase, opt_text};
use crate::view::{inside, row_at, Viewport};
use crate::vt::ShellLocation;
use crate::watcher::ChangeKind;
use vstd::prelude::*;

verus! {

/// Whether the rows of two sidebars are made from the same things.
pub open spec fn look_alike(a: Side, b: Side) -> bool {
    &&& b == (Side {
        visible: b.visible,
        info_pending: b.info_pending,
        last_refresh: b.last_refresh,
        selected: b.selected,
        follow_target: b.follow_target,
        tasks: b.tasks,
        lines: b.lines,
        acts: b.acts,
        updated: b.updated,
        ..a
    })
    &&& selected_act(a) == selected_act(b)
}

/// Sidebars that look alike have the same rows.
pub proof fn lemma_rows_alike(a: Side, b: Side, now: u64)
    requires
        look_alike(a, b),
    ensures
        sidebar_rows(a, now) == sidebar_rows(b, now),
{
    reveal(sidebar_rows);
    assert(activity_rows(a, now) == activity_rows(b, now));
    assert forall|i: int| change_row(a, i) == change_row(b, i) by {}
    assert forall|i: int| entry_row(a, i) == entry_row(b, i) by {}
    assert(changes_rows(a) =~= changes_rows(b));
    assert(files_rows(a) =~= files_rows(b));
    assert(remote_rows(a, now) =~= remote_rows(b, now));
    assert(local_rows(a, now) =~= local_rows(b, now));
    assert(body_rows(a, now) =~= body_rows(b, now));
}

/// A sidebar that is shown has the rows of its state, as it was at some time.
pub open spec fn in_step(m: Side) -> bool {
    m.visible ==> exists|t: u64| shows(m, t)
}

/// The rows are the ones there were, or they are to be drawn.
pub open spec fn marks_change(before: Side, after: Side) -> bool {
    after.updated || (after.lines == before.lines && !before.updated)
}

/// What one thing that happens to the sidebar keeps.
pub open spec fn keeps_up(before: Side, after: Side) -> bool {
    in_step(after) && marks_change(before, after)
}

/// Rows made anew are those of the state at that time, and are to be drawn.
pub proof fn law_redrawn_shows(m: Side, now: u64)
    requires
        m.visible,
    ensures
        shows(redrawn(m, now), now),
        redrawn(m, now).updated,
{
    lemma_rows_alike(m, redrawn(m, now), now);
}

proof fn lemma_redrawn(now: u64)
    ensures
        forall|m: Side| in_step(#[trigger] redrawn(m, now)) && (m.visible ==> shows(redrawn(m, now), now)),
{
    assert forall|m: Side|
        in_step(#[trigger] redrawn(m, now)) && (m.visible ==> shows(redrawn(m, now), now)) by {
        if m.visible {
            law_redrawn_shows(m, now);
        }
    }
}

proof fn lemma_alike_in_step(a: Side, b: Side)
    requires
        in_step(a),
        look_alike(a, b),
        a.lines == b.lines,
        a.acts == b.acts,
        b.visible ==> a.visible,
    ensures
        in_step(b),
        a.updated == b.updated ==> keeps_up(a, b),
{
    if b.visible {
        let t = choose|t: u64| shows(a, t);
        lemma_rows_alike(a, b, t);
        assert(shows(b, t));
    }
}

proof fn lemma_selecting(m: Side, selected: nat, now: u64)
    requires
        in_step(m),
    ensures
        keeps_up(m, selecting(m, selected, now)),
{
    lemma_redrawn(now);
    if selectable(m) == 0 {
        lemma_alike_in_step(m, selecting(m, selected, now));
    }
}

proof fn lemma_moving(m: Side, delta: int, now: u64)
    requires
        in_step(m),
    ensures
        keeps_up(m, moving(m, delta, now)),
{
    if selectable(m) == 0 {
        lemma_alike_in_step(m, moving(m, delta, now));
    } else {
        let current = lesser(m.selected, (selectable(m) - 1) as nat);
        lemma_selecting(
            m,
            if current + delta < 0 {
                0
            } else {
                (current + delta) as nat
            },
            now,
        );
    }
}

/// A row that is used leaves the rows in step with the state.
pub proof fn law_row_keeps_up(m: Side, a: Act, now: u64)
    requires
        in_step(m),
    ensures
        keeps_up(m, performed(m, a, now).0),
{
    reveal(performed);
    lemma_redrawn(now);
}

/// A click leaves the rows in step with the state.
pub proof fn law_click_keeps_up(m: Side, x: int, y: int, now: u64)
    requires
        in_step(m),
    ensures
        keeps_up(m, clicked(m, x, y, now).0),
{
    match act_at(m, x, y) {
        Some(a) => {
            law_row_keeps_up(m, a, now);
        },
        None => {},
    }
}

/// A click does what the row under it does, as the state says at some time.
pub proof fn law_click_goes_by_the_rows(m: Side, x: int, y: int)
    requires
        in_step(m),
        m.visible,
        inside(m.viewport, x, y),
    ensures
        exists|t: u64|
            shows(m, t) && act_at(m, x, y) == ({
                let r = sidebar_rows(m, t);
                let k = row_at(m.viewport, m.cell.h, y) as int;
                if k < r.len() {
                    r[k].1
                } else {
                    None
                }
            }),
{
    let t = choose|t: u64| shows(m, t);
    assert(shows(m, t));
}

proof fn lemma_jumped(m: Side, now: u64)
    requires
        m.search is Some,
    ensures
        in_step(jumped(m, now)),
        marks_change(m, jumped(m, now)),
{
    lemma_redrawn(now);
    lemma_found(m.entries, lowercase(m.search->0), 0);
}

proof fn lemma_found(entries: Seq<(Seq<char>, bool)>, low: Seq<char>, from: int)
    requires
        0 <= from,
    ensures
        0 <= entry_match(entries, low, from),
    decreases entries.len() - from,
{
    if from < entries.len() {
        lemma_found(entries, low, from + 1);
    }
}

/// A key leaves the rows in step with the state.
pub proof fn law_key_keeps_up(m: Side, code: KeyCode, text: Option<Seq<char>>, now: u64)
    requires
        in_step(m),
    ensures
        keeps_up(m, keyed(m, code, text, now).0),
{
    reveal(keyed);
    lemma_redrawn(now);
    match m.search {
        Some(q) => {
            lemma_jumped(Side { search: Some(without_last(q)), ..m }, now);
            if text is Some {
                lemma_jumped(Side { search: Some(q + text->0), ..m }, now);
            }
        },
        None => {
            lemma_moving(m, -1, now);
            lemma_moving(m, 1, now);
            lemma_selecting(m, 0, now);
            lemma_selecting(m, sat_sub(selectable(m), 1), now);
            if selected_act(m) is Some {
                law_row_keeps_up(m, selected_act(m)->0, now);
            }
            law_row_keeps_up(m, Act::BrowseParent, now);
        },
    }
}

/// The wheel leaves the rows in step with the state.
pub proof fn law_wheel_keeps_up(m: Side, delta: int, now: u64)
    requires
        in_step(m),
    ensures
        keeps_up(m, scrolled(m, delta, now)),
{
    reveal(scrolled);
    lemma_redrawn(now);
}

/// The focus that comes or goes leaves the rows in step with the state.
pub proof fn law_focus_keeps_up(m: Side, focused: bool, now: u64)
    requires
        in_step(m),
    ensures
        keeps_up(m, focus_given(m, focused, now)),
{
    reveal(focus_given);
    lemma_redrawn(now);
}

/// Another rectangle leaves the rows in step with the state.
pub proof fn law_place_keeps_up(m: Side, viewport: Viewport, now: u64)
    ensures
        keeps_up(m, redrawn(Side { viewport, ..m }, now)),
{
    lemma_redrawn(now);
}

/// A change that a tool reports leaves the rows in step with the state.
pub proof fn law_report_keeps_up(
    m: Side,
    root: Option<Seq<char>>,
    kind: ChangeKind,
    path: Seq<char>,
    tool: Option<Seq<char>>,
    now: u64,
)
    ensures
        keeps_up(m, reported(m, root, kind, path, tool, now)),
{
    reveal(reported);
    lemma_redrawn(now);
}

/// A sidebar that was hidden is shown with the rows of its state.
pub proof fn law_toggle_keeps_up(m: Side, location: ShellLocation, now: u64)
    requires
        sound(m),
    ensures
        keeps_up(m, toggled(m, location, now)),
        !m.visible ==> shows(toggled(m, location, now), now),
{
    reveal(toggled);
    lemma_redrawn(now);
}

/// The regular look at what has changed leaves the rows in step with the
/// state, as long as what is watched stays watched in whole or in part as it
/// was: that alone is only taken up with the next rows.
pub proof fn law_tick_keeps_up(m: Side, location: ShellLocation, poll: SidebarPoll, now: u64)
    requires
        in_step(m),
        sound(m),
        m.changes.len() <= MAX_CHANGES,
        m.watcher is Some ==> m.watcher == Some(poll.partial),
    ensures
        keeps_up(m, ticked(m, location, poll, now)),
{
    reveal(ticked);
    lemma_redrawn(now);
    match location {
        ShellLocation::Local(cwd) => {
            let (c, redraw) = local_heard(m, cwd@, poll);
            if m.visible && m.remote is None && !redraw && !is_stale(c, cwd@, now) {
                assert(m.root is Some && path_eq(m.root->0, cwd@));
                if m.watcher_pending is Some {
                    assert(path_eq(m.root->0, m.watcher_pending->0));
                }
                assert(c.watcher == m.watcher);
                lemma_alike_in_step(m, c);
            }
        },
        _ => {},
    }
}

/// Work that is taken, a file to follow that is taken, and rows that are drawn
/// leave the rows in step with the state.
pub proof fn law_taking_keeps_up(m: Side)
    requires
        in_step(m),
    ensures
        keeps_up(m, Side { tasks: Seq::empty(), ..m }),
        keeps_up(m, Side { follow_target: None, ..m }),
        in_step(Side { updated: false, ..m }),
{
    lemma_alike_in_step(m, Side { tasks: Seq::empty(), ..m });
    lemma_alike_in_step(m, Side { follow_target: None, ..m });
    lemma_alike_in_step(m, Side { updated: false, ..m });
}

// ---------------------------------------------------------------------------
// In the window
// ---------------------------------------------------------------------------

proof fn lemma_entered(m: Mux, now: u64)
    requires
        in_step(m.side),
    ensures
        keeps_up(m.side, side_entered(m, now).side),
{
    reveal(side_entered);
    law_focus_keeps_up(m.side, true, now);
}

proof fn lemma_left(m: Mux, now: u64)
    requires
        in_step(m.side),
    ensures
        keeps_up(m.side, side_left(m, now).side),
{
    reveal(side_left);
    law_focus_keeps_up(m.side, false, now);
}

proof fn lemma_served(m: Mux, a: Ask, now: u64)
    ensures
        side_served(m, a, now).side == m.side,
{
    reveal(side_served);
    reveal(file_shown);
}

proof fn lemma_switched(m: Mux, location: ShellLocation, now: u64)
    requires
        in_step(m.side),
        sound(m.side),
    ensures
        keeps_up(m.side, side_switched(m, location, now).side),
{
    reveal(side_switched);
    reveal(editor_left);
    law_toggle_keeps_up(m.side, location, now);
    let t = Mux { side: toggled(m.side, location, now), ..m };
    lemma_entered(m, now);
    lemma_entered(asking(t, Effect::Relayout), now);
    lemma_left(t, now);
}

proof fn lemma_done(m: Mux, a: ShortcutAction, location: ShellLocation, now: u64)
    requires
        in_step(m.side),
        sound(m.side),
    ensures
        keeps_up(m.side, action_done(m, a, location, now).side),
{
    reveal(action_done);
    match a {
        ShortcutAction::NewTab => {
            reveal(tab_opened);
            reveal(bar_drawn);
        },
        ShortcutAction::ClosePane => {
            reveal(pane_closed);
            reveal(bar_drawn);
        },
        ShortcutAction::NextTab | ShortcutAction::PrevTab => {
            reveal(tab_switched);
            reveal(bar_drawn);
        },
        ShortcutAction::SplitVertical | ShortcutAction::SplitHorizontal => {
            reveal(pane_divided);
        },
        ShortcutAction::ToggleSidebar => {
            lemma_switched(m, location, now);
        },
        ShortcutAction::FocusLeft | ShortcutAction::FocusRight | ShortcutAction::FocusUp
        | ShortcutAction::FocusDown => {
            reveal(moved_focus);
            reveal(pane_moved);
            lemma_entered(m, now);
            lemma_left(m, now);
        },
        _ => {
            reveal(line_moved);
        },
    }
}

proof fn lemma_side_key(
    m: Mux,
    pressed: bool,
    code: Option<KeyCode>,
    text: Option<Seq<char>>,
    now: u64,
)
    requires
        in_step(m.side),
    ensures
        keeps_up(m.side, side_key(m, pressed, code, text, now).side),
{
    reveal(side_key);
    if pressed && code is Some {
        law_key_keeps_up(m.side, code->0, text, now);
        let (side, out) = keyed(m.side, code->0, text, now);
        let q = Mux { side, ..m };
        match out {
            KeyOutcome::Consumed => {},
            KeyOutcome::ReleaseFocus => {
                lemma_left(q, now);
            },
            KeyOutcome::Request(a) => {
                lemma_served(q, a, now);
            },
        }
    }
}

proof fn lemma_key(
    m: Mux,
    pressed: bool,
    code: Option<KeyCode>,
    text: Option<Seq<char>>,
    table: Seq<(KeyBinding, ShortcutAction)>,
    location: ShellLocation,
    now: u64,
)
    requires
        in_step(m.side),
        sound(m.side),
    ensures
        keeps_up(m.side, key_handled(m, pressed, code, text, table, location, now).side),
{
    reveal(key_handled);
    reveal(awake);
    let w = if pressed {
        awake(m, now)
    } else {
        m
    };
    match shortcut(table, w.modifiers, pressed, code) {
        Some(a) => {
            lemma_done(w, a, location, now);
        },
        None => {
            lemma_side_key(w, pressed, code, text, now);
        },
    }
}

proof fn lemma_pressed(m: Mux, now: u64)
    requires
        in_step(m.side),
    ensures
        keeps_up(m.side, mouse_pressed(m, now).side),
{
    reveal(mouse_pressed);
    if over_side(m) {
        lemma_entered(m, now);
    } else if over_preview(m) {
        reveal(preview_pressed);
        reveal(editor_entered);
        law_focus_keeps_up(m.side, false, now);
    } else {
        reveal(terminal_pressed);
        reveal(editor_left);
        reveal(pane_under_focused);
        lemma_left(m, now);
    }
}

/// Whatever happens to the window, the rows of the sidebar stay in step with
/// its state.
pub proof fn law_window_keeps_up(
    m: Mux,
    event: MuxEvent,
    table: Seq<(KeyBinding, ShortcutAction)>,
    location: ShellLocation,
    now: u64,
)
    requires
        in_step(m.side),
        sound(m.side),
    ensures
        keeps_up(m.side, handled(m, event, table, location, now).side),
{
    reveal(handled);
    match event {
        MuxEvent::Key { pressed, synthetic, code, text } => {
            lemma_key(m, pressed, code, opt_text(text), table, location, now);
        },
        MuxEvent::MousePressed => {
            lemma_pressed(m, now);
        },
        MuxEvent::MouseWheel { side_rows, reader_rows } => {
            reveal(wheel_turned);
            law_wheel_keeps_up(m.side, side_rows as int, now);
        },
        MuxEvent::Resized { w, h } => {
            reveal(window_resized);
            reveal(surface_resized);
            reveal(bar_drawn);
        },
        MuxEvent::ScaleFactorChanged { w, h } => {
            reveal(surface_resized);
            reveal(bar_drawn);
        },
        MuxEvent::Focused(gain) => {
            reveal(window_focused);
        },
        MuxEvent::Occluded(hidden) => {
            reveal(sight_changed);
        },
        MuxEvent::RedrawRequested { minimized } => {
            reveal(draw_asked);
        },
        MuxEvent::ModifiersChanged(mods) => {
            reveal(modifiers_set);
            reveal(to_panes);
        },
        MuxEvent::CursorMoved { x, y } => {
            reveal(mouse_moved);
            reveal(to_panes);
        },
        MuxEvent::MouseReleased => {
            reveal(mouse_released);
            reveal(passed_on);
        },
        MuxEvent::Ime => {
            reveal(composed);
            reveal(passed_on);
        },
        MuxEvent::Other => {
            reveal(passed_on);
        },
        _ => {},
    }
}

/// A click on a row of the sidebar leaves the rows in step with the state.
pub proof fn law_window_click_keeps_up(m: Mux, now: u64)
    requires
        in_step(m.side),
    ensures
        keeps_up(m.side, side_clicked(m, now).side),
{
    reveal(side_clicked);
    let (x, y) = (m.cursor.0 as int, m.cursor.1 as int);
    law_click_keeps_up(m.side, x, y, now);
    let (side, ask) = clicked(m.side, x, y, now);
    if ask is Some {
        lemma_served(Mux { side, ..m }, ask->0, now);
    }
}

/// What the window looks after regularly leaves the rows in step with the
/// state, where the sidebar's own look does.
pub proof fn law_window_tick_keeps_up(
    m: Mux,
    location: ShellLocation,
    poll: SidebarPoll,
    now: u64,
)
    requires
        in_step(m.side),
        sound(m.side),
        m.side.changes.len() <= MAX_CHANGES,
        m.side.watcher is Some ==> m.side.watcher == Some(poll.partial),
    ensures
        keeps_up(m.side, changes_followed(m, location, poll, now).side),
{
    if m.side.visible {
        law_tick_keeps_up(m.side, location, poll, now);
        law_taking_keeps_up(ticked(m.side, location, poll, now));
    }
}

/// Messages of programs in terminals leave the rows in step with the state.
pub proof fn law_window_messages_keep_up(m: Mux, messages: Seq<Message>, now: u64)
    requires
        in_step(m.side),
    ensures
        keeps_up(m.side, messages_heard(m, messages, now).side),
{
    if m.side.visible {
        lemma_all_told(m, messages, messages.len() as int, now);
    }
}

proof fn lemma_all_told(m: Mux, messages: Seq<Message>, n: int, now: u64)
    requires
        in_step(m.side),
    ensures
        keeps_up(m.side, all_told(m, messages, n, now).side),
    decreases n,
{
    if n > 0 {
        lemma_all_told(m, messages, n - 1, now);
        let q = all_told(m, messages, n - 1, now);
        match messages[n - 1] {
            Message::Event { kind, path, tool } => {
                law_report_keeps_up(q.side, root_of(q.side), kind, path, tool, now);
            },
            _ => {},
        }
    }
}

/// A click on the name of a file leaves the rows in step with the state.
pub proof fn law_window_file_keeps_up(m: Mux, path: Seq<char>, location: ShellLocation, now: u64)
    requires
        in_step(m.side),
        sound(m.side),
    ensures
        keeps_up(m.side, file_clicked(m, path, location, now).side),
{
    reveal(file_clicked);
    law_toggle_keeps_up(m.side, location, now);
}

/// An editor that is opened leaves the rows in step with the state.
pub proof fn law_window_editor_keeps_up(
    m: Mux,
    path: Seq<char>,
    command: Seq<Seq<char>>,
    exists: bool,
    now: u64,
)
    requires
        in_step(m.side),
    ensures
        keeps_up(m.side, editor_opened(m, path, command, exists, now).side),
{
    reveal(editor_opened);
    law_focus_keeps_up(m.side, false, now);
}

/// Rectangles worked out anew leave the rows in step with the state.
pub proof fn law_window_layout_keeps_up(m: Mux, side_mid: u32, preview_mid: u32, now: u64)
    requires
        in_step(m.side),
    ensures
        keeps_up(m.side, workbench_arranged(m, side_mid, preview_mid, now).side),
{
    reveal(workbench_arranged);
    lemma_redrawn(now);
}

} // verus!
