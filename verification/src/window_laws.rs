//! Where the events of the window go.

use crate::config::{editor_command, user_dir};
use crate::gt::{after_piece, Message};
use crate::keybindings::{KeyBinding, ShortcutAction};
use crate::keys::{KeyCode, ModifiersState};
use crate::layout::{focused, focused_on, leaves, Node};
use crate::multiplexer::{
    all_panes, awake, bar_drawn, blink_phase, blinked, candidates, changes_followed, composed,
    draw_asked, editor_closed, editor_entered, editor_left, editor_opened, file_clicked, file_shown,
    handled, key_handled, leaf_of, modifiers_set, mouse_moved, mouse_pressed, mouse_released,
    over_preview, over_side, pane_under_focused, panes_at, passed_on, place_of, preview_pressed,
    read_heard, reader_served, shortcut, side_entered, side_left, side_served, sight_changed,
    surface_resized, tab_cells, tab_label, terminal_pressed, to_panes, told, wheel_turned,
    window_resized, without_tab, Effect, Mux, MuxEvent,
};
use crate::path::{components, joined, parent};
use crate::reader::{remote_shown, scrolled_by};
use crate::sidebar::{root_of, Ask};
use crate::terminal::Color;
use crate::text::{decimal, pieces, words};
use crate::view::{inside, Viewport};
use crate::vt::ShellLocation;
use vstd::prelude::*;

verus! {

// ---------------------------------------------------------------------------
// Keys
// ---------------------------------------------------------------------------

/// A key that is no shortcut goes to what has the focus: the editor, or else the
/// pane with the focus of the tab that is shown.
pub proof fn law_keys_go_to_the_focus(
    m: Mux,
    pressed: bool,
    code: Option<KeyCode>,
    text: Option<Seq<char>>,
    table: Seq<(KeyBinding, ShortcutAction)>,
    location: ShellLocation,
    now: u64,
)
    requires
        m.focus < m.tabs.len(),
        m.blink_on,
        !m.side_focused,
        shortcut(table, m.modifiers, pressed, code) is None,
    ensures
        ({
            let q = key_handled(m, pressed, code, text, table, location, now);
            &&& m.editor_focused && m.editor is Some ==> q.effects == m.effects.push(
                Effect::Forward { pane: m.editor->0, clicks: false },
            )
            &&& !m.editor_focused ==> q.effects == m.effects.push(
                Effect::Forward { pane: focused(m.tabs[m.focus as int]), clicks: false },
            )
            &&& q.tabs == m.tabs && q.focus == m.focus && q.side == m.side && q.reader == m.reader
        }),
{
    reveal(key_handled);
    reveal(awake);
    reveal(leaf_of);
}

/// A key that goes down shows the cursor, from when it blinks anew.
pub proof fn law_keys_show_the_cursor(m: Mux, now: u64)
    requires
        m.focus < m.tabs.len(),
    ensures
        awake(m, now).blink_on,
        awake(m, now).blink_start == now,
        !m.blink_on ==> awake(m, now).effects == m.effects.push(
            Effect::BlinkPane { pane: focused(m.tabs[m.focus as int]), on: true },
        ),
        m.blink_on ==> awake(m, now).effects == m.effects,
{
    reveal(awake);
    reveal(leaf_of);
}

/// The cursor is shown for as long as it is not, in turn, beginning with being
/// shown.
pub proof fn law_cursor_blinks(start: u64, rounds: u64, rest: u64)
    requires
        rest < 530_000_000,
        start + rounds * 530_000_000 + rest <= u64::MAX,
    ensures
        blink_phase(start, (start + rounds * 530_000_000 + rest) as u64) <==> rounds % 2 == 0,
{
    let e = rounds * 530_000_000 + rest;
    assert(e / 530_000_000 == rounds) by (nonlinear_arith)
        requires
            e == rounds * 530_000_000 + rest,
            0 <= rest < 530_000_000,
            rounds >= 0,
    ;
}

/// While blinking is off, the cursor stays as it is.
pub proof fn law_cursor_stays(m: Mux, now: u64)
    ensures
        blinked(m, false, now) == m,
        blinked(m, true, now).blink_on == blink_phase(m.blink_start, now),
{
}

// ---------------------------------------------------------------------------
// The mouse
// ---------------------------------------------------------------------------

proof fn lemma_panes_at(places: Seq<(u64, Viewport)>, panes: Seq<u64>, x: int, y: int, p: u64)
    ensures
        panes_at(places, panes, x, y).contains(p) <==> panes.contains(p) && inside(
            place_of(places, p),
            x,
            y,
        ),
    decreases panes.len(),
{
    if panes.len() > 0 {
        let before = panes.drop_last();
        let some = panes_at(places, before, x, y);
        let all = panes_at(places, panes, x, y);
        lemma_panes_at(places, before, x, y, p);
        if panes.contains(p) {
            let i = choose|i: int| 0 <= i < panes.len() && panes[i] == p;
            if i < before.len() {
                assert(before[i] == p);
            }
        }
        if before.contains(p) {
            let i = choose|i: int| 0 <= i < before.len() && before[i] == p;
            assert(panes[i] == p);
        }
        assert(panes[panes.len() - 1] == panes.last());
        if some.contains(p) {
            let i = choose|i: int| 0 <= i < some.len() && some[i] == p;
            assert(all[i] == p);
        }
        if all.contains(p) {
            let i = choose|i: int| 0 <= i < all.len() && all[i] == p;
            if i < some.len() {
                assert(some[i] == p);
            }
        }
        if inside(place_of(places, panes.last()), x, y) {
            assert(all[all.len() - 1] == panes.last());
        }
    }
}

proof fn lemma_focused_on(n: Node, panes: Seq<u64>)
    ensures
        focused_on(n, panes) is Some ==> panes.contains(focused(focused_on(n, panes)->0)) && leaves(
            focused_on(n, panes)->0,
        ) == leaves(n) && leaves(n).contains(focused(focused_on(n, panes)->0)),
        focused_on(n, panes) is None ==> forall|p: u64|
            leaves(n).contains(p) ==> !#[trigger] panes.contains(p),
    decreases n,
{
    match n {
        Node::Leaf(p) => {
            assert(leaves(n)[0] == p);
        },
        Node::Split { first, second, .. } => {
            lemma_focused_on(*first, panes);
            lemma_focused_on(*second, panes);
            let a = leaves(*first);
            let b = leaves(*second);
            assert forall|p: u64| (a + b).contains(p) <==> a.contains(p) || b.contains(p) by {
                if a.contains(p) {
                    let i = choose|i: int| 0 <= i < a.len() && a[i] == p;
                    assert((a + b)[i] == p);
                }
                if b.contains(p) {
                    let i = choose|i: int| 0 <= i < b.len() && b[i] == p;
                    assert((a + b)[a.len() + i] == p);
                }
            }
        },
    }
}

/// A button that goes down over the terminal gives the focus to a pane that the
/// mouse is over, and hands it the click. Where it is over none, the pane with
/// the focus keeps it.
pub proof fn law_click_focuses_the_pane_under_it(m: Mux, now: u64)
    requires
        m.focus < m.tabs.len(),
        !over_side(m),
        !over_preview(m),
    ensures
        ({
            let q = mouse_pressed(m, now);
            let p = focused(q.tabs[q.focus as int]);
            let panes = leaves(m.tabs[m.focus as int]);
            let (x, y) = (m.cursor.0 as int, m.cursor.1 as int);
            &&& q.focus == m.focus
            &&& q.effects.last() == (Effect::Forward { pane: p, clicks: true })
            &&& !q.side_focused && !q.editor_focused || (m.side_focused && m.editor_focused)
            &&& (exists|o: u64| #[trigger]
                panes.contains(o) && inside(place_of(m.places, o), x, y)) ==> panes.contains(p)
                && inside(place_of(m.places, p), x, y)
            &&& leaves(q.tabs[q.focus as int]) == panes
        }),
{
    reveal(mouse_pressed);
    reveal(terminal_pressed);
    reveal(pane_under_focused);
    reveal(side_left);
    reveal(editor_left);
    reveal(leaf_of);
    let n = m.tabs[m.focus as int];
    let (x, y) = (m.cursor.0 as int, m.cursor.1 as int);
    let at = panes_at(m.places, leaves(n), x, y);
    lemma_focused_on(n, at);
    if focused_on(n, at) is Some {
        lemma_panes_at(m.places, leaves(n), x, y, focused(focused_on(n, at)->0));
    } else {
        assert forall|o: u64| leaves(n).contains(o) implies !inside(place_of(m.places, o), x, y) by {
            lemma_panes_at(m.places, leaves(n), x, y, o);
            assert(!at.contains(o));
        }
    }
}

/// A button that goes down over the sidebar gives it the focus and lets it see
/// the click; the programs in the panes do not see it.
pub proof fn law_click_on_the_sidebar(m: Mux, now: u64)
    requires
        over_side(m),
    ensures
        mouse_pressed(m, now).side_focused,
        mouse_pressed(m, now).effects.last() == Effect::ClickSidebar,
        mouse_pressed(m, now).tabs == m.tabs,
{
    reveal(mouse_pressed);
    reveal(side_entered);
}

/// A button that goes down over the editor gives it the focus and goes to it.
pub proof fn law_click_on_the_editor(m: Mux, now: u64, pane: u64)
    requires
        !over_side(m),
        over_preview(m),
        m.editor == Some(pane),
    ensures
        mouse_pressed(m, now).editor_focused,
        mouse_pressed(m, now).effects.last() == (Effect::Forward { pane, clicks: false }),
        !m.editor_focused ==> !mouse_pressed(m, now).side_focused,
{
    reveal(mouse_pressed);
    reveal(preview_pressed);
    reveal(editor_entered);
}

/// The wheel turns what the mouse is over: the list of the sidebar, the
/// preview, or else it goes to the pane with the focus.
pub proof fn law_wheel_turns_what_is_under_it(m: Mux, side_rows: i32, reader_rows: i32, now: u64)
    requires
        m.focus < m.tabs.len(),
    ensures
        ({
            let q = wheel_turned(m, side_rows, reader_rows, now);
            &&& over_side(m) ==> q.reader == m.reader && q.effects == m.effects && q.side
                == crate::sidebar::scrolled(m.side, side_rows as int, now)
            &&& !over_side(m) && over_preview(m) && m.editor is None && reader_rows != 0 ==> q.side
                == m.side && q.reader == scrolled_by(m.reader, -(reader_rows as int)) && q.effects
                == m.effects
            &&& !over_side(m) && !over_preview(m) ==> q.side == m.side && q.reader == m.reader
                && q.effects == m.effects.push(
                Effect::Forward { pane: focused(m.tabs[m.focus as int]), clicks: false },
            )
        }),
{
    reveal(wheel_turned);
    reveal(leaf_of);
}

/// The mouse is where it was last seen, and every pane of the tab that is shown
/// hears of it.
pub proof fn law_mouse_moves(m: Mux, x: i64, y: i64, i: int)
    requires
        m.focus < m.tabs.len(),
        0 <= i < leaves(m.tabs[m.focus as int]).len(),
    ensures
        mouse_moved(m, x, y).cursor == (x, y),
        mouse_moved(m, x, y).effects.len() == m.effects.len() + leaves(
            m.tabs[m.focus as int],
        ).len(),
        mouse_moved(m, x, y).effects[m.effects.len() + i] == (Effect::Forward {
            pane: leaves(m.tabs[m.focus as int])[i],
            clicks: false,
        }),
{
    reveal(mouse_moved);
    reveal(to_panes);
}

// ---------------------------------------------------------------------------
// The window
// ---------------------------------------------------------------------------

/// The window ends when it is asked to.
pub proof fn law_close_ends_the_window(
    m: Mux,
    table: Seq<(KeyBinding, ShortcutAction)>,
    location: ShellLocation,
    now: u64,
)
    ensures
        handled(m, MuxEvent::CloseRequested, table, location, now).effects == m.effects.push(
            Effect::Exit,
        ),
{
    reveal(handled);
}

/// Another size is the size of the window from then on, and everything is put in
/// its place anew. A window without extent keeps its places.
pub proof fn law_size_is_taken(m: Mux, w: u32, h: u32)
    ensures
        window_resized(m, w, h).viewport.x == 0,
        window_resized(m, w, h).viewport.y == 0,
        w > 0 && h > 0 ==> window_resized(m, w, h).viewport.w == w && window_resized(
            m,
            w,
            h,
        ).viewport.h == h,
        w > 0 && h > 0 ==> window_resized(m, w, h).effects == m.effects.push(
            Effect::ResizeSurface { w, h },
        ).push(Effect::Relayout).push(Effect::RequestRedraw),
        w == 0 || h == 0 ==> window_resized(m, w, h).effects == m.effects,
        w > 0 && h > 0 ==> !window_resized(m, w, h).occluded,
{
    reveal(window_resized);
    reveal(surface_resized);
    reveal(bar_drawn);
}

/// What is hidden is not drawn; what can be seen is.
pub proof fn law_hidden_windows_are_not_drawn(m: Mux, minimized: bool)
    ensures
        m.occluded ==> draw_asked(m, minimized) == m,
        minimized ==> draw_asked(m, minimized) == m,
        !m.occluded && !minimized && m.viewport.w > 0 && m.viewport.h > 0 ==> draw_asked(
            m,
            minimized,
        ).effects == m.effects.push(Effect::Draw),
        sight_changed(m, true).occluded,
        !sight_changed(m, false).occluded,
        sight_changed(m, false).effects == m.effects.push(Effect::RequestRedraw),
{
    reveal(draw_asked);
    reveal(sight_changed);
}

/// Every pane of every tab hears of the modifiers.
pub proof fn law_modifiers_are_told(m: Mux, mods: ModifiersState)
    ensures
        modifiers_set(m, mods).modifiers == mods,
        modifiers_set(m, mods).effects.len() == m.effects.len() + all_panes(
            m.tabs,
            m.tabs.len() as int,
        ).len(),
{
    reveal(modifiers_set);
    reveal(to_panes);
}

/// The labels of the tabs are their numbers from one on; that of the tab that is
/// shown stands out.
pub proof fn law_tabs_are_numbered(n: nat, focus: nat, k: int)
    requires
        n > 0,
        0 <= k < tab_label((n - 1) as nat).len(),
    ensures
        ({
            let before = tab_cells((n - 1) as nat, focus);
            let all = tab_cells(n, focus);
            let label = seq![' '] + decimal(n) + seq![' '];
            &&& all.len() == before.len() + label.len()
            &&& all[before.len() + k].ch == label[k]
            &&& n - 1 == focus ==> all[before.len() + k].attr.bg == Color::White
            &&& n - 1 != focus ==> all[before.len() + k].attr.bg == Color::BrightBlack
        }),
{
}

// ---------------------------------------------------------------------------
// The workbench
// ---------------------------------------------------------------------------

/// A file that is clicked on opens the workbench, where it is closed, and is
/// shown in it.
pub proof fn law_clicked_file_is_shown(m: Mux, path: Seq<char>, location: ShellLocation, now: u64)
    ensures
        file_clicked(m, path, location, now).side.visible,
        file_clicked(m, path, location, now).effects.len() >= m.effects.len() + 2,
        ({
            let e = file_clicked(m, path, location, now).effects;
            e[e.len() - 2] == Effect::PreviewFile(path) && e.last() == Effect::Relayout
        }),
{
    reveal(file_clicked);
    reveal(crate::sidebar::toggled);
}

/// What the sidebar asks for happens in the preview: a file is read and shown,
/// it is scrolled, or its file is opened.
pub proof fn law_sidebar_is_served(m: Mux, path: Seq<char>, d: int, now: u64)
    ensures
        side_served(m, Ask::PreviewFile(path), now).reader.pinned,
        side_served(m, Ask::PreviewFile(path), now).reader.preview.target_abs == Some(path),
        side_served(m, Ask::PreviewFile(path), now).effects.len() == m.effects.len() + 1,
        side_served(m, Ask::PreviewFile(path), now).effects.last() is Read,
        side_served(m, Ask::PreviewFile(path), now).effects.last()->path == path,
        side_served(m, Ask::ScrollPreview(d), now).reader == scrolled_by(m.reader, d),
        side_served(m, Ask::ScrollPreview(d), now).effects == m.effects,
{
    reveal(side_served);
    reveal(file_shown);
    reveal(crate::reader::previewed);
}

/// An editor takes the place of the preview: it is started there with the file
/// behind its own words, in the directory of the file, and has the focus. One
/// that was there before ends.
pub proof fn law_editor_takes_the_place_of_the_preview(
    m: Mux,
    path: Seq<char>,
    command: Seq<Seq<char>>,
    now: u64,
)
    requires
        m.next_id < u64::MAX,
        m.editor is None,
    ensures
        ({
            let q = editor_opened(m, path, command, true, now);
            &&& q.editor == Some(m.next_id)
            &&& q.editor_focused && !q.side_focused
            &&& q.next_id == m.next_id + 1
            &&& q.effects.len() > m.effects.len()
            &&& q.effects[m.effects.len() as int] == (Effect::SpawnEditor {
                pane: m.next_id,
                viewport: m.reader.viewport,
                command: command.push(path),
                cwd: parent(path),
            })
        }),
        editor_opened(m, path, command, false, now).editor == m.editor,
        editor_opened(m, path, command, false, now).effects == m.effects,
        editor_opened(m, path, command, false, now).reader.notice is Some,
{
    reveal(editor_opened);
    reveal(crate::reader::editor_missing);
}

/// When the editor has ended the preview comes back and reads its file again,
/// and the terminal has the focus.
pub proof fn law_preview_comes_back(m: Mux, now: u64)
    requires
        m.side.visible,
        m.editor is Some,
        m.focus < m.tabs.len(),
    ensures
        editor_closed(m, true, now).editor is None,
        !editor_closed(m, true, now).editor_focused,
        m.reader.preview.target is Some && m.reader.preview.target_abs is Some ==> editor_closed(
            m,
            true,
            now,
        ).effects[m.effects.len() as int] == (Effect::Read {
            path: m.reader.preview.target_abs->0,
            shown: m.reader.preview.target->0,
            fit: m.reader.preview.fit,
        }),
        editor_closed(m, false, now) == m,
{
    reveal(editor_closed);
    reveal(crate::reader::reread);
}

/// A message about a change goes to the sidebar, and a file that has arrived to
/// the preview.
pub proof fn law_messages_go_to_the_workbench(m: Mux, message: Message, now: u64)
    ensures
        message is Event ==> told(m, message, now).reader == m.reader && told(m, message, now).side
            == crate::sidebar::reported(
            m.side,
            root_of(m.side),
            message->kind,
            message->Event_path,
            message->tool,
            now,
        ),
        message is FileChunk ==> told(m, message, now).side == m.side,
        message is FileChunk ==> ({
            let (_, file) = after_piece(
                m.assembly,
                message->FileChunk_path,
                message->seq,
                message->last,
                message->data,
            );
            &&& file is None ==> told(m, message, now).reader == m.reader
            &&& file is Some ==> told(m, message, now).reader == remote_shown(
                m.reader,
                (file->0).0,
                (file->0).1,
            )
        }),
{
}

/// Nothing of the workbench happens while it is closed.
pub proof fn law_closed_workbench_rests(
    m: Mux,
    location: ShellLocation,
    poll: crate::sidebar::SidebarPoll,
    status: crate::preview::ReadStatus,
    messages: Seq<Message>,
    now: u64,
)
    requires
        !m.side.visible,
    ensures
        changes_followed(m, location, poll, now) == m,
        read_heard(m, status, now) == m,
        crate::multiplexer::messages_heard(m, messages, now) == m,
        !over_side(m),
        !over_preview(m),
{
}

// ---------------------------------------------------------------------------
// The focus
// ---------------------------------------------------------------------------

/// A button that goes up, and text that is composed, go to what has the focus;
/// over the sidebar and the preview a button that goes up does nothing, and the
/// sidebar takes no composed text.
pub proof fn law_other_events_go_to_the_focus(m: Mux)
    requires
        m.focus < m.tabs.len(),
    ensures
        over_side(m) || over_preview(m) ==> mouse_released(m) == m,
        !over_side(m) && !over_preview(m) && !m.editor_focused ==> mouse_released(m).effects
            == m.effects.push(
            Effect::Forward { pane: focused(m.tabs[m.focus as int]), clicks: true },
        ),
        m.side_focused ==> composed(m) == m,
        !m.side_focused && !m.editor_focused ==> composed(m).effects == m.effects.push(
            Effect::Forward { pane: focused(m.tabs[m.focus as int]), clicks: true },
        ),
        !m.side_focused && m.editor_focused && m.editor is Some ==> composed(m).effects
            == m.effects.push(Effect::Forward { pane: m.editor->0, clicks: false }),
{
    reveal(mouse_released);
    reveal(composed);
    reveal(passed_on);
    reveal(leaf_of);
}

/// What loses the focus is told so before what gets it: the pane when the
/// sidebar gets it, and the pane again when it comes back.
pub proof fn law_focus_changes_are_told(m: Mux, now: u64)
    requires
        m.focus < m.tabs.len(),
        m.side.visible,
        !m.editor_focused,
    ensures
        !m.side_focused ==> side_entered(m, now).side_focused && side_entered(m, now).effects
            == m.effects.push(
            Effect::FocusPane { pane: focused(m.tabs[m.focus as int]), gain: false },
        ),
        m.side_focused ==> !side_left(m, now).side_focused && side_left(m, now).effects
            == m.effects.push(
            Effect::FocusPane { pane: focused(m.tabs[m.focus as int]), gain: true },
        ),
        side_left(m, now).side.focused == false,
{
    reveal(side_entered);
    reveal(side_left);
    reveal(leaf_of);
    reveal(crate::sidebar::focus_given);
}

/// The editor is told when it gets the focus and when it loses it.
pub proof fn law_editor_focus_is_told(m: Mux, now: u64, pane: u64)
    requires
        m.focus < m.tabs.len(),
        m.side.visible,
        m.editor == Some(pane),
        !m.side_focused,
    ensures
        !m.editor_focused ==> editor_entered(m, now).editor_focused && editor_entered(
            m,
            now,
        ).effects == m.effects.push(
            Effect::FocusPane { pane: focused(m.tabs[m.focus as int]), gain: false },
        ).push(Effect::FocusPane { pane, gain: true }),
        m.editor_focused ==> !editor_left(m).editor_focused && editor_left(m).effects
            == m.effects.push(Effect::FocusPane { pane, gain: false }).push(
            Effect::FocusPane { pane: focused(m.tabs[m.focus as int]), gain: true },
        ),
{
    reveal(editor_entered);
    reveal(editor_left);
    reveal(leaf_of);
}

/// What the preview asks for is passed on: a file to the editor, or to another
/// program.
pub proof fn law_preview_is_served(m: Mux, path: Seq<char>)
    ensures
        reader_served(m, Some(crate::reader::Action::EditFile(path))).effects == m.effects.push(
            Effect::EditFile(path),
        ),
        reader_served(m, Some(crate::reader::Action::OpenWithSystem(path))).effects
            == m.effects.push(Effect::OpenUrl(path)),
        reader_served(m, None) == m,
{
}

/// A tab that goes leaves the others in their order, and the one that is shown
/// stays shown.
pub proof fn law_other_tabs_stay(m: Mux, i: int, j: int)
    requires
        m.focus < m.tabs.len(),
        0 <= i < m.tabs.len(),
        0 <= j < m.tabs.len(),
        i != j,
    ensures
        without_tab(m, i).tabs.len() == m.tabs.len() - 1,
        j < i ==> without_tab(m, i).tabs[j] == m.tabs[j],
        j > i ==> without_tab(m, i).tabs[j - 1] == m.tabs[j],
        i != m.focus ==> without_tab(m, i).tabs[without_tab(m, i).focus as int]
            == m.tabs[m.focus as int],
{
}

/// The editor is the one of the settings, else that of the environment, else
/// the one of the platform.
pub proof fn law_editor_is_chosen(
    configured: Seq<Seq<char>>,
    env: Seq<char>,
    fallback: Seq<char>,
)
    ensures
        configured.len() > 0 ==> editor_command(configured, Some(env), fallback) == configured,
        configured.len() == 0 && words(env).len() > 0 ==> editor_command(
            configured,
            Some(env),
            fallback,
        ) == words(env),
        configured.len() == 0 ==> editor_command(configured, None, fallback) == seq![fallback],
{
}

/// A directory for the user's files is the one the environment names, else one
/// below the home directory.
pub proof fn law_user_directories(named: Seq<char>, home: Seq<char>, name: Seq<char>)
    ensures
        user_dir(Some(named), Some(home), name) == Some(named),
        user_dir(None, Some(home), name) == Some(joined(home, name)),
        user_dir(None, None, name) is None,
{
}

/// A program with a path of its own is looked for there, any other in each
/// directory of the search path, in their order.
pub proof fn law_programs_are_looked_for(command: Seq<char>, search: Seq<char>, i: int)
    requires
        0 <= i < pieces(search, ':').len(),
    ensures
        components(command).len() > 1 ==> candidates(command, Some(search)) == seq![command],
        components(command).len() <= 1 ==> candidates(command, Some(search)).len() == pieces(
            search,
            ':',
        ).len() && candidates(command, Some(search))[i] == joined(pieces(search, ':')[i], command),
        components(command).len() <= 1 ==> candidates(command, None).len() == 0,
{
}

} // verus!
