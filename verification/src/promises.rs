//! What holds of the window as a whole.

use crate::keybindings::{KeyBinding, ShortcutAction};
use crate::keys::KeyCode;
use crate::layout::{leaves, living, pruned, Node};
use crate::multiplexer::{
    all_panes, asking, awake, bar_drawn, changes_followed, composed, editor_left, file_shown,
    handled, key_handled, leaf_told, reader_served, shortcut, side_entered, side_key, side_left,
    side_served, side_switched, tab_pruned, tab_switched, tabs_pruned, Effect, Mux, MuxEvent,
};
use crate::path::path_eq;
use crate::reader::{
    first_shown, pane_rows, previewed, reread, row_count, shown_rows, document_rows, Reader,
};
use crate::selection::row_now;
use crate::sidebar::{focus_given, ticked, toggled, SidebarPoll};
use crate::vt::ShellLocation;
use crate::window::{key_pressed, wheel_moved, Act, Pane, TerminalModes};
use vstd::prelude::*;

verus! {

/// The effects of `n` are those of `m` and others behind them, none of which
/// hands an event to a pane.
pub open spec fn keeps_to_itself(m: Mux, n: Mux) -> bool {
    &&& m.effects.len() <= n.effects.len()
    &&& n.effects.subrange(0, m.effects.len() as int) == m.effects
    &&& forall|i: int|
        m.effects.len() <= i < n.effects.len() ==> !((#[trigger] n.effects[i]) is Forward)
}

proof fn lemma_kept(m: Mux, e: Effect)
    requires
        !(e is Forward),
    ensures
        keeps_to_itself(m, asking(m, e)),
{
    assert(m.effects.push(e).subrange(0, m.effects.len() as int) =~= m.effects);
}

proof fn lemma_kept_same(m: Mux, n: Mux)
    requires
        n.effects == m.effects,
    ensures
        keeps_to_itself(m, n),
{
    assert(m.effects.subrange(0, m.effects.len() as int) =~= m.effects);
}

proof fn lemma_kept_twice(a: Mux, b: Mux, c: Mux)
    requires
        keeps_to_itself(a, b),
        keeps_to_itself(b, c),
    ensures
        keeps_to_itself(a, c),
{
    let n = a.effects.len() as int;
    assert(c.effects.subrange(0, n) =~= c.effects.subrange(0, b.effects.len() as int).subrange(
        0,
        n,
    ));
    assert forall|i: int| n <= i < c.effects.len() implies !((
    #[trigger] c.effects[i]) is Forward) by {
        if i < b.effects.len() {
            assert(c.effects[i] == c.effects.subrange(0, b.effects.len() as int)[i]);
            assert(b.effects[i] == c.effects[i]);
        }
    }
}

proof fn lemma_served_kept(m: Mux, a: crate::sidebar::Ask, now: u64)
    ensures
        keeps_to_itself(m, side_served(m, a, now)),
{
    reveal(side_served);
    reveal(file_shown);
    let n = side_served(m, a, now);
    match a {
        crate::sidebar::Ask::PreviewFile(path) => {
            let (reader, q) = previewed(m.reader, path, crate::sidebar::root_of(m.side), now);
            let k = Mux { reader, ..m };
            match q {
                Some((path, shown, fit)) => {
                    lemma_kept(k, Effect::Read { path, shown, fit });
                },
                None => {
                    lemma_kept_same(m, n);
                },
            }
        },
        crate::sidebar::Ask::ScrollPreview(_) => {
            lemma_kept_same(m, n);
        },
        crate::sidebar::Ask::EditPreview => {
            lemma_reader_kept(
                m,
                crate::reader::find_action(
                    pane_rows(m.reader),
                    crate::reader::ReaderHeaderAction::Edit,
                    0,
                ),
            );
        },
        crate::sidebar::Ask::OpenPreview => {
            lemma_reader_kept(
                m,
                crate::reader::find_action(
                    pane_rows(m.reader),
                    crate::reader::ReaderHeaderAction::OpenWithSystem,
                    0,
                ),
            );
        },
    }
}

proof fn lemma_reader_kept(m: Mux, a: Option<crate::reader::Action>)
    ensures
        keeps_to_itself(m, reader_served(m, a)),
{
    match a {
        Some(crate::reader::Action::EditFile(p)) => {
            lemma_kept(m, Effect::EditFile(p));
        },
        Some(crate::reader::Action::OpenWithSystem(p)) => {
            lemma_kept(m, Effect::OpenUrl(p));
        },
        _ => {
            lemma_kept_same(m, m);
        },
    }
}

proof fn lemma_side_key_kept(
    m: Mux,
    pressed: bool,
    code: Option<KeyCode>,
    text: Option<Seq<char>>,
    now: u64,
)
    ensures
        keeps_to_itself(m, side_key(m, pressed, code, text, now)),
{
    reveal(side_key);
    let (side, out) = if pressed && code is Some {
        crate::sidebar::keyed(m.side, code->0, text, now)
    } else {
        (m.side, crate::sidebar::KeyOutcome::Consumed)
    };
    let q = Mux { side, ..m };
    lemma_kept_same(m, q);
    match out {
        crate::sidebar::KeyOutcome::Consumed => {},
        crate::sidebar::KeyOutcome::ReleaseFocus => {
            reveal(side_left);
            let r = Mux { side_focused: false, side: focus_given(q.side, false, now), ..q };
            lemma_kept_same(m, r);
            lemma_kept(
                r,
                Effect::FocusPane { pane: crate::multiplexer::leaf(r), gain: true },
            );
            lemma_kept_twice(m, r, leaf_told(r, true));
        },
        crate::sidebar::KeyOutcome::Request(a) => {
            lemma_served_kept(q, a, now);
            let s = side_served(q, a, now);
            lemma_kept_twice(m, q, s);
            lemma_kept(
                s,
                Effect::FocusPane { pane: crate::multiplexer::leaf(s), gain: false },
            );
            lemma_kept_twice(m, s, leaf_told(s, false));
        },
    }
}

/// While the sidebar has the focus, no key but a shortcut and no text that is
/// composed reaches a shell.
pub proof fn law_sidebar_keeps_keys(
    m: Mux,
    pressed: bool,
    code: Option<KeyCode>,
    text: Option<Seq<char>>,
    table: Seq<(KeyBinding, ShortcutAction)>,
    location: ShellLocation,
    now: u64,
)
    requires
        m.side_focused,
        shortcut(table, m.modifiers, pressed, code) is None,
    ensures
        keeps_to_itself(m, key_handled(m, pressed, code, text, table, location, now)),
        composed(m) == m,
{
    reveal(key_handled);
    reveal(awake);
    reveal(composed);
    let w = if pressed {
        awake(m, now)
    } else {
        m
    };
    let q = Mux { blink_start: now, ..m };
    lemma_kept_same(m, m);
    lemma_kept_same(m, q);
    if pressed && !m.blink_on {
        let b = Mux { blink_on: true, ..q };
        lemma_kept_same(m, b);
        let e = Effect::BlinkPane { pane: crate::multiplexer::leaf(m), on: true };
        lemma_kept(b, e);
        lemma_kept_twice(m, b, asking(b, e));
    }
    assert(keeps_to_itself(m, w));
    lemma_side_key_kept(w, pressed, code, text, now);
    lemma_kept_twice(m, w, side_key(w, pressed, code, text, now));
}

/// A key that was already down when the focus came does nothing.
pub proof fn law_synthetic_keys_ignored(
    m: Mux,
    pressed: bool,
    code: Option<KeyCode>,
    text: Option<String>,
    table: Seq<(KeyBinding, ShortcutAction)>,
    location: ShellLocation,
    now: u64,
)
    requires
        !m.exited,
    ensures
        handled(
            m,
            (MuxEvent::Key { pressed, synthetic: true, code, text }),
            table,
            location,
            now,
        ) == m,
{
    reveal(handled);
}

/// The workbench shortcut opens the workbench with the focus on the sidebar,
/// and the next one closes it and gives the focus back to the terminal.
pub proof fn law_workbench_cycle(m: Mux, a: ShellLocation, b: ShellLocation, now: u64, later: u64)
    requires
        !m.side.visible,
        !m.side_focused,
    ensures
        ({
            let open = side_switched(m, a, now);
            let shut = side_switched(open, b, later);
            &&& open.side.visible
            &&& open.side_focused
            &&& !shut.side.visible
            &&& !shut.side_focused
            &&& shut.tabs == m.tabs
            &&& shut.focus == m.focus
        }),
{
    reveal(side_switched);
    reveal(side_entered);
    reveal(side_left);
    reveal(editor_left);
    reveal(toggled);
    reveal(focus_given);
    reveal(crate::sidebar::ticked);
}

/// From the terminal the workbench shortcut takes the focus to the sidebar.
pub proof fn law_workbench_focus(m: Mux, location: ShellLocation, now: u64)
    requires
        m.side.visible,
        !m.side_focused,
    ensures
        side_switched(m, location, now).side_focused,
        side_switched(m, location, now).side.visible,
        !m.editor_focused ==> !side_switched(m, location, now).editor_focused,
{
    reveal(side_switched);
    reveal(side_entered);
    reveal(focus_given);
}

/// Showing the next tab and then the one before leads back.
pub proof fn law_tabs_lead_back(m: Mux)
    requires
        m.focus < m.tabs.len(),
    ensures
        tab_switched(tab_switched(m, true), false).focus == m.focus,
        tab_switched(tab_switched(m, false), true).focus == m.focus,
        tab_switched(m, true).tabs == m.tabs,
        tab_switched(m, true).focus < m.tabs.len(),
        tab_switched(m, false).focus < m.tabs.len(),
{
    reveal(tab_switched);
    reveal(bar_drawn);
}

/// What was chosen in the preview stays: a change of another file does not
/// replace it.
pub proof fn law_pinned_file_stays(m: Mux, location: ShellLocation, poll: SidebarPoll, now: u64)
    requires
        m.reader.pinned,
    ensures
        changes_followed(m, location, poll, now).reader.pinned,
        changes_followed(m, location, poll, now).reader.preview.target_abs
            == m.reader.preview.target_abs,
        changes_followed(m, location, poll, now).reader.preview.target == m.reader.preview.target,
{
    reveal(reread);
}

/// A file that was chosen is read again when it changes.
pub proof fn law_pinned_file_is_read_again(
    m: Mux,
    location: ShellLocation,
    poll: SidebarPoll,
    now: u64,
)
    requires
        m.side.visible,
        m.reader.pinned,
        m.reader.preview.target is Some,
        m.reader.preview.target_abs is Some,
        ({
            let side = ticked(m.side, location, poll, now);
            !side.frozen && side.follow_target is Some && path_eq(
                m.reader.preview.target_abs->0,
                side.follow_target->0,
            )
        }),
    ensures
        changes_followed(m, location, poll, now).effects == m.effects.push(
            Effect::Read {
                path: m.reader.preview.target_abs->0,
                shown: m.reader.preview.target->0,
                fit: m.reader.preview.fit,
            },
        ),
{
    reveal(reread);
}

/// While following is stopped, no change is shown in the preview.
pub proof fn law_frozen_preview_stays(m: Mux, location: ShellLocation, poll: SidebarPoll, now: u64)
    requires
        ticked(m.side, location, poll, now).frozen,
    ensures
        changes_followed(m, location, poll, now).reader == m.reader,
{
}

proof fn lemma_more_panes(tabs: Seq<Node>, more: Seq<Node>, n: int)
    requires
        0 <= n <= tabs.len(),
        n <= more.len(),
        forall|i: int| 0 <= i < n ==> tabs[i] == more[i],
    ensures
        all_panes(tabs, n) == all_panes(more, n),
    decreases n,
{
    if n > 0 {
        lemma_more_panes(tabs, more, n - 1);
    }
}

/// The panes of the tabs from `i` on.
pub open spec fn panes_from(tabs: Seq<Node>, i: int) -> Seq<u64>
    decreases tabs.len() - i,
{
    if i < 0 || i >= tabs.len() {
        Seq::empty()
    } else {
        leaves(tabs[i]) + panes_from(tabs, i + 1)
    }
}

proof fn lemma_panes_from_same(a: Seq<Node>, b: Seq<Node>, i: int, j: int)
    requires
        0 <= i <= a.len(),
        0 <= j <= b.len(),
        a.len() - i == b.len() - j,
        forall|x: int| i <= x < a.len() ==> #[trigger] a[x] == b[x - i + j],
    ensures
        panes_from(a, i) == panes_from(b, j),
    decreases a.len() - i,
{
    if i < a.len() {
        assert(a[i] == b[j]);
        lemma_panes_from_same(a, b, i + 1, j + 1);
    }
}

proof fn lemma_panes_split(tabs: Seq<Node>, n: int)
    requires
        0 <= n <= tabs.len(),
    ensures
        all_panes(tabs, n) + panes_from(tabs, n) == all_panes(tabs, tabs.len() as int),
    decreases tabs.len() - n,
{
    if n < tabs.len() {
        lemma_panes_split(tabs, n + 1);
        assert(all_panes(tabs, n) + (leaves(tabs[n]) + panes_from(tabs, n + 1)) =~= (all_panes(
            tabs,
            n,
        ) + leaves(tabs[n])) + panes_from(tabs, n + 1));
    } else {
        assert(all_panes(tabs, n) + Seq::<u64>::empty() =~= all_panes(tabs, n));
    }
}

proof fn lemma_pruned_panes(m: Mux, dead: Seq<u64>, i: int, changed: bool)
    requires
        0 <= i <= m.tabs.len(),
    ensures
        ({
            let q = tabs_pruned(m, dead, i, changed).0;
            all_panes(q.tabs, q.tabs.len() as int) == all_panes(m.tabs, i) + living(
                panes_from(m.tabs, i),
                dead,
            )
        }),
    decreases m.tabs.len() - i,
{
    reveal(Seq::filter);
    if i == m.tabs.len() {
        assert(living(Seq::<u64>::empty(), dead) =~= Seq::empty());
        assert(all_panes(m.tabs, i) + Seq::<u64>::empty() =~= all_panes(m.tabs, i));
    } else {
        let (q, c, removed) = tab_pruned(m, dead, i);
        let (left, collapsed, gained) = pruned(m.tabs[i], dead);
        crate::layout::law_prune_keeps_living(m.tabs[i], dead);
        crate::layout::lemma_living_add(leaves(m.tabs[i]), panes_from(m.tabs, i + 1), dead);
        let a = living(leaves(m.tabs[i]), dead);
        let b = living(panes_from(m.tabs, i + 1), dead);
        lemma_more_panes(m.tabs, q.tabs, i);
        match left {
            Some(n) => {
                lemma_pruned_panes(q, dead, i + 1, changed || c);
                lemma_panes_from_same(m.tabs, q.tabs, i + 1, i + 1);
                assert(all_panes(q.tabs, i + 1) == all_panes(m.tabs, i) + a);
                assert((all_panes(m.tabs, i) + a) + b =~= all_panes(m.tabs, i) + (a + b));
            },
            None => {
                lemma_pruned_panes(q, dead, i, changed || c);
                lemma_panes_from_same(m.tabs, q.tabs, i + 1, i);
                assert(a + b =~= b);
            },
        }
    }
}

/// Exactly the panes that have ended go from the tabs, and the others keep
/// their order.
pub proof fn law_ended_panes_go(m: Mux, dead: Seq<u64>)
    ensures
        ({
            let q = tabs_pruned(m, dead, 0, false).0;
            all_panes(q.tabs, q.tabs.len() as int) == living(
                all_panes(m.tabs, m.tabs.len() as int),
                dead,
            )
        }),
{
    lemma_pruned_panes(m, dead, 0, false);
    lemma_panes_split(m.tabs, 0);
    assert(all_panes(m.tabs, 0) + panes_from(m.tabs, 0) =~= panes_from(m.tabs, 0));
    let l = living(panes_from(m.tabs, 0), dead);
    assert(all_panes(m.tabs, 0) + l =~= l);
}

// ---------------------------------------------------------------------------
// The preview
// ---------------------------------------------------------------------------

/// The preview has no more rows than fit.
pub proof fn law_preview_fits(m: Reader)
    ensures
        pane_rows(m).len() <= row_count(m),
{
}

/// A preview that follows changes shows the end of the document: its last row
/// is the document's last.
pub proof fn law_following_shows_end(m: Reader, room: nat)
    requires
        !m.pinned,
        room > 0,
    ensures
        first_shown(m, room) + shown_rows(m, room).len() == document_rows(m).len(),
        shown_rows(m, room).len() <= room,
{
}

// ---------------------------------------------------------------------------
// Panes
// ---------------------------------------------------------------------------

/// While a text is being composed, keys do not reach the program.
pub proof fn law_composing_keeps_keys(
    p: Pane,
    code: Option<KeyCode>,
    text: Option<Seq<char>>,
    table: Seq<(KeyBinding, ShortcutAction)>,
    now: u64,
)
    requires
        p.preedit.len() > 0,
    ensures
        key_pressed(p, code, text, table, now) == p,
{
}

/// With the shift key down the wheel scrolls the history, whatever the program
/// in the terminal asked for.
pub proof fn law_shift_wheel_scrolls(p: Pane, horizontal: i32, vertical: i32, modes: TerminalModes)
    requires
        p.modifiers.shift,
    ensures
        wheel_moved(p, horizontal, vertical, modes).actions == p.actions.push(
            Act::Scroll(vertical),
        ),
{
}

/// A selection moves with the text when the screen is scrolled: both its ends
/// by as many rows as the screen.
pub proof fn law_selection_scrolls(y: int, cell_h: u32, rows: nat, then: int, offset: int, by: int)
    ensures
        row_now(y, cell_h, rows, then, offset + by) == row_now(y, cell_h, rows, then, offset) + by,
{
}

} // verus!
