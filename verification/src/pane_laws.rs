//! Where the panes of a tab stand, and what the shortcuts do to them.

use crate::arrange::{terminal_area, workbench_arranged};
use crate::keybindings::{action_of, modifier_mask, KeyBinding, ShortcutAction};
use crate::keys::{KeyCode, ModifiersState};
use crate::layout::{
    divided, extent, focus_moved, focused, is_placed, leaves, line_along, may_be_mid, sides,
    workbench, Dir, Node, Partition, GAP,
};
use crate::multiplexer::{
    action_done, asking, awake, bar_drawn, content, key_handled, leaf, leaf_of, line_moved,
    moved_focus, pane_closed, pane_divided, pane_moved, place_of, shortcut, shown_tab, side_entered,
    side_left, tab_opened, tab_switched, Divider, Effect, Mux,
};
use crate::view::Viewport;
use crate::vt::ShellLocation;
use vstd::prelude::*;

verus! {

// ---------------------------------------------------------------------------
// Dividing
// ---------------------------------------------------------------------------

/// There is room for a line in the middle of a rectangle, and all of it can be
/// counted.
pub open spec fn roomy(vp: Viewport) -> bool {
    vp.w >= 8 && vp.h >= 8 && vp.x + vp.w < 0x7fff_ffff && vp.y + vp.h < 0x7fff_ffff
}

/// Whether `b` stands to the right of `a`, as high and level with it.
pub open spec fn side_by_side(a: Viewport, b: Viewport) -> bool {
    a.y == b.y && a.h == b.h && a.x + a.w < b.x
}

/// Whether `b` stands below `a`, as wide and aligned with it.
pub open spec fn one_above_other(a: Viewport, b: Viewport) -> bool {
    a.x == b.x && a.w == b.w && a.y + a.h < b.y
}

/// Whether `a` lies within `b`.
pub open spec fn within(a: Viewport, b: Viewport) -> bool {
    b.x <= a.x && a.x + a.w <= b.x + b.w && b.y <= a.y && a.y + a.h <= b.y + b.h
}

proof fn lemma_first_place(places: Seq<(u64, Viewport)>, pane: u64, vp: Viewport)
    ensures
        place_of(seq![(pane, vp)] + places, pane) == vp,
{
    assert((seq![(pane, vp)] + places)[0] == (pane, vp));
}

proof fn lemma_later_place(places: Seq<(u64, Viewport)>, other: u64, vp: Viewport, pane: u64)
    requires
        other != pane,
    ensures
        place_of(seq![(other, vp)] + places, pane) == place_of(places, pane),
{
    let s = seq![(other, vp)] + places;
    assert(s[0] == (other, vp));
    assert(s.drop_first() =~= places);
}

/// A vertical division puts the new pane to the right of the old one, a
/// horizontal one puts it below. Both stay where the old pane was, are alike to
/// a pixel, and the new one has the focus.
pub proof fn law_split_divides_the_pane(m: Mux, location: ShellLocation, now: u64, vertical: bool)
    requires
        m.focus < m.tabs.len(),
        m.next_id < u64::MAX - 2,
        leaf(m) < m.next_id,
        roomy(place_of(m.places, leaf(m))),
    ensures
        ({
            let action = if vertical {
                ShortcutAction::SplitVertical
            } else {
                ShortcutAction::SplitHorizontal
            };
            let q = action_done(m, action, location, now);
            let whole = place_of(m.places, leaf(m));
            let a = place_of(q.places, leaf(m));
            let b = place_of(q.places, leaf(q));
            &&& leaf(q) != leaf(m)
            &&& vertical ==> side_by_side(a, b) && a.y == whole.y && a.h == whole.h
            &&& !vertical ==> one_above_other(a, b) && a.x == whole.x && a.w == whole.w
            &&& within(a, whole) && within(b, whole)
            &&& -1 <= a.w - b.w <= 1 && -1 <= a.h - b.h <= 1
            &&& q.tabs.len() == m.tabs.len() && q.focus == m.focus
        }),
{
    reveal(action_done);
    reveal(pane_divided);
    reveal(leaf_of);
    let partition = if vertical {
        Partition::Vertical
    } else {
        Partition::Horizontal
    };
    let q = pane_divided(m, partition);
    let old = leaf(m);
    let vp = place_of(m.places, old);
    let id = m.next_id;
    let pane = (id + 1) as u64;
    crate::layout::law_split_then_close(shown_tab(m), partition, id, pane);
    assert(shown_tab(q) == divided(shown_tab(m), partition, id, pane));
    assert(leaf(q) == pane);
    let (a, b) = sides(partition, crate::multiplexer::middle(extent(partition, vp)), vp);
    lemma_first_place(seq![(old, a)] + m.places, pane, b);
    lemma_later_place(seq![(old, a)] + m.places, pane, b, old);
    lemma_first_place(m.places, old, a);
    assert(q.places == seq![(pane, b)] + (seq![(old, a)] + m.places));
}

// ---------------------------------------------------------------------------
// Tabs
// ---------------------------------------------------------------------------

/// A new tab comes behind the others, has one pane that was not there before,
/// and is shown.
pub proof fn law_new_tab_is_shown(m: Mux, location: ShellLocation, now: u64)
    requires
        m.focus < m.tabs.len(),
        m.next_id < u64::MAX - 2,
    ensures
        ({
            let q = action_done(m, ShortcutAction::NewTab, location, now);
            &&& q.tabs.len() == m.tabs.len() + 1
            &&& q.tabs.subrange(0, m.tabs.len() as int) == m.tabs
            &&& leaves(q.tabs.last()) == seq![m.next_id]
            &&& q.focus == q.tabs.len() - 1
            &&& q.next_id > m.next_id
        }),
{
    reveal(action_done);
    reveal(tab_opened);
    reveal(bar_drawn);
    let q = action_done(m, ShortcutAction::NewTab, location, now);
    assert(q.tabs.subrange(0, m.tabs.len() as int) =~= m.tabs);
}

/// The next tab is the one behind, and behind the last comes the first; the
/// one before is the other way.
pub proof fn law_tabs_go_round(m: Mux, location: ShellLocation, now: u64)
    requires
        m.focus < m.tabs.len(),
    ensures
        ({
            let n = m.tabs.len() as int;
            let next = action_done(m, ShortcutAction::NextTab, location, now);
            let prev = action_done(m, ShortcutAction::PrevTab, location, now);
            &&& next.focus as int == (m.focus as int + 1) % n
            &&& prev.focus as int == (m.focus as int + n - 1) % n
            &&& next.tabs == m.tabs && prev.tabs == m.tabs
        }),
{
    reveal(action_done);
    reveal(tab_switched);
    reveal(bar_drawn);
    let n = m.tabs.len() as int;
    if m.focus + 1 < n {
        vstd::arithmetic::div_mod::lemma_small_mod((m.focus + 1) as nat, n as nat);
    } else {
        vstd::arithmetic::div_mod::lemma_mod_self_0(n);
    }
    if m.focus > 0 {
        vstd::arithmetic::div_mod::lemma_mod_add_multiples_vanish(m.focus - 1, n);
        vstd::arithmetic::div_mod::lemma_small_mod((m.focus - 1) as nat, n as nat);
    } else {
        vstd::arithmetic::div_mod::lemma_small_mod((n - 1) as nat, n as nat);
    }
}

/// Closing takes away the pane with the focus, and ends its program. The
/// others of its tab stay; with its last pane the tab goes, and with the last
/// tab the window.
pub proof fn law_close_takes_the_focused_pane(m: Mux, location: ShellLocation, now: u64)
    requires
        m.focus < m.tabs.len(),
    ensures
        ({
            let q = action_done(m, ShortcutAction::ClosePane, location, now);
            let panes = leaves(m.tabs[m.focus as int]);
            &&& q.effects.len() > m.effects.len()
            &&& q.effects[m.effects.len() as int] == Effect::ClosePane(leaf(m))
            &&& panes.len() > 1 ==> q.tabs.len() == m.tabs.len() && q.focus == m.focus && leaves(
                q.tabs[q.focus as int],
            ).len() == panes.len() - 1
            &&& panes.len() == 1 ==> q.tabs == m.tabs.remove(m.focus as int)
            &&& panes.len() == 1 && m.tabs.len() == 1 ==> q.exited
            &&& !m.exited && (panes.len() > 1 || m.tabs.len() > 1) ==> !q.exited && q.focus
                < q.tabs.len()
        }),
{
    reveal(action_done);
    reveal(pane_closed);
    reveal(bar_drawn);
    reveal(leaf_of);
    let n = shown_tab(m);
    crate::layout::law_close_removes_one(n);
    lemma_single(n);
}

proof fn lemma_single(n: Node)
    ensures
        crate::layout::closed(n) is None <==> n is Leaf,
        n is Leaf <==> leaves(n).len() == 1,
        leaves(n).len() >= 1,
    decreases n,
{
    if let Node::Split { first, second, focus_first, .. } = n {
        lemma_single(*first);
        lemma_single(*second);
    }
}

/// The row of tabs is there as soon as there are two, above everything else.
pub proof fn law_bar_is_above(m: Mux)
    ensures
        m.tabs.len() <= 1 ==> content(m).y == 0 && content(m).h == m.viewport.h,
        m.tabs.len() > 1 && m.bar_cell.h <= m.viewport.h ==> content(m).y == m.bar_cell.h && content(
            m,
        ).h + m.bar_cell.h == m.viewport.h,
        content(m).x == 0,
        content(m).w == m.viewport.w,
{
}

// ---------------------------------------------------------------------------
// The focus
// ---------------------------------------------------------------------------

/// `b` stands on the side of `a` that a direction names.
pub open spec fn lies(a: Viewport, b: Viewport, dir: Dir) -> bool {
    match dir {
        Dir::Left => b.x + b.w < a.x,
        Dir::Right => a.x + a.w < b.x,
        Dir::Up => b.y + b.h < a.y,
        Dir::Down => a.y + a.h < b.y,
    }
}

/// Every line lies within what it divides.
pub open spec fn keeps_in<F: Fn(u64, u32) -> u32>(mid: F) -> bool {
    forall|id: u64, e: u32, m: u32| #[trigger] may_be_mid(mid, id, e, m) ==> m <= e
}

/// Extents that can be counted.
pub open spec fn small(vp: Viewport, n: Node) -> bool {
    vp.x + vp.w + 2 * crate::layout::depth(n) * GAP < u32::MAX && vp.y + vp.h + 2
        * crate::layout::depth(n) * GAP < u32::MAX
}

/// Panes that can be seen lie within what their tab has.
proof fn lemma_within<F: Fn(u64, u32) -> u32>(
    n: Node,
    vp: Viewport,
    mid: F,
    places: Seq<(u64, Viewport)>,
    i: int,
)
    requires
        is_placed(n, vp, mid, places),
        keeps_in(mid),
        small(vp, n),
        0 <= i < places.len(),
    ensures
        places.len() == leaves(n).len(),
        places[i].0 == leaves(n)[i],
        vp.x <= places[i].1.x && vp.y <= places[i].1.y,
        places[i].1.w > 0 ==> places[i].1.x + places[i].1.w <= vp.x + vp.w,
        places[i].1.h > 0 ==> places[i].1.y + places[i].1.h <= vp.y + vp.h,
    decreases n,
{
    if let Node::Split { id, partition, first, second, .. } = n {
        let (m, k) = choose|m: u32, k: int|
            {
                &&& #[trigger] may_be_mid(mid, id, extent(partition, vp), m)
                &&& 0 <= k <= places.len()
                &&& is_placed(
                    *first,
                    sides(partition, m, vp).0,
                    mid,
                    #[trigger] places.subrange(0, k),
                )
                &&& is_placed(
                    *second,
                    sides(partition, m, vp).1,
                    mid,
                    places.subrange(k, places.len() as int),
                )
            };
        let a = sides(partition, m, vp).0;
        let b = sides(partition, m, vp).1;
        let d = crate::layout::depth(n);
        let d1 = crate::layout::depth(*first);
        let d2 = crate::layout::depth(*second);
        assert(d >= 1 + d1 && d >= 1 + d2);
        assert(2 * d * GAP >= 2 * d1 * GAP + 4 && 2 * d * GAP >= 2 * d2 * GAP + 4) by (nonlinear_arith)
            requires
                d >= 1 + d1,
                d >= 1 + d2,
                GAP == 2,
        ;
        let left = places.subrange(0, k);
        let right = places.subrange(k, places.len() as int);
        lemma_count(*first, a, mid, left);
        lemma_count(*second, b, mid, right);
        assert(places =~= left + right);
        if i < k {
            assert(left[i] == places[i]);
            lemma_within(*first, a, mid, left, i);
        } else {
            assert(right[i - k] == places[i]);
            lemma_within(*second, b, mid, right, i - k);
        }
    }
}

proof fn lemma_count<F: Fn(u64, u32) -> u32>(
    n: Node,
    vp: Viewport,
    mid: F,
    places: Seq<(u64, Viewport)>,
)
    requires
        is_placed(n, vp, mid, places),
    ensures
        places.len() == leaves(n).len(),
    decreases n,
{
    if let Node::Split { id, partition, first, second, .. } = n {
        let (m, k) = choose|m: u32, k: int|
            {
                &&& #[trigger] may_be_mid(mid, id, extent(partition, vp), m)
                &&& 0 <= k <= places.len()
                &&& is_placed(
                    *first,
                    sides(partition, m, vp).0,
                    mid,
                    #[trigger] places.subrange(0, k),
                )
                &&& is_placed(
                    *second,
                    sides(partition, m, vp).1,
                    mid,
                    places.subrange(k, places.len() as int),
                )
            };
        lemma_count(*first, sides(partition, m, vp).0, mid, places.subrange(0, k));
        lemma_count(
            *second,
            sides(partition, m, vp).1,
            mid,
            places.subrange(k, places.len() as int),
        );
    }
}

/// Where among the panes the one with the focus is.
pub open spec fn focus_index(n: Node) -> int
    decreases n,
{
    match n {
        Node::Leaf(_) => 0,
        Node::Split { focus_first, first, second, .. } => if focus_first {
            focus_index(*first)
        } else {
            leaves(*first).len() + focus_index(*second)
        },
    }
}

/// The pane with the focus is the one at that place.
pub proof fn lemma_focus_index(n: Node)
    ensures
        0 <= focus_index(n) < leaves(n).len(),
        leaves(n)[focus_index(n)] == focused(n),
    decreases n,
{
    if let Node::Split { focus_first, first, second, .. } = n {
        lemma_focus_index(*first);
        lemma_focus_index(*second);
    }
}

/// When the focus moves in a direction, it goes to a pane that stands on that
/// side of the one it leaves.
pub proof fn law_focus_goes_the_way_it_is_sent<F: Fn(u64, u32) -> u32>(
    n: Node,
    vp: Viewport,
    mid: F,
    places: Seq<(u64, Viewport)>,
    dir: Dir,
)
    requires
        is_placed(n, vp, mid, places),
        keeps_in(mid),
        small(vp, n),
        focus_moved(n, dir) is Some,
        forall|i: int|
            0 <= i < places.len() ==> (#[trigger] places[i]).1.w > 0 && places[i].1.h > 0,
    ensures
        ({
            let from = focus_index(n);
            let to = focus_index(focus_moved(n, dir)->0);
            &&& 0 <= from < places.len() && 0 <= to < places.len()
            &&& places[from].0 == focused(n)
            &&& places[to].0 == focused(focus_moved(n, dir)->0)
            &&& lies(places[from].1, places[to].1, dir)
        }),
    decreases n,
{
    if let Node::Split { id, partition, focus_first, first, second } = n {
        let (m, k) = choose|m: u32, k: int|
            {
                &&& #[trigger] may_be_mid(mid, id, extent(partition, vp), m)
                &&& 0 <= k <= places.len()
                &&& is_placed(
                    *first,
                    sides(partition, m, vp).0,
                    mid,
                    #[trigger] places.subrange(0, k),
                )
                &&& is_placed(
                    *second,
                    sides(partition, m, vp).1,
                    mid,
                    places.subrange(k, places.len() as int),
                )
            };
        let a = sides(partition, m, vp).0;
        let b = sides(partition, m, vp).1;
        let d = crate::layout::depth(n);
        let d1 = crate::layout::depth(*first);
        let d2 = crate::layout::depth(*second);
        assert(d >= 1 + d1 && d >= 1 + d2);
        assert(2 * d * GAP >= 2 * d1 * GAP + 4 && 2 * d * GAP >= 2 * d2 * GAP + 4) by (nonlinear_arith)
            requires
                d >= 1 + d1,
                d >= 1 + d2,
                GAP == 2,
        ;
        let left = places.subrange(0, k);
        let right = places.subrange(k, places.len() as int);
        lemma_count(*first, a, mid, left);
        lemma_count(*second, b, mid, right);
        lemma_focus_index(*first);
        lemma_focus_index(*second);
        assert(places =~= left + right);
        let inner = if focus_first {
            focus_moved(*first, dir)
        } else {
            focus_moved(*second, dir)
        };
        if inner is Some {
            if focus_first {
                crate::layout::law_focus_keeps_panes(*first, dir);
                law_focus_goes_the_way_it_is_sent(*first, a, mid, left, dir);
            } else {
                crate::layout::law_focus_keeps_panes(*second, dir);
                law_focus_goes_the_way_it_is_sent(*second, b, mid, right, dir);
            }
        } else {
            let i = focus_index(*first);
            let j = focus_index(*second);
            lemma_within(*first, a, mid, left, i);
            lemma_within(*second, b, mid, right, j);
            assert(left[i] == places[i]);
            assert(right[j] == places[k + j]);
        }
    }
}

/// The focus does not move where no pane stands on that side of a line around
/// it: in a tab with a single pane, and along a line.
pub proof fn law_focus_stays_at_the_edge(n: Node, dir: Dir)
    ensures
        n is Leaf ==> focus_moved(n, dir) is None,
        n is Split && *n->first is Leaf && *n->second is Leaf ==> (focus_moved(n, dir) is Some <==> (
        n->partition == Partition::Vertical && dir == Dir::Right && n->focus_first) || (n->partition
            == Partition::Vertical && dir == Dir::Left && !n->focus_first) || (n->partition
            == Partition::Horizontal && dir == Dir::Down && n->focus_first) || (n->partition
            == Partition::Horizontal && dir == Dir::Up && !n->focus_first)),
{
    reveal_with_fuel(focus_moved, 2);
}

/// The direction that a shortcut sends the focus in.
pub open spec fn focus_direction(a: ShortcutAction) -> Option<Dir> {
    if a == ShortcutAction::FocusLeft {
        Some(Dir::Left)
    } else if a == ShortcutAction::FocusRight {
        Some(Dir::Right)
    } else if a == ShortcutAction::FocusUp {
        Some(Dir::Up)
    } else if a == ShortcutAction::FocusDown {
        Some(Dir::Down)
    } else {
        None
    }
}

/// Without the workbench a shortcut for a direction moves the focus among the
/// panes in that direction, and changes nothing where it cannot.
pub proof fn law_focus_shortcuts(m: Mux, a: ShortcutAction, location: ShellLocation, now: u64)
    requires
        m.focus < m.tabs.len(),
        !m.side.visible,
        focus_direction(a) is Some,
    ensures
        ({
            let q = action_done(m, a, location, now);
            let dir = focus_direction(a)->0;
            let tab = m.tabs[m.focus as int];
            &&& focus_moved(tab, dir) is None ==> q == m
            &&& focus_moved(tab, dir) is Some ==> q.tabs[m.focus as int] == focus_moved(tab, dir)->0
                && q.effects == m.effects.push(
                Effect::FocusPane { pane: focused(tab), gain: false },
            ).push(
                Effect::FocusPane { pane: focused(focus_moved(tab, dir)->0), gain: true },
            )
            &&& q.focus == m.focus && q.tabs.len() == m.tabs.len()
        }),
{
    reveal(action_done);
    reveal(moved_focus);
    reveal(pane_moved);
    reveal(leaf_of);
}

/// In the workbench the terminal is to the right of the sidebar: the focus
/// goes there by Right and comes back by Left, from its leftmost pane.
pub proof fn law_focus_crosses_to_the_sidebar(m: Mux, location: ShellLocation, now: u64)
    requires
        m.focus < m.tabs.len(),
        m.side.visible,
        !m.editor_focused,
    ensures
        m.side_focused ==> !action_done(m, ShortcutAction::FocusRight, location, now).side_focused,
        m.side_focused ==> action_done(m, ShortcutAction::FocusUp, location, now) == m,
        m.side_focused ==> action_done(m, ShortcutAction::FocusDown, location, now) == m,
        m.side_focused ==> action_done(m, ShortcutAction::FocusLeft, location, now) == m,
        !m.side_focused && focus_moved(m.tabs[m.focus as int], Dir::Left) is None ==> action_done(
            m,
            ShortcutAction::FocusLeft,
            location,
            now,
        ).side_focused,
        !m.side_focused && focus_moved(m.tabs[m.focus as int], Dir::Right) is None ==> action_done(
            m,
            ShortcutAction::FocusRight,
            location,
            now,
        ) == m,
{
    reveal(action_done);
    reveal(moved_focus);
    reveal(pane_moved);
    reveal(side_left);
    reveal(side_entered);
}

/// The lines of the workbench move with the shortcuts: Left and Right move the
/// one beside the sidebar, Up and Down the one below the preview, ahead being
/// to the right and down. Without the workbench they move the innermost line
/// of that kind around the pane with the focus, if there is one.
pub proof fn law_resize_moves_lines(m: Mux, location: ShellLocation, now: u64)
    requires
        m.focus < m.tabs.len(),
    ensures
        ({
            let right = action_done(m, ShortcutAction::ResizeRight, location, now);
            let left = action_done(m, ShortcutAction::ResizeLeft, location, now);
            let up = action_done(m, ShortcutAction::ResizeUp, location, now);
            let down = action_done(m, ShortcutAction::ResizeDown, location, now);
            let tab = m.tabs[m.focus as int];
            let across = if m.side.visible {
                Some(Divider::Sidebar)
            } else {
                match line_along(tab, Partition::Vertical) {
                    Some(id) => Some(Divider::Split(id)),
                    None => None,
                }
            };
            let along = if m.side.visible {
                Some(Divider::Preview)
            } else {
                match line_along(tab, Partition::Horizontal) {
                    Some(id) => Some(Divider::Split(id)),
                    None => None,
                }
            };
            &&& across is Some ==> right == asking(
                m,
                Effect::MoveLine { line: across->0, ahead: true },
            ) && left == asking(m, Effect::MoveLine { line: across->0, ahead: false })
            &&& across is None ==> right == m && left == m
            &&& along is Some ==> down == asking(
                m,
                Effect::MoveLine { line: along->0, ahead: true },
            ) && up == asking(m, Effect::MoveLine { line: along->0, ahead: false })
            &&& along is None ==> down == m && up == m
        }),
{
    reveal(action_done);
    reveal(line_moved);
}

/// The innermost line of a kind around the focus: where a side has none, the
/// line of its own kind around both sides is taken.
pub proof fn law_innermost_line(n: Node, axis: Partition)
    requires
        n is Split,
    ensures
        ({
            let side = if n->focus_first {
                *n->first
            } else {
                *n->second
            };
            &&& side is Leaf && n->partition == axis ==> line_along(n, axis) == Some(n->id)
            &&& side is Leaf && n->partition != axis ==> line_along(n, axis) is None
            &&& line_along(side, axis) is Some ==> line_along(n, axis) == line_along(side, axis)
        }),
{
    reveal_with_fuel(line_along, 2);
}

/// The launcher opens by its shortcut, and the sidebar by its own.
pub proof fn law_other_shortcuts(m: Mux, location: ShellLocation, now: u64)
    ensures
        action_done(m, ShortcutAction::OpenLauncher, location, now) == asking(
            m,
            Effect::OpenLauncher,
        ),
        action_done(m, ShortcutAction::ToggleSidebar, location, now)
            == crate::multiplexer::side_switched(m, location, now),
{
    reveal(action_done);
}

// ---------------------------------------------------------------------------
// The workbench
// ---------------------------------------------------------------------------

/// The sidebar is on the left, the preview to its right, and the terminal
/// below the preview. Together with the gaps they fill the window.
pub proof fn law_workbench_places(vp: Viewport, side_mid: u32, preview_mid: u32)
    requires
        GAP < side_mid,
        side_mid + GAP < vp.w,
        GAP < preview_mid,
        preview_mid + GAP < vp.h,
        vp.x + vp.w < u32::MAX,
        vp.y + vp.h < u32::MAX,
    ensures
        ({
            let w = workbench(vp, side_mid, preview_mid);
            &&& w.sidebar.x == vp.x && w.sidebar.y == vp.y && w.sidebar.h == vp.h
            &&& w.sidebar.x + w.sidebar.w < w.preview.x
            &&& one_above_other(w.preview, w.terminal)
            &&& w.preview.y == vp.y
            &&& w.preview.x + w.preview.w == vp.x + vp.w
            &&& w.terminal.y + w.terminal.h == vp.y + vp.h
            &&& within(w.sidebar, vp) && within(w.preview, vp) && within(w.terminal, vp)
        }),
{
}

// ---------------------------------------------------------------------------
// What is asked for
// ---------------------------------------------------------------------------

/// A new tab runs a shell in all of what the row of tabs leaves; its pane gets
/// the focus, and the one that had it loses it.
pub proof fn law_new_tab_starts_a_shell(m: Mux, location: ShellLocation, now: u64)
    requires
        m.focus < m.tabs.len(),
        m.next_id < u64::MAX - 2,
    ensures
        action_done(m, ShortcutAction::NewTab, location, now).effects == m.effects.push(
            Effect::FocusPane { pane: focused(m.tabs[m.focus as int]), gain: false },
        ).push(
            Effect::SpawnPane { pane: m.next_id, viewport: content(m), beside: None },
        ).push(Effect::Relayout).push(Effect::FocusPane { pane: m.next_id, gain: true }),
{
    reveal(action_done);
    reveal(tab_opened);
    reveal(bar_drawn);
    reveal(leaf_of);
}

/// A division runs a shell beside the pane that is divided; the new pane gets
/// the focus, and the old one loses it.
pub proof fn law_split_starts_a_shell(m: Mux, location: ShellLocation, now: u64, vertical: bool)
    requires
        m.focus < m.tabs.len(),
        m.next_id < u64::MAX - 2,
    ensures
        ({
            let action = if vertical {
                ShortcutAction::SplitVertical
            } else {
                ShortcutAction::SplitHorizontal
            };
            let e = action_done(m, action, location, now).effects;
            let old = focused(m.tabs[m.focus as int]);
            let n = m.effects.len() as int;
            let pane = (m.next_id + 1) as u64;
            &&& e.len() >= n + 3
            &&& e[n] is SpawnPane && e[n]->SpawnPane_pane == pane && e[n]->beside == Some(old)
            &&& e[n + 1] == (Effect::FocusPane { pane: old, gain: false })
            &&& e[n + 2] == (Effect::FocusPane { pane, gain: true })
        }),
{
    reveal(action_done);
    reveal(pane_divided);
    reveal(leaf_of);
}

/// Another tab that is shown gets the focus, and the one before loses it.
pub proof fn law_switched_tabs_are_told(m: Mux, location: ShellLocation, now: u64, ahead: bool)
    requires
        m.focus < m.tabs.len(),
        m.tabs.len() > 1,
    ensures
        ({
            let action = if ahead {
                ShortcutAction::NextTab
            } else {
                ShortcutAction::PrevTab
            };
            let q = action_done(m, action, location, now);
            q.effects == m.effects.push(
                Effect::FocusPane { pane: focused(m.tabs[m.focus as int]), gain: false },
            ).push(Effect::FocusPane { pane: focused(m.tabs[q.focus as int]), gain: true })
        }),
{
    reveal(action_done);
    reveal(tab_switched);
    reveal(bar_drawn);
    reveal(leaf_of);
}

/// Without the workbench the terminal has all that the row of tabs leaves; with
/// it, it has the room below the preview.
pub proof fn law_terminal_has_its_area(m: Mux, side_mid: u32, preview_mid: u32)
    ensures
        !m.side.visible ==> terminal_area(m, side_mid, preview_mid) == content(m),
        m.side.visible ==> terminal_area(m, side_mid, preview_mid) == workbench(
            content(m),
            side_mid,
            preview_mid,
        ).terminal,
{
}

/// The parts of the workbench are put where they belong.
pub proof fn law_workbench_is_arranged(m: Mux, side_mid: u32, preview_mid: u32, now: u64)
    requires
        m.side.visible,
    ensures
        ({
            let w = workbench(content(m), side_mid, preview_mid);
            let q = workbench_arranged(m, side_mid, preview_mid, now);
            &&& q.side.viewport == w.sidebar
            &&& q.reader.viewport == w.preview
            &&& m.editor is Some ==> q.effects.len() > m.effects.len()
                && q.effects[m.effects.len() as int] == (Effect::SetViewport {
                pane: m.editor->0,
                viewport: w.preview,
            })
        }),
{
    reveal(workbench_arranged);
    reveal(crate::reader::moved);
}

/// Shortcuts for the text of a pane are left to the pane; the others are the
/// window's.
pub proof fn law_window_shortcuts(
    table: Seq<(KeyBinding, ShortcutAction)>,
    modifiers: ModifiersState,
    key: KeyCode,
    a: ShortcutAction,
)
    requires
        action_of(table, KeyBinding { modifiers: modifier_mask(modifiers), key }) == Some(a),
    ensures
        a == ShortcutAction::Copy || a == ShortcutAction::Paste || a == ShortcutAction::ClearHistory
            || a == ShortcutAction::IncreaseFont || a == ShortcutAction::DecreaseFont ==> shortcut(
            table,
            modifiers,
            true,
            Some(key),
        ) is None,
        a != ShortcutAction::Copy && a != ShortcutAction::Paste && a != ShortcutAction::ClearHistory
            && a != ShortcutAction::IncreaseFont && a != ShortcutAction::DecreaseFont ==> shortcut(
            table,
            modifiers,
            true,
            Some(key),
        ) == Some(a),
        shortcut(table, modifiers, false, Some(key)) is None,
        shortcut(table, modifiers, true, None) is None,
{
}

/// A key that is a shortcut of the window does what the shortcut does, wherever
/// the focus is, and goes to no program.
pub proof fn law_shortcuts_come_first(
    m: Mux,
    code: Option<KeyCode>,
    text: Option<Seq<char>>,
    table: Seq<(KeyBinding, ShortcutAction)>,
    location: ShellLocation,
    now: u64,
    a: ShortcutAction,
)
    requires
        m.blink_on,
        shortcut(table, m.modifiers, true, code) == Some(a),
    ensures
        ({
            let q = key_handled(m, true, code, text, table, location, now);
            let done = action_done(Mux { blink_start: now, ..m }, a, location, now);
            &&& q.tabs == done.tabs && q.focus == done.focus && q.side == done.side && q.places
                == done.places && q.exited == done.exited
            &&& q.effects == done.effects || q.effects == done.effects.push(
                Effect::FocusPane { pane: leaf(done), gain: false },
            )
        }),
{
    reveal(key_handled);
    reveal(awake);
}

} // verus!
