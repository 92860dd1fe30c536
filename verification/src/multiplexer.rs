//! The window as a whole: its tabs and panes, the workbench, and where each
//! event goes.

use crate::gt::{after_piece, Assembly, GtFileAssembler, Message};
use crate::highlight::Highlighter;
use crate::keybindings::{action_of, lookup, modifier_mask, KeyBinding, ShortcutAction};
use crate::keys::{KeyCode, ModifiersState};
use crate::layout::{
    closed, divided, extent, focus_moved, focused, focused_on, leaves, line_along, pruned, sides,
    split_viewport, Dir, Node, Partition, GAP,
};
use crate::path::{join, joined, parent, path_components, path_eq};
use crate::preview::{request_view, ReadRequest, ReadStatus};
use crate::reader::{
    acted, action_at, editor_missing, find_action, followed, heard, moved, opt_str, pane_rows,
    previewed, reader_at_start, remote_shown, reread, scrolled_by, Action as ReaderAct, Reader,
    ReaderHeaderAction, ReaderPane,
};
use crate::sidebar::{
    clicked, focus_given, keyed, reported, root_of, scrolled, side_at_start, ticked, toggled,
    Ask, KeyOutcome, Side, Sidebar, SidebarPoll,
};
use crate::terminal::{Cell, CellSize, Color, GraphicAttribute};
use crate::text::{decimal, decimal_text, opt_text, pieces, split_at_char, texts};
use crate::view::{cells_in, count_cells_in, inside, Viewport};
use crate::vt::ShellLocation;
use vstd::prelude::*;

verus! {

/// How long in nanoseconds the cursor is shown, and how long it is not.
pub const BLINK_NANOS: u64 = 530_000_000;

/// A dividing line of the window.
#[derive(Debug, Clone, Copy, PartialEq, Eq, Structural)]
pub enum Divider {
    /// The line beside the sidebar.
    Sidebar,
    /// The line below the preview.
    Preview,
    /// A line between panes, by its number.
    Split(u64),
}

/// What the window is asked to do.
#[derive(Debug)]
pub enum MuxEffect {
    FocusPane { pane: u64, gain: bool },
    BlinkPane { pane: u64, on: bool },
    /// Start a shell, in the directory of the pane it stands beside.
    SpawnPane { pane: u64, viewport: Viewport, beside: Option<u64> },
    SpawnEditor { pane: u64, viewport: Viewport, command: Vec<String>, cwd: Option<String> },
    /// End the program of a pane, and let go of the pane.
    ClosePane(u64),
    SetViewport { pane: u64, viewport: Viewport },
    /// Hand the event to a pane; `clicks` says to look for a file that it was
    /// clicked on afterwards.
    Forward { pane: u64, clicks: bool },
    /// Let the sidebar see the click.
    ClickSidebar,
    Read(ReadRequest),
    EditFile(String),
    PreviewFile(String),
    OpenUrl(String),
    OpenLauncher,
    /// Move a line a step to the right or down, or the other way.
    MoveLine { line: Divider, ahead: bool },
    /// Work out the rectangles of all panes anew.
    Relayout,
    ResizeSurface { w: u32, h: u32 },
    RequestRedraw,
    Draw,
    Exit,
}

/// What the window is asked to do.
pub ghost enum Effect {
    FocusPane { pane: u64, gain: bool },
    BlinkPane { pane: u64, on: bool },
    SpawnPane { pane: u64, viewport: Viewport, beside: Option<u64> },
    SpawnEditor { pane: u64, viewport: Viewport, command: Seq<Seq<char>>, cwd: Option<Seq<char>> },
    ClosePane(u64),
    SetViewport { pane: u64, viewport: Viewport },
    Forward { pane: u64, clicks: bool },
    ClickSidebar,
    Read { path: Seq<char>, shown: Seq<char>, fit: (u32, u32) },
    EditFile(Seq<char>),
    PreviewFile(Seq<char>),
    OpenUrl(Seq<char>),
    OpenLauncher,
    MoveLine { line: Divider, ahead: bool },
    Relayout,
    ResizeSurface { w: u32, h: u32 },
    RequestRedraw,
    Draw,
    Exit,
}

impl View for MuxEffect {
    type V = Effect;

    open spec fn view(&self) -> Effect {
        match *self {
            MuxEffect::FocusPane { pane, gain } => Effect::FocusPane { pane, gain },
            MuxEffect::BlinkPane { pane, on } => Effect::BlinkPane { pane, on },
            MuxEffect::SpawnPane { pane, viewport, beside } => Effect::SpawnPane {
                pane,
                viewport,
                beside,
            },
            MuxEffect::SpawnEditor { pane, viewport, command, cwd } => Effect::SpawnEditor {
                pane,
                viewport,
                command: texts(command@),
                cwd: opt_text(cwd),
            },
            MuxEffect::ClosePane(pane) => Effect::ClosePane(pane),
            MuxEffect::SetViewport { pane, viewport } => Effect::SetViewport { pane, viewport },
            MuxEffect::Forward { pane, clicks } => Effect::Forward { pane, clicks },
            MuxEffect::ClickSidebar => Effect::ClickSidebar,
            MuxEffect::Read(q) => Effect::Read {
                path: q.abs_path@,
                shown: q.display_path@,
                fit: q.fit,
            },
            MuxEffect::EditFile(p) => Effect::EditFile(p@),
            MuxEffect::PreviewFile(p) => Effect::PreviewFile(p@),
            MuxEffect::OpenUrl(p) => Effect::OpenUrl(p@),
            MuxEffect::OpenLauncher => Effect::OpenLauncher,
            MuxEffect::MoveLine { line, ahead } => Effect::MoveLine { line, ahead },
            MuxEffect::Relayout => Effect::Relayout,
            MuxEffect::ResizeSurface { w, h } => Effect::ResizeSurface { w, h },
            MuxEffect::RequestRedraw => Effect::RequestRedraw,
            MuxEffect::Draw => Effect::Draw,
            MuxEffect::Exit => Effect::Exit,
        }
    }
}

/// What each effect is.
#[verifier::opaque]
pub open spec fn effect_views(v: Seq<MuxEffect>) -> Seq<Effect> {
    Seq::new(v.len(), |i: int| v[i]@)
}

/// The state of the window.
pub ghost struct Mux {
    pub viewport: Viewport,
    pub bar_cell: CellSize,
    /// The row of the tabs.
    pub bar: Seq<Cell>,
    pub bar_updated: bool,
    pub side: Side,
    pub side_focused: bool,
    pub reader: Reader,
    /// The editor in the place of the preview.
    pub editor: Option<u64>,
    pub editor_focused: bool,
    pub assembly: Assembly,
    pub tabs: Seq<Node>,
    pub focus: nat,
    pub next_id: u64,
    /// The rectangles of the panes.
    pub places: Seq<(u64, Viewport)>,
    pub modifiers: ModifiersState,
    pub cursor: (i64, i64),
    pub exited: bool,
    pub occluded: bool,
    pub blink_start: u64,
    pub blink_on: bool,
    pub effects: Seq<Effect>,
}

// ---------------------------------------------------------------------------
// The row of tabs
// ---------------------------------------------------------------------------

pub open spec fn bar_attr(fg: Color, bg: Color) -> GraphicAttribute {
    GraphicAttribute { fg, bg, ..crate::terminal::plain_attr() }
}

/// A cell of the row of tabs.
pub open spec fn bar_cell(ch: char, focused: bool) -> Cell {
    crate::terminal::head_cell(
        ch,
        1,
        if focused {
            bar_attr(Color::Black, Color::White)
        } else {
            bar_attr(Color::White, Color::BrightBlack)
        },
    )
}

/// The label of a tab.
pub open spec fn tab_label(i: nat) -> Seq<char> {
    seq![' '] + decimal(i + 1) + seq![' ']
}

/// The cells of a text in the row of tabs.
pub open spec fn label_cells(text: Seq<char>, focused: bool) -> Seq<Cell> {
    Seq::new(text.len(), |k: int| bar_cell(text[k], focused))
}

/// The labels of the first `n` tabs.
pub open spec fn tab_cells(n: nat, focus: nat) -> Seq<Cell>
    decreases n,
{
    if n == 0 {
        Seq::empty()
    } else {
        let i = (n - 1) as nat;
        tab_cells(i, focus) + label_cells(tab_label(i), i == focus)
    }
}

/// The row of `n` tabs in a number of columns, cut off or filled up.
pub open spec fn bar_row(n: nat, focus: nat, cols: nat) -> Seq<Cell> {
    let c = tab_cells(n, focus);
    Seq::new(
        cols,
        |k: int|
            if k < c.len() {
                c[k]
            } else {
                bar_cell(' ', false)
            },
    )
}

fn make_bar_cell(ch: char, focused: bool) -> (r: Cell)
    ensures
        r == bar_cell(ch, focused),
{
    let mut c = Cell::new_ascii(ch);
    if focused {
        c.attr.fg = Color::Black;
        c.attr.bg = Color::White;
    } else {
        c.attr.fg = Color::White;
        c.attr.bg = Color::BrightBlack;
    }
    c
}

/// The row of tabs.
pub fn status_bar_cells(n: usize, focus: usize, cols: usize) -> (r: Vec<Cell>)
    ensures
        r@ == bar_row(n as nat, focus as nat, cols as nat),
{
    let mut cells: Vec<Cell> = Vec::new();
    let mut i: usize = 0;
    assert(cells@ =~= Seq::empty());
    while i < n
        invariant
            i <= n,
            cells@ == tab_cells(i as nat, focus as nat),
        decreases n - i,
    {
        let mut label = String::new();
        label.push(' ');
        label.append(decimal_text(i as u64 + 1).as_str());
        label.push(' ');
        assert(label@ =~= tab_label(i as nat));
        let chars = crate::text::chars_of(label.as_str());
        let ghost before = cells@;
        let ghost want = label_cells(tab_label(i as nat), i == focus);
        let mut k: usize = 0;
        assert(before + want.subrange(0, 0) =~= before);
        while k < chars.len()
            invariant
                k <= chars.len(),
                chars@ == tab_label(i as nat),
                want == label_cells(tab_label(i as nat), i == focus),
                cells@ == before + want.subrange(0, k as int),
            decreases chars.len() - k,
        {
            cells.push(make_bar_cell(chars[k], i == focus));
            assert(cells@ =~= before + want.subrange(0, k + 1));
            k += 1;
        }
        assert(want.subrange(0, chars.len() as int) =~= want);
        i += 1;
    }
    let ghost all = cells@;
    cells.truncate(cols);
    while cells.len() < cols
        invariant
            cells.len() <= cols,
            all == tab_cells(n as nat, focus as nat),
            forall|k: int|
                0 <= k < cells.len() ==> #[trigger] cells@[k] == (if k < all.len() {
                    all[k]
                } else {
                    bar_cell(' ', false)
                }),
            cells.len() < cols ==> cells.len() >= all.len(),
        decreases cols - cells.len(),
    {
        cells.push(make_bar_cell(' ', false));
    }
    assert(cells@ =~= bar_row(n as nat, focus as nat, cols as nat));
    cells
}

// ---------------------------------------------------------------------------
// Programs
// ---------------------------------------------------------------------------

/// The paths at which a program is looked for: its own where it has
/// directories, else in each directory of the search path.
pub open spec fn candidates(command: Seq<char>, search: Option<Seq<char>>) -> Seq<Seq<char>> {
    if crate::path::components(command).len() > 1 {
        seq![command]
    } else {
        match search {
            None => Seq::empty(),
            Some(s) => {
                let dirs = pieces(s, ':');
                Seq::new(dirs.len(), |i: int| joined(dirs[i], command))
            },
        }
    }
}

/// The paths at which a program is looked for.
pub fn command_candidates(command: &str, search: Option<&str>) -> (r: Vec<String>)
    ensures
        texts(r@) == candidates(command@, opt_str(search)),
{
    let mut out: Vec<String> = Vec::new();
    if path_components(command).len() > 1 {
        let own = command.to_owned();
        out.push(own);
        assert(texts(out@) =~= seq![command@]);
        return out;
    }
    match search {
        None => {
            assert(texts(out@) =~= Seq::empty());
            out
        },
        Some(s) => {
            let dirs = split_at_char(s, ':');
            let ghost dv = pieces(s@, ':');
            let mut i: usize = 0;
            assert(texts(out@) =~= Seq::new(0, |k: int| joined(dv[k], command@)));
            while i < dirs.len()
                invariant
                    i <= dirs.len(),
                    texts(dirs@) == dv,
                    texts(out@) == Seq::new(i as nat, |k: int| joined(dv[k], command@)),
                decreases dirs.len() - i,
            {
                let p = join(dirs[i].as_str(), command);
                assert(dirs[i as int]@ == dv[i as int]);
                let ghost before = out@;
                out.push(p);
                proof {
                    crate::text::lemma_texts_push(before, p);
                    assert(texts(out@) =~= Seq::new(
                        (i + 1) as nat,
                        |k: int| joined(dv[k], command@),
                    ));
                }
                i += 1;
            }
            out
        },
    }
}

/// Whether one of the places where a program is looked for holds a file.
pub fn command_exists(found: &Vec<bool>) -> (r: bool)
    ensures
        r == found@.contains(true),
{
    let mut i: usize = 0;
    while i < found.len()
        invariant
            i <= found.len(),
            forall|k: int| 0 <= k < i ==> !#[trigger] found@[k],
        decreases found.len() - i,
    {
        if found[i] {
            assert(found@[i as int]);
            return true;
        }
        i += 1;
    }
    false
}

/// What happens to the window. Positions are in pixels.
#[derive(Debug)]
pub enum MuxEvent {
    CloseRequested,
    Resized { w: u32, h: u32 },
    ScaleFactorChanged { w: u32, h: u32 },
    Focused(bool),
    Occluded(bool),
    RedrawRequested { minimized: bool },
    ModifiersChanged(ModifiersState),
    /// A key; one that was down when the focus came is synthetic.
    Key { pressed: bool, synthetic: bool, code: Option<KeyCode>, text: Option<String> },
    CursorMoved { x: i64, y: i64 },
    MousePressed,
    MouseReleased,
    /// The wheel turned, counted in rows of the sidebar and of the preview.
    MouseWheel { side_rows: i32, reader_rows: i32 },
    Ime,
    Other,
}

// ---------------------------------------------------------------------------
// What each operation does
// ---------------------------------------------------------------------------

/// The window is asked to do something.
pub open spec fn asking(m: Mux, e: Effect) -> Mux {
    Mux { effects: m.effects.push(e), ..m }
}

/// The tab that is shown.
pub open spec fn shown_tab(m: Mux) -> Node {
    m.tabs[m.focus as int]
}

/// The pane with the focus of a tab.
#[verifier::opaque]
pub open spec fn leaf_of(tabs: Seq<Node>, i: int) -> u64 {
    focused(tabs[i])
}

/// The pane with the focus of the tab that is shown.
pub open spec fn leaf(m: Mux) -> u64 {
    leaf_of(m.tabs, m.focus as int)
}

/// The pane with the focus of the tab that is shown is told.
pub open spec fn leaf_told(m: Mux, gain: bool) -> Mux {
    asking(m, Effect::FocusPane { pane: leaf(m), gain })
}

/// The tab that is shown is another.
pub open spec fn with_tab(m: Mux, n: Node) -> Mux {
    Mux { tabs: m.tabs.update(m.focus as int, n), ..m }
}

/// The file is read, where a read is asked for.
pub open spec fn reading(m: Mux, q: Option<(Seq<char>, Seq<char>, (u32, u32))>) -> Mux {
    match q {
        Some((path, shown, fit)) => asking(m, Effect::Read { path, shown, fit }),
        None => m,
    }
}

/// The height of the row of tabs: a single tab has none.
pub open spec fn bar_height(m: Mux) -> u32 {
    if m.tabs.len() <= 1 {
        0
    } else {
        m.bar_cell.h
    }
}

/// What the row of tabs leaves of the window.
pub open spec fn content(m: Mux) -> Viewport {
    let h = bar_height(m);
    Viewport {
        x: 0,
        y: h,
        w: m.viewport.w,
        h: if m.viewport.h > h {
            (m.viewport.h - h) as u32
        } else {
            0
        },
    }
}

/// The row of tabs is made anew, where there is one.
#[verifier::opaque]
pub open spec fn bar_drawn(m: Mux) -> Mux {
    if m.tabs.len() <= 1 {
        m
    } else {
        Mux {
            bar: bar_row(m.tabs.len(), m.focus, cells_in(m.viewport.w, m.bar_cell.w)),
            bar_updated: true,
            ..m
        }
    }
}

/// The focus goes to the sidebar, where it is shown.
#[verifier::opaque]
pub open spec fn side_entered(m: Mux, now: u64) -> Mux {
    if !m.side.visible || m.side_focused {
        m
    } else {
        let left = if m.editor_focused {
            Mux {
                editor_focused: false,
                ..match m.editor {
                    Some(p) => asking(m, Effect::FocusPane { pane: p, gain: false }),
                    None => m,
                }
            }
        } else {
            leaf_told(m, false)
        };
        Mux { side_focused: true, side: focus_given(left.side, true, now), ..left }
    }
}

/// The focus leaves the sidebar for the terminal.
#[verifier::opaque]
pub open spec fn side_left(m: Mux, now: u64) -> Mux {
    let q = Mux { side_focused: false, side: focus_given(m.side, false, now), ..m };
    if m.side_focused {
        leaf_told(q, true)
    } else {
        q
    }
}

/// The focus goes to the editor.
#[verifier::opaque]
pub open spec fn editor_entered(m: Mux, now: u64) -> Mux {
    if !m.side.visible || m.editor_focused {
        m
    } else {
        let left = if m.side_focused {
            Mux { side_focused: false, side: focus_given(m.side, false, now), ..m }
        } else {
            leaf_told(m, false)
        };
        match left.editor {
            Some(p) => Mux {
                editor_focused: true,
                ..asking(left, Effect::FocusPane { pane: p, gain: true })
            },
            None => left,
        }
    }
}

/// The focus leaves the editor for the terminal.
#[verifier::opaque]
pub open spec fn editor_left(m: Mux) -> Mux {
    if !m.editor_focused {
        m
    } else {
        let q = match m.editor {
            Some(p) => asking(m, Effect::FocusPane { pane: p, gain: false }),
            None => m,
        };
        leaf_told(Mux { editor_focused: false, ..q }, true)
    }
}

/// The focus moves among the panes of the tab; `None` where it cannot.
#[verifier::opaque]
pub open spec fn pane_moved(m: Mux, dir: Dir) -> Option<Mux> {
    match focus_moved(shown_tab(m), dir) {
        Some(n) => Some(leaf_told(with_tab(leaf_told(m, false), n), true)),
        None => None,
    }
}

/// The focus moves in a direction. In the workbench it goes from the sidebar
/// to the right, from the editor to the left, and from the leftmost pane to
/// the sidebar.
#[verifier::opaque]
pub open spec fn moved_focus(m: Mux, dir: Dir, now: u64) -> Mux {
    if m.side.visible && m.side_focused {
        if dir == Dir::Right {
            side_left(m, now)
        } else {
            m
        }
    } else if m.side.visible && m.editor_focused {
        if dir == Dir::Left {
            side_entered(m, now)
        } else {
            m
        }
    } else {
        match pane_moved(m, dir) {
            Some(q) => q,
            None => if m.side.visible && dir == Dir::Left {
                side_entered(m, now)
            } else {
                m
            },
        }
    }
}

/// The axis of a direction.
pub open spec fn axis_of(dir: Dir) -> Partition {
    match dir {
        Dir::Left | Dir::Right => Partition::Vertical,
        Dir::Up | Dir::Down => Partition::Horizontal,
    }
}

/// A line moves in a direction: in the workbench one of its own, else the
/// innermost line around the pane with the focus.
#[verifier::opaque]
pub open spec fn line_moved(m: Mux, dir: Dir) -> Mux {
    let ahead = dir == Dir::Right || dir == Dir::Down;
    if m.side.visible {
        let line = if axis_of(dir) == Partition::Vertical {
            Divider::Sidebar
        } else {
            Divider::Preview
        };
        asking(m, Effect::MoveLine { line, ahead })
    } else {
        match line_along(shown_tab(m), axis_of(dir)) {
            Some(id) => asking(m, Effect::MoveLine { line: Divider::Split(id), ahead }),
            None => m,
        }
    }
}

/// A new tab with a shell is shown.
#[verifier::opaque]
pub open spec fn tab_opened(m: Mux) -> Mux {
    let pane = m.next_id;
    let spawned = asking(
        leaf_told(m, false),
        Effect::SpawnPane { pane, viewport: content(m), beside: None },
    );
    let added = Mux {
        tabs: m.tabs.push(Node::Leaf(pane)),
        focus: m.tabs.len(),
        next_id: (pane + 1) as u64,
        ..spawned
    };
    bar_drawn(leaf_told(asking(added, Effect::Relayout), true))
}

/// The tab at `i` goes, and the focus stays on the tab it was on, or goes to
/// the one that takes its place.
pub open spec fn without_tab(m: Mux, i: int) -> Mux {
    let tabs = m.tabs.remove(i);
    Mux {
        tabs,
        focus: if i < m.focus {
            (m.focus - 1) as nat
        } else if m.focus >= tabs.len() && tabs.len() > 0 {
            (tabs.len() - 1) as nat
        } else {
            m.focus
        },
        ..m
    }
}

/// The pane with the focus is closed, its tab with its last pane, and the
/// window with its last tab.
#[verifier::opaque]
pub open spec fn pane_closed(m: Mux) -> Mux {
    let q = asking(m, Effect::ClosePane(leaf(m)));
    match closed(shown_tab(m)) {
        Some(n) => bar_drawn(asking(leaf_told(with_tab(q, n), true), Effect::Relayout)),
        None => {
            let rest = without_tab(q, q.focus as int);
            if rest.tabs.len() == 0 {
                Mux { exited: true, ..rest }
            } else {
                bar_drawn(asking(leaf_told(rest, true), Effect::Relayout))
            }
        },
    }
}

/// The tab behind the one at `at`, or the one before it; behind the last comes
/// the first.
pub open spec fn tab_beside(at: nat, n: nat, ahead: bool) -> nat {
    if ahead {
        if at + 1 == n {
            0
        } else {
            at + 1
        }
    } else if at == 0 {
        (n - 1) as nat
    } else {
        (at - 1) as nat
    }
}

fn neighbour(at: usize, n: usize, ahead: bool) -> (r: usize)
    requires
        at < n,
    ensures
        r == tab_beside(at as nat, n as nat, ahead),
        r < n,
{
    if ahead {
        if at + 1 == n {
            0
        } else {
            at + 1
        }
    } else if at == 0 {
        n - 1
    } else {
        at - 1
    }
}

/// The next tab is shown, or the one before.
#[verifier::opaque]
pub open spec fn tab_switched(m: Mux, ahead: bool) -> Mux {
    let n = m.tabs.len();
    if n <= 1 {
        m
    } else {
        bar_drawn(
            leaf_told(
                Mux { focus: tab_beside(m.focus, n, ahead), ..leaf_told(m, false) },
                true,
            ),
        )
    }
}

/// The rectangle of a pane.
pub open spec fn place_of(places: Seq<(u64, Viewport)>, pane: u64) -> Viewport
    decreases places.len(),
{
    if places.len() == 0 {
        Viewport { x: 0, y: 0, w: 0, h: 0 }
    } else if places[0].0 == pane {
        places[0].1
    } else {
        place_of(places.drop_first(), pane)
    }
}

/// The middle of an extent, rounded up.
pub open spec fn middle(e: u32) -> u32 {
    ((e + 1) / 2) as u32
}

/// Whether the second side of a line in the middle has a place.
pub open spec fn can_halve(partition: Partition, vp: Viewport) -> bool {
    let mid = middle(extent(partition, vp));
    match partition {
        Partition::Vertical => vp.x + mid + GAP <= u32::MAX,
        Partition::Horizontal => vp.y + mid + GAP <= u32::MAX,
    }
}

/// A rectangle goes to a pane.
pub open spec fn pane_placed(m: Mux, pane: u64, viewport: Viewport) -> Mux {
    asking(
        Mux { places: seq![(pane, viewport)] + m.places, ..m },
        Effect::SetViewport { pane, viewport },
    )
}

/// The pane with the focus is divided in the middle, and the new pane, in the
/// same directory, has the focus.
#[verifier::opaque]
pub open spec fn pane_divided(m: Mux, partition: Partition) -> Mux {
    let old = leaf(m);
    let vp = place_of(m.places, old);
    let id = m.next_id;
    let pane = (id + 1) as u64;
    let spawned = asking(m, Effect::SpawnPane { pane, viewport: vp, beside: Some(old) });
    let told = asking(
        asking(spawned, Effect::FocusPane { pane: old, gain: false }),
        Effect::FocusPane { pane, gain: true },
    );
    let q = with_tab(
        Mux { next_id: (id + 2) as u64, ..told },
        divided(shown_tab(m), partition, id, pane),
    );
    if can_halve(partition, vp) {
        let (a, b) = sides(partition, middle(extent(partition, vp)), vp);
        pane_placed(pane_placed(q, old, a), pane, b)
    } else {
        asking(q, Effect::Relayout)
    }
}

/// The workbench: it opens with the focus on the sidebar, the focus goes to
/// the sidebar where it is elsewhere, and else the workbench closes.
#[verifier::opaque]
pub open spec fn side_switched(m: Mux, location: ShellLocation, now: u64) -> Mux {
    if !m.side.visible {
        side_entered(
            asking(Mux { side: toggled(m.side, location, now), ..m }, Effect::Relayout),
            now,
        )
    } else if !m.side_focused {
        side_entered(m, now)
    } else {
        let hidden = Mux { side: toggled(m.side, location, now), ..m };
        asking(editor_left(side_left(hidden, now)), Effect::Relayout)
    }
}

/// Whether the window itself handles a shortcut; the others belong to panes.
pub open spec fn is_window_action(a: ShortcutAction) -> bool {
    !(a == ShortcutAction::IncreaseFont || a == ShortcutAction::DecreaseFont || a
        == ShortcutAction::Copy || a == ShortcutAction::Paste || a == ShortcutAction::ClearHistory)
}

/// The shortcut of the window that a key is.
pub open spec fn shortcut(
    table: Seq<(KeyBinding, ShortcutAction)>,
    modifiers: ModifiersState,
    pressed: bool,
    code: Option<KeyCode>,
) -> Option<ShortcutAction> {
    match code {
        Some(key) if pressed => match action_of(
            table,
            KeyBinding { modifiers: modifier_mask(modifiers), key },
        ) {
            Some(a) if is_window_action(a) => Some(a),
            _ => None,
        },
        _ => None,
    }
}

/// What a shortcut does.
#[verifier::opaque]
pub open spec fn action_done(m: Mux, a: ShortcutAction, location: ShellLocation, now: u64) -> Mux {
    match a {
        ShortcutAction::NewTab => tab_opened(m),
        ShortcutAction::OpenLauncher => asking(m, Effect::OpenLauncher),
        ShortcutAction::ClosePane => pane_closed(m),
        ShortcutAction::NextTab => tab_switched(m, true),
        ShortcutAction::PrevTab => tab_switched(m, false),
        ShortcutAction::SplitVertical => pane_divided(m, Partition::Vertical),
        ShortcutAction::SplitHorizontal => pane_divided(m, Partition::Horizontal),
        ShortcutAction::ToggleSidebar => side_switched(m, location, now),
        ShortcutAction::FocusLeft => moved_focus(m, Dir::Left, now),
        ShortcutAction::FocusDown => moved_focus(m, Dir::Down, now),
        ShortcutAction::FocusUp => moved_focus(m, Dir::Up, now),
        ShortcutAction::FocusRight => moved_focus(m, Dir::Right, now),
        ShortcutAction::ResizeUp => line_moved(m, Dir::Up),
        ShortcutAction::ResizeDown => line_moved(m, Dir::Down),
        ShortcutAction::ResizeLeft => line_moved(m, Dir::Left),
        ShortcutAction::ResizeRight => line_moved(m, Dir::Right),
        _ => m,
    }
}

/// What the preview asks for is passed on.
pub open spec fn reader_served(m: Mux, a: Option<ReaderAct>) -> Mux {
    match a {
        Some(ReaderAct::EditFile(p)) => asking(m, Effect::EditFile(p)),
        Some(ReaderAct::OpenWithSystem(p)) => asking(m, Effect::OpenUrl(p)),
        _ => m,
    }
}

/// A file is shown in the preview and stays there.
#[verifier::opaque]
pub open spec fn file_shown(m: Mux, path: Seq<char>, now: u64) -> Mux {
    let (reader, q) = previewed(m.reader, path, root_of(m.side), now);
    reading(Mux { reader, ..m }, q)
}

/// What the sidebar asks for is done.
#[verifier::opaque]
pub open spec fn side_served(m: Mux, a: Ask, now: u64) -> Mux {
    match a {
        Ask::PreviewFile(path) => file_shown(m, path, now),
        Ask::ScrollPreview(d) => Mux { reader: scrolled_by(m.reader, d), ..m },
        Ask::EditPreview => reader_served(
            m,
            find_action(pane_rows(m.reader), ReaderHeaderAction::Edit, 0),
        ),
        Ask::OpenPreview => reader_served(
            m,
            find_action(pane_rows(m.reader), ReaderHeaderAction::OpenWithSystem, 0),
        ),
    }
}

/// A key goes to the sidebar.
#[verifier::opaque]
pub open spec fn side_key(
    m: Mux,
    pressed: bool,
    code: Option<KeyCode>,
    text: Option<Seq<char>>,
    now: u64,
) -> Mux {
    let (side, out) = if pressed && code is Some {
        keyed(m.side, code->0, text, now)
    } else {
        (m.side, KeyOutcome::Consumed)
    };
    let q = Mux { side, ..m };
    match out {
        KeyOutcome::Consumed => q,
        KeyOutcome::ReleaseFocus => side_left(q, now),
        KeyOutcome::Request(a) => {
            let s = side_served(q, a, now);
            if s.side_focused {
                leaf_told(s, false)
            } else {
                s
            }
        },
    }
}

/// The event goes to the pane with the focus of the tab that is shown.
pub open spec fn to_leaf(m: Mux, clicks: bool) -> Mux {
    asking(m, Effect::Forward { pane: leaf(m), clicks })
}

/// The event goes to the editor, where there is one.
pub open spec fn to_editor(m: Mux) -> Mux {
    match m.editor {
        Some(p) => asking(m, Effect::Forward { pane: p, clicks: false }),
        None => m,
    }
}

/// The cursor is shown again when a key is pressed.
#[verifier::opaque]
pub open spec fn awake(m: Mux, now: u64) -> Mux {
    let q = Mux { blink_start: now, ..m };
    if m.blink_on {
        q
    } else {
        asking(Mux { blink_on: true, ..q }, Effect::BlinkPane { pane: leaf(m), on: true })
    }
}

/// A key. Shortcuts come first; then it goes to the sidebar, the editor or the
/// terminal, whichever has the focus.
#[verifier::opaque]
pub open spec fn key_handled(
    m: Mux,
    pressed: bool,
    code: Option<KeyCode>,
    text: Option<Seq<char>>,
    table: Seq<(KeyBinding, ShortcutAction)>,
    location: ShellLocation,
    now: u64,
) -> Mux {
    let w = if pressed {
        awake(m, now)
    } else {
        m
    };
    match shortcut(table, w.modifiers, pressed, code) {
        Some(a) => {
            let q = action_done(w, a, location, now);
            if q.side_focused && a != ShortcutAction::ToggleSidebar && !q.exited {
                leaf_told(q, false)
            } else {
                q
            }
        },
        None => if w.side_focused {
            side_key(w, pressed, code, text, now)
        } else if w.editor_focused {
            to_editor(w)
        } else {
            to_leaf(w, false)
        },
    }
}

/// Whether the mouse is over the sidebar.
pub open spec fn over_side(m: Mux) -> bool {
    m.side.visible && inside(m.side.viewport, m.cursor.0 as int, m.cursor.1 as int)
}

/// Whether the mouse is over the preview or the editor.
pub open spec fn over_preview(m: Mux) -> bool {
    m.side.visible && inside(m.reader.viewport, m.cursor.0 as int, m.cursor.1 as int)
}

/// The panes under a position.
pub open spec fn panes_at(places: Seq<(u64, Viewport)>, panes: Seq<u64>, x: int, y: int) -> Seq<u64>
    decreases panes.len(),
{
    if panes.len() == 0 {
        Seq::empty()
    } else {
        let before = panes_at(places, panes.drop_last(), x, y);
        if inside(place_of(places, panes.last()), x, y) {
            before.push(panes.last())
        } else {
            before
        }
    }
}

/// The mouse went down over the preview or the editor.
#[verifier::opaque]
pub open spec fn preview_pressed(m: Mux, now: u64) -> Mux {
    if m.editor is Some {
        to_editor(editor_entered(m, now))
    } else {
        match action_at(m.reader, m.cursor.0 as int, m.cursor.1 as int) {
            Some(a) => {
                let (reader, out) = acted(m.reader, a);
                reader_served(Mux { reader, ..m }, out)
            },
            None => m,
        }
    }
}

/// The pane under the mouse has the focus of its tab.
#[verifier::opaque]
pub open spec fn pane_under_focused(m: Mux) -> Mux {
    let at = panes_at(
        m.places,
        leaves(shown_tab(m)),
        m.cursor.0 as int,
        m.cursor.1 as int,
    );
    match focused_on(shown_tab(m), at) {
        Some(n) => with_tab(m, n),
        None => m,
    }
}

/// The mouse went down over the terminal.
#[verifier::opaque]
pub open spec fn terminal_pressed(m: Mux, now: u64) -> Mux {
    let left = if m.side_focused {
        side_left(m, now)
    } else if m.editor_focused {
        editor_left(m)
    } else {
        leaf_told(m, false)
    };
    to_leaf(leaf_told(pane_under_focused(left), true), true)
}

/// A button of the mouse went down. It takes the focus to where the mouse is.
#[verifier::opaque]
pub open spec fn mouse_pressed(m: Mux, now: u64) -> Mux {
    if over_side(m) {
        asking(side_entered(m, now), Effect::ClickSidebar)
    } else if over_preview(m) {
        preview_pressed(m, now)
    } else {
        terminal_pressed(m, now)
    }
}

/// An event that is for the editor or the terminal, whichever has the focus.
#[verifier::opaque]
pub open spec fn passed_on(m: Mux) -> Mux {
    if m.editor_focused {
        to_editor(m)
    } else {
        to_leaf(m, true)
    }
}

/// A button of the mouse went up.
#[verifier::opaque]
pub open spec fn mouse_released(m: Mux) -> Mux {
    if over_side(m) || over_preview(m) {
        m
    } else {
        passed_on(m)
    }
}

/// The wheel turned by rows, as the sidebar and the preview count them.
#[verifier::opaque]
pub open spec fn wheel_turned(m: Mux, side_rows: i32, reader_rows: i32, now: u64) -> Mux {
    if over_side(m) {
        Mux { side: scrolled(m.side, side_rows as int, now), ..m }
    } else if over_preview(m) {
        if m.editor is Some {
            to_editor(m)
        } else if reader_rows == 0 {
            m
        } else {
            Mux { reader: scrolled_by(m.reader, -(reader_rows as int)), ..m }
        }
    } else {
        to_leaf(m, false)
    }
}

/// A text is being composed: not for the sidebar.
#[verifier::opaque]
pub open spec fn composed(m: Mux) -> Mux {
    if m.side_focused {
        m
    } else {
        passed_on(m)
    }
}

/// The event goes to panes, one after the other.
#[verifier::opaque]
pub open spec fn to_panes(m: Mux, panes: Seq<u64>) -> Mux {
    Mux {
        effects: m.effects + Seq::new(
            panes.len(),
            |i: int| Effect::Forward { pane: panes[i], clicks: false },
        ),
        ..m
    }
}

/// The panes of the first `n` tabs.
pub open spec fn all_panes(tabs: Seq<Node>, n: int) -> Seq<u64>
    decreases n,
{
    if n <= 0 {
        Seq::empty()
    } else {
        all_panes(tabs, n - 1) + leaves(tabs[n - 1])
    }
}

/// The window has another size, and is seen.
#[verifier::opaque]
pub open spec fn surface_resized(m: Mux, w: u32, h: u32) -> Mux {
    let q = Mux {
        viewport: Viewport { x: 0, y: 0, w, h },
        ..asking(m, Effect::ResizeSurface { w, h })
    };
    let d = bar_drawn(asking(q, Effect::Relayout));
    asking(Mux { occluded: false, ..d }, Effect::RequestRedraw)
}

/// The window has another size. A window without extent is out of sight, and
/// its panes keep their places.
#[verifier::opaque]
pub open spec fn window_resized(m: Mux, w: u32, h: u32) -> Mux {
    if w == 0 || h == 0 {
        Mux { viewport: Viewport { x: 0, y: 0, w: 0, h: 0 }, ..m }
    } else {
        surface_resized(m, w, h)
    }
}

/// Whether there is something to draw on.
pub open spec fn can_draw(m: Mux, minimized: bool) -> bool {
    m.viewport.w != 0 && m.viewport.h != 0 && !minimized
}

/// The focus of the window came or went. A window with the focus is seen.
#[verifier::opaque]
pub open spec fn window_focused(m: Mux, gain: bool) -> Mux {
    to_leaf(
        if gain {
            asking(Mux { occluded: false, ..m }, Effect::RequestRedraw)
        } else {
            m
        },
        false,
    )
}

/// The window is hidden, or can be seen again.
#[verifier::opaque]
pub open spec fn sight_changed(m: Mux, hidden: bool) -> Mux {
    let q = Mux { occluded: hidden, ..m };
    if hidden {
        q
    } else {
        asking(q, Effect::RequestRedraw)
    }
}

/// The window is drawn, where it can be seen.
#[verifier::opaque]
pub open spec fn draw_asked(m: Mux, minimized: bool) -> Mux {
    if m.occluded || !can_draw(m, minimized) {
        m
    } else {
        asking(m, Effect::Draw)
    }
}

/// Other modifiers are held down: every pane hears of it.
#[verifier::opaque]
pub open spec fn modifiers_set(m: Mux, mods: ModifiersState) -> Mux {
    to_panes(Mux { modifiers: mods, ..m }, all_panes(m.tabs, m.tabs.len() as int))
}

/// The mouse moved: every pane of the tab that is shown hears of it.
#[verifier::opaque]
pub open spec fn mouse_moved(m: Mux, x: i64, y: i64) -> Mux {
    to_panes(Mux { cursor: (x, y), ..m }, leaves(shown_tab(m)))
}

/// What an event of the window does. Behind the last tab everything ends.
#[verifier::opaque]
pub open spec fn handled(
    m: Mux,
    event: MuxEvent,
    table: Seq<(KeyBinding, ShortcutAction)>,
    location: ShellLocation,
    now: u64,
) -> Mux {
    if m.exited {
        asking(m, Effect::Exit)
    } else {
        match event {
            MuxEvent::CloseRequested => asking(m, Effect::Exit),
            MuxEvent::Resized { w, h } => window_resized(m, w, h),
            MuxEvent::ScaleFactorChanged { w, h } => surface_resized(m, w, h),
            MuxEvent::Focused(gain) => window_focused(m, gain),
            MuxEvent::Occluded(hidden) => sight_changed(m, hidden),
            MuxEvent::RedrawRequested { minimized } => draw_asked(m, minimized),
            MuxEvent::ModifiersChanged(mods) => modifiers_set(m, mods),
            MuxEvent::Key { pressed, synthetic, code, text } => if synthetic {
                m
            } else {
                key_handled(m, pressed, code, opt_text(text), table, location, now)
            },
            MuxEvent::CursorMoved { x, y } => mouse_moved(m, x, y),
            MuxEvent::MousePressed => mouse_pressed(m, now),
            MuxEvent::MouseReleased => mouse_released(m),
            MuxEvent::MouseWheel { side_rows, reader_rows } => wheel_turned(
                m,
                side_rows,
                reader_rows,
                now,
            ),
            MuxEvent::Ime => composed(m),
            MuxEvent::Other => passed_on(m),
        }
    }
}

/// A click on the row of the sidebar under the mouse.
#[verifier::opaque]
pub open spec fn side_clicked(m: Mux, now: u64) -> Mux {
    let (side, ask) = clicked(m.side, m.cursor.0 as int, m.cursor.1 as int, now);
    let q = Mux { side, ..m };
    match ask {
        Some(s) => side_served(q, s, now),
        None => q,
    }
}

/// A file on the screen was clicked on: the workbench opens and shows it.
#[verifier::opaque]
pub open spec fn file_clicked(m: Mux, path: Seq<char>, location: ShellLocation, now: u64) -> Mux {
    let q = if m.side.visible {
        m
    } else {
        asking(Mux { side: toggled(m.side, location, now), ..m }, Effect::Relayout)
    };
    asking(asking(q, Effect::PreviewFile(path)), Effect::Relayout)
}

/// An editor takes the place of the preview and has the focus; where it is not
/// to be found, the preview says so.
#[verifier::opaque]
pub open spec fn editor_opened(
    m: Mux,
    path: Seq<char>,
    command: Seq<Seq<char>>,
    exists: bool,
    now: u64,
) -> Mux {
    if !exists {
        Mux { reader: editor_missing(m.reader, command[0]), ..m }
    } else {
        let pane = m.next_id;
        let dropped = match m.editor {
            Some(old) => asking(m, Effect::ClosePane(old)),
            None => m,
        };
        let spawned = asking(
            dropped,
            Effect::SpawnEditor {
                pane,
                viewport: m.reader.viewport,
                command: command.push(path),
                cwd: parent(path),
            },
        );
        let told = leaf_told(asking(spawned, Effect::FocusPane { pane, gain: true }), false);
        Mux {
            next_id: (pane + 1) as u64,
            side_focused: false,
            side: focus_given(m.side, false, now),
            editor_focused: true,
            editor: Some(pane),
            ..told
        }
    }
}

/// The editor has ended: the preview comes back, reads its file again, and the
/// focus goes to the terminal.
#[verifier::opaque]
pub open spec fn editor_closed(m: Mux, ended: bool, now: u64) -> Mux {
    if m.side.visible && m.editor is Some && ended {
        let (reader, q) = reread(m.reader, now);
        let read = reading(Mux { reader, ..m }, q);
        asking(
            leaf_told(Mux { editor: None, editor_focused: false, ..read }, true),
            Effect::Relayout,
        )
    } else {
        m
    }
}

/// Panes get the focus, one after the other.
pub open spec fn panes_told(m: Mux, panes: Seq<u64>) -> Mux {
    Mux {
        effects: m.effects + Seq::new(
            panes.len(),
            |i: int| Effect::FocusPane { pane: panes[i], gain: true },
        ),
        ..m
    }
}

/// The tab at `i` goes with its last pane. Behind the last tab everything ends.
pub open spec fn tab_gone(m: Mux, i: int) -> Mux {
    let rest = without_tab(m, i);
    if rest.tabs.len() == 0 {
        asking(Mux { exited: true, ..rest }, Effect::Exit)
    } else if i == m.focus {
        leaf_told(rest, true)
    } else {
        rest
    }
}

/// Panes that have ended go from the tab at `i`; whether one did, and whether
/// the tab went with its last pane.
pub open spec fn tab_pruned(m: Mux, dead: Seq<u64>, i: int) -> (Mux, bool, bool) {
    let (left, collapsed, gained) = pruned(m.tabs[i], dead);
    let q = panes_told(m, gained);
    match left {
        Some(n) => (Mux { tabs: q.tabs.update(i, n), ..q }, collapsed, false),
        None => (tab_gone(q, i), true, true),
    }
}

/// Panes that have ended go, from the tab at `i` on, and whether one did.
pub open spec fn tabs_pruned(m: Mux, dead: Seq<u64>, i: int, changed: bool) -> (Mux, bool)
    decreases m.tabs.len() - i,
{
    if i < 0 || i >= m.tabs.len() {
        (m, changed)
    } else {
        let (q, c, removed) = tab_pruned(m, dead, i);
        tabs_pruned(
            q,
            dead,
            if removed {
                i
            } else {
                i + 1
            },
            changed || c,
        )
    }
}

/// Panes that have ended go, and the others take their room.
pub open spec fn ended_panes_gone(m: Mux, dead: Seq<u64>) -> Mux {
    let (q, changed) = tabs_pruned(m, dead, 0, false);
    if changed && !q.exited {
        bar_drawn(asking(q, Effect::Relayout))
    } else {
        q
    }
}

/// A message from a program in a terminal.
pub open spec fn told(m: Mux, message: Message, now: u64) -> Mux {
    match message {
        Message::Event { kind, path, tool } => Mux {
            side: reported(m.side, root_of(m.side), kind, path, tool, now),
            ..m
        },
        Message::FileChunk { path, seq, last, data } => {
            let (assembly, file) = after_piece(m.assembly, path, seq, last, data);
            let q = Mux { assembly, ..m };
            match file {
                Some((p, bytes)) => Mux { reader: remote_shown(q.reader, p, bytes), ..q },
                None => q,
            }
        },
    }
}

/// The first `n` messages from programs in terminals.
pub open spec fn all_told(m: Mux, messages: Seq<Message>, n: int, now: u64) -> Mux
    decreases n,
{
    if n <= 0 {
        m
    } else {
        told(all_told(m, messages, n - 1, now), messages[n - 1], now)
    }
}

/// Messages from programs in terminals; without the workbench they are lost.
pub open spec fn messages_heard(m: Mux, messages: Seq<Message>, now: u64) -> Mux {
    if m.side.visible {
        all_told(m, messages, messages.len() as int, now)
    } else {
        m
    }
}

/// Whether the cursor is shown now.
pub open spec fn blink_phase(start: u64, now: u64) -> bool {
    let elapsed = if now > start {
        now - start
    } else {
        0
    };
    (elapsed / BLINK_NANOS as int) % 2 == 0
}

/// The cursor blinks.
pub open spec fn blinked(m: Mux, enabled: bool, now: u64) -> Mux {
    let on = blink_phase(m.blink_start, now);
    if enabled && on != m.blink_on {
        asking(Mux { blink_on: on, ..m }, Effect::BlinkPane { pane: leaf(m), on })
    } else {
        m
    }
}

/// The workbench looks after the directory and the changes in it. The preview
/// follows the last change, unless another file was chosen.
pub open spec fn changes_followed(
    m: Mux,
    location: ShellLocation,
    poll: SidebarPoll,
    now: u64,
) -> Mux {
    if !m.side.visible {
        m
    } else {
        let side = ticked(m.side, location, poll, now);
        let target = if side.frozen {
            None
        } else {
            side.follow_target
        };
        let q = Mux { side: Side { follow_target: None, ..side }, ..m };
        match target {
            None => q,
            Some(path) => if !q.reader.pinned {
                let (reader, read) = followed(q.reader, path, root_of(side), now);
                reading(Mux { reader, ..q }, read)
            } else if q.reader.preview.target_abs is Some && path_eq(
                q.reader.preview.target_abs->0,
                path,
            ) {
                let (reader, read) = reread(q.reader, now);
                reading(Mux { reader, ..q }, read)
            } else {
                q
            },
        }
    }
}

/// The preview hears of its read.
pub open spec fn read_heard(m: Mux, status: ReadStatus, now: u64) -> Mux {
    if !m.side.visible {
        m
    } else {
        let (reader, _, next) = heard(m.reader, status, now);
        reading(Mux { reader, ..m }, next)
    }
}

// ---------------------------------------------------------------------------
// The window
// ---------------------------------------------------------------------------

/// The window. Times are in nanoseconds.
pub struct Multiplexer {
    pub viewport: Viewport,
    pub bar_cell: CellSize,
    pub bar: Vec<Cell>,
    pub bar_updated: bool,
    pub sidebar: Sidebar,
    pub sidebar_focused: bool,
    pub reader: ReaderPane,
    pub editor: Option<u64>,
    pub editor_focused: bool,
    pub gt_file_assembler: GtFileAssembler,
    pub tabs: Vec<Node>,
    pub focus: usize,
    pub next_id: u64,
    pub places: Vec<(u64, Viewport)>,
    pub modifiers: ModifiersState,
    pub cursor_pos: (i64, i64),
    pub exited: bool,
    pub occluded: bool,
    pub blink_start: u64,
    pub cursor_blink_on: bool,
    pub effects: Vec<MuxEffect>,
}

impl View for Multiplexer {
    type V = Mux;

    open spec fn view(&self) -> Mux {
        Mux {
            viewport: self.viewport,
            bar_cell: self.bar_cell,
            bar: self.bar@,
            bar_updated: self.bar_updated,
            side: side_of(self.sidebar),
            side_focused: self.sidebar_focused,
            reader: reader_of(self.reader),
            editor: self.editor,
            editor_focused: self.editor_focused,
            assembly: self.gt_file_assembler@,
            tabs: self.tabs@,
            focus: self.focus as nat,
            next_id: self.next_id,
            places: self.places@,
            modifiers: self.modifiers,
            cursor: self.cursor_pos,
            exited: self.exited,
            occluded: self.occluded,
            blink_start: self.blink_start,
            blink_on: self.cursor_blink_on,
            effects: effect_views(self.effects@),
        }
    }
}

pub(crate) fn find_place(places: &Vec<(u64, Viewport)>, pane: u64) -> (r: Viewport)
    ensures
        r == place_of(places@, pane),
{
    let mut i: usize = 0;
    assert(places@.subrange(0, places@.len() as int) =~= places@);
    while i < places.len()
        invariant
            i <= places.len(),
            place_of(places@.subrange(i as int, places@.len() as int), pane) == place_of(
                places@,
                pane,
            ),
        decreases places.len() - i,
    {
        proof {
            let s = places@.subrange(i as int, places@.len() as int);
            assert(s[0] == places@[i as int]);
            assert(s.drop_first() =~= places@.subrange(i + 1, places@.len() as int));
        }
        if places[i].0 == pane {
            return places[i].1;
        }
        i += 1;
    }
    Viewport { x: 0, y: 0, w: 0, h: 0 }
}

pub(crate) fn find_panes_at(places: &Vec<(u64, Viewport)>, panes: &Vec<u64>, x: i64, y: i64) -> (r: Vec<u64>)
    ensures
        r@ == panes_at(places@, panes@, x as int, y as int),
{
    let mut out: Vec<u64> = Vec::new();
    let mut i: usize = 0;
    assert(out@ =~= Seq::empty());
    assert(panes@.subrange(0, 0) =~= Seq::empty());
    while i < panes.len()
        invariant
            i <= panes.len(),
            out@ == panes_at(places@, panes@.subrange(0, i as int), x as int, y as int),
        decreases panes.len() - i,
    {
        proof {
            let s = panes@.subrange(0, i + 1);
            assert(s.drop_last() =~= panes@.subrange(0, i as int));
            assert(s.last() == panes@[i as int]);
        }
        if find_place(places, panes[i]).contains(x, y) {
            out.push(panes[i]);
        }
        i += 1;
    }
    assert(panes@.subrange(0, panes@.len() as int) =~= panes@);
    out
}

/// The state of the sidebar.
#[verifier::opaque]
pub open spec fn side_of(s: Sidebar) -> Side {
    s@
}

/// The state of the preview.
#[verifier::opaque]
pub open spec fn reader_of(r: ReaderPane) -> Reader {
    r@
}

/// The sidebar is as it should be.
#[verifier::opaque]
pub open spec fn side_ok(s: Sidebar) -> bool {
    s.wf()
}

/// The preview is as it should be.
#[verifier::opaque]
pub open spec fn reader_ok(r: ReaderPane) -> bool {
    r.wf()
}

impl Multiplexer {
    /// One of the tabs is shown, and when there are none the window ends.
    pub open spec fn wf(&self) -> bool {
        &&& self.bar_cell.w > 0
        &&& side_ok(self.sidebar)
        &&& reader_ok(self.reader)
        &&& self.tabs.len() == 0 ==> self.exited
        &&& self.tabs.len() > 0 ==> self.focus < self.tabs.len()
    }

    /// There is a tab.
    pub open spec fn live(&self) -> bool {
        self.wf() && self.tabs.len() > 0
    }

    /// There are numbers for more panes and lines.
    pub open spec fn has_numbers(&self) -> bool {
        self.next_id <= u64::MAX - 2
    }

    /// A window with one tab.
    pub fn new(
        viewport: Viewport,
        bar_cell: CellSize,
        sidebar_cell: CellSize,
        reader_cell: CellSize,
        editor: &str,
        agent: &str,
        h: &Highlighter,
        now: u64,
    ) -> (r: Self)
        requires
            bar_cell.w > 0,
            sidebar_cell.w > 0,
            sidebar_cell.h > 0,
            reader_cell.w > 0,
            reader_cell.h > 0,
        ensures
            r.live(),
            r.has_numbers(),
            r@ == (Mux {
                viewport,
                bar_cell,
                bar: Seq::empty(),
                bar_updated: false,
                side: side_at_start(viewport, sidebar_cell, agent@),
                side_focused: false,
                reader: reader_at_start(viewport, reader_cell, editor@),
                editor: None,
                editor_focused: false,
                assembly: Assembly {
                    path: None,
                    next_seq: 0,
                    data: Seq::empty(),
                    broken: false,
                },
                tabs: seq![Node::Leaf(0)],
                focus: 0,
                next_id: 1,
                places: Seq::empty(),
                modifiers: ModifiersState {
                    control: false,
                    shift: false,
                    alt: false,
                    logo: false,
                },
                cursor: (0, 0),
                exited: false,
                occluded: false,
                blink_start: now,
                blink_on: true,
                effects: seq![
                    Effect::SpawnPane { pane: 0, viewport, beside: None },
                    Effect::Relayout,
                ],
            }),
    {
        let tabs: Vec<Node> = vec![Node::Leaf(0)];
        let effects: Vec<MuxEffect> = vec![
            MuxEffect::SpawnPane { pane: 0, viewport, beside: None },
            MuxEffect::Relayout,
        ];
        let r = Multiplexer {
            viewport,
            bar_cell,
            bar: Vec::new(),
            bar_updated: false,
            sidebar: Sidebar::new(viewport, sidebar_cell, agent),
            sidebar_focused: false,
            reader: ReaderPane::new(viewport, reader_cell, editor, h),
            editor: None,
            editor_focused: false,
            gt_file_assembler: GtFileAssembler::default(),
            tabs,
            focus: 0,
            next_id: 1,
            places: Vec::new(),
            modifiers: ModifiersState { control: false, shift: false, alt: false, logo: false },
            cursor_pos: (0, 0),
            exited: false,
            occluded: false,
            blink_start: now,
            cursor_blink_on: true,
            effects,
        };
        proof {
            reveal(side_ok);
            reveal(reader_ok);
            reveal(side_of);
            reveal(reader_of);
            reveal(effect_views);
            assert(r.tabs@ =~= seq![Node::Leaf(0)]);
            assert(r.bar@ =~= Seq::<Cell>::empty());
            assert(r.places@ =~= Seq::<(u64, Viewport)>::empty());
            assert(effect_views(r.effects@) =~= seq![
                Effect::SpawnPane { pane: 0, viewport, beside: None },
                Effect::Relayout,
            ]);
        }
        r
    }

    pub(crate) fn ask(&mut self, e: MuxEffect)
        ensures
            final(self)@ == asking(old(self)@, e@),
            old(self).wf() ==> final(self).wf(),
    {
        let ghost before = self.effects@;
        self.effects.push(e);
        proof {
            reveal(effect_views);
            assert(effect_views(self.effects@) =~= effect_views(before).push(e@));
        }
    }

    /// What the window has been asked to do since the last call.
    pub fn take_effects(&mut self) -> (r: Vec<MuxEffect>)
        ensures
            effect_views(r@) == old(self)@.effects,
            final(self)@ == (Mux { effects: Seq::empty(), ..old(self)@ }),
            old(self).wf() ==> final(self).wf(),
    {
        let mut out: Vec<MuxEffect> = Vec::new();
        std::mem::swap(&mut out, &mut self.effects);
        proof {
            reveal(effect_views);
            assert(effect_views(self.effects@) =~= Seq::empty());
        }
        out
    }

    /// The pane with the focus of the tab that is shown.
    pub fn focused_leaf(&self) -> (r: u64)
        requires
            self.live(),
        ensures
            r == leaf(self@),
    {
        reveal(leaf_of);
        self.tabs[self.focus].focused_leaf()
    }

    pub(crate) fn tell_leaf(&mut self, gain: bool)
        requires
            old(self).live(),
        ensures
            final(self).live(),
            final(self)@ == leaf_told(old(self)@, gain),
    {
        let pane = self.focused_leaf();
        self.ask(MuxEffect::FocusPane { pane, gain });
    }

    pub(crate) fn read(&mut self, q: Option<ReadRequest>)
        ensures
            final(self)@ == reading(old(self)@, request_view(q)),
            old(self).wf() ==> final(self).wf(),
    {
        if let Some(r) = q {
            self.ask(MuxEffect::Read(r));
        }
    }

    /// The height of the row of tabs.
    pub fn status_bar_height(&self) -> (r: u32)
        ensures
            r == bar_height(self@),
    {
        if self.tabs.len() <= 1 {
            0
        } else {
            self.bar_cell.h
        }
    }

    /// What the row of tabs leaves of the window.
    pub fn content_viewport(&self) -> (r: Viewport)
        ensures
            r == content(self@),
    {
        let h = self.status_bar_height();
        Viewport { x: 0, y: h, w: self.viewport.w, h: self.viewport.h.saturating_sub(h) }
    }

    /// Whether the workbench is open.
    pub fn is_open(&self) -> (r: bool)
        ensures
            r == self@.side.visible,
    {
        reveal(side_of);
        self.sidebar.is_visible()
    }

    pub(crate) fn update_status_bar(&mut self)
        requires
            old(self).wf(),
        ensures
            final(self).wf(),
            final(self)@.tabs == old(self)@.tabs,
            final(self)@ == bar_drawn(old(self)@),
    {
        reveal(bar_drawn);
        if self.tabs.len() <= 1 {
            return ;
        }
        let cols = count_cells_in(self.viewport.w, self.bar_cell.w);
        self.bar = status_bar_cells(self.tabs.len(), self.focus, cols);
        self.bar_updated = true;
    }

    pub(crate) fn give_side_focus(&mut self, focused: bool, now: u64)
        requires
            old(self).wf(),
        ensures
            final(self).wf(),
            final(self)@ == (Mux { side: focus_given(old(self)@.side, focused, now), ..old(self)@ }),
    {
        reveal(side_ok);
        reveal(side_of);
        self.sidebar.set_focused(focused, now);
    }

    pub(crate) fn switch_side(&mut self, location: &ShellLocation, now: u64)
        requires
            old(self).wf(),
        ensures
            final(self).wf(),
            final(self)@ == (Mux { side: toggled(old(self)@.side, *location, now), ..old(self)@ }),
    {
        reveal(side_ok);
        reveal(side_of);
        self.sidebar.toggle(location, now);
    }

    pub(crate) fn focus_sidebar(&mut self, now: u64)
        requires
            old(self).live(),
        ensures
            final(self).live(),
            final(self)@ == side_entered(old(self)@, now),
    {
        reveal(side_entered);
        if !self.is_open() || self.sidebar_focused {
            return ;
        }
        if self.editor_focused {
            if let Some(pane) = self.editor {
                self.ask(MuxEffect::FocusPane { pane, gain: false });
            }
            self.editor_focused = false;
        } else {
            self.tell_leaf(false);
        }
        self.sidebar_focused = true;
        self.give_side_focus(true, now);
    }

    pub(crate) fn release_sidebar_focus(&mut self, now: u64)
        requires
            old(self).live(),
        ensures
            final(self).live(),
            final(self)@ == side_left(old(self)@, now),
    {
        reveal(side_left);
        let had = self.sidebar_focused;
        self.sidebar_focused = false;
        self.give_side_focus(false, now);
        if had {
            self.tell_leaf(true);
        }
    }

    pub(crate) fn focus_editor(&mut self, now: u64)
        requires
            old(self).live(),
        ensures
            final(self).live(),
            final(self)@ == editor_entered(old(self)@, now),
    {
        reveal(editor_entered);
        if !self.is_open() || self.editor_focused {
            return ;
        }
        if self.sidebar_focused {
            self.sidebar_focused = false;
            self.give_side_focus(false, now);
        } else {
            self.tell_leaf(false);
        }
        if let Some(pane) = self.editor {
            self.ask(MuxEffect::FocusPane { pane, gain: true });
            self.editor_focused = true;
        }
    }

    pub(crate) fn release_editor_focus(&mut self)
        requires
            old(self).live(),
        ensures
            final(self).live(),
            final(self)@ == editor_left(old(self)@),
    {
        reveal(editor_left);
        if !self.editor_focused {
            return ;
        }
        match self.editor {
            Some(pane) => {
                self.ask(MuxEffect::FocusPane { pane, gain: false });
                self.editor_focused = false;
                self.tell_leaf(true);
            },
            None => {
                self.editor_focused = false;
                self.tell_leaf(true);
            },
        }
    }

    pub(crate) fn take_tab_at(&mut self, i: usize) -> (r: Node)
        requires
            old(self).live(),
            i < old(self).tabs.len(),
        ensures
            final(self).live(),
            final(self).tabs.len() == old(self).tabs.len(),
            r == old(self)@.tabs[i as int],
            final(self)@ == (Mux {
                tabs: old(self)@.tabs.update(i as int, Node::Leaf(0)),
                ..old(self)@
            }),
    {
        let mut n = Node::Leaf(0);
        std::mem::swap(&mut n, &mut self.tabs[i]);
        n
    }

    pub(crate) fn put_tab_at(&mut self, i: usize, n: Node)
        requires
            old(self).live(),
            i < old(self).tabs.len(),
        ensures
            final(self).live(),
            final(self).tabs.len() == old(self).tabs.len(),
            final(self)@ == (Mux { tabs: old(self)@.tabs.update(i as int, n), ..old(self)@ }),
    {
        self.tabs[i] = n;
    }

    pub(crate) fn take_tab(&mut self) -> (r: Node)
        requires
            old(self).live(),
        ensures
            final(self).live(),
            r == shown_tab(old(self)@),
            final(self)@ == with_tab(old(self)@, Node::Leaf(0)),
    {
        let mut n = Node::Leaf(0);
        std::mem::swap(&mut n, &mut self.tabs[self.focus]);
        n
    }

    pub(crate) fn put_tab(&mut self, n: Node)
        requires
            old(self).live(),
        ensures
            final(self).live(),
            final(self)@ == with_tab(old(self)@, n),
    {
        self.tabs[self.focus] = n;
    }

    fn move_pane_focus(&mut self, dir: Dir) -> (r: bool)
        requires
            old(self).live(),
        ensures
            final(self).live(),
            r == (pane_moved(old(self)@, dir) is Some),
            final(self)@ == (match pane_moved(old(self)@, dir) {
                Some(q) => q,
                None => old(self)@,
            }),
    {
        reveal(pane_moved);
        let pane = self.focused_leaf();
        let ghost start = self@;
        let (n, moved) = self.take_tab().move_focus(dir);
        if moved {
            self.ask(MuxEffect::FocusPane { pane, gain: false });
            self.put_tab(n);
            proof {
                assert(self@.tabs =~= start.tabs.update(start.focus as int, n));
            }
            self.tell_leaf(true);
        } else {
            self.put_tab(n);
            proof {
                assert(self@.tabs =~= start.tabs);
            }
        }
        moved
    }

    /// Moves the focus in a direction.
    pub fn move_focus_workbench(&mut self, dir: Dir, now: u64)
        requires
            old(self).live(),
        ensures
            final(self).live(),
            final(self)@ == moved_focus(old(self)@, dir, now),
    {
        reveal(moved_focus);
        let visible = self.is_open();
        if visible && self.sidebar_focused {
            if dir == Dir::Right {
                self.release_sidebar_focus(now);
            }
            return ;
        }
        if visible && self.editor_focused {
            if dir == Dir::Left {
                self.focus_sidebar(now);
            }
            return ;
        }
        if self.move_pane_focus(dir) {
            return ;
        }
        if visible && dir == Dir::Left {
            self.focus_sidebar(now);
        }
    }

    /// Moves a line in a direction.
    pub fn resize(&mut self, dir: Dir)
        requires
            old(self).live(),
        ensures
            final(self).live(),
            final(self)@ == line_moved(old(self)@, dir),
    {
        reveal(line_moved);
        let (axis, ahead) = match dir {
            Dir::Left => (Partition::Vertical, false),
            Dir::Right => (Partition::Vertical, true),
            Dir::Up => (Partition::Horizontal, false),
            Dir::Down => (Partition::Horizontal, true),
        };
        if self.is_open() {
            let line = match axis {
                Partition::Vertical => Divider::Sidebar,
                Partition::Horizontal => Divider::Preview,
            };
            self.ask(MuxEffect::MoveLine { line, ahead });
        } else if let Some(id) = self.tabs[self.focus].resize_focused(axis) {
            self.ask(MuxEffect::MoveLine { line: Divider::Split(id), ahead });
        }
    }

    fn open_tab(&mut self)
        requires
            old(self).live(),
            old(self).has_numbers(),
        ensures
            final(self).live(),
            final(self)@ == tab_opened(old(self)@),
    {
        reveal(tab_opened);
        let pane = self.next_id;
        let viewport = self.content_viewport();
        self.tell_leaf(false);
        self.ask(MuxEffect::SpawnPane { pane, viewport, beside: None });
        self.next_id = pane + 1;
        self.focus = self.tabs.len();
        self.tabs.push(Node::Leaf(pane));
        self.ask(MuxEffect::Relayout);
        self.tell_leaf(true);
        self.update_status_bar();
    }

    pub(crate) fn remove_tab(&mut self, i: usize)
        requires
            old(self).wf(),
            i < old(self).tabs.len(),
            old(self).tabs.len() > 1 || old(self).exited,
        ensures
            final(self).wf(),
            final(self)@ == without_tab(old(self)@, i as int),
    {
        self.tabs.remove(i);
        if i < self.focus {
            self.focus -= 1;
        } else if self.focus >= self.tabs.len() && self.tabs.len() > 0 {
            self.focus = self.tabs.len() - 1;
        }
    }

    fn close_focused(&mut self)
        requires
            old(self).live(),
        ensures
            final(self).wf(),
            final(self)@ == pane_closed(old(self)@),
            !final(self).exited ==> final(self).live(),
    {
        reveal(pane_closed);
        let ghost start = self@;
        let pane = self.focused_leaf();
        let n = self.take_tab().close_focused();
        self.ask(MuxEffect::ClosePane(pane));
        match n {
            Some(tab) => {
                self.put_tab(tab);
                proof {
                    assert(self@.tabs =~= start.tabs.update(start.focus as int, tab));
                    assert(self@ == with_tab(asking(start, Effect::ClosePane(pane)), tab));
                }
                self.settle();
            },
            None => {
                let i = self.focus;
                let last = self.tabs.len() == 1;
                if last {
                    self.exited = true;
                }
                self.remove_tab(i);
                proof {
                    let q = asking(start, Effect::ClosePane(pane));
                    assert(self@.tabs =~= start.tabs.remove(start.focus as int));
                    let rest = without_tab(q, q.focus as int);
                    assert(self@ == (Mux { exited: self.exited, ..rest }));
                }
                if !last {
                    self.settle();
                }
            },
        }
    }

    /// The pane with the focus is told, and the panes take the room there is.
    pub(crate) fn settle(&mut self)
        requires
            old(self).live(),
        ensures
            final(self).live(),
            final(self)@ == bar_drawn(asking(leaf_told(old(self)@, true), Effect::Relayout)),
    {
        self.tell_leaf(true);
        self.ask(MuxEffect::Relayout);
        self.update_status_bar();
    }

    fn switch_tab(&mut self, ahead: bool)
        requires
            old(self).live(),
        ensures
            final(self).live(),
            final(self)@ == tab_switched(old(self)@, ahead),
    {
        reveal(tab_switched);
        let n = self.tabs.len();
        if n <= 1 {
            return ;
        }
        let at = self.focus;
        let to = neighbour(at, n, ahead);
        self.tell_leaf(false);
        self.focus = to;
        self.tell_leaf(true);
        self.update_status_bar();
    }

    fn place_pane(&mut self, pane: u64, viewport: Viewport)
        requires
            old(self).live(),
        ensures
            final(self).live(),
            final(self)@ == pane_placed(old(self)@, pane, viewport),
    {
        let ghost before = self.places@;
        self.places.insert(0, (pane, viewport));
        assert(self.places@ =~= seq![(pane, viewport)] + before);
        self.ask(MuxEffect::SetViewport { pane, viewport });
    }

    fn split_focused(&mut self, partition: Partition)
        requires
            old(self).live(),
            old(self).has_numbers(),
        ensures
            final(self).live(),
            final(self)@ == pane_divided(old(self)@, partition),
    {
        reveal(pane_divided);
        let ghost start = self@;
        let old_pane = self.focused_leaf();
        let vp = find_place(&self.places, old_pane);
        let id = self.next_id;
        let pane = id + 1;
        self.ask(MuxEffect::SpawnPane { pane, viewport: vp, beside: Some(old_pane) });
        self.ask(MuxEffect::FocusPane { pane: old_pane, gain: false });
        self.ask(MuxEffect::FocusPane { pane, gain: true });
        self.next_id = id + 2;
        let n = self.take_tab().split_focused(partition, id, pane);
        self.put_tab(n);
        proof {
            assert(self@.tabs =~= start.tabs.update(start.focus as int, n));
        }
        let (e, from) = match partition {
            Partition::Vertical => (vp.w, vp.x),
            Partition::Horizontal => (vp.h, vp.y),
        };
        let mid = e / 2 + e % 2;
        if from as u64 + mid as u64 + GAP as u64 <= u32::MAX as u64 {
            let (a, b) = split_viewport(partition, mid, vp);
            self.place_pane(old_pane, a);
            self.place_pane(pane, b);
        } else {
            self.ask(MuxEffect::Relayout);
        }
    }

    fn toggle_sidebar(&mut self, location: &ShellLocation, now: u64)
        requires
            old(self).live(),
        ensures
            final(self).live(),
            final(self)@ == side_switched(old(self)@, *location, now),
    {
        reveal(side_switched);
        if !self.is_open() {
            self.switch_side(location, now);
            self.ask(MuxEffect::Relayout);
            self.focus_sidebar(now);
        } else if !self.sidebar_focused {
            self.focus_sidebar(now);
        } else {
            self.switch_side(location, now);
            self.release_sidebar_focus(now);
            self.release_editor_focus();
            self.ask(MuxEffect::Relayout);
        }
    }

    /// The shortcut of the window that a key is.
    pub fn parse_shortcut(
        &self,
        pressed: bool,
        code: Option<KeyCode>,
        table: &Vec<(KeyBinding, ShortcutAction)>,
    ) -> (r: Option<ShortcutAction>)
        ensures
            r == shortcut(table@, self@.modifiers, pressed, code),
    {
        if !pressed {
            return None;
        }
        match code {
            None => None,
            Some(key) => match lookup(table, self.modifiers, key) {
                Some(a) => match a {
                    ShortcutAction::IncreaseFont
                    | ShortcutAction::DecreaseFont
                    | ShortcutAction::Copy
                    | ShortcutAction::Paste
                    | ShortcutAction::ClearHistory => None,
                    _ => Some(a),
                },
                None => None,
            },
        }
    }

    /// Does what a shortcut stands for.
    pub fn handle_action(&mut self, action: ShortcutAction, location: &ShellLocation, now: u64)
        requires
            old(self).live(),
            old(self).has_numbers(),
        ensures
            final(self).wf(),
            !final(self).exited ==> final(self).live(),
            final(self)@ == action_done(old(self)@, action, *location, now),
    {
        reveal(action_done);
        match action {
            ShortcutAction::NewTab => {
                self.open_tab();
            },
            ShortcutAction::OpenLauncher => {
                self.ask(MuxEffect::OpenLauncher);
            },
            ShortcutAction::ClosePane => {
                self.close_focused();
            },
            ShortcutAction::NextTab => {
                self.switch_tab(true);
            },
            ShortcutAction::PrevTab => {
                self.switch_tab(false);
            },
            ShortcutAction::SplitVertical => {
                self.split_focused(Partition::Vertical);
            },
            ShortcutAction::SplitHorizontal => {
                self.split_focused(Partition::Horizontal);
            },
            ShortcutAction::ToggleSidebar => {
                self.toggle_sidebar(location, now);
            },
            ShortcutAction::FocusLeft => {
                self.move_focus_workbench(Dir::Left, now);
            },
            ShortcutAction::FocusDown => {
                self.move_focus_workbench(Dir::Down, now);
            },
            ShortcutAction::FocusUp => {
                self.move_focus_workbench(Dir::Up, now);
            },
            ShortcutAction::FocusRight => {
                self.move_focus_workbench(Dir::Right, now);
            },
            ShortcutAction::ResizeUp => {
                self.resize(Dir::Up);
            },
            ShortcutAction::ResizeDown => {
                self.resize(Dir::Down);
            },
            ShortcutAction::ResizeLeft => {
                self.resize(Dir::Left);
            },
            ShortcutAction::ResizeRight => {
                self.resize(Dir::Right);
            },
            _ => {},
        }
    }
}

} // verus!
