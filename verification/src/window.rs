//! A pane with a terminal: what it shows, and what its keys and the mouse do.

use crate::clipboard::{bytes_of, copied, countable, selected_text};
use crate::input::{
    button_number, bytes_for_key, key_bytes, modifier_bits, mouse_report, repeat_bytes, report,
    report_button, report_modifiers, times, MouseButton,
};
use crate::keybindings::{action_of, lookup, modifier_mask, KeyBinding, ShortcutAction};
use crate::keys::{KeyCode, ModifiersState};
use crate::links::{
    link_at, link_of, points_to, resolve_existing_file_token, should_show_link_pointer, token_path,
    word_at, Link, LinkTarget,
};
use crate::reader::opt_str;
use crate::selection::{is_grid, selected, selection_of, Drag, Selection};
use crate::snapshot::Snapshot;
use crate::terminal::{pictures, CellSize, Cursor, Line, Picture, PositionedImage, TerminalSize};
use crate::text::opt_text;
use crate::view::{cells_in, count_cells_in, Viewport};
use vstd::prelude::*;
use vstd::utf8::encode_utf8;

verus! {

/// The longest time in nanoseconds between clicks that count together.
pub const CLICK_INTERVAL: u64 = 400_000_000;

/// How long in nanoseconds behind a composed text the Enter key that ended it
/// may still arrive.
pub const COMMIT_INTERVAL: u64 = 50_000_000;

#[derive(Debug, Clone, Copy, PartialEq, Eq, Structural)]
pub enum CursorIcon {
    Default,
    Text,
    Pointer,
}

/// What the program in the terminal has asked for, and how far the screen is
/// scrolled back.
#[derive(Debug, Clone, Copy, PartialEq, Eq, Structural)]
pub struct TerminalModes {
    pub mouse: bool,
    pub sgr: bool,
    pub alt_screen: bool,
    pub offset: u32,
}

/// What the window is asked to do for a pane.
#[derive(Debug)]
pub enum PaneAction {
    /// Write to the program in the terminal.
    Write(Vec<u8>),
    /// Scroll the history by lines, back where positive.
    Scroll(i32),
    ScrollToBottom,
    ClearHistory,
    /// Put a text on the clipboard.
    Copy(String),
    /// Write what is on the clipboard.
    Paste,
    /// Open a page in the browser.
    OpenUrl(String),
    /// Look for the file that a word names.
    FindFile(String),
    /// Make the font larger, or smaller.
    ChangeFont(i32),
    SetCursorIcon(CursorIcon),
    AllowIme,
    /// Where the text being composed is.
    ImeArea { x: u64, y: u64, w: u32, h: u32 },
    /// Tell the program in the terminal its size.
    Resize { cols: usize, rows: usize, cell_w: u16, cell_h: u16 },
}

/// What the window is asked to do for a pane.
pub ghost enum Act {
    Write(Seq<u8>),
    Scroll(i32),
    ScrollToBottom,
    ClearHistory,
    Copy(Seq<char>),
    Paste,
    OpenUrl(Seq<char>),
    FindFile(Seq<char>),
    ChangeFont(i32),
    SetCursorIcon(CursorIcon),
    AllowIme,
    ImeArea { x: u64, y: u64, w: u32, h: u32 },
    Resize { cols: usize, rows: usize, cell_w: u16, cell_h: u16 },
}

impl View for PaneAction {
    type V = Act;

    open spec fn view(&self) -> Act {
        match *self {
            PaneAction::Write(b) => Act::Write(b@),
            PaneAction::Scroll(n) => Act::Scroll(n),
            PaneAction::ScrollToBottom => Act::ScrollToBottom,
            PaneAction::ClearHistory => Act::ClearHistory,
            PaneAction::Copy(t) => Act::Copy(t@),
            PaneAction::Paste => Act::Paste,
            PaneAction::OpenUrl(t) => Act::OpenUrl(t@),
            PaneAction::FindFile(t) => Act::FindFile(t@),
            PaneAction::ChangeFont(n) => Act::ChangeFont(n),
            PaneAction::SetCursorIcon(i) => Act::SetCursorIcon(i),
            PaneAction::AllowIme => Act::AllowIme,
            PaneAction::ImeArea { x, y, w, h } => Act::ImeArea { x, y, w, h },
            PaneAction::Resize { cols, rows, cell_w, cell_h } => Act::Resize {
                cols,
                rows,
                cell_w,
                cell_h,
            },
        }
    }
}

/// What each action is.
pub open spec fn act_views(v: Seq<PaneAction>) -> Seq<Act> {
    Seq::new(v.len(), |i: int| v[i]@)
}

/// What the window tells a pane. Positions are in half pixels.
#[derive(Debug)]
pub enum PaneEvent {
    Focused(bool),
    ModifiersChanged(ModifiersState),
    /// The text being composed.
    Preedit(String),
    /// A text has been composed.
    Commit(String),
    ImeSwitched,
    KeyPressed { code: Option<KeyCode>, text: Option<String> },
    /// The mouse is at a position of the window, over a row and column of the
    /// pane unless it is to its left or above it.
    CursorMoved { x: i64, y: i64, cell: Option<(usize, usize)> },
    MouseInput { pressed: bool, button: MouseButton },
    /// The wheel has moved by whole lines.
    MouseWheel { horizontal: i32, vertical: i32 },
}

/// The mouse. Positions are in half pixels, relative to the pane.
#[derive(Debug, Clone, Copy)]
pub struct MouseState {
    pub cursor_pos: (i64, i64),
    pub pressed_pos: Option<(i64, i64)>,
    pub released_pos: Option<(i64, i64)>,
    pub pressed_offset: u32,
    pub released_offset: u32,
    /// The drag selects a rectangle.
    pub block: bool,
    /// The button that is down began a selection.
    pub selecting: bool,
    pub click_count: usize,
    pub last_clicked: Option<u64>,
}

/// The state of a pane.
pub ghost struct Pane {
    pub viewport: Viewport,
    pub cell: CellSize,
    pub scroll_bar: u32,
    pub size: TerminalSize,
    pub focused: bool,
    pub modifiers: ModifiersState,
    pub mouse: MouseState,
    pub last_commit: Option<u64>,
    pub clicked_file: Option<Seq<char>>,
    pub lines: Seq<Line>,
    pub cursor: Option<Cursor>,
    pub images: Seq<Picture>,
    pub selection: Option<Selection>,
    pub preedit: Seq<char>,
    pub updated: bool,
    pub actions: Seq<Act>,
}

pub struct TerminalWindow {
    pub viewport: Viewport,
    pub cell: CellSize,
    pub scroll_bar_width: u32,
    pub size: TerminalSize,
    pub focused: bool,
    pub modifiers: ModifiersState,
    pub mouse: MouseState,
    /// When a text was last composed.
    pub last_ime_commit: Option<u64>,
    pub clicked_file: Option<String>,
    pub lines: Vec<Line>,
    pub cursor: Option<Cursor>,
    pub images: Vec<PositionedImage>,
    pub selection_range: Option<Selection>,
    pub preedit: String,
    /// What is shown has not been drawn since it changed.
    pub updated: bool,
    pub actions: Vec<PaneAction>,
}

impl View for TerminalWindow {
    type V = Pane;

    open spec fn view(&self) -> Pane {
        Pane {
            viewport: self.viewport,
            cell: self.cell,
            scroll_bar: self.scroll_bar_width,
            size: self.size,
            focused: self.focused,
            modifiers: self.modifiers,
            mouse: self.mouse,
            last_commit: self.last_ime_commit,
            clicked_file: opt_text(self.clicked_file),
            lines: self.lines@,
            cursor: self.cursor,
            images: pictures(self.images@),
            selection: self.selection_range,
            preedit: self.preedit@,
            updated: self.updated,
            actions: act_views(self.actions@),
        }
    }
}

/// A position that a window can have, in half pixels.
pub open spec fn near(x: int) -> bool {
    -0x8000_0000 <= x <= 0x8000_0000
}

/// A position relative to a pane.
pub open spec fn in_range(pos: (i64, i64)) -> bool {
    -0x4_0000_0000 <= pos.0 <= 0x8000_0000 && -0x4_0000_0000 <= pos.1 <= 0x8000_0000
}

/// The mouse is somewhere, and was pressed within the pane.
pub open spec fn mouse_ok(m: MouseState) -> bool {
    &&& in_range(m.cursor_pos)
    &&& m.pressed_pos is Some ==> in_range(m.pressed_pos->0) && (m.pressed_pos->0).0 >= 0
        && (m.pressed_pos->0).1 >= 0
    &&& m.released_pos is Some ==> in_range(m.released_pos->0)
}

/// The cells of a screen can be counted.
pub open spec fn size_ok(size: TerminalSize) -> bool {
    1 <= size.rows <= u32::MAX && 1 <= size.cols <= u32::MAX && size.rows * size.cols <= usize::MAX
}

/// What holds of every pane.
pub open spec fn pane_ok(p: Pane) -> bool {
    &&& p.cell.w > 0
    &&& p.cell.h > 0
    &&& size_ok(p.size)
    &&& mouse_ok(p.mouse)
    &&& countable(p.lines)
}

/// The size of the terminal in a pane: what is left beside the scroll bar.
pub open spec fn terminal_size(viewport: Viewport, cell: CellSize, scroll_bar: u32) -> TerminalSize {
    let w = if viewport.w > scroll_bar {
        (viewport.w - scroll_bar) as u32
    } else {
        0
    };
    TerminalSize {
        rows: cells_in(viewport.h, cell.h) as usize,
        cols: cells_in(w, cell.w) as usize,
    }
}

/// The size of the terminal in a pane.
pub fn terminal_size_of(viewport: Viewport, cell: CellSize, scroll_bar: u32) -> (r: TerminalSize)
    requires
        cell.w > 0,
        cell.h > 0,
    ensures
        r == terminal_size(viewport, cell, scroll_bar),
        1 <= r.rows <= u32::MAX,
        1 <= r.cols <= u32::MAX,
{
    let w = viewport.w.saturating_sub(scroll_bar);
    TerminalSize { rows: count_cells_in(viewport.h, cell.h), cols: count_cells_in(w, cell.w) }
}

// ---------------------------------------------------------------------------
// What each event does
// ---------------------------------------------------------------------------

/// The pane asks for something.
pub open spec fn asking(p: Pane, a: Act) -> Pane {
    Pane { actions: p.actions.push(a), ..p }
}

/// Nothing is being selected any more.
pub open spec fn unpressed(p: Pane) -> Pane {
    Pane { mouse: MouseState { pressed_pos: None, released_pos: None, ..p.mouse }, ..p }
}

/// The pane has a rectangle and a size of cells: its terminal is told.
pub open spec fn resized(p: Pane, viewport: Viewport, cell: CellSize) -> Pane {
    let size = terminal_size(viewport, cell, p.scroll_bar);
    asking(
        unpressed(Pane { viewport, cell, size, ..p }),
        Act::Resize {
            cols: size.cols,
            rows: size.rows,
            cell_w: cell.w as u16,
            cell_h: cell.h as u16,
        },
    )
}

/// The mouse over a pane without a link.
pub open spec fn base_icon(mouse: bool) -> CursorIcon {
    if mouse {
        CursorIcon::Default
    } else {
        CursorIcon::Text
    }
}

/// The focus came or went.
pub open spec fn focus_set(p: Pane, gain: bool, mouse: bool) -> Pane {
    let q = Pane { focused: gain, updated: true, ..p };
    if gain {
        asking(q, Act::SetCursorIcon(base_icon(mouse)))
    } else {
        q
    }
}

/// Where the cell at the cursor is in the window.
pub open spec fn ime_area(p: Pane, c: Cursor) -> Act {
    Act::ImeArea {
        x: (p.viewport.x + (c.col as u32) * p.cell.w) as u64,
        y: (p.viewport.y + (c.row as u32) * p.cell.h) as u64,
        w: p.cell.w,
        h: p.cell.h,
    }
}

/// The text being composed is put at the cursor.
pub open spec fn ime_moved(p: Pane) -> Pane {
    match p.cursor {
        Some(c) => asking(p, ime_area(p, c)),
        None => p,
    }
}

/// Something was typed: nothing is selected, and the screen is at its end.
pub open spec fn typed(p: Pane) -> Pane {
    asking(unpressed(Pane { selection: None, updated: true, ..p }), Act::ScrollToBottom)
}

/// Whether a composed text came just before.
pub open spec fn just_composed(last: Option<u64>, now: u64) -> bool {
    last is Some && now - last->0 < COMMIT_INTERVAL
}

/// A key was pressed. While a text is being composed it belongs to that; then
/// come the shortcuts, the keys with bytes of their own, and the text.
pub open spec fn key_pressed(
    p: Pane,
    code: Option<KeyCode>,
    text: Option<Seq<char>>,
    table: Seq<(KeyBinding, ShortcutAction)>,
    now: u64,
) -> Pane {
    match code {
        None => p,
        Some(key) => if p.preedit.len() > 0 {
            p
        } else if key == KeyCode::Enter && just_composed(p.last_commit, now) {
            p
        } else {
            match action_of(table, KeyBinding { modifiers: modifier_mask(p.modifiers), key }) {
                Some(ShortcutAction::IncreaseFont) => typed(asking(p, Act::ChangeFont(1))),
                Some(ShortcutAction::DecreaseFont) => typed(asking(p, Act::ChangeFont(-1i32))),
                Some(ShortcutAction::Copy) => asking(p, Act::Copy(copied(p.lines, p.selection))),
                Some(ShortcutAction::Paste) => typed(asking(p, Act::Paste)),
                Some(ShortcutAction::ClearHistory) => typed(asking(p, Act::ClearHistory)),
                _ => match key_bytes(p.modifiers.control, p.modifiers.shift, key) {
                    Some(b) => typed(asking(p, Act::Write(b))),
                    None => match text {
                        Some(t) => typed(asking(p, Act::Write(encode_utf8(t)))),
                        None => p,
                    },
                },
            }
        },
    }
}

/// The mouse moved. Over a link it points, unless the program in the terminal
/// follows the mouse.
pub open spec fn cursor_moved(
    p: Pane,
    x: int,
    y: int,
    cell: Option<(usize, usize)>,
    mouse: bool,
) -> Pane {
    let q = Pane {
        mouse: MouseState {
            cursor_pos: ((x - 2 * p.viewport.x) as i64, (y - 2 * p.viewport.y) as i64),
            ..p.mouse
        },
        ..p
    };
    if mouse {
        q
    } else {
        let on_link = match cell {
            Some((row, col)) => points_to(
                word_at(p.lines, row as int, col as int),
                p.modifiers.control,
            ),
            None => false,
        };
        asking(
            q,
            Act::SetCursorIcon(
                if on_link {
                    CursorIcon::Pointer
                } else {
                    CursorIcon::Text
                },
            ),
        )
    }
}

/// Whether a position lies in the pane.
pub open spec fn is_inner(p: Pane) -> bool {
    let (x, y) = p.mouse.cursor_pos;
    0 <= x < 2 * p.viewport.w && 0 <= y < 2 * p.viewport.h
}

/// The cell of the terminal at the nearest pixel, from one on.
pub open spec fn reported_cell(half: int, cell: u32) -> u32 {
    let px = if half < 0 {
        0
    } else {
        (half + 1) / 2
    };
    (px / cell as int + 1) as u32
}

/// Whether the click comes soon enough behind the one before.
pub open spec fn soon(last: Option<u64>, now: u64) -> bool {
    last is Some && now - last->0 <= CLICK_INTERVAL
}

/// A selection starts.
pub open spec fn drag_started(p: Pane, offset: u32, now: u64) -> Pane {
    let m = p.mouse;
    let count = if soon(m.last_clicked, now) {
        m.click_count
    } else {
        0
    };
    Pane {
        mouse: MouseState {
            click_count: if count < usize::MAX {
                (count + 1) as usize
            } else {
                count
            },
            last_clicked: Some(now),
            pressed_pos: Some(m.cursor_pos),
            released_pos: None,
            pressed_offset: offset,
            released_offset: offset,
            block: p.modifiers.control,
            selecting: true,
            ..m
        },
        ..p
    }
}

/// The cell under a position in half pixels.
pub open spec fn cell_under(pos: (i64, i64), cell: CellSize) -> (int, int) {
    (pos.0 as int / (2 * cell.w), pos.1 as int / (2 * cell.h))
}

/// A selection ends. With the left button on the cell where it began, it is a
/// click on a link.
pub open spec fn drag_ended(p: Pane, button: MouseButton, offset: u32) -> Pane {
    let m = p.mouse;
    let q = Pane {
        mouse: MouseState {
            selecting: false,
            released_pos: Some(m.cursor_pos),
            released_offset: offset,
            ..m
        },
        ..p
    };
    if button == MouseButton::Left && m.pressed_pos is Some && cell_under(m.pressed_pos->0, p.cell)
        == cell_under(m.cursor_pos, p.cell) {
        let (col, row) = cell_under(m.cursor_pos, p.cell);
        match link_of(word_at(p.lines, row, col), p.modifiers.control) {
            Some(Link::Page(t)) => asking(q, Act::OpenUrl(t)),
            Some(Link::File(t)) => asking(q, Act::FindFile(t)),
            None => q,
        }
    } else {
        q
    }
}

/// A button of the mouse. Outside the pane nothing is selected. A program that
/// follows the mouse gets the button, unless the shift key is held down or the
/// button ends a selection.
pub open spec fn button_changed(
    p: Pane,
    pressed: bool,
    button: MouseButton,
    modes: TerminalModes,
    now: u64,
) -> Pane {
    if !is_inner(p) {
        Pane {
            mouse: MouseState {
                pressed_pos: None,
                released_pos: None,
                selecting: false,
                ..p.mouse
            },
            ..p
        }
    } else if modes.mouse && !p.modifiers.shift && (pressed || !p.mouse.selecting) {
        let n = button_number(button, pressed, modes.sgr) + modifier_bits(p.modifiers);
        asking(
            Pane { mouse: MouseState { selecting: false, ..p.mouse }, ..p },
            Act::Write(
                report(
                    modes.sgr,
                    n as u8,
                    reported_cell(p.mouse.cursor_pos.0 as int, p.cell.w),
                    reported_cell(p.mouse.cursor_pos.1 as int, p.cell.h),
                    pressed,
                ),
            ),
        )
    } else if pressed {
        drag_started(p, modes.offset, now)
    } else {
        drag_ended(p, button, modes.offset)
    }
}

/// The distance from zero.
pub open spec fn distance(n: i32) -> nat {
    if n < 0 {
        (-n) as nat
    } else {
        n as nat
    }
}

/// The bytes of an arrow key.
pub open spec fn arrow(last: u8) -> Seq<u8> {
    seq![0x1bu8, 0x5b, last]
}

/// The reports of a wheel that moved by `n` lines.
pub open spec fn wheel_reports(p: Pane, sgr: bool, n: i32, ahead: u8, back: u8) -> Seq<u8> {
    times(
        report(
            sgr,
            if n > 0 {
                ahead
            } else {
                back
            },
            reported_cell(p.mouse.cursor_pos.0 as int, p.cell.w),
            reported_cell(p.mouse.cursor_pos.1 as int, p.cell.h),
            true,
        ),
        distance(n),
    )
}

/// Arrow keys for a wheel that moved by `n` lines.
pub open spec fn wheel_arrows(n: i32, ahead: u8, back: u8) -> Seq<u8> {
    times(
        arrow(
            if n > 0 {
                ahead
            } else {
                back
            },
        ),
        distance(n),
    )
}

/// The wheel. With the shift key down it scrolls the history. A program that
/// follows the mouse gets its reports, and one with a screen of its own gets
/// arrow keys; else it scrolls the history too.
pub open spec fn wheel_moved(p: Pane, horizontal: i32, vertical: i32, modes: TerminalModes) -> Pane {
    if p.modifiers.shift {
        asking(p, Act::Scroll(vertical))
    } else if modes.mouse {
        asking(
            asking(p, Act::Write(wheel_reports(p, modes.sgr, vertical, 64, 65))),
            Act::Write(wheel_reports(p, modes.sgr, horizontal, 67, 66)),
        )
    } else if modes.alt_screen {
        asking(
            asking(p, Act::Write(wheel_arrows(vertical, 0x41, 0x42))),
            Act::Write(wheel_arrows(horizontal, 0x43, 0x44)),
        )
    } else {
        asking(
            asking(p, Act::Scroll(vertical)),
            Act::Write(wheel_arrows(horizontal, 0x43, 0x44)),
        )
    }
}

/// What an event does.
pub open spec fn handled(
    p: Pane,
    event: PaneEvent,
    table: Seq<(KeyBinding, ShortcutAction)>,
    modes: TerminalModes,
    now: u64,
) -> Pane {
    match event {
        PaneEvent::Focused(gain) => focus_set(p, gain, modes.mouse),
        PaneEvent::ModifiersChanged(m) => Pane { modifiers: m, ..p },
        PaneEvent::Preedit(t) => ime_moved(Pane { preedit: t@, updated: true, ..p }),
        PaneEvent::Commit(t) => Pane {
            preedit: Seq::empty(),
            updated: true,
            last_commit: Some(now),
            ..asking(p, Act::Write(encode_utf8(t@)))
        },
        PaneEvent::ImeSwitched => ime_moved(Pane { preedit: Seq::empty(), updated: true, ..p }),
        PaneEvent::KeyPressed { code, text } => key_pressed(p, code, opt_text(text), table, now),
        PaneEvent::CursorMoved { x, y, cell } => cursor_moved(
            p,
            x as int,
            y as int,
            cell,
            modes.mouse,
        ),
        PaneEvent::MouseInput { pressed, button } => button_changed(p, pressed, button, modes, now),
        PaneEvent::MouseWheel { horizontal, vertical } => wheel_moved(
            p,
            horizontal,
            vertical,
            modes,
        ),
    }
}

/// The drag that the mouse makes.
pub open spec fn drag_of(m: MouseState, offset: u32) -> Drag {
    let end = match m.released_pos {
        Some(r) => r,
        None => m.cursor_pos,
    };
    let start = m.pressed_pos->0;
    Drag {
        start_x: start.0,
        start_y: start.1,
        start_offset: m.pressed_offset,
        end_x: end.0,
        end_y: end.1,
        end_offset: if m.released_pos is Some {
            m.released_offset
        } else {
            offset
        },
        offset,
        block: m.block,
        clicks: m.click_count,
    }
}

/// A new screen is shown.
pub open spec fn shown(p: Pane, s: Snapshot) -> Pane {
    let q = if p.focused && s.cursor is Some {
        asking(p, ime_area(p, s.cursor->0))
    } else {
        p
    };
    Pane {
        lines: s.lines@,
        cursor: s.cursor,
        images: pictures(s.images@),
        updated: true,
        ..q
    }
}

/// The selection follows the mouse and the screen.
pub open spec fn reselected(p: Pane, offset: u32) -> Pane {
    let selection = if p.mouse.pressed_pos is Some {
        selected(drag_of(p.mouse, offset), p.cell, p.size, p.lines)
    } else {
        None
    };
    Pane { selection, updated: p.updated || selection != p.selection, ..p }
}

/// The pane looks after its terminal: a new screen, where there is one, and
/// the selection.
pub open spec fn refreshed(p: Pane, update: Option<Snapshot>, offset: u32) -> Pane {
    reselected(
        match update {
            Some(s) => shown(p, s),
            None => p,
        },
        offset,
    )
}

// ---------------------------------------------------------------------------
// The pane
// ---------------------------------------------------------------------------

impl TerminalWindow {
    pub open spec fn wf(&self) -> bool {
        pane_ok(self@)
    }

    /// A pane for a new terminal.
    pub fn with_viewport(viewport: Viewport, cell: CellSize, scroll_bar_width: u32) -> (r: Self)
        requires
            cell.w > 0,
            cell.h > 0,
            size_ok(terminal_size(viewport, cell, scroll_bar_width)),
        ensures
            r.wf(),
            r@ == (Pane {
                viewport,
                cell,
                scroll_bar: scroll_bar_width,
                size: terminal_size(viewport, cell, scroll_bar_width),
                focused: true,
                modifiers: ModifiersState {
                    control: false,
                    shift: false,
                    alt: false,
                    logo: false,
                },
                mouse: MouseState {
                    cursor_pos: (0, 0),
                    pressed_pos: None,
                    released_pos: None,
                    pressed_offset: 0,
                    released_offset: 0,
                    block: false,
                    selecting: false,
                    click_count: 0,
                    last_clicked: None,
                },
                last_commit: None,
                clicked_file: None,
                lines: Seq::empty(),
                cursor: None,
                images: Seq::empty(),
                selection: None,
                preedit: Seq::empty(),
                updated: true,
                actions: seq![Act::SetCursorIcon(CursorIcon::Text), Act::AllowIme],
            }),
    {
        let actions: Vec<PaneAction> = vec![
            PaneAction::SetCursorIcon(CursorIcon::Text),
            PaneAction::AllowIme,
        ];
        let r = TerminalWindow {
            viewport,
            cell,
            scroll_bar_width,
            size: terminal_size_of(viewport, cell, scroll_bar_width),
            focused: true,
            modifiers: ModifiersState { control: false, shift: false, alt: false, logo: false },
            mouse: MouseState {
                cursor_pos: (0, 0),
                pressed_pos: None,
                released_pos: None,
                pressed_offset: 0,
                released_offset: 0,
                block: false,
                selecting: false,
                click_count: 0,
                last_clicked: None,
            },
            last_ime_commit: None,
            clicked_file: None,
            lines: Vec::new(),
            cursor: None,
            images: Vec::new(),
            selection_range: None,
            preedit: String::new(),
            updated: true,
            actions,
        };
        proof {
            assert(act_views(r.actions@) =~= seq![
                Act::SetCursorIcon(CursorIcon::Text),
                Act::AllowIme,
            ]);
            assert(pictures(r.images@) =~= Seq::empty());
            assert(r.lines@ =~= Seq::empty());
            assert(r.preedit@ =~= Seq::empty());
        }
        r
    }

    fn ask(&mut self, a: PaneAction)
        ensures
            final(self)@ == asking(old(self)@, a@),
    {
        let ghost before = self.actions@;
        self.actions.push(a);
        assert(act_views(self.actions@) =~= act_views(before).push(a@));
    }

    /// What the pane has asked for since the last call.
    pub fn take_actions(&mut self) -> (r: Vec<PaneAction>)
        ensures
            act_views(r@) == old(self)@.actions,
            final(self)@ == (Pane { actions: Seq::empty(), ..old(self)@ }),
    {
        let mut out: Vec<PaneAction> = Vec::new();
        std::mem::swap(&mut out, &mut self.actions);
        assert(act_views(self.actions@) =~= Seq::empty());
        out
    }

    pub fn viewport(&self) -> (r: Viewport)
        ensures
            r == self@.viewport,
    {
        self.viewport
    }

    pub fn needs_redraw(&self) -> (r: bool)
        ensures
            r == self@.updated,
    {
        self.updated
    }

    /// What is shown has been drawn.
    pub fn drawn(&mut self)
        ensures
            final(self)@ == (Pane { updated: false, ..old(self)@ }),
    {
        self.updated = false;
    }

    /// The file that was clicked on since the last call.
    pub fn take_clicked_file(&mut self) -> (r: Option<String>)
        ensures
            opt_text(r) == old(self)@.clicked_file,
            final(self)@ == (Pane { clicked_file: None, ..old(self)@ }),
    {
        let mut out: Option<String> = None;
        std::mem::swap(&mut out, &mut self.clicked_file);
        out
    }

    /// The word that was clicked on has been looked up: `exists` says whether
    /// there is a file at the path that it names.
    pub fn file_found(
        &mut self,
        token: &str,
        cwd: &str,
        home: Option<&str>,
        current: Option<&str>,
        exists: bool,
    )
        ensures
            final(self)@ == (match token_path(token@, cwd@, opt_str(home), opt_str(current)) {
                Some(path) if exists => Pane { clicked_file: Some(path), ..old(self)@ },
                _ => old(self)@,
            }),
    {
        match resolve_existing_file_token(token, cwd, home, current, exists) {
            Some(path) => {
                self.clicked_file = Some(path);
            },
            None => {},
        }
    }

    fn unpress(&mut self)
        ensures
            final(self)@ == unpressed(old(self)@),
    {
        self.mouse.pressed_pos = None;
        self.mouse.released_pos = None;
    }

    fn resize_buffer(&mut self, viewport: Viewport, cell: CellSize)
        requires
            cell.w > 0,
            cell.h > 0,
        ensures
            final(self)@ == resized(old(self)@, viewport, cell),
    {
        self.viewport = viewport;
        self.cell = cell;
        self.unpress();
        let size = terminal_size_of(viewport, cell, self.scroll_bar_width);
        self.size = size;
        self.ask(
            PaneAction::Resize {
                cols: size.cols,
                rows: size.rows,
                cell_w: cell.w as u16,
                cell_h: cell.h as u16,
            },
        );
    }

    pub fn set_viewport(&mut self, viewport: Viewport)
        requires
            old(self).wf(),
            size_ok(terminal_size(viewport, old(self)@.cell, old(self)@.scroll_bar)),
        ensures
            final(self).wf(),
            final(self)@ == resized(old(self)@, viewport, old(self)@.cell),
    {
        let cell = self.cell;
        self.resize_buffer(viewport, cell);
    }

    /// The font has another size.
    pub fn set_cell_size(&mut self, cell: CellSize)
        requires
            old(self).wf(),
            cell.w > 0,
            cell.h > 0,
            size_ok(terminal_size(old(self)@.viewport, cell, old(self)@.scroll_bar)),
        ensures
            final(self).wf(),
            final(self)@ == resized(old(self)@, old(self)@.viewport, cell),
    {
        let viewport = self.viewport;
        self.resize_buffer(viewport, cell);
    }

    /// Shows the cursor of the mouse that belongs to the pane.
    pub fn refresh_cursor_icon(&mut self, mouse: bool)
        ensures
            final(self)@ == asking(old(self)@, Act::SetCursorIcon(base_icon(mouse))),
    {
        let icon = if mouse {
            CursorIcon::Default
        } else {
            CursorIcon::Text
        };
        self.ask(PaneAction::SetCursorIcon(icon));
    }

    pub fn focus_changed(&mut self, gain: bool, mouse: bool)
        ensures
            final(self)@ == focus_set(old(self)@, gain, mouse),
    {
        self.focused = gain;
        self.updated = true;
        if gain {
            self.refresh_cursor_icon(mouse);
        }
    }

    fn ask_ime_area(&mut self, c: Cursor)
        ensures
            final(self)@ == asking(old(self)@, ime_area(old(self)@, c)),
    {
        let vp = self.viewport;
        let cell = self.cell;
        let col = c.col as u32;
        let row = c.row as u32;
        proof {
            let m = u32::MAX as int;
            assert(0 <= col * cell.w <= m * m) by (nonlinear_arith)
                requires
                    0 <= col <= m,
                    0 <= cell.w <= m,
            ;
            assert(0 <= row * cell.h <= m * m) by (nonlinear_arith)
                requires
                    0 <= row <= m,
                    0 <= cell.h <= m,
            ;
        }
        let x = vp.x as u64 + col as u64 * cell.w as u64;
        let y = vp.y as u64 + row as u64 * cell.h as u64;
        self.ask(PaneAction::ImeArea { x, y, w: cell.w, h: cell.h });
    }

    /// Puts the text being composed at the cursor.
    fn update_ime_position(&mut self)
        ensures
            final(self)@ == ime_moved(old(self)@),
    {
        if let Some(c) = self.cursor {
            self.ask_ime_area(c);
        }
    }

    fn finish_typing(&mut self)
        ensures
            final(self)@ == typed(old(self)@),
    {
        self.selection_range = None;
        self.updated = true;
        self.unpress();
        self.ask(PaneAction::ScrollToBottom);
    }

    /// Handles a key that was pressed.
    pub fn on_key_press(
        &mut self,
        code: Option<KeyCode>,
        text: Option<&str>,
        table: &Vec<(KeyBinding, ShortcutAction)>,
        now: u64,
    )
        requires
            old(self).wf(),
        ensures
            final(self).wf(),
            final(self)@ == key_pressed(old(self)@, code, opt_str(text), table@, now),
    {
        let key = match code {
            Some(key) => key,
            None => {
                return ;
            },
        };
        if crate::text::chars_of(self.preedit.as_str()).len() > 0 {
            return ;
        }
        if key == KeyCode::Enter {
            if let Some(last) = self.last_ime_commit {
                if now.saturating_sub(last) < COMMIT_INTERVAL {
                    return ;
                }
            }
        }
        match lookup(table, self.modifiers, key) {
            Some(ShortcutAction::IncreaseFont) => {
                self.ask(PaneAction::ChangeFont(1));
            },
            Some(ShortcutAction::DecreaseFont) => {
                self.ask(PaneAction::ChangeFont(-1));
            },
            Some(ShortcutAction::Copy) => {
                let text = selected_text(&self.lines, self.selection_range);
                self.ask(PaneAction::Copy(text));
                return ;
            },
            Some(ShortcutAction::Paste) => {
                self.ask(PaneAction::Paste);
            },
            Some(ShortcutAction::ClearHistory) => {
                self.ask(PaneAction::ClearHistory);
            },
            _ => match bytes_for_key(self.modifiers.control, self.modifiers.shift, key) {
                Some(b) => {
                    self.ask(PaneAction::Write(b));
                },
                None => match text {
                    Some(t) => {
                        self.ask(PaneAction::Write(bytes_of(t)));
                    },
                    None => {
                        return ;
                    },
                },
            },
        }
        self.finish_typing();
    }

    /// Handles the mouse at another position.
    pub fn on_cursor_moved(&mut self, x: i64, y: i64, cell: Option<(usize, usize)>, mouse: bool)
        requires
            old(self).wf(),
            near(x as int),
            near(y as int),
        ensures
            final(self).wf(),
            final(self)@ == cursor_moved(
                old(self)@,
                x as int,
                y as int,
                cell,
                mouse,
            ),
    {
        let left = 2 * self.viewport.x as i64;
        let top = 2 * self.viewport.y as i64;
        self.mouse.cursor_pos = (x - left, y - top);
        if !mouse {
            let on_link = match cell {
                Some((row, col)) => should_show_link_pointer(
                    &self.lines,
                    row,
                    col,
                    self.modifiers.control,
                ),
                None => false,
            };
            let icon = if on_link {
                CursorIcon::Pointer
            } else {
                CursorIcon::Text
            };
            self.ask(PaneAction::SetCursorIcon(icon));
        }
    }

    fn report_col(&self) -> (r: u32)
        requires
            self.wf(),
        ensures
            r == reported_cell(self@.mouse.cursor_pos.0 as int, self@.cell.w),
    {
        cell_for_report(self.mouse.cursor_pos.0, self.cell.w)
    }

    fn report_row(&self) -> (r: u32)
        requires
            self.wf(),
        ensures
            r == reported_cell(self@.mouse.cursor_pos.1 as int, self@.cell.h),
    {
        cell_for_report(self.mouse.cursor_pos.1, self.cell.h)
    }

    fn start_drag(&mut self, offset: u32, now: u64)
        requires
            old(self).wf(),
            is_inner(old(self)@),
        ensures
            final(self).wf(),
            final(self)@ == drag_started(old(self)@, offset, now),
    {
        let soon = match self.mouse.last_clicked {
            Some(last) => now.saturating_sub(last) <= CLICK_INTERVAL,
            None => false,
        };
        if !soon {
            self.mouse.click_count = 0;
        }
        if self.mouse.click_count < usize::MAX {
            self.mouse.click_count += 1;
        }
        self.mouse.last_clicked = Some(now);
        self.mouse.pressed_pos = Some(self.mouse.cursor_pos);
        self.mouse.released_pos = None;
        self.mouse.pressed_offset = offset;
        self.mouse.released_offset = offset;
        self.mouse.block = self.modifiers.control;
        self.mouse.selecting = true;
    }

    fn end_drag(&mut self, button: MouseButton, offset: u32)
        requires
            old(self).wf(),
            is_inner(old(self)@),
        ensures
            final(self).wf(),
            final(self)@ == drag_ended(old(self)@, button, offset),
    {
        self.mouse.selecting = false;
        self.mouse.released_pos = Some(self.mouse.cursor_pos);
        self.mouse.released_offset = offset;
        if button != MouseButton::Left {
            return ;
        }
        if let Some(press) = self.mouse.pressed_pos {
            let here = self.mouse.cursor_pos;
            let w = 2 * self.cell.w as i64;
            let h = 2 * self.cell.h as i64;
            let col = here.0 / w;
            let row = here.1 / h;
            if press.0 / w == col && press.1 / h == row {
                proof {
                    assert(0 <= col <= here.0) by (nonlinear_arith)
                        requires
                            col == here.0 as int / w as int,
                            here.0 >= 0,
                            w >= 1,
                    ;
                    assert(0 <= row <= here.1) by (nonlinear_arith)
                        requires
                            row == here.1 as int / h as int,
                            here.1 >= 0,
                            h >= 1,
                    ;
                }
                let control = self.modifiers.control;
                match link_at(&self.lines, row as usize, col as usize, control) {
                    Some(LinkTarget::Page(t)) => {
                        self.ask(PaneAction::OpenUrl(t));
                    },
                    Some(LinkTarget::File(t)) => {
                        self.ask(PaneAction::FindFile(t));
                    },
                    None => {},
                }
            }
        }
    }

    /// Handles a button of the mouse.
    pub fn on_mouse_input(
        &mut self,
        pressed: bool,
        button: MouseButton,
        modes: TerminalModes,
        now: u64,
    )
        requires
            old(self).wf(),
        ensures
            final(self).wf(),
            final(self)@ == button_changed(old(self)@, pressed, button, modes, now),
    {
        let (x, y) = self.mouse.cursor_pos;
        let w = 2 * self.viewport.w as i64;
        let h = 2 * self.viewport.h as i64;
        if !(0 <= x && x < w && 0 <= y && y < h) {
            self.unpress();
            self.mouse.selecting = false;
            return ;
        }
        let to_program = modes.mouse && !self.modifiers.shift;
        if to_program && (pressed || !self.mouse.selecting) {
            self.mouse.selecting = false;
            let n = report_button(button, pressed, modes.sgr) + report_modifiers(self.modifiers);
            let col = self.report_col();
            let row = self.report_row();
            self.ask(PaneAction::Write(mouse_report(modes.sgr, n, col, row, pressed)));
        } else if pressed {
            self.start_drag(modes.offset, now);
        } else {
            self.end_drag(button, modes.offset);
        }
    }

    fn write_wheel_reports(&mut self, sgr: bool, n: i32, ahead: u8, back: u8)
        requires
            old(self).wf(),
            ahead <= 223,
            back <= 223,
        ensures
            final(self).wf(),
            final(self)@ == asking(
                old(self)@,
                Act::Write(wheel_reports(old(self)@, sgr, n, ahead, back)),
            ),
    {
        let button = if n > 0 {
            ahead
        } else {
            back
        };
        let one = mouse_report(sgr, button, self.report_col(), self.report_row(), true);
        self.ask(PaneAction::Write(repeat_bytes(&one, distance_of(n))));
    }

    fn write_wheel_arrows(&mut self, n: i32, ahead: u8, back: u8)
        ensures
            final(self)@ == asking(old(self)@, Act::Write(wheel_arrows(n, ahead, back))),
    {
        let last = if n > 0 {
            ahead
        } else {
            back
        };
        let one: Vec<u8> = vec![0x1b, 0x5b, last];
        assert(one@ =~= arrow(last));
        self.ask(PaneAction::Write(repeat_bytes(&one, distance_of(n))));
    }

    /// Handles the wheel of the mouse.
    pub fn on_mouse_wheel(&mut self, horizontal: i32, vertical: i32, modes: TerminalModes)
        requires
            old(self).wf(),
        ensures
            final(self).wf(),
            final(self)@ == wheel_moved(old(self)@, horizontal, vertical, modes),
    {
        if self.modifiers.shift {
            self.ask(PaneAction::Scroll(vertical));
        } else if modes.mouse {
            self.write_wheel_reports(modes.sgr, vertical, 64, 65);
            self.write_wheel_reports(modes.sgr, horizontal, 67, 66);
        } else if modes.alt_screen {
            self.write_wheel_arrows(vertical, 0x41, 0x42);
            self.write_wheel_arrows(horizontal, 0x43, 0x44);
        } else {
            self.ask(PaneAction::Scroll(vertical));
            self.write_wheel_arrows(horizontal, 0x43, 0x44);
        }
    }

    /// Handles what the window tells the pane.
    pub fn process_window_event(
        &mut self,
        event: PaneEvent,
        table: &Vec<(KeyBinding, ShortcutAction)>,
        modes: TerminalModes,
        now: u64,
    )
        requires
            old(self).wf(),
            (match event {
                PaneEvent::CursorMoved { x, y, .. } => near(x as int) && near(y as int),
                _ => true,
            }),
        ensures
            final(self).wf(),
            final(self)@ == handled(old(self)@, event, table@, modes, now),
    {
        match event {
            PaneEvent::Focused(gain) => {
                self.focus_changed(gain, modes.mouse);
            },
            PaneEvent::ModifiersChanged(m) => {
                self.modifiers = m;
            },
            PaneEvent::Preedit(t) => {
                self.preedit = t;
                self.updated = true;
                self.update_ime_position();
            },
            PaneEvent::Commit(t) => {
                self.ask(PaneAction::Write(bytes_of(t.as_str())));
                self.preedit = String::new();
                assert(self.preedit@ =~= Seq::empty());
                self.updated = true;
                self.last_ime_commit = Some(now);
            },
            PaneEvent::ImeSwitched => {
                self.preedit = String::new();
                assert(self.preedit@ =~= Seq::empty());
                self.updated = true;
                self.update_ime_position();
            },
            PaneEvent::KeyPressed { code, text } => {
                let t = match &text {
                    Some(t) => Some(t.as_str()),
                    None => None,
                };
                self.on_key_press(code, t, table, now);
            },
            PaneEvent::CursorMoved { x, y, cell } => {
                self.on_cursor_moved(x, y, cell, modes.mouse);
            },
            PaneEvent::MouseInput { pressed, button } => {
                self.on_mouse_input(pressed, button, modes, now);
            },
            PaneEvent::MouseWheel { horizontal, vertical } => {
                self.on_mouse_wheel(horizontal, vertical, modes);
            },
        }
    }

    /// Looks after the terminal: shows a new screen, where there is one, and
    /// lets the selection follow. Returns whether the program has ended.
    pub fn check_update(&mut self, exited: bool, update: Option<Snapshot>, offset: u32) -> (r: bool)
        requires
            old(self).wf(),
            update is Some ==> countable(update->0.lines@),
            !exited && old(self)@.mouse.pressed_pos is Some && old(self)@.mouse.click_count == 2
                && !old(self)@.mouse.block ==> is_grid(
                (match update {
                    Some(s) => s.lines@,
                    None => old(self)@.lines,
                }),
                old(self)@.size,
            ),
        ensures
            final(self).wf(),
            r == exited,
            final(self)@ == (if exited {
                old(self)@
            } else {
                refreshed(old(self)@, update, offset)
            }),
    {
        if exited {
            return true;
        }
        if let Some(s) = update {
            if let Some(c) = s.cursor {
                if self.focused {
                    self.ask_ime_area(c);
                }
            }
            self.lines = s.lines;
            self.cursor = s.cursor;
            self.images = s.images;
            self.updated = true;
        }
        let m = self.mouse;
        let new_selection = match m.pressed_pos {
            Some(start) => {
                let end = match m.released_pos {
                    Some(r) => r,
                    None => m.cursor_pos,
                };
                let drag = Drag {
                    start_x: start.0,
                    start_y: start.1,
                    start_offset: m.pressed_offset,
                    end_x: end.0,
                    end_y: end.1,
                    end_offset: match m.released_pos {
                        Some(_) => m.released_offset,
                        None => offset,
                    },
                    offset,
                    block: m.block,
                    clicks: m.click_count,
                };
                assert(drag == drag_of(m, offset));
                selection_of(drag, self.cell, self.size, &self.lines)
            },
            None => None,
        };
        if self.selection_range != new_selection {
            self.selection_range = new_selection;
            self.updated = true;
        }
        false
    }
}

fn cell_for_report(half: i64, cell: u32) -> (r: u32)
    requires
        half <= 0x8000_0000,
        cell > 0,
    ensures
        r == reported_cell(half as int, cell),
{
    let px: i64 = if half < 0 {
        0
    } else {
        (half + 1) / 2
    };
    let n = px / cell as i64;
    proof {
        assert(0 <= n <= px) by (nonlinear_arith)
            requires
                n == px as int / cell as int,
                px >= 0,
                cell >= 1,
        ;
    }
    (n + 1) as u32
}

fn distance_of(n: i32) -> (r: u32)
    ensures
        r == distance(n),
{
    if n < 0 {
        (-(n as i64)) as u32
    } else {
        n as u32
    }
}

} // verus!
