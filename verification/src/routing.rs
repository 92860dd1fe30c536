//! Where the events of the window go.

use crate::gt::GtMessage;
use crate::highlight::Highlighter;
use crate::keybindings::{KeyBinding, ShortcutAction};
use crate::keys::{KeyCode, ModifiersState};
use crate::layout::leaves;
use crate::multiplexer::{
    action_done, all_panes, all_told, asking, awake, bar_height, blinked, can_draw,
    changes_followed, composed, editor_closed, editor_opened, ended_panes_gone, file_clicked,
    file_shown, find_panes_at, handled, key_handled, leaf_told, messages_heard, mouse_pressed,
    mouse_released, over_preview, over_side, pane_under_focused, panes_told, preview_pressed,
    terminal_pressed, passed_on, read_heard, reader_of, reader_ok, reader_served, reading,
    shown_tab, side_clicked, side_key, side_of, side_ok, side_served, surface_resized, tab_gone,
    tab_pruned, tabs_pruned, to_editor, to_leaf, to_panes, told, draw_asked, modifiers_set,
    mouse_moved, sight_changed, wheel_turned, window_focused, window_resized, Effect, Multiplexer,
    Mux, MuxEffect, MuxEvent, BLINK_NANOS,
};
use crate::osc::message_views;
use crate::path::{parent_of, same_path};
use crate::preview::ReadStatus;
use crate::reader::{
    acted, action_at, editor_missing, find_action, followed, heard, opt_str, pane_rows,
    reader_request_view, remote_shown, reread, scrolled_by, Reader, ReaderHeaderAction,
    ReaderRequest,
};
use crate::rows::opt_view;
use crate::sidebar::{
    clicked, reported, root_of, scrolled, ticked, KeyOutcome, Side,
    SidebarKeyResult, SidebarPoll, SidebarRequest, FILE_BROWSER_MAX_ENTRIES,
};
use crate::text::{opt_text, texts};
use crate::view::Viewport;
use crate::vt::ShellLocation;
use vstd::prelude::*;

verus! {

impl Multiplexer {
    /// Whether the mouse is over the sidebar.
    fn is_over_side(&self) -> (r: bool)
        ensures
            r == over_side(self@),
    {
        reveal(side_of);
        self.sidebar.contains(self.cursor_pos.0, self.cursor_pos.1)
    }

    /// Whether the mouse is over the preview or the editor.
    fn is_over_preview(&self) -> (r: bool)
        ensures
            r == over_preview(self@),
    {
        reveal(side_of);
        reveal(reader_of);
        self.sidebar.is_visible() && self.reader.contains(self.cursor_pos.0, self.cursor_pos.1)
    }

    fn forward_to_leaf(&mut self, clicks: bool)
        requires
            old(self).live(),
        ensures
            final(self).live(),
            final(self)@ == to_leaf(old(self)@, clicks),
    {
        let pane = self.focused_leaf();
        self.ask(MuxEffect::Forward { pane, clicks });
    }

    fn forward_to_editor(&mut self)
        requires
            old(self).live(),
        ensures
            final(self).live(),
            final(self)@ == to_editor(old(self)@),
    {
        if let Some(pane) = self.editor {
            self.ask(MuxEffect::Forward { pane, clicks: false });
        }
    }

    fn pass_on(&mut self)
        requires
            old(self).live(),
        ensures
            final(self).live(),
            final(self)@ == passed_on(old(self)@),
    {
        reveal(passed_on);
        if self.editor_focused {
            self.forward_to_editor();
        } else {
            self.forward_to_leaf(true);
        }
    }

    /// Hands the event to panes, one after the other.
    fn forward_to_panes(&mut self, panes: &Vec<u64>)
        requires
            old(self).live(),
        ensures
            final(self).live(),
            final(self)@ == to_panes(old(self)@, panes@),
    {
        reveal(to_panes);
        let ghost start = self@;
        let ghost all = Seq::new(
            panes@.len(),
            |i: int| Effect::Forward { pane: panes@[i], clicks: false },
        );
        let mut i: usize = 0;
        assert(start.effects + all.subrange(0, 0) =~= start.effects);
        while i < panes.len()
            invariant
                i <= panes.len(),
                start == old(self)@,
                all == Seq::new(
                    panes@.len(),
                    |i: int| Effect::Forward { pane: panes@[i], clicks: false },
                ),
                self.live(),
                self@ == (Mux { effects: start.effects + all.subrange(0, i as int), ..start }),
            decreases panes.len() - i,
        {
            self.ask(MuxEffect::Forward { pane: panes[i], clicks: false });
            assert((start.effects + all.subrange(0, i as int)).push(all[i as int])
                =~= start.effects + all.subrange(0, i + 1));
            i += 1;
        }
        assert(all.subrange(0, panes.len() as int) =~= all);
    }

    /// Tells panes that they have the focus, one after the other.
    fn tell_panes(&mut self, panes: &Vec<u64>)
        requires
            old(self).live(),
        ensures
            final(self).live(),
            final(self)@ == panes_told(old(self)@, panes@),
    {
        let ghost start = self@;
        let ghost all = Seq::new(
            panes@.len(),
            |i: int| Effect::FocusPane { pane: panes@[i], gain: true },
        );
        let mut i: usize = 0;
        assert(start.effects + all.subrange(0, 0) =~= start.effects);
        while i < panes.len()
            invariant
                i <= panes.len(),
                start == old(self)@,
                all == Seq::new(
                    panes@.len(),
                    |i: int| Effect::FocusPane { pane: panes@[i], gain: true },
                ),
                self.live(),
                self@ == (Mux { effects: start.effects + all.subrange(0, i as int), ..start }),
            decreases panes.len() - i,
        {
            self.ask(MuxEffect::FocusPane { pane: panes[i], gain: true });
            assert((start.effects + all.subrange(0, i as int)).push(all[i as int])
                =~= start.effects + all.subrange(0, i + 1));
            i += 1;
        }
        assert(all.subrange(0, panes.len() as int) =~= all);
    }

    /// The panes of all tabs.
    pub fn every_pane(&self) -> (r: Vec<u64>)
        ensures
            r@ == all_panes(self@.tabs, self@.tabs.len() as int),
    {
        let mut out: Vec<u64> = Vec::new();
        let mut i: usize = 0;
        assert(out@ =~= Seq::empty());
        while i < self.tabs.len()
            invariant
                i <= self.tabs.len(),
                out@ == all_panes(self@.tabs, i as int),
            decreases self.tabs.len() - i,
        {
            let mut more = self.tabs[i].all_leaves();
            out.append(&mut more);
            i += 1;
        }
        out
    }

    /// The panes of the tab that is shown.
    pub fn shown_panes(&self) -> (r: Vec<u64>)
        requires
            self.live(),
        ensures
            r@ == leaves(shown_tab(self@)),
    {
        self.tabs[self.focus].all_leaves()
    }

    // -- the preview ----------------------------------------------------------

    fn serve_reader(&mut self, request: Option<ReaderRequest>)
        ensures
            final(self)@ == reader_served(old(self)@, reader_request_view(request)),
            old(self).wf() ==> final(self).wf(),
    {
        match request {
            Some(ReaderRequest::EditFile(p)) => {
                self.ask(MuxEffect::EditFile(p));
            },
            Some(ReaderRequest::OpenWithSystem(p)) => {
                self.ask(MuxEffect::OpenUrl(p));
            },
            None => {},
        }
    }

    fn root_copy(&self) -> (r: Option<String>)
        ensures
            opt_text(r) == root_of(self@.side),
    {
        reveal(side_of);
        match self.sidebar.root() {
            Some(s) => Some(s.clone()),
            None => None,
        }
    }

    /// Shows a file in the preview; it stays there.
    pub fn preview_file(&mut self, path: &str, h: &Highlighter, now: u64)
        requires
            old(self).wf(),
        ensures
            final(self).wf(),
            final(self)@.tabs == old(self)@.tabs,
            final(self)@ == file_shown(old(self)@, path@, now),
    {
        reveal(file_shown);
        let root = self.root_copy();
        let base = match &root {
            Some(s) => Some(s.as_str()),
            None => None,
        };
        reveal(reader_of);
        reveal(reader_ok);
        let q = self.reader.preview_pinned(path, base, h, now);
        self.read(q);
    }

    fn scroll_reader(&mut self, delta: i64, h: &Highlighter)
        requires
            old(self).wf(),
        ensures
            final(self).wf(),
            final(self)@ == (Mux {
                reader: scrolled_by(old(self)@.reader, delta as int),
                ..old(self)@
            }),
    {
        reveal(reader_of);
        reveal(reader_ok);
        self.reader.scroll_by(delta, h);
    }

    fn header_request(&self, which: ReaderHeaderAction) -> (r: Option<ReaderRequest>)
        requires
            self.wf(),
        ensures
            reader_request_view(r) == find_action(pane_rows(self@.reader), which, 0),
    {
        reveal(reader_of);
        reveal(reader_ok);
        self.reader.on_header_key(which)
    }

    // -- the sidebar ----------------------------------------------------------

    fn handle_sidebar_request(&mut self, request: SidebarRequest, h: &Highlighter, now: u64)
        requires
            old(self).wf(),
        ensures
            final(self).wf(),
            final(self)@.tabs == old(self)@.tabs,
            final(self)@ == side_served(old(self)@, request@, now),
    {
        reveal(side_served);
        match request {
            SidebarRequest::PreviewFile(path) => {
                self.preview_file(path.as_str(), h, now);
            },
            SidebarRequest::ScrollPreview(delta) => {
                self.scroll_reader(delta, h);
            },
            SidebarRequest::EditPreview => {
                let q = self.header_request(ReaderHeaderAction::Edit);
                self.serve_reader(q);
            },
            SidebarRequest::OpenPreview => {
                let q = self.header_request(ReaderHeaderAction::OpenWithSystem);
                self.serve_reader(q);
            },
        }
    }

    fn key_to_side(
        &mut self,
        pressed: bool,
        code: Option<KeyCode>,
        text: Option<&str>,
        now: u64,
    ) -> (r: SidebarKeyResult)
        requires
            old(self).wf(),
        ensures
            final(self).wf(),
            ({
                let (side, out) = if pressed && code is Some {
                    crate::sidebar::keyed(old(self)@.side, code->0, opt_str(text), now)
                } else {
                    (old(self)@.side, KeyOutcome::Consumed)
                };
                final(self)@ == (Mux { side, ..old(self)@ }) && r@ == out
            }),
    {
        reveal(side_of);
        reveal(side_ok);
        self.sidebar.on_key(pressed, code, text, now)
    }

    fn handle_sidebar_key(
        &mut self,
        pressed: bool,
        code: Option<KeyCode>,
        text: Option<&str>,
        h: &Highlighter,
        now: u64,
    )
        requires
            old(self).live(),
        ensures
            final(self).live(),
            final(self)@ == side_key(old(self)@, pressed, code, opt_str(text), now),
    {
        reveal(side_key);
        match self.key_to_side(pressed, code, text, now) {
            SidebarKeyResult::Consumed => {},
            SidebarKeyResult::ReleaseFocus => {
                self.release_sidebar_focus(now);
            },
            SidebarKeyResult::Request(request) => {
                self.handle_sidebar_request(request, h, now);
                if self.sidebar_focused {
                    self.tell_leaf(false);
                }
            },
        }
    }

    fn click_side(&mut self, now: u64) -> (r: Option<SidebarRequest>)
        requires
            old(self).wf(),
        ensures
            final(self).wf(),
            ({
                let m = old(self)@;
                let (side, ask) = clicked(m.side, m.cursor.0 as int, m.cursor.1 as int, now);
                final(self)@ == (Mux { side, ..m }) && opt_view(r) == ask
            }),
    {
        reveal(side_of);
        reveal(side_ok);
        self.sidebar.on_click(self.cursor_pos.0, self.cursor_pos.1, now)
    }

    /// Lets the sidebar see a click at the mouse.
    pub fn click_sidebar(&mut self, h: &Highlighter, now: u64)
        requires
            old(self).wf(),
        ensures
            final(self).wf(),
            final(self)@ == side_clicked(old(self)@, now),
    {
        reveal(side_clicked);
        if let Some(request) = self.click_side(now) {
            self.handle_sidebar_request(request, h, now);
        }
    }
}

impl Multiplexer {
    // -- events ---------------------------------------------------------------

    fn show_cursor(&mut self, now: u64)
        requires
            old(self).live(),
        ensures
            final(self).live(),
            final(self).next_id == old(self).next_id,
            final(self)@ == awake(old(self)@, now),
    {
        reveal(awake);
        self.blink_start = now;
        if !self.cursor_blink_on {
            self.cursor_blink_on = true;
            let pane = self.focused_leaf();
            self.ask(MuxEffect::BlinkPane { pane, on: true });
        }
    }

    fn do_shortcut(&mut self, a: ShortcutAction, location: &ShellLocation, now: u64)
        requires
            old(self).live(),
            old(self).has_numbers(),
        ensures
            final(self).wf(),
            !final(self).exited ==> final(self).live(),
            final(self)@ == ({
                let q = action_done(old(self)@, a, *location, now);
                if q.side_focused && a != ShortcutAction::ToggleSidebar && !q.exited {
                    leaf_told(q, false)
                } else {
                    q
                }
            }),
    {
        self.handle_action(a, location, now);
        if self.sidebar_focused && a != ShortcutAction::ToggleSidebar && !self.exited {
            self.tell_leaf(false);
        }
    }

    /// Handles a key.
    pub fn on_key(
        &mut self,
        pressed: bool,
        code: Option<KeyCode>,
        text: Option<&str>,
        table: &Vec<(KeyBinding, ShortcutAction)>,
        location: &ShellLocation,
        h: &Highlighter,
        now: u64,
    )
        requires
            old(self).live(),
            old(self).has_numbers(),
        ensures
            final(self).wf(),
            final(self)@ == key_handled(
                old(self)@,
                pressed,
                code,
                opt_str(text),
                table@,
                *location,
                now,
            ),
    {
        reveal(key_handled);
        if pressed {
            self.show_cursor(now);
        }
        match self.parse_shortcut(pressed, code, table) {
            Some(a) => {
                self.do_shortcut(a, location, now);
            },
            None => {
                if self.sidebar_focused {
                    self.handle_sidebar_key(pressed, code, text, h, now);
                } else if self.editor_focused {
                    self.forward_to_editor();
                } else {
                    self.forward_to_leaf(false);
                }
            },
        }
    }

    fn click_reader(&mut self, h: &Highlighter) -> (r: Option<ReaderRequest>)
        requires
            old(self).wf(),
        ensures
            final(self).wf(),
            ({
                let m = old(self)@;
                (final(self)@, reader_request_view(r)) == (match action_at(
                    m.reader,
                    m.cursor.0 as int,
                    m.cursor.1 as int,
                ) {
                    Some(a) => (Mux { reader: acted(m.reader, a).0, ..m }, acted(m.reader, a).1),
                    None => (m, None),
                })
            }),
    {
        reveal(reader_of);
        reveal(reader_ok);
        self.reader.on_click(self.cursor_pos.0, self.cursor_pos.1, h)
    }

    fn press_preview(&mut self, h: &Highlighter, now: u64)
        requires
            old(self).live(),
        ensures
            final(self).live(),
            final(self)@ == preview_pressed(old(self)@, now),
    {
        reveal(preview_pressed);
        if self.editor.is_some() {
            self.focus_editor(now);
            self.forward_to_editor();
        } else {
            let q = self.click_reader(h);
            self.serve_reader(q);
        }
    }

    /// Gives the focus to the pane under the mouse.
    fn focus_pane_at_cursor(&mut self)
        requires
            old(self).live(),
        ensures
            final(self).live(),
            final(self)@ == pane_under_focused(old(self)@),
    {
        reveal(pane_under_focused);
        let ghost start = self@;
        let panes = self.shown_panes();
        let at = find_panes_at(&self.places, &panes, self.cursor_pos.0, self.cursor_pos.1);
        let (n, hit) = self.take_tab().focus_at(&at);
        self.put_tab(n);
        proof {
            if !hit {
                assert(self@.tabs =~= start.tabs);
            } else {
                assert(self@.tabs =~= start.tabs.update(start.focus as int, n));
            }
        }
    }

    fn press_terminal(&mut self, now: u64)
        requires
            old(self).live(),
        ensures
            final(self).live(),
            final(self)@ == terminal_pressed(old(self)@, now),
    {
        reveal(terminal_pressed);
        if self.sidebar_focused {
            self.release_sidebar_focus(now);
        } else if self.editor_focused {
            self.release_editor_focus();
        } else {
            self.tell_leaf(false);
        }
        self.focus_pane_at_cursor();
        self.tell_leaf(true);
        self.forward_to_leaf(true);
    }

    /// Handles a button of the mouse that went down.
    pub fn on_mouse_pressed(&mut self, h: &Highlighter, now: u64)
        requires
            old(self).live(),
        ensures
            final(self).live(),
            final(self)@ == mouse_pressed(old(self)@, now),
    {
        reveal(mouse_pressed);
        if self.is_over_side() {
            self.focus_sidebar(now);
            self.ask(MuxEffect::ClickSidebar);
        } else if self.is_over_preview() {
            self.press_preview(h, now);
        } else {
            self.press_terminal(now);
        }
    }

    fn scroll_side(&mut self, rows: i32, now: u64)
        requires
            old(self).live(),
        ensures
            final(self).live(),
            final(self)@ == (Mux {
                side: scrolled(old(self)@.side, rows as int, now),
                ..old(self)@
            }),
    {
        reveal(side_of);
        reveal(side_ok);
        self.sidebar.on_scroll(rows, now);
    }

    fn wheel_reader(&mut self, rows: i32, h: &Highlighter)
        requires
            old(self).live(),
        ensures
            final(self).live(),
            final(self)@ == (if rows == 0 {
                old(self)@
            } else {
                Mux { reader: scrolled_by(old(self)@.reader, -(rows as int)), ..old(self)@ }
            }),
    {
        reveal(reader_of);
        reveal(reader_ok);
        self.reader.on_scroll(rows, h);
    }

    /// Handles the wheel of the mouse.
    pub fn on_mouse_wheel(&mut self, side_rows: i32, reader_rows: i32, h: &Highlighter, now: u64)
        requires
            old(self).live(),
        ensures
            final(self).live(),
            final(self)@ == wheel_turned(old(self)@, side_rows, reader_rows, now),
    {
        reveal(wheel_turned);
        if self.is_over_side() {
            self.scroll_side(side_rows, now);
        } else if self.is_over_preview() {
            if self.editor.is_some() {
                self.forward_to_editor();
            } else {
                self.wheel_reader(reader_rows, h);
            }
        } else {
            self.forward_to_leaf(false);
        }
    }

    fn resize_surface(&mut self, w: u32, h: u32)
        requires
            old(self).live(),
        ensures
            final(self).live(),
            final(self)@ == surface_resized(old(self)@, w, h),
    {
        reveal(surface_resized);
        self.ask(MuxEffect::ResizeSurface { w, h });
        self.viewport = Viewport { x: 0, y: 0, w, h };
        self.ask(MuxEffect::Relayout);
        self.update_status_bar();
        self.occluded = false;
        self.ask(MuxEffect::RequestRedraw);
    }

    /// Whether there is something to draw on.
    pub fn drawable(&self, minimized: bool) -> (r: bool)
        ensures
            r == can_draw(self@, minimized),
    {
        self.viewport.w != 0 && self.viewport.h != 0 && !minimized
    }

    fn on_window_focus(&mut self, gain: bool)
        requires
            old(self).live(),
        ensures
            final(self).live(),
            final(self)@ == window_focused(old(self)@, gain),
    {
        reveal(window_focused);
        if gain {
            self.occluded = false;
            self.ask(MuxEffect::RequestRedraw);
        }
        self.forward_to_leaf(false);
    }

    fn on_resized(&mut self, w: u32, h: u32)
        requires
            old(self).live(),
        ensures
            final(self).live(),
            final(self)@ == window_resized(old(self)@, w, h),
    {
        reveal(window_resized);
        if w == 0 || h == 0 {
            self.viewport = Viewport { x: 0, y: 0, w: 0, h: 0 };
        } else {
            self.resize_surface(w, h);
        }
    }

    fn on_occluded(&mut self, hidden: bool)
        requires
            old(self).live(),
        ensures
            final(self).live(),
            final(self)@ == sight_changed(old(self)@, hidden),
    {
        reveal(sight_changed);
        self.occluded = hidden;
        if !hidden {
            self.ask(MuxEffect::RequestRedraw);
        }
    }

    fn on_redraw_requested(&mut self, minimized: bool)
        requires
            old(self).live(),
        ensures
            final(self).live(),
            final(self)@ == draw_asked(old(self)@, minimized),
    {
        reveal(draw_asked);
        if !self.occluded && self.drawable(minimized) {
            self.ask(MuxEffect::Draw);
        }
    }

    fn on_modifiers(&mut self, mods: ModifiersState)
        requires
            old(self).live(),
        ensures
            final(self).live(),
            final(self)@ == modifiers_set(old(self)@, mods),
    {
        reveal(modifiers_set);
        self.modifiers = mods;
        let panes = self.every_pane();
        self.forward_to_panes(&panes);
    }

    fn on_cursor_moved(&mut self, x: i64, y: i64)
        requires
            old(self).live(),
        ensures
            final(self).live(),
            final(self)@ == mouse_moved(old(self)@, x, y),
    {
        reveal(mouse_moved);
        self.cursor_pos = (x, y);
        let panes = self.shown_panes();
        self.forward_to_panes(&panes);
    }

    fn on_mouse_released(&mut self)
        requires
            old(self).live(),
        ensures
            final(self).live(),
            final(self)@ == mouse_released(old(self)@),
    {
        reveal(mouse_released);
        if !self.is_over_side() && !self.is_over_preview() {
            self.pass_on();
        }
    }

    fn on_ime(&mut self)
        requires
            old(self).live(),
        ensures
            final(self).live(),
            final(self)@ == composed(old(self)@),
    {
        reveal(composed);
        if !self.sidebar_focused {
            self.pass_on();
        }
    }

    /// Handles what happens to the window.
    pub fn on_event(
        &mut self,
        event: MuxEvent,
        table: &Vec<(KeyBinding, ShortcutAction)>,
        location: &ShellLocation,
        h: &Highlighter,
        now: u64,
    )
        requires
            old(self).wf(),
            old(self).has_numbers(),
        ensures
            final(self).wf(),
            final(self)@ == handled(old(self)@, event, table@, *location, now),
    {
        reveal(handled);
        if self.exited {
            self.ask(MuxEffect::Exit);
            return ;
        }
        match event {
            MuxEvent::CloseRequested => {
                self.ask(MuxEffect::Exit);
            },
            MuxEvent::Resized { w, h } => {
                self.on_resized(w, h);
            },
            MuxEvent::ScaleFactorChanged { w, h } => {
                self.resize_surface(w, h);
            },
            MuxEvent::Focused(gain) => {
                self.on_window_focus(gain);
            },
            MuxEvent::Occluded(hidden) => {
                self.on_occluded(hidden);
            },
            MuxEvent::RedrawRequested { minimized } => {
                self.on_redraw_requested(minimized);
            },
            MuxEvent::ModifiersChanged(mods) => {
                self.on_modifiers(mods);
            },
            MuxEvent::Key { pressed, synthetic, code, text } => {
                if !synthetic {
                    let t = match &text {
                        Some(t) => Some(t.as_str()),
                        None => None,
                    };
                    self.on_key(pressed, code, t, table, location, h, now);
                }
            },
            MuxEvent::CursorMoved { x, y } => {
                self.on_cursor_moved(x, y);
            },
            MuxEvent::MousePressed => {
                self.on_mouse_pressed(h, now);
            },
            MuxEvent::MouseReleased => {
                self.on_mouse_released();
            },
            MuxEvent::MouseWheel { side_rows, reader_rows } => {
                self.on_mouse_wheel(side_rows, reader_rows, h, now);
            },
            MuxEvent::Ime => {
                self.on_ime();
            },
            MuxEvent::Other => {
                self.pass_on();
            },
        }
    }

    // -- files and the editor ---------------------------------------------------

    /// Handles a file on the screen that was clicked on.
    pub fn handle_clicked_file(&mut self, path: String, location: &ShellLocation, now: u64)
        requires
            old(self).wf(),
        ensures
            final(self).wf(),
            final(self)@ == file_clicked(old(self)@, path@, *location, now),
    {
        reveal(file_clicked);
        if !self.is_open() {
            self.switch_side(location, now);
            self.ask(MuxEffect::Relayout);
        }
        self.ask(MuxEffect::PreviewFile(path));
        self.ask(MuxEffect::Relayout);
    }

    fn tell_missing_editor(&mut self, command: &str, h: &Highlighter)
        requires
            old(self).live(),
        ensures
            final(self).live(),
            final(self)@ == (Mux {
                reader: editor_missing(old(self)@.reader, command@),
                ..old(self)@
            }),
    {
        reveal(reader_of);
        reveal(reader_ok);
        self.reader.show_missing_editor(command, h);
    }

    fn preview_place(&self) -> (r: Viewport)
        ensures
            r == self@.reader.viewport,
    {
        reveal(reader_of);
        self.reader.viewport()
    }

    fn spawn_editor(&mut self, path: &str, command: Vec<String>)
        requires
            old(self).live(),
            old(self).has_numbers(),
        ensures
            final(self).live(),
            final(self)@ == ({
                let m = old(self)@;
                let pane = m.next_id;
                let dropped = match m.editor {
                    Some(old_pane) => asking(m, Effect::ClosePane(old_pane)),
                    None => m,
                };
                asking(
                    asking(
                        dropped,
                        Effect::SpawnEditor {
                            pane,
                            viewport: m.reader.viewport,
                            command: texts(command@).push(path@),
                            cwd: crate::path::parent(path@),
                        },
                    ),
                    Effect::FocusPane { pane, gain: true },
                )
            }),
    {
        let pane = self.next_id;
        let viewport = self.preview_place();
        let cwd = parent_of(path);
        let mut full = command;
        let ghost before = full@;
        let file = path.to_owned();
        full.push(file);
        proof {
            crate::text::lemma_texts_push(before, file);
        }
        if let Some(old_pane) = self.editor {
            self.ask(MuxEffect::ClosePane(old_pane));
        }
        self.ask(MuxEffect::SpawnEditor { pane, viewport, command: full, cwd });
        self.ask(MuxEffect::FocusPane { pane, gain: true });
    }

    /// Opens the editor in the place of the preview. `exists` says whether its
    /// program was found.
    pub fn open_editor_in_preview(
        &mut self,
        path: &str,
        command: Vec<String>,
        exists: bool,
        h: &Highlighter,
        now: u64,
    )
        requires
            old(self).live(),
            old(self).has_numbers(),
            command.len() > 0,
        ensures
            final(self).live(),
            final(self)@ == editor_opened(old(self)@, path@, texts(command@), exists, now),
    {
        reveal(editor_opened);
        if !exists {
            self.tell_missing_editor(command[0].as_str(), h);
            return ;
        }
        let pane = self.next_id;
        self.spawn_editor(path, command);
        self.tell_leaf(false);
        self.next_id = pane + 1;
        self.sidebar_focused = false;
        self.give_side_focus(false, now);
        self.editor_focused = true;
        self.editor = Some(pane);
    }

    fn reread_preview(&mut self, h: &Highlighter, now: u64)
        requires
            old(self).wf(),
        ensures
            final(self).wf(),
            final(self)@ == ({
                let (reader, q) = reread(old(self)@.reader, now);
                reading(Mux { reader, ..old(self)@ }, q)
            }),
    {
        reveal(reader_of);
        reveal(reader_ok);
        let q = self.reader.refresh_current(h, now);
        self.read(q);
    }

    /// Brings the preview back when the editor has ended.
    pub fn check_editor(&mut self, ended: bool, h: &Highlighter, now: u64)
        requires
            old(self).live(),
        ensures
            final(self).live(),
            final(self)@ == editor_closed(old(self)@, ended, now),
    {
        reveal(editor_closed);
        if self.is_open() && self.editor.is_some() && ended {
            self.reread_preview(h, now);
            self.editor = None;
            self.editor_focused = false;
            self.tell_leaf(true);
            self.ask(MuxEffect::Relayout);
        }
    }
}

impl Multiplexer {
    // -- each round -------------------------------------------------------------

    fn drop_tab(&mut self, i: usize)
        requires
            old(self).live(),
            i < old(self).tabs.len(),
        ensures
            final(self).wf(),
            final(self)@ == tab_gone(old(self)@, i as int),
            final(self).tabs.len() == old(self).tabs.len() - 1,
            final(self).exited || final(self).live(),
    {
        let shown = i == self.focus;
        if self.tabs.len() == 1 {
            self.exited = true;
            self.remove_tab(i);
            self.ask(MuxEffect::Exit);
        } else {
            self.remove_tab(i);
            if shown {
                self.tell_leaf(true);
            }
        }
    }

    /// Takes panes that have ended out of a tab.
    fn prune_tab(&mut self, dead: &Vec<u64>, i: usize) -> (r: (bool, bool))
        requires
            old(self).live(),
            i < old(self).tabs.len(),
        ensures
            final(self).wf(),
            (final(self)@, r.0, r.1) == tab_pruned(old(self)@, dead@, i as int),
            final(self).tabs.len() == old(self).tabs.len() - (if r.1 {
                1int
            } else {
                0
            }),
            final(self).exited || final(self).live(),
    {
        let ghost before = self@;
        let n = self.take_tab_at(i);
        let (left, collapsed, gained) = n.prune(dead);
        self.tell_panes(&gained);
        let ghost q = panes_told(before, gained@);
        match left {
            Some(tab) => {
                self.put_tab_at(i, tab);
                assert(self@.tabs =~= q.tabs.update(i as int, tab));
                (collapsed, false)
            },
            None => {
                let ghost pre = self@;
                self.drop_tab(i);
                proof {
                    assert(pre.tabs.remove(i as int) =~= q.tabs.remove(i as int));
                    assert(tab_gone(pre, i as int) == tab_gone(q, i as int));
                }
                (true, true)
            },
        }
    }

    /// Takes panes that have ended out of the tabs.
    fn prune_tabs(&mut self, dead: &Vec<u64>) -> (changed: bool)
        requires
            old(self).live(),
        ensures
            final(self).wf(),
            (final(self)@, changed) == tabs_pruned(old(self)@, dead@, 0, false),
            final(self).exited || final(self).live(),
    {
        let ghost start = self@;
        let mut changed = false;
        let mut i: usize = 0;
        while i < self.tabs.len()
            invariant
                self.wf(),
                self.exited || self.live(),
                start == old(self)@,
                i <= self.tabs.len(),
                tabs_pruned(self@, dead@, i as int, changed) == tabs_pruned(
                    start,
                    dead@,
                    0,
                    false,
                ),
            decreases self.tabs.len() - i,
        {
            let (c, removed) = self.prune_tab(dead, i);
            changed = changed || c;
            if !removed {
                i += 1;
            }
        }
        changed
    }

    /// Takes panes that have ended away.
    pub fn remove_ended(&mut self, dead: &Vec<u64>)
        requires
            old(self).live(),
        ensures
            final(self).wf(),
            final(self).exited || final(self).live(),
            final(self)@ == ended_panes_gone(old(self)@, dead@),
    {
        let changed = self.prune_tabs(dead);
        if changed && !self.exited {
            self.ask(MuxEffect::Relayout);
            self.update_status_bar();
        }
    }

    fn report_change(
        &mut self,
        kind: crate::watcher::ChangeKind,
        path: &str,
        tool: Option<String>,
        now: u64,
    )
        requires
            old(self).wf(),
        ensures
            final(self).wf(),
            final(self)@ == (Mux {
                side: reported(
                    old(self)@.side,
                    root_of(old(self)@.side),
                    kind,
                    path@,
                    opt_text(tool),
                    now,
                ),
                ..old(self)@
            }),
    {
        let root = self.root_copy();
        let base = match &root {
            Some(s) => Some(s.as_str()),
            None => None,
        };
        reveal(side_of);
        reveal(side_ok);
        self.sidebar.apply_gt_event(base, kind, path, tool, now);
    }

    fn show_remote(&mut self, path: &str, bytes: Vec<u8>, h: &Highlighter)
        requires
            old(self).wf(),
        ensures
            final(self).wf(),
            final(self)@ == (Mux {
                reader: remote_shown(old(self)@.reader, path@, bytes@),
                ..old(self)@
            }),
    {
        reveal(reader_of);
        reveal(reader_ok);
        self.reader.show_remote_content(path, bytes, h);
    }

    fn handle_gt_message(&mut self, message: GtMessage, h: &Highlighter, now: u64)
        requires
            old(self).wf(),
        ensures
            final(self).wf(),
            final(self)@ == told(old(self)@, message@, now),
    {
        match message {
            GtMessage::Event { kind, path, tool } => {
                self.report_change(kind, path.as_str(), tool, now);
            },
            GtMessage::FileChunk { path, seq, last, data } => {
                match self.gt_file_assembler.push(path, seq, last, data) {
                    Some((p, bytes)) => {
                        self.show_remote(p.as_str(), bytes, h);
                    },
                    None => {},
                }
            },
        }
    }

    /// Handles messages from programs in terminals.
    pub fn handle_gt_messages(&mut self, messages: Vec<GtMessage>, h: &Highlighter, now: u64)
        requires
            old(self).wf(),
        ensures
            final(self).wf(),
            final(self)@ == messages_heard(old(self)@, message_views(messages@), now),
    {
        if !self.is_open() {
            return ;
        }
        let mut rest = messages;
        let ghost all = message_views(messages@);
        let ghost start = self@;
        let n = rest.len();
        let mut i: usize = 0;
        while i < n
            invariant
                i <= n,
                n == rest.len(),
                n == all.len(),
                self.wf(),
                forall|k: int| i <= k < n ==> (#[trigger] rest@[k])@ == all[k],
                self@ == all_told(start, all, i as int, now),
            decreases n - i,
        {
            let mut message = GtMessage::FileChunk {
                path: String::new(),
                seq: 0,
                last: false,
                data: Vec::new(),
            };
            std::mem::swap(&mut message, &mut rest[i]);
            assert(message@ == all[i as int]);
            self.handle_gt_message(message, h, now);
            i += 1;
        }
    }

    /// Lets the cursor blink.
    pub fn blink(&mut self, enabled: bool, now: u64)
        requires
            old(self).live(),
        ensures
            final(self).live(),
            final(self)@ == blinked(old(self)@, enabled, now),
    {
        if enabled {
            let elapsed = now.saturating_sub(self.blink_start);
            let on = (elapsed / BLINK_NANOS) % 2 == 0;
            if on != self.cursor_blink_on {
                self.cursor_blink_on = on;
                let pane = self.focused_leaf();
                self.ask(MuxEffect::BlinkPane { pane, on });
            }
        }
    }

    fn refresh_side(&mut self, location: &ShellLocation, poll: SidebarPoll, now: u64) -> (r: Option<
        String,
    >)
        requires
            old(self).wf(),
            poll.browse is Done && poll.browse->Done_0 is Ok ==> poll.browse->Done_0->Ok_0.len()
                <= FILE_BROWSER_MAX_ENTRIES,
        ensures
            final(self).wf(),
            ({
                let side = ticked(old(self)@.side, *location, poll, now);
                &&& final(self)@ == (Mux {
                    side: Side { follow_target: None, ..side },
                    ..old(self)@
                })
                &&& opt_text(r) == if side.frozen {
                    None
                } else {
                    side.follow_target
                }
            }),
    {
        reveal(side_of);
        reveal(side_ok);
        self.sidebar.refresh_if_stale(location, poll, now);
        self.sidebar.take_follow_target()
    }

    fn follow_file(&mut self, path: &str, h: &Highlighter, now: u64)
        requires
            old(self).wf(),
        ensures
            final(self).wf(),
            final(self)@ == ({
                let m = old(self)@;
                let (reader, read) = followed(m.reader, path@, root_of(m.side), now);
                reading(Mux { reader, ..m }, read)
            }),
    {
        let root = self.root_copy();
        let base = match &root {
            Some(s) => Some(s.as_str()),
            None => None,
        };
        reveal(reader_of);
        reveal(reader_ok);
        let q = self.reader.follow_target(path, base, h, now);
        self.read(q);
    }

    fn shows_file(&self, path: &str) -> (r: bool)
        ensures
            r == (self@.reader.preview.target_abs is Some && crate::path::path_eq(
                self@.reader.preview.target_abs->0,
                path@,
            )),
    {
        reveal(reader_of);
        match self.reader.target_abs() {
            Some(t) => same_path(t.as_str(), path),
            None => false,
        }
    }

    fn follows(&self) -> (r: bool)
        ensures
            r == !self@.reader.pinned,
    {
        reveal(reader_of);
        self.reader.is_following()
    }

    /// Looks after the directory of the workbench and the changes in it.
    pub fn follow_changes(
        &mut self,
        location: &ShellLocation,
        poll: SidebarPoll,
        h: &Highlighter,
        now: u64,
    )
        requires
            old(self).wf(),
            poll.browse is Done && poll.browse->Done_0 is Ok ==> poll.browse->Done_0->Ok_0.len()
                <= FILE_BROWSER_MAX_ENTRIES,
        ensures
            final(self).wf(),
            final(self)@ == changes_followed(old(self)@, *location, poll, now),
    {
        if !self.is_open() {
            return ;
        }
        let target = self.refresh_side(location, poll, now);
        if let Some(path) = target {
            if self.follows() {
                self.follow_file(path.as_str(), h, now);
            } else if self.shows_file(path.as_str()) {
                self.reread_preview(h, now);
            }
        }
    }

    /// Tells the preview what has become of its read.
    pub fn poll_reader(&mut self, status: ReadStatus, h: &Highlighter, now: u64)
        requires
            old(self).wf(),
        ensures
            final(self).wf(),
            final(self)@ == read_heard(old(self)@, status, now),
    {
        if self.is_open() {
            self.hear_read(status, h, now);
        }
    }

    fn hear_read(&mut self, status: ReadStatus, h: &Highlighter, now: u64)
        requires
            old(self).wf(),
        ensures
            final(self).wf(),
            final(self)@ == ({
                let (reader, _, next) = heard(old(self)@.reader, status, now);
                reading(Mux { reader, ..old(self)@ }, next)
            }),
    {
        reveal(reader_of);
        reveal(reader_ok);
        let (_, q) = self.reader.poll(status, h, now);
        self.read(q);
    }

    /// Whether the window is to be drawn: something in it changed, and it can
    /// be seen. `panes` says whether a pane of the tab that is shown changed,
    /// and `editor` whether the editor did.
    pub fn wants_redraw(&self, panes: bool, editor: bool, minimized: bool) -> (r: bool)
        ensures
            r == (!self@.occluded && can_draw(self@, minimized) && (panes || (bar_height(self@) > 0
                && self@.bar_updated) || (self@.side.visible && self@.side.updated) || (
            self@.side.visible && if self@.editor is Some {
                editor
            } else {
                self@.reader.updated
            }))),
    {
        reveal(side_of);
        reveal(reader_of);
        let preview = if self.editor.is_some() {
            editor
        } else {
            self.reader.needs_redraw()
        };
        let need = panes || (self.status_bar_height() > 0 && self.bar_updated)
            || self.sidebar.needs_redraw() || (self.sidebar.is_visible() && preview);
        need && !self.occluded && self.drawable(minimized)
    }

    /// What is shown has been drawn.
    pub fn drawn(&mut self)
        requires
            old(self).wf(),
        ensures
            final(self).wf(),
            final(self)@ == (Mux {
                bar_updated: false,
                side: Side { updated: false, ..old(self)@.side },
                reader: Reader { updated: false, ..old(self)@.reader },
                ..old(self)@
            }),
    {
        reveal(side_of);
        reveal(side_ok);
        reveal(reader_of);
        reveal(reader_ok);
        self.bar_updated = false;
        self.sidebar.drawn();
        self.reader.drawn();
    }
}

} // verus!
