use gototerm::gt::GtMessage;
use gototerm::highlight::Highlighter;
use gototerm::keybindings::{build, lookup, parse_keybinding, KeyBinding, ShortcutAction};
use gototerm::keys::{KeyCode, ModifiersState};
use gototerm::multiplexer::{
    command_candidates, command_exists, status_bar_cells, Divider, Multiplexer, MuxEffect, MuxEvent,
};
use gototerm::preview::ReadStatus;
use gototerm::sidebar::{BrowsePoll, SidebarPoll, WatcherPoll, WorkspacePoll};
use gototerm::terminal::{CellSize, Color};
use gototerm::view::Viewport;
use gototerm::vt::ShellLocation;
use gototerm::watcher::{ChangeKind, FileChange};

const CELL: CellSize = CellSize { w: 10, h: 20 };

struct Rig {
    mux: Multiplexer,
    table: Vec<(KeyBinding, ShortcutAction)>,
    h: Highlighter,
}

fn here() -> ShellLocation {
    ShellLocation::Local("/r".to_owned())
}

impl Rig {
    fn new() -> Rig {
        let h = Highlighter::new().unwrap();
        let vp = Viewport { x: 0, y: 0, w: 1000, h: 600 };
        let mux = Multiplexer::new(vp, CELL, CELL, CELL, "vi", "agent", &h, 0);
        let mut rig = Rig {
            mux,
            table: build(&Vec::new()).unwrap(),
            h,
        };
        rig.settle();
        rig
    }

    /// Works out the rectangles where that is asked for.
    fn settle(&mut self) -> Vec<MuxEffect> {
        let mut all = Vec::new();
        loop {
            let effects = self.mux.take_effects();
            if effects.is_empty() {
                return all;
            }
            for e in effects {
                match e {
                    MuxEffect::Relayout => {
                        assert!(self.mux.is_arrangeable(250, 300));
                        self.mux
                            .refresh_layout(250, 300, &|_: u64, e: u32| e / 2, &self.h, 0);
                    }
                    MuxEffect::ClickSidebar => self.mux.click_sidebar(&self.h, 0),
                    MuxEffect::PreviewFile(p) => self.mux.preview_file(&p, &self.h, 0),
                    other => all.push(other),
                }
            }
        }
    }

    fn send(&mut self, e: MuxEvent) -> Vec<MuxEffect> {
        self.mux.on_event(e, &self.table, &here(), &self.h, 0);
        self.settle()
    }

    fn mods(&mut self, control: bool, shift: bool) {
        self.send(MuxEvent::ModifiersChanged(ModifiersState {
            control,
            shift,
            alt: false,
            logo: false,
        }));
    }

    fn key(&mut self, code: KeyCode, text: Option<&str>) -> Vec<MuxEffect> {
        self.send(MuxEvent::Key {
            pressed: true,
            synthetic: false,
            code: Some(code),
            text: text.map(|t| t.to_owned()),
        })
    }

    fn shortcut(&mut self, code: KeyCode) -> Vec<MuxEffect> {
        self.mods(true, true);
        let e = self.key(code, None);
        self.mods(false, false);
        e
    }

    fn click(&mut self, x: i64, y: i64) -> Vec<MuxEffect> {
        self.send(MuxEvent::CursorMoved { x, y });
        self.send(MuxEvent::MousePressed)
    }
}

fn forwards(effects: &[MuxEffect]) -> Vec<u64> {
    effects
        .iter()
        .filter_map(|e| match e {
            MuxEffect::Forward { pane, .. } => Some(*pane),
            _ => None,
        })
        .collect()
}

fn focuses(effects: &[MuxEffect]) -> Vec<(u64, bool)> {
    effects
        .iter()
        .filter_map(|e| match e {
            MuxEffect::FocusPane { pane, gain } => Some((*pane, *gain)),
            _ => None,
        })
        .collect()
}

#[test]
fn keys_go_to_the_pane_with_the_focus() {
    let mut rig = Rig::new();
    assert_eq!(forwards(&rig.key(KeyCode::KeyA, Some("a"))), vec![0]);
}

#[test]
fn a_single_tab_has_no_bar() {
    let mut rig = Rig::new();
    assert_eq!(rig.mux.status_bar_height(), 0);
    assert_eq!(
        rig.mux.content_viewport(),
        Viewport { x: 0, y: 0, w: 1000, h: 600 }
    );
    rig.shortcut(KeyCode::KeyT);
    assert_eq!(rig.mux.status_bar_height(), 20);
    assert_eq!(
        rig.mux.content_viewport(),
        Viewport { x: 0, y: 20, w: 1000, h: 580 }
    );
}

#[test]
fn tabs_open_switch_and_close() {
    let mut rig = Rig::new();
    let e = rig.shortcut(KeyCode::KeyT);
    assert_eq!(focuses(&e), vec![(0, false), (1, true)]);
    assert_eq!(rig.mux.tabs.len(), 2);
    assert_eq!(rig.mux.focus, 1);

    let e = rig.shortcut(KeyCode::Tab);
    assert_eq!(focuses(&e), vec![(1, false), (0, true)]);
    assert_eq!(rig.mux.focus, 0);
    rig.mods(true, false);
    rig.key(KeyCode::Tab, None);
    assert_eq!(rig.mux.focus, 1);

    let e = rig.shortcut(KeyCode::KeyW);
    assert!(e.iter().any(|e| matches!(e, MuxEffect::ClosePane(1))));
    assert_eq!(rig.mux.focus, 0);
    rig.shortcut(KeyCode::KeyW);
    assert!(rig.mux.exited);
    let e = rig.send(MuxEvent::MousePressed);
    assert!(matches!(e[0], MuxEffect::Exit));
}

#[test]
fn the_old_way_to_close_a_pane_is_gone() {
    let mut rig = Rig::new();
    rig.shortcut(KeyCode::KeyQ);
    assert!(!rig.mux.exited);
}

#[test]
fn panes_are_divided_in_the_middle() {
    let mut rig = Rig::new();
    let e = rig.shortcut(KeyCode::KeyE);
    assert!(e.iter().any(|e| matches!(
        e,
        MuxEffect::SpawnPane { pane: 2, beside: Some(0), .. }
    )));
    assert!(e.iter().any(|e| matches!(
        e,
        MuxEffect::SetViewport { pane: 0, viewport: Viewport { x: 0, y: 0, w: 498, h: 600 } }
    )));
    assert!(e.iter().any(|e| matches!(
        e,
        MuxEffect::SetViewport { pane: 2, viewport: Viewport { x: 502, y: 0, w: 498, h: 600 } }
    )));
    let e = rig.shortcut(KeyCode::KeyH);
    assert_eq!(focuses(&e), vec![(2, false), (0, true)]);
    let e = rig.click(600, 100);
    assert_eq!(focuses(&e), vec![(0, false), (2, true)]);
    assert_eq!(forwards(&e), vec![2]);
    let e = rig.shortcut(KeyCode::ArrowRight);
    assert!(e.iter().any(|e| matches!(
        e,
        MuxEffect::MoveLine { line: Divider::Split(1), ahead: true }
    )));
}

#[test]
fn the_workbench_opens_takes_the_focus_and_closes() {
    let mut rig = Rig::new();
    let e = rig.shortcut(KeyCode::KeyF);
    assert!(rig.mux.is_open());
    assert!(rig.mux.sidebar_focused);
    assert_eq!(focuses(&e), vec![(0, false)]);
    assert_eq!(
        rig.mux.reader.viewport(),
        Viewport { x: 252, y: 0, w: 748, h: 298 }
    );

    rig.shortcut(KeyCode::KeyF);
    assert!(!rig.mux.is_open());
    assert!(!rig.mux.sidebar_focused);
}

#[test]
fn keys_for_the_sidebar_do_not_reach_the_shell() {
    let mut rig = Rig::new();
    rig.shortcut(KeyCode::KeyF);
    assert!(forwards(&rig.key(KeyCode::KeyZ, Some("z"))).is_empty());
    assert!(forwards(&rig.send(MuxEvent::Ime)).is_empty());
    let e = rig.key(KeyCode::Escape, None);
    assert_eq!(focuses(&e), vec![(0, true)]);
    assert_eq!(forwards(&rig.key(KeyCode::KeyZ, Some("z"))), vec![0]);
    // From the terminal the shortcut leads back to the sidebar.
    rig.shortcut(KeyCode::KeyF);
    assert!(rig.mux.is_open());
    assert!(rig.mux.sidebar_focused);
}

#[test]
fn a_click_on_the_terminal_leaves_the_sidebar() {
    let mut rig = Rig::new();
    rig.shortcut(KeyCode::KeyF);
    rig.click(600, 500);
    assert!(!rig.mux.sidebar_focused);
    rig.click(100, 100);
    assert!(rig.mux.sidebar_focused);
}

#[test]
fn synthetic_keys_are_ignored() {
    let mut rig = Rig::new();
    let e = rig.send(MuxEvent::Key {
        pressed: true,
        synthetic: true,
        code: Some(KeyCode::Tab),
        text: Some("\t".to_owned()),
    });
    assert!(e.is_empty());
}

#[test]
fn a_clicked_file_opens_the_workbench() {
    let mut rig = Rig::new();
    rig.mux.handle_clicked_file("/r/a.rs".to_owned(), &here(), 0);
    let e = rig.settle();
    assert!(rig.mux.is_open());
    assert!(!rig.mux.sidebar_focused);
    assert!(e
        .iter()
        .any(|e| matches!(e, MuxEffect::Read(q) if q.abs_path == "/r/a.rs")));
    assert!(!rig.mux.reader.is_following());
}

#[test]
fn the_editor_takes_the_place_of_the_preview() {
    let mut rig = Rig::new();
    rig.shortcut(KeyCode::KeyF);
    rig.mux.preview_file("/r/a.rs", &rig.h, 0);
    rig.settle();
    let e = rig.key(KeyCode::KeyE, Some("e"));
    assert!(e
        .iter()
        .any(|e| matches!(e, MuxEffect::EditFile(p) if p == "/r/a.rs")));
    rig.mux
        .open_editor_in_preview("/r/a.rs", vec!["vi".to_owned()], true, &rig.h, 0);
    let e = rig.settle();
    let mut spawned = false;
    for x in &e {
        if let MuxEffect::SpawnEditor { command, cwd, .. } = x {
            assert_eq!(*command, vec!["vi".to_owned(), "/r/a.rs".to_owned()]);
            assert_eq!(*cwd, Some("/r".to_owned()));
            spawned = true;
        }
    }
    assert!(spawned);
    let editor = rig.mux.editor.unwrap();
    assert_eq!(forwards(&rig.key(KeyCode::KeyX, Some("x"))), vec![editor]);

    rig.mux.check_editor(true, &rig.h, 5);
    let e = rig.settle();
    assert!(rig.mux.editor.is_none());
    assert!(e
        .iter()
        .any(|e| matches!(e, MuxEffect::Read(q) if q.abs_path == "/r/a.rs")));
    assert_eq!(forwards(&rig.key(KeyCode::KeyX, Some("x"))), vec![0]);
}

#[test]
fn a_missing_editor_opens_nothing() {
    let mut rig = Rig::new();
    rig.shortcut(KeyCode::KeyF);
    rig.mux
        .open_editor_in_preview("/r/a.rs", vec!["vi".to_owned()], false, &rig.h, 0);
    assert!(rig.settle().is_empty());
    assert!(rig.mux.editor.is_none());
}

#[test]
fn ended_panes_go_and_the_last_ends_the_window() {
    let mut rig = Rig::new();
    rig.shortcut(KeyCode::KeyT);
    rig.shortcut(KeyCode::KeyT);
    assert_eq!(rig.mux.every_pane(), vec![0, 1, 2]);
    rig.mux.remove_ended(&vec![1]);
    rig.settle();
    assert_eq!(rig.mux.every_pane(), vec![0, 2]);
    assert_eq!(rig.mux.focus, 1);
    rig.mux.remove_ended(&vec![2]);
    let e = rig.settle();
    assert_eq!(focuses(&e), vec![(0, true)]);
    rig.mux.remove_ended(&vec![0]);
    let e = rig.settle();
    assert!(rig.mux.exited);
    assert!(e.iter().any(|e| matches!(e, MuxEffect::Exit)));
}

#[test]
fn a_hidden_window_is_not_drawn() {
    let mut rig = Rig::new();
    assert!(matches!(
        rig.send(MuxEvent::RedrawRequested { minimized: false })[0],
        MuxEffect::Draw
    ));
    rig.send(MuxEvent::Occluded(true));
    assert!(rig
        .send(MuxEvent::RedrawRequested { minimized: false })
        .is_empty());
    rig.send(MuxEvent::Focused(true));
    assert!(rig.mux.wants_redraw(true, false, false));
    rig.send(MuxEvent::Resized { w: 0, h: 0 });
    assert!(!rig.mux.wants_redraw(true, false, false));
    rig.send(MuxEvent::Resized { w: 800, h: 600 });
    assert!(rig.mux.wants_redraw(true, false, false));
    assert!(!rig.mux.wants_redraw(true, false, true));
}

#[test]
fn the_cursor_blinks_and_a_key_shows_it() {
    let mut rig = Rig::new();
    rig.mux.blink(true, 530_000_000);
    let e = rig.settle();
    assert!(matches!(e[0], MuxEffect::BlinkPane { pane: 0, on: false }));
    let e = rig.key(KeyCode::KeyA, Some("a"));
    assert!(matches!(e[0], MuxEffect::BlinkPane { pane: 0, on: true }));
    rig.mux.blink(false, 530_000_000);
    assert!(rig.settle().is_empty());
}

fn poll() -> SidebarPoll {
    SidebarPoll {
        watcher: WatcherPoll::Waiting,
        drained: Vec::new(),
        partial: false,
        browse: BrowsePoll::Waiting,
        workspace: WorkspacePoll::Waiting,
    }
}

#[test]
fn the_preview_follows_changes_until_a_file_is_chosen() {
    let mut rig = Rig::new();
    rig.shortcut(KeyCode::KeyF);
    let mut p = poll();
    p.watcher = WatcherPoll::Ready { partial: false };
    rig.mux.follow_changes(&here(), p, &rig.h, 1);
    rig.settle();

    let mut p = poll();
    p.drained = vec![FileChange { path: "a.rs".to_owned(), kind: ChangeKind::Modified }];
    rig.mux.follow_changes(&here(), p, &rig.h, 200_000_000);
    let e = rig.settle();
    assert!(e
        .iter()
        .any(|e| matches!(e, MuxEffect::Read(q) if q.abs_path == "/r/a.rs")));

    rig.mux.preview_file("/r/b.rs", &rig.h, 300_000_000);
    rig.settle();
    let mut p = poll();
    p.drained = vec![FileChange { path: "a.rs".to_owned(), kind: ChangeKind::Modified }];
    rig.mux.follow_changes(&here(), p, &rig.h, 400_000_000);
    assert!(rig.settle().is_empty());
    rig.mux.poll_reader(ReadStatus::Running, &rig.h, 400_000_000);
    assert_eq!(rig.mux.reader.target_abs(), Some(&"/r/b.rs".to_owned()));
}

#[test]
fn sent_files_are_shown_in_the_workbench() {
    let mut rig = Rig::new();
    let chunk = || GtMessage::FileChunk {
        path: "a.txt".to_owned(),
        seq: 0,
        last: true,
        data: b"hello".to_vec(),
    };
    rig.mux.handle_gt_messages(vec![chunk()], &rig.h, 0);
    assert!(rig.mux.reader.is_following());
    rig.shortcut(KeyCode::KeyF);
    rig.mux.handle_gt_messages(vec![chunk()], &rig.h, 0);
    assert!(!rig.mux.reader.is_following());
}

#[test]
fn the_bar_numbers_the_tabs() {
    let cells = status_bar_cells(2, 1, 8);
    let text: String = cells.iter().map(|c| c.ch).collect();
    assert_eq!(text, " 1  2   ");
    assert_eq!(cells[0].attr.bg, Color::BrightBlack);
    assert_eq!(cells[3].attr.bg, Color::White);
    assert_eq!(cells[3].attr.fg, Color::Black);
    assert_eq!(cells[7].attr.bg, Color::BrightBlack);
    assert_eq!(status_bar_cells(2, 0, 4).len(), 4);
}

#[test]
fn programs_are_looked_for_on_the_search_path() {
    assert_eq!(
        command_candidates("vi", Some("/bin:/usr/bin")),
        vec!["/bin/vi".to_owned(), "/usr/bin/vi".to_owned()]
    );
    assert_eq!(
        command_candidates("./vi", Some("/bin")),
        vec!["./vi".to_owned()]
    );
    assert!(command_candidates("vi", None).is_empty());
    assert!(command_exists(&vec![false, true]));
    assert!(!command_exists(&Vec::new()));
}

#[test]
fn shortcuts_can_be_changed() {
    let table = build(&vec![("new_tab".to_owned(), "ctrl+alt+n".to_owned())]).unwrap();
    let mods = ModifiersState { control: true, shift: false, alt: true, logo: false };
    assert_eq!(
        lookup(&table, mods, KeyCode::KeyN),
        Some(ShortcutAction::NewTab)
    );
    let old = ModifiersState { control: true, shift: true, alt: false, logo: false };
    assert_eq!(lookup(&table, old, KeyCode::KeyT), None);
    assert_eq!(
        lookup(&table, old, KeyCode::KeyW),
        Some(ShortcutAction::ClosePane)
    );
}

#[test]
fn wrong_shortcuts_are_refused() {
    let err = parse_keybinding("new_tab", "T").unwrap_err();
    assert!(err.starts_with("keybindings.new_tab = \"T\" は不正です"), "{err}");
    let err = parse_keybinding("focus_left", "Ctrl+Foo").unwrap_err();
    assert!(err.contains("不明なキー名 \"Foo\""), "{err}");
    let err = build(&vec![("new_tab".to_owned(), "Ctrl+Shift+H".to_owned())]).unwrap_err();
    assert!(err.contains("重複"), "{err}");
    assert!(build(&vec![("no_such".to_owned(), "Ctrl+A".to_owned())]).is_err());
    let b = parse_keybinding("new_tab", "shift+ctrl+t").unwrap();
    assert_eq!(b.display(), "Ctrl+Shift+T");
}

#[test]
fn the_workbench_is_drawn_when_its_rows_are_new() {
    let mut rig = Rig::new();
    rig.shortcut(KeyCode::KeyF);
    assert!(rig.mux.wants_redraw(false, false, false));
    rig.mux.drawn();
    assert!(!rig.mux.wants_redraw(false, false, false));
    rig.key(KeyCode::KeyZ, Some("z"));
    assert!(!rig.mux.wants_redraw(false, false, false));
    rig.key(KeyCode::KeyZ, Some("/"));
    assert!(rig.mux.wants_redraw(false, false, false));
}
