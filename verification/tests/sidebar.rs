use gototerm::entries::sort_entries;
use gototerm::keys::KeyCode;
use gototerm::sidebar::{
    clamp_browse_scroll, keep_selection_visible, sidebar_action_at, BrowsePoll, RowAction, Sidebar,
    SidebarKeyResult, SidebarPoll, SidebarRequest, SidebarTask, WatcherPoll, WorkspacePoll,
};
use gototerm::terminal::CellSize;
use gototerm::view::{click_row, Viewport};
use gototerm::vt::ShellLocation;
use gototerm::watcher::{ChangeKind, FileChange};
use gototerm::workspace::collect;

#[test]
fn click_row_uses_viewport_origin_and_cell_height() {
    let viewport = Viewport {
        x: 100,
        y: 40,
        w: 300,
        h: 200,
    };

    assert_eq!(click_row(viewport, 20, 40), 0);
    assert_eq!(click_row(viewport, 20, 79), 1);
    assert_eq!(click_row(viewport, 20, 80), 2);
}

#[test]
fn sidebar_action_at_returns_only_action_rows() {
    let file = "/tmp/demo.txt".to_owned();
    let actions = vec![
        None,
        Some(RowAction::PreviewFile(file.clone())),
        Some(RowAction::BrowseParent),
    ];

    assert!(sidebar_action_at(&actions, 0).is_none());
    match sidebar_action_at(&actions, 1) {
        Some(RowAction::PreviewFile(p)) => assert_eq!(*p, file),
        other => panic!("{other:?}"),
    }
    assert!(matches!(
        sidebar_action_at(&actions, 2),
        Some(RowAction::BrowseParent)
    ));
    assert!(sidebar_action_at(&actions, 3).is_none());
}

#[test]
fn sort_entries_puts_directories_first_then_names() {
    let entries = vec![
        ("z.txt".to_owned(), false),
        ("src".to_owned(), true),
        ("README.md".to_owned(), false),
        ("docs".to_owned(), true),
    ];

    assert_eq!(
        sort_entries(entries, 10),
        vec![
            ("docs".to_owned(), true),
            ("src".to_owned(), true),
            ("README.md".to_owned(), false),
            ("z.txt".to_owned(), false),
        ]
    );
}

#[test]
fn sort_entries_filters_hidden_names() {
    let entries = vec![
        (".git".to_owned(), true),
        ("src".to_owned(), true),
        (".env".to_owned(), false),
        ("Cargo.toml".to_owned(), false),
    ];

    assert_eq!(
        sort_entries(entries, 10),
        vec![("src".to_owned(), true), ("Cargo.toml".to_owned(), false),]
    );
}

#[test]
fn sort_entries_truncates_after_sorting() {
    let entries = vec![
        ("c.txt".to_owned(), false),
        ("b_dir".to_owned(), true),
        ("a_dir".to_owned(), true),
        ("a.txt".to_owned(), false),
    ];

    assert_eq!(
        sort_entries(entries, 2),
        vec![("a_dir".to_owned(), true), ("b_dir".to_owned(), true)]
    );
}

#[test]
fn sort_entries_handles_empty_directory() {
    assert!(sort_entries(Vec::new(), 10).is_empty());
}

#[test]
fn clamp_browse_scroll_stays_within_visible_range() {
    assert_eq!(clamp_browse_scroll(0, 20, 5), 0);
    assert_eq!(clamp_browse_scroll(12, 20, 5), 12);
    assert_eq!(clamp_browse_scroll(99, 20, 5), 15);
}

#[test]
fn clamp_browse_scroll_handles_short_or_empty_lists() {
    assert_eq!(clamp_browse_scroll(3, 4, 10), 0);
    assert_eq!(clamp_browse_scroll(3, 0, 10), 0);
    assert_eq!(clamp_browse_scroll(3, 4, 0), 3);
}

#[test]
fn keep_selection_visible_scrolls_down_to_selected_entry() {
    assert_eq!(keep_selection_visible(0, 5, 20, 5), 1);
    assert_eq!(keep_selection_visible(1, 5, 20, 5), 1);
    assert_eq!(keep_selection_visible(1, 6, 20, 5), 2);
}

#[test]
fn keep_selection_visible_scrolls_up_to_selected_entry() {
    assert_eq!(keep_selection_visible(10, 9, 20, 5), 9);
    assert_eq!(keep_selection_visible(10, 10, 20, 5), 10);
    assert_eq!(keep_selection_visible(10, 14, 20, 5), 10);
}

#[test]
fn keep_selection_visible_clamps_to_scroll_range() {
    assert_eq!(keep_selection_visible(99, 19, 20, 5), 15);
    assert_eq!(keep_selection_visible(3, 0, 0, 5), 0);
    assert_eq!(keep_selection_visible(3, 2, 4, 0), 3);
}

fn poll() -> SidebarPoll {
    SidebarPoll {
        watcher: WatcherPoll::Waiting,
        drained: Vec::new(),
        partial: false,
        browse: BrowsePoll::Waiting,
        workspace: WorkspacePoll::Waiting,
    }
}

/// A sidebar over a directory with two entries.
fn opened() -> Sidebar {
    let vp = Viewport { x: 0, y: 0, w: 300, h: 600 };
    let mut s = Sidebar::new(vp, CellSize { w: 10, h: 20 }, "agent");
    let here = ShellLocation::Local("/r".to_owned());
    s.toggle(&here, 0);
    s.take_tasks();
    let mut p = poll();
    p.watcher = WatcherPoll::Ready { partial: false };
    p.workspace = WorkspacePoll::Done(collect("/r", None));
    p.browse = BrowsePoll::Done(Ok(vec![("src".to_owned(), true), ("a.rs".to_owned(), false)]));
    s.refresh_if_stale(&here, p, 1);
    s.set_focused(true, 2);
    s
}

#[test]
fn opening_the_sidebar_asks_for_the_directory() {
    let vp = Viewport { x: 0, y: 0, w: 300, h: 600 };
    let mut s = Sidebar::new(vp, CellSize { w: 10, h: 20 }, "agent");
    assert!(!s.is_visible());
    s.toggle(&ShellLocation::Local("/r".to_owned()), 0);
    assert!(s.is_visible());
    let tasks = s.take_tasks();
    assert!(tasks
        .iter()
        .any(|t| matches!(t, SidebarTask::ReadDir(d) if d == "/r")));
    assert!(tasks
        .iter()
        .any(|t| matches!(t, SidebarTask::SpawnWatcher(d) if d == "/r")));
}

#[test]
fn keys_move_the_selection_and_open_files() {
    let mut s = opened();
    // The first row is the parent directory, then come the entries.
    s.on_key(true, Some(KeyCode::KeyJ), Some("j"), 3);
    s.on_key(true, Some(KeyCode::KeyJ), Some("j"), 3);
    match s.on_key(true, Some(KeyCode::Enter), None, 3) {
        SidebarKeyResult::Request(SidebarRequest::PreviewFile(p)) => assert_eq!(p, "/r/a.rs"),
        other => panic!("{other:?}"),
    }
    assert!(matches!(
        s.on_key(true, Some(KeyCode::Escape), None, 3),
        SidebarKeyResult::ReleaseFocus
    ));
    assert!(matches!(
        s.on_key(true, Some(KeyCode::KeyZ), Some("z"), 3),
        SidebarKeyResult::Consumed
    ));
}

#[test]
fn a_change_becomes_the_target_to_follow() {
    let mut s = opened();
    let here = ShellLocation::Local("/r".to_owned());
    let mut p = poll();
    p.drained = vec![FileChange {
        path: "a.rs".to_owned(),
        kind: ChangeKind::Modified,
    }];
    s.refresh_if_stale(&here, p, 5);
    assert_eq!(s.take_follow_target(), Some("/r/a.rs".to_owned()));
    assert_eq!(s.take_follow_target(), None);
}

#[test]
fn nothing_is_followed_while_following_is_stopped() {
    let mut s = opened();
    s.toggle_follow(3);
    let here = ShellLocation::Local("/r".to_owned());
    let mut p = poll();
    p.drained = vec![FileChange {
        path: "a.rs".to_owned(),
        kind: ChangeKind::Modified,
    }];
    s.refresh_if_stale(&here, p, 5);
    assert_eq!(s.take_follow_target(), None);
}

#[test]
fn the_tool_at_work_is_named() {
    let mut s = opened();
    s.apply_gt_event(
        Some("/r"),
        ChangeKind::Modified,
        "src/a.rs",
        Some("Edit".to_owned()),
        10,
    );
    let texts: Vec<String> = s
        .frame
        .lines
        .iter()
        .map(|l| l.iter().iter().filter(|c| c.width > 0).map(|c| c.ch).collect())
        .collect();
    assert!(
        texts.iter().any(|t| t.contains("● agent  ") && t.contains("(Edit)")),
        "{texts:?}"
    );
}

fn row_texts(s: &Sidebar) -> Vec<String> {
    s.frame
        .lines
        .iter()
        .map(|l| l.iter().iter().filter(|c| c.width > 0).map(|c| c.ch).collect())
        .collect()
}

/// A pixel of the row whose text holds `part`.
fn pixel_of(s: &Sidebar, part: &str) -> i64 {
    let row = row_texts(s).iter().position(|t| t.contains(part)).unwrap();
    row as i64 * 20 + 5
}

#[test]
fn the_rows_keep_up_with_the_state() {
    let mut s = opened();
    s.drawn();
    assert!(!s.needs_redraw());
    // Nothing changes, nothing is to be drawn.
    s.on_key(true, Some(KeyCode::KeyZ), Some("z"), 3);
    assert!(!s.needs_redraw());
    s.on_key(true, None, Some("/"), 3);
    assert!(!s.needs_redraw());
    // A search is shown in the last row.
    s.on_key(true, Some(KeyCode::KeyZ), Some("/"), 3);
    s.on_key(true, Some(KeyCode::KeyA), Some("a"), 3);
    assert!(s.needs_redraw());
    assert!(row_texts(&s).last().unwrap().starts_with(" /a_"));
    s.drawn();
    s.on_key(true, Some(KeyCode::Escape), None, 3);
    assert!(s.needs_redraw());
    assert!(!row_texts(&s).last().unwrap().starts_with(" /"));
}

#[test]
fn a_click_uses_the_row_under_it() {
    let mut s = opened();
    let y = pixel_of(&s, "a.rs");
    match s.on_click(20, y, 3) {
        Some(SidebarRequest::PreviewFile(p)) => assert_eq!(p, "/r/a.rs"),
        other => panic!("{other:?}"),
    }
    s.drawn();
    let y = pixel_of(&s, "src/");
    assert!(s.on_click(20, y, 3).is_none());
    assert!(s.needs_redraw());
    assert!(row_texts(&s).iter().any(|t| t.contains("/r/src")));
    // The rows that were there before are gone.
    assert!(!row_texts(&s).iter().any(|t| t.contains("a.rs")));
}

#[test]
fn opening_the_sidebar_again_draws_it() {
    let mut s = opened();
    let here = ShellLocation::Local("/r".to_owned());
    s.toggle(&here, 3);
    assert!(!s.needs_redraw());
    assert!(s.row_actions.is_empty());
    s.drawn();
    let there = ShellLocation::Remote {
        host: "far".to_owned(),
        path: "/x".to_owned(),
    };
    s.toggle(&there, 4);
    assert!(s.needs_redraw());
    assert!(row_texts(&s)[0].contains("far:/x"));
    assert_eq!(s.row_actions.len(), s.frame.lines.len());
}

#[test]
fn changes_count_from_when_the_watcher_is_ready() {
    let vp = Viewport { x: 0, y: 0, w: 300, h: 600 };
    let mut s = Sidebar::new(vp, CellSize { w: 10, h: 20 }, "agent");
    let here = ShellLocation::Local("/r".to_owned());
    s.toggle(&here, 0);
    let mut p = poll();
    p.watcher = WatcherPoll::Ready { partial: false };
    p.drained = vec![FileChange {
        path: "a.rs".to_owned(),
        kind: ChangeKind::New,
    }];
    s.refresh_if_stale(&here, p, 1);
    assert_eq!(s.changes.len(), 1);
    assert_eq!(s.take_follow_target(), Some("/r/a.rs".to_owned()));
    // Without a watcher nothing can have been seen.
    let mut other = Sidebar::new(vp, CellSize { w: 10, h: 20 }, "agent");
    other.toggle(&here, 0);
    let mut p = poll();
    p.watcher = WatcherPoll::Failed;
    p.drained = vec![FileChange {
        path: "a.rs".to_owned(),
        kind: ChangeKind::New,
    }];
    other.refresh_if_stale(&here, p, 1);
    assert!(other.changes.is_empty());
}
