use gototerm::watcher::{
    change_kind_for_event, drain, is_ignored, merge_kind, relative_path, should_descend,
    ChangeKind, EventKind, SubEntry, WalkStep, WatchEvent, WatchWalk,
};
use gototerm::workspace::{collect, parse_porcelain_v2};

#[test]
fn merge_keeps_new_when_modified_after_create() {
    assert_eq!(
        merge_kind(Some(ChangeKind::New), ChangeKind::Modified),
        ChangeKind::New
    );
}

#[test]
fn merge_delete_wins_over_previous_kind() {
    assert_eq!(
        merge_kind(Some(ChangeKind::New), ChangeKind::Deleted),
        ChangeKind::Deleted
    );
    assert_eq!(
        merge_kind(Some(ChangeKind::Modified), ChangeKind::Deleted),
        ChangeKind::Deleted
    );
}

#[test]
fn merge_create_after_delete_becomes_modified() {
    assert_eq!(
        merge_kind(Some(ChangeKind::Deleted), ChangeKind::New),
        ChangeKind::Modified
    );
}

#[test]
fn ignored_matches_any_path_component() {
    let patterns = vec![".git".to_owned(), "target".to_owned()];

    assert!(is_ignored(".git/index", &patterns));
    assert!(is_ignored("crates/app/target/foo.o", &patterns));
    assert!(!is_ignored("src/targeted.rs", &patterns));
}

#[test]
fn relative_path_strips_watched_root() {
    assert_eq!(relative_path("/repo", "/repo/src/main.rs"), "src/main.rs");
}

#[test]
fn descend_skips_hidden_and_ignored_dirs() {
    let patterns = vec!["node_modules".to_owned(), "target".to_owned()];

    assert!(should_descend("src", &patterns));
    assert!(should_descend("docs", &patterns));
    assert!(!should_descend(".git", &patterns));
    assert!(!should_descend(".cache", &patterns));
    assert!(!should_descend("node_modules", &patterns));
    assert!(!should_descend("target", &patterns));
}

#[test]
fn parses_clean_status() {
    let summary = parse_porcelain_v2("# branch.oid abc\n# branch.head main\n");

    assert_eq!(summary.branch, "main");
    assert_eq!(summary.staged, 0);
    assert_eq!(summary.modified, 0);
    assert_eq!(summary.untracked, 0);
    assert_eq!(summary.deleted, 0);
}

#[test]
fn parses_modified_worktree_files() {
    let summary =
        parse_porcelain_v2("# branch.head main\n1 .M N... 100644 100644 100644 a b file.rs\n");

    assert_eq!(summary.staged, 0);
    assert_eq!(summary.modified, 1);
    assert_eq!(summary.deleted, 0);
}

#[test]
fn parses_staged_and_unstaged_mix() {
    let summary = parse_porcelain_v2(
        "# branch.head feature\n\
         1 M. N... 100644 100644 100644 a b staged.rs\n\
         1 MM N... 100644 100644 100644 a b both.rs\n",
    );

    assert_eq!(summary.branch, "feature");
    assert_eq!(summary.staged, 2);
    assert_eq!(summary.modified, 1);
}

#[test]
fn parses_untracked_files() {
    let summary = parse_porcelain_v2("# branch.head main\n? new.rs\n? docs/new.md\n");

    assert_eq!(summary.untracked, 2);
}

#[test]
fn parses_worktree_deleted_files() {
    let summary =
        parse_porcelain_v2("# branch.head main\n1 .D N... 100644 100644 000000 a b gone.rs\n");

    assert_eq!(summary.modified, 1);
    assert_eq!(summary.deleted, 1);
}

#[test]
fn parses_rename_lines() {
    let summary = parse_porcelain_v2(
        "# branch.head main\n\
         2 RM N... 100644 100644 100644 a b R100 new.rs\told.rs\n",
    );

    assert_eq!(summary.staged, 1);
    assert_eq!(summary.modified, 1);
}

#[test]
fn a_directory_without_git_has_no_summary() {
    let info = collect("/work", None);
    assert_eq!(info.cwd, "/work");
    assert!(info.git.is_none());
}

#[test]
fn events_stand_for_changes() {
    assert_eq!(change_kind_for_event(EventKind::Create), Some(ChangeKind::New));
    assert_eq!(change_kind_for_event(EventKind::Modify), Some(ChangeKind::Modified));
    assert_eq!(change_kind_for_event(EventKind::Remove), Some(ChangeKind::Deleted));
    assert_eq!(change_kind_for_event(EventKind::Other), None);
}

#[test]
fn a_new_directory_is_watched_and_a_file_in_it_is_a_change() {
    let patterns = vec!["target".to_owned()];
    let events = vec![
        WatchEvent { kind: EventKind::Create, path: "/r/src".to_owned(), is_dir: true },
        WatchEvent { kind: EventKind::Create, path: "/r/src/a.rs".to_owned(), is_dir: false },
        WatchEvent { kind: EventKind::Modify, path: "/r/target/x".to_owned(), is_dir: false },
    ];
    let (changes, dirs) = drain("/r", &patterns, &events);
    assert_eq!(dirs, vec!["/r/src".to_owned()]);
    assert_eq!(changes.len(), 1);
    assert_eq!(changes[0].path, "src/a.rs");
    assert_eq!(changes[0].kind, ChangeKind::New);
}

#[test]
fn a_walk_goes_down_level_by_level() {
    let patterns = vec!["target".to_owned()];
    let mut walk = WatchWalk::new("/r", 0);
    match walk.next() {
        WalkStep::Watch(d) => assert_eq!(d, "/r"),
        other => panic!("{other:?}"),
    }
    let entries = vec![
        SubEntry { name: "src".to_owned(), is_dir: true },
        SubEntry { name: "target".to_owned(), is_dir: true },
        SubEntry { name: ".git".to_owned(), is_dir: true },
        SubEntry { name: "a.rs".to_owned(), is_dir: false },
    ];
    walk.entered("/r", &entries, &patterns);
    match walk.next() {
        WalkStep::Watch(d) => assert_eq!(d, "/r/src"),
        other => panic!("{other:?}"),
    }
    walk.entered("/r/src", &Vec::new(), &patterns);
    assert!(matches!(walk.next(), WalkStep::Done { truncated: false }));
}
