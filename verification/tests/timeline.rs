use gototerm::timeline::{format_age, risk_label, Timeline, MAX_ENTRIES};
use gototerm::watcher::ChangeKind;

const SEC: u64 = 1_000_000_000;

#[test]
fn push_keeps_newest_first_and_caps_length() {
    let mut timeline = Timeline::default();
    for i in 0..(MAX_ENTRIES + 10) {
        timeline.push_at(
            ChangeKind::Modified,
            format!("file{i}.rs"),
            None,
            i as u64 * 10 * SEC,
        );
    }
    assert_eq!(timeline.len(), MAX_ENTRIES);
    assert_eq!(
        timeline.entries()[0].path,
        format!("file{}.rs", MAX_ENTRIES + 9)
    );
}

#[test]
fn merges_same_path_within_window() {
    let mut timeline = Timeline::default();
    timeline.push_at(ChangeKind::New, "a.rs".to_owned(), None, 0);
    timeline.push_at(
        ChangeKind::Modified,
        "a.rs".to_owned(),
        Some("Edit".to_owned()),
        SEC,
    );
    assert_eq!(timeline.len(), 1);
    let entry = &timeline.entries()[0];
    assert_eq!(entry.kind, ChangeKind::New);
    assert_eq!(entry.tool.as_deref(), Some("Edit"));
}

#[test]
fn mark_session_start_records_a_time_and_clear_resets_it() {
    let mut timeline = Timeline::default();
    assert_eq!(timeline.session_start(), None);
    timeline.mark_session_start(5);
    assert!(timeline.session_start().is_some());
    timeline.clear();
    assert_eq!(timeline.session_start(), None);
}

#[test]
fn does_not_merge_outside_window() {
    let mut timeline = Timeline::default();
    timeline.push_at(ChangeKind::Modified, "a.rs".to_owned(), None, 0);
    timeline.push_at(ChangeKind::Modified, "a.rs".to_owned(), None, 10 * SEC);
    assert_eq!(timeline.len(), 2);
}

#[test]
fn risk_labels_by_rule() {
    assert_eq!(
        risk_label("src/lib.rs", ChangeKind::Deleted),
        Some("削除")
    );
    assert_eq!(risk_label(".env", ChangeKind::Modified), Some("秘密"));
    assert_eq!(risk_label(".env.local", ChangeKind::Modified), Some("秘密"));
    assert_eq!(risk_label("Cargo.toml", ChangeKind::Modified), Some("依存"));
    assert_eq!(
        risk_label("web/package-lock.json", ChangeKind::Modified),
        Some("依存")
    );
    assert_eq!(
        risk_label(".github/workflows/ci.yml", ChangeKind::New),
        Some("CI")
    );
    assert_eq!(risk_label("Dockerfile", ChangeKind::Modified), Some("CI"));
    assert_eq!(risk_label("config.toml", ChangeKind::Modified), Some("設定"));
    assert_eq!(
        risk_label(".agent/settings.json", ChangeKind::Modified),
        Some("設定")
    );
    assert_eq!(risk_label("src/main.rs", ChangeKind::Modified), None);
    assert_eq!(risk_label("data/events.json", ChangeKind::Modified), None);
    assert_eq!(risk_label("README.md", ChangeKind::New), None);
}

#[test]
fn risk_count_counts_flagged_entries() {
    let mut timeline = Timeline::default();
    timeline.push_at(ChangeKind::Modified, "src/main.rs".to_owned(), None, 0);
    timeline.push_at(ChangeKind::Modified, "Cargo.toml".to_owned(), None, 0);
    timeline.push_at(ChangeKind::Deleted, "old.rs".to_owned(), None, 0);
    assert_eq!(timeline.risk_count(), 2);
}

#[test]
fn format_age_buckets() {
    assert_eq!(format_age(3), "いま");
    assert_eq!(format_age(42), "42秒");
    assert_eq!(format_age(5 * 60 + 30), "5分");
    assert_eq!(format_age(3 * 3600), "3時間");
    assert_eq!(format_age(2 * 24 * 3600), "2日");
}
