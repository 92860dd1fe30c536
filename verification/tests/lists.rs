use gototerm::bookmarks::{bookmarks_path, toggle_path, Bookmarks};
use gototerm::recent::{recent_projects_path, record_path, RecentProjects};

#[test]
fn toggle_adds_then_removes() {
    let mut entries: Vec<String> = Vec::new();
    let path = "/work/programs";

    assert!(toggle_path(&mut entries, path));
    assert_eq!(entries, vec!["/work/programs".to_owned()]);

    assert!(!toggle_path(&mut entries, path));
    assert!(entries.is_empty());
}

#[test]
fn newest_bookmark_comes_first() {
    let mut entries: Vec<String> = Vec::new();

    toggle_path(&mut entries, "/a");
    toggle_path(&mut entries, "/b");

    assert_eq!(entries, vec!["/b".to_owned(), "/a".to_owned()]);
}

#[test]
fn removing_one_keeps_the_others() {
    let mut entries: Vec<String> = Vec::new();
    toggle_path(&mut entries, "/a");
    toggle_path(&mut entries, "/b");
    toggle_path(&mut entries, "/c");

    toggle_path(&mut entries, "/b");

    assert_eq!(entries, vec!["/c".to_owned(), "/a".to_owned()]);
}

#[test]
fn test_bookmarks_never_touch_disk() {
    let mut marks = Bookmarks::empty_for_test();

    marks.toggle("/work/a");

    assert!(marks.path.is_none());
    assert!(marks.to_save().is_none());
    assert_eq!(*marks.entries(), vec!["/work/a".to_owned()]);
}

#[test]
fn saving_writes_only_to_its_own_path() {
    let mut marks = Bookmarks::from_text("/tmp/marks.txt", None);

    marks.toggle("/work/a");

    assert_eq!(
        marks.to_save(),
        Some(("/tmp/marks.txt".to_owned(), "/work/a\n".to_owned()))
    );
}

#[test]
fn bookmarks_load_returns_empty_when_file_is_missing() {
    assert!(Bookmarks::from_text("/tmp/marks.txt", None).entries().is_empty());
}

#[test]
fn load_reads_saved_lines_and_ignores_blanks() {
    let marks = Bookmarks::from_text("/tmp/marks.txt", Some("/work/a\n\n/work/b\n"));

    assert_eq!(
        *marks.entries(),
        vec!["/work/a".to_owned(), "/work/b".to_owned()]
    );
    assert!(marks.contains("/work/b"));
}

#[test]
fn paths_that_differ_only_in_slashes_are_one_bookmark() {
    let mut marks = Bookmarks::empty_for_test();
    marks.toggle("/work/a");
    assert!(marks.contains("/work//a/"));
    assert!(!marks.toggle("/work/a/"));
    assert!(marks.entries().is_empty());
}

#[test]
fn bookmarks_file_is_below_the_configuration() {
    assert_eq!(
        bookmarks_path(Some("/x".to_owned()), Some("/home/u".to_owned()), "/tmp"),
        "/x/gototerm/bookmarks.txt"
    );
    assert_eq!(
        bookmarks_path(None, Some("/home/u".to_owned()), "/tmp"),
        "/home/u/.config/gototerm/bookmarks.txt"
    );
    assert_eq!(
        bookmarks_path(None, None, "/tmp"),
        "/tmp/gototerm/bookmarks.txt"
    );
}

#[test]
fn record_moves_existing_path_to_front_without_duplicate() {
    let mut entries = vec!["/a".to_owned(), "/b".to_owned(), "/c".to_owned()];

    record_path(&mut entries, "/b".to_owned());

    assert_eq!(
        entries,
        vec!["/b".to_owned(), "/a".to_owned(), "/c".to_owned()]
    );
}

#[test]
fn record_keeps_only_twenty_entries() {
    let mut entries: Vec<String> = Vec::new();

    for i in 0..25 {
        record_path(&mut entries, format!("/project-{i}"));
    }

    assert_eq!(entries.len(), 20);
    assert_eq!(entries.first(), Some(&"/project-24".to_owned()));
    assert_eq!(entries.last(), Some(&"/project-5".to_owned()));
}

#[test]
fn record_preserves_nonexistent_paths_without_stat() {
    let mut entries: Vec<String> = Vec::new();
    let path = "/definitely/not/a/real/gototerm/project".to_owned();

    record_path(&mut entries, path.clone());

    assert_eq!(entries, vec![path]);
}

#[test]
fn recent_load_returns_empty_when_file_is_missing() {
    let recent = RecentProjects::from_text(None);

    assert!(recent.entries().is_empty());
}

#[test]
fn recent_list_comes_back_newest_first() {
    let mut recent = RecentProjects::from_text(None);
    recent.record("/a");
    recent.record("/b");
    let text = recent.to_text();
    assert_eq!(text, "/b\n/a\n");

    let again = RecentProjects::from_text(Some(&text));
    assert_eq!(*again.entries(), vec!["/b".to_owned(), "/a".to_owned()]);
}

#[test]
fn recent_file_is_in_the_cache() {
    assert_eq!(
        recent_projects_path(None, Some("/home/u".to_owned()), "/tmp"),
        "/home/u/.cache/gototerm/recent_projects.txt"
    );
}
