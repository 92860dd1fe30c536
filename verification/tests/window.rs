use gototerm::clipboard::{dedent_common_indent, paste_bytes, selected_text};
use gototerm::input::{bytes_for_key, mouse_report, MouseButton};
use gototerm::keybindings::{build, KeyBinding, ShortcutAction};
use gototerm::keys::{KeyCode, ModifiersState};
use gototerm::links::{
    is_link_token_char, looks_like_path, normalize_absolute_path, resolve_existing_file_token,
    resolve_path_token, token_at,
};
use gototerm::selection::{fills_screen, selection_of, Drag, Selection};
use gototerm::snapshot::Snapshot;
use gototerm::terminal::{Cell, CellSize, Line, TerminalSize};
use gototerm::view::Viewport;
use gototerm::window::{CursorIcon, PaneAction, PaneEvent, TerminalModes, TerminalWindow};

#[test]
fn dedent_common_indent_removes_shared_prefix() {
    let cases = [
        ("  a\n  b", "a\nb"),
        ("  a\n    b", "a\n  b"),
        ("  a\n\n  b", "a\n\nb"),
        ("  a\n   \n  b", "a\n\nb"),
        ("a\n  b", "a\n  b"),
        ("   hello", "hello"),
        ("\tx\n\ty", "x\ny"),
        ("  a\n  b\n", "a\nb\n"),
        ("", ""),
    ];

    for (input, expected) in cases {
        assert_eq!(dedent_common_indent(input), expected);
        assert_eq!(dedent_common_indent(expected), expected);
    }
}

#[test]
fn resolves_absolute_path_token() {
    assert_eq!(
        resolve_path_token("/x/abs/note.txt", "/tmp", None, None),
        Some("/x/abs/note.txt".to_owned())
    );
}

#[test]
fn resolves_home_path_token() {
    assert_eq!(
        resolve_path_token("~/note.txt", "/tmp", Some("/x/home"), None),
        Some("/x/home/note.txt".to_owned())
    );
    assert_eq!(resolve_path_token("~/note.txt", "/tmp", None, None), None);
}

#[test]
fn resolves_relative_path_token_against_cwd() {
    assert_eq!(
        resolve_path_token("src/./main.rs", "/x/rel", None, None),
        Some("/x/rel/src/main.rs".to_owned())
    );
    assert_eq!(
        resolve_path_token("a.rs", "rel", None, Some("/x")),
        Some("/x/rel/a.rs".to_owned())
    );
    assert_eq!(resolve_path_token("a.rs", "rel", None, None), None);
}

#[test]
fn existing_file_resolution_ignores_missing_token() {
    assert_eq!(
        resolve_existing_file_token("missing.txt", "/x", None, None, false),
        None
    );
    assert_eq!(
        resolve_existing_file_token("there.txt", "/x", None, None, true),
        Some("/x/there.txt".to_owned())
    );
}

#[test]
fn pages_are_no_paths() {
    assert_eq!(resolve_path_token("https://a.b/c", "/x", None, None), None);
    assert_eq!(resolve_path_token("", "/x", None, None), None);
}

#[test]
fn paths_lose_their_dots() {
    assert_eq!(normalize_absolute_path("/a/./b/../c"), "/a/c");
    assert_eq!(normalize_absolute_path("/../.."), "/");
    assert_eq!(normalize_absolute_path("//a//b/"), "/a/b");
    assert_eq!(normalize_absolute_path("/a/c"), "/a/c");
}

fn line(text: &str, wraps: bool) -> Line {
    Line::from_cells(text.chars().map(Cell::new_ascii).collect(), wraps)
}

#[test]
fn words_on_the_screen_end_at_quotes_and_stops() {
    let lines = vec![line("see \"src/main.rs\", or x.", false)];
    assert_eq!(token_at(&lines, 0, 6), Some("src/main.rs".to_owned()));
    assert_eq!(token_at(&lines, 0, 4), None);
    assert_eq!(token_at(&lines, 0, 22), Some("x".to_owned()));
    assert_eq!(token_at(&lines, 1, 0), None);
    assert!(is_link_token_char('a'));
    assert!(!is_link_token_char('│'));
    assert!(looks_like_path("a/b"));
    assert!(!looks_like_path("ab"));
}

fn drag(x0: i64, y0: i64, x1: i64, y1: i64) -> Drag {
    Drag {
        start_x: x0,
        start_y: y0,
        start_offset: 0,
        end_x: x1,
        end_y: y1,
        end_offset: 0,
        offset: 0,
        block: false,
        clicks: 1,
    }
}

const CELL: CellSize = CellSize { w: 10, h: 20 };
const SIZE: TerminalSize = TerminalSize { rows: 2, cols: 10 };

fn screen() -> Vec<Line> {
    vec![line("one two   ", false), line("  three   ", false)]
}

#[test]
fn a_drag_selects_from_cell_to_cell() {
    let lines = screen();
    assert!(fills_screen(&lines, SIZE));
    // From the first column to the third, in half pixels.
    assert_eq!(
        selection_of(drag(0, 0, 60, 0), CELL, SIZE, &lines),
        Some(Selection::Linear { left: 0, right: 2 })
    );
    // Backwards it is the same.
    assert_eq!(
        selection_of(drag(60, 0, 0, 0), CELL, SIZE, &lines),
        Some(Selection::Linear { left: 0, right: 2 })
    );
    // Over two rows.
    assert_eq!(
        selection_of(drag(0, 0, 140, 50), CELL, SIZE, &lines),
        Some(Selection::Linear { left: 0, right: 16 })
    );
}

#[test]
fn two_clicks_select_a_word_and_three_a_row() {
    let lines = screen();
    let mut d = drag(100, 0, 100, 0);
    d.clicks = 2;
    assert_eq!(
        selection_of(d, CELL, SIZE, &lines),
        Some(Selection::Linear { left: 4, right: 6 })
    );
    d.clicks = 3;
    assert_eq!(
        selection_of(d, CELL, SIZE, &lines),
        Some(Selection::Linear { left: 0, right: 9 })
    );
}

#[test]
fn a_selection_scrolls_away() {
    let lines = screen();
    let mut d = drag(0, 0, 60, 0);
    d.offset = 1;
    assert_eq!(
        selection_of(d, CELL, SIZE, &lines),
        Some(Selection::Linear { left: 10, right: 12 })
    );
    d.offset = 2;
    assert_eq!(selection_of(d, CELL, SIZE, &lines), None);
}

#[test]
fn a_block_selects_columns() {
    let lines = screen();
    let mut d = drag(40, 0, 100, 50);
    d.block = true;
    let s = selection_of(d, CELL, SIZE, &lines);
    assert_eq!(
        s,
        Some(Selection::Block {
            top: 0,
            bottom: 1,
            left: 2,
            right: 4
        })
    );
    assert_eq!(selected_text(&lines, s), "e t\nthr");
}

#[test]
fn copied_rows_lose_blanks_and_the_shared_indent() {
    let lines = vec![line("  one     ", false), line("  two     ", false)];
    assert_eq!(
        selected_text(&lines, Some(Selection::Linear { left: 0, right: 19 })),
        "one\ntwo"
    );
    let wrapped = vec![line("one two th", true), line("ree       ", false)];
    assert_eq!(
        selected_text(&wrapped, Some(Selection::Linear { left: 0, right: 19 })),
        "one two three"
    );
    assert_eq!(selected_text(&lines, None), "");
}

#[test]
fn pasted_text_is_marked_where_asked() {
    assert_eq!(paste_bytes("hi", false), b"hi".to_vec());
    assert_eq!(paste_bytes("hi", true), b"\x1b[200~hi\x1b[201~".to_vec());
}

#[test]
fn keys_send_their_sequences() {
    assert_eq!(
        bytes_for_key(false, false, KeyCode::ArrowUp),
        Some(b"\x1b[A".to_vec())
    );
    assert_eq!(
        bytes_for_key(false, true, KeyCode::Enter),
        Some(b"\x1b\r".to_vec())
    );
    assert_eq!(bytes_for_key(false, false, KeyCode::Enter), Some(b"\r".to_vec()));
    assert_eq!(
        bytes_for_key(false, false, KeyCode::F5),
        Some(b"\x1b[15~".to_vec())
    );
    assert_eq!(bytes_for_key(true, false, KeyCode::KeyC), Some(vec![3]));
    assert_eq!(bytes_for_key(true, true, KeyCode::KeyC), None);
    assert_eq!(bytes_for_key(false, false, KeyCode::KeyC), None);
}

#[test]
fn the_mouse_is_reported_in_two_forms() {
    assert_eq!(
        mouse_report(true, 0, 3, 12, true),
        b"\x1b[<0;3;12M".to_vec()
    );
    assert_eq!(
        mouse_report(true, 0, 3, 12, false),
        b"\x1b[<0;3;12m".to_vec()
    );
    assert_eq!(
        mouse_report(false, 0, 3, 12, true),
        vec![0x1b, b'[', b'M', 32, 35, 44]
    );
    assert_eq!(
        mouse_report(false, 0, 300, 12, true),
        vec![0x1b, b'[', b'M', 32, 0, 44]
    );
}

const QUIET: TerminalModes = TerminalModes {
    mouse: false,
    sgr: false,
    alt_screen: false,
    offset: 0,
};

fn table() -> Vec<(KeyBinding, ShortcutAction)> {
    build(&Vec::new()).unwrap()
}

fn pane() -> TerminalWindow {
    let vp = Viewport { x: 0, y: 0, w: 105, h: 40 };
    let mut p = TerminalWindow::with_viewport(vp, CELL, 5);
    p.take_actions();
    let s = Snapshot {
        lines: screen(),
        cursor: None,
        images: Vec::new(),
    };
    assert!(!p.check_update(false, Some(s), 0));
    p
}

fn send(p: &mut TerminalWindow, e: PaneEvent) -> Vec<PaneAction> {
    p.process_window_event(e, &table(), QUIET, 0);
    p.take_actions()
}

fn held(control: bool, shift: bool) -> PaneEvent {
    PaneEvent::ModifiersChanged(ModifiersState {
        control,
        shift,
        alt: false,
        logo: false,
    })
}

fn press(code: KeyCode, text: Option<&str>) -> PaneEvent {
    PaneEvent::KeyPressed {
        code: Some(code),
        text: text.map(|t| t.to_owned()),
    }
}

#[test]
fn a_pane_counts_its_cells() {
    let p = pane();
    assert_eq!(p.size, SIZE);
}

#[test]
fn typed_text_is_written_and_the_screen_goes_to_its_end() {
    let mut p = pane();
    let a = send(&mut p, press(KeyCode::KeyA, Some("a")));
    assert!(matches!(&a[0], PaneAction::Write(b) if b == b"a"));
    assert!(matches!(a[1], PaneAction::ScrollToBottom));
}

#[test]
fn keys_belong_to_the_text_being_composed() {
    let mut p = pane();
    send(&mut p, PaneEvent::Preedit("か".to_owned()));
    assert!(send(&mut p, press(KeyCode::KeyA, Some("a"))).is_empty());
    let a = send(&mut p, PaneEvent::Commit("蚊".to_owned()));
    assert!(matches!(&a[0], PaneAction::Write(b) if b == "蚊".as_bytes()));
    // The Enter key that ended it comes too.
    assert!(send(&mut p, press(KeyCode::Enter, Some("\r"))).is_empty());
    p.process_window_event(press(KeyCode::Enter, Some("\r")), &table(), QUIET, 60_000_000);
    assert!(!p.take_actions().is_empty());
}

#[test]
fn a_selection_is_copied() {
    let mut p = pane();
    send(&mut p, PaneEvent::CursorMoved { x: 0, y: 0, cell: Some((0, 0)) });
    send(&mut p, PaneEvent::MouseInput { pressed: true, button: MouseButton::Left });
    send(&mut p, PaneEvent::CursorMoved { x: 60, y: 0, cell: Some((0, 3)) });
    send(&mut p, PaneEvent::MouseInput { pressed: false, button: MouseButton::Left });
    p.check_update(false, None, 0);
    assert_eq!(p.selection_range, Some(Selection::Linear { left: 0, right: 2 }));
    send(&mut p, held(true, true));
    let a = send(&mut p, press(KeyCode::KeyC, None));
    assert!(matches!(&a[0], PaneAction::Copy(t) if t == "one"), "{a:?}");
    assert!(p.selection_range.is_some());
}

#[test]
fn a_click_on_a_path_needs_the_control_key() {
    let mut p = pane();
    let s = Snapshot {
        lines: vec![line("src/a.rs  ", false), line("          ", false)],
        cursor: None,
        images: Vec::new(),
    };
    p.check_update(false, Some(s), 0);
    let a = send(&mut p, PaneEvent::CursorMoved { x: 10, y: 10, cell: Some((0, 0)) });
    assert!(matches!(a[0], PaneAction::SetCursorIcon(CursorIcon::Text)));
    send(&mut p, held(true, false));
    let a = send(&mut p, PaneEvent::CursorMoved { x: 10, y: 10, cell: Some((0, 0)) });
    assert!(matches!(a[0], PaneAction::SetCursorIcon(CursorIcon::Pointer)));
    send(&mut p, PaneEvent::MouseInput { pressed: true, button: MouseButton::Left });
    let a = send(&mut p, PaneEvent::MouseInput { pressed: false, button: MouseButton::Left });
    assert!(matches!(&a[0], PaneAction::FindFile(t) if t == "src/a.rs"));
    p.file_found("src/a.rs", "/r", None, None, true);
    assert_eq!(p.take_clicked_file(), Some("/r/src/a.rs".to_owned()));
    assert_eq!(p.take_clicked_file(), None);
}

#[test]
fn a_program_that_follows_the_mouse_gets_its_buttons() {
    let modes = TerminalModes { mouse: true, sgr: true, alt_screen: true, offset: 0 };
    let mut p = pane();
    p.process_window_event(
        PaneEvent::CursorMoved { x: 50, y: 50, cell: Some((1, 2)) },
        &table(),
        modes,
        0,
    );
    p.process_window_event(
        PaneEvent::MouseInput { pressed: true, button: MouseButton::Right },
        &table(),
        modes,
        0,
    );
    let a = p.take_actions();
    assert!(matches!(&a[0], PaneAction::Write(b) if b == b"\x1b[<2;3;2M"), "{a:?}");
    p.process_window_event(
        PaneEvent::MouseWheel { horizontal: 0, vertical: 2 },
        &table(),
        modes,
        0,
    );
    let a = p.take_actions();
    assert!(matches!(&a[0], PaneAction::Write(b) if b == b"\x1b[<64;3;2M\x1b[<64;3;2M"));
    // With the shift key down the history scrolls.
    p.process_window_event(held(false, true), &table(), modes, 0);
    p.process_window_event(
        PaneEvent::MouseWheel { horizontal: 0, vertical: 2 },
        &table(),
        modes,
        0,
    );
    let a = p.take_actions();
    assert!(matches!(a[0], PaneAction::Scroll(2)));
}

#[test]
fn the_wheel_sends_arrows_to_a_program_with_its_own_screen() {
    let modes = TerminalModes { mouse: false, sgr: false, alt_screen: true, offset: 0 };
    let mut p = pane();
    p.process_window_event(
        PaneEvent::MouseWheel { horizontal: 0, vertical: -2 },
        &table(),
        modes,
        0,
    );
    let a = p.take_actions();
    assert!(matches!(&a[0], PaneAction::Write(b) if b == b"\x1b[B\x1b[B"));
}

#[test]
fn a_font_of_another_size_changes_the_terminal() {
    let mut p = pane();
    send(&mut p, held(true, false));
    let a = send(&mut p, press(KeyCode::Equal, Some("=")));
    assert!(matches!(a[0], PaneAction::ChangeFont(1)));
    p.set_cell_size(CellSize { w: 20, h: 20 });
    let a = p.take_actions();
    assert!(matches!(
        a[0],
        PaneAction::Resize { cols: 5, rows: 2, cell_w: 20, cell_h: 20 }
    ));
}
