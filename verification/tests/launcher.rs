use gototerm::bookmarks::Bookmarks;
use gototerm::config::AgentDef;
use gototerm::keys::KeyCode;
use gototerm::launcher::{
    filter_entries, opens_externally, read_entries, shell_running, Entry, Launcher,
    LauncherOutcome, LauncherState, LauncherStep, Mode, RawEntry,
};
use gototerm::terminal::{CellSize, Color};
use gototerm::view::Viewport;

fn raw(name: &str, is_dir: bool) -> RawEntry {
    RawEntry {
        name: Some(name.to_owned()),
        is_dir,
    }
}

/// The entries of the directories that the tests know.
fn raw_entries(dir: &str) -> Vec<RawEntry> {
    match dir {
        "/base" => vec![
            raw("readme.txt", false),
            raw("banana", true),
            raw(".hidden", true),
            raw("apple", true),
            raw("shot.png", false),
        ],
        "/base/apple" => vec![raw("core", true)],
        _ => Vec::new(),
    }
}

fn agents() -> Vec<AgentDef> {
    vec![AgentDef {
        name: "Tool".to_owned(),
        command: vec!["tool".to_owned()],
    }]
}

/// Does what the state asks for until it comes to something.
fn run(state: &mut LauncherState, step: LauncherStep) -> LauncherOutcome {
    let mut step = step;
    loop {
        step = match step {
            LauncherStep::Done(outcome) => return outcome,
            LauncherStep::ReadDir { dir, select } => {
                let entries = read_entries(&raw_entries(&dir), state.show_hidden, true);
                state.reload(entries, Some(dir), select);
                return LauncherOutcome::Pending;
            }
            LauncherStep::Resolve { path, purpose } => state.resolved(purpose, Some(path)),
            LauncherStep::CheckFile { file, name, external } => {
                return state.file_checked(file, &name, external, true);
            }
        };
    }
}

fn key(state: &mut LauncherState, code: KeyCode, text: Option<&str>) -> LauncherOutcome {
    let step = state.handle_key_parts(code, text, &agents());
    run(state, step)
}

fn state_with(recent: Vec<String>) -> LauncherState {
    let mut state = LauncherState::new(recent, "/base".to_owned(), Bookmarks::empty_for_test());
    let entries = read_entries(&raw_entries("/base"), false, true);
    state.reload(entries, Some("/base".to_owned()), None);
    state
}

fn select(state: &mut LauncherState, name: &str) {
    state.selected = state.entries.iter().position(|e| e.name == name).unwrap();
}

#[test]
fn opens_externally_by_extension() {
    assert!(opens_externally("photo.PNG"));
    assert!(opens_externally("report.pdf"));
    assert!(opens_externally("archive.tar.gz"));
    assert!(!opens_externally("README.md"));
    assert!(!opens_externally("main.rs"));
    assert!(!opens_externally("diagram.svg"));
    assert!(!opens_externally("Makefile"));
    assert!(!opens_externally(".gitignore"));
}

#[test]
fn filter_entries_matches_case_insensitive_substrings_and_excludes_parent() {
    let entries = vec![
        Entry {
            name: "..".to_owned(),
            is_dir: true,
        },
        Entry {
            name: "Apple".to_owned(),
            is_dir: true,
        },
        Entry {
            name: "banana".to_owned(),
            is_dir: true,
        },
        Entry {
            name: "readme.txt".to_owned(),
            is_dir: false,
        },
    ];

    assert_eq!(filter_entries(&entries, "app"), vec![1]);
    assert_eq!(filter_entries(&entries, "ANA"), vec![2]);
    assert_eq!(filter_entries(&entries, "me."), vec![3]);
    assert_eq!(filter_entries(&entries, ""), vec![1, 2, 3]);
}

#[test]
fn enter_on_text_file_opens_editor() {
    let mut state = state_with(Vec::new());
    select(&mut state, "readme.txt");

    let step = state.choose_target();
    match run(&mut state, step) {
        LauncherOutcome::OpenFile { file, dir } => {
            assert_eq!(file, "/base/readme.txt");
            assert_eq!(dir, "/base");
        }
        other => panic!("{other:?}"),
    }
}

#[test]
fn enter_on_image_file_opens_external() {
    let mut state = state_with(Vec::new());
    select(&mut state, "shot.png");

    let step = state.choose_target();
    match run(&mut state, step) {
        LauncherOutcome::OpenExternal { file } => assert_eq!(file, "/base/shot.png"),
        other => panic!("{other:?}"),
    }
}

#[test]
fn enter_on_dir_still_enters_agent_mode() {
    let mut state = state_with(Vec::new());
    select(&mut state, "apple");

    let step = state.choose_target();
    assert!(matches!(run(&mut state, step), LauncherOutcome::Pending));
    assert_eq!(state.mode, Mode::Agent);
}

#[test]
fn o_key_forces_external_for_any_file() {
    let mut state = state_with(Vec::new());
    select(&mut state, "readme.txt");

    let step = state.open_selected_external();
    match run(&mut state, step) {
        LauncherOutcome::OpenExternal { file } => assert_eq!(file, "/base/readme.txt"),
        other => panic!("{other:?}"),
    }

    select(&mut state, "apple");
    let step = state.open_selected_external();
    assert!(matches!(run(&mut state, step), LauncherOutcome::Pending));
}

#[test]
fn read_entries_dirs_first_and_hides_dotfiles() {
    let entries = read_entries(&raw_entries("/base"), false, true);
    assert_eq!(entries[0].name, "..");
    assert_eq!(entries[1].name, "apple");
    assert!(entries[1].is_dir);
    assert_eq!(entries[2].name, "banana");
    assert_eq!(entries[3].name, "readme.txt");
    assert!(!entries.iter().any(|e| e.name == ".hidden"));

    let with_hidden = read_entries(&raw_entries("/base"), true, true);
    assert!(with_hidden.iter().any(|e| e.name == ".hidden"));
}

#[test]
fn descend_and_ascend_navigate_tree() {
    let mut state = state_with(Vec::new());

    select(&mut state, "apple");
    let step = state.descend();
    run(&mut state, step);
    assert_eq!(state.dir, "/base/apple");
    assert!(state.entries.iter().any(|e| e.name == "core"));

    let step = state.ascend();
    run(&mut state, step);
    assert_eq!(state.dir, "/base");
    assert_eq!(state.entries[state.selected].name, "apple");
}

#[test]
fn m_marks_the_folder_enter_would_open() {
    let mut state = state_with(Vec::new());
    select(&mut state, "apple");

    key(&mut state, KeyCode::KeyM, Some("m"));

    assert!(state.bookmarks.contains("/base/apple"));
    let entry = Entry {
        name: "apple".to_owned(),
        is_dir: true,
    };
    assert_eq!(state.bookmark_mark(&entry), "★");

    key(&mut state, KeyCode::KeyM, Some("m"));
    assert!(!state.bookmarks.contains("/base/apple"));
    assert_eq!(state.bookmark_mark(&entry), " ");
}

#[test]
fn m_on_parent_row_marks_the_current_dir() {
    let mut state = state_with(Vec::new());
    select(&mut state, "apple");
    let step = state.descend();
    run(&mut state, step);

    key(&mut state, KeyCode::KeyM, Some("m"));

    assert!(state.bookmarks.contains("/base/apple"));
}

#[test]
fn bookmark_list_opens_with_enter_and_jumps_with_l() {
    let mut state = state_with(Vec::new());
    state.bookmarks.toggle("/base/banana");
    state.mode = Mode::Bookmarks;
    state.bookmark_selected = 0;

    key(&mut state, KeyCode::KeyL, Some("l"));
    assert_eq!(state.mode, Mode::Browse);
    assert_eq!(state.dir, "/base/banana");

    state.mode = Mode::Bookmarks;
    key(&mut state, KeyCode::Enter, None);
    assert_eq!(state.mode, Mode::Agent);
    assert_eq!(state.chosen_dir, Some("/base/banana".to_owned()));
}

#[test]
fn removing_the_last_bookmark_returns_to_browse() {
    let mut state = state_with(Vec::new());
    state.bookmarks.toggle("/base/banana");
    state.mode = Mode::Bookmarks;

    key(&mut state, KeyCode::KeyD, Some("d"));

    assert!(state.bookmarks.entries().is_empty());
    assert_eq!(state.mode, Mode::Browse);
}

#[test]
fn b_does_nothing_when_there_are_no_bookmarks() {
    let mut state = state_with(Vec::new());

    key(&mut state, KeyCode::KeyB, Some("b"));

    assert_eq!(state.mode, Mode::Browse);
}

#[test]
fn browse_enter_moves_to_agent_mode_with_chosen_directory() {
    let mut state = state_with(Vec::new());
    select(&mut state, "banana");

    let outcome = key(&mut state, KeyCode::Enter, None);
    assert!(matches!(outcome, LauncherOutcome::Pending));
    assert_eq!(state.mode, Mode::Agent);
    assert_eq!(state.chosen_dir, Some("/base/banana".to_owned()));
    assert_eq!(state.agent_selected, 0);
}

#[test]
fn enter_on_parent_row_opens_the_current_dir_not_its_parent() {
    let mut state = state_with(Vec::new());
    select(&mut state, "apple");
    let step = state.descend();
    run(&mut state, step);
    assert_eq!(state.entries[state.selected].name, "..");

    let outcome = key(&mut state, KeyCode::Enter, None);
    assert!(matches!(outcome, LauncherOutcome::Pending));
    assert_eq!(state.chosen_dir, Some("/base/apple".to_owned()));
}

#[test]
fn enter_on_file_opens_it_not_agent_mode() {
    let mut state = state_with(Vec::new());
    select(&mut state, "readme.txt");

    match key(&mut state, KeyCode::Enter, None) {
        LauncherOutcome::OpenFile { file, dir } => {
            assert_eq!(file, "/base/readme.txt");
            assert_eq!(dir, "/base");
        }
        other => panic!("{other:?}"),
    }
    assert_eq!(state.mode, Mode::Browse);
}

#[test]
fn escape_cancels() {
    let mut state = state_with(Vec::new());
    assert!(matches!(
        key(&mut state, KeyCode::Escape, None),
        LauncherOutcome::Cancelled
    ));
}

#[test]
fn recent_mode_toggles_and_chooses_agent_dir() {
    let mut state = state_with(vec!["/base/banana".to_owned()]);
    key(&mut state, KeyCode::KeyR, Some("r"));
    assert_eq!(state.mode, Mode::Recent);
    let outcome = key(&mut state, KeyCode::Enter, None);
    assert!(matches!(outcome, LauncherOutcome::Pending));
    assert_eq!(state.mode, Mode::Agent);
    assert_eq!(state.chosen_dir, Some("/base/banana".to_owned()));
}

#[test]
fn agent_first_entry_enters_shell_with_no_command() {
    let mut state = state_with(Vec::new());
    state.enter_agent_mode("/base".to_owned());

    match key(&mut state, KeyCode::Enter, None) {
        LauncherOutcome::OpenIn { dir, command } => {
            assert_eq!(dir, "/base");
            assert!(command.is_none());
        }
        other => panic!("{other:?}"),
    }
}

#[test]
fn agent_second_entry_enters_the_first_tool() {
    let mut state = state_with(Vec::new());
    state.enter_agent_mode("/base".to_owned());
    key(&mut state, KeyCode::ArrowDown, None);

    match key(&mut state, KeyCode::Enter, None) {
        LauncherOutcome::OpenIn { dir, command } => {
            assert_eq!(dir, "/base");
            assert_eq!(command, Some(vec!["tool".to_owned()]));
        }
        other => panic!("{other:?}"),
    }
}

#[test]
fn agent_escape_returns_to_browse() {
    let mut state = state_with(Vec::new());
    state.enter_agent_mode("/base".to_owned());

    let outcome = key(&mut state, KeyCode::Escape, None);
    assert!(matches!(outcome, LauncherOutcome::Pending));
    assert_eq!(state.mode, Mode::Browse);
    assert_eq!(state.chosen_dir, None);
    assert_eq!(state.agent_selected, 0);
}

#[test]
fn a_tool_leaves_its_place_to_the_shell() {
    let shell = vec!["/bin/sh".to_owned(), "-l".to_owned()];
    assert_eq!(shell_running(&shell, &None), shell);
    assert_eq!(
        shell_running(&shell, &Some(vec!["tool".to_owned(), "-x".to_owned()])),
        vec![
            "/bin/sh".to_owned(),
            "-c".to_owned(),
            "tool -x; exec /bin/sh".to_owned()
        ]
    );
}

#[test]
fn the_preview_leaves_out_the_parent() {
    let state = state_with(Vec::new());
    let names: Vec<String> = state
        .preview_entries(&raw_entries("/base"))
        .into_iter()
        .map(|e| e.name)
        .collect();
    assert_eq!(names, vec!["apple", "banana", "readme.txt", "shot.png"]);
}

#[test]
fn a_new_launcher_has_an_empty_frame() {
    let vp = Viewport { x: 0, y: 0, w: 400, h: 200 };
    let cell = CellSize { w: 10, h: 20 };
    let launcher = Launcher::new(vp, cell, state_with(Vec::new()), Color::Black);
    assert!(launcher.needs_redraw());
    assert!(launcher.frame.lines.is_empty());
    assert!(launcher.frame.images.is_empty());
    assert_eq!(launcher.frame.bg_color, Color::Background);
    assert!(!launcher.frame.skip_default_bg);
}
