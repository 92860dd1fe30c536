use gototerm::config::{find_config_file, resolve_editor, AgentDef, Config};
use gototerm::display::{best_config, config_score, rgba_channels};
use gototerm::file_style::icon_and_color;
use gototerm::font::{FontSet, FontStyle};
use gototerm::keys::{key_name, parse_key_name, KeyCode};
use gototerm::path::{extension_of, file_name_of, join, parent_of, same_path, strip_prefix};
use gototerm::popup::{column_cells, text_line};
use gototerm::snapshot::{convert_cursor, CursorShape, GridCursor};
use gototerm::terminal::{Cell, Color, CursorStyle, GraphicAttribute, Line};
use gototerm::width::{abbreviate_start, char_columns, display_width};

fn text_of(line: &Line) -> String {
    line.iter().iter().filter(|c| c.width > 0).map(|c| c.ch).collect()
}

#[test]
fn a_wide_character_takes_two_cells() {
    let mut l = Line::new(4);
    l.put(1, Cell::head('日', 2, GraphicAttribute::default()));
    assert_eq!(l.get(1).unwrap().ch, '日');
    assert_eq!(l.get(2).unwrap().ch, '日');
    assert_eq!(l.get_head_pos(2), 1);
    assert!(l.get(4).is_none());
}

#[test]
fn writing_over_half_a_character_removes_it() {
    let mut l = Line::new(4);
    l.put(1, Cell::head('日', 2, GraphicAttribute::default()));
    l.put(2, Cell::new_ascii('x'));
    assert_eq!(l.get(2).unwrap().ch, 'x');
    assert_ne!(l.get(1).unwrap().ch, '日');
}

#[test]
fn lines_grow_and_shrink() {
    let mut l = Line::from_cells("abc".chars().map(Cell::new_ascii).collect(), false);
    l.resize(5);
    assert_eq!(l.columns(), 5);
    assert!(text_of(&l).starts_with("abc"));
    l.resize(2);
    assert_eq!(text_of(&l), "ab");
}

#[test]
fn cells_move_within_a_line() {
    let mut l = Line::from_cells("abcde".chars().map(Cell::new_ascii).collect(), false);
    l.copy_within(0, 3, 2);
    assert_eq!(text_of(&l), "ababc");
    l.erase(1, 3);
    assert_eq!(l.get(0).unwrap().ch, 'a');
    assert_eq!(l.get(3).unwrap().ch, 'b');
}

#[test]
fn characters_have_widths() {
    assert_eq!(char_columns('a'), 1);
    assert_eq!(char_columns('日'), 2);
    assert_eq!(char_columns('\u{7}'), 0);
    assert_eq!(display_width("a日b"), 4);
}

#[test]
fn long_paths_lose_their_start() {
    assert_eq!(abbreviate_start("src/main.rs", 20), "src/main.rs");
    let short = abbreviate_start("src/deep/down/main.rs", 10);
    assert!(display_width(&short) <= 10);
    assert!(short.ends_with("main.rs"));
}

#[test]
fn columns_are_cut_and_filled() {
    let cells = column_cells("日本語", Color::White, Color::Black, 5);
    assert_eq!(cells.len(), 5);
    let l = text_line(6, "ab", Color::White);
    assert_eq!(l.columns(), 6);
    assert!(text_of(&l).starts_with("ab"));
}

#[test]
fn paths_are_read_by_their_components() {
    assert!(same_path("/a//b/", "/a/b"));
    assert_eq!(parent_of("/a/b"), Some("/a".to_owned()));
    assert_eq!(parent_of("/"), None);
    assert_eq!(file_name_of("/a/b.tar.gz"), Some("b.tar.gz".to_owned()));
    assert_eq!(extension_of("/a/b.tar.gz"), Some("gz".to_owned()));
    assert_eq!(extension_of("/a/.hidden"), None);
    assert_eq!(join("/a", "b"), "/a/b");
    assert_eq!(join("/a", "/b"), "/b");
    assert_eq!(strip_prefix("/a/b/c", "/a"), Some("b/c".to_owned()));
    assert_eq!(strip_prefix("/ab", "/a"), None);
}

#[test]
fn keys_have_names() {
    assert_eq!(parse_key_name("pageup"), None);
    assert_eq!(parse_key_name("left"), Some(KeyCode::ArrowLeft));
    assert_eq!(parse_key_name("="), Some(KeyCode::Equal));
    assert_eq!(key_name(KeyCode::F12), "F12");
}

#[test]
fn the_editor_is_chosen_in_order() {
    let none: Vec<String> = Vec::new();
    assert_eq!(
        resolve_editor(&vec!["code".to_owned(), "-w".to_owned()], Some("vi"), "nvim"),
        vec!["code".to_owned(), "-w".to_owned()]
    );
    assert_eq!(resolve_editor(&none, Some("vi -R"), "nvim")[0], "vi");
    assert_eq!(resolve_editor(&none, None, "nvim"), vec!["nvim".to_owned()]);
}

#[test]
fn the_settings_have_defaults() {
    let c = Config::with_shell(
        Some("/bin/zsh".to_owned()),
        Some(AgentDef {
            name: "Tool".to_owned(),
            command: vec!["tool".to_owned()],
        }),
    );
    assert_eq!(c.shell, vec!["/bin/zsh".to_owned()]);
    assert_eq!(c.color_background, 0x1A1B26B0);
    assert_eq!(c.color_selection, 0x283457FF);
    assert_eq!(c.launcher_agents.len(), 2);
    assert_eq!(c.launcher_agents[0].name, "Tool");
    assert_eq!(Config::default().shell, vec!["/bin/sh".to_owned()]);
    assert_eq!(
        find_config_file(None, Some("/home/u".to_owned())),
        Some("/home/u/.config/gototerm/config.toml".to_owned())
    );
}

#[test]
fn folders_have_their_own_icon() {
    assert_ne!(icon_and_color("src", true), icon_and_color("src", false));
}

#[test]
fn the_first_of_the_best_surfaces_is_taken() {
    assert_eq!(config_score(true, 8), 3);
    assert_eq!(config_score(false, 8), 1);
    assert_eq!(
        best_config(&vec![(false, 8), (true, 16), (true, 8), (true, 8)]),
        Some(2)
    );
    assert_eq!(best_config(&Vec::new()), None);
    assert_eq!(rgba_channels(0x1A1B26B0), (0x1A, 0x1B, 0x26, 0xB0));
}

#[test]
fn a_character_comes_from_the_first_font_that_has_it() {
    let mut set: FontSet<Vec<char>> = FontSet::new(16);
    set.add(FontStyle::Regular, vec!['a']);
    set.add(FontStyle::Regular, vec!['a', '日']);
    let place = |ch: char| {
        move |font: &Vec<char>| {
            if font.contains(&ch) {
                Some(font.len())
            } else {
                None
            }
        }
    };
    assert_eq!(set.find(FontStyle::Regular, place('a')), Some(1));
    assert_eq!(set.find(FontStyle::Regular, place('日')), Some(2));
    assert_eq!(set.find(FontStyle::Regular, place('x')), None);
    assert_eq!(set.find(FontStyle::Bold, place('a')), None);
    set.set_fontsize(20);
    assert_eq!(set.fontsize(), 20);
    assert_eq!(FontStyle::all().len(), 3);
}

#[test]
fn a_cursor_off_the_screen_is_not_drawn() {
    let c = GridCursor { line: 2, col: 3, shape: CursorShape::Beam };
    let drawn = convert_cursor(c, 1, 5).unwrap();
    assert_eq!((drawn.row, drawn.col), (3, 3));
    assert_eq!(drawn.style, CursorStyle::Bar);
    assert!(convert_cursor(c, 9, 5).is_none());
    let hidden = GridCursor { line: 2, col: 3, shape: CursorShape::Hidden };
    assert!(convert_cursor(hidden, 0, 5).is_none());
}
