use gototerm::highlight::Highlighter;
use gototerm::keys::KeyCode;
use gototerm::markdown::render_markdown;
use gototerm::preview::{PreviewContent, PreviewRead, ReadStatus, TextContent};
use gototerm::reader::{
    clamp_reader_scroll, diff_line_color, gutter_width, number_and_wrap, reader_key_intent,
    reader_scroll_max, ReaderHeaderAction, ReaderKeyIntent, ReaderPane, ReaderRequest,
};
use gototerm::styled::{styled_plain, wrap_line, StyledLine};
use gototerm::terminal::{CellSize, Color};
use gototerm::view::Viewport;

fn highlighter() -> Highlighter {
    Highlighter::new().unwrap()
}

fn rgba_of(color: Color) -> u32 {
    match color {
        Color::Rgb { rgba } => rgba,
        other => panic!("{other:?}"),
    }
}

fn line_text(line: &StyledLine) -> String {
    line.iter().map(|segment| segment.text.as_str()).collect()
}

fn rendered_text(src: &str) -> Vec<String> {
    let h = highlighter();
    render_markdown(src, &h).iter().map(line_text).collect()
}

#[test]
fn clamp_reader_scroll_stays_within_visible_range() {
    assert_eq!(clamp_reader_scroll(0, 20, 5), 0);
    assert_eq!(clamp_reader_scroll(12, 20, 5), 12);
    assert_eq!(clamp_reader_scroll(99, 20, 5), 15);
    assert_eq!(clamp_reader_scroll(3, 4, 10), 0);
}

#[test]
fn reader_keys_scroll_like_the_sidebar() {
    assert_eq!(reader_key_intent(KeyCode::KeyK), ReaderKeyIntent::Scroll(-1));
    assert_eq!(
        reader_key_intent(KeyCode::ArrowUp),
        ReaderKeyIntent::Scroll(-1)
    );
    assert_eq!(reader_key_intent(KeyCode::KeyJ), ReaderKeyIntent::Scroll(1));
    assert_eq!(
        reader_key_intent(KeyCode::ArrowDown),
        ReaderKeyIntent::Scroll(1)
    );
    assert_eq!(reader_key_intent(KeyCode::PageUp), ReaderKeyIntent::Page(-1));
    assert_eq!(
        reader_key_intent(KeyCode::PageDown),
        ReaderKeyIntent::Page(1)
    );
    assert_eq!(reader_key_intent(KeyCode::Home), ReaderKeyIntent::Top);
    assert_eq!(reader_key_intent(KeyCode::End), ReaderKeyIntent::Bottom);
}

#[test]
fn escape_releases_focus_and_header_keys_act() {
    assert_eq!(reader_key_intent(KeyCode::Escape), ReaderKeyIntent::Release);
    assert_eq!(
        reader_key_intent(KeyCode::KeyE),
        ReaderKeyIntent::Header(ReaderHeaderAction::Edit)
    );
    assert_eq!(
        reader_key_intent(KeyCode::KeyO),
        ReaderKeyIntent::Header(ReaderHeaderAction::OpenWithSystem)
    );
}

#[test]
fn other_keys_are_swallowed_not_sent_to_the_shell() {
    assert_eq!(reader_key_intent(KeyCode::KeyA), ReaderKeyIntent::Ignore);
    assert_eq!(reader_key_intent(KeyCode::Enter), ReaderKeyIntent::Ignore);
}

#[test]
fn pin_position_keeps_the_tail_in_view() {
    assert_eq!(reader_scroll_max(100, 20), 80);
    assert_eq!(reader_scroll_max(5, 20), 0);
}

#[test]
fn line_numbers_label_only_the_first_row_of_a_wrapped_line() {
    let source = vec![
        styled_plain("abcdef".to_owned(), Color::White),
        styled_plain("x".to_owned(), Color::White),
    ];
    let out = number_and_wrap(&source, 6, true);

    let texts: Vec<String> = out.iter().map(line_text).collect();
    assert_eq!(texts, vec![" 1 abc", "   def", " 2 x"]);
}

#[test]
fn line_numbers_are_dropped_for_tail_only_files() {
    let source = vec![styled_plain("abc".to_owned(), Color::White)];
    let out = number_and_wrap(&source, 6, false);

    assert_eq!(line_text(&out[0]), " abc");
}

#[test]
fn gutter_grows_with_the_line_count() {
    assert_eq!(gutter_width(9), 3);
    assert_eq!(gutter_width(120), 4);
    assert_eq!(gutter_width(0), 3);
}

#[test]
fn markdown_separates_blocks_with_a_blank_line() {
    let lines = rendered_text("# Title\npara one\n\npara two");

    assert_eq!(lines, vec!["■ Title", "", "para one", "", "para two"]);
}

#[test]
fn markdown_table_aligns_columns_and_rules_the_head() {
    let lines = rendered_text("| key | note |\n|---|---|\n| a | long value |\n| bb | x |");

    assert_eq!(
        lines,
        vec![
            "key │ note",
            "────┼───────────",
            "a   │ long value",
            "bb  │ x",
        ]
    );
}

#[test]
fn markdown_headings_use_a_mark_per_level() {
    let lines = rendered_text("# one\n\n## two\n\n### three");

    assert_eq!(
        lines.iter().filter(|line| !line.is_empty()).collect::<Vec<_>>(),
        vec!["■ one", "◆ two", "▸ three"]
    );
}

#[test]
fn markdown_list_items_stay_together() {
    let lines = rendered_text("- one\n- two");

    assert_eq!(lines, vec!["• one", "• two"]);
}

#[test]
fn markdown_code_fence_is_highlighted_by_language() {
    let h = highlighter();
    let lines = render_markdown("```rust\nlet x = 1; // hi\n```", &h);
    let code = lines.last().unwrap();

    let colors: Vec<u32> = code.iter().map(|segment| rgba_of(segment.style.fg)).collect();
    assert!(colors.windows(2).any(|pair| pair[0] != pair[1]), "{code:?}");
}

#[test]
fn markdown_code_fence_without_language_stays_plain() {
    let h = highlighter();
    let lines = render_markdown("```\nsome text\n```", &h);
    let code = lines.last().unwrap();

    assert_eq!(line_text(code), "some text");
    assert!(matches!(code[0].style.fg, Color::Green));
}

#[test]
fn wrap_line_wraps_ascii() {
    assert_eq!(wrap_line("abcdef", 3), vec!["abc", "def"]);
}

#[test]
fn wrap_line_wraps_mixed_width_text() {
    assert_eq!(wrap_line("ab日本cd", 4), vec!["ab日", "本cd"]);
}

#[test]
fn wrap_line_keeps_exact_boundary() {
    assert_eq!(wrap_line("abcd", 4), vec!["abcd"]);
}

#[test]
fn wrap_line_preserves_empty_line() {
    assert_eq!(wrap_line("", 4), vec![""]);
}

#[test]
fn diff_line_color_classifies_unified_diff_lines() {
    assert!(matches!(diff_line_color("@@ -1,3 +1,4 @@"), Color::Cyan));
    assert!(matches!(diff_line_color("+added"), Color::Green));
    assert!(matches!(diff_line_color("-removed"), Color::Red));
    assert!(matches!(diff_line_color("+++ b/x"), Color::BrightBlack));
    assert!(matches!(diff_line_color("--- a/x"), Color::BrightBlack));
    assert!(matches!(
        diff_line_color("diff --git a/x b/x"),
        Color::BrightBlack
    ));
    assert!(matches!(diff_line_color(" context"), Color::White));
}

#[test]
fn render_markdown_formats_representative_blocks() {
    let lines = rendered_text(
        "# Title\n\nnormal `code`\n\n- item\n\n> quote\n\n```rust\nlet x = 1;\n```\n\n---\n\n![alt](image.png)",
    );

    assert!(lines.contains(&"■ Title".to_owned()));
    assert!(lines.contains(&"normal code".to_owned()));
    assert!(lines.contains(&"• item".to_owned()));
    assert!(lines.contains(&"│ quote".to_owned()));
    assert!(lines.contains(&"let x = 1;".to_owned()));
    assert!(lines.contains(&" ────".to_owned()));
    assert!(lines.contains(&"[画像: alt]".to_owned()));
}

fn row_text(pane: &ReaderPane, row: usize) -> String {
    let text: String = pane.frame.lines[row]
        .iter()
        .iter()
        .filter(|c| c.width > 0)
        .map(|c| c.ch)
        .collect();
    text.trim_end().to_owned()
}

fn pane_with_lines(n: usize, h: &Highlighter) -> ReaderPane {
    let vp = Viewport { x: 0, y: 0, w: 400, h: 200 };
    let mut pane = ReaderPane::new(vp, CellSize { w: 10, h: 20 }, "vi", h);
    let q = pane.follow_target("/r/a.txt", Some("/r"), h, 0).unwrap();
    assert_eq!(q.display_path, "a.txt");
    let lines: Vec<String> = (0..n).map(|i| format!("line {i}")).collect();
    pane.poll(
        ReadStatus::Done(PreviewRead {
            target: "a.txt".to_owned(),
            content: PreviewContent::Text(TextContent {
                lines,
                highlighted: None,
                truncated: true,
            }),
        }),
        h,
        1,
    );
    pane
}

#[test]
fn a_pane_that_follows_shows_the_end() {
    let h = highlighter();
    let pane = pane_with_lines(50, &h);
    assert_eq!(pane.frame.lines.len(), 10);
    assert_eq!(row_text(&pane, 9), " line 49");
    assert!(pane.is_following());
}

#[test]
fn scrolling_pins_the_pane() {
    let h = highlighter();
    let mut pane = pane_with_lines(50, &h);
    pane.scroll_by(-1, &h);
    assert!(!pane.is_following());
    let last = pane.frame.lines.len() - 1;
    assert_eq!(row_text(&pane, last), " line 48");
}

#[test]
fn the_header_offers_the_editor() {
    let h = highlighter();
    let mut pane = pane_with_lines(3, &h);
    assert_eq!(row_text(&pane, 1), " [編集: vi]");
    match pane.on_click(5, 25, &h) {
        Some(ReaderRequest::EditFile(p)) => assert_eq!(p, "/r/a.txt"),
        other => panic!("{other:?}"),
    }
    assert!(pane.on_click(5, 900, &h).is_none());
}

#[test]
fn a_missing_editor_is_told_in_the_pane() {
    let h = highlighter();
    let mut pane = pane_with_lines(3, &h);
    pane.show_missing_editor("vi", &h);
    assert!(row_text(&pane, 3).starts_with(" （編集コマンドが見つかりません: vi"));
}

#[test]
fn sent_files_stay_shown() {
    let h = highlighter();
    let mut pane = pane_with_lines(3, &h);
    pane.show_remote_content("b.txt", b"hello".to_vec(), &h);
    assert!(!pane.is_following());
    assert!(row_text(&pane, 0).starts_with(" b.txt"));
}

#[test]
fn a_pane_is_to_be_drawn_only_when_its_frame_is_new() {
    let h = highlighter();
    let mut pane = pane_with_lines(50, &h);
    pane.scroll_by(-1, &h);
    pane.drawn();
    assert!(!pane.needs_redraw());
    pane.scroll_by(0, &h);
    pane.set_focused(false);
    pane.poll(ReadStatus::Running, &h, 2);
    assert!(!pane.needs_redraw());
    pane.scroll_by(-1, &h);
    assert!(pane.needs_redraw());
    pane.drawn();
    pane.set_focused(true);
    assert!(pane.needs_redraw());
}
