use gototerm::highlight::{
    highlight_code_block, highlight_source, tokyo_night, Highlighter, MAX_LINES,
};
use gototerm::terminal::Color;

fn highlighter() -> Highlighter {
    Highlighter::new().unwrap()
}

fn rgba_of(color: &Color) -> u32 {
    match color {
        Color::Rgb { rgba } => *rgba,
        other => panic!("{other:?}"),
    }
}

const COMMENT: u32 = 0x565F_89FF;
const STRING: u32 = 0x9ECE_6AFF;

#[test]
fn theme_selectors_parse() {
    assert_eq!(tokyo_night().len(), 18);
    assert!(Highlighter::new().is_some());
}

#[test]
fn highlights_rust_comments_and_strings_differently() {
    let h = highlighter();
    let lines = highlight_source(&h, "// note\nlet s = \"hi\";\n", "a.rs").unwrap();

    assert_eq!(rgba_of(&lines[0][0].0), COMMENT);

    let has_string = lines[1]
        .iter()
        .any(|(color, text)| rgba_of(color) == STRING && text.contains("hi"));
    assert!(has_string, "{:?}", lines[1]);
}

#[test]
fn keeps_every_source_line() {
    let h = highlighter();
    let lines = highlight_source(&h, "let a = 1;\n\nlet b = 2;\n", "a.rs").unwrap();
    assert_eq!(lines.len(), 3);
    assert!(lines[1].is_empty());
}

#[test]
fn highlighting_keeps_the_text() {
    let h = highlighter();
    let lines = highlight_source(&h, "fn main() { let x = 1; }\n", "a.rs").unwrap();
    let text: String = lines[0].iter().map(|(_, t)| t.as_str()).collect();
    assert_eq!(text, "fn main() { let x = 1; }");
}

#[test]
fn unknown_extension_falls_back_to_plain() {
    let h = highlighter();
    assert!(highlight_source(&h, "hello", "a.unknownext").is_none());
}

#[test]
fn code_block_uses_the_fence_language() {
    let h = highlighter();
    assert!(highlight_code_block(&h, "let x = 1;", "rust").is_some());
    assert!(highlight_code_block(&h, "let x = 1;", "").is_none());
    assert!(highlight_code_block(&h, "x", "not-a-language").is_none());
}

#[test]
fn very_long_files_are_not_highlighted() {
    let h = highlighter();
    let long = "let x = 1;\n".repeat(MAX_LINES + 1);
    assert!(highlight_source(&h, &long, "a.rs").is_none());
}

#[test]
fn line_ends_are_left_out_and_no_part_is_empty() {
    let h = highlighter();
    let source = "// one\r\n\r\nlet s = \"two\";\n";
    let lines = highlight_source(&h, source, "a.rs").unwrap();
    let texts: Vec<String> = lines
        .iter()
        .map(|l| l.iter().map(|(_, t)| t.as_str()).collect())
        .collect();
    assert_eq!(texts, source.lines().collect::<Vec<_>>());
    assert!(lines.iter().flatten().all(|(_, t)| !t.is_empty()));
    let block = highlight_code_block(&h, "let a = 1;\nlet b = 2;", "rust").unwrap();
    let second: String = block[1].iter().map(|(_, t)| t.as_str()).collect();
    assert_eq!(second, "let b = 2;");
}
