use std::sync::{Arc, Mutex};

use alacritty_terminal::event::{Event, EventListener, WindowSize as TermWindowSize};
use alacritty_terminal::grid::{Dimensions, Scroll};
use alacritty_terminal::term::{Config as TermConfig, Term};
use gototerm::config::Config;
use gototerm::snapshot::{grid_rows, GridCell, ScreenImages};
use gototerm::splitter::{Seg, SixelSplitter};
use gototerm::vt::{
    color_index_to_rgb, map_color, pty_reply, pty_size, shell_environment, window_size, GridColor,
    Rgb,
};
use gototerm::terminal::Color;
use vte::ansi::Processor;

#[test]
fn window_size_carries_cells_and_pixels() {
    let ws = window_size(80, 24, 9, 18);
    assert_eq!(ws.num_cols, 80);
    assert_eq!(ws.num_lines, 24);
    assert_eq!(ws.cell_width, 9);
    assert_eq!(ws.cell_height, 18);
}

fn segs_to_debug(segs: &[Seg]) -> Vec<(char, String)> {
    segs.iter()
        .map(|s| match s {
            Seg::Pass(b) => ('P', String::from_utf8_lossy(b).into_owned()),
            Seg::Sixel(b) => ('S', String::from_utf8_lossy(b).into_owned()),
        })
        .collect()
}

#[test]
fn splitter_extracts_sixel_between_text() {
    let mut sp = SixelSplitter::default();
    let segs = sp.feed(b"hi\x1bP0;1;0q#0;2;100;0;0~~~\x1b\\bye");
    assert_eq!(
        segs_to_debug(&segs),
        vec![
            ('P', "hi".to_string()),
            ('S', "#0;2;100;0;0~~~".to_string()),
            ('P', "bye".to_string()),
        ]
    );
}

#[test]
fn splitter_passes_non_sixel_dcs_through() {
    let mut sp = SixelSplitter::default();
    let segs = sp.feed(b"\x1bP$qm\x1b\\");
    assert_eq!(
        segs_to_debug(&segs),
        vec![('P', "\x1bP$qm\x1b\\".to_string())]
    );
}

#[test]
fn splitter_handles_sixel_split_across_chunks() {
    let mut sp = SixelSplitter::default();
    let mut got = Vec::new();
    got.extend(segs_to_debug(&sp.feed(b"\x1bPq#0~~")));
    got.extend(segs_to_debug(&sp.feed(b"~-?\x1b\\done")));
    assert_eq!(
        got,
        vec![('S', "#0~~~-?".to_string()), ('P', "done".to_string())]
    );
}

struct Size {
    cols: usize,
    lines: usize,
}

impl Dimensions for Size {
    fn total_lines(&self) -> usize {
        self.lines
    }
    fn screen_lines(&self) -> usize {
        self.lines
    }
    fn columns(&self) -> usize {
        self.cols
    }
}

#[derive(Clone)]
struct Proxy {
    out: Arc<Mutex<String>>,
    cols: usize,
    lines: usize,
    cell_w: u16,
    cell_h: u16,
}

impl EventListener for Proxy {
    fn send_event(&self, event: Event) {
        match event {
            Event::PtyWrite(text) => self.out.lock().unwrap().push_str(&pty_reply(&text)),
            Event::TextAreaSizeRequest(format) => {
                let ws = window_size(self.cols, self.lines, self.cell_w, self.cell_h);
                let answer = format(TermWindowSize {
                    num_lines: ws.num_lines,
                    num_cols: ws.num_cols,
                    cell_width: ws.cell_width,
                    cell_height: ws.cell_height,
                });
                self.out.lock().unwrap().push_str(&answer);
            }
            _ => {}
        }
    }
}

#[test]
fn responds_to_text_area_pixel_size_query() {
    let out = Arc::new(Mutex::new(String::new()));
    let proxy = Proxy { out: out.clone(), cols: 80, lines: 24, cell_w: 9, cell_h: 18 };
    let mut term = Term::new(TermConfig::default(), &Size { cols: 80, lines: 24 }, proxy);
    let mut processor: Processor = Processor::new();

    processor.advance(&mut term, b"\x1b[14t");
    assert_eq!(*out.lock().unwrap(), "\x1b[4;432;720t");
}

#[test]
fn the_terminal_says_that_it_shows_images() {
    let out = Arc::new(Mutex::new(String::new()));
    let proxy = Proxy { out: out.clone(), cols: 80, lines: 24, cell_w: 9, cell_h: 18 };
    let mut term = Term::new(TermConfig::default(), &Size { cols: 80, lines: 24 }, proxy);
    let mut processor: Processor = Processor::new();

    processor.advance(&mut term, b"\x1b[c");
    assert_eq!(*out.lock().unwrap(), "\x1b[?62;4c");
}

/// The first row on the screen.
fn top_line(term: &Term<Proxy>, lines: usize, cols: usize) -> String {
    let offset = term.grid().display_offset() as i32;
    let cells: Vec<GridCell> = term
        .renderable_content()
        .display_iter
        .map(|ind| GridCell {
            line: ind.point.line.0,
            col: ind.point.column.0,
            ch: ind.c,
            fg: GridColor::Foreground,
            bg: GridColor::Background,
            wide: false,
            wide_spacer: false,
            leading_spacer: false,
            dim: false,
            bold: false,
            italic: false,
            inverse: false,
            hidden: false,
        })
        .collect();
    let rows = grid_rows(&cells, offset, lines, cols);
    let text: String = rows[0].iter().map(|c| c.ch).collect();
    text.trim_end().to_owned()
}

#[test]
fn scrollback_shows_history_after_scroll() {
    let out = Arc::new(Mutex::new(String::new()));
    let proxy = Proxy { out, cols: 20, lines: 5, cell_w: 10, cell_h: 20 };
    let mut term = Term::new(TermConfig::default(), &Size { cols: 20, lines: 5 }, proxy);
    let mut processor: Processor = Processor::new();

    let mut data = Vec::new();
    for n in 0..20 {
        data.extend_from_slice(format!("L{n}\r\n").as_bytes());
    }
    processor.advance(&mut term, &data);

    let before = top_line(&term, 5, 20);
    term.scroll_display(Scroll::Delta(3));
    let after = top_line(&term, 5, 20);
    assert_ne!(before, after);

    term.scroll_display(Scroll::Delta(1000));
    assert_eq!(top_line(&term, 5, 20), "L0");
}

#[test]
fn color_index_cube_and_grayscale_are_config_independent() {
    let cfg = Config::default();
    assert_eq!(color_index_to_rgb(&cfg, 16), Rgb { r: 0, g: 0, b: 0 });
    assert_eq!(color_index_to_rgb(&cfg, 231), Rgb { r: 255, g: 255, b: 255 });
    assert_eq!(color_index_to_rgb(&cfg, 196), Rgb { r: 255, g: 0, b: 0 });
    assert_eq!(color_index_to_rgb(&cfg, 232), Rgb { r: 8, g: 8, b: 8 });
    assert_eq!(color_index_to_rgb(&cfg, 255), Rgb { r: 238, g: 238, b: 238 });
}

#[test]
fn the_sixteen_colors_come_from_the_settings() {
    let cfg = Config::default();
    assert_eq!(color_index_to_rgb(&cfg, 1), Rgb { r: 0xF7, g: 0x76, b: 0x8E });
    assert_eq!(map_color(GridColor::Indexed(1)), Color::Red);
    assert_eq!(
        map_color(GridColor::Spec(Rgb { r: 1, g: 2, b: 3 })),
        Color::Rgb { rgba: 0x010203FF }
    );
}

#[test]
fn the_size_for_the_shell_is_in_cells_and_pixels() {
    let s = pty_size(80, 24, 9, 18);
    assert_eq!((s.cols, s.rows), (80, 24));
    assert_eq!((s.pixel_width, s.pixel_height), (720, 432));
}

#[test]
fn a_shell_learns_which_terminal_it_runs_in() {
    let vars = vec![
        ("PATH".to_owned(), "/bin".to_owned()),
        ("TERM_PROGRAM".to_owned(), "kitty".to_owned()),
    ];
    assert_eq!(
        shell_environment(&vars),
        vec![
            ("PATH".to_owned(), "/bin".to_owned()),
            ("TERM".to_owned(), "xterm-256color".to_owned()),
            ("TERM_PROGRAM".to_owned(), "gototerm".to_owned()),
        ]
    );
}

#[test]
fn an_image_moves_the_cursor_past_it() {
    let mut images = ScreenImages::new();
    assert_eq!(images.place(0, 0, 20, 12, vec![0; 720], 20), 1);
    assert_eq!(images.place(0, 0, 20, 41, vec![0; 2460], 20), 3);
    assert_eq!(images.place(0, 0, 0, 12, Vec::new(), 20), 0);
    assert_eq!(images.images.len(), 2);
}
