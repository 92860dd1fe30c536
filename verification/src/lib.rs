//! The logic of a terminal workbench: what is shown, what a key or a click
//! does, and how the streams a shell writes are taken apart.

pub mod arrange;
pub mod bookmarks;
pub mod clipboard;
pub mod config;
pub mod copy_laws;
pub mod display;
pub mod draw_laws;
pub mod entries;
pub mod file_style;
pub mod font;
pub mod gt;
pub mod highlight;
pub mod input;
pub mod keybindings;
pub mod keys;
pub mod launcher;
pub mod launcher_laws;
pub mod layout;
pub mod links;
pub mod markdown;
pub mod markdown_laws;
pub mod multiplexer;
pub mod osc;
pub mod pane_laws;
pub mod path;
pub mod pathlist;
pub mod popup;
pub mod preview;
pub mod promises;
pub mod reader;
pub mod reader_laws;
pub mod recent;
pub mod report_laws;
pub mod routing;
pub mod rows;
pub mod screen_laws;
pub mod selection;
pub mod session_review;
pub mod sidebar;
pub mod sidebar_key_laws;
pub mod sidebar_laws;
pub mod sidebar_rows;
pub mod snapshot;
pub mod splitter;
pub mod styled;
pub mod terminal;
pub mod text;
pub mod text_laws;
pub mod timeline;
pub mod typing_laws;
pub mod view;
pub mod vt;
pub mod watcher;
pub mod width;
pub mod window;
pub mod window_laws;
pub mod workspace;
