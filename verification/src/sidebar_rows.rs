//! The rows of the sidebar.

use crate::file_style::{icon_and_color, look, sel_bg, SEL_FG};
use crate::path::{join, joined, parent, parent_of};
use crate::reader::{clamp_reader_scroll, scroll_limit, separator_text};
use crate::rows::{lesser, one_if, row_views, sat_sub, seg_cells, seg_views, text_cells, RowSink};
use crate::sidebar::{
    change_root, entry_act, entry_slots, same_act, selected_act, Act, RowAction, Side, Sidebar,
    SidebarMode, LISTED_CHANGES,
};
use crate::terminal::{Cell, Color, GraphicAttribute, Line};
use crate::text::{decimal, decimal_text};
use crate::view::{cells_in, count_cells_in};
use crate::watcher::ChangeKind;
use crate::width::{abbreviate_start, abbreviated, counted, display_width, width_sum};
use vstd::prelude::*;
use vstd::string::*;

verus! {

/// What was seen of a tool is shown this long, in nanoseconds.
pub const ACTIVITY_SHOWN: u64 = 60_000_000_000;

/// The columns of the sidebar.
pub open spec fn columns(m: Side) -> nat {
    cells_in(m.viewport.w, m.cell.w)
}

/// The rows of the sidebar.
pub open spec fn row_count(m: Side) -> nat {
    cells_in(m.viewport.h, m.cell.h)
}

/// A row with text in one colour that does nothing.
pub open spec fn plain_row(m: Side, text: Seq<char>, fg: Color) -> (Seq<Cell>, Option<Act>) {
    (text_cells(text, fg, columns(m)), None)
}

/// A row with coloured texts.
pub open spec fn seg_row(m: Side, segs: Seq<(Seq<char>, Color)>, act: Option<Act>) -> (
    Seq<Cell>,
    Option<Act>,
) {
    (seg_cells(segs, columns(m)), act)
}

/// The label of a kind of change.
pub open spec fn change_look(kind: ChangeKind) -> (Seq<char>, Color) {
    match kind {
        ChangeKind::New => ("NEW"@, Color::Green),
        ChangeKind::Modified => ("MOD"@, Color::Yellow),
        ChangeKind::Deleted => ("DEL"@, Color::Red),
    }
}

/// The label of a kind of change.
pub fn change_label(kind: ChangeKind) -> (r: (&'static str, Color))
    ensures
        (r.0@, r.1) == change_look(kind),
{
    match kind {
        ChangeKind::New => ("NEW", Color::Green),
        ChangeKind::Modified => ("MOD", Color::Yellow),
        ChangeKind::Deleted => ("DEL", Color::Red),
    }
}

/// The tool's name in brackets, if it is known.
pub open spec fn tool_suffix(tool: Option<Seq<char>>) -> Seq<char> {
    match tool {
        Some(t) => " ("@ + t + ")"@,
        None => Seq::empty(),
    }
}

/// The name of the tool at work, with room around it.
pub open spec fn agent_text(m: Side) -> Seq<char> {
    " "@ + m.agent + "  "@
}

/// The row that tells what was seen last of a tool, for a while.
pub open spec fn activity_rows(m: Side, now: u64) -> Seq<(Seq<Cell>, Option<Act>)> {
    match m.activity {
        None => Seq::empty(),
        Some(a) => if now - a.at > ACTIVITY_SHOWN {
            Seq::empty()
        } else {
            let label = change_look(a.kind).0;
            let suffix = tool_suffix(a.tool);
            let taken = counted(width_sum(" ●"@ + agent_text(m))) + counted(width_sum(label)) + 1 + counted(
                width_sum(suffix),
            );
            seq![
                seg_row(
                    m,
                    seq![
                        (" "@, Color::White),
                        ("●"@, Color::Green),
                        (agent_text(m), Color::White),
                        (label, Color::BrightWhite),
                        (" "@, Color::White),
                        (abbreviated(a.path, sat_sub(columns(m), taken)), Color::White),
                        (suffix, Color::BrightBlack),
                    ],
                    None,
                ),
            ]
        },
    }
}

/// The rows of the list of changes.
pub open spec fn change_row(m: Side, i: int) -> (Seq<Cell>, Option<Act>) {
    let (path, kind) = m.changes[i];
    seg_row(
        m,
        seq![
            ("   "@, Color::White),
            (change_look(kind).0, change_look(kind).1),
            ("  "@, Color::White),
            (abbreviated(path, sat_sub(columns(m), 10)), Color::White),
        ],
        if m.remote is None {
            Some(Act::PreviewFile(joined(change_root(m), path)))
        } else {
            None
        },
    )
}

/// The list of changes.
pub open spec fn changes_rows(m: Side) -> Seq<(Seq<Cell>, Option<Act>)> {
    let title = seq![plain_row(m, " changed files"@, Color::BrightWhite)];
    let none = Seq::<(Seq<Cell>, Option<Act>)>::empty();
    if m.watch_failed {
        title.push(plain_row(m, "   watch: 監視を開始できません"@, Color::BrightBlack))
    } else if m.watcher_pending is Some && m.watcher is None {
        title.push(plain_row(m, "   (監視を準備中…)"@, Color::BrightBlack))
    } else if m.changes.len() == 0 {
        title.push(plain_row(m, "   (変更なし)"@, Color::BrightBlack))
    } else {
        let n = lesser(m.changes.len(), LISTED_CHANGES as nat);
        title + Seq::new(n, |i: int| change_row(m, i)) + (if m.changes.len() > n {
            seq![
                plain_row(
                    m,
                    "   … ほか "@ + decimal((m.changes.len() - n) as nat) + " 件"@,
                    Color::BrightBlack,
                ),
            ]
        } else {
            none
        }) + (if m.watcher == Some(true) {
            seq![plain_row(m, "   (フォルダが多いため一部のみ監視)"@, Color::BrightBlack)]
        } else {
            none
        })
    }
}

/// The label of an entry of the file list.
pub open spec fn entry_label(m: Side, i: int) -> Seq<char> {
    let (name, is_dir) = m.entries[i];
    let full = if is_dir {
        name + "/"@
    } else {
        name + ""@
    };
    ("  "@).push(look(name, is_dir).0) + "  "@ + abbreviated(full, sat_sub(columns(m), 5))
}

/// The row of an entry of the file list.
pub open spec fn entry_row(m: Side, i: int) -> (Seq<Cell>, Option<Act>) {
    let (name, is_dir) = m.entries[i];
    (text_cells(entry_label(m, i), look(name, is_dir).1, columns(m)), Some(entry_act(m, i)))
}

/// The first entry that is shown.
pub open spec fn first_entry(m: Side) -> nat {
    lesser(m.scroll, scroll_limit(m.entries.len(), entry_slots(m)))
}

/// How many entries are shown.
pub open spec fn shown_entries(m: Side) -> nat {
    lesser((m.entries.len() - first_entry(m)) as nat, entry_slots(m))
}

/// The list of files.
pub open spec fn files_rows(m: Side) -> Seq<(Seq<Cell>, Option<Act>)> {
    let title = seq![
        seg_row(
            m,
            seq![
                (" files  "@, Color::BrightWhite),
                (abbreviated(m.dir, sat_sub(columns(m), 8)), Color::White),
            ],
            None,
        ),
    ];
    let none = Seq::<(Seq<Cell>, Option<Act>)>::empty();
    if m.dir_pending is Some {
        title.push(plain_row(m, "   (読込中…)"@, Color::BrightBlack))
    } else if m.dir_error {
        title.push(plain_row(m, "   (読込できません)"@, Color::BrightBlack))
    } else {
        let hidden = m.entries.len() - first_entry(m) - shown_entries(m);
        title + (if parent(m.dir) is Some {
            seq![
                (
                    text_cells(
                        ("  "@).push(look(".."@, true).0) + "  ../"@,
                        look(".."@, true).1,
                        columns(m),
                    ),
                    Some(Act::BrowseParent),
                ),
            ]
        } else {
            none
        }) + Seq::new(shown_entries(m), |i: int| entry_row(m, first_entry(m) + i)) + (
        if m.entries.len() == 0 {
            seq![plain_row(m, "   (空)"@, Color::BrightBlack)]
        } else if hidden > 0 {
            seq![
                plain_row(
                    m,
                    "   … ほか "@ + decimal(hidden as nat) + " 件"@,
                    Color::BrightBlack,
                ),
            ]
        } else {
            none
        })
    }
}

/// The rows for a shell on another machine.
pub open spec fn remote_rows(m: Side, now: u64) -> Seq<(Seq<Cell>, Option<Act>)> {
    let (host, path) = m.remote->0;
    seq![
        seg_row(
            m,
            seq![
                (" remote "@, Color::BrightWhite),
                (abbreviated(host + ":"@ + path, sat_sub(columns(m), 9)), Color::White),
            ],
            None,
        ),
    ] + activity_rows(m, now) + seq![
        plain_row(m, ""@, Color::White),
        plain_row(m, "リモート接続中 ("@ + host + ")"@, Color::BrightWhite),
        plain_row(m, "ローカルのファイル監視・一覧は"@, Color::White),
        plain_row(m, "このペインでは使えません。"@, Color::White),
        plain_row(m, ""@, Color::White),
        plain_row(m, "リモートの内容を見るには:"@, Color::BrightBlack),
        plain_row(m, "  gt view <file>"@, Color::BrightWhite),
        plain_row(m, ""@, Color::White),
    ] + changes_rows(m)
}

/// The row about the repository.
pub open spec fn git_row(m: Side) -> (Seq<Cell>, Option<Act>) {
    match (m.info->0).1 {
        Some(g) => plain_row(
            m,
            " git: "@ + g.branch + "  +"@ + decimal(g.staged) + " ~"@ + decimal(g.modified) + " ?"@
                + decimal(g.untracked),
            Color::White,
        ),
        None => plain_row(m, " git: not a git repo"@, Color::BrightBlack),
    }
}

/// The row that tells whether the preview follows changes.
pub open spec fn follow_row(m: Side) -> (Seq<Cell>, Option<Act>) {
    let (icon, color, label) = if m.frozen {
        ("⏸"@, Color::BrightYellow, "追従: フリーズ中"@)
    } else {
        ("●"@, Color::Green, "追従: 自動"@)
    };
    seg_row(
        m,
        seq![
            (" "@, Color::White),
            (icon, color),
            (" "@, Color::White),
            (label, Color::White),
            ("  (Ctrl+Shift+P)"@, Color::Rgb { rgba: 0x565F_89FF }),
        ],
        Some(Act::ToggleFollow),
    )
}

/// The row that switches between the lists.
pub open spec fn mode_row(m: Side) -> (Seq<Cell>, Option<Act>) {
    seg_row(
        m,
        seq![
            (" "@, Color::White),
            (
                if m.mode == SidebarMode::Changes {
                    "[changes]"@
                } else {
                    " changes "@
                },
                Color::BrightWhite,
            ),
            ("  "@, Color::White),
            (
                if m.mode == SidebarMode::Files {
                    "[files]"@
                } else {
                    " files "@
                },
                Color::BrightWhite,
            ),
        ],
        Some(Act::ToggleMode),
    )
}

/// The rows for a local shell.
pub open spec fn local_rows(m: Side, now: u64) -> Seq<(Seq<Cell>, Option<Act>)> {
    seq![
        seg_row(
            m,
            seq![
                (" workspace "@, Color::BrightWhite),
                (abbreviated((m.info->0).0, sat_sub(columns(m), 12)), Color::White),
            ],
            None,
        ),
        git_row(m),
        follow_row(m),
    ] + activity_rows(m, now) + seq![
        mode_row(m),
        plain_row(m, separator_text(), Color::BrightBlack),
    ] + (match m.mode {
        SidebarMode::Changes => changes_rows(m),
        SidebarMode::Files => files_rows(m),
    })
}

/// The rows without hints.
pub open spec fn body_rows(m: Side, now: u64) -> Seq<(Seq<Cell>, Option<Act>)> {
    if m.remote is Some {
        remote_rows(m, now)
    } else if m.info is Some {
        local_rows(m, now)
    } else {
        Seq::empty()
    }
}

/// Cells with the colours of the selection.
pub open spec fn selected_cells(cells: Seq<Cell>) -> Seq<Cell> {
    cells.map_values(
        |c: Cell|
            Cell { attr: GraphicAttribute { fg: SEL_FG, bg: sel_bg(), ..c.attr }, ..c },
    )
}

/// The first row from `from` on that does `act`; the number of rows where
/// there is none.
pub open spec fn act_row(r: Seq<(Seq<Cell>, Option<Act>)>, act: Act, from: int) -> int
    decreases r.len() - from,
{
    if from >= r.len() || (r[from].1 is Some && same_act(r[from].1->0, act)) {
        from
    } else {
        act_row(r, act, from + 1)
    }
}

/// Rows with the selected one marked.
pub open spec fn marked(r: Seq<(Seq<Cell>, Option<Act>)>, act: Option<Act>) -> Seq<
    (Seq<Cell>, Option<Act>),
> {
    match act {
        None => r,
        Some(a) => {
            let k = act_row(r, a, 0);
            if k < r.len() {
                r.update(k, (selected_cells(r[k].0), r[k].1))
            } else {
                r
            }
        },
    }
}

/// The last row: what is searched for, or the keys.
pub open spec fn hint_row(m: Side) -> (Seq<Cell>, Option<Act>) {
    match m.search {
        Some(q) => plain_row(m, " /"@ + q + "_"@, Color::BrightYellow),
        None => plain_row(
            m,
            " j/k:選択 l:開く h:上へ /:検索 Esc:端末"@,
            Color::Rgb { rgba: 0x565F_89FF },
        ),
    }
}

/// All rows of the sidebar at a time.
#[verifier::opaque]
pub open spec fn sidebar_rows(m: Side, now: u64) -> Seq<(Seq<Cell>, Option<Act>)> {
    let room = sat_sub(row_count(m), one_if(m.focused));
    let all = body_rows(m, now);
    let cut = if all.len() > room {
        all.subrange(0, room as int)
    } else {
        all
    };
    if m.focused {
        marked(cut, selected_act(m)).push(hint_row(m))
    } else {
        cut
    }
}

// ---------------------------------------------------------------------------
// Drawing
// ---------------------------------------------------------------------------

type Sink = RowSink<RowAction>;

/// A coloured text.
fn seg(text: &str, fg: Color) -> (r: (String, Color))
    ensures
        r.0@ == text@,
        r.1 == fg,
{
    (text.to_owned(), fg)
}

fn push_activity(
    s: &Sidebar,
    sink: &mut RowSink<RowAction>,
    cols: usize,
    now: u64,
    Ghost(r): Ghost<Seq<(Seq<Cell>, Option<Act>)>>,
)
    requires
        cols == columns(s@),
        old(sink).holds(r),
    ensures
        final(sink).holds(r + activity_rows(s@, now)),
{
    let a = match &s.ai_activity {
        None => {
            assert(r + activity_rows(s@, now) =~= r);
            return;
        },
        Some(a) => a,
    };
    if now > a.at && now - a.at > ACTIVITY_SHOWN {
        assert(r + activity_rows(s@, now) =~= r);
        return;
    }
    let (label, _) = change_label(a.kind);
    let suffix = match &a.tool {
        Some(t) => {
            let mut x = " (".to_owned();
            x.append(t.as_str());
            x.append(")");
            x
        },
        None => {
            let e = String::new();
            assert(e@ =~= Seq::empty());
            e
        },
    };
    let mut who = " ".to_owned();
    who.append(s.agent.as_str());
    who.append("  ");
    assert(who@ == agent_text(s@));
    let mut mark = " ●".to_owned();
    mark.append(who.as_str());
    let room = cols.saturating_sub(display_width(mark.as_str())).saturating_sub(
        display_width(label),
    ).saturating_sub(1).saturating_sub(display_width(suffix.as_str()));
    let path = abbreviate_start(a.path.as_str(), room);
    let mut segs: Vec<(String, Color)> = Vec::new();
    segs.push(seg(" ", Color::White));
    segs.push(seg("●", Color::Green));
    segs.push((who, Color::White));
    segs.push(seg(label, Color::BrightWhite));
    segs.push(seg(" ", Color::White));
    segs.push((path, Color::White));
    segs.push((suffix, Color::BrightBlack));
    proof {
        let taken = counted(width_sum(" ●"@ + agent_text(s@))) + counted(width_sum(label@)) + 1 + counted(
            width_sum(suffix@),
        );
        assert(room == sat_sub(cols as nat, taken));
        assert(seg_views(segs@) =~= seq![
            (" "@, Color::White),
            ("●"@, Color::Green),
            (agent_text(s@), Color::White),
            (label@, Color::BrightWhite),
            (" "@, Color::White),
            (path@, Color::White),
            (suffix@, Color::BrightBlack),
        ]);
    }
    sink.segments(&segs, cols, None, Ghost(r));
    assert(r + activity_rows(s@, now) =~= r.push(activity_rows(s@, now)[0]));
}

fn push_follow_status(
    s: &Sidebar,
    sink: &mut RowSink<RowAction>,
    cols: usize,
    Ghost(r): Ghost<Seq<(Seq<Cell>, Option<Act>)>>,
)
    requires
        cols == columns(s@),
        old(sink).holds(r),
    ensures
        final(sink).holds(r.push(follow_row(s@))),
{
    let mut segs: Vec<(String, Color)> = Vec::new();
    segs.push(seg(" ", Color::White));
    if s.follow_frozen {
        segs.push(seg("⏸", Color::BrightYellow));
        segs.push(seg(" ", Color::White));
        segs.push(seg("追従: フリーズ中", Color::White));
    } else {
        segs.push(seg("●", Color::Green));
        segs.push(seg(" ", Color::White));
        segs.push(seg("追従: 自動", Color::White));
    }
    segs.push(seg("  (Ctrl+Shift+P)", Color::Rgb { rgba: 0x565F_89FF }));
    proof {
        let (icon, color, label) = if s.follow_frozen {
            ("⏸"@, Color::BrightYellow, "追従: フリーズ中"@)
        } else {
            ("●"@, Color::Green, "追従: 自動"@)
        };
        assert(seg_views(segs@) =~= seq![
            (" "@, Color::White),
            (icon, color),
            (" "@, Color::White),
            (label, Color::White),
            ("  (Ctrl+Shift+P)"@, Color::Rgb { rgba: 0x565F_89FF }),
        ]);
    }
    sink.segments(&segs, cols, Some(RowAction::ToggleFollow), Ghost(r));
}

fn push_mode_switch(
    s: &Sidebar,
    sink: &mut RowSink<RowAction>,
    cols: usize,
    Ghost(r): Ghost<Seq<(Seq<Cell>, Option<Act>)>>,
)
    requires
        cols == columns(s@),
        old(sink).holds(r),
    ensures
        final(sink).holds(r.push(mode_row(s@))),
{
    let changes: &'static str = if s.mode == SidebarMode::Changes {
        "[changes]"
    } else {
        " changes "
    };
    let files: &'static str = if s.mode == SidebarMode::Files {
        "[files]"
    } else {
        " files "
    };
    let mut segs: Vec<(String, Color)> = Vec::new();
    segs.push(seg(" ", Color::White));
    segs.push(seg(changes, Color::BrightWhite));
    segs.push(seg("  ", Color::White));
    segs.push(seg(files, Color::BrightWhite));
    assert(seg_views(segs@) =~= seq![
        (" "@, Color::White),
        (changes@, Color::BrightWhite),
        ("  "@, Color::White),
        (files@, Color::BrightWhite),
    ]);
    sink.segments(&segs, cols, Some(RowAction::ToggleMode), Ghost(r));
}

/// `before`, a number, and `after`.
fn counted_text(before: &str, n: usize, after: &str) -> (r: String)
    ensures
        r@ == before@ + decimal(n as nat) + after@,
{
    let mut out = before.to_owned();
    let d = decimal_text(n as u64);
    out.append(d.as_str());
    out.append(after);
    out
}

fn push_changed_files(
    s: &Sidebar,
    sink: &mut RowSink<RowAction>,
    cols: usize,
    Ghost(r): Ghost<Seq<(Seq<Cell>, Option<Act>)>>,
)
    requires
        cols == columns(s@),
        old(sink).holds(r),
    ensures
        final(sink).holds(r + changes_rows(s@)),
{
    let ghost m = s@;
    let ghost title = plain_row(m, " changed files"@, Color::BrightWhite);
    sink.text(" changed files", Color::BrightWhite, cols, None, Ghost(r));
    let ghost mut all = r.push(title);
    if s.watch_failed {
        sink.text("   watch: 監視を開始できません", Color::BrightBlack, cols, None, Ghost(all));
        assert(r + changes_rows(m) =~= all.push(changes_rows(m)[1]));
        return;
    }
    if s.watcher_pending.is_some() && s.watcher.is_none() {
        sink.text("   (監視を準備中…)", Color::BrightBlack, cols, None, Ghost(all));
        assert(r + changes_rows(m) =~= all.push(changes_rows(m)[1]));
        return;
    }
    assert(m.changes.len() == s.changes.len());
    if s.changes.len() == 0 {
        sink.text("   (変更なし)", Color::BrightBlack, cols, None, Ghost(all));
        assert(r + changes_rows(m) =~= all.push(changes_rows(m)[1]));
        return;
    }
    let n: usize = if s.changes.len() < LISTED_CHANGES {
        s.changes.len()
    } else {
        LISTED_CHANGES
    };
    let ghost listed = Seq::new(n as nat, |i: int| change_row(m, i));
    let mut i: usize = 0;
    assert(all + listed.subrange(0, 0) =~= all);
    while i < n
        invariant
            i <= n <= s.changes.len(),
            m == s@,
            cols == columns(m),
            listed == Seq::new(n as nat, |i: int| change_row(m, i)),
            sink.holds(all + listed.subrange(0, i as int)),
        decreases n - i,
    {
        let change = &s.changes[i];
        assert(m.changes[i as int] == (change.path@, change.kind));
        let (label, color) = change_label(change.kind);
        let path = abbreviate_start(change.path.as_str(), cols.saturating_sub(10));
        let action = if s.remote_location.is_none() {
            let full = match &s.watcher_root {
                Some(root) => join(root.as_str(), change.path.as_str()),
                None => {
                    let e = String::new();
                    assert(e@ =~= Seq::empty());
                    join(e.as_str(), change.path.as_str())
                },
            };
            Some(RowAction::PreviewFile(full))
        } else {
            None
        };
        let mut segs: Vec<(String, Color)> = Vec::new();
        segs.push(seg("   ", Color::White));
        segs.push(seg(label, color));
        segs.push(seg("  ", Color::White));
        segs.push((path, Color::White));
        assert(seg_views(segs@) =~= seq![
            ("   "@, Color::White),
            (label@, color),
            ("  "@, Color::White),
            (path@, Color::White),
        ]);
        sink.segments(&segs, cols, action, Ghost(all + listed.subrange(0, i as int)));
        assert((all + listed.subrange(0, i as int)).push(change_row(m, i as int)) =~= all
            + listed.subrange(0, i + 1));
        i += 1;
    }
    assert(listed.subrange(0, i as int) =~= listed);
    proof {
        all = all + listed;
    }
    if s.changes.len() > n {
        let rest = s.changes.len() - n;
        let text = counted_text("   … ほか ", rest, " 件");
        sink.text(text.as_str(), Color::BrightBlack, cols, None, Ghost(all));
        proof {
            all = all.push(plain_row(m, text@, Color::BrightBlack));
        }
    }
    let partial = match s.watcher {
        Some(p) => p,
        None => false,
    };
    if partial {
        sink.text("   (フォルダが多いため一部のみ監視)", Color::BrightBlack, cols, None, Ghost(all));
        proof {
            all = all.push(
                plain_row(m, "   (フォルダが多いため一部のみ監視)"@, Color::BrightBlack),
            );
        }
    }
    assert(r + changes_rows(m) =~= all);
}

fn push_entry(
    s: &Sidebar,
    sink: &mut RowSink<RowAction>,
    cols: usize,
    k: usize,
    Ghost(r): Ghost<Seq<(Seq<Cell>, Option<Act>)>>,
)
    requires
        cols == columns(s@),
        k < s.browse_entries.len(),
        old(sink).holds(r),
    ensures
        final(sink).holds(r.push(entry_row(s@, k as int))),
{
    let ghost m = s@;
    let name = s.browse_entries[k].0.as_str();
    let is_dir = s.browse_entries[k].1;
    assert(m.entries[k as int] == (name@, is_dir));
    let (icon, color) = icon_and_color(name, is_dir);
    let mut full = name.to_owned();
    if is_dir {
        full.append("/");
    } else {
        full.append("");
    }
    let inner = abbreviate_start(full.as_str(), cols.saturating_sub(5));
    let mut label = "  ".to_owned();
    label.push(icon);
    label.append("  ");
    label.append(inner.as_str());
    assert(label@ == entry_label(m, k as int));
    let path = join(s.browse_dir.as_str(), name);
    let action = if is_dir {
        RowAction::BrowseDir(path)
    } else {
        RowAction::PreviewFile(path)
    };
    sink.text(label.as_str(), color, cols, Some(action), Ghost(r));
}

fn push_file_browser(
    s: &Sidebar,
    sink: &mut RowSink<RowAction>,
    cols: usize,
    Ghost(r): Ghost<Seq<(Seq<Cell>, Option<Act>)>>,
)
    requires
        cols == columns(s@),
        s.wf(),
        old(sink).holds(r),
    ensures
        final(sink).holds(r + files_rows(s@)),
{
    let ghost m = s@;
    let dir = abbreviate_start(s.browse_dir.as_str(), cols.saturating_sub(8));
    let mut segs: Vec<(String, Color)> = Vec::new();
    segs.push(seg(" files  ", Color::BrightWhite));
    segs.push((dir, Color::White));
    assert(seg_views(segs@) =~= seq![(" files  "@, Color::BrightWhite), (dir@, Color::White)]);
    sink.segments(&segs, cols, None, Ghost(r));
    let ghost mut all = r.push(files_rows(m)[0]);
    if s.browse_pending.is_some() {
        sink.text("   (読込中…)", Color::BrightBlack, cols, None, Ghost(all));
        assert(r + files_rows(m) =~= all.push(files_rows(m)[1]));
        return;
    }
    if s.browse_error {
        sink.text("   (読込できません)", Color::BrightBlack, cols, None, Ghost(all));
        assert(r + files_rows(m) =~= all.push(files_rows(m)[1]));
        return;
    }
    let len = s.browse_entries.len();
    assert(m.entries.len() == len);
    let slots = s.browse_entry_slots();
    let scroll = clamp_reader_scroll(s.browse_scroll, len, slots);
    assert(scroll == first_entry(m));
    let parent_dir = parent_of(s.browse_dir.as_str());
    if parent_dir.is_some() {
        let (icon, color) = icon_and_color("..", true);
        let mut label = "  ".to_owned();
        label.push(icon);
        label.append("  ../");
        sink.text(label.as_str(), color, cols, Some(RowAction::BrowseParent), Ghost(all));
        proof {
            all = all.push((text_cells(label@, color, columns(m)), Some(Act::BrowseParent)));
        }
    }
    let shown: usize = if len - scroll < slots {
        len - scroll
    } else {
        slots
    };
    assert(shown == shown_entries(m));
    let ghost listed = Seq::new(shown as nat, |i: int| entry_row(m, first_entry(m) + i));
    let mut i: usize = 0;
    assert(all + listed.subrange(0, 0) =~= all);
    while i < shown
        invariant
            i <= shown,
            scroll + shown <= len,
            len == s.browse_entries.len(),
            m == s@,
            cols == columns(m),
            scroll == first_entry(m),
            listed == Seq::new(shown as nat, |i: int| entry_row(m, first_entry(m) + i)),
            sink.holds(all + listed.subrange(0, i as int)),
        decreases shown - i,
    {
        push_entry(s, sink, cols, scroll + i, Ghost(all + listed.subrange(0, i as int)));
        assert((all + listed.subrange(0, i as int)).push(listed[i as int]) =~= all
            + listed.subrange(0, i + 1));
        i += 1;
    }
    assert(listed.subrange(0, i as int) =~= listed);
    proof {
        all = all + listed;
    }
    if len == 0 {
        sink.text("   (空)", Color::BrightBlack, cols, None, Ghost(all));
        proof {
            all = all.push(plain_row(m, "   (空)"@, Color::BrightBlack));
        }
    } else {
        let hidden = len - scroll - shown;
        if hidden > 0 {
            let text = counted_text("   … ほか ", hidden, " 件");
            sink.text(text.as_str(), Color::BrightBlack, cols, None, Ghost(all));
            proof {
                all = all.push(plain_row(m, text@, Color::BrightBlack));
            }
        }
    }
    assert(r + files_rows(m) =~= all);
}

fn draw_remote(s: &Sidebar, cols: usize, now: u64) -> (sink: RowSink<RowAction>)
    requires
        cols == columns(s@),
        s@.remote is Some,
    ensures
        sink.holds(remote_rows(s@, now)),
{
    let ghost m = s@;
    let mut sink: RowSink<RowAction> = RowSink::new();
    let ghost mut all = Seq::<(Seq<Cell>, Option<Act>)>::empty();
    if let Some((host, path)) = &s.remote_location {
        let mut label = host.clone();
        label.append(":");
        label.append(path.as_str());
        let dir = abbreviate_start(label.as_str(), cols.saturating_sub(9));
        let mut segs: Vec<(String, Color)> = Vec::new();
        segs.push(seg(" remote ", Color::BrightWhite));
        segs.push((dir, Color::White));
        assert(seg_views(segs@) =~= seq![(" remote "@, Color::BrightWhite), (dir@, Color::White)]);
        sink.segments(&segs, cols, None, Ghost(all));
        proof {
            all = all.push(seg_row(m, seg_views(segs@), None));
        }
        push_activity(s, &mut sink, cols, now, Ghost(all));
        proof {
            all = all + activity_rows(m, now);
        }
        sink.text("", Color::White, cols, None, Ghost(all));
        proof {
            all = all.push(plain_row(m, ""@, Color::White));
        }
        let mut title = "リモート接続中 (".to_owned();
        title.append(host.as_str());
        title.append(")");
        sink.text(title.as_str(), Color::BrightWhite, cols, None, Ghost(all));
        proof {
            all = all.push(plain_row(m, title@, Color::BrightWhite));
        }
        sink.text("ローカルのファイル監視・一覧は", Color::White, cols, None, Ghost(all));
        proof {
            all = all.push(plain_row(m, "ローカルのファイル監視・一覧は"@, Color::White));
        }
        sink.text("このペインでは使えません。", Color::White, cols, None, Ghost(all));
        proof {
            all = all.push(plain_row(m, "このペインでは使えません。"@, Color::White));
        }
        sink.text("", Color::White, cols, None, Ghost(all));
        proof {
            all = all.push(plain_row(m, ""@, Color::White));
        }
        sink.text("リモートの内容を見るには:", Color::BrightBlack, cols, None, Ghost(all));
        proof {
            all = all.push(plain_row(m, "リモートの内容を見るには:"@, Color::BrightBlack));
        }
        sink.text("  gt view <file>", Color::BrightWhite, cols, None, Ghost(all));
        proof {
            all = all.push(plain_row(m, "  gt view <file>"@, Color::BrightWhite));
        }
        sink.text("", Color::White, cols, None, Ghost(all));
        proof {
            all = all.push(plain_row(m, ""@, Color::White));
        }
        push_changed_files(s, &mut sink, cols, Ghost(all));
        proof {
            all = all + changes_rows(m);
        }
    }
    assert(all =~= remote_rows(m, now));
    sink
}

fn draw_local(s: &Sidebar, cols: usize, now: u64) -> (sink: RowSink<RowAction>)
    requires
        cols == columns(s@),
        s.wf(),
        s@.info is Some,
    ensures
        sink.holds(local_rows(s@, now)),
{
    let ghost m = s@;
    let mut sink: RowSink<RowAction> = RowSink::new();
    let ghost mut all = Seq::<(Seq<Cell>, Option<Act>)>::empty();
    if let Some(info) = &s.info {
        let dir = abbreviate_start(info.cwd.as_str(), cols.saturating_sub(12));
        let mut segs: Vec<(String, Color)> = Vec::new();
        segs.push(seg(" workspace ", Color::BrightWhite));
        segs.push((dir, Color::White));
        assert(seg_views(segs@) =~= seq![
            (" workspace "@, Color::BrightWhite),
            (dir@, Color::White),
        ]);
        sink.segments(&segs, cols, None, Ghost(all));
        proof {
            all = all.push(seg_row(m, seg_views(segs@), None));
        }
        match &info.git {
            Some(git) => {
                let mut text = " git: ".to_owned();
                text.append(git.branch.as_str());
                text.append("  +");
                let staged = decimal_text(git.staged as u64);
                text.append(staged.as_str());
                text.append(" ~");
                let modified = decimal_text(git.modified as u64);
                text.append(modified.as_str());
                text.append(" ?");
                let untracked = decimal_text(git.untracked as u64);
                text.append(untracked.as_str());
                sink.text(text.as_str(), Color::White, cols, None, Ghost(all));
            },
            None => {
                sink.text(" git: not a git repo", Color::BrightBlack, cols, None, Ghost(all));
            },
        }
        proof {
            all = all.push(git_row(m));
        }
        push_follow_status(s, &mut sink, cols, Ghost(all));
        proof {
            all = all.push(follow_row(m));
        }
        push_activity(s, &mut sink, cols, now, Ghost(all));
        proof {
            all = all + activity_rows(m, now);
        }
        push_mode_switch(s, &mut sink, cols, Ghost(all));
        proof {
            all = all.push(mode_row(m));
        }
        sink.text(
            " \u{2500}\u{2500}\u{2500}\u{2500}\u{2500}\u{2500}\u{2500}\u{2500}\u{2500}\u{2500}\u{2500}\u{2500}\u{2500}",
            Color::BrightBlack,
            cols,
            None,
            Ghost(all),
        );
        proof {
            all = all.push(plain_row(m, separator_text(), Color::BrightBlack));
        }
        match s.mode {
            SidebarMode::Changes => {
                push_changed_files(s, &mut sink, cols, Ghost(all));
                proof {
                    all = all + changes_rows(m);
                }
            },
            SidebarMode::Files => {
                push_file_browser(s, &mut sink, cols, Ghost(all));
                proof {
                    all = all + files_rows(m);
                }
            },
        }
    }
    assert(all =~= local_rows(m, now));
    sink
}

/// A line with the colours of the selection.
fn mark_line(line: &Line) -> (r: Line)
    ensures
        r@ == selected_cells(line@),
{
    let mut cells = line.iter();
    let mut i: usize = 0;
    while i < cells.len()
        invariant
            i <= cells.len(),
            cells.len() == line@.len(),
            forall|k: int| 0 <= k < i ==> cells@[k] == selected_cells(line@)[k],
            forall|k: int| i <= k < cells.len() ==> cells@[k] == line@[k],
        decreases cells.len() - i,
    {
        let mut c = cells[i];
        c.attr.fg = SEL_FG;
        c.attr.bg = sel_bg();
        cells[i] = c;
        i += 1;
    }
    assert(cells@ =~= selected_cells(line@));
    Line::from_cells(cells, false)
}

/// Marks the row that does what the selected row does.
fn apply_selection_style(
    s: &Sidebar,
    sink: &mut RowSink<RowAction>,
    Ghost(r): Ghost<Seq<(Seq<Cell>, Option<Act>)>>,
)
    requires
        s.wf(),
        old(sink).holds(r),
    ensures
        final(sink).holds(marked(r, selected_act(s@))),
{
    let selected = match s.selected_row_action() {
        Some(a) => a,
        None => {
            return;
        },
    };
    let ghost act = selected@;
    let mut k: usize = 0;
    assert(r.len() == sink.lines.len());
    while k < sink.actions.len()
        invariant
            k <= sink.actions.len(),
            sink.holds(r),
            r.len() == sink.lines.len(),
            act == selected@,
            act_row(r, act, k as int) == act_row(r, act, 0),
            Some(act) == selected_act(s@),
        decreases sink.actions.len() - k,
    {
        assert(r[k as int] == row_views(sink.lines@, sink.actions@)[k as int]);
        let hit = match &sink.actions[k] {
            Some(a) => a.same(&selected),
            None => false,
        };
        if hit {
            let line = mark_line(&sink.lines[k]);
            sink.lines[k] = line;
            assert(row_views(sink.lines@, sink.actions@) =~= r.update(
                k as int,
                (selected_cells(r[k as int].0), r[k as int].1),
            ));
            return;
        }
        k += 1;
    }
}

/// Draws the sidebar.
pub fn draw_sidebar(s: &Sidebar, now: u64) -> (sink: RowSink<RowAction>)
    requires
        s.wf(),
    ensures
        sink.holds(sidebar_rows(s@, now)),
{
    proof {
        reveal(sidebar_rows);
    }
    let ghost m = s@;
    let cols = count_cells_in(s.viewport.w, s.cell.w);
    let mut room = count_cells_in(s.viewport.h, s.cell.h);
    if s.focused {
        room = room - 1;
    }
    let mut sink = if s.remote_location.is_some() {
        draw_remote(s, cols, now)
    } else if s.info.is_some() {
        draw_local(s, cols, now)
    } else {
        RowSink::new()
    };
    let ghost all = body_rows(m, now);
    sink.truncate(room, Ghost(all));
    let ghost cut = if all.len() > room {
        all.subrange(0, room as int)
    } else {
        all
    };
    if s.focused {
        apply_selection_style(s, &mut sink, Ghost(cut));
        let ghost done = marked(cut, selected_act(m));
        match &s.search {
            Some(q) => {
                let mut text = " /".to_owned();
                text.append(q.as_str());
                text.append("_");
                sink.text(text.as_str(), Color::BrightYellow, cols, None, Ghost(done));
            },
            None => {
                sink.text(
                    " j/k:選択 l:開く h:上へ /:検索 Esc:端末",
                    Color::Rgb { rgba: 0x565F_89FF },
                    cols,
                    None,
                    Ghost(done),
                );
            },
        }
    }
    sink
}

} // verus!
