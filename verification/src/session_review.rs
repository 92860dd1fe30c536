//! The summary shown when a session has ended.

use crate::file_style::{accent, dim};
use crate::keys::KeyCode;
use crate::popup::{box_views, boxed, column, column_cells, overlay_box, BoxLine};
use crate::rows::lesser;
use crate::terminal::{rows, Cell, CellSize, Color, Line};
use crate::text::{decimal, decimal_text};
use crate::timeline::SessionFileSummary;
use crate::view::{cells_in, count_cells_in, Frame, Viewport};
use crate::workspace::DiffStat;
use vstd::prelude::*;
use vstd::string::*;

verus! {

/// The most files to look at that are listed.
pub const MAX_RISK_ROWS: usize = 8;

/// What happened in a session; the difference is missing outside a repository.
#[derive(Debug)]
pub struct SessionSummary {
    pub files: SessionFileSummary,
    pub diff: Option<DiffStat>,
}

#[derive(Debug, Clone, Copy, PartialEq, Eq, Structural)]
pub enum SessionReviewOutcome {
    /// It stays on the screen.
    Open,
    Dismissed,
}

/// The contents of coloured lines.
pub open spec fn line_views(v: Seq<(String, Color)>) -> Seq<(Seq<char>, Color)> {
    Seq::new(v.len(), |i: int| (v[i].0@, v[i].1))
}

/// The contents of files to look at.
pub open spec fn risk_views(v: Seq<(String, &'static str)>) -> Seq<(Seq<char>, Seq<char>)> {
    Seq::new(v.len(), |i: int| (v[i].0@, v[i].1@))
}

/// The line about a file to look at.
pub open spec fn risk_line(r: (Seq<char>, Seq<char>)) -> (Seq<char>, Color) {
    (" ▲"@ + r.1 + "  "@ + r.0, Color::White)
}

/// The lines about files to look at; none where there are no such files.
pub open spec fn risk_lines(risks: Seq<(Seq<char>, Seq<char>)>) -> Seq<(Seq<char>, Color)> {
    let n = lesser(risks.len(), MAX_RISK_ROWS as nat);
    if risks.len() == 0 {
        Seq::empty()
    } else {
        seq![(Seq::empty(), Color::White), ("要確認"@, Color::BrightYellow)] + Seq::new(
            n,
            |i: int| risk_line(risks[i]),
        ) + (if risks.len() > n {
            seq![(" … ほか"@ + decimal((risks.len() - n) as nat) + "件"@, dim())]
        } else {
            Seq::empty()
        })
    }
}

/// The lines of the summary.
pub open spec fn review_text(
    changed: nat,
    risks: Seq<(Seq<char>, Seq<char>)>,
    diff: Option<DiffStat>,
) -> Seq<(Seq<char>, Color)> {
    seq![
        ("セッションレビュー"@, accent()),
        (Seq::empty(), Color::White),
        ("変更ファイル  "@ + decimal(changed) + "件"@, Color::BrightWhite),
    ] + (match diff {
        Some(d) => seq![
            (
                "+"@ + decimal(d.added as nat) + " / -"@ + decimal(d.removed as nat) + " 行"@,
                Color::White,
            ),
        ],
        None => Seq::empty(),
    }) + risk_lines(risks) + seq![
        (Seq::empty(), Color::White),
        ("Enter / Esc: ターミナルへ戻る"@, dim()),
    ]
}

/// The lines of a summary.
pub open spec fn summary_text(s: SessionSummary) -> Seq<(Seq<char>, Color)> {
    review_text(s.files.changed_files as nat, risk_views(s.files.risks@), s.diff)
}

/// A line, added to others.
fn add_line(lines: &mut Vec<(String, Color)>, text: String, fg: Color)
    ensures
        line_views(final(lines)@) == line_views(old(lines)@).push((text@, fg)),
        final(lines).len() == old(lines).len() + 1,
{
    let ghost before = lines@;
    lines.push((text, fg));
    assert(line_views(lines@) =~= line_views(before).push((text@, fg)));
}

/// No text.
fn nothing() -> (r: String)
    ensures
        r@ == Seq::<char>::empty(),
{
    let e = String::new();
    assert(e@ =~= Seq::empty());
    e
}

/// The lines of a summary.
pub fn review_lines(summary: &SessionSummary) -> (r: Vec<(String, Color)>)
    ensures
        line_views(r@) == summary_text(*summary),
        r.len() <= 17,
{
    let mut out: Vec<(String, Color)> = Vec::new();
    assert(line_views(out@) =~= Seq::empty());
    let ghost risks = risk_views(summary.files.risks@);
    let ghost mut all = Seq::<(Seq<char>, Color)>::empty();
    add_line(&mut out, "セッションレビュー".to_owned(), accent());
    add_line(&mut out, nothing(), Color::White);
    let mut count = "変更ファイル  ".to_owned();
    let d = decimal_text(summary.files.changed_files as u64);
    count.append(d.as_str());
    count.append("件");
    add_line(&mut out, count, Color::BrightWhite);
    if let Some(diff) = &summary.diff {
        let mut text = "+".to_owned();
        let a = decimal_text(diff.added as u64);
        text.append(a.as_str());
        text.append(" / -");
        let b = decimal_text(diff.removed as u64);
        text.append(b.as_str());
        text.append(" 行");
        add_line(&mut out, text, Color::White);
    }
    let ghost head = line_views(out@);
    assert(risks.len() == summary.files.risks.len());
    if summary.files.risks.len() > 0 {
        add_line(&mut out, nothing(), Color::White);
        add_line(&mut out, "要確認".to_owned(), Color::BrightYellow);
        let n: usize = if summary.files.risks.len() < MAX_RISK_ROWS {
            summary.files.risks.len()
        } else {
            MAX_RISK_ROWS
        };
        let ghost titled = line_views(out@);
        let ghost listed = Seq::new(n as nat, |i: int| risk_line(risks[i]));
        let base = out.len();
        let mut i: usize = 0;
        assert(titled + listed.subrange(0, 0) =~= titled);
        while i < n
            invariant
                i <= n <= MAX_RISK_ROWS,
                n <= summary.files.risks.len(),
                risks == risk_views(summary.files.risks@),
                listed == Seq::new(n as nat, |i: int| risk_line(risks[i])),
                line_views(out@) == titled + listed.subrange(0, i as int),
                out.len() == base + i,
                base <= 6,
            decreases n - i,
        {
            let mut text = " ▲".to_owned();
            text.append(summary.files.risks[i].1);
            text.append("  ");
            text.append(summary.files.risks[i].0.as_str());
            add_line(&mut out, text, Color::White);
            proof {
                assert(risks[i as int] == (
                    summary.files.risks[i as int].0@,
                    summary.files.risks[i as int].1@,
                ));
                assert((titled + listed.subrange(0, i as int)).push((text@, Color::White))
                    =~= titled + listed.subrange(0, i + 1));
            }
            i += 1;
        }
        assert(listed.subrange(0, i as int) =~= listed);
        if summary.files.risks.len() > n {
            let mut text = " … ほか".to_owned();
            let d = decimal_text((summary.files.risks.len() - n) as u64);
            text.append(d.as_str());
            text.append("件");
            add_line(&mut out, text, dim());
        }
    }
    assert(line_views(out@) =~= head + risk_lines(risks));
    add_line(&mut out, nothing(), Color::White);
    add_line(&mut out, "Enter / Esc: ターミナルへ戻る".to_owned(), dim());
    assert(line_views(out@) =~= summary_text(*summary));
    out
}

/// Coloured lines on a panel.
pub open spec fn on_panel(v: Seq<(Seq<char>, Color)>, panel: Color) -> Seq<(Seq<char>, Color, Color)> {
    Seq::new(v.len(), |i: int| (v[i].0, v[i].1, panel))
}

/// Empty rows.
pub open spec fn blank_rows(cols: nat, count: nat) -> Seq<Seq<Cell>> {
    Seq::new(count, |i: int| column(""@, Color::White, Color::Background, cols))
}

/// The rows of the summary: a box on empty rows.
pub open spec fn review_rows(s: SessionSummary, cols: nat, count: nat, panel: Color) -> Seq<Seq<Cell>> {
    boxed(blank_rows(cols, count), on_panel(summary_text(s), panel), cols, count, panel)
}

/// Draws a summary on a screen of `cols` by `count` cells.
pub fn render(summary: &SessionSummary, cols: usize, count: usize, panel: Color) -> (r: Vec<Line>)
    requires
        1 <= count,
        cols <= 0xffff_ffff,
    ensures
        rows(r@) == review_rows(*summary, cols as nat, count as nat, panel),
{
    let content = review_lines(summary);
    let ghost text = summary_text(*summary);
    let mut lines: Vec<Line> = Vec::new();
    while lines.len() < count
        invariant
            lines.len() <= count,
            forall|k: int|
                0 <= k < lines.len() ==> (#[trigger] lines[k])@ == column(
                    ""@,
                    Color::White,
                    Color::Background,
                    cols as nat,
                ),
        decreases count - lines.len(),
    {
        lines.push(
            Line::from_cells(column_cells("", Color::White, Color::Background, cols), false),
        );
    }
    assert(rows(lines@) =~= blank_rows(cols as nat, count as nat));
    let mut boxes: Vec<BoxLine> = Vec::new();
    let mut i: usize = 0;
    while i < content.len()
        invariant
            i <= content.len(),
            boxes.len() == i,
            forall|k: int|
                0 <= k < i ==> (
                    (#[trigger] boxes[k]).text@,
                    boxes[k].fg,
                    boxes[k].bg,
                ) == (content[k].0@, content[k].1, panel),
        decreases content.len() - i,
    {
        boxes.push(BoxLine { text: content[i].0.clone(), fg: content[i].1, bg: panel });
        i += 1;
    }
    assert(line_views(content@).len() == content.len());
    assert(box_views(boxes@) =~= on_panel(text, panel));
    overlay_box(&mut lines, &boxes, cols, count, panel);
    lines
}

/// The summary on the screen.
#[derive(Debug)]
pub struct SessionReview {
    pub viewport: Viewport,
    pub cell: CellSize,
    pub summary: SessionSummary,
    pub panel: Color,
    pub frame: Frame,
    /// The frame has not been drawn since it changed.
    pub updated: bool,
}

impl SessionReview {
    /// A cell has a size, and what is drawn is the summary.
    pub open spec fn wf(&self) -> bool {
        &&& self.cell.w > 0
        &&& self.cell.h > 0
        &&& rows(self.frame.lines@) == review_rows(
            self.summary,
            cells_in(self.viewport.w, self.cell.w),
            cells_in(self.viewport.h, self.cell.h),
            self.panel,
        )
        &&& self.frame.images.len() == 0
        &&& self.frame.bg_color == Color::Background
        &&& !self.frame.skip_default_bg
    }

    pub fn new(viewport: Viewport, cell: CellSize, summary: SessionSummary, panel: Color) -> (r: Self)
        requires
            cell.w > 0,
            cell.h > 0,
        ensures
            r.wf(),
            r.viewport == viewport,
            r.cell == cell,
            r.summary == summary,
            r.panel == panel,
            r.updated,
    {
        let frame = draw(viewport, cell, &summary, panel);
        SessionReview { viewport, cell, summary, panel, frame, updated: true }
    }

    pub fn set_viewport(&mut self, viewport: Viewport)
        requires
            old(self).wf(),
        ensures
            final(self).wf(),
            final(self).viewport == viewport,
            final(self).cell == old(self).cell,
            final(self).summary == old(self).summary,
            final(self).panel == old(self).panel,
            final(self).updated,
    {
        self.viewport = viewport;
        self.frame = draw(self.viewport, self.cell, &self.summary, self.panel);
        self.updated = true;
    }

    /// Takes the cell size of another font size.
    pub fn change_font_size(&mut self, cell: CellSize)
        requires
            old(self).wf(),
            cell.w > 0,
            cell.h > 0,
        ensures
            final(self).wf(),
            final(self).cell == cell,
            final(self).viewport == old(self).viewport,
            final(self).summary == old(self).summary,
            final(self).panel == old(self).panel,
            final(self).updated,
    {
        self.cell = cell;
        self.frame = draw(self.viewport, self.cell, &self.summary, self.panel);
        self.updated = true;
    }

    pub fn needs_redraw(&self) -> (r: bool)
        ensures
            r == self.updated,
    {
        self.updated
    }

    /// A key event: Enter and Escape close the summary.
    pub fn handle_key(&self, pressed: bool, code: Option<KeyCode>) -> (r: SessionReviewOutcome)
        ensures
            r == if pressed && (code == Some(KeyCode::Escape) || code == Some(KeyCode::Enter)) {
                SessionReviewOutcome::Dismissed
            } else {
                SessionReviewOutcome::Open
            },
    {
        if !pressed {
            return SessionReviewOutcome::Open;
        }
        match code {
            Some(KeyCode::Escape) => SessionReviewOutcome::Dismissed,
            Some(KeyCode::Enter) => SessionReviewOutcome::Dismissed,
            _ => SessionReviewOutcome::Open,
        }
    }
}

fn draw(viewport: Viewport, cell: CellSize, summary: &SessionSummary, panel: Color) -> (r: Frame)
    requires
        cell.w > 0,
        cell.h > 0,
    ensures
        rows(r.lines@) == review_rows(
            *summary,
            cells_in(viewport.w, cell.w),
            cells_in(viewport.h, cell.h),
            panel,
        ),
        r.images.len() == 0,
        r.bg_color == Color::Background,
        !r.skip_default_bg,
{
    let cols = count_cells_in(viewport.w, cell.w);
    let count = count_cells_in(viewport.h, cell.h);
    Frame {
        lines: render(summary, cols, count, panel),
        images: Vec::new(),
        bg_color: Color::Background,
        skip_default_bg: false,
    }
}

} // verus!
