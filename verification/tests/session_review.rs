use gototerm::keys::KeyCode;
use gototerm::session_review::{
    render, review_lines, SessionReview, SessionReviewOutcome, SessionSummary,
};
use gototerm::terminal::{CellSize, Color};
use gototerm::timeline::SessionFileSummary;
use gototerm::view::Viewport;
use gototerm::workspace::DiffStat;

#[test]
fn review_lines_includes_file_count_and_diff_stat() {
    let summary = SessionSummary {
        files: SessionFileSummary {
            changed_files: 3,
            risks: Vec::new(),
        },
        diff: Some(DiffStat {
            added: 42,
            removed: 8,
        }),
    };
    let lines = review_lines(&summary);
    let texts: Vec<&str> = lines.iter().map(|(t, _)| t.as_str()).collect();
    assert!(texts.contains(&"変更ファイル  3件"));
    assert!(texts.contains(&"+42 / -8 行"));
    assert!(!texts.contains(&"要確認"));
}

#[test]
fn review_lines_omits_diff_stat_when_git_unavailable() {
    let summary = SessionSummary {
        files: SessionFileSummary {
            changed_files: 1,
            risks: Vec::new(),
        },
        diff: None,
    };
    let lines = review_lines(&summary);
    assert!(lines.iter().all(|(t, _)| !t.contains('行')));
}

#[test]
fn review_lines_lists_risks_and_truncates_after_max() {
    let risks: Vec<(String, &'static str)> =
        (0..10).map(|i| (format!("f{i}.rs"), "設定")).collect();
    let summary = SessionSummary {
        files: SessionFileSummary {
            changed_files: 10,
            risks,
        },
        diff: None,
    };
    let lines = review_lines(&summary);
    let texts: Vec<&str> = lines.iter().map(|(t, _)| t.as_str()).collect();
    assert!(texts.contains(&"要確認"));
    assert!(texts.iter().any(|t| t.contains("f0.rs")));
    assert!(texts.iter().any(|t| t.contains("ほか2件")));
}

fn summary() -> SessionSummary {
    SessionSummary {
        files: SessionFileSummary {
            changed_files: 1,
            risks: Vec::new(),
        },
        diff: None,
    }
}

#[test]
fn enter_and_escape_dismiss_the_review() {
    let vp = Viewport { x: 0, y: 0, w: 400, h: 200 };
    let review = SessionReview::new(vp, CellSize { w: 10, h: 20 }, summary(), Color::Black);
    assert_eq!(
        review.handle_key(true, Some(KeyCode::Enter)),
        SessionReviewOutcome::Dismissed
    );
    assert_eq!(
        review.handle_key(true, Some(KeyCode::Escape)),
        SessionReviewOutcome::Dismissed
    );
    assert_eq!(
        review.handle_key(true, Some(KeyCode::KeyA)),
        SessionReviewOutcome::Open
    );
    assert_eq!(
        review.handle_key(false, Some(KeyCode::Enter)),
        SessionReviewOutcome::Open
    );
}

#[test]
fn the_review_fills_the_screen() {
    let lines = render(&summary(), 40, 10, Color::Black);
    assert_eq!(lines.len(), 10);
    assert!(lines.iter().all(|l| l.columns() == 40));
}

#[test]
fn a_review_that_is_moved_is_drawn_anew() {
    let vp = Viewport { x: 0, y: 0, w: 400, h: 200 };
    let mut review = SessionReview::new(vp, CellSize { w: 10, h: 20 }, summary(), Color::Black);
    assert!(review.needs_redraw());
    review.updated = false;
    review.set_viewport(Viewport { x: 0, y: 0, w: 300, h: 200 });
    assert!(review.needs_redraw());
    assert_eq!(review.frame.lines[0].columns(), 30);
    review.updated = false;
    review.change_font_size(CellSize { w: 20, h: 40 });
    assert!(review.needs_redraw());
    assert_eq!(review.frame.lines.len(), 5);
}
