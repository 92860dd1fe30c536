use gototerm::layout::{
    split_viewport, workbench_viewports, Dir, Node, Partition, WorkbenchViewports, GAP,
};
use gototerm::view::Viewport;

/// Where a line stands that divides an extent in a ratio.
fn mid(extent: u32, ratio: f64) -> u32 {
    (extent as f64 * ratio).round() as u32
}

fn split(partition: Partition, ratio: f64, vp: Viewport) -> (Viewport, Viewport) {
    let extent = match partition {
        Partition::Vertical => vp.w,
        Partition::Horizontal => vp.h,
    };
    split_viewport(partition, mid(extent, ratio), vp)
}

fn workbench(vp: Viewport, sidebar_ratio: f64, preview_ratio: f64) -> WorkbenchViewports {
    workbench_viewports(
        vp,
        mid(vp.w, sidebar_ratio.clamp(0.0, 1.0)),
        mid(vp.h, preview_ratio.clamp(0.0, 1.0)),
    )
}

#[test]
fn vertical_split_leaves_a_gap_and_fills_width() {
    let vp = Viewport {
        x: 10,
        y: 20,
        w: 100,
        h: 50,
    };
    let (left, right) = split(Partition::Vertical, 0.5, vp);

    assert_eq!(left.y, 20);
    assert_eq!(right.y, 20);
    assert_eq!(left.h, 50);
    assert_eq!(right.h, 50);
    assert_eq!(left.x, 10);

    assert_eq!(left.w, 50 - GAP);
    assert_eq!(right.x, 10 + 50 + GAP);
    assert_eq!(right.w, 100 - 50 - GAP);
    assert_eq!(left.w + right.w + GAP * 2, vp.w);
}

#[test]
fn horizontal_split_leaves_a_gap_and_fills_height() {
    let vp = Viewport {
        x: 0,
        y: 0,
        w: 80,
        h: 200,
    };
    let (top, bottom) = split(Partition::Horizontal, 0.5, vp);

    assert_eq!(top.w, 80);
    assert_eq!(bottom.w, 80);
    assert_eq!(top.x, 0);
    assert_eq!(top.y, 0);
    assert_eq!(top.h, 100 - GAP);
    assert_eq!(bottom.y, 100 + GAP);
    assert_eq!(bottom.h, 200 - 100 - GAP);
    assert_eq!(top.h + bottom.h + GAP * 2, vp.h);
}

#[test]
fn uneven_ratio_keeps_panes_within_parent() {
    let vp = Viewport {
        x: 0,
        y: 0,
        w: 120,
        h: 60,
    };
    let (left, right) = split(Partition::Vertical, 0.25, vp);
    assert_eq!(left.w, 30 - GAP);
    assert_eq!(right.x, 30 + GAP);
    assert_eq!(right.w, 120 - 30 - GAP);
}

#[test]
fn hidden_sidebar_keeps_content_viewport_unchanged() {
    let vp = Viewport {
        x: 5,
        y: 7,
        w: 300,
        h: 200,
    };

    assert_eq!(vp.x, 5);
    assert_eq!(vp.y, 7);
    assert_eq!(vp.w, 300);
    assert_eq!(vp.h, 200);
}

#[test]
fn workbench_layout_uses_left_sidebar_and_right_preview_terminal() {
    let vp = Viewport {
        x: 0,
        y: 20,
        w: 1000,
        h: 700,
    };
    let layout = workbench(vp, 0.25, 0.5);

    assert_eq!(layout.sidebar.x, 0);
    assert_eq!(layout.sidebar.y, 20);
    assert_eq!(layout.sidebar.w, 250 - GAP);
    assert_eq!(layout.sidebar.h, 700);

    assert_eq!(layout.preview.x, 250 + GAP);
    assert_eq!(layout.preview.y, 20);
    assert_eq!(layout.preview.w, 1000 - 250 - GAP);
    assert_eq!(layout.preview.h, 350 - GAP);

    assert_eq!(layout.terminal.x, 250 + GAP);
    assert_eq!(layout.terminal.y, 20 + 350 + GAP);
    assert_eq!(layout.terminal.w, 1000 - 250 - GAP);
    assert_eq!(layout.terminal.h, 700 - 350 - GAP);
}

#[test]
fn workbench_layout_clamps_ratios() {
    let vp = Viewport {
        x: 0,
        y: 0,
        w: 100,
        h: 80,
    };
    let layout = workbench(vp, 2.0, -1.0);

    assert_eq!(layout.sidebar.w, 100 - GAP);
    assert_eq!(layout.sidebar.y, 0);
    assert_eq!(layout.preview.h, 0);
    assert_eq!(layout.terminal.h, 80 - GAP);
}

/// Three panes: one on the left, two above each other on the right.
fn three() -> Node {
    Node::Leaf(0)
        .split_focused(Partition::Vertical, 10, 1)
        .split_focused(Partition::Horizontal, 11, 2)
}

#[test]
fn a_new_pane_has_the_focus() {
    let n = three();
    assert_eq!(n.all_leaves(), vec![0, 1, 2]);
    assert_eq!(n.focused_leaf(), 2);
}

#[test]
fn the_focus_moves_across_the_nearest_line() {
    let (n, moved) = three().move_focus(Dir::Up);
    assert!(moved);
    assert_eq!(n.focused_leaf(), 1);
    let (n, moved) = n.move_focus(Dir::Left);
    assert!(moved);
    assert_eq!(n.focused_leaf(), 0);
    let (n, moved) = n.move_focus(Dir::Left);
    assert!(!moved);
    assert_eq!(n.focused_leaf(), 0);
}

#[test]
fn closing_a_pane_gives_its_room_to_its_neighbour() {
    let n = three().close_focused().unwrap();
    assert_eq!(n.all_leaves(), vec![0, 1]);
    assert_eq!(n.focused_leaf(), 1);
    let n = n.close_focused().unwrap();
    assert_eq!(n.all_leaves(), vec![0]);
    assert!(n.close_focused().is_none());
}

#[test]
fn panes_that_ended_go() {
    let (n, collapsed, gained) = three().prune(&vec![2]);
    let n = n.unwrap();
    assert!(collapsed);
    assert_eq!(gained, vec![1]);
    assert_eq!(n.all_leaves(), vec![0, 1]);
    let (n, _, _) = n.prune(&vec![0, 1]);
    assert!(n.is_none());
}

#[test]
fn the_innermost_line_along_an_axis_moves() {
    let n = three();
    assert_eq!(n.resize_focused(Partition::Horizontal), Some(11));
    assert_eq!(n.resize_focused(Partition::Vertical), Some(10));
    assert_eq!(Node::Leaf(0).resize_focused(Partition::Vertical), None);
}

#[test]
fn a_click_gives_the_focus_to_the_pane_under_it() {
    let (n, hit) = three().focus_at(&vec![0]);
    assert!(hit);
    assert_eq!(n.focused_leaf(), 0);
    let (n, hit) = n.focus_at(&vec![7]);
    assert!(!hit);
    assert_eq!(n.focused_leaf(), 0);
}

#[test]
fn panes_are_placed_by_the_lines_between_them() {
    let vp = Viewport { x: 0, y: 0, w: 100, h: 80 };
    let places = three().place(vp, &|_: u64, e: u32| e / 2);
    assert_eq!(
        places,
        vec![
            (0, Viewport { x: 0, y: 0, w: 48, h: 80 }),
            (1, Viewport { x: 52, y: 0, w: 48, h: 38 }),
            (2, Viewport { x: 52, y: 42, w: 48, h: 38 }),
        ]
    );
}
