//! How the window is divided: the panes of a tab as a tree, and the
//! rectangles of the panes.

use crate::view::Viewport;
use vstd::prelude::*;

verus! {

/// The gap in pixels on either side of a dividing line.
pub const GAP: u32 = 2;

#[derive(Debug, Clone, Copy, PartialEq, Eq, Structural)]
pub enum Partition {
    /// A vertical line with a left and a right side.
    Vertical,
    /// A horizontal line with an upper and a lower side.
    Horizontal,
}

#[derive(Debug, Clone, Copy, PartialEq, Eq, Structural)]
pub enum Dir {
    Up,
    Down,
    Left,
    Right,
}

/// `a - b`, but not below zero.
pub open spec fn minus(a: u32, b: int) -> u32 {
    if a > b {
        (a - b) as u32
    } else {
        0
    }
}

/// The extent that a dividing line divides.
pub open spec fn extent(partition: Partition, vp: Viewport) -> u32 {
    match partition {
        Partition::Vertical => vp.w,
        Partition::Horizontal => vp.h,
    }
}

/// The two sides of a line at `mid`.
pub open spec fn sides(partition: Partition, mid: u32, vp: Viewport) -> (Viewport, Viewport) {
    match partition {
        Partition::Vertical => (
            Viewport { w: minus(mid, GAP as int), ..vp },
            Viewport { x: (vp.x + mid + GAP) as u32, w: minus(vp.w, mid + GAP), ..vp },
        ),
        Partition::Horizontal => (
            Viewport { h: minus(mid, GAP as int), ..vp },
            Viewport { y: (vp.y + mid + GAP) as u32, h: minus(vp.h, mid + GAP), ..vp },
        ),
    }
}

/// Divides a rectangle by a line `mid` pixels from its left or upper edge,
/// leaving a gap on either side of the line.
pub fn split_viewport(partition: Partition, mid: u32, vp: Viewport) -> (r: (Viewport, Viewport))
    requires
        partition == Partition::Vertical ==> vp.x + mid + GAP <= u32::MAX,
        partition == Partition::Horizontal ==> vp.y + mid + GAP <= u32::MAX,
    ensures
        r == sides(partition, mid, vp),
{
    match partition {
        Partition::Vertical => {
            let left = Viewport { x: vp.x, y: vp.y, w: mid.saturating_sub(GAP), h: vp.h };
            let right = Viewport {
                x: vp.x + mid + GAP,
                y: vp.y,
                w: vp.w.saturating_sub(mid + GAP),
                h: vp.h,
            };
            (left, right)
        },
        Partition::Horizontal => {
            let top = Viewport { x: vp.x, y: vp.y, w: vp.w, h: mid.saturating_sub(GAP) };
            let bottom = Viewport {
                x: vp.x,
                y: vp.y + mid + GAP,
                w: vp.w,
                h: vp.h.saturating_sub(mid + GAP),
            };
            (top, bottom)
        },
    }
}

/// Where there is room for the gaps, the two sides and the gaps fill the
/// rectangle, and the second side begins where the first and the gaps end.
pub proof fn law_sides_fill(partition: Partition, mid: u32, vp: Viewport)
    requires
        GAP <= mid,
        mid + GAP <= extent(partition, vp),
        vp.x + vp.w <= u32::MAX,
        vp.y + vp.h <= u32::MAX,
    ensures
        ({
            let (a, b) = sides(partition, mid, vp);
            &&& extent(partition, a) + extent(partition, b) + 2 * GAP == extent(partition, vp)
            &&& partition == Partition::Vertical ==> a.x == vp.x && b.x == a.x + a.w + 2 * GAP
                && b.x + b.w == vp.x + vp.w && a.y == vp.y && b.y == vp.y && a.h == vp.h && b.h
                == vp.h
            &&& partition == Partition::Horizontal ==> a.y == vp.y && b.y == a.y + a.h + 2 * GAP
                && b.y + b.h == vp.y + vp.h && a.x == vp.x && b.x == vp.x && a.w == vp.w && b.w
                == vp.w
        }),
{
}

/// The three areas of the workbench.
#[derive(Debug, Clone, Copy, PartialEq, Eq, Structural)]
pub struct WorkbenchViewports {
    pub sidebar: Viewport,
    pub preview: Viewport,
    pub terminal: Viewport,
}

/// The areas of the workbench: the sidebar on the left, and on the right the
/// preview above the terminal.
pub open spec fn workbench(vp: Viewport, side_mid: u32, preview_mid: u32) -> WorkbenchViewports {
    let (sidebar, right) = sides(Partition::Vertical, side_mid, vp);
    let (preview, terminal) = sides(Partition::Horizontal, preview_mid, right);
    WorkbenchViewports { sidebar, preview, terminal }
}

/// Divides the window into the areas of the workbench, by lines `side_mid`
/// pixels from the left and `preview_mid` pixels from the top.
pub fn workbench_viewports(vp: Viewport, side_mid: u32, preview_mid: u32) -> (r: WorkbenchViewports)
    requires
        vp.x + side_mid + GAP <= u32::MAX,
        vp.y + preview_mid + GAP <= u32::MAX,
    ensures
        r == workbench(vp, side_mid, preview_mid),
{
    let (sidebar, right) = split_viewport(Partition::Vertical, side_mid, vp);
    let (preview, terminal) = split_viewport(Partition::Horizontal, preview_mid, right);
    WorkbenchViewports { sidebar, preview, terminal }
}

// ---------------------------------------------------------------------------
// Panes
// ---------------------------------------------------------------------------

/// The panes of a tab: one pane by its number, or two sides of a dividing
/// line, one of which has the focus. A line is known by its number too.
pub enum Node {
    Leaf(u64),
    Split {
        id: u64,
        partition: Partition,
        focus_first: bool,
        first: Box<Node>,
        second: Box<Node>,
    },
}

/// The panes, from left to right and from top to bottom.
pub open spec fn leaves(n: Node) -> Seq<u64>
    decreases n,
{
    match n {
        Node::Leaf(p) => seq![p],
        Node::Split { first, second, .. } => leaves(*first) + leaves(*second),
    }
}

/// The pane with the focus.
pub open spec fn focused(n: Node) -> u64
    decreases n,
{
    match n {
        Node::Leaf(p) => p,
        Node::Split { focus_first, first, second, .. } => if focus_first {
            focused(*first)
        } else {
            focused(*second)
        },
    }
}

/// How deep lines are nested.
pub open spec fn depth(n: Node) -> nat
    decreases n,
{
    match n {
        Node::Leaf(_) => 0,
        Node::Split { first, second, .. } => 1 + if depth(*first) > depth(*second) {
            depth(*first)
        } else {
            depth(*second)
        },
    }
}

/// Whether the focus can cross a line in a direction.
pub open spec fn crosses(partition: Partition, dir: Dir, focus_first: bool) -> bool {
    match partition {
        Partition::Vertical => (dir == Dir::Right && focus_first) || (dir == Dir::Left
            && !focus_first),
        Partition::Horizontal => (dir == Dir::Down && focus_first) || (dir == Dir::Up
            && !focus_first),
    }
}

/// The tree after the focus moved in a direction, across the innermost line
/// it can cross; `None` where it can cross none.
pub open spec fn focus_moved(n: Node, dir: Dir) -> Option<Node>
    decreases n,
{
    match n {
        Node::Leaf(_) => None,
        Node::Split { id, partition, focus_first, first, second } => {
            let inner = if focus_first {
                focus_moved(*first, dir)
            } else {
                focus_moved(*second, dir)
            };
            match inner {
                Some(child) => Some(
                    if focus_first {
                        Node::Split { id, partition, focus_first, first: Box::new(child), second }
                    } else {
                        Node::Split { id, partition, focus_first, first, second: Box::new(child) }
                    },
                ),
                None => if crosses(partition, dir, focus_first) {
                    Some(Node::Split { id, partition, focus_first: !focus_first, first, second })
                } else {
                    None
                },
            }
        },
    }
}

/// The tree after the pane with the focus was divided: a new pane on the
/// second side has the focus.
pub open spec fn divided(n: Node, partition: Partition, id: u64, pane: u64) -> Node
    decreases n,
{
    match n {
        Node::Leaf(p) => Node::Split {
            id,
            partition,
            focus_first: false,
            first: Box::new(Node::Leaf(p)),
            second: Box::new(Node::Leaf(pane)),
        },
        Node::Split { id: i, partition: q, focus_first, first, second } => if focus_first {
            Node::Split {
                id: i,
                partition: q,
                focus_first,
                first: Box::new(divided(*first, partition, id, pane)),
                second,
            }
        } else {
            Node::Split {
                id: i,
                partition: q,
                focus_first,
                first,
                second: Box::new(divided(*second, partition, id, pane)),
            }
        },
    }
}

/// The tree after the pane with the focus was closed: the other side of its
/// line takes its place; `None` where it was the only pane.
pub open spec fn closed(n: Node) -> Option<Node>
    decreases n,
{
    match n {
        Node::Leaf(_) => None,
        Node::Split { id, partition, focus_first, first, second } => if focus_first {
            match closed(*first) {
                None => Some(*second),
                Some(child) => Some(
                    Node::Split { id, partition, focus_first, first: Box::new(child), second },
                ),
            }
        } else {
            match closed(*second) {
                None => Some(*first),
                Some(child) => Some(
                    Node::Split { id, partition, focus_first, first, second: Box::new(child) },
                ),
            }
        },
    }
}

/// The innermost line with the focus that runs along an axis.
pub open spec fn line_along(n: Node, axis: Partition) -> Option<u64>
    decreases n,
{
    match n {
        Node::Leaf(_) => None,
        Node::Split { id, partition, focus_first, first, second } => {
            let inner = if focus_first {
                line_along(*first, axis)
            } else {
                line_along(*second, axis)
            };
            match inner {
                Some(l) => Some(l),
                None => if partition == axis {
                    Some(id)
                } else {
                    None
                },
            }
        },
    }
}

/// The tree after the focus went to the first pane of those given; `None`
/// where none of them is in it.
pub open spec fn focused_on(n: Node, panes: Seq<u64>) -> Option<Node>
    decreases n,
{
    match n {
        Node::Leaf(p) => if panes.contains(p) {
            Some(n)
        } else {
            None
        },
        Node::Split { id, partition, focus_first, first, second } => match focused_on(
            *first,
            panes,
        ) {
            Some(child) => Some(
                Node::Split { id, partition, focus_first: true, first: Box::new(child), second },
            ),
            None => match focused_on(*second, panes) {
                Some(child) => Some(
                    Node::Split {
                        id,
                        partition,
                        focus_first: false,
                        first,
                        second: Box::new(child),
                    },
                ),
                None => None,
            },
        },
    }
}

/// The tree without panes that have ended, `None` where all have; whether a
/// side of a line went away; and the panes that got the focus from one that
/// ended.
pub open spec fn pruned(n: Node, dead: Seq<u64>) -> (Option<Node>, bool, Seq<u64>)
    decreases n,
{
    match n {
        Node::Leaf(p) => (
            if dead.contains(p) {
                None
            } else {
                Some(n)
            },
            false,
            Seq::empty(),
        ),
        Node::Split { id, partition, focus_first, first, second } => {
            let (a, ca, ga) = pruned(*first, dead);
            let (b, cb, gb) = pruned(*second, dead);
            match (a, b) {
                (None, None) => (None, ca || cb, ga + gb),
                (None, Some(s)) => (
                    Some(s),
                    true,
                    if focus_first {
                        (ga + gb).push(focused(s))
                    } else {
                        ga + gb
                    },
                ),
                (Some(s), None) => (
                    Some(s),
                    true,
                    if !focus_first {
                        (ga + gb).push(focused(s))
                    } else {
                        ga + gb
                    },
                ),
                (Some(x), Some(y)) => (
                    Some(
                        Node::Split {
                            id,
                            partition,
                            focus_first,
                            first: Box::new(x),
                            second: Box::new(y),
                        },
                    ),
                    ca || cb,
                    ga + gb,
                ),
            }
        },
    }
}

/// Whether a number is in a list.
pub fn is_in(v: &Vec<u64>, x: u64) -> (r: bool)
    ensures
        r == v@.contains(x),
{
    let mut i: usize = 0;
    while i < v.len()
        invariant
            i <= v.len(),
            forall|k: int| 0 <= k < i ==> v@[k] != x,
        decreases v.len() - i,
    {
        if v[i] == x {
            assert(v@[i as int] == x);
            return true;
        }
        i += 1;
    }
    false
}

/// The middle of a line in pixels that `mid` may give.
pub open spec fn may_be_mid<F: Fn(u64, u32) -> u32>(mid: F, id: u64, e: u32, m: u32) -> bool {
    call_ensures(mid, (id, e), m)
}

/// Whether `places` gives the panes of a tree their rectangles within `vp`:
/// the whole of it to a single pane, and to the sides of a line what `mid`
/// and the gap leave of it.
pub open spec fn is_placed<F: Fn(u64, u32) -> u32>(
    n: Node,
    vp: Viewport,
    mid: F,
    places: Seq<(u64, Viewport)>,
) -> bool
    decreases n,
{
    match n {
        Node::Leaf(p) => places == seq![(p, vp)],
        Node::Split { id, partition, first, second, .. } => exists|m: u32, k: int|
            {
                &&& #[trigger] may_be_mid(mid, id, extent(partition, vp), m)
                &&& 0 <= k <= places.len()
                &&& is_placed(
                    *first,
                    sides(partition, m, vp).0,
                    mid,
                    #[trigger] places.subrange(0, k),
                )
                &&& is_placed(
                    *second,
                    sides(partition, m, vp).1,
                    mid,
                    places.subrange(k, places.len() as int),
                )
            },
    }
}

impl Node {
    /// The pane with the focus.
    pub fn focused_leaf(&self) -> (r: u64)
        ensures
            r == focused(*self),
        decreases self,
    {
        match self {
            Node::Leaf(p) => *p,
            Node::Split { focus_first, first, second, .. } => if *focus_first {
                first.focused_leaf()
            } else {
                second.focused_leaf()
            },
        }
    }

    /// The panes, from left to right and from top to bottom.
    pub fn all_leaves(&self) -> (r: Vec<u64>)
        ensures
            r@ == leaves(*self),
        decreases self,
    {
        match self {
            Node::Leaf(p) => {
                let mut v: Vec<u64> = Vec::new();
                v.push(*p);
                assert(v@ =~= seq![*p]);
                v
            },
            Node::Split { first, second, .. } => {
                let mut a = first.all_leaves();
                let mut b = second.all_leaves();
                a.append(&mut b);
                a
            },
        }
    }

    /// Whether lines are nested no deeper than `limit`.
    pub fn is_within(&self, limit: u32) -> (r: bool)
        ensures
            r == (depth(*self) <= limit),
        decreases self,
    {
        match self {
            Node::Leaf(_) => true,
            Node::Split { first, second, .. } => limit > 0 && first.is_within(limit - 1)
                && second.is_within(limit - 1),
        }
    }

    /// The line to move along an axis.
    pub fn resize_focused(&self, axis: Partition) -> (r: Option<u64>)
        ensures
            r == line_along(*self, axis),
        decreases self,
    {
        match self {
            Node::Leaf(_) => None,
            Node::Split { id, partition, focus_first, first, second } => {
                let inner = if *focus_first {
                    first.resize_focused(axis)
                } else {
                    second.resize_focused(axis)
                };
                match inner {
                    Some(l) => Some(l),
                    None => if *partition == axis {
                        Some(*id)
                    } else {
                        None
                    },
                }
            },
        }
    }

    /// Moves the focus in a direction; `None` gives the tree back unchanged.
    pub fn move_focus(self, dir: Dir) -> (r: (Node, bool))
        ensures
            (match focus_moved(self, dir) {
                Some(n) => r == (n, true),
                None => r == (self, false),
            }),
        decreases self,
    {
        match self {
            Node::Leaf(p) => (Node::Leaf(p), false),
            Node::Split { id, partition, focus_first, first, second } => {
                if focus_first {
                    let (child, moved) = (*first).move_focus(dir);
                    let first = Box::new(child);
                    if moved {
                        return (Node::Split { id, partition, focus_first, first, second }, true);
                    }
                    let can = match (partition, dir) {
                        (Partition::Vertical, Dir::Right) => true,
                        (Partition::Horizontal, Dir::Down) => true,
                        _ => false,
                    };
                    (Node::Split { id, partition, focus_first: !can, first, second }, can)
                } else {
                    let (child, moved) = (*second).move_focus(dir);
                    let second = Box::new(child);
                    if moved {
                        return (Node::Split { id, partition, focus_first, first, second }, true);
                    }
                    let can = match (partition, dir) {
                        (Partition::Vertical, Dir::Left) => true,
                        (Partition::Horizontal, Dir::Up) => true,
                        _ => false,
                    };
                    (Node::Split { id, partition, focus_first: can, first, second }, can)
                }
            },
        }
    }

    /// Divides the pane with the focus.
    pub fn split_focused(self, partition: Partition, id: u64, pane: u64) -> (r: Node)
        ensures
            r == divided(self, partition, id, pane),
        decreases self,
    {
        match self {
            Node::Leaf(p) => Node::Split {
                id,
                partition,
                focus_first: false,
                first: Box::new(Node::Leaf(p)),
                second: Box::new(Node::Leaf(pane)),
            },
            Node::Split { id: i, partition: q, focus_first, first, second } => {
                if focus_first {
                    let child = (*first).split_focused(partition, id, pane);
                    Node::Split { id: i, partition: q, focus_first, first: Box::new(child), second }
                } else {
                    let child = (*second).split_focused(partition, id, pane);
                    Node::Split { id: i, partition: q, focus_first, first, second: Box::new(child) }
                }
            },
        }
    }

    /// Closes the pane with the focus.
    pub fn close_focused(self) -> (r: Option<Node>)
        ensures
            r == closed(self),
        decreases self,
    {
        match self {
            Node::Leaf(_) => None,
            Node::Split { id, partition, focus_first, first, second } => {
                if focus_first {
                    match (*first).close_focused() {
                        None => Some(*second),
                        Some(child) => Some(
                            Node::Split {
                                id,
                                partition,
                                focus_first,
                                first: Box::new(child),
                                second,
                            },
                        ),
                    }
                } else {
                    match (*second).close_focused() {
                        None => Some(*first),
                        Some(child) => Some(
                            Node::Split {
                                id,
                                partition,
                                focus_first,
                                first,
                                second: Box::new(child),
                            },
                        ),
                    }
                }
            },
        }
    }

    /// Gives the focus to the first pane of those given; the tree stays as it
    /// is where none of them is in it.
    pub fn focus_at(self, panes: &Vec<u64>) -> (r: (Node, bool))
        ensures
            (match focused_on(self, panes@) {
                Some(n) => r == (n, true),
                None => r == (self, false),
            }),
        decreases self,
    {
        match self {
            Node::Leaf(p) => (Node::Leaf(p), is_in(panes, p)),
            Node::Split { id, partition, focus_first, first, second } => {
                let (a, hit) = (*first).focus_at(panes);
                let first = Box::new(a);
                if hit {
                    return (
                        Node::Split { id, partition, focus_first: true, first, second },
                        true,
                    );
                }
                let (b, hit) = (*second).focus_at(panes);
                let second = Box::new(b);
                if hit {
                    (Node::Split { id, partition, focus_first: false, first, second }, true)
                } else {
                    (Node::Split { id, partition, focus_first, first, second }, false)
                }
            },
        }
    }

    /// Takes panes that have ended out of the tree.
    pub fn prune(self, dead: &Vec<u64>) -> (r: (Option<Node>, bool, Vec<u64>))
        ensures
            (r.0, r.1, r.2@) == pruned(self, dead@),
        decreases self,
    {
        match self {
            Node::Leaf(p) => {
                let gained: Vec<u64> = Vec::new();
                assert(gained@ =~= Seq::empty());
                if is_in(dead, p) {
                    (None, false, gained)
                } else {
                    (Some(Node::Leaf(p)), false, gained)
                }
            },
            Node::Split { id, partition, focus_first, first, second } => {
                let (a, ca, mut gained) = (*first).prune(dead);
                let (b, cb, mut more) = (*second).prune(dead);
                gained.append(&mut more);
                match (a, b) {
                    (None, None) => (None, ca || cb, gained),
                    (None, Some(s)) => {
                        if focus_first {
                            gained.push(s.focused_leaf());
                        }
                        (Some(s), true, gained)
                    },
                    (Some(s), None) => {
                        if !focus_first {
                            gained.push(s.focused_leaf());
                        }
                        (Some(s), true, gained)
                    },
                    (Some(x), Some(y)) => (
                        Some(
                            Node::Split {
                                id,
                                partition,
                                focus_first,
                                first: Box::new(x),
                                second: Box::new(y),
                            },
                        ),
                        ca || cb,
                        gained,
                    ),
                }
            },
        }
    }

    /// The rectangles of the panes within `vp`. For a line and the extent it
    /// divides, `mid` gives where it stands.
    pub fn place<F: Fn(u64, u32) -> u32>(&self, vp: Viewport, mid: &F) -> (r: Vec<(u64, Viewport)>)
        requires
            forall|id: u64, e: u32| call_requires(*mid, (id, e)),
            forall|id: u64, e: u32, m: u32| #[trigger]
                may_be_mid(*mid, id, e, m) ==> m <= e,
            vp.x + vp.w + GAP * depth(*self) <= u32::MAX,
            vp.y + vp.h + GAP * depth(*self) <= u32::MAX,
        ensures
            is_placed(*self, vp, *mid, r@),
            r.len() == leaves(*self).len(),
            forall|i: int| 0 <= i < r.len() ==> (#[trigger] r[i]).0 == leaves(*self)[i],
        decreases self,
    {
        match self {
            Node::Leaf(p) => {
                let mut v: Vec<(u64, Viewport)> = Vec::new();
                v.push((*p, vp));
                assert(v@ =~= seq![(*p, vp)]);
                v
            },
            Node::Split { id, partition, first, second, .. } => {
                let e = match partition {
                    Partition::Vertical => vp.w,
                    Partition::Horizontal => vp.h,
                };
                let m = mid(*id, e);
                assert(may_be_mid(*mid, *id, e, m));
                proof {
                    assert(GAP * depth(*self) >= GAP * (1 + depth(**first))) by (nonlinear_arith)
                        requires
                            depth(*self) >= 1 + depth(**first),
                    ;
                    assert(GAP * depth(*self) >= GAP * (1 + depth(**second))) by (nonlinear_arith)
                        requires
                            depth(*self) >= 1 + depth(**second),
                    ;
                    assert(GAP * (1 + depth(**first)) == GAP + GAP * depth(**first))
                        by (nonlinear_arith);
                    assert(GAP * (1 + depth(**second)) == GAP + GAP * depth(**second))
                        by (nonlinear_arith);
                }
                let (a, b) = split_viewport(*partition, m, vp);
                let mut left = first.place(a, mid);
                let ghost lv = left@;
                let mut right = second.place(b, mid);
                let ghost rv = right@;
                left.append(&mut right);
                proof {
                    let k = lv.len() as int;
                    assert(left@.subrange(0, k) =~= lv);
                    assert(left@.subrange(k, left@.len() as int) =~= rv);
                    assert(may_be_mid(*mid, *id, extent(*partition, vp), m));
                }
                left
            },
        }
    }
}

// ---------------------------------------------------------------------------
// Laws
// ---------------------------------------------------------------------------

/// Moving the focus changes no pane.
pub proof fn law_focus_keeps_panes(n: Node, dir: Dir)
    requires
        focus_moved(n, dir) is Some,
    ensures
        leaves(focus_moved(n, dir)->0) == leaves(n),
    decreases n,
{
    if let Node::Split { focus_first, first, second, .. } = n {
        if focus_first {
            if focus_moved(*first, dir) is Some {
                law_focus_keeps_panes(*first, dir);
            }
        } else {
            if focus_moved(*second, dir) is Some {
                law_focus_keeps_panes(*second, dir);
            }
        }
    }
}

/// Dividing a pane and closing the new one leaves the tree as it was; the new
/// pane has the focus in between.
pub proof fn law_split_then_close(n: Node, partition: Partition, id: u64, pane: u64)
    ensures
        focused(divided(n, partition, id, pane)) == pane,
        closed(divided(n, partition, id, pane)) == Some(n),
        leaves(divided(n, partition, id, pane)).len() == leaves(n).len() + 1,
    decreases n,
{
    reveal_with_fuel(focused, 3);
    reveal_with_fuel(closed, 3);
    reveal_with_fuel(leaves, 3);
    if let Node::Split { focus_first, first, second, .. } = n {
        if focus_first {
            law_split_then_close(*first, partition, id, pane);
        } else {
            law_split_then_close(*second, partition, id, pane);
        }
    }
}

/// The pane with the focus is one of the panes.
pub proof fn law_focus_is_a_pane(n: Node)
    ensures
        leaves(n).contains(focused(n)),
        leaves(n).len() > 0,
    decreases n,
{
    match n {
        Node::Leaf(p) => {
            assert(leaves(n)[0] == p);
        },
        Node::Split { focus_first, first, second, .. } => {
            law_focus_is_a_pane(*first);
            law_focus_is_a_pane(*second);
            let a = leaves(*first);
            let b = leaves(*second);
            if focus_first {
                let i = choose|i: int| 0 <= i < a.len() && a[i] == focused(*first);
                assert((a + b)[i] == focused(n));
            } else {
                let i = choose|i: int| 0 <= i < b.len() && b[i] == focused(*second);
                assert((a + b)[a.len() + i] == focused(n));
            }
        },
    }
}

/// Closing takes one pane out.
pub proof fn law_close_removes_one(n: Node)
    ensures
        closed(n) is None ==> leaves(n) == seq![focused(n)],
        closed(n) is Some ==> exists|i: int|
            0 <= i < leaves(n).len() && leaves(n)[i] == focused(n) && leaves(closed(n)->0)
                == #[trigger] leaves(n).remove(i),
    decreases n,
{
    if let Node::Split { id, partition, focus_first, first, second } = n {
        let a = leaves(*first);
        let b = leaves(*second);
        assert(leaves(n) == a + b);
        if focus_first {
            law_close_removes_one(*first);
            if closed(*first) is None {
                assert((a + b).remove(0) =~= b);
                assert((a + b)[0] == focused(n));
                assert(leaves(closed(n)->0) == leaves(n).remove(0));
            } else {
                let i = choose|i: int|
                    0 <= i < a.len() && a[i] == focused(*first) && leaves(closed(*first)->0)
                        == #[trigger] a.remove(i);
                assert((a + b).remove(i) =~= a.remove(i) + b);
                assert((a + b)[i] == focused(n));
                assert(leaves(closed(n)->0) == leaves(n).remove(i));
            }
        } else {
            law_close_removes_one(*second);
            let k = a.len() as int;
            if closed(*second) is None {
                assert((a + b).remove(k) =~= a);
                assert((a + b)[k] == focused(n));
                assert(leaves(closed(n)->0) == leaves(n).remove(k));
            } else {
                let i = choose|i: int|
                    0 <= i < b.len() && b[i] == focused(*second) && leaves(closed(*second)->0)
                        == #[trigger] b.remove(i);
                assert((a + b).remove(k + i) =~= a + b.remove(i));
                assert((a + b)[k + i] == focused(n));
                assert(leaves(closed(n)->0) == leaves(n).remove(k + i));
            }
        }
    }
}

/// The panes that have not ended.
pub open spec fn living(panes: Seq<u64>, dead: Seq<u64>) -> Seq<u64> {
    panes.filter(|p: u64| !dead.contains(p))
}

pub proof fn lemma_living_add(a: Seq<u64>, b: Seq<u64>, dead: Seq<u64>)
    ensures
        living(a + b, dead) == living(a, dead) + living(b, dead),
    decreases b.len(),
{
    reveal(Seq::filter);
    if b.len() == 0 {
        assert(a + b =~= a);
        assert(living(a, dead) + living(b, dead) =~= living(a, dead));
    } else {
        lemma_living_add(a, b.drop_last(), dead);
        assert((a + b).drop_last() =~= a + b.drop_last());
        assert((a + b).last() == b.last());
        assert((living(a, dead) + living(b.drop_last(), dead)).push(b.last()) =~= living(a, dead)
            + living(b.drop_last(), dead).push(b.last()));
    }
}

/// Exactly the panes that have ended go, and the others keep their order.
pub proof fn law_prune_keeps_living(n: Node, dead: Seq<u64>)
    ensures
        pruned(n, dead).0 is Some ==> leaves(pruned(n, dead).0->0) == living(leaves(n), dead),
        pruned(n, dead).0 is None ==> living(leaves(n), dead).len() == 0,
    decreases n,
{
    reveal(Seq::filter);
    match n {
        Node::Leaf(p) => {
            let one = seq![p];
            assert(one.drop_last() =~= Seq::empty());
            assert(Seq::<u64>::empty().filter(|p: u64| !dead.contains(p)) =~= Seq::empty());
            assert(one.last() == p);
            if !dead.contains(p) {
                assert(Seq::<u64>::empty().push(p) =~= one);
            }
        },
        Node::Split { first, second, .. } => {
            law_prune_keeps_living(*first, dead);
            law_prune_keeps_living(*second, dead);
            lemma_living_add(leaves(*first), leaves(*second), dead);
            let a = living(leaves(*first), dead);
            let b = living(leaves(*second), dead);
            if a.len() == 0 {
                assert(a + b =~= b);
            }
            if b.len() == 0 {
                assert(a + b =~= a);
            }
        },
    }
}

} // verus!
