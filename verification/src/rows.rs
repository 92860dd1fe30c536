//! Rows of a pane: cells, and what a click on them does.

use crate::styled::{cells_for_line, cells_for_segments, line_cells, plain_line, plain_span};
use crate::terminal::{Cell, Color, Line};
use vstd::prelude::*;
use vstd::string::*;

verus! {

/// `a - b`, but not below zero.
pub open spec fn sat_sub(a: nat, b: nat) -> nat {
    if a > b {
        (a - b) as nat
    } else {
        0
    }
}

/// The lesser of two numbers.
pub open spec fn lesser(a: nat, b: nat) -> nat {
    if a < b {
        a
    } else {
        b
    }
}

/// One if `b`, else none.
pub open spec fn one_if(b: bool) -> nat {
    if b {
        1
    } else {
        0
    }
}

/// Rows under way: lines and the actions that belong to them.
pub struct RowSink<A> {
    pub lines: Vec<Line>,
    pub actions: Vec<Option<A>>,
}

/// The contents of an optional action.
pub open spec fn opt_view<A: View>(a: Option<A>) -> Option<A::V> {
    match a {
        Some(x) => Some(x@),
        None => None,
    }
}

/// The rows that lines and actions make.
pub open spec fn row_views<A: View>(lines: Seq<Line>, actions: Seq<Option<A>>) -> Seq<
    (Seq<Cell>, Option<A::V>),
> {
    Seq::new(lines.len(), |i: int| (lines[i]@, opt_view(actions[i])))
}

/// The contents of coloured texts.
pub open spec fn seg_views(v: Seq<(String, Color)>) -> Seq<(Seq<char>, Color)> {
    Seq::new(v.len(), |i: int| (v[i].0@, v[i].1))
}

/// The cells of coloured texts one after the other.
pub open spec fn seg_cells(segs: Seq<(Seq<char>, Color)>, cols: nat) -> Seq<Cell> {
    line_cells(Seq::new(segs.len(), |i: int| plain_span(segs[i].0, segs[i].1)), cols)
}

/// The cells of a text in one colour.
pub open spec fn text_cells(text: Seq<char>, fg: Color, cols: nat) -> Seq<Cell> {
    line_cells(plain_line(text, fg), cols)
}

impl<A: View> RowSink<A> {
    pub open spec fn holds(&self, r: Seq<(Seq<Cell>, Option<A::V>)>) -> bool {
        self.lines.len() == self.actions.len() && row_views(self.lines@, self.actions@) == r
    }

    /// No rows.
    pub fn new() -> (r: Self)
        ensures
            r.holds(Seq::empty()),
            r.lines.len() == 0,
    {
        let r = RowSink { lines: Vec::new(), actions: Vec::new() };
        assert(row_views(r.lines@, r.actions@) =~= Seq::empty());
        r
    }

    /// Adds a row.
    pub fn push(&mut self, cells: Vec<Cell>, action: Option<A>, Ghost(r): Ghost<
        Seq<(Seq<Cell>, Option<A::V>)>,
    >)
        requires
            old(self).holds(r),
        ensures
            final(self).holds(r.push((cells@, opt_view(action)))),
            final(self).lines.len() == old(self).lines.len() + 1,
    {
        self.lines.push(Line::from_cells(cells, false));
        self.actions.push(action);
        assert(row_views(self.lines@, self.actions@) =~= r.push((cells@, opt_view(action))));
    }

    /// Adds a row with text in one colour.
    pub fn text(&mut self, text: &str, fg: Color, cols: usize, action: Option<A>, Ghost(r): Ghost<
        Seq<(Seq<Cell>, Option<A::V>)>,
    >)
        requires
            old(self).holds(r),
        ensures
            final(self).holds(r.push((text_cells(text@, fg, cols as nat), opt_view(action)))),
            final(self).lines.len() == old(self).lines.len() + 1,
    {
        self.push(cells_for_line(text, cols, fg), action, Ghost(r));
    }

    /// Adds a row with coloured texts.
    pub fn segments(
        &mut self,
        segs: &Vec<(String, Color)>,
        cols: usize,
        action: Option<A>,
        Ghost(r): Ghost<Seq<(Seq<Cell>, Option<A::V>)>>,
    )
        requires
            old(self).holds(r),
        ensures
            final(self).holds(
                r.push((seg_cells(seg_views(segs@), cols as nat), opt_view(action))),
            ),
            final(self).lines.len() == old(self).lines.len() + 1,
    {
        let cells = cells_for_segments(segs, cols);
        proof {
            let sv = seg_views(segs@);
            assert(Seq::new(sv.len(), |i: int| plain_span(sv[i].0, sv[i].1)) =~= Seq::new(
                segs@.len(),
                |i: int| plain_span(segs@[i].0@, segs@[i].1),
            ));
        }
        self.push(cells, action, Ghost(r));
    }

    /// Drops the rows beyond the first `n`.
    pub fn truncate(&mut self, n: usize, Ghost(r): Ghost<Seq<(Seq<Cell>, Option<A::V>)>>)
        requires
            old(self).holds(r),
        ensures
            final(self).holds(
                if r.len() > n {
                    r.subrange(0, n as int)
                } else {
                    r
                },
            ),
    {
        assert(r.len() == self.lines.len());
        self.lines.truncate(n);
        self.actions.truncate(n);
        assert(row_views(self.lines@, self.actions@) =~= (if r.len() > n {
            r.subrange(0, n as int)
        } else {
            r
        }));
    }
}

} // verus!
