//! The rectangles of everything in the window.

use crate::highlight::Highlighter;
use crate::layout::{depth, is_placed, leaves, may_be_mid, workbench, workbench_viewports, Node};
use crate::multiplexer::{
    all_panes, asking, content, reader_of, reader_ok, reading, side_of, side_ok, Effect,
    Multiplexer, Mux, MuxEffect,
};
use crate::reader::moved;
use crate::sidebar::{redrawn, Side};
use crate::view::Viewport;
use vstd::prelude::*;

verus! {

/// The largest extent of a window, and the deepest nesting of lines in it.
pub const EXTENT_MAX: u32 = 0x1000_0000;

/// What the workbench leaves for the terminal.
pub open spec fn terminal_area(m: Mux, side_mid: u32, preview_mid: u32) -> Viewport {
    if m.side.visible {
        workbench(content(m), side_mid, preview_mid).terminal
    } else {
        content(m)
    }
}

/// The sidebar, and the preview or the editor, have their rectangles.
#[verifier::opaque]
pub open spec fn workbench_arranged(m: Mux, side_mid: u32, preview_mid: u32, now: u64) -> Mux {
    if !m.side.visible {
        m
    } else {
        let w = workbench(content(m), side_mid, preview_mid);
        let a = Mux { side: redrawn(Side { viewport: w.sidebar, ..m.side }, now), ..m };
        let b = match m.editor {
            Some(pane) => asking(a, Effect::SetViewport { pane, viewport: w.preview }),
            None => a,
        };
        let (reader, q) = moved(b.reader, w.preview, now);
        reading(Mux { reader, ..b }, q)
    }
}

/// Panes are told their rectangles.
pub open spec fn placing(places: Seq<(u64, Viewport)>) -> Seq<Effect> {
    Seq::new(
        places.len(),
        |i: int| Effect::SetViewport { pane: places[i].0, viewport: places[i].1 },
    )
}

/// Whether `places` gives the panes of the first `n` tabs their rectangles, each
/// tab within the whole of `vp`.
pub open spec fn tabs_placed<F: Fn(u64, u32) -> u32>(
    tabs: Seq<Node>,
    vp: Viewport,
    mid: F,
    n: int,
    places: Seq<(u64, Viewport)>,
) -> bool
    decreases n,
{
    if n <= 0 {
        places.len() == 0
    } else {
        exists|k: int|
            {
                &&& 0 <= k <= places.len()
                &&& tabs_placed(tabs, vp, mid, n - 1, #[trigger] places.subrange(0, k))
                &&& is_placed(tabs[n - 1], vp, mid, places.subrange(k, places.len() as int))
            }
    }
}

/// The extents are small enough to count in pixels.
pub open spec fn can_arrange(m: Mux, side_mid: u32, preview_mid: u32) -> bool {
    &&& m.viewport.w <= EXTENT_MAX
    &&& m.viewport.h <= EXTENT_MAX
    &&& m.bar_cell.h <= EXTENT_MAX
    &&& side_mid <= EXTENT_MAX
    &&& preview_mid <= EXTENT_MAX
    &&& forall|i: int| 0 <= i < m.tabs.len() ==> depth(#[trigger] m.tabs[i]) <= EXTENT_MAX
}

impl Multiplexer {
    /// Whether the extents are small enough to count in pixels.
    pub fn is_arrangeable(&self, side_mid: u32, preview_mid: u32) -> (r: bool)
        ensures
            r == can_arrange(self@, side_mid, preview_mid),
    {
        let mut i: usize = 0;
        while i < self.tabs.len()
            invariant
                i <= self.tabs.len(),
                forall|k: int| 0 <= k < i ==> depth(#[trigger] self@.tabs[k]) <= EXTENT_MAX,
            decreases self.tabs.len() - i,
        {
            if !self.tabs[i].is_within(EXTENT_MAX) {
                assert(depth(self@.tabs[i as int]) > EXTENT_MAX);
                return false;
            }
            i += 1;
        }
        self.viewport.w <= EXTENT_MAX && self.viewport.h <= EXTENT_MAX && self.bar_cell.h
            <= EXTENT_MAX && side_mid <= EXTENT_MAX && preview_mid <= EXTENT_MAX
    }

    fn place_side(&mut self, viewport: Viewport, now: u64)
        requires
            old(self).wf(),
        ensures
            final(self).wf(),
            final(self)@ == (Mux {
                side: redrawn(Side { viewport, ..old(self)@.side }, now),
                ..old(self)@
            }),
    {
        reveal(side_of);
        reveal(side_ok);
        self.sidebar.set_viewport(viewport, now);
    }

    fn place_reader(&mut self, viewport: Viewport, h: &Highlighter, now: u64)
        requires
            old(self).wf(),
        ensures
            final(self).wf(),
            final(self)@ == ({
                let (reader, q) = moved(old(self)@.reader, viewport, now);
                reading(Mux { reader, ..old(self)@ }, q)
            }),
    {
        reveal(reader_of);
        reveal(reader_ok);
        let q = self.reader.set_viewport(viewport, h, now);
        self.read(q);
    }

    fn arrange_workbench(&mut self, side_mid: u32, preview_mid: u32, h: &Highlighter, now: u64) -> (r:
        Viewport)
        requires
            old(self).wf(),
            can_arrange(old(self)@, side_mid, preview_mid),
        ensures
            final(self).wf(),
            final(self)@.tabs == old(self)@.tabs,
            final(self)@ == workbench_arranged(old(self)@, side_mid, preview_mid, now),
            r == terminal_area(old(self)@, side_mid, preview_mid),
    {
        reveal(workbench_arranged);
        let area = self.content_viewport();
        if !self.is_open() {
            return area;
        }
        let w = workbench_viewports(area, side_mid, preview_mid);
        self.place_side(w.sidebar, now);
        if let Some(pane) = self.editor {
            self.ask(MuxEffect::SetViewport { pane, viewport: w.preview });
        }
        self.place_reader(w.preview, h, now);
        w.terminal
    }

    fn place_tabs<F: Fn(u64, u32) -> u32>(&self, vp: Viewport, mid: &F) -> (r: Vec<(u64, Viewport)>)
        requires
            forall|id: u64, e: u32| call_requires(*mid, (id, e)),
            forall|id: u64, e: u32, m: u32| #[trigger]
                may_be_mid(*mid, id, e, m) ==> m <= e,
            vp.x + vp.w <= 3 * EXTENT_MAX,
            vp.y + vp.h <= 3 * EXTENT_MAX,
            forall|i: int|
                0 <= i < self@.tabs.len() ==> depth(#[trigger] self@.tabs[i]) <= EXTENT_MAX,
        ensures
            tabs_placed(self@.tabs, vp, *mid, self@.tabs.len() as int, r@),
    {
        let mut out: Vec<(u64, Viewport)> = Vec::new();
        let mut i: usize = 0;
        while i < self.tabs.len()
            invariant
                i <= self.tabs.len(),
                forall|id: u64, e: u32| call_requires(*mid, (id, e)),
                forall|id: u64, e: u32, m: u32| #[trigger]
                    may_be_mid(*mid, id, e, m) ==> m <= e,
                vp.x + vp.w <= 3 * EXTENT_MAX,
                vp.y + vp.h <= 3 * EXTENT_MAX,
                forall|i: int|
                    0 <= i < self@.tabs.len() ==> depth(#[trigger] self@.tabs[i]) <= EXTENT_MAX,
                tabs_placed(self@.tabs, vp, *mid, i as int, out@),
            decreases self.tabs.len() - i,
        {
            assert(depth(self@.tabs[i as int]) <= EXTENT_MAX);
            let ghost before = out@;
            let mut more = self.tabs[i].place(vp, mid);
            let ghost added = more@;
            out.append(&mut more);
            proof {
                let k = before.len() as int;
                assert(out@.subrange(0, k) =~= before);
                assert(out@.subrange(k, out@.len() as int) =~= added);
            }
            i += 1;
        }
        out
    }

    fn tell_places(&mut self)
        requires
            old(self).wf(),
        ensures
            final(self).wf(),
            final(self)@ == (Mux {
                effects: old(self)@.effects + placing(old(self)@.places),
                ..old(self)@
            }),
    {
        let ghost start = self@;
        let ghost all = placing(start.places);
        let mut i: usize = 0;
        assert(start.effects + all.subrange(0, 0) =~= start.effects);
        while i < self.places.len()
            invariant
                self.wf(),
                start == old(self)@,
                all == placing(start.places),
                self@.places == start.places,
                i <= self.places.len(),
                self@ == (Mux { effects: start.effects + all.subrange(0, i as int), ..start }),
            decreases self.places.len() - i,
        {
            let (pane, viewport) = self.places[i];
            self.ask(MuxEffect::SetViewport { pane, viewport });
            assert((start.effects + all.subrange(0, i as int)).push(all[i as int])
                =~= start.effects + all.subrange(0, i + 1));
            i += 1;
        }
        assert(all.subrange(0, all.len() as int) =~= all);
    }

    /// Works out the rectangles of everything in the window. The line beside
    /// the sidebar stands at `side_mid` and the one below the preview at
    /// `preview_mid`; for a line between panes and the extent it divides, `mid`
    /// gives where it stands.
    pub fn refresh_layout<F: Fn(u64, u32) -> u32>(
        &mut self,
        side_mid: u32,
        preview_mid: u32,
        mid: &F,
        h: &Highlighter,
        now: u64,
    )
        requires
            old(self).wf(),
            can_arrange(old(self)@, side_mid, preview_mid),
            forall|id: u64, e: u32| call_requires(*mid, (id, e)),
            forall|id: u64, e: u32, m: u32| #[trigger]
                may_be_mid(*mid, id, e, m) ==> m <= e,
        ensures
            final(self).wf(),
            tabs_placed(
                old(self)@.tabs,
                terminal_area(old(self)@, side_mid, preview_mid),
                *mid,
                old(self)@.tabs.len() as int,
                final(self)@.places,
            ),
            ({
                let a = workbench_arranged(old(self)@, side_mid, preview_mid, now);
                final(self)@ == (Mux {
                    places: final(self)@.places,
                    effects: a.effects + placing(final(self)@.places),
                    ..a
                })
            }),
    {
        let area = self.arrange_workbench(side_mid, preview_mid, h, now);
        self.places = self.place_tabs(area, mid);
        self.tell_places();
    }
}

/// Every pane of every tab has a rectangle, and nothing else has one.
pub proof fn law_every_pane_placed<F: Fn(u64, u32) -> u32>(
    tabs: Seq<Node>,
    vp: Viewport,
    mid: F,
    n: int,
    places: Seq<(u64, Viewport)>,
)
    requires
        0 <= n <= tabs.len(),
        tabs_placed(tabs, vp, mid, n, places),
    ensures
        places.len() == all_panes(tabs, n).len(),
        forall|i: int| 0 <= i < places.len() ==> (#[trigger] places[i]).0 == all_panes(tabs, n)[i],
    decreases n,
{
    if n > 0 {
        let k = choose|k: int|
            {
                &&& 0 <= k <= places.len()
                &&& tabs_placed(tabs, vp, mid, n - 1, #[trigger] places.subrange(0, k))
                &&& is_placed(tabs[n - 1], vp, mid, places.subrange(k, places.len() as int))
            };
        let a = places.subrange(0, k);
        let b = places.subrange(k, places.len() as int);
        law_every_pane_placed(tabs, vp, mid, n - 1, a);
        lemma_placed_panes(tabs[n - 1], vp, mid, b);
        assert forall|i: int| 0 <= i < places.len() implies (#[trigger] places[i]).0 == all_panes(
            tabs,
            n,
        )[i] by {
            if i < k {
                assert(places[i] == a[i]);
            } else {
                assert(places[i] == b[i - k]);
            }
        }
    }
}

proof fn lemma_placed_panes<F: Fn(u64, u32) -> u32>(
    n: Node,
    vp: Viewport,
    mid: F,
    places: Seq<(u64, Viewport)>,
)
    requires
        is_placed(n, vp, mid, places),
    ensures
        places.len() == leaves(n).len(),
        forall|i: int| 0 <= i < places.len() ==> (#[trigger] places[i]).0 == leaves(n)[i],
    decreases n,
{
    if let Node::Split { id, partition, focus_first, first, second } = n {
        let (m, k) = choose|m: u32, k: int|
            {
                &&& #[trigger] may_be_mid(mid, id, crate::layout::extent(partition, vp), m)
                &&& 0 <= k <= places.len()
                &&& is_placed(
                    *first,
                    crate::layout::sides(partition, m, vp).0,
                    mid,
                    #[trigger] places.subrange(0, k),
                )
                &&& is_placed(
                    *second,
                    crate::layout::sides(partition, m, vp).1,
                    mid,
                    places.subrange(k, places.len() as int),
                )
            };
        let a = places.subrange(0, k);
        let b = places.subrange(k, places.len() as int);
        lemma_placed_panes(*first, crate::layout::sides(partition, m, vp).0, mid, a);
        lemma_placed_panes(*second, crate::layout::sides(partition, m, vp).1, mid, b);
        assert forall|i: int| 0 <= i < places.len() implies (#[trigger] places[i]).0 == leaves(
            n,
        )[i] by {
            if i < k {
                assert(places[i] == a[i]);
            } else {
                assert(places[i] == b[i - k]);
            }
        }
    }
}

} // verus!
