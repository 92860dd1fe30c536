//! The data that is drawn: cells, lines, colours and the cursor.

use vstd::prelude::*;

verus! {

/// An image placed on the cell grid.
#[derive(Debug)]
pub struct PositionedImage {
    pub row: isize,
    pub col: isize,
    pub height: u64,
    pub width: u64,
    pub data: Vec<u8>,
}

/// The contents of an image on the grid.
pub ghost struct Picture {
    pub row: int,
    pub col: int,
    pub height: nat,
    pub width: nat,
    pub data: Seq<u8>,
}

impl View for PositionedImage {
    type V = Picture;

    open spec fn view(&self) -> Picture {
        Picture {
            row: self.row as int,
            col: self.col as int,
            height: self.height as nat,
            width: self.width as nat,
            data: self.data@,
        }
    }
}

impl Clone for PositionedImage {
    fn clone(&self) -> (r: Self)
        ensures
            r@ == self@,
    {
        let data = self.data.clone();
        assert(data@ =~= self.data@);
        PositionedImage {
            row: self.row,
            col: self.col,
            height: self.height,
            width: self.width,
            data,
        }
    }
}

/// The contents of each image.
pub open spec fn pictures(v: Seq<PositionedImage>) -> Seq<Picture> {
    Seq::new(v.len(), |i: int| v[i]@)
}

#[derive(Debug, Clone, Copy, PartialEq, Eq, Structural)]
pub struct TerminalSize {
    pub rows: usize,
    pub cols: usize,
}

#[derive(Debug, Clone, Copy, PartialEq, Eq, Structural)]
pub struct CellSize {
    pub w: u32,
    pub h: u32,
}

#[derive(Debug, Clone, Copy, PartialEq, Eq, Structural)]
pub enum Color {
    Black,
    Red,
    Green,
    Yellow,
    Blue,
    Magenta,
    Cyan,
    White,
    BrightBlack,
    BrightRed,
    BrightGreen,
    BrightYellow,
    BrightBlue,
    BrightMagenta,
    BrightCyan,
    BrightWhite,
    Rgb { rgba: u32 },
    Special,
    Foreground,
    Background,
    Selection,
}

#[derive(Debug, Clone, Copy, PartialEq, Eq, Structural)]
pub struct GraphicAttribute {
    pub fg: Color,
    pub bg: Color,
    pub bold: i8,
    pub inversed: bool,
    pub blinking: u8,
    pub concealed: bool,
}

/// The attribute of ordinary text.
pub open spec fn plain_attr() -> GraphicAttribute {
    GraphicAttribute {
        fg: Color::Foreground,
        bg: Color::Background,
        bold: 0,
        inversed: false,
        blinking: 0,
        concealed: false,
    }
}

impl GraphicAttribute {
    pub fn default() -> (r: Self)
        ensures
            r == plain_attr(),
    {
        GraphicAttribute {
            fg: Color::Foreground,
            bg: Color::Background,
            bold: 0,
            inversed: false,
            blinking: 0,
            concealed: false,
        }
    }
}

/// One cell of the grid. `backlink` is the distance to the cell that holds
/// the character covering this one.
#[derive(Debug, Clone, Copy, PartialEq, Eq, Structural)]
pub struct Cell {
    pub ch: char,
    pub width: u16,
    pub backlink: u16,
    pub attr: GraphicAttribute,
}

/// A cell that starts a character of the given width.
pub open spec fn head_cell(ch: char, width: u16, attr: GraphicAttribute) -> Cell {
    Cell { ch, width, backlink: 0, attr }
}

/// A cell of width zero at the given distance behind its head.
pub open spec fn spacer_cell(backlink: u16) -> Cell {
    Cell { ch: ' ', width: 0, backlink, attr: plain_attr() }
}

/// A blank cell.
pub open spec fn space_cell() -> Cell {
    head_cell(' ', 1, plain_attr())
}

/// The cell that stands behind the end of a line's text.
pub open spec fn term_cell() -> Cell {
    head_cell('\n', 1, plain_attr())
}

/// A cell covered by a wide character `d` cells to its left.
pub open spec fn void_cell(d: u16) -> Cell {
    Cell { ch: '#', width: 0, backlink: d, attr: plain_attr() }
}

impl Cell {
    /// A cell of width one with the default attribute.
    pub fn new_ascii(ch: char) -> (r: Cell)
        ensures
            r == head_cell(ch, 1, plain_attr()),
    {
        Cell { ch, width: 1, backlink: 0, attr: GraphicAttribute::default() }
    }

    /// A cell that starts a character of the given width.
    pub fn head(ch: char, width: u16, attr: GraphicAttribute) -> (r: Cell)
        ensures
            r == head_cell(ch, width, attr),
    {
        Cell { ch, width, backlink: 0, attr }
    }

    /// A cell of width zero, such as the right half of a wide character.
    pub fn spacer(backlink: u16) -> (r: Cell)
        ensures
            r == spacer_cell(backlink),
    {
        Cell { ch: ' ', width: 0, backlink, attr: GraphicAttribute::default() }
    }

    /// A blank cell.
    pub fn space() -> (r: Cell)
        ensures
            r == space_cell(),
    {
        Cell::new_ascii(' ')
    }

    /// The cell that stands behind the end of a line's text.
    pub fn term() -> (r: Cell)
        ensures
            r == term_cell(),
    {
        Cell::new_ascii('\n')
    }
}

// ---------------------------------------------------------------------------
// Lines
// ---------------------------------------------------------------------------

/// The position of the cell that holds the character covering position `i`.
pub open spec fn head_pos(c: Seq<Cell>, i: int) -> int {
    i - c[i].backlink
}

/// Position `i` belongs to a character: its head lies on the line, is a head,
/// has a width that reaches `i`, and every cell behind the head within the
/// width has width zero.
pub open spec fn linked_at(c: Seq<Cell>, i: int) -> bool {
    let h = head_pos(c, i);
    &&& 0 <= h
    &&& c[h].backlink == 0
    &&& 1 <= c[h].width
    &&& i < h + c[h].width
    &&& (h < i ==> c[i].width == 0)
}

/// Every cell covered by a wide character points back to its head.
pub open spec fn covers(c: Seq<Cell>, h: int, j: int) -> bool {
    c[h].backlink == 0 && h < j < h + c[h].width ==> c[j].backlink == j - h
}

/// The links between heads and the cells they cover agree on the whole line.
pub open spec fn linked(c: Seq<Cell>) -> bool {
    &&& forall|i: int| 0 <= i < c.len() ==> #[trigger] linked_at(c, i)
    &&& forall|h: int, j: int| 0 <= h < j < c.len() ==> #[trigger] covers(c, h, j)
}

/// No wide character reaches beyond the end of the line.
pub open spec fn fits(c: Seq<Cell>) -> bool {
    forall|i: int|
        0 <= i < c.len() && (#[trigger] c[i]).backlink == 0 ==> i + c[i].width <= c.len()
}

/// The character covering position `i` also covers a position from `a` up to `b`.
pub open spec fn touches(c: Seq<Cell>, i: int, a: int, b: int) -> bool {
    let h = head_pos(c, i);
    a < b && h < b && a < h + c[h].width
}

/// The line after every character that covers a position from `a` up to `b`
/// has been replaced by blanks.
pub open spec fn erased(c: Seq<Cell>, a: int, b: int) -> Seq<Cell> {
    Seq::new(
        c.len(),
        |i: int|
            if touches(c, i, a, b) {
                space_cell()
            } else {
                c[i]
            },
    )
}

/// The line after `cell` and the cells it covers have been written at `at`.
pub open spec fn placed(c: Seq<Cell>, at: int, cell: Cell) -> Seq<Cell> {
    Seq::new(
        c.len(),
        |i: int|
            if i == at {
                cell
            } else if at < i < at + cell.width {
                void_cell((i - at) as u16)
            } else {
                c[i]
            },
    )
}

/// The line cut or extended to `n` cells.
pub open spec fn stretched(c: Seq<Cell>, n: int) -> Seq<Cell> {
    Seq::new(
        n as nat,
        |i: int|
            if i < c.len() {
                c[i]
            } else {
                term_cell()
            },
    )
}

/// The line after the `count` cells from `start` have been copied to `dst`.
/// A character that the copy cuts, in the source or at the edges of the
/// destination, becomes blanks.
pub open spec fn copied_within(c: Seq<Cell>, start: int, count: int, dst: int) -> Seq<Cell> {
    Seq::new(
        c.len(),
        |i: int|
            if dst <= i < dst + count {
                let s = start + (i - dst);
                let h = head_pos(c, s);
                if start <= h && h + c[h].width <= start + count {
                    c[s]
                } else {
                    space_cell()
                }
            } else if touches(c, i, dst, dst + count) {
                space_cell()
            } else {
                c[i]
            },
    )
}

/// Two positions are covered by the same character exactly if they have the
/// same head; a character's positions are those from its head on.
proof fn lemma_same_head(c: Seq<Cell>, h: int, i: int)
    requires
        linked(c),
        0 <= h <= i < c.len(),
        c[h].backlink == 0,
    ensures
        i < h + c[h].width ==> head_pos(c, i) == h,
        i >= h + c[h].width ==> head_pos(c, i) >= h + c[h].width,
{
    if h < i {
        assert(covers(c, h, i));
        assert(linked_at(c, i));
        let k = head_pos(c, i);
        if i >= h + c[h].width && k < h + c[h].width {
            assert(linked_at(c, h));
            if h < k {
                assert(covers(c, h, k));
            } else if k < h {
                assert(covers(c, k, h));
            }
        }
    } else {
        assert(linked_at(c, h));
    }
}

proof fn lemma_erased(c: Seq<Cell>, a: int, b: int)
    requires
        linked(c),
    ensures
        linked(erased(c, a, b)),
        fits(c) ==> fits(erased(c, a, b)),
{
    let e = erased(c, a, b);
    assert forall|i: int| 0 <= i < e.len() implies #[trigger] linked_at(e, i) by {
        assert(linked_at(c, i));
        let h = head_pos(c, i);
        assert(linked_at(c, h));
        assert(touches(c, h, a, b) == touches(c, i, a, b));
    }
    assert forall|h: int, j: int| 0 <= h < j < e.len() implies #[trigger] covers(e, h, j) by {
        assert(covers(c, h, j));
        assert(linked_at(c, h));
        assert(linked_at(c, j));
        if e[h].backlink == 0 && h < j < h + e[h].width {
            assert(!touches(c, h, a, b));
            assert(c[j].backlink == j - h);
            assert(touches(c, h, a, b) == touches(c, j, a, b));
        }
    }
    if fits(c) {
        assert forall|i: int| 0 <= i < e.len() && (#[trigger] e[i]).backlink == 0 implies i
            + e[i].width <= e.len() by {
            assert(c[i].backlink == 0 || touches(c, i, a, b));
        }
    }
}

proof fn lemma_erased_grows(c: Seq<Cell>, a: int, b: int)
    requires
        linked(c),
        0 <= a <= b < c.len(),
    ensures
        erased(erased(c, a, b), b, b + 1) == erased(c, a, b + 1),
{
    let e = erased(c, a, b);
    let x = erased(e, b, b + 1);
    let y = erased(c, a, b + 1);
    assert forall|i: int| 0 <= i < c.len() implies x[i] == y[i] by {
        assert(linked_at(c, i));
        assert(linked_at(c, b));
        let h = head_pos(c, i);
        assert(linked_at(c, h));
        assert(touches(c, h, a, b) == touches(c, i, a, b));
    }
    assert(x =~= y);
}

proof fn lemma_stretched(c: Seq<Cell>, n: int)
    requires
        linked(c),
        fits(c),
        n > 0,
    ensures
        linked(stretched(c, n)),
{
    let e = stretched(c, n);
    assert forall|i: int| 0 <= i < e.len() implies #[trigger] linked_at(e, i) by {
        if i < c.len() {
            assert(linked_at(c, i));
        }
    }
    assert forall|h: int, j: int| 0 <= h < j < e.len() implies #[trigger] covers(e, h, j) by {
        if j < c.len() {
            assert(covers(c, h, j));
        } else if h < c.len() {
            assert(c[h].backlink == 0 ==> h + c[h].width <= c.len());
        }
    }
}

proof fn lemma_placed(c: Seq<Cell>, at: int, cell: Cell)
    requires
        linked(c),
        fits(c),
        0 <= at,
        at + cell.width <= c.len(),
        cell.backlink == 0,
        cell.width >= 1,
    ensures
        linked(placed(erased(c, at, at + cell.width), at, cell)),
        fits(placed(erased(c, at, at + cell.width), at, cell)),
{
    let b = at + cell.width;
    let e = erased(c, at, b);
    let p = placed(e, at, cell);
    lemma_erased(c, at, b);
    assert forall|i: int| 0 <= i < at || b <= i < c.len() implies {
        let h = #[trigger] head_pos(e, i);
        &&& (i < at ==> h + e[h].width <= at)
        &&& (b <= i ==> h >= b)
    } by {
        assert(linked_at(c, i));
        assert(linked_at(e, i));
        let h = head_pos(c, i);
        assert(linked_at(c, h));
        assert(touches(c, h, at, b) == touches(c, i, at, b));
    }
    assert forall|i: int| 0 <= i < p.len() implies #[trigger] linked_at(p, i) by {
        assert(linked_at(e, i));
    }
    assert forall|h: int, j: int| 0 <= h < j < p.len() implies #[trigger] covers(p, h, j) by {
        assert(covers(e, h, j));
        assert(linked_at(e, h));
    }
}

proof fn lemma_copied_within(c: Seq<Cell>, start: int, count: int, dst: int)
    requires
        linked(c),
        fits(c),
        0 <= start,
        0 <= count,
        0 <= dst,
        start + count <= c.len(),
        dst + count <= c.len(),
    ensures
        linked(copied_within(c, start, count, dst)),
        fits(copied_within(c, start, count, dst)),
{
    let e = copied_within(c, start, count, dst);
    let stop = dst + count;
    assert forall|i: int| 0 <= i < e.len() implies #[trigger] linked_at(e, i) && (e[i].backlink == 0
        ==> i + e[i].width <= e.len()) by {
        if dst <= i < stop {
            let s = start + (i - dst);
            assert(linked_at(c, s));
            let h = head_pos(c, s);
            assert(linked_at(c, h));
        } else {
            assert(linked_at(c, i));
            let h = head_pos(c, i);
            assert(linked_at(c, h));
            assert(touches(c, h, dst, stop) == touches(c, i, dst, stop));
        }
    }
    assert forall|h: int, j: int| 0 <= h < j < e.len() implies #[trigger] covers(e, h, j) by {
        if e[h].backlink == 0 && j < h + e[h].width {
            if dst <= h < stop {
                let s = start + (h - dst);
                assert(linked_at(c, s));
                assert(j < stop);
                assert(covers(c, s, start + (j - dst)));
            } else {
                assert(linked_at(c, h));
                assert(!touches(c, h, dst, stop));
                assert(covers(c, h, j));
                assert(!touches(c, j, dst, stop));
            }
        }
    }
}

/// A run of cells of width zero behind position `a`, closed by a cell with a
/// width, is what the characters that begin before `a` cover.
proof fn lemma_run(c: Seq<Cell>, a: int, b: int, r: int)
    requires
        linked(c),
        0 <= a <= r <= b <= c.len(),
        forall|i: int| a <= i < r ==> c[i].width == 0,
        r < b ==> c[r].width != 0,
    ensures
        forall|i: int| a <= i < b ==> (i < r <==> #[trigger] head_pos(c, i) < a),
{
    assert forall|i: int| a <= i < b implies (i < r <==> #[trigger] head_pos(c, i) < a) by {
        assert(linked_at(c, i));
        let h = head_pos(c, i);
        if i >= r && h < a {
            assert(linked_at(c, r));
            lemma_same_head(c, h, r);
        }
    }
}

/// A character before `dst` reaches it exactly if it is the one that covers
/// the last position before `dst`, and that one does.
proof fn lemma_left(c: Seq<Cell>, dst: int, stop: int, i: int)
    requires
        linked(c),
        0 <= i < dst < stop <= c.len(),
    ensures
        touches(c, i, dst, stop) == (head_pos(c, dst - 1) <= i && head_pos(c, dst - 1)
            + c[head_pos(c, dst - 1)].width > dst),
{
    assert(linked_at(c, i));
    assert(linked_at(c, dst - 1));
    lemma_same_head(c, head_pos(c, i), dst - 1);
    if head_pos(c, dst - 1) <= i {
        lemma_same_head(c, head_pos(c, dst - 1), i);
    }
}

/// A character that begins in `a..b` reaches beyond `b` exactly if it is the
/// one that covers the last position before `b`, and that one does.
proof fn lemma_right(c: Seq<Cell>, a: int, b: int, i: int)
    requires
        linked(c),
        0 <= a <= i < b <= c.len(),
        a <= head_pos(c, i),
    ensures
        a <= head_pos(c, b - 1),
        (head_pos(c, i) + c[head_pos(c, i)].width > b) == (head_pos(c, b - 1) <= i && head_pos(
            c,
            b - 1,
        ) + c[head_pos(c, b - 1)].width > b),
{
    assert(linked_at(c, i));
    assert(linked_at(c, b - 1));
    lemma_same_head(c, head_pos(c, i), b - 1);
    if head_pos(c, b - 1) <= i {
        lemma_same_head(c, head_pos(c, b - 1), i);
    }
}

/// A single line of the terminal buffer.
///
/// The number of cells is the number of columns. A character wider than one
/// column is held by its first cell, the head; each cell it covers behind the
/// head has width zero and, in `backlink`, its distance from the head.
#[derive(Debug)]
pub struct Line {
    cells: Vec<Cell>,
    linewrap: bool,
}

impl View for Line {
    type V = Seq<Cell>;

    closed spec fn view(&self) -> Seq<Cell> {
        self.cells@
    }
}

/// The cells of each line.
pub open spec fn rows(v: Seq<Line>) -> Seq<Seq<Cell>> {
    Seq::new(v.len(), |i: int| v[i]@)
}

impl Clone for Line {
    fn clone(&self) -> (r: Self)
        ensures
            r@ == self@,
            r.wraps() == self.wraps(),
    {
        Line { cells: self.iter(), linewrap: self.linewrap }
    }
}

impl Line {
    /// Whether the line continues on the next one.
    pub closed spec fn wraps(&self) -> bool {
        self.linewrap
    }

    /// A line of `len` cells without text.
    pub fn new(len: usize) -> (r: Self)
        ensures
            r@ == stretched(Seq::empty(), len as int),
            !r.wraps(),
            linked(r@),
            fits(r@),
    {
        let mut cells: Vec<Cell> = Vec::new();
        while cells.len() < len
            invariant
                cells.len() <= len,
                cells@ == stretched(Seq::empty(), cells.len() as int),
            decreases len - cells.len(),
        {
            let ghost before = cells@;
            cells.push(Cell::term());
            assert(cells@ =~= stretched(Seq::empty(), (before.len() + 1) as int));
        }
        Line { cells, linewrap: false }
    }

    /// The line made of the given cells.
    pub fn from_cells(cells: Vec<Cell>, linewrap: bool) -> (r: Self)
        ensures
            r@ == cells@,
            r.wraps() == linewrap,
    {
        Line { cells, linewrap }
    }

    pub fn cells_mut(&mut self) -> (r: &mut [Cell])
        ensures
            r@ == old(self)@,
            final(self)@ == final(r)@,
            final(self).wraps() == old(self).wraps(),
    {
        self.cells.as_mut_slice()
    }

    /// Makes this line equal to `src`.
    pub fn copy_from(&mut self, src: &Self)
        ensures
            final(self)@ == src@,
            final(self).wraps() == src.wraps(),
    {
        self.cells = src.iter();
        self.linewrap = src.linewrap;
    }

    /// Fills the cells from `from` up to `to` with blanks.
    fn blank(&mut self, from: usize, to: usize)
        requires
            from <= to <= old(self)@.len(),
        ensures
            final(self)@ == Seq::new(
                old(self)@.len(),
                |i: int|
                    if from <= i < to {
                        space_cell()
                    } else {
                        old(self)@[i]
                    },
            ),
            final(self).wraps() == old(self).wraps(),
    {
        let mut i: usize = from;
        while i < to
            invariant
                from <= i <= to <= self.cells.len(),
                self.cells@.len() == old(self)@.len(),
                self.linewrap == old(self).linewrap,
                forall|j: int|
                    0 <= j < self.cells@.len() ==> self.cells@[j] == (if from <= j < i {
                        space_cell()
                    } else {
                        old(self)@[j]
                    }),
            decreases to - i,
        {
            self.cells[i] = Cell::space();
            i += 1;
        }
        assert(self@ =~= Seq::new(
            old(self)@.len(),
            |i: int|
                if from <= i < to {
                    space_cell()
                } else {
                    old(self)@[i]
                },
        ));
    }

    /// Turns cells of width zero into blanks, from `from` on, up to the first
    /// cell with a width or to `to`.
    fn blank_uncovered(&mut self, from: usize, to: usize) -> (r: usize)
        requires
            from <= to <= old(self)@.len(),
        ensures
            from <= r <= to,
            forall|i: int| from <= i < r ==> old(self)@[i].width == 0,
            r < to ==> old(self)@[r as int].width != 0,
            final(self)@ == Seq::new(
                old(self)@.len(),
                |i: int|
                    if from <= i < r {
                        space_cell()
                    } else {
                        old(self)@[i]
                    },
            ),
            final(self).wraps() == old(self).wraps(),
    {
        let mut i: usize = from;
        while i < to && self.cells[i].width == 0
            invariant
                from <= i <= to <= self.cells.len(),
                forall|j: int| from <= j < i ==> old(self)@[j].width == 0,
                self.cells@ == old(self)@,
                self.linewrap == old(self).linewrap,
            decreases to - i,
        {
            i += 1;
        }
        self.blank(from, i);
        i
    }

    /// Copies the cells from `start` up to `end` to `dst`, as many as fit.
    #[verifier::rlimit(60)]
    #[verifier::spinoff_prover]
    pub fn copy_within(&mut self, start: usize, end: usize, dst: usize)
        requires
            linked(old(self)@),
            fits(old(self)@),
            start <= end,
            dst <= old(self)@.len(),
        ensures
            linked(final(self)@),
            fits(final(self)@),
            final(self).wraps() == old(self).wraps(),
            ({
                let len = old(self)@.len() as int;
                let first = if start < len { start as int } else { len };
                let last = if end < len { end as int } else { len };
                let count = if last - first < len - dst { last - first } else { len - dst };
                final(self)@ == copied_within(old(self)@, first, count, dst as int)
            }),
    {
        let len = self.cells.len();
        let first = if start < len { start } else { len };
        let last = if end < len { end } else { len };
        let count = if last - first < len - dst { last - first } else { len - dst };
        let ghost c = self@;
        if count == 0 {
            proof {
                assert(copied_within(c, first as int, 0, dst as int) =~= c);
            }
            return;
        }
        let stop = dst + count;
        let mut over: Vec<Cell> = Vec::new();
        let mut i: usize = 0;
        while i < len
            invariant
                i <= len,
                len == c.len(),
                self.cells@ == c,
                stop == dst + count,
                stop <= len,
                first + count <= len,
                over.len() == i,
                forall|j: int|
                    0 <= j < i ==> over@[j] == (if dst <= j < stop {
                        c[first + (j - dst)]
                    } else {
                        c[j]
                    }),
            decreases len - i,
        {
            if dst <= i && i < stop {
                over.push(self.cells[first + (i - dst)]);
            } else {
                over.push(self.cells[i]);
            }
            i += 1;
        }
        self.cells = over;
        if dst > 0 {
            assert(linked_at(c, dst - 1));
            let head = self.get_head_pos(dst - 1);
            if self.cells[head].width as usize > dst - head {
                self.blank(head, dst);
            }
        }
        let ghost c2 = self@;
        let run = self.blank_uncovered(dst, stop);
        let ghost c3 = self@;
        proof {
            assert forall|q: int| first <= q < first + (run - dst) implies c[q].width == 0 by {
                assert(c2[dst + (q - first)] == c[q]);
            }
            if run < stop {
                assert(c2[run as int] == c[first + (run - dst)]);
            }
            lemma_run(c, first as int, first + count, first + (run - dst));
            assert(linked_at(c, first + count - 1));
            assert(c3[stop - 1] == c[first + count - 1] || c3[stop - 1] == space_cell());
        }
        let head = self.get_head_pos(stop - 1);
        if self.cells[head].width as usize > stop - head {
            self.blank(head, stop);
        }
        let ghost c4 = self@;
        let run2 = self.blank_uncovered(stop, len);
        proof {
            let want = copied_within(c, first as int, count as int, dst as int);
            assert forall|q: int| stop <= q < len implies c4[q] == c[q] by {
                assert(c2[q] == c[q]);
            }
            lemma_run(c, stop as int, len as int, run2 as int);
            assert forall|i: int| 0 <= i < len implies self@[i] == want[i] by {
                if i < dst {
                    lemma_left(c, dst as int, stop as int, i);
                } else if i < stop {
                    let s = first + (i - dst);
                    assert(linked_at(c, s));
                    assert(c2[i] == c[s]);
                    if first <= head_pos(c, s) {
                        lemma_right(c, first as int, first + count, s);
                    }
                } else {
                    assert(linked_at(c, i));
                    assert(c4[i] == c[i]);
                }
            }
            assert(self@ =~= want);
            lemma_copied_within(c, first as int, count as int, dst as int);
        }
    }

    /// Replaces every character that covers a position from `start` up to
    /// `end` by blanks.
    pub fn erase(&mut self, start: usize, end: usize)
        requires
            linked(old(self)@),
            fits(old(self)@),
            start <= end,
        ensures
            final(self)@ == erased(old(self)@, start as int, end as int),
            linked(final(self)@),
            fits(final(self)@),
            final(self).wraps() == old(self).wraps(),
    {
        let len = self.cells.len();
        let first = if start < len { start } else { len };
        let last = if end < len { end } else { len };
        let ghost c = self@;
        let mut i: usize = first;
        assert(erased(c, first as int, first as int) =~= c);
        while i < last
            invariant
                first <= i <= last <= len,
                len == c.len(),
                linked(c),
                fits(c),
                self@ == erased(c, first as int, i as int),
                self.linewrap == old(self).linewrap,
            decreases last - i,
        {
            proof {
                lemma_erased(c, first as int, i as int);
                lemma_erased_grows(c, first as int, i as int);
            }
            self.erase_at(i);
            i += 1;
        }
        proof {
            lemma_erased(c, start as int, end as int);
            assert forall|k: int| 0 <= k < c.len() implies touches(
                c,
                k,
                first as int,
                last as int,
            ) == touches(c, k, start as int, end as int) by {
                assert(linked_at(c, k));
                let h = head_pos(c, k);
                assert(c[h].backlink == 0);
            }
            assert(erased(c, first as int, last as int) =~= erased(c, start as int, end as int));
        }
    }

    /// Makes the line one without text.
    pub fn erase_all(&mut self)
        ensures
            final(self)@ == stretched(Seq::empty(), old(self)@.len() as int),
            !final(self).wraps(),
            linked(final(self)@),
            fits(final(self)@),
    {
        *self = Line::new(self.cells.len());
    }

    /// Replaces the character that covers `at` by blanks.
    pub fn erase_at(&mut self, at: usize)
        requires
            linked(old(self)@),
            at < old(self)@.len(),
        ensures
            final(self)@ == erased(old(self)@, at as int, at + 1),
            linked(final(self)@),
            fits(old(self)@) ==> fits(final(self)@),
            final(self).wraps() == old(self).wraps(),
    {
        let ghost c = self@;
        assert(linked_at(c, at as int));
        let head = self.get_head_pos(at);
        let width = self.cells[head].width as usize;
        let end = if width < self.cells.len() - head {
            head + width
        } else {
            self.cells.len()
        };
        self.blank(head, end);
        proof {
            let want = erased(c, at as int, at + 1);
            assert forall|i: int| 0 <= i < c.len() implies self@[i] == want[i] by {
                assert(linked_at(c, i));
                assert(linked_at(c, head as int));
                if head <= i {
                    lemma_same_head(c, head as int, i);
                } else {
                    lemma_same_head(c, head_pos(c, i), at as int);
                }
            }
            assert(self@ =~= erased(c, at as int, at + 1));
            lemma_erased(c, at as int, at + 1);
        }
    }

    /// The position of the cell that holds the character covering `at`.
    pub fn get_head_pos(&self, at: usize) -> (r: usize)
        requires
            at < self@.len(),
            self@[at as int].backlink <= at,
        ensures
            r == head_pos(self@, at as int),
    {
        at - self.cells[at].backlink as usize
    }

    /// Cuts or extends the line to `new_len` cells; a character cut by the
    /// new end becomes blanks.
    pub fn resize(&mut self, new_len: usize)
        requires
            linked(old(self)@),
            fits(old(self)@),
            new_len > 0,
        ensures
            linked(final(self)@),
            fits(final(self)@),
            final(self).wraps() == old(self).wraps(),
            ({
                let c = stretched(old(self)@, new_len as int);
                let h = head_pos(c, new_len - 1);
                final(self)@ == if h + c[h].width > new_len {
                    erased(c, h, h + 1)
                } else {
                    c
                }
            }),
    {
        let ghost c0 = self@;
        let ghost want = stretched(c0, new_len as int);
        if new_len < self.cells.len() {
            self.cells.truncate(new_len);
            assert(self@ =~= want);
        } else {
            while self.cells.len() < new_len
                invariant
                    c0.len() <= self.cells.len() <= new_len,
                    self@ == stretched(c0, self.cells.len() as int),
                    self.linewrap == old(self).linewrap,
                decreases new_len - self.cells.len(),
            {
                let ghost n = self.cells.len();
                self.cells.push(Cell::term());
                assert(self@ =~= stretched(c0, n + 1));
            }
            assert(self@ =~= want);
        }
        proof {
            lemma_stretched(c0, new_len as int);
            assert(linked_at(want, new_len - 1));
        }
        let head = self.get_head_pos(new_len - 1);
        let width = self.cells[head].width as usize;
        if width > self.cells.len() - head {
            self.erase_at(head);
        }
        proof {
            assert forall|i: int|
                0 <= i < self@.len() && (#[trigger] self@[i]).backlink == 0 implies i
                + self@[i].width <= self@.len() by {
                assert(linked_at(want, i));
                if want[i].backlink == 0 {
                    lemma_same_head(want, i, new_len - 1);
                }
            }
        }
    }

    pub fn columns(&self) -> (r: usize)
        ensures
            r == self@.len(),
    {
        self.cells.len()
    }

    /// Writes `cell` at `at`, over whatever it covers.
    pub fn put(&mut self, at: usize, cell: Cell)
        requires
            linked(old(self)@),
            fits(old(self)@),
            at < old(self)@.len(),
            at + cell.width <= old(self)@.len(),
        ensures
            final(self)@ == placed(erased(old(self)@, at as int, at + cell.width), at as int, cell),
            cell.backlink == 0 && cell.width >= 1 ==> linked(final(self)@) && fits(final(self)@),
            final(self).wraps() == old(self).wraps(),
    {
        let width = cell.width as usize;
        let ghost c = self@;
        assert(self.cells.len() == c.len());
        self.erase(at, at + width);
        let ghost e = self@;
        self.cells[at] = cell;
        let mut d: usize = 1;
        while d < width
            invariant
                width == cell.width,
                at + width <= self.cells.len(),
                self@.len() == e.len(),
                1 <= d,
                d <= width || d == 1,
                self.linewrap == old(self).linewrap,
                forall|i: int|
                    0 <= i < e.len() ==> self@[i] == (if i == at {
                        cell
                    } else if at < i < at + d {
                        void_cell((i - at) as u16)
                    } else {
                        e[i]
                    }),
            decreases width - d,
        {
            self.cells[at + d] = Cell {
                ch: '#',
                width: 0,
                backlink: d as u16,
                attr: GraphicAttribute::default(),
            };
            d += 1;
        }
        proof {
            assert(self@ =~= placed(e, at as int, cell));
            if cell.backlink == 0 && cell.width >= 1 {
                lemma_placed(c, at as int, cell);
            }
        }
    }

    /// The cell that holds the character covering `at`; `None` beyond the end.
    pub fn get(&self, at: usize) -> (r: Option<Cell>)
        requires
            at < self@.len() ==> self@[at as int].backlink <= at,
        ensures
            r == if at < self@.len() {
                Some(self@[head_pos(self@, at as int)])
            } else {
                None
            },
    {
        if at < self.cells.len() {
            let head = self.get_head_pos(at);
            Some(self.cells[head])
        } else {
            None
        }
    }

    /// The cells, from left to right.
    pub fn iter(&self) -> (r: Vec<Cell>)
        ensures
            r@ == self@,
    {
        let mut out: Vec<Cell> = Vec::new();
        let mut i: usize = 0;
        while i < self.cells.len()
            invariant
                i <= self.cells.len(),
                out@ == self@.subrange(0, i as int),
            decreases self.cells.len() - i,
        {
            out.push(self.cells[i]);
            assert(self@.subrange(0, i + 1) =~= self@.subrange(0, i as int).push(self@[i as int]));
            i += 1;
        }
        assert(self@.subrange(0, self@.len() as int) =~= self@);
        out
    }

    /// Whether the line continues on the next one.
    pub fn linewrap(&self) -> (r: bool)
        ensures
            r == self.wraps(),
    {
        self.linewrap
    }
}

// ---------------------------------------------------------------------------
// The cursor
// ---------------------------------------------------------------------------

#[derive(Debug, Clone, Copy, PartialEq, Eq, Structural)]
pub enum CursorStyle {
    Block,
    Underline,
    Bar,
}

/// A position on a grid of `sz`. `end` says that the cursor stands behind
/// the last column of its row.
#[derive(Debug, Clone, Copy, PartialEq, Eq, Structural)]
pub struct Cursor {
    pub sz: TerminalSize,
    pub row: usize,
    pub col: usize,
    pub end: bool,
    pub style: CursorStyle,
}

/// The smaller of two numbers.
pub open spec fn least(a: int, b: int) -> int {
    if a < b { a } else { b }
}

impl Cursor {
    /// The cursor lies on its grid, and stands behind the last column only
    /// from there.
    pub open spec fn wf(&self) -> bool {
        &&& self.row < self.sz.rows
        &&& self.col < self.sz.cols
        &&& self.end ==> self.col == self.sz.cols - 1
    }

    /// A cursor for drawing, on a grid of unknown size.
    pub fn at(row: usize, col: usize, style: CursorStyle) -> (r: Cursor)
        ensures
            r == (Cursor {
                sz: TerminalSize { rows: 0, cols: 0 },
                row,
                col,
                end: false,
                style,
            }),
    {
        Cursor { sz: TerminalSize { rows: 0, cols: 0 }, row, col, end: false, style }
    }

    pub fn pos(&self) -> (r: (usize, usize))
        ensures
            r == (self.row, self.col),
    {
        (self.row, self.col)
    }

    /// How many columns are free from the cursor on.
    pub fn right_space(&self) -> (r: usize)
        requires
            self.end || self.col <= self.sz.cols,
        ensures
            r == if self.end { 0 } else { self.sz.cols - self.col },
    {
        if self.end {
            0
        } else {
            self.sz.cols - self.col
        }
    }

    /// The cursor moved to a position, or to the nearest one on the grid.
    pub fn exact(self, row: usize, col: usize) -> (r: Self)
        requires
            self.sz.rows > 0,
            self.sz.cols > 0,
        ensures
            r.row == least(row as int, self.sz.rows - 1),
            r.col == least(col as int, self.sz.cols - 1),
            !r.end,
            r.sz == self.sz,
            r.style == self.style,
            r.wf(),
    {
        let mut c = self;
        c.row = if row < self.sz.rows - 1 { row } else { self.sz.rows - 1 };
        c.col = if col < self.sz.cols - 1 { col } else { self.sz.cols - 1 };
        c.end = false;
        c
    }

    pub fn first_col(self) -> (r: Self)
        ensures
            r == (Cursor { col: 0, end: false, ..self }),
    {
        let mut c = self;
        c.end = false;
        c.col = 0;
        c
    }

    /// One column to the right; at the last column, behind it.
    pub fn next_col(self) -> (r: Self)
        requires
            self.col < usize::MAX,
        ensures
            r == if self.col + 1 < self.sz.cols {
                Cursor { col: (self.col + 1) as usize, ..self }
            } else {
                Cursor { end: true, ..self }
            },
            self.wf() ==> r.wf(),
    {
        let mut c = self;
        if c.col + 1 < c.sz.cols {
            c.col += 1;
        } else {
            c.end = true;
        }
        c
    }

    /// One column to the left; from behind the last column, onto it.
    pub fn prev_col(self) -> (r: Self)
        ensures
            r == if self.end {
                Cursor { end: false, ..self }
            } else if self.col > 0 {
                Cursor { col: (self.col - 1) as usize, ..self }
            } else {
                self
            },
            self.wf() ==> r.wf(),
    {
        let mut c = self;
        if c.end {
            c.end = false;
        } else if 0 < c.col {
            c.col -= 1;
        }
        c
    }

    /// One row down, as far as the last.
    pub fn next_row(self) -> (r: Self)
        requires
            self.row < usize::MAX,
        ensures
            r == if self.row + 1 < self.sz.rows {
                Cursor { row: (self.row + 1) as usize, end: false, ..self }
            } else {
                Cursor { end: false, ..self }
            },
            self.wf() ==> r.wf(),
    {
        let mut c = self;
        c.end = false;
        if c.row + 1 < c.sz.rows {
            c.row += 1;
        }
        c
    }

    /// One row up, as far as the first.
    pub fn prev_row(self) -> (r: Self)
        ensures
            r == if self.row > 0 {
                Cursor { row: (self.row - 1) as usize, end: false, ..self }
            } else {
                Cursor { end: false, ..self }
            },
            self.wf() ==> r.wf(),
    {
        let mut c = self;
        c.end = false;
        if c.row > 0 {
            c.row -= 1;
        }
        c
    }
}

} // verus!
