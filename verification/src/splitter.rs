//! Takes Sixel images out of the byte stream of a shell.
//!
//! A Sixel image is a device control string: `ESC P`, parameters, `q`, the
//! image, and `ESC \` or a bell. Everything else goes through to the terminal
//! engine as it came.

use vstd::prelude::*;

verus! {

/// A part of the stream.
#[derive(Debug)]
pub enum Seg {
    /// Bytes for the terminal engine.
    Pass(Vec<u8>),
    /// The inside of a Sixel image.
    Sixel(Vec<u8>),
}

#[derive(Debug, Clone, Copy, PartialEq, Eq, Structural)]
pub enum SplitState {
    Normal,
    Esc,
    DcsIntro,
    SixelData,
    SixelEsc,
    DcsPass,
    DcsPassEsc,
}

/// The state between two chunks of the stream.
#[derive(Debug)]
pub struct SixelSplitter {
    pub state: SplitState,
    pub intro: Vec<u8>,
    pub not_sixel: bool,
    pub payload: Vec<u8>,
}

/// The contents of a splitter.
pub ghost struct Splitting {
    pub state: SplitState,
    pub intro: Seq<u8>,
    pub not_sixel: bool,
    pub payload: Seq<u8>,
}

impl View for SixelSplitter {
    type V = Splitting;

    open spec fn view(&self) -> Splitting {
        Splitting {
            state: self.state,
            intro: self.intro@,
            not_sixel: self.not_sixel,
            payload: self.payload@,
        }
    }
}

/// What comes out of the stream: a byte for the engine, or an image.
pub ghost enum Out {
    Byte(u8),
    Image(Seq<u8>),
}

pub open spec fn bytes_out(s: Seq<u8>) -> Seq<Out> {
    Seq::new(s.len(), |i: int| Out::Byte(s[i]))
}

/// The effect of one byte: the next state and what comes out.
pub open spec fn step(s: Splitting, b: u8) -> (Splitting, Seq<Out>) {
    match s.state {
        SplitState::Normal => if b == 0x1b {
            (Splitting { state: SplitState::Esc, ..s }, Seq::empty())
        } else {
            (s, seq![Out::Byte(b)])
        },
        SplitState::Esc => if b == 0x50 {
            (
                Splitting {
                    state: SplitState::DcsIntro,
                    intro: Seq::empty(),
                    not_sixel: false,
                    ..s
                },
                Seq::empty(),
            )
        } else if b == 0x1b {
            (s, seq![Out::Byte(0x1b)])
        } else {
            (Splitting { state: SplitState::Normal, ..s }, seq![Out::Byte(0x1b), Out::Byte(b)])
        },
        SplitState::DcsIntro => if 0x40 <= b <= 0x7e {
            if b == 0x71 && !s.not_sixel {
                (
                    Splitting { state: SplitState::SixelData, payload: Seq::empty(), ..s },
                    Seq::empty(),
                )
            } else {
                (
                    Splitting { state: SplitState::DcsPass, ..s },
                    bytes_out(seq![0x1bu8, 0x50u8] + s.intro.push(b)),
                )
            }
        } else {
            (
                Splitting {
                    not_sixel: s.not_sixel || 0x20 <= b <= 0x2f,
                    intro: s.intro.push(b),
                    ..s
                },
                Seq::empty(),
            )
        },
        SplitState::SixelData => if b == 0x07 {
            (
                Splitting { state: SplitState::Normal, payload: Seq::empty(), ..s },
                seq![Out::Image(s.payload)],
            )
        } else if b == 0x1b {
            (Splitting { state: SplitState::SixelEsc, ..s }, Seq::empty())
        } else {
            (Splitting { payload: s.payload.push(b), ..s }, Seq::empty())
        },
        SplitState::SixelEsc => if b == 0x1b {
            (
                Splitting { state: SplitState::Esc, payload: Seq::empty(), ..s },
                seq![Out::Image(s.payload)],
            )
        } else if b == 0x5c {
            (
                Splitting { state: SplitState::Normal, payload: Seq::empty(), ..s },
                seq![Out::Image(s.payload)],
            )
        } else {
            (
                Splitting { state: SplitState::Normal, payload: Seq::empty(), ..s },
                seq![Out::Image(s.payload), Out::Byte(b)],
            )
        },
        SplitState::DcsPass => (
            Splitting {
                state: if b == 0x07 {
                    SplitState::Normal
                } else if b == 0x1b {
                    SplitState::DcsPassEsc
                } else {
                    SplitState::DcsPass
                },
                ..s
            },
            seq![Out::Byte(b)],
        ),
        SplitState::DcsPassEsc => (
            Splitting {
                state: if b == 0x5c {
                    SplitState::Normal
                } else {
                    SplitState::DcsPass
                },
                ..s
            },
            seq![Out::Byte(b)],
        ),
    }
}

/// The effect of a chunk: the state behind it and everything that comes out.
pub open spec fn run(s: Splitting, input: Seq<u8>) -> (Splitting, Seq<Out>)
    decreases input.len(),
{
    if input.len() == 0 {
        (s, Seq::empty())
    } else {
        let (mid, out) = run(s, input.drop_last());
        let (end, more) = step(mid, input.last());
        (end, out + more)
    }
}

/// The contents of a part of the stream.
pub ghost enum Part {
    Pass(Seq<u8>),
    Sixel(Seq<u8>),
}

pub open spec fn part(s: Seg) -> Part {
    match s {
        Seg::Pass(b) => Part::Pass(b@),
        Seg::Sixel(b) => Part::Sixel(b@),
    }
}

pub open spec fn parts(v: Seq<Seg>) -> Seq<Part> {
    Seq::new(v.len(), |i: int| part(v[i]))
}

/// `done` and the collected bytes `pass`, which make a part unless there are none.
pub open spec fn closed_off(done: Seq<Part>, pass: Seq<u8>) -> Seq<Part> {
    if pass.len() == 0 {
        done
    } else {
        done.push(Part::Pass(pass))
    }
}

/// The parts finished by `out`, and the bytes collected behind the last image.
pub open spec fn grouping(out: Seq<Out>) -> (Seq<Part>, Seq<u8>)
    decreases out.len(),
{
    if out.len() == 0 {
        (Seq::empty(), Seq::empty())
    } else {
        let (done, pass) = grouping(out.drop_last());
        match out.last() {
            Out::Byte(b) => (done, pass.push(b)),
            Out::Image(p) => (closed_off(done, pass).push(Part::Sixel(p)), Seq::empty()),
        }
    }
}

/// `out` as parts: each image by itself, and the bytes between two images together.
pub open spec fn grouped(out: Seq<Out>) -> Seq<Part> {
    closed_off(grouping(out).0, grouping(out).1)
}

proof fn lemma_grouping_bytes(out: Seq<Out>, b: Seq<u8>)
    ensures
        grouping(out + bytes_out(b)) == (grouping(out).0, grouping(out).1 + b),
    decreases b.len(),
{
    if b.len() == 0 {
        assert(out + bytes_out(b) =~= out);
        assert(grouping(out).1 + b =~= grouping(out).1);
    } else {
        let all = out + bytes_out(b);
        assert(all.drop_last() =~= out + bytes_out(b.drop_last()));
        lemma_grouping_bytes(out, b.drop_last());
        assert(grouping(out).1 + b =~= (grouping(out).1 + b.drop_last()).push(b.last()));
    }
}

proof fn lemma_grouping_image(out: Seq<Out>, p: Seq<u8>)
    ensures
        grouping(out.push(Out::Image(p))) == (
            closed_off(grouping(out).0, grouping(out).1).push(Part::Sixel(p)),
            Seq::<u8>::empty(),
        ),
{
    assert(out.push(Out::Image(p)).drop_last() =~= out);
}

proof fn lemma_parts_push(v: Seq<Seg>, s: Seg)
    ensures
        parts(v.push(s)) == parts(v).push(part(s)),
{
    assert(parts(v.push(s)) =~= parts(v).push(part(s)));
}

impl Default for SixelSplitter {
    fn default() -> (r: Self)
        ensures
            r@ == (Splitting {
                state: SplitState::Normal,
                intro: Seq::empty(),
                not_sixel: false,
                payload: Seq::empty(),
            }),
    {
        SixelSplitter {
            state: SplitState::Normal,
            intro: Vec::new(),
            not_sixel: false,
            payload: Vec::new(),
        }
    }
}

/// The parts collected while a chunk is read.
struct Collector {
    segs: Vec<Seg>,
    pass: Vec<u8>,
}

impl Collector {
    /// What has been collected is what `out` groups to.
    spec fn holds(&self, out: Seq<Out>) -> bool {
        grouping(out) == (parts(self.segs@), self.pass@)
    }

    fn byte(&mut self, b: u8, Ghost(out): Ghost<Seq<Out>>)
        requires
            old(self).holds(out),
        ensures
            final(self).holds(out + seq![Out::Byte(b)]),
    {
        proof {
            lemma_grouping_bytes(out, seq![b]);
            assert(bytes_out(seq![b]) =~= seq![Out::Byte(b)]);
            assert(self.pass@ + seq![b] =~= self.pass@.push(b));
        }
        self.pass.push(b);
    }

    fn bytes(&mut self, b: &Vec<u8>, Ghost(out): Ghost<Seq<Out>>)
        requires
            old(self).holds(out),
        ensures
            final(self).holds(out + bytes_out(b@)),
    {
        let mut i: usize = 0;
        assert(out + bytes_out(b@.subrange(0, 0)) =~= out);
        while i < b.len()
            invariant
                i <= b.len(),
                self.holds(out + bytes_out(b@.subrange(0, i as int))),
            decreases b.len() - i,
        {
            let ghost so_far = out + bytes_out(b@.subrange(0, i as int));
            self.byte(b[i], Ghost(so_far));
            assert(so_far + seq![Out::Byte(b[i as int])] =~= out + bytes_out(
                b@.subrange(0, i + 1),
            ));
            i += 1;
        }
        assert(b@.subrange(0, i as int) =~= b@);
    }

    /// Makes a part of the collected bytes, unless there are none.
    fn close(self) -> (r: Vec<Seg>)
        ensures
            parts(r@) == closed_off(parts(self.segs@), self.pass@),
    {
        let mut segs = self.segs;
        if self.pass.len() > 0 {
            proof {
                lemma_parts_push(segs@, Seg::Pass(self.pass));
            }
            segs.push(Seg::Pass(self.pass));
        }
        segs
    }

    fn image(self, payload: Vec<u8>, Ghost(out): Ghost<Seq<Out>>) -> (r: Self)
        requires
            self.holds(out),
        ensures
            r.holds(out + seq![Out::Image(payload@)]),
    {
        proof {
            lemma_grouping_image(out, payload@);
            assert(out + seq![Out::Image(payload@)] =~= out.push(Out::Image(payload@)));
        }
        let mut segs = self.close();
        proof {
            lemma_parts_push(segs@, Seg::Sixel(payload));
        }
        segs.push(Seg::Sixel(payload));
        Collector { segs, pass: Vec::new() }
    }
}

impl SixelSplitter {
    /// Takes the image collected so far out of the splitter.
    fn take_payload(&mut self) -> (r: Vec<u8>)
        ensures
            r@ == old(self)@.payload,
            final(self)@ == (Splitting { payload: Seq::empty(), ..old(self)@ }),
    {
        let mut p: Vec<u8> = Vec::new();
        std::mem::swap(&mut p, &mut self.payload);
        p
    }

    /// Takes the next chunk of the stream and gives its parts in order. An
    /// image that is not finished in the chunk is kept for the next one.
    pub fn feed(&mut self, input: &[u8]) -> (r: Vec<Seg>)
        ensures
            final(self)@ == run(old(self)@, input@).0,
            parts(r@) == grouped(run(old(self)@, input@).1),
    {
        let ghost s0 = self@;
        let mut col = Collector { segs: Vec::new(), pass: Vec::new() };
        let mut i: usize = 0;
        assert(parts(col.segs@) =~= Seq::empty());
        assert(col.pass@ =~= Seq::empty());
        assert(input@.subrange(0, 0) =~= Seq::empty());
        while i < input.len()
            invariant
                i <= input.len(),
                self@ == run(s0, input@.subrange(0, i as int)).0,
                col.holds(run(s0, input@.subrange(0, i as int)).1),
            decreases input.len() - i,
        {
            let b = input[i];
            let ghost out = run(s0, input@.subrange(0, i as int)).1;
            let ghost s1 = self@;
            proof {
                let next = input@.subrange(0, i + 1);
                assert(next.drop_last() =~= input@.subrange(0, i as int));
                assert(next.last() == b);
                assert(run(s0, next) == (step(s1, b).0, out + step(s1, b).1));
                assert(out + Seq::<Out>::empty() =~= out);
            }
            match self.state {
                SplitState::Normal => {
                    if b == 0x1b {
                        self.state = SplitState::Esc;
                    } else {
                        col.byte(b, Ghost(out));
                    }
                },
                SplitState::Esc => {
                    if b == 0x50 {
                        self.state = SplitState::DcsIntro;
                        self.intro.clear();
                        self.not_sixel = false;
                    } else {
                        col.byte(0x1b, Ghost(out));
                        if b != 0x1b {
                            col.byte(b, Ghost(out + seq![Out::Byte(0x1b)]));
                            assert(out + seq![Out::Byte(0x1b)] + seq![Out::Byte(b)] =~= out + seq![
                                Out::Byte(0x1b),
                                Out::Byte(b),
                            ]);
                            self.state = SplitState::Normal;
                        }
                    }
                },
                SplitState::DcsIntro => {
                    if 0x40 <= b && b <= 0x7e {
                        if b == 0x71 && !self.not_sixel {
                            self.state = SplitState::SixelData;
                            self.payload.clear();
                        } else {
                            col.byte(0x1b, Ghost(out));
                            col.byte(0x50, Ghost(out + seq![Out::Byte(0x1b)]));
                            col.bytes(
                                &self.intro,
                                Ghost(out + seq![Out::Byte(0x1b)] + seq![Out::Byte(0x50)]),
                            );
                            col.byte(
                                b,
                                Ghost(
                                    out + seq![Out::Byte(0x1b)] + seq![Out::Byte(0x50)] + bytes_out(
                                        self.intro@,
                                    ),
                                ),
                            );
                            assert(out + seq![Out::Byte(0x1b)] + seq![Out::Byte(0x50)] + bytes_out(
                                self.intro@,
                            ) + seq![Out::Byte(b)] =~= out + bytes_out(
                                seq![0x1bu8, 0x50u8] + self.intro@.push(b),
                            ));
                            self.state = SplitState::DcsPass;
                        }
                    } else {
                        if 0x20 <= b && b <= 0x2f {
                            self.not_sixel = true;
                        }
                        self.intro.push(b);
                    }
                },
                SplitState::SixelData => {
                    if b == 0x07 {
                        let p = self.take_payload();
                        col = col.image(p, Ghost(out));
                        self.state = SplitState::Normal;
                    } else if b == 0x1b {
                        self.state = SplitState::SixelEsc;
                    } else {
                        self.payload.push(b);
                    }
                },
                SplitState::SixelEsc => {
                    let p = self.take_payload();
                    col = col.image(p, Ghost(out));
                    self.state = SplitState::Normal;
                    if b == 0x1b {
                        self.state = SplitState::Esc;
                    } else if b != 0x5c {
                        col.byte(b, Ghost(out + seq![Out::Image(p@)]));
                        assert(out + seq![Out::Image(p@)] + seq![Out::Byte(b)] =~= out + seq![
                            Out::Image(p@),
                            Out::Byte(b),
                        ]);
                    }
                },
                SplitState::DcsPass => {
                    col.byte(b, Ghost(out));
                    if b == 0x07 {
                        self.state = SplitState::Normal;
                    } else if b == 0x1b {
                        self.state = SplitState::DcsPassEsc;
                    }
                },
                SplitState::DcsPassEsc => {
                    col.byte(b, Ghost(out));
                    self.state = if b == 0x5c {
                        SplitState::Normal
                    } else {
                        SplitState::DcsPass
                    };
                },
            }
            i += 1;
        }
        assert(input@.subrange(0, i as int) =~= input@);
        col.close()
    }
}

// ---------------------------------------------------------------------------
// Laws
// ---------------------------------------------------------------------------

/// How the stream is cut into chunks makes no difference: two chunks one
/// after the other leave the splitter in the state, and give the output, of
/// both as one.
pub proof fn law_chunks_compose(s: Splitting, a: Seq<u8>, b: Seq<u8>)
    ensures
        run(s, a + b).0 == run(run(s, a).0, b).0,
        run(s, a + b).1 == run(s, a).1 + run(run(s, a).0, b).1,
    decreases b.len(),
{
    if b.len() == 0 {
        assert(a + b =~= a);
        assert(run(s, a).1 + Seq::<Out>::empty() =~= run(s, a).1);
    } else {
        assert((a + b).drop_last() =~= a + b.drop_last());
        assert((a + b).last() == b.last());
        law_chunks_compose(s, a, b.drop_last());
        let mid = run(s, a).0;
        let more = step(run(mid, b.drop_last()).0, b.last()).1;
        assert(run(s, a).1 + run(mid, b.drop_last()).1 + more =~= run(s, a).1 + (run(
            mid,
            b.drop_last(),
        ).1 + more));
    }
}

/// The bytes held back because they may yet begin an image.
pub open spec fn held(s: Splitting) -> Seq<u8> {
    match s.state {
        SplitState::Esc => seq![0x1bu8],
        SplitState::DcsIntro => seq![0x1bu8, 0x50u8] + s.intro,
        _ => Seq::empty(),
    }
}

/// Whether the splitter is inside an image.
pub open spec fn in_image(s: Splitting) -> bool {
    s.state == SplitState::SixelData || s.state == SplitState::SixelEsc
}

/// Whether an image comes out.
pub open spec fn has_image(out: Seq<Out>) -> bool {
    exists|i: int| 0 <= i < out.len() && (#[trigger] out[i]) is Image
}

/// As long as no image begins or ends, every byte passes through: what came
/// out and what is held back are together the bytes that went in.
pub proof fn law_text_passes_unchanged(s: Splitting, input: Seq<u8>)
    requires
        !in_image(s),
        !has_image(run(s, input).1),
        !in_image(run(s, input).0),
    ensures
        grouped(run(s, input).1) == closed_off(Seq::empty(), grouping(run(s, input).1).1),
        grouping(run(s, input).1).1 + held(run(s, input).0) == held(s) + input,
{
    lemma_passes(s, input);
}

/// The bytes that one byte lets through outside an image.
spec fn shown(s: Splitting, b: u8) -> Seq<u8> {
    match s.state {
        SplitState::Normal => if b == 0x1b {
            Seq::empty()
        } else {
            seq![b]
        },
        SplitState::Esc => if b == 0x50 {
            Seq::empty()
        } else if b == 0x1b {
            seq![0x1bu8]
        } else {
            seq![0x1bu8, b]
        },
        SplitState::DcsIntro => if 0x40 <= b <= 0x7e && !(b == 0x71 && !s.not_sixel) {
            seq![0x1bu8, 0x50u8] + s.intro.push(b)
        } else {
            Seq::empty()
        },
        _ => seq![b],
    }
}

proof fn lemma_shown(s: Splitting, b: u8)
    requires
        !in_image(s),
    ensures
        step(s, b).1 == bytes_out(shown(s, b)),
        !in_image(step(s, b).0) ==> shown(s, b) + held(step(s, b).0) == held(s).push(b),
{
    assert(step(s, b).1 =~= bytes_out(shown(s, b)));
    if !in_image(step(s, b).0) {
        assert(shown(s, b) + held(step(s, b).0) =~= held(s).push(b));
    }
}

proof fn lemma_in_image(s: Splitting, b: u8)
    requires
        in_image(s),
        !has_image(step(s, b).1),
    ensures
        in_image(step(s, b).0),
        step(s, b).1 == Seq::<Out>::empty(),
{
    if s.state == SplitState::SixelEsc || b == 0x07 {
        assert(step(s, b).1[0] is Image);
    }
}

proof fn lemma_passes(s: Splitting, input: Seq<u8>)
    requires
        !in_image(s),
        !has_image(run(s, input).1),
    ensures
        grouping(run(s, input).1).0 == Seq::<Part>::empty(),
        !in_image(run(s, input).0) ==> grouping(run(s, input).1).1 + held(run(s, input).0) == held(s)
            + input,
    decreases input.len(),
{
    if input.len() == 0 {
        assert(Seq::<u8>::empty() + held(s) =~= held(s) + input);
    } else {
        let (mid, out) = run(s, input.drop_last());
        let b = input.last();
        let (end, more) = step(mid, b);
        let all = out + more;
        assert forall|i: int| 0 <= i < out.len() implies !((#[trigger] out[i]) is Image) by {
            assert(all[i] == out[i]);
        }
        assert forall|i: int| 0 <= i < more.len() implies !((#[trigger] more[i]) is Image) by {
            assert(all[out.len() + i] == more[i]);
        }
        lemma_passes(s, input.drop_last());
        if in_image(mid) {
            lemma_in_image(mid, b);
            assert(out + more =~= out);
        } else {
            lemma_shown(mid, b);
            let new = shown(mid, b);
            lemma_grouping_bytes(out, new);
            let pass = grouping(out).1;
            if !in_image(end) {
                assert((pass + new) + held(end) =~= pass + (new + held(end)));
                assert(pass + held(mid).push(b) =~= (pass + held(mid)).push(b));
                assert((held(s) + input.drop_last()).push(b) =~= held(s) + input);
            }
        }
    }
}

/// Whether `params` can stand between `ESC P` and the `q` of an image.
pub open spec fn image_params(params: Seq<u8>) -> bool {
    forall|i: int|
        0 <= i < params.len() ==> !(0x40 <= #[trigger] params[i] <= 0x7e) && !(0x20 <= params[i]
            <= 0x2f)
}

/// Whether `data` can stand inside an image.
pub open spec fn image_data(data: Seq<u8>) -> bool {
    forall|i: int| 0 <= i < data.len() ==> #[trigger] data[i] != 0x07 && data[i] != 0x1b
}

proof fn lemma_run_push(s: Splitting, a: Seq<u8>, b: u8)
    ensures
        run(s, a.push(b)).0 == step(run(s, a).0, b).0,
        run(s, a.push(b)).1 == run(s, a).1 + step(run(s, a).0, b).1,
{
    assert(a.push(b).drop_last() =~= a);
}

proof fn lemma_intro(s: Splitting, params: Seq<u8>)
    requires
        s.state == SplitState::DcsIntro,
        image_params(params),
    ensures
        run(s, params).0 == (Splitting { intro: s.intro + params, ..s }),
        run(s, params).1 == Seq::<Out>::empty(),
    decreases params.len(),
{
    if params.len() > 0 {
        assert(image_params(params.drop_last()));
        lemma_intro(s, params.drop_last());
        assert((s.intro + params.drop_last()).push(params.last()) =~= s.intro + params);
        assert(params[params.len() - 1] == params.last());
        assert(Seq::<Out>::empty() + Seq::<Out>::empty() =~= Seq::<Out>::empty());
    } else {
        assert(s.intro + params =~= s.intro);
    }
}

proof fn lemma_data(s: Splitting, data: Seq<u8>)
    requires
        s.state == SplitState::SixelData,
        image_data(data),
    ensures
        run(s, data).0 == (Splitting { payload: s.payload + data, ..s }),
        run(s, data).1 == Seq::<Out>::empty(),
    decreases data.len(),
{
    if data.len() > 0 {
        assert(image_data(data.drop_last()));
        lemma_data(s, data.drop_last());
        assert((s.payload + data.drop_last()).push(data.last()) =~= s.payload + data);
        assert(data[data.len() - 1] == data.last());
        assert(Seq::<Out>::empty() + Seq::<Out>::empty() =~= Seq::<Out>::empty());
    } else {
        assert(s.payload + data =~= s.payload);
    }
}

/// An image between ordinary text comes out whole and alone, and the splitter
/// is back where it was.
pub proof fn law_image_is_taken_out(s: Splitting, params: Seq<u8>, data: Seq<u8>)
    requires
        s.state == SplitState::Normal,
        image_params(params),
        image_data(data),
    ensures
        ({
            let stream = seq![0x1bu8, 0x50u8] + params + seq![0x71u8] + data + seq![0x1bu8, 0x5cu8];
            &&& run(s, stream).0.state == SplitState::Normal
            &&& run(s, stream).1 == seq![Out::Image(data)]
            &&& grouped(run(s, stream).1) == seq![Part::Sixel(data)]
        }),
{
    let none = Seq::<Out>::empty();
    assert(none + none =~= none);
    let a0 = Seq::<u8>::empty();
    let a1 = a0.push(0x1b);
    let a2 = a1.push(0x50);
    lemma_run_push(s, a0, 0x1b);
    lemma_run_push(s, a1, 0x50);
    assert(a2 =~= seq![0x1bu8, 0x50u8]);
    let s2 = run(s, a2).0;
    let a3 = a2 + params;
    law_chunks_compose(s, a2, params);
    lemma_intro(s2, params);
    let a4 = a3.push(0x71);
    lemma_run_push(s, a3, 0x71);
    assert(a4 =~= a3 + seq![0x71u8]);
    let s4 = run(s, a4).0;
    let a5 = a4 + data;
    law_chunks_compose(s, a4, data);
    lemma_data(s4, data);
    assert(s4.payload + data =~= data);
    let a6 = a5.push(0x1b);
    lemma_run_push(s, a5, 0x1b);
    let a7 = a6.push(0x5c);
    lemma_run_push(s, a6, 0x5c);
    assert(none + seq![Out::Image(data)] =~= seq![Out::Image(data)]);
    assert(a7 =~= seq![0x1bu8, 0x50u8] + params + seq![0x71u8] + data + seq![0x1bu8, 0x5cu8]);
    lemma_grouping_image(none, data);
    assert(none.push(Out::Image(data)) =~= seq![Out::Image(data)]);
    assert(Seq::<Part>::empty().push(Part::Sixel(data)) =~= seq![Part::Sixel(data)]);
}

} // verus!
