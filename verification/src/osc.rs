//! Reports of the shell and of programs within the stream of a terminal: where
//! the shell is, and messages about files.

use crate::clipboard::bytes_of;
use crate::gt::{parse_gt_message, GtMessage, Message};
use crate::rows::opt_view;
use crate::text::{
    chars_of, find_next, from_utf8, has_prefix, next_at, same_text, starts_with, string_between,
};
use crate::vt::ShellLocation;
use vstd::prelude::*;
use vstd::utf8::{decode_utf8, encode_utf8, valid_utf8};

verus! {

/// The longest report in bytes; longer ones are dropped.
pub const REPORT_MAX_BYTES: usize = 1024 * 1024;

/// The most messages that wait; the oldest are dropped.
pub const MESSAGES_MAX: usize = 1000;

#[derive(Debug, Clone, Copy, PartialEq, Eq, Structural)]
pub enum ReportKind {
    /// Where the shell is.
    Location,
    /// A message about a file.
    Message,
}

#[derive(Debug, Clone, Copy, PartialEq, Eq, Structural)]
pub enum OscState {
    Normal,
    Esc,
    Intro,
    Body,
    BodyEsc,
    Drop,
    DropEsc,
}

/// The state between two chunks of the stream.
#[derive(Debug)]
pub struct OscSplitter {
    pub state: OscState,
    pub intro: Vec<u8>,
    pub kind: ReportKind,
    pub payload: Vec<u8>,
}

/// The contents of a splitter.
pub ghost struct Splitting {
    pub state: OscState,
    pub intro: Seq<u8>,
    pub kind: ReportKind,
    pub payload: Seq<u8>,
}

impl View for OscSplitter {
    type V = Splitting;

    open spec fn view(&self) -> Splitting {
        Splitting {
            state: self.state,
            intro: self.intro@,
            kind: self.kind,
            payload: self.payload@,
        }
    }
}

/// What comes out of the stream: bytes for the terminal engine, and reports.
pub ghost struct Flow {
    pub pass: Seq<u8>,
    pub reports: Seq<(ReportKind, Seq<u8>)>,
}

pub open spec fn nothing() -> Flow {
    Flow { pass: Seq::empty(), reports: Seq::empty() }
}

pub open spec fn passing(pass: Seq<u8>) -> Flow {
    Flow { pass, reports: Seq::empty() }
}

pub open spec fn telling(kind: ReportKind, payload: Seq<u8>) -> Flow {
    Flow { pass: Seq::empty(), reports: seq![(kind, payload)] }
}

/// What comes out one after the other.
pub open spec fn both(a: Flow, b: Flow) -> Flow {
    Flow { pass: a.pass + b.pass, reports: a.reports + b.reports }
}

/// How a location begins: the number seven and a semicolon.
pub open spec fn location_intro() -> Seq<u8> {
    seq![0x37u8, 0x3b]
}

/// How a message begins: the number 7717 and a semicolon.
pub open spec fn message_intro() -> Seq<u8> {
    seq![0x37u8, 0x37, 0x31, 0x37, 0x3b]
}

/// A byte behind an escape.
pub open spec fn after_esc(s: Splitting, b: u8) -> (Splitting, Flow) {
    if b == 0x5d {
        (Splitting { state: OscState::Intro, intro: Seq::empty(), ..s }, nothing())
    } else if b == 0x1b {
        (Splitting { state: OscState::Esc, ..s }, passing(seq![0x1bu8]))
    } else {
        (Splitting { state: OscState::Normal, ..s }, passing(seq![0x1bu8, b]))
    }
}

/// A byte of a sequence whose kind is not known yet. One of another kind is for
/// the terminal engine.
pub open spec fn in_intro(s: Splitting, b: u8) -> (Splitting, Flow) {
    let i = s.intro.push(b);
    if i == location_intro() {
        (
            Splitting {
                state: OscState::Body,
                kind: ReportKind::Location,
                payload: Seq::empty(),
                ..s
            },
            nothing(),
        )
    } else if i == message_intro() {
        (
            Splitting {
                state: OscState::Body,
                kind: ReportKind::Message,
                payload: Seq::empty(),
                ..s
            },
            nothing(),
        )
    } else if has_prefix(message_intro(), i) {
        (Splitting { intro: i, ..s }, nothing())
    } else if b == 0x1b {
        (Splitting { state: OscState::Esc, ..s }, passing(seq![0x1bu8, 0x5d] + s.intro))
    } else {
        (Splitting { state: OscState::Normal, ..s }, passing(seq![0x1bu8, 0x5d] + i))
    }
}

/// The effect of one byte: the next state and what comes out.
#[verifier::opaque]
pub open spec fn step(s: Splitting, b: u8) -> (Splitting, Flow) {
    match s.state {
        OscState::Normal => if b == 0x1b {
            (Splitting { state: OscState::Esc, ..s }, nothing())
        } else {
            (s, passing(seq![b]))
        },
        OscState::Esc => after_esc(s, b),
        OscState::Intro => in_intro(s, b),
        OscState::Body => if b == 0x07 {
            (
                Splitting { state: OscState::Normal, payload: Seq::empty(), ..s },
                telling(s.kind, s.payload),
            )
        } else if b == 0x1b {
            (Splitting { state: OscState::BodyEsc, ..s }, nothing())
        } else if s.payload.len() >= REPORT_MAX_BYTES {
            (Splitting { state: OscState::Drop, payload: Seq::empty(), ..s }, nothing())
        } else {
            (Splitting { payload: s.payload.push(b), ..s }, nothing())
        },
        OscState::BodyEsc => if b == 0x5c {
            (
                Splitting { state: OscState::Normal, payload: Seq::empty(), ..s },
                telling(s.kind, s.payload),
            )
        } else {
            after_esc(Splitting { payload: Seq::empty(), ..s }, b)
        },
        OscState::Drop => (
            Splitting {
                state: if b == 0x07 {
                    OscState::Normal
                } else if b == 0x1b {
                    OscState::DropEsc
                } else {
                    OscState::Drop
                },
                ..s
            },
            nothing(),
        ),
        OscState::DropEsc => if b == 0x5c {
            (Splitting { state: OscState::Normal, ..s }, nothing())
        } else {
            after_esc(s, b)
        },
    }
}

/// The effect of a chunk: the state behind it and everything that comes out.
pub open spec fn run(s: Splitting, input: Seq<u8>) -> (Splitting, Flow)
    decreases input.len(),
{
    if input.len() == 0 {
        (s, nothing())
    } else {
        let (mid, out) = run(s, input.drop_last());
        let (end, more) = step(mid, input.last());
        (end, both(out, more))
    }
}

/// The contents of reports.
pub open spec fn report_views(v: Seq<(ReportKind, Vec<u8>)>) -> Seq<(ReportKind, Seq<u8>)> {
    Seq::new(v.len(), |i: int| (v[i].0, v[i].1@))
}

/// What comes out of a chunk.
#[derive(Debug)]
pub struct Chunk {
    pub pass: Vec<u8>,
    pub reports: Vec<(ReportKind, Vec<u8>)>,
}

impl View for Chunk {
    type V = Flow;

    open spec fn view(&self) -> Flow {
        Flow { pass: self.pass@, reports: report_views(self.reports@) }
    }
}

impl Default for OscSplitter {
    fn default() -> (r: Self)
        ensures
            r@ == at_rest(),
    {
        let r = OscSplitter {
            state: OscState::Normal,
            intro: Vec::new(),
            kind: ReportKind::Location,
            payload: Vec::new(),
        };
        assert(r.intro@ =~= Seq::empty());
        assert(r.payload@ =~= Seq::empty());
        r
    }
}

/// A splitter that has seen nothing.
pub open spec fn at_rest() -> Splitting {
    Splitting {
        state: OscState::Normal,
        intro: Seq::empty(),
        kind: ReportKind::Location,
        payload: Seq::empty(),
    }
}

impl Chunk {
    fn byte(&mut self, b: u8)
        ensures
            final(self)@ == both(old(self)@, passing(seq![b])),
    {
        self.pass.push(b);
        proof {
            assert(self@.pass =~= old(self)@.pass + seq![b]);
            assert(self@.reports =~= old(self)@.reports + Seq::empty());
        }
    }

    fn bytes(&mut self, v: &Vec<u8>)
        ensures
            final(self)@ == both(old(self)@, passing(v@)),
    {
        self.pass.extend_from_slice(v.as_slice());
        proof {
            assert(self@.pass =~= old(self)@.pass + v@);
            assert(self@.reports =~= old(self)@.reports + Seq::empty());
        }
    }

    fn report(&mut self, kind: ReportKind, payload: Vec<u8>)
        ensures
            final(self)@ == both(old(self)@, telling(kind, payload@)),
    {
        self.reports.push((kind, payload));
        proof {
            assert(self@.pass =~= old(self)@.pass + Seq::empty());
            assert(self@.reports =~= old(self)@.reports + seq![(kind, payload@)]);
        }
    }
}

proof fn lemma_both_nothing(a: Flow)
    ensures
        both(a, nothing()) == a,
{
    assert(both(a, nothing()).pass =~= a.pass);
    assert(both(a, nothing()).reports =~= a.reports);
}

proof fn lemma_both_pass(a: Flow, x: Seq<u8>, y: Seq<u8>)
    ensures
        both(both(a, passing(x)), passing(y)) == both(a, passing(x + y)),
{
    assert(both(both(a, passing(x)), passing(y)).pass =~= both(a, passing(x + y)).pass);
    assert(both(both(a, passing(x)), passing(y)).reports =~= both(a, passing(x + y)).reports);
}

fn begins_message(intro: &Vec<u8>, b: u8) -> (r: bool)
    ensures
        r == has_prefix(message_intro(), intro@.push(b)),
{
    let ghost i = intro@.push(b);
    let ghost m = message_intro();
    let whole: Vec<u8> = vec![0x37, 0x37, 0x31, 0x37, 0x3b];
    assert(whole@ =~= m);
    if intro.len() >= 5 {
        return false;
    }
    let mut k: usize = 0;
    while k < intro.len()
        invariant
            k <= intro.len() < 5,
            whole@ == m,
            m == message_intro(),
            i == intro@.push(b),
            forall|j: int| 0 <= j < k ==> intro@[j] == m[j],
        decreases intro.len() - k,
    {
        if intro[k] != whole[k] {
            assert(m.subrange(0, i.len() as int)[k as int] != i[k as int]);
            return false;
        }
        k += 1;
    }
    if b == whole[intro.len()] {
        assert(m.subrange(0, i.len() as int) =~= i);
        true
    } else {
        assert(m.subrange(0, i.len() as int)[intro.len() as int] != i[intro.len() as int]);
        false
    }
}

impl OscSplitter {
    fn take_payload(&mut self) -> (r: Vec<u8>)
        ensures
            r@ == old(self)@.payload,
            final(self)@ == (Splitting { payload: Seq::empty(), ..old(self)@ }),
    {
        let mut p: Vec<u8> = Vec::new();
        std::mem::swap(&mut p, &mut self.payload);
        assert(self.payload@ =~= Seq::empty());
        p
    }

    fn behind_esc(&mut self, b: u8, out: &mut Chunk)
        ensures
            final(self)@ == after_esc(old(self)@, b).0,
            final(out)@ == both(old(out)@, after_esc(old(self)@, b).1),
    {
        if b == 0x5d {
            self.state = OscState::Intro;
            self.intro = Vec::new();
            assert(self.intro@ =~= Seq::empty());
            proof {
                lemma_both_nothing(out@);
            }
        } else if b == 0x1b {
            self.state = OscState::Esc;
            out.byte(0x1b);
        } else {
            self.state = OscState::Normal;
            let ghost o = out@;
            out.byte(0x1b);
            out.byte(b);
            proof {
                lemma_both_pass(o, seq![0x1bu8], seq![b]);
                assert(seq![0x1bu8] + seq![b] =~= seq![0x1bu8, b]);
            }
        }
    }

    fn intro_byte(&mut self, b: u8, out: &mut Chunk)
        ensures
            final(self)@ == in_intro(old(self)@, b).0,
            final(out)@ == both(old(out)@, in_intro(old(self)@, b).1),
    {
        let ghost i = self.intro@.push(b);
        let ghost o = out@;
        let begins = begins_message(&self.intro, b);
        let n = self.intro.len();
        proof {
            lemma_both_nothing(o);
            if n == 1 && self.intro@[0] == 0x37 && b == 0x3b {
                assert(i =~= location_intro());
            } else {
                assert(i != location_intro()) by {
                    if i == location_intro() {
                        assert(i.len() == 2);
                        assert(i[0] == 0x37 && i[1] == 0x3b);
                        assert(i[0] == self.intro@[0]);
                    }
                }
            }
            if begins && n == 4 {
                assert(message_intro().subrange(0, 5) =~= message_intro());
            } else {
                assert(i != message_intro()) by {
                    if i == message_intro() {
                        assert(message_intro().subrange(0, 5) =~= message_intro());
                    }
                }
            }
        }
        if n == 1 && self.intro[0] == 0x37 && b == 0x3b {
            self.state = OscState::Body;
            self.kind = ReportKind::Location;
            self.take_payload();
        } else if begins && n == 4 {
            self.state = OscState::Body;
            self.kind = ReportKind::Message;
            self.take_payload();
        } else if begins {
            self.intro.push(b);
        } else if b == 0x1b {
            self.state = OscState::Esc;
            out.byte(0x1b);
            out.byte(0x5d);
            out.bytes(&self.intro);
            proof {
                lemma_both_pass(o, seq![0x1bu8], seq![0x5du8]);
                lemma_both_pass(o, seq![0x1bu8] + seq![0x5du8], self.intro@);
                assert(seq![0x1bu8] + seq![0x5du8] + self.intro@ =~= seq![0x1bu8, 0x5d]
                    + self.intro@);
            }
        } else {
            self.state = OscState::Normal;
            out.byte(0x1b);
            out.byte(0x5d);
            out.bytes(&self.intro);
            out.byte(b);
            proof {
                lemma_both_pass(o, seq![0x1bu8], seq![0x5du8]);
                lemma_both_pass(o, seq![0x1bu8] + seq![0x5du8], self.intro@);
                lemma_both_pass(o, seq![0x1bu8] + seq![0x5du8] + self.intro@, seq![b]);
                assert(seq![0x1bu8] + seq![0x5du8] + self.intro@ + seq![b] =~= seq![0x1bu8, 0x5d]
                    + i);
            }
        }
    }

    fn take(&mut self, b: u8, out: &mut Chunk)
        ensures
            final(self)@ == step(old(self)@, b).0,
            final(out)@ == both(old(out)@, step(old(self)@, b).1),
    {
        proof {
            reveal(step);
            lemma_both_nothing(out@);
        }
        match self.state {
            OscState::Normal => {
                if b == 0x1b {
                    self.state = OscState::Esc;
                } else {
                    out.byte(b);
                }
            },
            OscState::Esc => {
                self.behind_esc(b, out);
            },
            OscState::Intro => {
                self.intro_byte(b, out);
            },
            OscState::Body => {
                if b == 0x07 {
                    let p = self.take_payload();
                    self.state = OscState::Normal;
                    out.report(self.kind, p);
                } else if b == 0x1b {
                    self.state = OscState::BodyEsc;
                } else if self.payload.len() >= REPORT_MAX_BYTES {
                    self.take_payload();
                    self.state = OscState::Drop;
                } else {
                    self.payload.push(b);
                }
            },
            OscState::BodyEsc => {
                let p = self.take_payload();
                if b == 0x5c {
                    self.state = OscState::Normal;
                    out.report(self.kind, p);
                } else {
                    self.behind_esc(b, out);
                }
            },
            OscState::Drop => {
                if b == 0x07 {
                    self.state = OscState::Normal;
                } else if b == 0x1b {
                    self.state = OscState::DropEsc;
                }
            },
            OscState::DropEsc => {
                if b == 0x5c {
                    self.state = OscState::Normal;
                } else {
                    self.behind_esc(b, out);
                }
            },
        }
    }

    /// Takes the next chunk of the stream: gives the bytes for the terminal
    /// engine, and the reports that are complete.
    pub fn feed(&mut self, input: &[u8]) -> (r: Chunk)
        ensures
            final(self)@ == run(old(self)@, input@).0,
            r@ == run(old(self)@, input@).1,
    {
        let ghost s0 = self@;
        let mut out = Chunk { pass: Vec::new(), reports: Vec::new() };
        let mut i: usize = 0;
        assert(out@.pass =~= Seq::empty());
        assert(out@.reports =~= Seq::empty());
        assert(input@.subrange(0, 0) =~= Seq::empty());
        while i < input.len()
            invariant
                i <= input.len(),
                s0 == old(self)@,
                self@ == run(s0, input@.subrange(0, i as int)).0,
                out@ == run(s0, input@.subrange(0, i as int)).1,
            decreases input.len() - i,
        {
            proof {
                let next = input@.subrange(0, i + 1);
                assert(next.drop_last() =~= input@.subrange(0, i as int));
                assert(next.last() == input@[i as int]);
            }
            self.take(input[i], &mut out);
            i += 1;
        }
        assert(input@.subrange(0, input@.len() as int) =~= input@);
        out
    }
}

/// It does not matter where the stream is cut into chunks.
pub proof fn law_chunks_compose(s: Splitting, a: Seq<u8>, b: Seq<u8>)
    ensures
        run(s, a + b).0 == run(run(s, a).0, b).0,
        run(s, a + b).1 == both(run(s, a).1, run(run(s, a).0, b).1),
    decreases b.len(),
{
    if b.len() == 0 {
        assert(a + b =~= a);
        lemma_both_nothing(run(s, a).1);
    } else {
        law_chunks_compose(s, a, b.drop_last());
        assert((a + b).drop_last() =~= a + b.drop_last());
        assert((a + b).last() == b.last());
        let x = run(s, a).1;
        let y = run(run(s, a).0, b.drop_last()).1;
        let z = step(run(run(s, a).0, b.drop_last()).0, b.last()).1;
        assert(both(both(x, y), z).pass =~= both(x, both(y, z)).pass);
        assert(both(both(x, y), z).reports =~= both(x, both(y, z)).reports);
    }
}

/// A stream without escapes goes to the terminal engine unchanged.
pub proof fn law_text_passes_unchanged(s: Splitting, text: Seq<u8>)
    requires
        s.state == OscState::Normal,
        forall|i: int| 0 <= i < text.len() ==> text[i] != 0x1b,
    ensures
        run(s, text) == (s, passing(text)),
    decreases text.len(),
{
    reveal(step);
    if text.len() == 0 {
        assert(text =~= Seq::empty());
    } else {
        law_text_passes_unchanged(s, text.drop_last());
        let (mid, out) = run(s, text.drop_last());
        assert(mid == s);
        assert(both(out, passing(seq![text.last()])).pass =~= text);
        assert(both(out, passing(seq![text.last()])).reports =~= Seq::empty());
    }
}

/// How a report of a kind begins.
pub open spec fn intro_of(kind: ReportKind) -> Seq<u8> {
    match kind {
        ReportKind::Location => location_intro(),
        ReportKind::Message => message_intro(),
    }
}

/// A report in the stream.
pub open spec fn reported(kind: ReportKind, payload: Seq<u8>) -> Seq<u8> {
    seq![0x1bu8, 0x5d] + intro_of(kind) + payload + seq![0x07u8]
}

/// A report is taken out of the stream whole, and nothing of it reaches the
/// terminal engine.
pub proof fn law_report_is_taken_out(s: Splitting, kind: ReportKind, payload: Seq<u8>)
    requires
        s.state == OscState::Normal,
        payload.len() <= REPORT_MAX_BYTES,
        forall|i: int| 0 <= i < payload.len() ==> payload[i] != 0x1b && payload[i] != 0x07,
    ensures
        run(s, reported(kind, payload)).0.state == OscState::Normal,
        run(s, reported(kind, payload)).1 == telling(kind, payload),
{
    reveal(step);
    let head = seq![0x1bu8, 0x5d] + intro_of(kind);
    lemma_opened(s, kind);
    let o = run(s, head).0;
    lemma_body(o, payload);
    law_chunks_compose(s, head, payload);
    law_chunks_compose(s, head + payload, seq![0x07u8]);
    let m = run(s, head + payload).0;
    lemma_one(m, 0x07);
    lemma_both_nothing(nothing());
    assert(both(nothing(), telling(kind, payload)).pass =~= Seq::empty());
    assert(both(nothing(), telling(kind, payload)).reports =~= seq![(kind, payload)]);
}

proof fn lemma_one(s: Splitting, b: u8)
    ensures
        run(s, seq![b]) == step(s, b),
{
    let one = seq![b];
    assert(one.drop_last() =~= Seq::empty());
    assert(run(s, Seq::empty()) == (s, nothing()));
    let f = step(s, b).1;
    assert(both(nothing(), f).pass =~= f.pass);
    assert(both(nothing(), f).reports =~= f.reports);
}

/// One more byte of which nothing comes out.
proof fn lemma_quiet(s: Splitting, a: Seq<u8>, m: Splitting, b: u8, n: Splitting)
    requires
        run(s, a) == (m, nothing()),
        step(m, b) == (n, nothing()),
    ensures
        run(s, a.push(b)) == (n, nothing()),
{
    let t = a.push(b);
    let x = step(m, b);
    assert(t.drop_last() =~= a);
    assert(t.last() == b);
    assert(run(s, t) == (x.0, both(nothing(), x.1)));
    lemma_both_nothing(nothing());
}

proof fn lemma_opened(s: Splitting, kind: ReportKind)
    requires
        s.state == OscState::Normal,
    ensures
        run(s, seq![0x1bu8, 0x5d] + intro_of(kind)) == (
            Splitting {
                state: OscState::Body,
                kind,
                payload: Seq::empty(),
                intro: intro_of(kind).drop_last(),
            },
            nothing(),
        ),
{
    reveal(step);
    let e = Seq::<u8>::empty();
    let esc = Splitting { state: OscState::Esc, ..s };
    assert(run(s, e) == (s, nothing()));
    lemma_quiet(s, e, s, 0x1b, esc);
    let i0 = Splitting { state: OscState::Intro, intro: Seq::empty(), ..s };
    lemma_quiet(s, e.push(0x1b), esc, 0x5d, i0);
    let p2 = e.push(0x1b).push(0x5d);
    let m = message_intro();
    assert(m.subrange(0, 1) =~= e.push(0x37));
    assert(e.push(0x37) != location_intro() && e.push(0x37) != m) by {
        assert(e.push(0x37).len() == 1);
    }
    let i1 = Splitting { intro: e.push(0x37), ..i0 };
    lemma_quiet(s, p2, i0, 0x37, i1);
    let p3 = p2.push(0x37);
    match kind {
        ReportKind::Location => {
            assert(i1.intro.push(0x3b) =~= location_intro());
            let end = Splitting {
                state: OscState::Body,
                kind,
                payload: Seq::empty(),
                ..i1
            };
            lemma_quiet(s, p3, i1, 0x3b, end);
            assert(p3.push(0x3b) =~= seq![0x1bu8, 0x5d] + location_intro());
            assert(location_intro().drop_last() =~= end.intro);
        },
        ReportKind::Message => {
            let a = e.push(0x37).push(0x37);
            assert(m.subrange(0, 2) =~= a);
            assert(a != location_intro()) by {
                assert(a[1] != location_intro()[1]);
            }
            assert(a.len() == 2);
            let i2 = Splitting { intro: a, ..i0 };
            lemma_quiet(s, p3, i1, 0x37, i2);
            let b = a.push(0x31);
            assert(m.subrange(0, 3) =~= b);
            assert(b.len() == 3);
            let i3 = Splitting { intro: b, ..i0 };
            lemma_quiet(s, p3.push(0x37), i2, 0x31, i3);
            let c = b.push(0x37);
            assert(m.subrange(0, 4) =~= c);
            assert(c.len() == 4);
            let i4 = Splitting { intro: c, ..i0 };
            lemma_quiet(s, p3.push(0x37).push(0x31), i3, 0x37, i4);
            assert(c.push(0x3b) =~= m);
            let end = Splitting {
                state: OscState::Body,
                kind,
                payload: Seq::empty(),
                ..i4
            };
            lemma_quiet(s, p3.push(0x37).push(0x31).push(0x37), i4, 0x3b, end);
            assert(p3.push(0x37).push(0x31).push(0x37).push(0x3b) =~= seq![0x1bu8, 0x5d] + m);
            assert(m.drop_last() =~= end.intro);
        },
    }
}

proof fn lemma_body(s: Splitting, payload: Seq<u8>)
    requires
        s.state == OscState::Body,
        s.payload == Seq::<u8>::empty(),
        payload.len() <= REPORT_MAX_BYTES,
        forall|i: int| 0 <= i < payload.len() ==> payload[i] != 0x1b && payload[i] != 0x07,
    ensures
        run(s, payload) == (Splitting { payload, ..s }, nothing()),
    decreases payload.len(),
{
    reveal(step);
    if payload.len() == 0 {
        assert(payload =~= Seq::empty());
    } else {
        lemma_body(s, payload.drop_last());
        lemma_both_nothing(nothing());
        assert(payload.drop_last().push(payload.last()) =~= payload);
    }
}

// ---------------------------------------------------------------------------
// What reports say
// ---------------------------------------------------------------------------

/// The value of a hexadecimal digit.
pub open spec fn hex_value(b: u8) -> Option<u8> {
    if 0x30 <= b <= 0x39 {
        Some((b - 0x30) as u8)
    } else if 0x41 <= b <= 0x46 {
        Some((b - 0x41 + 10) as u8)
    } else if 0x61 <= b <= 0x66 {
        Some((b - 0x61 + 10) as u8)
    } else {
        None
    }
}

fn hex_digit(b: u8) -> (r: Option<u8>)
    ensures
        r == hex_value(b),
        r is Some ==> r->0 < 16,
{
    if 0x30 <= b && b <= 0x39 {
        Some(b - 0x30)
    } else if 0x41 <= b && b <= 0x46 {
        Some(b - 0x41 + 10)
    } else if 0x61 <= b && b <= 0x66 {
        Some(b - 0x61 + 10)
    } else {
        None
    }
}

/// The bytes that an address stands for, from position `from` on: a percent sign
/// and two digits are a byte; `None` where the digits are missing.
pub open spec fn unescaped(s: Seq<u8>, from: int) -> Option<Seq<u8>>
    decreases s.len() - from,
{
    if from < 0 || from >= s.len() {
        Some(Seq::empty())
    } else if s[from] == 0x25 {
        if from + 2 < s.len() && hex_value(s[from + 1]) is Some && hex_value(s[from + 2]) is Some {
            match unescaped(s, from + 3) {
                Some(rest) => Some(
                    seq![(hex_value(s[from + 1])->0 * 16 + hex_value(s[from + 2])->0) as u8] + rest,
                ),
                None => None,
            }
        } else {
            None
        }
    } else {
        match unescaped(s, from + 1) {
            Some(rest) => Some(seq![s[from]] + rest),
            None => None,
        }
    }
}

fn unescape(s: &Vec<u8>) -> (r: Option<Vec<u8>>)
    ensures
        crate::input::opt_bytes(r) == unescaped(s@, 0),
{
    let mut out: Vec<u8> = Vec::new();
    let mut i: usize = 0;
    proof {
        if let Some(v) = unescaped(s@, 0) {
            assert(out@ + v =~= v);
        }
    }
    while i < s.len()
        invariant
            i <= s.len(),
            unescaped(s@, 0) == (match unescaped(s@, i as int) {
                Some(rest) => Some(out@ + rest),
                None => None,
            }),
        decreases s.len() - i,
    {
        let ghost before = out@;
        if s[i] == 0x25 {
            if s.len() - i < 3 {
                return None;
            }
            match (hex_digit(s[i + 1]), hex_digit(s[i + 2])) {
                (Some(a), Some(b)) => {
                    out.push(a * 16 + b);
                    proof {
                        if let Some(rest) = unescaped(s@, i + 3) {
                            assert(before + (seq![(a * 16 + b) as u8] + rest) =~= out@ + rest);
                        }
                    }
                    i += 3;
                },
                _ => {
                    return None;
                },
            }
        } else {
            out.push(s[i]);
            proof {
                if let Some(rest) = unescaped(s@, i + 1) {
                    assert(before + (seq![s@[i as int]] + rest) =~= out@ + rest);
                }
            }
            i += 1;
        }
    }
    assert(out@ + Seq::<u8>::empty() =~= out@);
    Some(out)
}

/// The digit of a value below sixteen.
pub open spec fn hex_char(v: nat) -> u8 {
    if v < 10 {
        (0x30 + v) as u8
    } else {
        (0x41 + v - 10) as u8
    }
}

/// Every byte as a percent sign and two digits.
pub open spec fn escaped(b: Seq<u8>) -> Seq<u8>
    decreases b.len(),
{
    if b.len() == 0 {
        Seq::empty()
    } else {
        seq![0x25u8, hex_char((b[0] / 16) as nat), hex_char((b[0] % 16) as nat)] + escaped(
            b.drop_first(),
        )
    }
}

proof fn lemma_unescaped_shift(a: Seq<u8>, s: Seq<u8>, from: int)
    requires
        0 <= from,
    ensures
        unescaped(a + s, a.len() + from) == unescaped(s, from),
    decreases s.len() - from,
{
    let t = a + s;
    let k = a.len() + from;
    if from < s.len() {
        assert(t[k] == s[from]);
        if s[from] == 0x25 {
            if from + 2 < s.len() {
                assert(t[k + 1] == s[from + 1]);
                assert(t[k + 2] == s[from + 2]);
                lemma_unescaped_shift(a, s, from + 3);
            }
        } else {
            lemma_unescaped_shift(a, s, from + 1);
        }
    }
}

/// Any bytes can be written in an address, and come back.
pub proof fn law_escapes_come_back(b: Seq<u8>)
    ensures
        unescaped(escaped(b), 0) == Some(b),
    decreases b.len(),
{
    if b.len() == 0 {
        assert(b =~= Seq::empty());
    } else {
        let rest = escaped(b.drop_first());
        let head = seq![0x25u8, hex_char((b[0] / 16) as nat), hex_char((b[0] % 16) as nat)];
        law_escapes_come_back(b.drop_first());
        lemma_unescaped_shift(head, rest, 0);
        let s = head + rest;
        assert(s[0] == 0x25 && s[1] == head[1] && s[2] == head[2]);
        assert(hex_value(s[1]) == Some((b[0] / 16) as u8));
        assert(hex_value(s[2]) == Some((b[0] % 16) as u8));
        assert(unescaped(s, 3) == Some(b.drop_first()));
        assert(seq![b[0]] + b.drop_first() =~= b);
    }
}

/// The host and the path of an address.
pub open spec fn address_parts(text: Seq<char>) -> Option<(Seq<char>, Seq<char>)> {
    if !has_prefix(text, "file://"@) {
        None
    } else {
        let rest = text.subrange(7, text.len() as int);
        let k = next_at(rest, '/', 0);
        if k >= rest.len() {
            None
        } else {
            match unescaped(encode_utf8(rest.subrange(k, rest.len() as int)), 0) {
                Some(bytes) if valid_utf8(bytes) => Some(
                    (rest.subrange(0, k), decode_utf8(bytes)),
                ),
                _ => None,
            }
        }
    }
}

/// The contents of a host and a path.
pub open spec fn pair_view(r: Option<(String, String)>) -> Option<(Seq<char>, Seq<char>)> {
    match r {
        Some((a, b)) => Some((a@, b@)),
        None => None,
    }
}

/// The host and the path of an address such as `file://host/path%20name`.
pub fn parse_osc7(payload: &str) -> (r: Option<(String, String)>)
    ensures
        pair_view(r) == address_parts(payload@),
{
    proof {
        reveal_strlit("file://");
    }
    if !starts_with(payload, "file://") {
        return None;
    }
    let cs = chars_of(payload);
    let ghost rest = payload@.subrange(7, payload@.len() as int);
    let all = crate::text::chars_between(&cs, 7, cs.len());
    assert(all@ =~= rest);
    let k = find_next(&all, '/', 0);
    if k >= all.len() {
        return None;
    }
    let host = string_between(&all, 0, k);
    let tail = string_between(&all, k, all.len());
    let raw = bytes_of(tail.as_str());
    match unescape(&raw) {
        Some(bytes) => match from_utf8(bytes) {
            Some(path) => Some((host, path)),
            None => None,
        },
        None => None,
    }
}

/// Whether a host is this machine.
pub open spec fn is_here(host: Seq<char>, own: Seq<char>) -> bool {
    host.len() == 0 || host == "localhost"@ || host == own
}

/// The contents of a place.
pub ghost enum Place {
    Local(Seq<char>),
    Remote { host: Seq<char>, path: Seq<char> },
}

pub open spec fn place_view(l: ShellLocation) -> Place {
    match l {
        ShellLocation::Local(p) => Place::Local(p@),
        ShellLocation::Remote { host, path } => Place::Remote { host: host@, path: path@ },
    }
}

/// Where a shell is that reports a host and a path.
pub open spec fn place_of(host: Seq<char>, path: Seq<char>, own: Seq<char>) -> Place {
    if is_here(host, own) {
        Place::Local(path)
    } else {
        Place::Remote { host, path }
    }
}

/// Where a shell is that reports a host and a path.
pub fn location_of(host: String, path: String, own_host: &str) -> (r: ShellLocation)
    ensures
        place_view(r) == place_of(host@, path@, own_host@),
{
    if chars_of(host.as_str()).len() == 0 || same_text(host.as_str(), "localhost") || same_text(
        host.as_str(),
        own_host,
    ) {
        ShellLocation::Local(path)
    } else {
        ShellLocation::Remote { host, path }
    }
}

/// What a report says.
#[derive(Debug)]
pub enum Report {
    At(ShellLocation),
    Told(GtMessage),
}

/// What a report says.
pub ghost enum Said {
    At(Place),
    Told(Message),
}

impl View for Report {
    type V = Said;

    open spec fn view(&self) -> Said {
        match *self {
            Report::At(l) => Said::At(place_view(l)),
            Report::Told(m) => Said::Told(m@),
        }
    }
}

/// What a report says; nothing where it is not well formed.
pub open spec fn report_of(kind: ReportKind, payload: Seq<u8>, own: Seq<char>) -> Option<Said> {
    if !valid_utf8(payload) {
        None
    } else {
        let text = decode_utf8(payload);
        match kind {
            ReportKind::Location => match address_parts(text) {
                Some((host, path)) => Some(Said::At(place_of(host, path, own))),
                None => None,
            },
            ReportKind::Message => match crate::gt::message_in(text) {
                Some(m) => Some(Said::Told(m)),
                None => None,
            },
        }
    }
}

/// Reads a report.
pub fn read_report(kind: ReportKind, payload: Vec<u8>, own_host: &str) -> (r: Option<Report>)
    ensures
        opt_view(r) == report_of(kind, payload@, own_host@),
{
    let text = match from_utf8(payload) {
        Some(t) => t,
        None => {
            return None;
        },
    };
    match kind {
        ReportKind::Location => match parse_osc7(text.as_str()) {
            Some((host, path)) => Some(Report::At(location_of(host, path, own_host))),
            None => None,
        },
        ReportKind::Message => match parse_gt_message(text.as_str()) {
            Some(m) => Some(Report::Told(m)),
            None => None,
        },
    }
}

/// The contents of messages.
pub open spec fn message_views(v: Seq<GtMessage>) -> Seq<Message> {
    Seq::new(v.len(), |i: int| v[i]@)
}

/// Puts a message behind those that wait; the oldest goes when there are too
/// many.
pub fn queue_message(queue: &mut Vec<GtMessage>, message: GtMessage)
    requires
        old(queue).len() <= MESSAGES_MAX,
    ensures
        final(queue).len() <= MESSAGES_MAX,
        message_views(final(queue)@) == ({
            let all = message_views(old(queue)@).push(message@);
            if all.len() > MESSAGES_MAX {
                all.drop_first()
            } else {
                all
            }
        }),
{
    let ghost all = message_views(queue@).push(message@);
    queue.push(message);
    assert(message_views(queue@) =~= all);
    if queue.len() > MESSAGES_MAX {
        queue.remove(0);
        assert(message_views(queue@) =~= all.drop_first());
    }
}

/// Where the shell of a pane is: as it reports, else its directory, else that
/// of this program.
pub open spec fn pane_place(
    reported: Option<Place>,
    cwd: Option<Seq<char>>,
    current: Option<Seq<char>>,
) -> Place {
    match reported {
        Some(p) => p,
        None => match cwd {
            Some(d) => Place::Local(d),
            None => match current {
                Some(d) => Place::Local(d),
                None => Place::Local("."@),
            },
        },
    }
}

/// Where the shell of a pane is.
pub fn pane_location(
    reported: Option<ShellLocation>,
    cwd: Option<String>,
    current: Option<String>,
) -> (r: ShellLocation)
    ensures
        place_view(r) == pane_place(
            match reported {
                Some(l) => Some(place_view(l)),
                None => None,
            },
            crate::text::opt_text(cwd),
            crate::text::opt_text(current),
        ),
{
    match reported {
        Some(l) => l,
        None => match cwd {
            Some(d) => ShellLocation::Local(d),
            None => match current {
                Some(d) => ShellLocation::Local(d),
                None => ShellLocation::Local(".".to_owned()),
            },
        },
    }
}

} // verus!
