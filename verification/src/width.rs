//! How many columns a character takes.

use crate::text::{chars_of, control, string_between};
use unicode_width::UnicodeWidthChar;
use vstd::prelude::*;
use vstd::string::*;

verus! {

/// The width that `UnicodeWidthChar::width` gives a character; `None` for a
/// control character.
pub uninterp spec fn unicode_width(ch: char) -> Option<u16>;

/// Calls `UnicodeWidthChar::width`. The width depends on the character alone:
/// control characters have none, the other ASCII characters are one column
/// wide, and no character is wider than three.
#[verifier::external_body]
fn width_of(ch: char) -> (r: Option<usize>)
    ensures
        r is Some <==> unicode_width(ch) is Some,
        r is Some ==> r->0 <= 3 && unicode_width(ch) == Some(r->0 as u16),
        r is None <==> control(ch),
        ' ' <= ch && ch <= '~' ==> r == Some(1usize),
{
    UnicodeWidthChar::width(ch)
}

/// The columns a character takes, none for a control character.
pub open spec fn columns_of(ch: char) -> nat {
    match unicode_width(ch) {
        Some(w) => w as nat,
        None => 0,
    }
}

/// The columns a character takes, none for a control character.
pub fn char_columns(ch: char) -> (r: usize)
    ensures
        r == columns_of(ch),
        r <= 3,
        control(ch) ==> r == 0,
        ' ' <= ch && ch <= '~' ==> r == 1,
{
    match width_of(ch) {
        Some(w) => w,
        None => 0,
    }
}

/// The columns a text takes.
pub open spec fn width_sum(s: Seq<char>) -> nat
    decreases s.len(),
{
    if s.len() == 0 {
        0
    } else {
        width_sum(s.drop_last()) + columns_of(s.last())
    }
}

pub proof fn lemma_width_push(s: Seq<char>, c: char)
    ensures
        width_sum(s.push(c)) == width_sum(s) + columns_of(c),
{
    assert(s.push(c).drop_last() =~= s);
}

pub proof fn lemma_width_add(a: Seq<char>, b: Seq<char>)
    ensures
        width_sum(a + b) == width_sum(a) + width_sum(b),
    decreases b.len(),
{
    if b.len() == 0 {
        assert(a + b =~= a);
    } else {
        lemma_width_add(a, b.drop_last());
        assert((a + b).drop_last() =~= a + b.drop_last());
        assert((a + b).last() == b.last());
    }
}

/// A width as it is counted: one beyond the range of `usize` counts as the
/// greatest value.
pub open spec fn counted(n: nat) -> nat {
    if n <= usize::MAX {
        n
    } else {
        usize::MAX as nat
    }
}

/// The columns a text takes.
pub fn display_width(text: &str) -> (r: usize)
    ensures
        r == counted(width_sum(text@)),
{
    let cs = chars_of(text);
    let mut sum: usize = 0;
    let mut i: usize = 0;
    assert(cs@.subrange(0, 0) =~= Seq::empty());
    while i < cs.len()
        invariant
            i <= cs.len(),
            cs@ == text@,
            sum == counted(width_sum(cs@.subrange(0, i as int))),
        decreases cs.len() - i,
    {
        proof {
            assert(cs@.subrange(0, i + 1) =~= cs@.subrange(0, i as int).push(cs@[i as int]));
            lemma_width_push(cs@.subrange(0, i as int), cs@[i as int]);
        }
        sum = sum.saturating_add(char_columns(cs[i]));
        i += 1;
    }
    assert(cs@.subrange(0, i as int) =~= cs@);
    sum
}

/// Where the longest end of `s` begins that takes at most `max` columns and
/// has no character without a width: going left from `at`, with `used`
/// columns taken.
pub open spec fn tail_start(s: Seq<char>, at: int, used: int, max: int) -> int
    decreases at,
{
    if at <= 0 || columns_of(s[at - 1]) == 0 || used + columns_of(s[at - 1]) > max {
        at
    } else {
        tail_start(s, at - 1, used + columns_of(s[at - 1]), max)
    }
}

/// A text cut at its start to fit into `max` columns, with an ellipsis in
/// place of what was cut.
pub open spec fn abbreviated(s: Seq<char>, max: nat) -> Seq<char> {
    if counted(width_sum(s)) <= max {
        s
    } else if max == 0 {
        Seq::empty()
    } else if max == 1 {
        seq!['\u{2026}']
    } else {
        seq!['\u{2026}'] + s.subrange(
            tail_start(s, s.len() as int, 0, max - 1),
            s.len() as int,
        )
    }
}

/// Cuts a text at its start to fit into `max_width` columns.
pub fn abbreviate_start(text: &str, max_width: usize) -> (r: String)
    ensures
        r@ == abbreviated(text@, max_width as nat),
{
    if display_width(text) <= max_width {
        return text.to_owned();
    }
    if max_width == 0 {
        let e = String::new();
        assert(e@ =~= Seq::<char>::empty());
        return e;
    }
    let mut out = String::new();
    out.push('\u{2026}');
    if max_width == 1 {
        assert(out@ =~= seq!['\u{2026}']);
        return out;
    }
    let cs = chars_of(text);
    let mut at: usize = cs.len();
    let mut used: usize = 0;
    let room: usize = max_width - 1;
    loop
        invariant
            at <= cs.len(),
            cs@ == text@,
            used <= room,
            tail_start(text@, at as int, used as int, room as int) == tail_start(
                text@,
                text@.len() as int,
                0,
                room as int,
            ),
        ensures
            at == tail_start(text@, text@.len() as int, 0, room as int),
            at <= cs.len(),
        decreases at,
    {
        if at == 0 {
            break;
        }
        let w = char_columns(cs[at - 1]);
        if w == 0 || w > room - used {
            break;
        }
        used = used + w;
        at = at - 1;
    }
    let tail = string_between(&cs, at, cs.len());
    out.append(tail.as_str());
    assert(out@ =~= seq!['\u{2026}'] + tail@);
    out
}

proof fn lemma_tail_fits(s: Seq<char>, at: int, used: int, max: int)
    requires
        0 <= at <= s.len(),
        0 <= used <= max,
        used == width_sum(s.subrange(at, s.len() as int)),
    ensures
        0 <= tail_start(s, at, used, max) <= at,
        width_sum(s.subrange(tail_start(s, at, used, max), s.len() as int)) <= max,
    decreases at,
{
    if at > 0 {
        let c = s[at - 1];
        let one = seq![c];
        let end = s.subrange(at, s.len() as int);
        assert(s.subrange(at - 1, s.len() as int) =~= one + end);
        lemma_width_add(one, end);
        lemma_width_push(Seq::empty(), c);
        assert(Seq::<char>::empty().push(c) =~= one);
        if columns_of(c) != 0 && used + columns_of(c) <= max {
            lemma_tail_fits(s, at - 1, used + columns_of(c), max);
        }
    }
}

/// An abbreviated text fits, but for what its ellipsis takes beyond one column.
pub proof fn law_abbreviated_fits(s: Seq<char>, max: nat)
    requires
        max < usize::MAX,
    ensures
        width_sum(s) <= max ==> abbreviated(s, max) == s,
        width_sum(s) > max && max > 0 ==> width_sum(abbreviated(s, max)) <= max - 1 + columns_of(
            '\u{2026}',
        ),
        max == 0 ==> width_sum(abbreviated(s, max)) == 0,
{
    let dots = seq!['\u{2026}'];
    assert(dots =~= Seq::<char>::empty().push('\u{2026}'));
    lemma_width_push(Seq::empty(), '\u{2026}');
    if max > 1 {
        assert(s.subrange(s.len() as int, s.len() as int) =~= Seq::empty());
        lemma_tail_fits(s, s.len() as int, 0, max - 1);
        lemma_width_add(
            dots,
            s.subrange(tail_start(s, s.len() as int, 0, max - 1), s.len() as int),
        );
    }
}

} // verus!
