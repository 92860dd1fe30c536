//! Text as sequences of characters: the small vocabulary the other modules
//! use to state what a string is made of, and the functions that compute it.

use vstd::prelude::*;
use vstd::string::*;
use vstd::utf8::*;

verus! {

/// `String::push` appends the given character to the end of the string.
pub assume_specification[ String::push ](s: &mut String, ch: char)
    ensures
        final(s)@ == old(s)@.push(ch),
;

/// The lower-case form that `str::to_lowercase` gives a text, by the Unicode
/// property of that name.
pub uninterp spec fn lowercase(s: Seq<char>) -> Seq<char>;

/// Calls `str::to_lowercase`; the result depends on the text alone.
#[verifier::external_body]
pub(crate) fn to_lower(s: &str) -> (r: String)
    ensures
        r@ == lowercase(s@),
{
    s.to_lowercase()
}

/// Calls `String::from_utf8`: valid UTF-8 gives the text that the bytes
/// encode, anything else gives nothing.
#[verifier::external_body]
pub(crate) fn from_utf8(v: Vec<u8>) -> (r: Option<String>)
    ensures
        r is Some <==> valid_utf8(v@),
        r is Some ==> r->0@ == decode_utf8(v@),
{
    String::from_utf8(v).ok()
}

// ---------------------------------------------------------------------------
// Characters and strings
// ---------------------------------------------------------------------------

/// The contents of a list of strings.
pub open spec fn texts(v: Seq<String>) -> Seq<Seq<char>> {
    Seq::new(v.len(), |i: int| v[i]@)
}

/// The contents of an optional string.
pub open spec fn opt_text(o: Option<String>) -> Option<Seq<char>> {
    match o {
        Some(s) => Some(s@),
        None => None,
    }
}

pub proof fn lemma_texts_push(v: Seq<String>, s: String)
    ensures
        texts(v.push(s)) == texts(v).push(s@),
{
    assert(texts(v.push(s)) =~= texts(v).push(s@));
}

/// The characters of `s`, in order.
pub fn chars_of(s: &str) -> (r: Vec<char>)
    ensures
        r@ == s@,
{
    let mut out: Vec<char> = Vec::new();
    for c in it: s.chars()
        invariant
            out@ == s@.subrange(0, it.index() as int),
            it.seq() == s@,
    {
        out.push(c);
        proof {
            assert(s@.subrange(0, it.index() + 1) =~= s@.subrange(0, it.index() as int).push(c));
        }
    }
    assert(s@.subrange(0, s@.len() as int) =~= s@);
    out
}

/// The text made of the characters from `from` up to `to`.
pub fn string_between(cs: &Vec<char>, from: usize, to: usize) -> (r: String)
    requires
        from <= to <= cs.len(),
    ensures
        r@ == cs@.subrange(from as int, to as int),
{
    let mut out = String::new();
    let mut i: usize = from;
    while i < to
        invariant
            from <= i <= to <= cs.len(),
            out@ == cs@.subrange(from as int, i as int),
        decreases to - i,
    {
        out.push(cs[i]);
        proof {
            assert(cs@.subrange(from as int, i + 1) =~= cs@.subrange(from as int, i as int).push(
                cs[i as int],
            ));
        }
        i += 1;
    }
    out
}

/// The text made of the characters `cs`.
pub fn string_of(cs: &Vec<char>) -> (r: String)
    ensures
        r@ == cs@,
{
    let out = string_between(cs, 0, cs.len());
    assert(cs@.subrange(0, cs@.len() as int) =~= cs@);
    out
}

/// The characters from `from` up to `to`.
pub fn chars_between(cs: &Vec<char>, from: usize, to: usize) -> (r: Vec<char>)
    requires
        from <= to <= cs.len(),
    ensures
        r@ == cs@.subrange(from as int, to as int),
{
    let mut out: Vec<char> = Vec::new();
    let mut i: usize = from;
    while i < to
        invariant
            from <= i <= to <= cs.len(),
            out@ == cs@.subrange(from as int, i as int),
        decreases to - i,
    {
        out.push(cs[i]);
        proof {
            assert(cs@.subrange(from as int, i + 1) =~= cs@.subrange(from as int, i as int).push(
                cs[i as int],
            ));
        }
        i += 1;
    }
    out
}

/// Whether two character vectors hold the same characters.
pub fn same_chars(a: &Vec<char>, b: &Vec<char>) -> (r: bool)
    ensures
        r == (a@ == b@),
{
    if a.len() != b.len() {
        return false;
    }
    let mut i: usize = 0;
    while i < a.len()
        invariant
            i <= a.len(),
            a.len() == b.len(),
            forall|j: int| 0 <= j < i ==> a[j] == b[j],
        decreases a.len() - i,
    {
        if a[i] != b[i] {
            assert(a@[i as int] != b@[i as int]);
            return false;
        }
        i += 1;
    }
    assert(a@ =~= b@);
    true
}

/// Whether two texts are the same.
pub fn same_text(a: &str, b: &str) -> (r: bool)
    ensures
        r == (a@ == b@),
{
    let x = chars_of(a);
    let y = chars_of(b);
    same_chars(&x, &y)
}

/// A copy of a list of strings.
pub fn copy_texts(v: &Vec<String>) -> (r: Vec<String>)
    ensures
        texts(r@) == texts(v@),
        r.len() == v.len(),
{
    let mut out: Vec<String> = Vec::new();
    let mut i: usize = 0;
    while i < v.len()
        invariant
            i <= v.len(),
            out.len() == i,
            forall|j: int| 0 <= j < i ==> out[j]@ == v[j]@,
        decreases v.len() - i,
    {
        out.push(v[i].clone());
        i += 1;
    }
    assert(texts(out@) =~= texts(v@));
    out
}

/// A copy of an optional string.
pub fn copy_opt(o: &Option<String>) -> (r: Option<String>)
    ensures
        opt_text(r) == opt_text(*o),
{
    match o {
        Some(s) => Some(s.clone()),
        None => None,
    }
}

// ---------------------------------------------------------------------------
// Prefixes, searching
// ---------------------------------------------------------------------------

/// Whether `s` begins with `p`.
pub open spec fn has_prefix<T>(s: Seq<T>, p: Seq<T>) -> bool {
    &&& p.len() <= s.len()
    &&& s.subrange(0, p.len() as int) == p
}

/// Whether `p` occurs in `s` at position `k`.
pub open spec fn occurs_at(s: Seq<char>, p: Seq<char>, k: int) -> bool {
    &&& 0 <= k
    &&& k + p.len() <= s.len()
    &&& s.subrange(k, k + p.len()) == p
}

/// Whether `p` occurs somewhere in `s`.
pub open spec fn contains_text(s: Seq<char>, p: Seq<char>) -> bool {
    exists|k: int| occurs_at(s, p, k)
}

/// Whether `p` occurs in `s` at `at`.
pub fn occurs_here(s: &Vec<char>, p: &Vec<char>, at: usize) -> (r: bool)
    requires
        at <= s.len(),
    ensures
        r == occurs_at(s@, p@, at as int),
{
    if p.len() > s.len() - at {
        return false;
    }
    let mut i: usize = 0;
    while i < p.len()
        invariant
            i <= p.len(),
            at + p.len() <= s.len(),
            forall|j: int| 0 <= j < i ==> p[j] == s[at + j],
        decreases p.len() - i,
    {
        if s[at + i] != p[i] {
            proof {
                assert(s@.subrange(at as int, at + p@.len())[i as int] != p@[i as int]);
            }
            return false;
        }
        i += 1;
    }
    assert(s@.subrange(at as int, at + p@.len()) =~= p@);
    true
}

/// Whether the text `s` begins with `p`.
pub fn starts_with(s: &str, p: &str) -> (r: bool)
    ensures
        r == has_prefix(s@, p@),
{
    let a = chars_of(s);
    let b = chars_of(p);
    occurs_here(&a, &b, 0)
}

/// Whether the text `s` contains `p`.
pub fn contains(s: &str, p: &str) -> (r: bool)
    ensures
        r == contains_text(s@, p@),
{
    let a = chars_of(s);
    let b = chars_of(p);
    let mut k: usize = 0;
    while k < a.len()
        invariant
            k <= a.len(),
            a@ == s@,
            b@ == p@,
            forall|j: int| 0 <= j < k ==> !occurs_at(s@, p@, j),
        decreases a.len() - k,
    {
        if occurs_here(&a, &b, k) {
            return true;
        }
        k += 1;
    }
    let last = occurs_here(&a, &b, k);
    if !last {
        assert forall|j: int| !occurs_at(s@, p@, j) by {
            if occurs_at(s@, p@, j) {
                assert(j <= s@.len());
            }
        }
    }
    last
}

/// The rest of `s` after the prefix `p`, where `s` begins with it.
pub fn after_prefix(s: &str, p: &str) -> (r: Option<String>)
    ensures
        r is Some <==> has_prefix(s@, p@),
        r is Some ==> r->0@ == s@.subrange(p@.len() as int, s@.len() as int),
{
    let a = chars_of(s);
    let b = chars_of(p);
    if occurs_here(&a, &b, 0) {
        Some(string_between(&a, b.len(), a.len()))
    } else {
        None
    }
}

/// The position of the first `c` in `s` at or after `from`; the length of
/// `s` where there is none.
pub open spec fn next_at(s: Seq<char>, c: char, from: int) -> int
    decreases s.len() - from,
{
    if from >= s.len() || s[from] == c {
        from
    } else {
        next_at(s, c, from + 1)
    }
}

pub proof fn lemma_next_at(s: Seq<char>, c: char, from: int)
    requires
        0 <= from <= s.len(),
    ensures
        from <= next_at(s, c, from) <= s.len(),
        next_at(s, c, from) < s.len() ==> s[next_at(s, c, from)] == c,
        forall|j: int| from <= j < next_at(s, c, from) ==> s[j] != c,
    decreases s.len() - from,
{
    if from < s.len() && s[from] != c {
        lemma_next_at(s, c, from + 1);
    }
}

/// `next_at` is the only position with its property.
pub proof fn lemma_next_at_is(s: Seq<char>, c: char, from: int, k: int)
    requires
        0 <= from <= k <= s.len(),
        k < s.len() ==> s[k] == c,
        forall|j: int| from <= j < k ==> s[j] != c,
    ensures
        next_at(s, c, from) == k,
    decreases s.len() - from,
{
    if from < k {
        lemma_next_at_is(s, c, from + 1, k);
    }
}

/// Computes `next_at`.
pub fn find_next(s: &Vec<char>, c: char, from: usize) -> (r: usize)
    requires
        from <= s.len(),
    ensures
        r == next_at(s@, c, from as int),
        from <= r <= s.len(),
        r < s.len() ==> s[r as int] == c,
        forall|j: int| from <= j < r ==> s[j] != c,
{
    let mut i: usize = from;
    while i < s.len() && s[i] != c
        invariant
            from <= i <= s.len(),
            forall|j: int| from <= j < i ==> s[j] != c,
        decreases s.len() - i,
    {
        i += 1;
    }
    proof {
        lemma_next_at_is(s@, c, from as int, i as int);
    }
    i
}

/// The position of the last `c` in `s`; `-1` where there is none.
pub open spec fn last_at(s: Seq<char>, c: char) -> int
    decreases s.len(),
{
    if s.len() == 0 {
        -1
    } else if s.last() == c {
        s.len() - 1
    } else {
        last_at(s.drop_last(), c)
    }
}

pub proof fn lemma_last_at(s: Seq<char>, c: char)
    ensures
        -1 <= last_at(s, c) < s.len(),
        last_at(s, c) >= 0 ==> s[last_at(s, c)] == c,
        forall|j: int| last_at(s, c) < j < s.len() ==> s[j] != c,
    decreases s.len(),
{
    if s.len() > 0 && s.last() != c {
        lemma_last_at(s.drop_last(), c);
        assert forall|j: int| last_at(s, c) < j < s.len() implies s[j] != c by {
            if j < s.len() - 1 {
                assert(s.drop_last()[j] != c);
            }
        }
    }
}

pub proof fn lemma_last_at_is(s: Seq<char>, c: char, k: int)
    requires
        -1 <= k < s.len(),
        k >= 0 ==> s[k] == c,
        forall|j: int| k < j < s.len() ==> s[j] != c,
    ensures
        last_at(s, c) == k,
{
    lemma_last_at(s, c);
}

/// The position of the last `c` in `s`; `None` where there is none.
pub fn find_last(s: &Vec<char>, c: char) -> (r: Option<usize>)
    ensures
        r is None <==> last_at(s@, c) < 0,
        r is Some ==> r->0 == last_at(s@, c) && r->0 < s.len(),
{
    let mut i: usize = s.len();
    while i > 0
        invariant
            i <= s.len(),
            forall|j: int| i <= j < s.len() ==> s[j] != c,
        decreases i,
    {
        if s[i - 1] == c {
            proof {
                lemma_last_at_is(s@, c, i - 1);
            }
            return Some(i - 1);
        }
        i -= 1;
    }
    proof {
        lemma_last_at_is(s@, c, -1);
    }
    None
}

// ---------------------------------------------------------------------------
// Splitting
// ---------------------------------------------------------------------------

/// The pieces of `s` between occurrences of `sep`, from position `from` on.
/// There is always at least one piece.
pub open spec fn pieces_from(s: Seq<char>, sep: char, from: int) -> Seq<Seq<char>>
    decreases s.len() - from,
{
    let k = next_at(s, sep, from);
    if from < 0 || k >= s.len() || k < from {
        seq![s.subrange(from, s.len() as int)]
    } else {
        seq![s.subrange(from, k)] + pieces_from(s, sep, k + 1)
    }
}

/// The pieces of `s` between occurrences of `sep`.
pub open spec fn pieces(s: Seq<char>, sep: char) -> Seq<Seq<char>> {
    pieces_from(s, sep, 0)
}

/// Splits a text at every `sep`.
pub fn split_at_char(s: &str, sep: char) -> (r: Vec<String>)
    ensures
        texts(r@) == pieces(s@, sep),
        r.len() >= 1,
{
    let cs = chars_of(s);
    let mut out: Vec<String> = Vec::new();
    let mut from: usize = 0;
    loop
        invariant
            cs@ == s@,
            from <= cs.len(),
            texts(out@) + pieces_from(s@, sep, from as int) == pieces(s@, sep),
        decreases cs.len() - from,
    {
        let k = find_next(&cs, sep, from);
        let piece = string_between(&cs, from, k);
        let ghost before = out@;
        if k >= cs.len() {
            out.push(piece);
            proof {
                lemma_texts_push(before, piece);
                assert(texts(out@) =~= texts(before) + seq![piece@]);
            }
            return out;
        }
        out.push(piece);
        proof {
            lemma_texts_push(before, piece);
            assert(texts(out@) + pieces_from(s@, sep, k + 1) =~= texts(before) + (seq![piece@]
                + pieces_from(s@, sep, k + 1)));
        }
        from = k + 1;
    }
}

/// The parts with `sep` between them.
pub open spec fn join_with(parts: Seq<Seq<char>>, sep: char) -> Seq<char>
    decreases parts.len(),
{
    if parts.len() == 0 {
        Seq::empty()
    } else if parts.len() == 1 {
        parts[0]
    } else {
        parts[0].push(sep) + join_with(parts.drop_first(), sep)
    }
}

/// The texts with `sep` between them.
pub fn join_texts(parts: &Vec<String>, sep: char) -> (r: String)
    ensures
        r@ == join_with(texts(parts@), sep),
{
    let ghost all = texts(parts@);
    let mut out = String::new();
    let mut i: usize = parts.len();
    assert(all.subrange(i as int, all.len() as int) =~= Seq::empty());
    assert(out@ =~= Seq::empty());
    while i > 0
        invariant
            i <= parts.len(),
            all == texts(parts@),
            out@ == join_with(all.subrange(i as int, all.len() as int), sep),
        decreases i,
    {
        let ghost rest = all.subrange(i as int, all.len() as int);
        let ghost tail = out@;
        let whole = i < parts.len();
        i -= 1;
        let mut head = parts[i].clone();
        if whole {
            head.push(sep);
        }
        head.append(out.as_str());
        proof {
            let s = all.subrange(i as int, all.len() as int);
            assert(s.drop_first() =~= rest);
            assert(s[0] == parts[i as int]@);
            if !whole {
                assert(parts[i as int]@ + tail =~= parts[i as int]@);
            }
        }
        out = head;
    }
    assert(all.subrange(0, all.len() as int) =~= all);
    out
}

proof fn lemma_next_at_shift(a: Seq<char>, b: Seq<char>, c: char, from: int)
    requires
        0 <= from <= b.len(),
    ensures
        next_at(a + b, c, a.len() + from) == a.len() + next_at(b, c, from),
    decreases b.len() - from,
{
    if from < b.len() {
        assert((a + b)[a.len() + from] == b[from]);
        if b[from] != c {
            lemma_next_at_shift(a, b, c, from + 1);
        }
    }
}

proof fn lemma_pieces_shift(a: Seq<char>, b: Seq<char>, sep: char, from: int)
    requires
        0 <= from <= b.len(),
    ensures
        pieces_from(a + b, sep, a.len() + from) == pieces_from(b, sep, from),
    decreases b.len() - from,
{
    lemma_next_at_shift(a, b, sep, from);
    lemma_next_at(b, sep, from);
    let k = next_at(b, sep, from);
    let s = a + b;
    if k < b.len() {
        lemma_pieces_shift(a, b, sep, k + 1);
        assert(s.subrange(a.len() + from, a.len() + k) =~= b.subrange(from, k));
    } else {
        assert(s.subrange(a.len() + from, s.len() as int) =~= b.subrange(from, b.len() as int));
    }
}

/// Splitting undoes joining: parts that do not hold the separator come back.
pub proof fn lemma_pieces_join(parts: Seq<Seq<char>>, sep: char)
    requires
        parts.len() > 0,
        forall|i: int, j: int|
            0 <= i < parts.len() && 0 <= j < parts[i].len() ==> #[trigger] parts[i][j] != sep,
    ensures
        pieces(join_with(parts, sep), sep) == parts,
    decreases parts.len(),
{
    let p = parts[0];
    if parts.len() == 1 {
        assert forall|j: int| 0 <= j < p.len() implies p[j] != sep by {
            assert(parts[0][j] != sep);
        }
        lemma_next_at_is(p, sep, 0, p.len() as int);
        assert(p.subrange(0, p.len() as int) =~= p);
        assert(seq![p] =~= parts);
    } else {
        let rest = parts.drop_first();
        let tail = join_with(rest, sep);
        let head = p.push(sep);
        let s = head + tail;
        assert forall|j: int| 0 <= j < p.len() implies s[j] != sep by {
            assert(s[j] == parts[0][j]);
        }
        lemma_next_at_is(s, sep, 0, p.len() as int);
        assert(s.subrange(0, p.len() as int) =~= p);
        assert forall|i: int, j: int| 0 <= i < rest.len() && 0 <= j < rest[i].len() implies
            #[trigger] rest[i][j] != sep by {
            assert(parts[i + 1][j] != sep);
        }
        lemma_pieces_join(rest, sep);
        lemma_pieces_shift(head, tail, sep, 0);
        assert(seq![p] + rest =~= parts);
    }
}

/// A line ending in `\n` without it and without a `\r` before it.
pub open spec fn without_cr(s: Seq<char>) -> Seq<char> {
    if s.len() > 0 && s.last() == '\r' {
        s.drop_last()
    } else {
        s
    }
}

/// The lines of `s` from position `from` on: each ends at a line feed, which
/// is left out with a carriage return just before it; what follows the last
/// line feed is a line only if it is not empty.
pub open spec fn lines_from(s: Seq<char>, from: int) -> Seq<Seq<char>>
    decreases s.len() - from,
{
    let k = next_at(s, '\n', from);
    if from < 0 || from >= s.len() || k < from {
        Seq::empty()
    } else if k >= s.len() {
        seq![s.subrange(from, s.len() as int)]
    } else {
        seq![without_cr(s.subrange(from, k))] + lines_from(s, k + 1)
    }
}

/// The lines of `s`.
pub open spec fn lines(s: Seq<char>) -> Seq<Seq<char>> {
    lines_from(s, 0)
}

/// The lines of `s` from position `from` on, each with its line feed.
pub open spec fn kept_lines_from(s: Seq<char>, from: int) -> Seq<Seq<char>>
    decreases s.len() - from,
{
    let k = next_at(s, '\n', from);
    if from < 0 || from >= s.len() || k < from {
        Seq::empty()
    } else if k >= s.len() {
        seq![s.subrange(from, s.len() as int)]
    } else {
        seq![s.subrange(from, k + 1)] + kept_lines_from(s, k + 1)
    }
}

/// The lines of `s`, each with its line feed.
pub open spec fn kept_lines(s: Seq<char>) -> Seq<Seq<char>> {
    kept_lines_from(s, 0)
}

/// Whether its line feeds are kept or not, a text has the same number of lines.
pub proof fn lemma_kept_lines(s: Seq<char>, from: int)
    requires
        0 <= from,
    ensures
        kept_lines_from(s, from).len() == lines_from(s, from).len(),
    decreases s.len() - from,
{
    if from < s.len() {
        lemma_next_at(s, '\n', from);
        let k = next_at(s, '\n', from);
        if k < s.len() {
            lemma_kept_lines(s, k + 1);
        }
    }
}

/// Splits a text into lines.
pub fn split_lines(s: &str) -> (r: Vec<String>)
    ensures
        texts(r@) == lines(s@),
{
    let cs = chars_of(s);
    let mut out: Vec<String> = Vec::new();
    let mut from: usize = 0;
    while from < cs.len()
        invariant
            cs@ == s@,
            from <= cs.len(),
            texts(out@) + lines_from(s@, from as int) == lines(s@),
        decreases cs.len() - from,
    {
        let k = find_next(&cs, '\n', from);
        let ghost before = out@;
        if k >= cs.len() {
            let piece = string_between(&cs, from, k);
            out.push(piece);
            proof {
                lemma_texts_push(before, piece);
                assert(texts(out@) =~= texts(before) + seq![piece@]);
            }
            return out;
        }
        let end: usize = if k > from && cs[k - 1] == '\r' {
            k - 1
        } else {
            k
        };
        let piece = string_between(&cs, from, end);
        out.push(piece);
        proof {
            let raw = s@.subrange(from as int, k as int);
            assert(without_cr(raw) =~= piece@);
            lemma_texts_push(before, piece);
            assert(texts(out@) + lines_from(s@, k + 1) =~= texts(before) + (seq![piece@]
                + lines_from(s@, k + 1)));
        }
        from = k + 1;
    }
    assert(texts(out@) + lines_from(s@, from as int) =~= texts(out@));
    out
}

// ---------------------------------------------------------------------------
// White space and letter case
// ---------------------------------------------------------------------------

/// The characters with the Unicode property `White_Space`.
pub open spec fn white(c: char) -> bool {
    ||| ('\t' <= c && c <= '\r')
    ||| c == ' '
    ||| c == '\u{85}'
    ||| c == '\u{A0}'
    ||| c == '\u{1680}'
    ||| ('\u{2000}' <= c && c <= '\u{200A}')
    ||| c == '\u{2028}'
    ||| c == '\u{2029}'
    ||| c == '\u{202F}'
    ||| c == '\u{205F}'
    ||| c == '\u{3000}'
}

/// Whether `c` is white space.
pub fn is_white(c: char) -> (r: bool)
    ensures
        r == white(c),
{
    ('\t' <= c && c <= '\r') || c == ' ' || c == '\u{85}' || c == '\u{A0}' || c == '\u{1680}' || (
    '\u{2000}' <= c && c <= '\u{200A}') || c == '\u{2028}' || c == '\u{2029}' || c == '\u{202F}'
        || c == '\u{205F}' || c == '\u{3000}'
}

/// The control characters: the Unicode category `Cc`.
pub open spec fn control(c: char) -> bool {
    c < ' ' || ('\u{7F}' <= c && c <= '\u{9F}')
}

/// Whether `c` is a control character.
pub fn is_control(c: char) -> (r: bool)
    ensures
        r == control(c),
{
    c < ' ' || ('\u{7F}' <= c && c <= '\u{9F}')
}

/// Whether no character of `s` is a control character.
pub open spec fn printable(s: Seq<char>) -> bool {
    forall|i: int| 0 <= i < s.len() ==> !control(s[i])
}

/// Whether no character of `s` is a control character.
pub fn is_printable(s: &str) -> (r: bool)
    ensures
        r == printable(s@),
{
    let cs = chars_of(s);
    let mut i: usize = 0;
    while i < cs.len()
        invariant
            i <= cs.len(),
            cs@ == s@,
            forall|j: int| 0 <= j < i ==> !control(s@[j]),
        decreases cs.len() - i,
    {
        if is_control(cs[i]) {
            assert(control(s@[i as int]));
            return false;
        }
        i += 1;
    }
    true
}

/// `s` without white space at its start.
pub open spec fn trim_start(s: Seq<char>) -> Seq<char>
    decreases s.len(),
{
    if s.len() > 0 && white(s[0]) {
        trim_start(s.drop_first())
    } else {
        s
    }
}

/// `s` without white space at its end.
pub open spec fn trim_end(s: Seq<char>) -> Seq<char>
    decreases s.len(),
{
    if s.len() > 0 && white(s.last()) {
        trim_end(s.drop_last())
    } else {
        s
    }
}

/// `s` without white space at either end.
pub open spec fn trimmed(s: Seq<char>) -> Seq<char> {
    trim_end(trim_start(s))
}

/// Removes white space at both ends.
pub fn trim(s: &str) -> (r: String)
    ensures
        r@ == trimmed(s@),
{
    let cs = chars_of(s);
    let mut from: usize = 0;
    assert(cs@.subrange(0, cs@.len() as int) =~= s@);
    while from < cs.len() && is_white(cs[from])
        invariant
            from <= cs.len(),
            trim_start(cs@.subrange(from as int, cs@.len() as int)) == trim_start(s@),
        decreases cs.len() - from,
    {
        assert(cs@.subrange(from as int, cs@.len() as int).drop_first() =~= cs@.subrange(
            from + 1,
            cs@.len() as int,
        ));
        from += 1;
    }
    let ghost mid = cs@.subrange(from as int, cs@.len() as int);
    assert(trim_start(s@) == mid);
    let mut to: usize = cs.len();
    while to > from && is_white(cs[to - 1])
        invariant
            from <= to <= cs.len(),
            trim_end(cs@.subrange(from as int, to as int)) == trim_end(mid),
        decreases to - from,
    {
        assert(cs@.subrange(from as int, to as int).drop_last() =~= cs@.subrange(
            from as int,
            to - 1,
        ));
        to -= 1;
    }
    string_between(&cs, from, to)
}

/// The position of the first white space in `s` at or after `from`; the
/// length of `s` where there is none.
pub open spec fn word_end(s: Seq<char>, from: int) -> int
    decreases s.len() - from,
{
    if from >= s.len() || white(s[from]) {
        from
    } else {
        word_end(s, from + 1)
    }
}

/// The words of `s` from position `from` on: the longest runs of characters
/// that are not white space.
pub open spec fn words_from(s: Seq<char>, from: int) -> Seq<Seq<char>>
    decreases s.len() - from,
{
    let e = word_end(s, from);
    if from < 0 || from >= s.len() {
        Seq::empty()
    } else if white(s[from]) || e <= from || e > s.len() {
        words_from(s, from + 1)
    } else {
        seq![s.subrange(from, e)] + words_from(s, e)
    }
}

/// The words of `s`.
pub open spec fn words(s: Seq<char>) -> Seq<Seq<char>> {
    words_from(s, 0)
}

proof fn lemma_word_end(s: Seq<char>, from: int, k: int)
    requires
        0 <= from <= k <= s.len(),
        k < s.len() ==> white(s[k]),
        forall|j: int| from <= j < k ==> !white(s[j]),
    ensures
        word_end(s, from) == k,
    decreases s.len() - from,
{
    if from < k {
        lemma_word_end(s, from + 1, k);
    }
}

/// Splits a text into its words.
pub fn split_words(s: &str) -> (r: Vec<String>)
    ensures
        texts(r@) == words(s@),
{
    let cs = chars_of(s);
    let mut out: Vec<String> = Vec::new();
    let mut from: usize = 0;
    assert(texts(out@) + words_from(s@, 0) =~= words(s@));
    while from < cs.len()
        invariant
            cs@ == s@,
            from <= cs.len(),
            texts(out@) + words_from(s@, from as int) == words(s@),
        decreases cs.len() - from,
    {
        if is_white(cs[from]) {
            from += 1;
        } else {
            let mut e: usize = from;
            while e < cs.len() && !is_white(cs[e])
                invariant
                    cs@ == s@,
                    from <= e <= cs.len(),
                    forall|j: int| from <= j < e ==> !white(s@[j]),
                decreases cs.len() - e,
            {
                e += 1;
            }
            let ghost before = out@;
            let piece = string_between(&cs, from, e);
            out.push(piece);
            proof {
                lemma_word_end(s@, from as int, e as int);
                assert(e > from);
                lemma_texts_push(before, piece);
                assert(texts(out@) + words_from(s@, e as int) =~= texts(before) + (seq![piece@]
                    + words_from(s@, e as int)));
            }
            from = e;
        }
    }
    assert(texts(out@) + words_from(s@, from as int) =~= texts(out@));
    out
}

/// An ASCII capital as its small letter; any other character unchanged.
pub open spec fn ascii_lower_char(c: char) -> char {
    if 'A' <= c && c <= 'Z' {
        ((c as u8 + 32) as u8) as char
    } else {
        c
    }
}

/// `s` with every ASCII capital made small.
pub open spec fn ascii_lower(s: Seq<char>) -> Seq<char> {
    s.map_values(|c: char| ascii_lower_char(c))
}

/// Makes every ASCII capital of `s` small.
pub fn to_ascii_lower(s: &str) -> (r: String)
    ensures
        r@ == ascii_lower(s@),
{
    let cs = chars_of(s);
    let mut out = String::new();
    let mut i: usize = 0;
    while i < cs.len()
        invariant
            i <= cs.len(),
            cs@ == s@,
            out@ == ascii_lower(s@.subrange(0, i as int)),
        decreases cs.len() - i,
    {
        let c = cs[i];
        let low = if 'A' <= c && c <= 'Z' {
            ((c as u8 + 32) as u8) as char
        } else {
            c
        };
        out.push(low);
        proof {
            assert(ascii_lower(s@.subrange(0, i + 1)) =~= ascii_lower(s@.subrange(0, i as int)).push(
                low,
            ));
        }
        i += 1;
    }
    assert(s@.subrange(0, s@.len() as int) =~= s@);
    out
}

// ---------------------------------------------------------------------------
// Numbers
// ---------------------------------------------------------------------------

/// The decimal digit `d`.
pub open spec fn digit(d: nat) -> char {
    ((48 + d % 10) as u8) as char
}

/// The decimal numeral of `n`.
pub open spec fn decimal(n: nat) -> Seq<char>
    decreases n,
{
    if n < 10 {
        seq![digit(n)]
    } else {
        decimal(n / 10).push(digit(n % 10))
    }
}

/// The decimal numeral of `n`.
pub fn decimal_text(n: u64) -> (r: String)
    ensures
        r@ == decimal(n as nat),
    decreases n,
{
    let d = ((48 + (n % 10) as u8) as u8) as char;
    let mut out = if n < 10 {
        String::new()
    } else {
        decimal_text(n / 10)
    };
    out.push(d);
    proof {
        if n < 10 {
            assert(out@ =~= seq![digit(n as nat)]);
        }
    }
    out
}

/// Whether `c` is a decimal digit.
pub open spec fn is_digit(c: char) -> bool {
    '0' <= c && c <= '9'
}

/// The number that a row of digits stands for.
pub open spec fn digits_value(s: Seq<char>) -> nat
    decreases s.len(),
{
    if s.len() == 0 {
        0
    } else {
        (digits_value(s.drop_last()) * 10 + (s.last() as u32 - 48)) as nat
    }
}

/// The digits of a numeral that may begin with a plus sign.
pub open spec fn unsigned_digits(s: Seq<char>) -> Seq<char> {
    if s.len() > 0 && s[0] == '+' {
        s.drop_first()
    } else {
        s
    }
}

/// The number below 2^32 that a text stands for: digits, at least one, with
/// or without a plus sign before them.
pub open spec fn u32_value(s: Seq<char>) -> Option<u32> {
    let d = unsigned_digits(s);
    if d.len() > 0 && (forall|i: int| 0 <= i < d.len() ==> is_digit(#[trigger] d[i]))
        && digits_value(d) <= u32::MAX {
        Some(digits_value(d) as u32)
    } else {
        None
    }
}

proof fn lemma_digits_value_grows(s: Seq<char>, k: int)
    requires
        0 <= k <= s.len(),
        forall|i: int| 0 <= i < s.len() ==> is_digit(#[trigger] s[i]),
    ensures
        digits_value(s.subrange(0, k)) <= digits_value(s),
    decreases s.len() - k,
{
    if k < s.len() {
        lemma_digits_value_grows(s, k + 1);
        assert(s.subrange(0, k + 1).drop_last() =~= s.subrange(0, k));
        assert(is_digit(s[k]));
    } else {
        assert(s.subrange(0, k) =~= s);
    }
}

/// Reads a number below 2^32.
pub fn parse_u32(s: &str) -> (r: Option<u32>)
    ensures
        r == u32_value(s@),
{
    let cs = chars_of(s);
    let start: usize = if cs.len() > 0 && cs[0] == '+' {
        1
    } else {
        0
    };
    let ghost d = unsigned_digits(s@);
    assert(d =~= s@.subrange(start as int, s@.len() as int));
    if start == cs.len() {
        return None;
    }
    let mut v: u32 = 0;
    let mut i: usize = start;
    assert(d.subrange(0, 0) =~= Seq::empty());
    while i < cs.len()
        invariant
            start <= i <= cs.len(),
            start < cs.len(),
            cs@ == s@,
            d == unsigned_digits(s@),
            d == s@.subrange(start as int, s@.len() as int),
            v == digits_value(d.subrange(0, i - start)),
            forall|k: int| 0 <= k < i - start ==> is_digit(#[trigger] d[k]),
        decreases cs.len() - i,
    {
        let c = cs[i];
        if !('0' <= c && c <= '9') {
            assert(!is_digit(d[i - start]));
            return None;
        }
        let ghost next = d.subrange(0, i - start + 1);
        let digit: u64 = c as u64 - 48;
        let wide: u64 = v as u64 * 10 + digit;
        proof {
            assert(next.drop_last() =~= d.subrange(0, i - start));
            assert(next.last() == c);
            assert(wide == digits_value(next));
            if (forall|k: int| 0 <= k < d.len() ==> is_digit(#[trigger] d[k])) {
                lemma_digits_value_grows(d, i - start + 1);
            }
        }
        if wide > 0xffff_ffff {
            return None;
        }
        v = wide as u32;
        i += 1;
    }
    assert(d.subrange(0, i - start) =~= d);
    Some(v)
}

/// `n` copies of `c`.
pub open spec fn repeated(c: char, n: nat) -> Seq<char> {
    Seq::new(n, |i: int| c)
}

/// `n` copies of `c`.
pub fn repeat_char(c: char, n: usize) -> (r: String)
    ensures
        r@ == repeated(c, n as nat),
{
    let mut out = String::new();
    let mut i: usize = 0;
    while i < n
        invariant
            i <= n,
            out@ == repeated(c, i as nat),
        decreases n - i,
    {
        out.push(c);
        assert(out@ =~= repeated(c, (i + 1) as nat));
        i += 1;
    }
    assert(out@ =~= repeated(c, n as nat));
    out
}

} // verus!
