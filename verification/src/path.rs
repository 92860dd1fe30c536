//! Slash-separated paths held as text, read the way a Unix path is read:
//! repeated slashes count as one, a `.` counts only as the first component of
//! a relative path, and a leading slash is a component of its own.

use crate::text::{
    chars_of, find_last, find_next, has_prefix, join_with, last_at, lemma_next_at, lemma_next_at_is,
    lemma_texts_push, next_at, opt_text, same_text, string_between, texts,
};
use vstd::prelude::*;
use vstd::string::*;

verus! {

/// The places of the names in `s` from position `from` on.
pub open spec fn name_spans(s: Seq<char>, from: int) -> Seq<(int, int)>
    decreases s.len() - from,
{
    let e = next_at(s, '/', from);
    if from < 0 || from >= s.len() || e < from || e > s.len() {
        Seq::empty()
    } else if e == from {
        name_spans(s, from + 1)
    } else if from != 0 && s.subrange(from, e) == seq!['.'] {
        name_spans(s, e)
    } else {
        seq![(from, e)] + name_spans(s, e)
    }
}

/// Whether `s` begins with a slash.
pub open spec fn absolute(s: Seq<char>) -> bool {
    s.len() > 0 && s[0] == '/'
}

/// The places of the components of the path `s`.
pub open spec fn spans(s: Seq<char>) -> Seq<(int, int)> {
    if absolute(s) {
        seq![(0int, 1int)] + name_spans(s, 1)
    } else {
        name_spans(s, 0)
    }
}

/// The components of the path `s`; the root is the component `/`.
pub open spec fn components(s: Seq<char>) -> Seq<Seq<char>> {
    Seq::new(spans(s).len(), |i: int| s.subrange(spans(s)[i].0, spans(s)[i].1))
}

/// Whether two texts are the same path.
pub open spec fn path_eq(a: Seq<char>, b: Seq<char>) -> bool {
    components(a) == components(b)
}

/// The path without its last component; `None` for the root and the empty path.
pub open spec fn parent(s: Seq<char>) -> Option<Seq<char>> {
    let sp = spans(s);
    if sp.len() == 0 || components(s).last() == seq!['/'] {
        None
    } else if sp.len() == 1 {
        Some(Seq::empty())
    } else {
        Some(s.subrange(0, sp[sp.len() - 2].1))
    }
}

/// The last component, where it is a name.
pub open spec fn file_name(s: Seq<char>) -> Option<Seq<char>> {
    let c = components(s);
    if c.len() == 0 || c.last() == seq!['/'] || c.last() == seq!['.'] || c.last() == seq!['.', '.'] {
        None
    } else {
        Some(c.last())
    }
}

/// What follows the last dot of a name that has one behind its first character.
pub open spec fn name_extension(n: Seq<char>) -> Option<Seq<char>> {
    let k = last_at(n, '.');
    if k <= 0 {
        None
    } else {
        Some(n.subrange(k + 1, n.len() as int))
    }
}

/// The extension of the last component.
pub open spec fn extension(s: Seq<char>) -> Option<Seq<char>> {
    match file_name(s) {
        Some(n) => name_extension(n),
        None => None,
    }
}

/// `b` seen from the directory `a`.
pub open spec fn joined(a: Seq<char>, b: Seq<char>) -> Seq<char> {
    if absolute(b) {
        b
    } else if a.len() == 0 || a.last() == '/' {
        a + b
    } else {
        a.push('/') + b
    }
}

/// What is left of the path `s` below the directory `base`.
pub open spec fn stripped(s: Seq<char>, base: Seq<char>) -> Option<Seq<char>> {
    let sp = spans(s);
    let k = components(base).len() as int;
    if !has_prefix(components(s), components(base)) {
        None
    } else if k == sp.len() {
        Some(Seq::empty())
    } else if k == 0 {
        Some(s.subrange(0, sp.last().1))
    } else {
        Some(s.subrange(sp[k].0, sp.last().1))
    }
}

proof fn lemma_name_spans(s: Seq<char>, from: int)
    requires
        0 <= from,
    ensures
        forall|i: int|
            0 <= i < name_spans(s, from).len() ==> {
                let p = #[trigger] name_spans(s, from)[i];
                &&& from <= p.0 < p.1 <= s.len()
                &&& forall|j: int| p.0 <= j < p.1 ==> s[j] != '/'
            },
        forall|i: int, k: int|
            0 <= i < k < name_spans(s, from).len() ==> (#[trigger] name_spans(s, from)[i]).1 <= (
            #[trigger] name_spans(s, from)[k]).0,
    decreases s.len() - from,
{
    if from < s.len() {
        lemma_next_at(s, '/', from);
        let e = next_at(s, '/', from);
        if e == from {
            lemma_name_spans(s, from + 1);
            assert(name_spans(s, from) == name_spans(s, from + 1));
        } else {
            lemma_name_spans(s, e);
            if from != 0 && s.subrange(from, e) == seq!['.'] {
                assert(name_spans(s, from) == name_spans(s, e));
            }
            if !(from != 0 && s.subrange(from, e) == seq!['.']) {
                let rest = name_spans(s, e);
                let all = name_spans(s, from);
                assert(all =~= seq![(from, e)] + rest);
                assert forall|i: int| 0 <= i < all.len() implies {
                    let p = #[trigger] all[i];
                    &&& from <= p.0 < p.1 <= s.len()
                    &&& forall|j: int| p.0 <= j < p.1 ==> s[j] != '/'
                } by {
                    if i > 0 {
                        assert(all[i] == rest[i - 1]);
                    }
                }
                assert forall|i: int, k: int| 0 <= i < k < all.len() implies (#[trigger] all[i]).1
                    <= (#[trigger] all[k]).0 by {
                    assert(all[k] == rest[k - 1]);
                    if i > 0 {
                        assert(all[i] == rest[i - 1]);
                    }
                }
            }
        }
    }
}

/// Components lie in the text, in order, and none is empty.
pub proof fn lemma_spans(s: Seq<char>)
    ensures
        forall|i: int|
            0 <= i < spans(s).len() ==> {
                let p = #[trigger] spans(s)[i];
                0 <= p.0 < p.1 <= s.len()
            },
        forall|i: int, k: int|
            0 <= i < k < spans(s).len() ==> (#[trigger] spans(s)[i]).1 <= (#[trigger] spans(
                s,
            )[k]).0,
{
    lemma_name_spans(s, 0);
    lemma_name_spans(s, 1);
    if absolute(s) {
        let rest = name_spans(s, 1);
        let all = spans(s);
        assert forall|i: int| 0 <= i < all.len() implies {
            let p = #[trigger] all[i];
            0 <= p.0 < p.1 <= s.len()
        } by {
            if i > 0 {
                assert(all[i] == rest[i - 1]);
            }
        }
        assert forall|i: int, k: int| 0 <= i < k < all.len() implies (#[trigger] all[i]).1 <= (
        #[trigger] all[k]).0 by {
            assert(all[k] == rest[k - 1]);
            if i > 0 {
                assert(all[i] == rest[i - 1]);
            }
        }
    }
}

/// A name that a path can hold: not empty, without slashes, and not a dot.
pub open spec fn is_name(n: Seq<char>) -> bool {
    n.len() > 0 && !n.contains('/') && n != seq!['.']
}

/// The texts at places.
pub open spec fn cut_out(s: Seq<char>, sp: Seq<(int, int)>) -> Seq<Seq<char>> {
    Seq::new(sp.len(), |i: int| s.subrange(sp[i].0, sp[i].1))
}

/// Every component of an absolute path is the root or a name.
pub proof fn lemma_components_names(s: Seq<char>)
    requires
        absolute(s),
    ensures
        components(s).len() > 0,
        components(s)[0] == seq!['/'],
        forall|i: int| 0 < i < components(s).len() ==> is_name(#[trigger] components(s)[i]),
{
    let rest = name_spans(s, 1);
    lemma_name_spans(s, 1);
    lemma_no_dot(s, 1);
    assert(s.subrange(0, 1) =~= seq!['/']);
    assert forall|i: int| 0 < i < components(s).len() implies is_name(
        #[trigger] components(s)[i],
    ) by {
        assert(spans(s)[i] == rest[i - 1]);
        let p = rest[i - 1];
        let n = s.subrange(p.0, p.1);
        assert(components(s)[i] == n);
        assert(n.len() > 0);
        if n.contains('/') {
            let j = choose|j: int| 0 <= j < n.len() && n[j] == '/';
            assert(s[p.0 + j] == '/');
        }
    }
}

proof fn lemma_no_dot(s: Seq<char>, from: int)
    requires
        0 < from,
    ensures
        forall|i: int|
            0 <= i < name_spans(s, from).len() ==> s.subrange(
                (#[trigger] name_spans(s, from)[i]).0,
                name_spans(s, from)[i].1,
            ) != seq!['.'],
    decreases s.len() - from,
{
    if from < s.len() {
        lemma_next_at(s, '/', from);
        let e = next_at(s, '/', from);
        if e == from {
            lemma_no_dot(s, from + 1);
            assert(name_spans(s, from) == name_spans(s, from + 1));
        } else {
            lemma_no_dot(s, e);
            let rest = name_spans(s, e);
            let all = name_spans(s, from);
            if s.subrange(from, e) != seq!['.'] {
                assert(all =~= seq![(from, e)] + rest);
                assert forall|i: int| 0 <= i < all.len() implies s.subrange(
                    (#[trigger] all[i]).0,
                    all[i].1,
                ) != seq!['.'] by {
                    if i > 0 {
                        assert(all[i] == rest[i - 1]);
                    }
                }
            } else {
                assert(all == rest);
            }
        }
    }
}

proof fn lemma_joined_names(a: Seq<char>, names: Seq<Seq<char>>)
    requires
        a.len() > 0,
        a.last() == '/',
        forall|i: int| 0 <= i < names.len() ==> is_name(#[trigger] names[i]),
    ensures
        cut_out(
            a + join_with(names, '/'),
            name_spans(a + join_with(names, '/'), a.len() as int),
        ) == names,
    decreases names.len(),
{
    let s = a + join_with(names, '/');
    let from = a.len() as int;
    if names.len() == 0 {
        assert(s =~= a);
        assert(cut_out(s, name_spans(s, from)) =~= names);
    } else {
        let p = names[0];
        assert(is_name(p));
        let e = from + p.len();
        assert forall|j: int| from <= j < e implies s[j] != '/' by {
            assert(s[j] == p[j - from]);
            if s[j] == '/' {
                assert(p.contains('/'));
            }
        }
        assert(s.subrange(from, e) =~= p);
        if names.len() == 1 {
            assert(s.len() == e);
            lemma_next_at_is(s, '/', from, e);
            assert(name_spans(s, e) =~= Seq::empty());
            assert(name_spans(s, from) =~= seq![(from, e)]);
            assert(cut_out(s, name_spans(s, from)) =~= names);
        } else {
            let rest = names.drop_first();
            let b = a + p.push('/');
            assert(s =~= b + join_with(rest, '/'));
            assert(s[e] == '/');
            lemma_next_at_is(s, '/', from, e);
            lemma_next_at_is(s, '/', e, e);
            assert forall|i: int| 0 <= i < rest.len() implies is_name(#[trigger] rest[i]) by {
                assert(rest[i] == names[i + 1]);
            }
            lemma_joined_names(b, rest);
            assert(name_spans(s, e) == name_spans(s, e + 1));
            assert(name_spans(s, from) =~= seq![(from, e)] + name_spans(s, e + 1));
            let all = cut_out(s, name_spans(s, from));
            let tail = cut_out(s, name_spans(s, e + 1));
            assert(tail == rest);
            assert(all =~= seq![p] + tail);
            assert(names =~= seq![p] + rest);
        }
    }
}

/// A path made of a root and names has these components, and no others.
pub proof fn lemma_rooted_components(names: Seq<Seq<char>>)
    requires
        forall|i: int| 0 <= i < names.len() ==> is_name(#[trigger] names[i]),
    ensures
        components(seq!['/'] + join_with(names, '/')) == seq![seq!['/']] + names,
{
    let s = seq!['/'] + join_with(names, '/');
    lemma_joined_names(seq!['/'], names);
    let sp = name_spans(s, 1);
    assert(spans(s) =~= seq![(0int, 1int)] + sp);
    assert(s.subrange(0, 1) =~= seq!['/']);
    let c = components(s);
    assert forall|i: int| 0 <= i < c.len() implies #[trigger] c[i] == (seq![seq!['/']] + names)[i] by {
        if i > 0 {
            assert(spans(s)[i] == sp[i - 1]);
            assert(cut_out(s, sp)[i - 1] == names[i - 1]);
        }
    }
    assert(cut_out(s, sp).len() == names.len());
    assert(c =~= seq![seq!['/']] + names);
}

/// Positions as mathematical integers.
pub open spec fn span_view(v: Seq<(usize, usize)>) -> Seq<(int, int)> {
    Seq::new(v.len(), |i: int| (v[i].0 as int, v[i].1 as int))
}

/// The places of the components of `s`.
fn find_spans(s: &Vec<char>) -> (r: Vec<(usize, usize)>)
    ensures
        span_view(r@) == spans(s@),
{
    let mut out: Vec<(usize, usize)> = Vec::new();
    let mut from: usize = 0;
    if s.len() > 0 && s[0] == '/' {
        out.push((0, 1));
        from = 1;
        assert(span_view(out@) =~= seq![(0int, 1int)]);
    }
    assert(span_view(out@) + name_spans(s@, from as int) =~= spans(s@));
    while from < s.len()
        invariant
            from <= s.len(),
            span_view(out@) + name_spans(s@, from as int) == spans(s@),
        decreases s.len() - from,
    {
        let e = find_next(s, '/', from);
        if e == from {
            from += 1;
        } else {
            let ghost before = out@;
            if from != 0 && e == from + 1 && s[from] == '.' {
                assert(s@.subrange(from as int, e as int) =~= seq!['.']);
            } else {
                out.push((from, e));
                proof {
                    let cut = s@.subrange(from as int, e as int);
                    if from != 0 && cut == seq!['.'] {
                        assert(cut[0] == '.');
                        assert(cut.len() == 1);
                    }
                    assert(span_view(out@) =~= span_view(before) + seq![(from as int, e as int)]);
                    assert(span_view(out@) + name_spans(s@, e as int) =~= span_view(before) + (
                    seq![(from as int, e as int)] + name_spans(s@, e as int)));
                }
            }
            from = e;
        }
    }
    assert(span_view(out@) + name_spans(s@, from as int) =~= span_view(out@));
    out
}

/// The components of a path.
pub fn path_components(s: &str) -> (r: Vec<String>)
    ensures
        texts(r@) == components(s@),
{
    let cs = chars_of(s);
    let sp = find_spans(&cs);
    proof {
        lemma_spans(s@);
    }
    let mut out: Vec<String> = Vec::new();
    let mut i: usize = 0;
    while i < sp.len()
        invariant
            i <= sp.len(),
            cs@ == s@,
            span_view(sp@) == spans(s@),
            forall|k: int|
                0 <= k < spans(s@).len() ==> {
                    let p = #[trigger] spans(s@)[k];
                    0 <= p.0 < p.1 <= s@.len()
                },
            texts(out@) == components(s@).subrange(0, i as int),
        decreases sp.len() - i,
    {
        assert(spans(s@)[i as int] == span_view(sp@)[i as int]);
        let part = string_between(&cs, sp[i].0, sp[i].1);
        proof {
            lemma_texts_push(out@, part);
            assert(components(s@).subrange(0, i + 1) =~= components(s@).subrange(0, i as int).push(
                part@,
            ));
        }
        out.push(part);
        i += 1;
    }
    assert(components(s@).subrange(0, i as int) =~= components(s@));
    out
}

/// Whether two texts are the same path.
pub fn same_path(a: &str, b: &str) -> (r: bool)
    ensures
        r == path_eq(a@, b@),
{
    let x = path_components(a);
    let y = path_components(b);
    if x.len() != y.len() {
        assert(texts(x@).len() != texts(y@).len());
        return false;
    }
    let n = x.len();
    prefix_len(&x, &y, n)
}

/// Whether the first `n` components agree.
fn prefix_len(x: &Vec<String>, y: &Vec<String>, n: usize) -> (r: bool)
    requires
        n == y.len(),
        n <= x.len(),
    ensures
        r == has_prefix(texts(x@), texts(y@)),
        r && x.len() == y.len() ==> texts(x@) == texts(y@),
        !r ==> texts(x@) != texts(y@),
{
    let mut i: usize = 0;
    while i < n
        invariant
            i <= n,
            n == y.len(),
            n <= x.len(),
            forall|k: int| 0 <= k < i ==> x[k]@ == y[k]@,
        decreases n - i,
    {
        if !same_text(x[i].as_str(), y[i].as_str()) {
            assert(texts(x@)[i as int] != texts(y@)[i as int]);
            assert(texts(x@).subrange(0, n as int)[i as int] != texts(y@)[i as int]);
            return false;
        }
        i += 1;
    }
    assert(texts(x@).subrange(0, n as int) =~= texts(y@));
    assert(n == x.len() ==> texts(x@) =~= texts(y@));
    true
}

/// Whether the path begins at the root.
pub fn is_absolute(s: &str) -> (r: bool)
    ensures
        r == absolute(s@),
{
    let cs = chars_of(s);
    cs.len() > 0 && cs[0] == '/'
}

/// The path without its last component.
pub fn parent_of(s: &str) -> (r: Option<String>)
    ensures
        opt_text(r) == parent(s@),
{
    let cs = chars_of(s);
    let sp = find_spans(&cs);
    proof {
        lemma_spans(s@);
    }
    let n = sp.len();
    if n == 0 {
        return None;
    }
    let (a, b) = sp[n - 1];
    proof {
        assert(span_view(sp@)[n - 1] == spans(s@)[n - 1]);
        let last = components(s@).last();
        assert(last == s@.subrange(a as int, b as int));
        if b == a + 1 && cs@[a as int] == '/' {
            assert(last =~= seq!['/']);
        } else if last == seq!['/'] {
            assert(last[0] == '/' && last.len() == 1);
        }
    }
    if b == a + 1 && cs[a] == '/' {
        return None;
    }
    if n == 1 {
        let e = String::new();
        assert(e@ =~= Seq::<char>::empty());
        return Some(e);
    }
    assert(span_view(sp@)[n - 2] == spans(s@)[n - 2]);
    Some(string_between(&cs, 0, sp[n - 2].1))
}

/// The last component, where it is a name.
pub fn file_name_of(s: &str) -> (r: Option<String>)
    ensures
        opt_text(r) == file_name(s@),
{
    let mut parts = path_components(s);
    let n = parts.len();
    if n == 0 {
        return None;
    }
    let ghost last = components(s@).last();
    assert(last == texts(parts@)[n - 1]);
    let part = parts[n - 1].clone();
    let cs = chars_of(part.as_str());
    proof {
        if cs@.len() == 1 && (cs@[0] == '/' || cs@[0] == '.') {
            assert(cs@ =~= seq![cs@[0]]);
        }
        if cs@.len() == 2 && cs@[0] == '.' && cs@[1] == '.' {
            assert(cs@ =~= seq!['.', '.']);
        }
    }
    if (cs.len() == 1 && (cs[0] == '/' || cs[0] == '.')) || (cs.len() == 2 && cs[0] == '.' && cs[1]
        == '.') {
        return None;
    }
    Some(part)
}

/// What follows the last dot of a name.
pub fn extension_of_name(n: &str) -> (r: Option<String>)
    ensures
        opt_text(r) == name_extension(n@),
{
    let cs = chars_of(n);
    match find_last(&cs, '.') {
        Some(k) => {
            if k == 0 {
                None
            } else {
                Some(string_between(&cs, k + 1, cs.len()))
            }
        },
        None => None,
    }
}

/// The extension of the last component.
pub fn extension_of(s: &str) -> (r: Option<String>)
    ensures
        opt_text(r) == extension(s@),
{
    match file_name_of(s) {
        Some(n) => extension_of_name(n.as_str()),
        None => None,
    }
}

/// `b` seen from the directory `a`.
pub fn join(a: &str, b: &str) -> (r: String)
    ensures
        r@ == joined(a@, b@),
{
    if is_absolute(b) {
        return b.to_owned();
    }
    let cs = chars_of(a);
    let mut out = a.to_owned();
    if cs.len() > 0 && cs[cs.len() - 1] != '/' {
        out.push('/');
    }
    out.append(b);
    out
}

/// What is left of the path `s` below the directory `base`.
pub fn strip_prefix(s: &str, base: &str) -> (r: Option<String>)
    ensures
        opt_text(r) == stripped(s@, base@),
{
    let cs = chars_of(s);
    let sp = find_spans(&cs);
    proof {
        lemma_spans(s@);
    }
    let parts = path_components(s);
    let base_parts = path_components(base);
    let k = base_parts.len();
    let n = sp.len();
    assert(texts(base_parts@).len() == k);
    assert(texts(parts@).len() == n);
    if k > n {
        return None;
    }
    if !prefix_len(&parts, &base_parts, k) {
        return None;
    }
    if k == n {
        let e = String::new();
        assert(e@ =~= Seq::<char>::empty());
        return Some(e);
    }
    assert(span_view(sp@)[n - 1] == spans(s@)[n - 1]);
    if k == 0 {
        return Some(string_between(&cs, 0, sp[n - 1].1));
    }
    assert(span_view(sp@)[k as int] == spans(s@)[k as int]);
    proof {
        if k < n - 1 {
            assert(spans(s@)[k as int].1 <= spans(s@)[n - 1].0);
        }
    }
    Some(string_between(&cs, sp[k].0, sp[n - 1].1))
}

} // verus!
