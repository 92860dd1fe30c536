//! Lists of paths as text: one path per line.

use crate::path::{path_eq, same_path};
use crate::text::{
    lemma_next_at, lemma_next_at_is, lemma_texts_push, lines, lines_from, next_at, split_lines, texts, trim, trim_end,
    trim_start, trimmed, white, without_cr,
};
use vstd::prelude::*;
use vstd::string::*;

verus! {

/// Whether a list holds the path `p`.
pub open spec fn holds_path(list: Seq<Seq<char>>, p: Seq<char>) -> bool {
    exists|i: int| 0 <= i < list.len() && path_eq(#[trigger] list[i], p)
}

/// The position of the path `p` in a list from `from` on; the length of the
/// list where it is not there.
pub open spec fn path_index(list: Seq<Seq<char>>, p: Seq<char>, from: int) -> int
    decreases list.len() - from,
{
    if from >= list.len() || path_eq(list[from], p) {
        from
    } else {
        path_index(list, p, from + 1)
    }
}

pub proof fn lemma_path_index(list: Seq<Seq<char>>, p: Seq<char>, from: int, k: int)
    requires
        0 <= from <= k <= list.len(),
        k < list.len() ==> path_eq(list[k], p),
        forall|j: int| from <= j < k ==> !path_eq(#[trigger] list[j], p),
    ensures
        path_index(list, p, from) == k,
    decreases list.len() - from,
{
    if from < k {
        assert(!path_eq(list[from], p));
        lemma_path_index(list, p, from + 1, k);
    }
}

/// The position of the path `p` in a list; the length of the list where it
/// is not there.
pub fn find_path(list: &Vec<String>, p: &str) -> (r: usize)
    ensures
        r == path_index(texts(list@), p@, 0),
        r <= list.len(),
        r < list.len() <==> holds_path(texts(list@), p@),
{
    let ghost all = texts(list@);
    let mut i: usize = 0;
    while i < list.len()
        invariant
            i <= list.len(),
            all == texts(list@),
            forall|j: int| 0 <= j < i ==> !path_eq(#[trigger] all[j], p@),
        decreases list.len() - i,
    {
        assert(all[i as int] == list[i as int]@);
        if same_path(list[i].as_str(), p) {
            proof {
                lemma_path_index(all, p@, 0, i as int);
            }
            return i;
        }
        i += 1;
    }
    proof {
        lemma_path_index(all, p@, 0, i as int);
    }
    i
}

/// The paths that lines of text name: each line without the white space
/// around it, blank lines left out.
pub open spec fn named_paths(ls: Seq<Seq<char>>) -> Seq<Seq<char>>
    decreases ls.len(),
{
    if ls.len() == 0 {
        Seq::empty()
    } else {
        let before = named_paths(ls.drop_last());
        let t = trimmed(ls.last());
        if t.len() == 0 {
            before
        } else {
            before.push(t)
        }
    }
}

/// The paths a text names, one on each line.
pub fn read_paths(text: &str) -> (r: Vec<String>)
    ensures
        texts(r@) == named_paths(lines(text@)),
{
    let all = split_lines(text);
    let ghost ls = lines(text@);
    let mut out: Vec<String> = Vec::new();
    let mut i: usize = 0;
    assert(ls.subrange(0, 0) =~= Seq::empty());
    assert(texts(out@) =~= Seq::empty());
    assert(texts(all@).len() == all.len());
    while i < all.len()
        invariant
            i <= all.len(),
            texts(all@) == ls,
            ls.len() == all.len(),
            texts(out@) == named_paths(ls.subrange(0, i as int)),
        decreases all.len() - i,
    {
        let t = trim(all[i].as_str());
        proof {
            assert(ls.subrange(0, i + 1).drop_last() =~= ls.subrange(0, i as int));
            assert(ls.subrange(0, i + 1).last() == all[i as int]@);
            lemma_texts_push(out@, t);
        }
        if !t.as_str().is_empty() {
            out.push(t);
        }
        i += 1;
    }
    assert(ls.subrange(0, i as int) =~= ls);
    out
}

/// The text of a list: each path and a line feed.
pub open spec fn list_text(list: Seq<Seq<char>>) -> Seq<char>
    decreases list.len(),
{
    if list.len() == 0 {
        Seq::empty()
    } else {
        list_text(list.drop_last()) + list.last().push('\n')
    }
}

/// The text of a list.
pub fn write_paths(list: &Vec<String>) -> (r: String)
    ensures
        r@ == list_text(texts(list@)),
{
    let ghost all = texts(list@);
    let mut out = String::new();
    let mut i: usize = 0;
    assert(all.subrange(0, 0) =~= Seq::empty());
    assert(out@ =~= Seq::empty());
    while i < list.len()
        invariant
            i <= list.len(),
            all == texts(list@),
            out@ == list_text(all.subrange(0, i as int)),
        decreases list.len() - i,
    {
        let ghost before = out@;
        out.append(list[i].as_str());
        out.push('\n');
        proof {
            assert(all.subrange(0, i + 1).drop_last() =~= all.subrange(0, i as int));
            assert(all.subrange(0, i + 1).last() == list[i as int]@);
            assert(out@ =~= before + list[i as int]@.push('\n'));
        }
        i += 1;
    }
    assert(all.subrange(0, i as int) =~= all);
    out
}

/// Whether a path can stand on a line by itself: it is not empty, has no
/// white space at its ends, and no line feed.
pub open spec fn writable(p: Seq<char>) -> bool {
    &&& p.len() > 0
    &&& !white(p[0])
    &&& !white(p.last())
    &&& forall|i: int| 0 <= i < p.len() ==> p[i] != '\n'
}

proof fn lemma_lines_append(s: Seq<char>, line: Seq<char>, from: int)
    requires
        0 <= from <= s.len(),
        s.len() == 0 || s.last() == '\n',
        forall|i: int| 0 <= i < line.len() ==> line[i] != '\n',
    ensures
        lines_from(s + line.push('\n'), from) == lines_from(s, from).push(without_cr(line)),
    decreases s.len() - from,
{
    let t = s + line.push('\n');
    if from == s.len() {
        let k = t.len() - 1;
        lemma_next_at_is(t, '\n', from, k);
        assert(t.subrange(from, k) =~= line);
        assert(lines_from(t, k + 1) =~= Seq::empty());
        assert(lines_from(s, from) =~= Seq::empty());
        assert(seq![without_cr(line)] + Seq::<Seq<char>>::empty() =~= Seq::<Seq<char>>::empty().push(
            without_cr(line),
        ));
    } else {
        lemma_next_at(s, '\n', from);
        let k = next_at(s, '\n', from);
        assert(k < s.len()) by {
            if k == s.len() {
                assert(s[s.len() - 1] != '\n');
            }
        }
        assert forall|j: int| from <= j < k implies t[j] != '\n' by {
            assert(t[j] == s[j]);
        }
        lemma_next_at_is(t, '\n', from, k);
        assert(t.subrange(from, k) =~= s.subrange(from, k));
        lemma_lines_append(s, line, k + 1);
        let first = without_cr(s.subrange(from, k));
        assert(seq![first] + lines_from(s, k + 1).push(without_cr(line)) =~= (seq![first]
            + lines_from(s, k + 1)).push(without_cr(line)));
    }
}

/// What is written is read back: the text of a list names the paths of that
/// list in the same order, if each can stand on a line by itself.
pub proof fn law_list_round_trip(list: Seq<Seq<char>>)
    requires
        forall|i: int| 0 <= i < list.len() ==> writable(#[trigger] list[i]),
    ensures
        named_paths(lines(list_text(list))) == list,
        list.len() > 0 ==> list_text(list).last() == '\n',
    decreases list.len(),
{
    if list.len() == 0 {
        assert(lines(list_text(list)) =~= Seq::empty());
        assert(named_paths(lines(list_text(list))) =~= list);
    } else {
        let rest = list.drop_last();
        let p = list.last();
        assert forall|i: int| 0 <= i < rest.len() implies writable(#[trigger] rest[i]) by {
            assert(rest[i] == list[i]);
        }
        assert(writable(list[list.len() - 1]));
        law_list_round_trip(rest);
        lemma_lines_append(list_text(rest), p, 0);
        let ls = lines(list_text(list));
        assert(ls.drop_last() =~= lines(list_text(rest)));
        assert(without_cr(p) == p);
        assert(trim_start(p) == p);
        assert(trim_end(p) == p);
        assert(rest.push(p) =~= list);
    }
}

} // verus!
