//! The order of file lists: directories first, then by name.

use crate::preview::first_of;
use crate::text::chars_of;
use vstd::multiset::Multiset;
use vstd::prelude::*;
use vstd::relations::total_ordering;
use vstd::seq_lib::*;
use vstd::string::*;

verus! {

/// An entry: its name, and whether it is a directory.
pub type Entry = (Seq<char>, bool);

/// The contents of entries.
pub open spec fn entry_views(v: Seq<(String, bool)>) -> Seq<(Seq<char>, bool)> {
    Seq::new(v.len(), |i: int| (v[i].0@, v[i].1))
}

/// Whether a name comes before another or is the same: character by
/// character, and a name before its continuations.
pub open spec fn name_le(a: Seq<char>, b: Seq<char>) -> bool
    decreases a.len(),
{
    if a.len() == 0 {
        true
    } else if b.len() == 0 {
        false
    } else if a[0] != b[0] {
        a[0] < b[0]
    } else {
        name_le(a.drop_first(), b.drop_first())
    }
}

/// Whether an entry comes before another or is the same.
pub open spec fn entry_le(a: (Seq<char>, bool), b: (Seq<char>, bool)) -> bool {
    if a.1 != b.1 {
        a.1
    } else {
        name_le(a.0, b.0)
    }
}

proof fn lemma_name_le(a: Seq<char>, b: Seq<char>, c: Seq<char>)
    ensures
        name_le(a, a),
        name_le(a, b) || name_le(b, a),
        name_le(a, b) && name_le(b, a) ==> a == b,
        name_le(a, b) && name_le(b, c) ==> name_le(a, c),
    decreases a.len() + b.len() + c.len(),
{
    if a.len() > 0 && b.len() > 0 && c.len() > 0 {
        lemma_name_le(a.drop_first(), b.drop_first(), c.drop_first());
        if a[0] == b[0] && a.drop_first() == b.drop_first() {
            assert(a =~= seq![a[0]] + a.drop_first());
            assert(b =~= seq![b[0]] + b.drop_first());
        }
    } else if a.len() > 0 && b.len() > 0 {
        lemma_name_le(a.drop_first(), b.drop_first(), c);
        if a[0] == b[0] && a.drop_first() == b.drop_first() {
            assert(a =~= seq![a[0]] + a.drop_first());
            assert(b =~= seq![b[0]] + b.drop_first());
        }
    } else if a.len() > 0 {
        lemma_name_le(a.drop_first(), b, c);
    } else if b.len() == 0 {
        assert(a =~= b);
    }
}

/// The order of entries.
pub open spec fn entry_order() -> spec_fn((Seq<char>, bool), (Seq<char>, bool)) -> bool {
    |a: (Seq<char>, bool), b: (Seq<char>, bool)| entry_le(a, b)
}

pub proof fn lemma_entry_order()
    ensures
        total_ordering(entry_order()),
{
    assert forall|a: (Seq<char>, bool), b: (Seq<char>, bool), c: (Seq<char>, bool)|
        #![trigger entry_le(a, b), entry_le(b, c)]
        entry_le(a, a) && (entry_le(a, b) || entry_le(b, a)) && (entry_le(a, b) && entry_le(b, a)
            ==> a == b) && (entry_le(a, b) && entry_le(b, c) ==> entry_le(a, c)) by {
        lemma_name_le(a.0, b.0, c.0);
    }
    let le = entry_order();
    assert forall|a: (Seq<char>, bool)| #[trigger] le(a, a) by {
        lemma_name_le(a.0, a.0, a.0);
    }
    assert forall|a: (Seq<char>, bool), b: (Seq<char>, bool)| #[trigger]
        le(a, b) && #[trigger] le(b, a) implies a == b by {
        lemma_name_le(a.0, b.0, a.0);
    }
    assert forall|a: (Seq<char>, bool), b: (Seq<char>, bool), c: (Seq<char>, bool)| #[trigger]
        le(a, b) && #[trigger] le(b, c) implies le(a, c) by {
        lemma_name_le(a.0, b.0, c.0);
    }
    assert forall|a: (Seq<char>, bool), b: (Seq<char>, bool)| #[trigger] le(a, b) || #[trigger] le(
        b,
        a,
    ) by {
        lemma_name_le(a.0, b.0, a.0);
    }
}

/// Whether a name comes before another or is the same.
fn name_comes_first(a: &str, b: &str) -> (r: bool)
    ensures
        r == name_le(a@, b@),
{
    let x = chars_of(a);
    let y = chars_of(b);
    let mut i: usize = 0;
    assert(x@.subrange(0, x@.len() as int) =~= a@);
    assert(y@.subrange(0, y@.len() as int) =~= b@);
    loop
        invariant
            i <= x.len(),
            i <= y.len(),
            name_le(x@.subrange(i as int, x@.len() as int), y@.subrange(i as int, y@.len() as int))
                == name_le(a@, b@),
        decreases x.len() - i,
    {
        if i == x.len() {
            return true;
        }
        if i == y.len() {
            return false;
        }
        proof {
            let xs = x@.subrange(i as int, x@.len() as int);
            let ys = y@.subrange(i as int, y@.len() as int);
            assert(xs.drop_first() =~= x@.subrange(i + 1, x@.len() as int));
            assert(ys.drop_first() =~= y@.subrange(i + 1, y@.len() as int));
        }
        if x[i] != y[i] {
            return x[i] < y[i];
        }
        i += 1;
    }
}

fn entry_comes_first(a: &(String, bool), b: &(String, bool)) -> (r: bool)
    ensures
        r == entry_le((a.0@, a.1), (b.0@, b.1)),
{
    if a.1 != b.1 {
        a.1
    } else {
        name_comes_first(a.0.as_str(), b.0.as_str())
    }
}

/// Whether entries are in order.
pub open spec fn in_order(s: Seq<(Seq<char>, bool)>) -> bool {
    forall|i: int, j: int| 0 <= i < j < s.len() ==> entry_le(#[trigger] s[i], #[trigger] s[j])
}

/// The entries in order.
pub open spec fn ordered(s: Seq<(Seq<char>, bool)>) -> Seq<(Seq<char>, bool)> {
    s.sort_by(entry_order())
}

/// Inserting into a list puts one more of the entry into it.
proof fn lemma_insert_multiset<T>(s: Seq<T>, p: int, e: T)
    requires
        0 <= p <= s.len(),
    ensures
        s.insert(p, e).to_multiset() == s.push(e).to_multiset(),
{
    let t = s.insert(p, e);
    assert(t.remove(p) =~= s);
    broadcast use group_to_multiset_ensures;

    assert(t.to_multiset().remove(e) =~= s.to_multiset());
    assert(t.contains(e)) by {
        assert(t[p] == e);
    }
    assert(t.to_multiset().count(e) > 0);
    assert(s.push(e).to_multiset() =~= s.to_multiset().insert(e));
    assert(t.to_multiset() =~= s.push(e).to_multiset());
}

/// Puts an entry into its place in a list that is in order.
fn insert_in_order(list: &mut Vec<(String, bool)>, e: (String, bool))
    requires
        in_order(entry_views(old(list)@)),
    ensures
        in_order(entry_views(final(list)@)),
        entry_views(final(list)@).to_multiset() == entry_views(old(list)@).push(
            (e.0@, e.1),
        ).to_multiset(),
{
    let ghost lv = entry_views(list@);
    let ghost ev = (e.0@, e.1);
    let mut lo: usize = 0;
    let mut hi: usize = list.len();
    while lo < hi
        invariant
            lo <= hi <= list.len(),
            lv == entry_views(list@),
            in_order(lv),
            ev == (e.0@, e.1),
            forall|i: int| 0 <= i < lo ==> entry_le(#[trigger] lv[i], ev),
            forall|i: int| hi <= i < lv.len() ==> entry_le(ev, #[trigger] lv[i]),
        decreases hi - lo,
    {
        let mid = lo + (hi - lo) / 2;
        assert(lv[mid as int] == (list[mid as int].0@, list[mid as int].1));
        if entry_comes_first(&list[mid], &e) {
            assert forall|i: int| 0 <= i < mid + 1 implies entry_le(#[trigger] lv[i], ev) by {
                if i < mid {
                    assert(entry_le(lv[i], lv[mid as int]));
                    lemma_name_le(lv[i].0, lv[mid as int].0, ev.0);
                }
            }
            lo = mid + 1;
        } else {
            assert forall|i: int| mid <= i < lv.len() implies entry_le(ev, #[trigger] lv[i]) by {
                lemma_name_le(ev.0, lv[mid as int].0, lv[i].0);
                if i > mid {
                    assert(entry_le(lv[mid as int], lv[i]));
                }
            }
            hi = mid;
        }
    }
    list.insert(lo, e);
    proof {
        let new = entry_views(list@);
        assert(new =~= lv.insert(lo as int, ev));
        lemma_insert_multiset(lv, lo as int, ev);
        assert forall|i: int, j: int| 0 <= i < j < new.len() implies entry_le(
            #[trigger] new[i],
            #[trigger] new[j],
        ) by {
            let oi = if i < lo { i } else { i - 1 };
            let oj = if j < lo { j } else { j - 1 };
            if i == lo {
                assert(new[j] == lv[oj]);
            } else if j == lo {
                assert(new[i] == lv[oi]);
            } else {
                assert(new[i] == lv[oi] && new[j] == lv[oj]);
            }
        }
    }
}

/// Puts entries in order.
pub fn sort_all(entries: Vec<(String, bool)>) -> (r: Vec<(String, bool)>)
    ensures
        entry_views(r@) == ordered(entry_views(entries@)),
        r.len() == entries.len(),
{
    let ghost all = entry_views(entries@);
    let mut out: Vec<(String, bool)> = Vec::new();
    let mut i: usize = 0;
    assert(all.subrange(0, 0) =~= Seq::empty());
    assert(entry_views(out@) =~= Seq::empty());
    while i < entries.len()
        invariant
            i <= entries.len(),
            all == entry_views(entries@),
            in_order(entry_views(out@)),
            entry_views(out@).to_multiset() == all.subrange(0, i as int).to_multiset(),
        decreases entries.len() - i,
    {
        let e = (entries[i].0.clone(), entries[i].1);
        let ghost before = entry_views(out@);
        insert_in_order(&mut out, e);
        proof {
            broadcast use group_to_multiset_ensures;

            assert(all.subrange(0, i + 1) =~= all.subrange(0, i as int).push(all[i as int]));
            assert(before.push(all[i as int]).to_multiset() =~= before.to_multiset().insert(
                all[i as int],
            ));
            assert(all.subrange(0, i as int).push(all[i as int]).to_multiset() =~= all.subrange(
                0,
                i as int,
            ).to_multiset().insert(all[i as int]));
        }
        i += 1;
    }
    proof {
        assert(all.subrange(0, i as int) =~= all);
        lemma_entry_order();
        let ov = entry_views(out@);
        all.lemma_sort_by_ensures(entry_order());
        lemma_sorted_unique(ov, ordered(all), entry_order());
        broadcast use group_to_multiset_ensures;

        assert(ov.len() == ov.to_multiset().len());
        assert(all.len() == all.to_multiset().len());
    }
    out
}

/// Whether a name is not hidden.
pub open spec fn not_hidden(e: (Seq<char>, bool)) -> bool {
    !(e.0.len() > 0 && e.0[0] == '.')
}

/// The entries whose names are not hidden.
pub open spec fn without_hidden(s: Seq<(Seq<char>, bool)>) -> Seq<(Seq<char>, bool)> {
    s.filter(|e: (Seq<char>, bool)| not_hidden(e))
}

/// The entries whose names do not begin with a dot.
pub fn drop_hidden(entries: Vec<(String, bool)>) -> (r: Vec<(String, bool)>)
    ensures
        entry_views(r@) == without_hidden(entry_views(entries@)),
{
    let ghost all = entry_views(entries@);
    let ghost keep = |e: (Seq<char>, bool)| not_hidden(e);
    let mut out: Vec<(String, bool)> = Vec::new();
    let mut i: usize = 0;
    proof {
        reveal(Seq::filter);
        assert(all.subrange(0, 0) =~= Seq::empty());
        assert(entry_views(out@) =~= Seq::empty());
    }
    while i < entries.len()
        invariant
            i <= entries.len(),
            all == entry_views(entries@),
            keep == (|e: (Seq<char>, bool)| not_hidden(e)),
            entry_views(out@) == all.subrange(0, i as int).filter(keep),
        decreases entries.len() - i,
    {
        proof {
            reveal(Seq::filter);
            assert(all.subrange(0, i + 1).drop_last() =~= all.subrange(0, i as int));
            assert(all.subrange(0, i + 1).last() == all[i as int]);
        }
        let cs = chars_of(entries[i].0.as_str());
        if !(cs.len() > 0 && cs[0] == '.') {
            let ghost before = out@;
            out.push((entries[i].0.clone(), entries[i].1));
            assert(entry_views(out@) =~= entry_views(before).push(all[i as int]));
        }
        i += 1;
    }
    assert(all.subrange(0, i as int) =~= all);
    out
}

/// The entries of a directory as they are listed: hidden ones left out,
/// directories first, then by name, and no more than `max`.
pub fn sort_entries(entries: Vec<(String, bool)>, max: usize) -> (r: Vec<(String, bool)>)
    ensures
        entry_views(r@) == first_of(ordered(without_hidden(entry_views(entries@))), max as nat),
        r.len() <= max,
{
    let shown = drop_hidden(entries);
    let mut out = sort_all(shown);
    let ghost full = entry_views(out@);
    out.truncate(max);
    assert(entry_views(out@) =~= first_of(full, max as nat));
    out
}

/// A list in order holds the same entries, directories first, and by name
/// among directories and among files.
pub proof fn law_ordered(s: Seq<(Seq<char>, bool)>)
    ensures
        ordered(s).to_multiset() == s.to_multiset(),
        forall|i: int, j: int|
            0 <= i < j < ordered(s).len() ==> {
                let a = #[trigger] ordered(s)[i];
                let b = #[trigger] ordered(s)[j];
                &&& (b.1 ==> a.1)
                &&& (a.1 == b.1 ==> name_le(a.0, b.0))
            },
{
    lemma_entry_order();
    s.lemma_sort_by_ensures(entry_order());
    let o = ordered(s);
    assert forall|i: int, j: int| 0 <= i < j < o.len() implies {
        let a = #[trigger] o[i];
        let b = #[trigger] o[j];
        &&& (b.1 ==> a.1)
        &&& (a.1 == b.1 ==> name_le(a.0, b.0))
    } by {
        let le = entry_order();
        assert(le(o[i], o[j]));
    }
}

/// Two names are ordered by the first character in which they differ, and a
/// name comes before its continuations.
pub proof fn law_names_by_first_difference(a: Seq<char>, b: Seq<char>, i: int)
    requires
        0 <= i <= a.len(),
        i <= b.len(),
        forall|k: int| 0 <= k < i ==> a[k] == b[k],
    ensures
        i < a.len() && i < b.len() && a[i] < b[i] ==> name_le(a, b) && !name_le(b, a),
        i == a.len() ==> name_le(a, b),
        i == a.len() && i < b.len() ==> !name_le(b, a),
    decreases i,
{
    if i > 0 {
        assert(a[0] == b[0]);
        assert forall|k: int| 0 <= k < i - 1 implies a.drop_first()[k] == b.drop_first()[k] by {
            assert(a[k + 1] == b[k + 1]);
        }
        law_names_by_first_difference(a.drop_first(), b.drop_first(), i - 1);
    }
}

} // verus!
