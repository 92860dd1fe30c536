//! Recently used project directories.

use crate::config::{find_user_dir, user_dir};
use crate::path::{join, joined, path_eq, same_path};
use crate::pathlist::{holds_path, list_text, named_paths, read_paths, writable, write_paths};
use crate::text::{lines, opt_text, texts};
use vstd::prelude::*;
use vstd::string::*;

verus! {

/// The most directories that are remembered.
pub const MAX_RECENT: usize = 20;

/// The directories, the one used last first.
#[derive(Debug)]
pub struct RecentProjects {
    pub entries: Vec<String>,
}

/// A list without the path `p`.
pub open spec fn without(list: Seq<Seq<char>>, p: Seq<char>) -> Seq<Seq<char>> {
    list.filter(|e: Seq<char>| !path_eq(e, p))
}

/// The first `n` entries of a list, or all if there are fewer.
pub open spec fn first<T>(list: Seq<T>, n: int) -> Seq<T> {
    if list.len() <= n {
        list
    } else {
        list.subrange(0, n)
    }
}

/// A list after the path `p` was used: it comes first, once, and the oldest
/// entries beyond the limit are gone.
pub open spec fn recorded(list: Seq<Seq<char>>, p: Seq<char>) -> Seq<Seq<char>> {
    first(seq![p] + without(list, p), MAX_RECENT as int)
}

/// Puts a path at the front of the list.
pub fn record_path(entries: &mut Vec<String>, path: String)
    ensures
        texts(final(entries)@) == recorded(texts(old(entries)@), path@),
        final(entries).len() <= MAX_RECENT,
{
    let ghost all = texts(entries@);
    let ghost keep = |e: Seq<char>| !path_eq(e, path@);
    let mut out: Vec<String> = Vec::new();
    let ghost p = path@;
    let mut i: usize = 0;
    let copy = path.clone();
    out.push(path);
    proof {
        reveal(Seq::filter);
        assert(all.subrange(0, 0) =~= Seq::empty());
        assert(texts(out@) =~= seq![p] + all.subrange(0, 0).filter(keep));
    }
    while i < entries.len()
        invariant
            i <= entries.len(),
            all == texts(entries@),
            entries@ == old(entries)@,
            copy@ == p,
            keep == (|e: Seq<char>| !path_eq(e, p)),
            texts(out@) == seq![p] + all.subrange(0, i as int).filter(keep),
        decreases entries.len() - i,
    {
        proof {
            reveal(Seq::filter);
            assert(all.subrange(0, i + 1).drop_last() =~= all.subrange(0, i as int));
            assert(all.subrange(0, i + 1).last() == all[i as int]);
        }
        if !same_path(entries[i].as_str(), copy.as_str()) {
            let ghost before = out@;
            out.push(entries[i].clone());
            assert(texts(out@) =~= texts(before).push(all[i as int]));
            assert(texts(out@) =~= seq![p] + all.subrange(0, i as int).filter(keep).push(
                all[i as int],
            ));
        }
        i += 1;
    }
    assert(all.subrange(0, i as int) =~= all);
    let ghost full = texts(out@);
    out.truncate(MAX_RECENT);
    assert(texts(out@) =~= first(full, MAX_RECENT as int));
    *entries = out;
}

/// The list that paths make when each is recorded, the last one first.
pub open spec fn recorded_back(paths: Seq<Seq<char>>) -> Seq<Seq<char>>
    decreases paths.len(),
{
    if paths.len() == 0 {
        Seq::empty()
    } else {
        recorded(recorded_back(paths.drop_first()), paths[0])
    }
}

/// Where the list is kept, given `XDG_CACHE_HOME`, `HOME` and a directory for
/// the case that neither is set.
pub fn recent_projects_path(xdg_cache_home: Option<String>, home: Option<String>, temp_dir: &str)
    -> (r: String)
    ensures
        r@ == joined(
            joined(
                match user_dir(opt_text(xdg_cache_home), opt_text(home), ".cache"@) {
                    Some(d) => d,
                    None => temp_dir@,
                },
                "gototerm"@,
            ),
            "recent_projects.txt"@,
        ),
{
    let base = match find_user_dir(xdg_cache_home, home, ".cache") {
        Some(d) => d,
        None => temp_dir.to_owned(),
    };
    let dir = join(base.as_str(), "gototerm");
    join(dir.as_str(), "recent_projects.txt")
}

impl RecentProjects {
    /// The list kept as `text`, whose first line is the directory used last;
    /// empty where there is none.
    pub fn from_text(text: Option<&str>) -> (r: Self)
        ensures
            texts(r.entries@) == (match text {
                Some(t) => recorded_back(named_paths(lines(t@))),
                None => Seq::empty(),
            }),
    {
        let mut entries: Vec<String> = Vec::new();
        assert(texts(entries@) =~= Seq::empty());
        let t = match text {
            Some(t) => t,
            None => {
                return RecentProjects { entries };
            },
        };
        let paths = read_paths(t);
        let ghost all = texts(paths@);
        let mut i: usize = paths.len();
        assert(all.subrange(i as int, all.len() as int) =~= Seq::empty());
        while i > 0
            invariant
                i <= paths.len(),
                all == texts(paths@),
                texts(entries@) == recorded_back(all.subrange(i as int, all.len() as int)),
            decreases i,
        {
            i -= 1;
            proof {
                let s = all.subrange(i as int, all.len() as int);
                assert(s.drop_first() =~= all.subrange(i + 1, all.len() as int));
                assert(s[0] == paths[i as int]@);
            }
            record_path(&mut entries, paths[i].clone());
        }
        assert(all.subrange(0, all.len() as int) =~= all);
        RecentProjects { entries }
    }

    /// Notes that a directory was used.
    pub fn record(&mut self, path: &str)
        ensures
            texts(final(self).entries@) == recorded(texts(old(self).entries@), path@),
            final(self).entries.len() <= MAX_RECENT,
    {
        record_path(&mut self.entries, path.to_owned());
    }

    pub fn entries(&self) -> (r: &Vec<String>)
        ensures
            *r == self.entries,
    {
        &self.entries
    }

    /// The text to keep the list as.
    pub fn to_text(&self) -> (r: String)
        ensures
            r@ == list_text(texts(self.entries@)),
    {
        write_paths(&self.entries)
    }
}

/// No path occurs twice in a list.
pub open spec fn all_different(list: Seq<Seq<char>>) -> bool {
    forall|i: int, j: int| 0 <= i < j < list.len() ==> !path_eq(#[trigger] list[i], #[trigger] list[j])
}

proof fn lemma_without(list: Seq<Seq<char>>, p: Seq<char>)
    requires
        all_different(list),
    ensures
        all_different(without(list, p)),
        !holds_path(without(list, p), p),
        without(list, p).len() <= list.len(),
        forall|q: Seq<char>| holds_path(without(list, p), q) ==> #[trigger] holds_path(list, q),
        !holds_path(list, p) ==> without(list, p) == list,
    decreases list.len(),
{
    reveal(Seq::filter);
    if list.len() > 0 {
        let rest = list.drop_last();
        assert forall|i: int, j: int| 0 <= i < j < rest.len() implies !path_eq(
            #[trigger] rest[i],
            #[trigger] rest[j],
        ) by {
            assert(rest[i] == list[i] && rest[j] == list[j]);
        }
        lemma_without(rest, p);
        let w = without(rest, p);
        let last = list.last();
        assert forall|q: Seq<char>| holds_path(rest, q) implies #[trigger] holds_path(list, q) by {
            let i = choose|i: int| 0 <= i < rest.len() && path_eq(#[trigger] rest[i], q);
            assert(list[i] == rest[i]);
        }
        if !path_eq(last, p) {
            let full = without(list, p);
            assert(full == w.push(last));
            assert forall|i: int, j: int| 0 <= i < j < full.len() implies !path_eq(
                #[trigger] full[i],
                #[trigger] full[j],
            ) by {
                if j < w.len() {
                    assert(full[i] == w[i] && full[j] == w[j]);
                } else {
                    assert(full[i] == w[i] && full[j] == last);
                    assert(path_eq(w[i], w[i]));
                    assert(holds_path(w, w[i]));
                    assert(holds_path(rest, w[i]));
                    let k = choose|k: int| 0 <= k < rest.len() && path_eq(#[trigger] rest[k], w[i]);
                    assert(rest[k] == list[k]);
                    assert(!path_eq(list[k], list[list.len() - 1]));
                }
            }
            assert forall|q: Seq<char>| holds_path(full, q) implies #[trigger] holds_path(list, q) by {
                let i = choose|i: int| 0 <= i < full.len() && path_eq(#[trigger] full[i], q);
                if i < w.len() {
                    assert(w[i] == full[i]);
                    assert(holds_path(w, q));
                } else {
                    assert(list[list.len() - 1] == full[i]);
                }
            }
            assert(!holds_path(full, p)) by {
                if holds_path(full, p) {
                    let i = choose|i: int| 0 <= i < full.len() && path_eq(#[trigger] full[i], p);
                    if i < w.len() {
                        assert(w[i] == full[i]);
                        assert(holds_path(w, p));
                    }
                }
            }
        }
        if !holds_path(list, p) {
            assert(!path_eq(list[list.len() - 1], p));
            assert(!holds_path(rest, p));
            assert(w.push(last) =~= list);
        }
    } else {
        assert(without(list, p) =~= list);
    }
}

/// However often directories are used, the list names none twice, has at most
/// twenty entries, and begins with the one used last.
pub proof fn law_recorded(list: Seq<Seq<char>>, p: Seq<char>)
    requires
        all_different(list),
    ensures
        all_different(recorded(list, p)),
        recorded(list, p).len() <= MAX_RECENT,
        recorded(list, p)[0] == p,
{
    lemma_without(list, p);
    let w = without(list, p);
    let full = seq![p] + w;
    assert forall|i: int, j: int| 0 <= i < j < full.len() implies !path_eq(
        #[trigger] full[i],
        #[trigger] full[j],
    ) by {
        assert(full[j] == w[j - 1]);
        if i > 0 {
            assert(full[i] == w[i - 1]);
        } else {
            if path_eq(p, w[j - 1]) {
                assert(holds_path(w, p));
            }
        }
    }
    let r = recorded(list, p);
    assert forall|i: int, j: int| 0 <= i < j < r.len() implies !path_eq(
        #[trigger] r[i],
        #[trigger] r[j],
    ) by {
        assert(r[i] == full[i] && r[j] == full[j]);
    }
}

proof fn lemma_recorded_back(list: Seq<Seq<char>>)
    requires
        all_different(list),
        list.len() <= MAX_RECENT,
    ensures
        recorded_back(list) == list,
    decreases list.len(),
{
    if list.len() > 0 {
        let rest = list.drop_first();
        assert forall|i: int, j: int| 0 <= i < j < rest.len() implies !path_eq(
            #[trigger] rest[i],
            #[trigger] rest[j],
        ) by {
            assert(rest[i] == list[i + 1] && rest[j] == list[j + 1]);
        }
        lemma_recorded_back(rest);
        assert(!holds_path(rest, list[0])) by {
            if holds_path(rest, list[0]) {
                let i = choose|i: int| 0 <= i < rest.len() && path_eq(#[trigger] rest[i], list[0]);
                assert(rest[i] == list[i + 1]);
                assert(!path_eq(list[0], list[i + 1]));
            }
        }
        lemma_without(rest, list[0]);
        assert(seq![list[0]] + rest =~= list);
    } else {
        assert(recorded_back(list) =~= list);
    }
}

/// The list that is kept is the list that is found again, in the same order.
pub proof fn law_recent_round_trip(list: Seq<Seq<char>>)
    requires
        all_different(list),
        list.len() <= MAX_RECENT,
        forall|i: int| 0 <= i < list.len() ==> writable(#[trigger] list[i]),
    ensures
        recorded_back(named_paths(lines(list_text(list)))) == list,
{
    crate::pathlist::law_list_round_trip(list);
    lemma_recorded_back(list);
}

} // verus!
