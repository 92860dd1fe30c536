//! Bookmarked directories.

use crate::config::{find_user_dir, user_dir};
use crate::path::{join, joined, path_eq};
use crate::pathlist::{
    find_path, holds_path, list_text, named_paths, path_index, read_paths, write_paths,
};
use crate::text::{lines, opt_text, texts};
use vstd::prelude::*;
use vstd::string::*;

verus! {

/// The bookmarks, the newest first, and where they are kept. Without a place
/// they are not saved.
#[derive(Debug)]
pub struct Bookmarks {
    pub entries: Vec<String>,
    pub path: Option<String>,
}

/// A list after a path was put in at the front, or taken out if it was there.
pub open spec fn toggled(list: Seq<Seq<char>>, path: Seq<char>) -> Seq<Seq<char>> {
    if holds_path(list, path) {
        list.remove(path_index(list, path, 0))
    } else {
        list.insert(0, path)
    }
}

/// Puts a path into the list, or takes it out; `true` if it was put in.
pub fn toggle_path(entries: &mut Vec<String>, path: &str) -> (r: bool)
    ensures
        r == !holds_path(texts(old(entries)@), path@),
        texts(final(entries)@) == toggled(texts(old(entries)@), path@),
{
    let k = find_path(entries, path);
    if k < entries.len() {
        entries.remove(k);
        assert(texts(entries@) =~= texts(old(entries)@).remove(k as int));
        return false;
    }
    entries.insert(0, path.to_owned());
    assert(texts(entries@) =~= texts(old(entries)@).insert(0, path@));
    true
}

/// Where the bookmarks are kept, given `XDG_CONFIG_HOME`, `HOME` and a
/// directory for the case that neither is set.
pub fn bookmarks_path(xdg_config_home: Option<String>, home: Option<String>, temp_dir: &str) -> (r:
    String)
    ensures
        r@ == joined(
            joined(
                match user_dir(opt_text(xdg_config_home), opt_text(home), ".config"@) {
                    Some(d) => d,
                    None => temp_dir@,
                },
                "gototerm"@,
            ),
            "bookmarks.txt"@,
        ),
{
    let base = match find_user_dir(xdg_config_home, home, ".config") {
        Some(d) => d,
        None => temp_dir.to_owned(),
    };
    let dir = join(base.as_str(), "gototerm");
    join(dir.as_str(), "bookmarks.txt")
}

impl Bookmarks {
    /// No bookmarks and no place to keep them.
    pub fn empty_for_test() -> (r: Self)
        ensures
            texts(r.entries@) == Seq::<Seq<char>>::empty(),
            r.path is None,
    {
        let entries: Vec<String> = Vec::new();
        assert(texts(entries@) =~= Seq::empty());
        Bookmarks { entries, path: None }
    }

    /// The bookmarks kept at `path`, whose text is `text`; none where there is
    /// no such file.
    pub fn from_text(path: &str, text: Option<&str>) -> (r: Self)
        ensures
            texts(r.entries@) == (match text {
                Some(t) => named_paths(lines(t@)),
                None => Seq::empty(),
            }),
            opt_text(r.path) == Some(path@),
    {
        let entries = match text {
            Some(t) => read_paths(t),
            None => Vec::new(),
        };
        if text.is_none() {
            assert(texts(entries@) =~= Seq::empty());
        }
        Bookmarks { entries, path: Some(path.to_owned()) }
    }

    pub fn entries(&self) -> (r: &Vec<String>)
        ensures
            *r == self.entries,
    {
        &self.entries
    }

    pub fn contains(&self, path: &str) -> (r: bool)
        ensures
            r == holds_path(texts(self.entries@), path@),
    {
        find_path(&self.entries, path) < self.entries.len()
    }

    /// Sets a bookmark, or removes it if it is set; `true` if it was set.
    pub fn toggle(&mut self, path: &str) -> (r: bool)
        ensures
            r == !holds_path(texts(old(self).entries@), path@),
            texts(final(self).entries@) == toggled(texts(old(self).entries@), path@),
            final(self).path == old(self).path,
    {
        toggle_path(&mut self.entries, path)
    }

    /// What to write and where, if the bookmarks are kept anywhere.
    pub fn to_save(&self) -> (r: Option<(String, String)>)
        ensures
            (match r {
                Some((p, t)) => Some((p@, t@)),
                None => None,
            }) == (match self.path {
                Some(p) => Some((p@, list_text(texts(self.entries@)))),
                None => None,
            }),
    {
        match &self.path {
            Some(p) => Some((p.clone(), write_paths(&self.entries))),
            None => None,
        }
    }
}

/// Setting a bookmark and removing it again leaves the list as it was.
pub proof fn law_toggle_twice(list: Seq<Seq<char>>, path: Seq<char>)
    requires
        !holds_path(list, path),
    ensures
        toggled(toggled(list, path), path) == list,
        holds_path(toggled(list, path), path),
{
    let once = list.insert(0, path);
    assert(path_eq(once[0], path));
    assert(path_index(once, path, 0) == 0);
    assert(once.remove(0) =~= list);
}

/// Toggling one path leaves every other one in the list or out of it.
pub proof fn law_toggle_keeps_others(list: Seq<Seq<char>>, path: Seq<char>, other: Seq<char>)
    requires
        !path_eq(path, other),
    ensures
        holds_path(toggled(list, path), other) == holds_path(list, other),
{
    let t = toggled(list, path);
    if holds_path(list, path) {
        let k = path_index(list, path, 0);
        lemma_found(list, path, 0);
        assert forall|i: int| 0 <= i < list.len() && path_eq(#[trigger] list[i], other) implies (
        exists|j: int| 0 <= j < t.len() && path_eq(#[trigger] t[j], other)) by {
            let j = if i < k {
                i
            } else {
                i - 1
            };
            assert(t[j] == list[i]);
        }
        assert forall|j: int| 0 <= j < t.len() && path_eq(#[trigger] t[j], other) implies (
        exists|i: int| 0 <= i < list.len() && path_eq(#[trigger] list[i], other)) by {
            let i = if j < k {
                j
            } else {
                j + 1
            };
            assert(list[i] == t[j]);
        }
    } else {
        assert forall|i: int| 0 <= i < list.len() && path_eq(#[trigger] list[i], other) implies (
        exists|j: int| 0 <= j < t.len() && path_eq(#[trigger] t[j], other)) by {
            assert(t[i + 1] == list[i]);
        }
        assert forall|j: int| 0 <= j < t.len() && path_eq(#[trigger] t[j], other) implies (
        exists|i: int| 0 <= i < list.len() && path_eq(#[trigger] list[i], other)) by {
            assert(j > 0);
            assert(list[j - 1] == t[j]);
        }
    }
}

proof fn lemma_found(list: Seq<Seq<char>>, path: Seq<char>, from: int)
    requires
        0 <= from,
        exists|i: int| from <= i < list.len() && path_eq(#[trigger] list[i], path),
    ensures
        from <= path_index(list, path, from) < list.len(),
        path_eq(list[path_index(list, path, from)], path),
    decreases list.len() - from,
{
    if !path_eq(list[from], path) {
        let i = choose|i: int| from <= i < list.len() && path_eq(#[trigger] list[i], path);
        assert(i > from);
        lemma_found(list, path, from + 1);
    }
}

} // verus!
