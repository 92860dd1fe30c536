//! Changes below a watched directory.

use crate::path::{components, join, joined, path_components, strip_prefix, stripped};
use crate::text::{chars_of, same_text, texts};
use vstd::prelude::*;
use vstd::string::*;

verus! {

/// The most directories that are watched at once.
pub const MAX_WATCHED_DIRS: usize = 2000;

#[derive(Debug, Clone, Copy, PartialEq, Eq, Structural)]
pub enum ChangeKind {
    New,
    Modified,
    Deleted,
}

/// A change of a file, named relative to the watched directory.
#[derive(Debug)]
pub struct FileChange {
    pub path: String,
    pub kind: ChangeKind,
}

/// The contents of changes.
pub open spec fn change_views(v: Seq<FileChange>) -> Seq<(Seq<char>, ChangeKind)> {
    Seq::new(v.len(), |i: int| (v[i].path@, v[i].kind))
}

/// What the operating system reports.
#[derive(Debug, Clone, Copy, PartialEq, Eq, Structural)]
pub enum EventKind {
    Create,
    Modify,
    Remove,
    Other,
}

/// The change an event stands for, if any.
pub open spec fn event_change(kind: EventKind) -> Option<ChangeKind> {
    match kind {
        EventKind::Create => Some(ChangeKind::New),
        EventKind::Modify => Some(ChangeKind::Modified),
        EventKind::Remove => Some(ChangeKind::Deleted),
        EventKind::Other => None,
    }
}

/// The change an event stands for, if any.
pub fn change_kind_for_event(kind: EventKind) -> (r: Option<ChangeKind>)
    ensures
        r == event_change(kind),
{
    match kind {
        EventKind::Create => Some(ChangeKind::New),
        EventKind::Modify => Some(ChangeKind::Modified),
        EventKind::Remove => Some(ChangeKind::Deleted),
        EventKind::Other => None,
    }
}

/// Two changes of one file as one: a new file that is edited stays new, a
/// deletion is final, and a file made anew after a deletion was overwritten.
pub open spec fn merged(prev: Option<ChangeKind>, next: ChangeKind) -> ChangeKind {
    if next == ChangeKind::Deleted {
        ChangeKind::Deleted
    } else if prev == Some(ChangeKind::Deleted) && next == ChangeKind::New {
        ChangeKind::Modified
    } else if prev == Some(ChangeKind::New) && next == ChangeKind::Modified {
        ChangeKind::New
    } else {
        next
    }
}

/// Two changes of one file as one.
pub fn merge_kind(prev: Option<ChangeKind>, next: ChangeKind) -> (r: ChangeKind)
    ensures
        r == merged(prev, next),
{
    match (prev, next) {
        (_, ChangeKind::Deleted) => ChangeKind::Deleted,
        (Some(ChangeKind::Deleted), ChangeKind::New) => ChangeKind::Modified,
        (Some(ChangeKind::New), ChangeKind::Modified) => ChangeKind::New,
        (_, next) => next,
    }
}

/// Whether `name` is one of `patterns`.
pub fn is_listed(name: &str, patterns: &Vec<String>) -> (r: bool)
    ensures
        r == texts(patterns@).contains(name@),
{
    let mut i: usize = 0;
    while i < patterns.len()
        invariant
            i <= patterns.len(),
            forall|k: int| 0 <= k < i ==> patterns[k]@ != name@,
        decreases patterns.len() - i,
    {
        if same_text(patterns[i].as_str(), name) {
            assert(texts(patterns@)[i as int] == name@);
            return true;
        }
        i += 1;
    }
    false
}

/// Whether some component of a path is one of `patterns`.
pub open spec fn ignored(path: Seq<char>, patterns: Seq<Seq<char>>) -> bool {
    exists|i: int|
        0 <= i < components(path).len() && patterns.contains(#[trigger] components(path)[i])
}

/// Whether some component of a path is one of `patterns`.
pub fn is_ignored(rel_path: &str, patterns: &Vec<String>) -> (r: bool)
    ensures
        r == ignored(rel_path@, texts(patterns@)),
{
    let parts = path_components(rel_path);
    let mut i: usize = 0;
    while i < parts.len()
        invariant
            i <= parts.len(),
            texts(parts@) == components(rel_path@),
            forall|k: int|
                0 <= k < i ==> !texts(patterns@).contains(#[trigger] components(rel_path@)[k]),
        decreases parts.len() - i,
    {
        assert(components(rel_path@)[i as int] == texts(parts@)[i as int]);
        if is_listed(parts[i].as_str(), patterns) {
            return true;
        }
        i += 1;
    }
    assert(texts(parts@).len() == parts.len());
    false
}

/// `path` seen from `root`, or as it is where it does not lie below `root`.
pub open spec fn below(root: Seq<char>, path: Seq<char>) -> Seq<char> {
    match stripped(path, root) {
        Some(r) => r,
        None => path,
    }
}

/// `path` seen from `root`.
pub fn relative_path(root: &str, path: &str) -> (r: String)
    ensures
        r@ == below(root@, path@),
{
    match strip_prefix(path, root) {
        Some(r) => r,
        None => path.to_owned(),
    }
}

/// Whether a directory of this name is watched: it is not hidden and not one
/// of `patterns`.
pub open spec fn descends(name: Seq<char>, patterns: Seq<Seq<char>>) -> bool {
    !(name.len() > 0 && name[0] == '.') && !patterns.contains(name)
}

/// Whether a directory of this name is watched.
pub fn should_descend(name: &str, patterns: &Vec<String>) -> (r: bool)
    ensures
        r == descends(name@, texts(patterns@)),
{
    let cs = chars_of(name);
    !(cs.len() > 0 && cs[0] == '.') && !is_listed(name, patterns)
}

// ---------------------------------------------------------------------------
// Events
// ---------------------------------------------------------------------------

/// An event on one path. `is_dir` says whether a directory stands there now.
#[derive(Debug)]
pub struct WatchEvent {
    pub kind: EventKind,
    pub path: String,
    pub is_dir: bool,
}

/// What an event asks for.
#[derive(Debug)]
pub enum Noticed {
    Nothing,
    /// A new directory, which has to be watched too.
    WatchDir(String),
    Changed(FileChange),
}

/// Whether an event below `root` is taken notice of.
pub open spec fn noticed(root: Seq<char>, patterns: Seq<Seq<char>>, e: WatchEvent) -> bool {
    let rel = below(root, e.path@);
    event_change(e.kind) is Some && rel.len() > 0 && !ignored(rel, patterns)
}

/// Whether an event announces a directory to watch.
pub open spec fn announces_dir(root: Seq<char>, patterns: Seq<Seq<char>>, e: WatchEvent) -> bool {
    noticed(root, patterns, e) && e.kind == EventKind::Create && e.is_dir
}

/// Whether an event is a change to show.
pub open spec fn shows_change(root: Seq<char>, patterns: Seq<Seq<char>>, e: WatchEvent) -> bool {
    noticed(root, patterns, e) && !(e.kind == EventKind::Create && e.is_dir)
}

/// Decides what an event asks for. A new directory is not itself a change:
/// the files in it are.
pub fn notice(root: &str, patterns: &Vec<String>, e: &WatchEvent) -> (r: Noticed)
    ensures
        announces_dir(root@, texts(patterns@), *e) ==> r is WatchDir && r->WatchDir_0@ == e.path@,
        shows_change(root@, texts(patterns@), *e) ==> r is Changed && r->Changed_0.path@ == below(
            root@,
            e.path@,
        ) && r->Changed_0.kind == event_change(e.kind)->0,
        !noticed(root@, texts(patterns@), *e) ==> r is Nothing,
{
    let kind = match change_kind_for_event(e.kind) {
        Some(k) => k,
        None => {
            return Noticed::Nothing;
        },
    };
    let rel = relative_path(root, e.path.as_str());
    if rel.as_str().is_empty() || is_ignored(rel.as_str(), patterns) {
        return Noticed::Nothing;
    }
    if kind == ChangeKind::New && e.is_dir {
        return Noticed::WatchDir(e.path.clone());
    }
    Noticed::Changed(FileChange { path: rel, kind })
}

/// The changes among events, in order.
pub open spec fn changes_in(root: Seq<char>, patterns: Seq<Seq<char>>, events: Seq<WatchEvent>)
    -> Seq<(Seq<char>, ChangeKind)>
    decreases events.len(),
{
    if events.len() == 0 {
        Seq::empty()
    } else {
        let before = changes_in(root, patterns, events.drop_last());
        let e = events.last();
        if shows_change(root, patterns, e) {
            before.push((below(root, e.path@), event_change(e.kind)->0))
        } else {
            before
        }
    }
}

/// The directories that events announce, in order.
pub open spec fn dirs_in(root: Seq<char>, patterns: Seq<Seq<char>>, events: Seq<WatchEvent>) -> Seq<
    Seq<char>,
>
    decreases events.len(),
{
    if events.len() == 0 {
        Seq::empty()
    } else {
        let before = dirs_in(root, patterns, events.drop_last());
        let e = events.last();
        if announces_dir(root, patterns, e) {
            before.push(e.path@)
        } else {
            before
        }
    }
}

/// Takes the events that have come in: the changes to show, and the new
/// directories to watch.
pub fn drain(root: &str, patterns: &Vec<String>, events: &Vec<WatchEvent>) -> (r: (
    Vec<FileChange>,
    Vec<String>,
))
    ensures
        change_views(r.0@) == changes_in(root@, texts(patterns@), events@),
        texts(r.1@) == dirs_in(root@, texts(patterns@), events@),
{
    let mut changes: Vec<FileChange> = Vec::new();
    let mut dirs: Vec<String> = Vec::new();
    let ghost pats = texts(patterns@);
    let mut i: usize = 0;
    assert(change_views(changes@) =~= Seq::empty());
    assert(texts(dirs@) =~= Seq::empty());
    assert(events@.subrange(0, 0) =~= Seq::empty());
    while i < events.len()
        invariant
            i <= events.len(),
            pats == texts(patterns@),
            change_views(changes@) == changes_in(root@, pats, events@.subrange(0, i as int)),
            texts(dirs@) == dirs_in(root@, pats, events@.subrange(0, i as int)),
        decreases events.len() - i,
    {
        proof {
            assert(events@.subrange(0, i + 1).drop_last() =~= events@.subrange(0, i as int));
            assert(events@.subrange(0, i + 1).last() == events[i as int]);
        }
        let ghost old_changes = changes@;
        let ghost old_dirs = dirs@;
        match notice(root, patterns, &events[i]) {
            Noticed::Nothing => {},
            Noticed::WatchDir(d) => {
                dirs.push(d);
                assert(texts(dirs@) =~= texts(old_dirs).push(d@));
            },
            Noticed::Changed(c) => {
                changes.push(c);
                assert(change_views(changes@) =~= change_views(old_changes).push((c.path@, c.kind)));
            },
        }
        i += 1;
    }
    assert(events@.subrange(0, i as int) =~= events@);
    (changes, dirs)
}

// ---------------------------------------------------------------------------
// The walk over the directories to watch
// ---------------------------------------------------------------------------

/// An entry of a directory. A link to a directory is not one.
#[derive(Debug)]
pub struct SubEntry {
    pub name: String,
    pub is_dir: bool,
}

/// The next thing to do in a walk.
#[derive(Debug)]
pub enum WalkStep {
    /// Watch this directory, then say how it went.
    Watch(String),
    /// The walk is over; `truncated` says that directories were left out.
    Done { truncated: bool },
}

/// A walk that watches directories level by level, up to the limit.
#[derive(Debug)]
pub struct WatchWalk {
    pub queue: Vec<String>,
    /// How many directories are watched, by this walk and before it.
    pub watched: usize,
}

/// The directories below `dir` to watch.
pub open spec fn subdirs(dir: Seq<char>, entries: Seq<SubEntry>, patterns: Seq<Seq<char>>) -> Seq<
    Seq<char>,
>
    decreases entries.len(),
{
    if entries.len() == 0 {
        Seq::empty()
    } else {
        let before = subdirs(dir, entries.drop_last(), patterns);
        let e = entries.last();
        if e.is_dir && descends(e.name@, patterns) {
            before.push(joined(dir, e.name@))
        } else {
            before
        }
    }
}

impl WatchWalk {
    /// A walk from `root` when `watched` directories are watched already.
    pub fn new(root: &str, watched: usize) -> (r: Self)
        ensures
            texts(r.queue@) == seq![root@],
            r.watched == watched,
    {
        let mut queue: Vec<String> = Vec::new();
        queue.push(root.to_owned());
        assert(texts(queue@) =~= seq![root@]);
        WatchWalk { queue, watched }
    }

    /// The next thing to do: the directory that has waited longest, unless
    /// the limit is reached.
    pub fn next(&mut self) -> (r: WalkStep)
        ensures
            final(self).watched == old(self).watched,
            old(self).queue.len() == 0 ==> {
                &&& r == (WalkStep::Done { truncated: false })
                &&& texts(final(self).queue@) == texts(old(self).queue@)
            },
            old(self).queue.len() > 0 ==> {
                &&& texts(final(self).queue@) == texts(old(self).queue@).drop_first()
                &&& old(self).watched >= MAX_WATCHED_DIRS ==> r == (WalkStep::Done {
                    truncated: true,
                })
                &&& old(self).watched < MAX_WATCHED_DIRS ==> r is Watch && r->Watch_0@ == texts(
                    old(self).queue@,
                )[0]
            },
    {
        if self.queue.len() == 0 {
            return WalkStep::Done { truncated: false };
        }
        let dir = self.queue.remove(0);
        assert(texts(self.queue@) =~= texts(old(self).queue@).drop_first());
        if self.watched >= MAX_WATCHED_DIRS {
            return WalkStep::Done { truncated: true };
        }
        WalkStep::Watch(dir)
    }

    /// The directory `dir` is now watched and holds `entries`: those of its
    /// subdirectories that are watched wait behind the others.
    pub fn entered(&mut self, dir: &str, entries: &Vec<SubEntry>, patterns: &Vec<String>)
        requires
            old(self).watched < MAX_WATCHED_DIRS,
        ensures
            final(self).watched == old(self).watched + 1,
            final(self).watched <= MAX_WATCHED_DIRS,
            texts(final(self).queue@) == texts(old(self).queue@) + subdirs(
                dir@,
                entries@,
                texts(patterns@),
            ),
    {
        self.watched = self.watched + 1;
        let ghost pats = texts(patterns@);
        let ghost waiting = texts(self.queue@);
        let mut i: usize = 0;
        assert(entries@.subrange(0, 0) =~= Seq::empty());
        assert(waiting + Seq::<Seq<char>>::empty() =~= waiting);
        while i < entries.len()
            invariant
                i <= entries.len(),
                pats == texts(patterns@),
                self.watched == old(self).watched + 1,
                texts(self.queue@) == waiting + subdirs(
                    dir@,
                    entries@.subrange(0, i as int),
                    pats,
                ),
            decreases entries.len() - i,
        {
            proof {
                assert(entries@.subrange(0, i + 1).drop_last() =~= entries@.subrange(0, i as int));
                assert(entries@.subrange(0, i + 1).last() == entries[i as int]);
            }
            if entries[i].is_dir && should_descend(entries[i].name.as_str(), patterns) {
                let ghost before = self.queue@;
                let sub = join(dir, entries[i].name.as_str());
                self.queue.push(sub);
                proof {
                    assert(texts(self.queue@) =~= texts(before).push(sub@));
                    let found = subdirs(dir@, entries@.subrange(0, i as int), pats);
                    assert((waiting + found).push(sub@) =~= waiting + found.push(sub@));
                }
            }
            i += 1;
        }
        assert(entries@.subrange(0, i as int) =~= entries@);
    }
}

// ---------------------------------------------------------------------------
// Laws
// ---------------------------------------------------------------------------

/// A deletion hides what was before it, and a file that comes back after one
/// counts as modified.
pub proof fn law_merge_after_delete(prev: Option<ChangeKind>, next: ChangeKind)
    ensures
        merged(prev, ChangeKind::Deleted) == ChangeKind::Deleted,
        next != ChangeKind::Deleted ==> merged(Some(merged(prev, ChangeKind::Deleted)), next)
            == ChangeKind::Modified,
{
}

} // verus!
