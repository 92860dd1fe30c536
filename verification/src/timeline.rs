//! The timeline of changes: which file changed when, and by which tool.

use crate::path::{file_name, file_name_of, path_eq, same_path};
use crate::text::{
    ascii_lower, chars_of, contains, contains_text, decimal, decimal_text, find_last, has_prefix, last_at, opt_text, same_text,
    starts_with, string_between, string_of, to_ascii_lower,
};
use crate::watcher::{merge_kind, merged, ChangeKind};
use vstd::prelude::*;
use vstd::string::*;

verus! {

/// The most entries that are kept.
pub const MAX_ENTRIES: usize = 200;

/// Changes of one file less than this many nanoseconds apart make one entry.
pub const MERGE_WINDOW: u64 = 3_000_000_000;

/// How many of the newest entries a change can be merged into.
pub const MERGE_DEPTH: usize = 8;

/// One change. `at` is a point in time in nanoseconds. `risk` says why a
/// person should look at the change.
#[derive(Debug)]
pub struct TimelineEntry {
    pub kind: ChangeKind,
    pub path: String,
    pub tool: Option<String>,
    pub at: u64,
    pub risk: Option<&'static str>,
}

/// The contents of an entry.
pub ghost struct Entry {
    pub kind: ChangeKind,
    pub path: Seq<char>,
    pub tool: Option<Seq<char>>,
    pub at: u64,
    pub risk: Option<Seq<char>>,
}

impl View for TimelineEntry {
    type V = Entry;

    open spec fn view(&self) -> Entry {
        Entry {
            kind: self.kind,
            path: self.path@,
            tool: opt_text(self.tool),
            at: self.at,
            risk: label_view(self.risk),
        }
    }
}

/// The contents of entries.
pub open spec fn entry_views(v: Seq<TimelineEntry>) -> Seq<Entry> {
    Seq::new(v.len(), |i: int| v[i]@)
}

/// What changed in a session: how many files, and those to look at.
#[derive(Debug)]
pub struct SessionFileSummary {
    pub changed_files: usize,
    pub risks: Vec<(String, &'static str)>,
}

// ---------------------------------------------------------------------------
// Risks
// ---------------------------------------------------------------------------

/// The names of files that say what a project depends on.
pub open spec fn names_dependencies(n: Seq<char>) -> bool {
    ||| n == "cargo.toml"@
    ||| n == "cargo.lock"@
    ||| n == "package.json"@
    ||| n == "package-lock.json"@
    ||| n == "pnpm-lock.yaml"@
    ||| n == "yarn.lock"@
    ||| n == "requirements.txt"@
    ||| n == "pyproject.toml"@
    ||| n == "poetry.lock"@
    ||| n == "uv.lock"@
    ||| n == "go.mod"@
    ||| n == "go.sum"@
    ||| n == "gemfile"@
    ||| n == "gemfile.lock"@
    ||| n == "composer.json"@
    ||| n == "composer.lock"@
}

fn is_dependency_file(n: &str) -> (r: bool)
    ensures
        r == names_dependencies(n@),
{
    same_text(n, "cargo.toml") || same_text(n, "cargo.lock") || same_text(n, "package.json")
        || same_text(n, "package-lock.json") || same_text(n, "pnpm-lock.yaml") || same_text(
        n,
        "yarn.lock",
    ) || same_text(n, "requirements.txt") || same_text(n, "pyproject.toml") || same_text(
        n,
        "poetry.lock",
    ) || same_text(n, "uv.lock") || same_text(n, "go.mod") || same_text(n, "go.sum") || same_text(
        n,
        "gemfile",
    ) || same_text(n, "gemfile.lock") || same_text(n, "composer.json") || same_text(
        n,
        "composer.lock",
    )
}

/// A text with every backslash turned into a slash.
pub open spec fn with_slashes(s: Seq<char>) -> Seq<char> {
    s.map_values(
        |c: char|
            if c == '\\' {
                '/'
            } else {
                c
            },
    )
}

fn turn_slashes(s: &str) -> (r: String)
    ensures
        r@ == with_slashes(s@),
{
    let cs = chars_of(s);
    let mut out: Vec<char> = Vec::new();
    let mut i: usize = 0;
    while i < cs.len()
        invariant
            i <= cs.len(),
            cs@ == s@,
            out@ == with_slashes(s@.subrange(0, i as int)),
        decreases cs.len() - i,
    {
        let c = if cs[i] == '\\' {
            '/'
        } else {
            cs[i]
        };
        out.push(c);
        assert(out@ =~= with_slashes(s@.subrange(0, i + 1)));
        i += 1;
    }
    assert(s@.subrange(0, i as int) =~= s@);
    string_of(&out)
}

/// Whether a file runs on its own: automation and containers.
pub open spec fn is_automation(path: Seq<char>, n: Seq<char>) -> bool {
    contains_text(with_slashes(path), ".github/workflows/"@) || n == ".gitlab-ci.yml"@ || n
        == "dockerfile"@ || has_prefix(n, "docker-compose"@)
}

/// What follows the last dot of a name; nothing where there is none.
pub open spec fn after_last_dot(n: Seq<char>) -> Seq<char> {
    if last_at(n, '.') < 0 {
        Seq::empty()
    } else {
        n.subrange(last_at(n, '.') + 1, n.len() as int)
    }
}

/// Whether a file holds settings, by its ending or, for `json`, by its name.
pub open spec fn is_config_file(n: Seq<char>) -> bool {
    let ext = after_last_dot(n);
    ||| ext == "toml"@
    ||| ext == "ini"@
    ||| ext == "conf"@
    ||| ext == "cfg"@
    ||| ext == "yaml"@
    ||| ext == "yml"@
    ||| (ext == "json"@ && (contains_text(n, "config"@) || contains_text(n, "settings"@)))
}

/// The name of a path in small letters; nothing where it has none.
pub open spec fn plain_name(path: Seq<char>) -> Seq<char> {
    match file_name(path) {
        Some(n) => ascii_lower(n),
        None => ascii_lower(Seq::empty()),
    }
}

/// Why a person should look at a change: a deletion, a secret, a dependency,
/// automation, or settings, in this order; `None` for any other.
pub open spec fn risk_of(path: Seq<char>, kind: ChangeKind) -> Option<Seq<char>> {
    let n = plain_name(path);
    if kind == ChangeKind::Deleted {
        Some("削除"@)
    } else if n == ".env"@ || has_prefix(n, ".env."@) {
        Some("秘密"@)
    } else if names_dependencies(n) {
        Some("依存"@)
    } else if is_automation(path, n) {
        Some("CI"@)
    } else if is_config_file(n) {
        Some("設定"@)
    } else {
        None
    }
}

/// The contents of an optional label.
pub open spec fn label_view(o: Option<&'static str>) -> Option<Seq<char>> {
    match o {
        Some(s) => Some(s@),
        None => None,
    }
}

/// Why a person should look at a change.
pub fn risk_label(path: &str, kind: ChangeKind) -> (r: Option<&'static str>)
    ensures
        label_view(r) == risk_of(path@, kind),
{
    if kind == ChangeKind::Deleted {
        return Some("削除");
    }
    let name = match file_name_of(path) {
        Some(n) => n,
        None => String::new(),
    };
    let low = to_ascii_lower(name.as_str());
    let n = low.as_str();
    assert(n@ == plain_name(path@));
    if same_text(n, ".env") || starts_with(n, ".env.") {
        return Some("秘密");
    }
    if is_dependency_file(n) {
        return Some("依存");
    }
    let turned = turn_slashes(path);
    if contains(turned.as_str(), ".github/workflows/") || same_text(n, ".gitlab-ci.yml")
        || same_text(n, "dockerfile") || starts_with(n, "docker-compose") {
        return Some("CI");
    }
    let cs = chars_of(n);
    let ext = match find_last(&cs, '.') {
        Some(k) => string_between(&cs, k + 1, cs.len()),
        None => String::new(),
    };
    assert(ext@ =~= after_last_dot(n@));
    let e = ext.as_str();
    let config_ext = same_text(e, "toml") || same_text(e, "ini") || same_text(e, "conf")
        || same_text(e, "cfg") || same_text(e, "yaml") || same_text(e, "yml");
    if config_ext || (same_text(e, "json") && (contains(n, "config") || contains(n, "settings"))) {
        return Some("設定");
    }
    None
}

// ---------------------------------------------------------------------------
// The timeline
// ---------------------------------------------------------------------------

/// The changes, the newest first, and when the current session began.
#[derive(Debug)]
pub struct Timeline {
    pub entries: Vec<TimelineEntry>,
    pub session_start: Option<u64>,
}

/// Whether a change of `path` at `now` belongs to the entry `e`.
pub open spec fn joins(e: Entry, path: Seq<char>, now: u64) -> bool {
    path_eq(e.path, path) && now - e.at < MERGE_WINDOW
}

/// The newest entry from `from` on, among the first few, that a change belongs
/// to; the number of entries looked at where there is none.
pub open spec fn join_index(list: Seq<Entry>, path: Seq<char>, now: u64, from: int) -> int
    decreases list.len() - from,
{
    if from >= list.len() || from >= MERGE_DEPTH || joins(list[from], path, now) {
        from
    } else {
        join_index(list, path, now, from + 1)
    }
}

/// An entry after another change of its file.
pub open spec fn joined_entry(e: Entry, kind: ChangeKind, tool: Option<Seq<char>>, now: u64) -> Entry {
    Entry {
        kind: merged(Some(e.kind), kind),
        path: e.path,
        tool: if tool is Some {
            tool
        } else {
            e.tool
        },
        at: now,
        risk: risk_of(e.path, merged(Some(e.kind), kind)),
    }
}

/// The entries after a change: it joins the entry it belongs to, or comes
/// first, and the oldest entries beyond the limit are gone.
pub open spec fn pushed(
    list: Seq<Entry>,
    kind: ChangeKind,
    path: Seq<char>,
    tool: Option<Seq<char>>,
    now: u64,
) -> Seq<Entry> {
    let k = join_index(list, path, now, 0);
    if k < list.len() && k < MERGE_DEPTH {
        list.update(k, joined_entry(list[k], kind, tool, now))
    } else {
        let all = list.insert(0, Entry { kind, path, tool, at: now, risk: risk_of(path, kind) });
        if all.len() <= MAX_ENTRIES {
            all
        } else {
            all.subrange(0, MAX_ENTRIES as int)
        }
    }
}

/// How many entries a person should look at.
pub open spec fn flagged(list: Seq<Entry>) -> nat
    decreases list.len(),
{
    if list.len() == 0 {
        0
    } else {
        flagged(list.drop_last()) + (if list.last().risk is Some {
            1nat
        } else {
            0nat
        })
    }
}

impl Default for Timeline {
    fn default() -> (r: Self)
        ensures
            entry_views(r.entries@) == Seq::<Entry>::empty(),
            r.session_start is None,
    {
        let entries: Vec<TimelineEntry> = Vec::new();
        assert(entry_views(entries@) =~= Seq::empty());
        Timeline { entries, session_start: None }
    }
}

impl Timeline {
    /// Notes a change of `path` at `now`.
    pub fn push_at(&mut self, kind: ChangeKind, path: String, tool: Option<String>, now: u64)
        ensures
            entry_views(final(self).entries@) == pushed(
                entry_views(old(self).entries@),
                kind,
                path@,
                opt_text(tool),
                now,
            ),
            final(self).session_start == old(self).session_start,
            old(self).entries.len() <= MAX_ENTRIES ==> final(self).entries.len() <= MAX_ENTRIES,
    {
        let ghost list = entry_views(self.entries@);
        let ghost tv = opt_text(tool);
        let mut k: usize = 0;
        while k < self.entries.len() && k < MERGE_DEPTH
            invariant
                k <= self.entries.len(),
                k <= MERGE_DEPTH,
                *self == *old(self),
                tv == opt_text(tool),
                list == entry_views(self.entries@),
                join_index(list, path@, now, 0) == join_index(list, path@, now, k as int),
            decreases self.entries.len() - k,
        {
            assert(list[k as int] == self.entries[k as int]@);
            let at = self.entries[k].at;
            let near = now < at || now - at < MERGE_WINDOW;
            if near && same_path(self.entries[k].path.as_str(), path.as_str()) {
                let ghost before = self.entries@;
                let new_kind = merge_kind(Some(self.entries[k].kind), kind);
                let risk = risk_label(self.entries[k].path.as_str(), new_kind);
                let kept = match tool {
                    Some(t) => Some(t),
                    None => match &self.entries[k].tool {
                        Some(t) => Some(t.clone()),
                        None => None,
                    },
                };
                let entry = TimelineEntry {
                    kind: new_kind,
                    path: self.entries[k].path.clone(),
                    tool: kept,
                    at: now,
                    risk,
                };
                self.entries[k] = entry;
                proof {
                    assert(entry@ == joined_entry(list[k as int], kind, tv, now));
                    assert(entry_views(self.entries@) =~= list.update(k as int, entry@));
                }
                return;
            }
            k += 1;
        }
        let risk = risk_label(path.as_str(), kind);
        let entry = TimelineEntry { kind, path, tool, at: now, risk };
        self.entries.insert(0, entry);
        let ghost all = entry_views(self.entries@);
        assert(all =~= list.insert(0, entry@));
        self.entries.truncate(MAX_ENTRIES);
        assert(entry_views(self.entries@) =~= (if all.len() <= MAX_ENTRIES {
            all
        } else {
            all.subrange(0, MAX_ENTRIES as int)
        }));
    }

    pub fn entries(&self) -> (r: &Vec<TimelineEntry>)
        ensures
            *r == self.entries,
    {
        &self.entries
    }

    pub fn len(&self) -> (r: usize)
        ensures
            r == self.entries@.len(),
    {
        self.entries.len()
    }

    pub fn is_empty(&self) -> (r: bool)
        ensures
            r == (self.entries@.len() == 0),
    {
        self.entries.len() == 0
    }

    /// Notes that a session began at `now`.
    pub fn mark_session_start(&mut self, now: u64)
        ensures
            final(self).session_start == Some(now),
            final(self).entries == old(self).entries,
    {
        self.session_start = Some(now);
    }

    pub fn session_start(&self) -> (r: Option<u64>)
        ensures
            r == self.session_start,
    {
        self.session_start
    }

    /// How many entries a person should look at.
    pub fn risk_count(&self) -> (r: usize)
        ensures
            r == flagged(entry_views(self.entries@)),
    {
        let ghost list = entry_views(self.entries@);
        let mut n: usize = 0;
        let mut i: usize = 0;
        assert(list.subrange(0, 0) =~= Seq::empty());
        while i < self.entries.len()
            invariant
                i <= self.entries.len(),
                list == entry_views(self.entries@),
                n == flagged(list.subrange(0, i as int)),
                n <= i,
            decreases self.entries.len() - i,
        {
            proof {
                assert(list.subrange(0, i + 1).drop_last() =~= list.subrange(0, i as int));
                assert(list.subrange(0, i + 1).last() == self.entries[i as int]@);
            }
            if self.entries[i].risk.is_some() {
                n += 1;
            }
            i += 1;
        }
        assert(list.subrange(0, i as int) =~= list);
        n
    }

    pub fn clear(&mut self)
        ensures
            final(self).entries@.len() == 0,
            final(self).session_start is None,
    {
        self.entries.clear();
        self.session_start = None;
    }
}

/// A short text for how long ago something was.
pub open spec fn age_text(secs: nat) -> Seq<char> {
    if secs < 10 {
        "いま"@
    } else if secs < 60 {
        decimal(secs) + "秒"@
    } else if secs < 3600 {
        decimal(secs / 60) + "分"@
    } else if secs < 86400 {
        decimal(secs / 3600) + "時間"@
    } else {
        decimal(secs / 86400) + "日"@
    }
}

/// A short text for how many seconds ago something was.
pub fn format_age(secs: u64) -> (r: String)
    ensures
        r@ == age_text(secs as nat),
{
    if secs < 10 {
        return "いま".to_owned();
    }
    let (n, unit) = if secs < 60 {
        (secs, "秒")
    } else if secs < 3600 {
        (secs / 60, "分")
    } else if secs < 86400 {
        (secs / 3600, "時間")
    } else {
        (secs / 86400, "日")
    };
    let mut out = decimal_text(n);
    out.append(unit);
    out
}

// ---------------------------------------------------------------------------
// Laws
// ---------------------------------------------------------------------------

/// A change that belongs to no entry comes first, and no entry but the oldest
/// gives way to it.
pub proof fn law_newest_first(
    list: Seq<Entry>,
    kind: ChangeKind,
    path: Seq<char>,
    tool: Option<Seq<char>>,
    now: u64,
)
    requires
        list.len() <= MAX_ENTRIES,
        forall|i: int| 0 <= i < list.len() && i < MERGE_DEPTH ==> !joins(#[trigger] list[i], path, now),
    ensures
        ({
            let p = pushed(list, kind, path, tool, now);
            &&& p[0] == (Entry { kind, path, tool, at: now, risk: risk_of(path, kind) })
            &&& p.len() == if list.len() < MAX_ENTRIES {
                list.len() + 1
            } else {
                MAX_ENTRIES as nat
            }
            &&& forall|i: int| 1 <= i < p.len() ==> p[i] == list[i - 1]
        }),
{
    lemma_no_join(list, path, now, 0);
}

proof fn lemma_no_join(list: Seq<Entry>, path: Seq<char>, now: u64, from: int)
    requires
        0 <= from,
        from <= list.len(),
        from <= MERGE_DEPTH,
        forall|i: int| 0 <= i < list.len() && i < MERGE_DEPTH ==> !joins(#[trigger] list[i], path, now),
    ensures
        join_index(list, path, now, from) >= list.len() || join_index(list, path, now, from)
            >= MERGE_DEPTH,
    decreases list.len() - from,
{
    if from < list.len() && from < MERGE_DEPTH {
        assert(!joins(list[from], path, now));
        lemma_no_join(list, path, now, from + 1);
    }
}

/// Two changes of the newest file within the merge window make one entry.
pub proof fn law_merges_repeated_change(
    list: Seq<Entry>,
    kind: ChangeKind,
    path: Seq<char>,
    tool: Option<Seq<char>>,
    now: u64,
)
    requires
        list.len() > 0,
        joins(list[0], path, now),
    ensures
        pushed(list, kind, path, tool, now).len() == list.len(),
        pushed(list, kind, path, tool, now)[0] == joined_entry(list[0], kind, tool, now),
{
}

} // verus!
