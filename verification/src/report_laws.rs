//! What is made of the reports of shells, tools, watchers and repositories.

use crate::display::score;
use crate::font::{FontSet, FontStyle};
use crate::gt::{all_fields, kind_named, message_in, value_bytes, value_text, with_field, Message};
use crate::osc::{
    address_parts, intro_of, pane_place, place_of, report_of, reported, unescaped, Place,
    ReportKind, Said,
};
use crate::path::path_eq;
use crate::preview::{diff_lines, may_read, tail_of};
use crate::session_review::{review_text, risk_lines};
use crate::text::{
    decimal, has_prefix, join_with, lemma_next_at_is, lemma_pieces_join, u32_value, words,
};
use crate::timeline::{
    age_text, flagged, joined_entry, joins, names_dependencies, plain_name, risk_of, Entry,
};
use crate::vt::{inherited, names_terminal, reply_text};
use crate::watcher::{
    below, changes_in, dirs_in, event_change, ignored, merged, subdirs, ChangeKind, EventKind,
    SubEntry, WatchEvent,
};
use crate::workspace::{summary_of, with_line, DiffStat, Summary};
use vstd::prelude::*;
use vstd::string::*;
use vstd::utf8::*;

verus! {

// ---------------------------------------------------------------------------
// Repositories
// ---------------------------------------------------------------------------

/// A line that begins with a question mark is a file that is not tracked.
pub proof fn law_untracked_files_count(s: Summary, rest: Seq<char>)
    ensures
        with_line(s, "? "@ + rest) == (Summary { untracked: s.untracked + 1, ..s }),
{
    reveal_strlit("? ");
    reveal_strlit("# branch.head ");
    let line = "? "@ + rest;
    assert(line.subrange(0, 2) =~= "? "@);
    if has_prefix(line, "# branch.head "@) {
        assert(line.subrange(0, "# branch.head "@.len() as int)[0] == "# branch.head "@[0]);
    }
}

/// The line about the branch names it, and says nothing of files.
pub proof fn law_branch_is_named(s: Summary, name: Seq<char>)
    ensures
        with_line(s, "# branch.head "@ + name) == (Summary { branch: name, ..s }),
{
    let line = "# branch.head "@ + name;
    let n = "# branch.head "@.len() as int;
    assert(line.subrange(0, n) =~= "# branch.head "@);
    assert(line.subrange(n, line.len() as int) =~= name);
}

/// A tracked file has two letters: the first is its state in the index, the
/// second its state in the working tree, and a dot is no change. A file that is
/// gone from the working tree is counted as deleted too.
pub proof fn law_tracked_files_count(s: Summary, line: Seq<char>, x: char, y: char)
    requires
        has_prefix(line, "1 "@) || has_prefix(line, "2 "@),
        words(line).len() > 1,
        words(line)[1] == seq![x, y],
    ensures
        ({
            let t = with_line(s, line);
            &&& t.staged == s.staged + (if x == '.' {
                0int
            } else {
                1
            })
            &&& t.modified == s.modified + (if y == '.' {
                0int
            } else {
                1
            })
            &&& t.deleted == s.deleted + (if y == 'D' {
                1int
            } else {
                0
            })
            &&& t.untracked == s.untracked && t.branch == s.branch
        }),
{
    reveal_strlit("1 ");
    reveal_strlit("2 ");
    reveal_strlit("? ");
    reveal_strlit("# branch.head ");
    if has_prefix(line, "1 "@) {
        assert(line.subrange(0, 2)[0] == "1 "@[0]);
    } else {
        assert(line.subrange(0, 2)[0] == "2 "@[0]);
    }
    if has_prefix(line, "# branch.head "@) {
        assert(line.subrange(0, "# branch.head "@.len() as int)[0] == "# branch.head "@[0]);
    }
    if has_prefix(line, "? "@) {
        assert(line.subrange(0, 2)[0] == "? "@[0]);
    }
}

/// The lines of a report count one after the other, and nothing counts before
/// the first.
pub proof fn law_report_lines_add_up(lines: Seq<Seq<char>>, line: Seq<char>)
    ensures
        summary_of(lines.push(line)) == with_line(summary_of(lines), line),
        summary_of(Seq::empty()).staged == 0,
        summary_of(Seq::empty()).modified == 0,
        summary_of(Seq::empty()).untracked == 0,
        summary_of(Seq::empty()).deleted == 0,
{
    assert(lines.push(line).drop_last() =~= lines);
}

// ---------------------------------------------------------------------------
// Watching
// ---------------------------------------------------------------------------

/// What happens to a file is the change of that name.
pub proof fn law_events_are_changes()
    ensures
        event_change(EventKind::Create) == Some(ChangeKind::New),
        event_change(EventKind::Modify) == Some(ChangeKind::Modified),
        event_change(EventKind::Remove) == Some(ChangeKind::Deleted),
        event_change(EventKind::Other) is None,
{
}

/// Two changes of a file are told as one: what became of it since before the
/// first. A file that was not there is new while it is there; one that was and
/// is there was changed; one that is not there is gone.
pub proof fn law_changes_merge(prev: ChangeKind, next: ChangeKind)
    ensures
        merged(None, next) == next,
        merged(Some(prev), next) == ChangeKind::Deleted <==> next == ChangeKind::Deleted,
        prev == ChangeKind::New && next == ChangeKind::Modified ==> merged(Some(prev), next)
            == ChangeKind::New,
        prev == ChangeKind::Modified && next == ChangeKind::Modified ==> merged(Some(prev), next)
            == ChangeKind::Modified,
        prev == ChangeKind::Deleted && next == ChangeKind::New ==> merged(Some(prev), next)
            == ChangeKind::Modified,
{
}

/// An event of a file below the root that is not ignored is one change more,
/// told by the path from the root. A new directory is watched instead. What is
/// ignored is neither.
pub proof fn law_events_are_noticed(
    root: Seq<char>,
    patterns: Seq<Seq<char>>,
    events: Seq<WatchEvent>,
    e: WatchEvent,
)
    ensures
        ({
            let rel = below(root, e.path@);
            let counts = event_change(e.kind) is Some && rel.len() > 0 && !ignored(rel, patterns);
            let dir = e.kind == EventKind::Create && e.is_dir;
            &&& counts && !dir ==> changes_in(root, patterns, events.push(e)) == changes_in(
                root,
                patterns,
                events,
            ).push((rel, event_change(e.kind)->0)) && dirs_in(root, patterns, events.push(e))
                == dirs_in(root, patterns, events)
            &&& counts && dir ==> dirs_in(root, patterns, events.push(e)) == dirs_in(
                root,
                patterns,
                events,
            ).push(e.path@) && changes_in(root, patterns, events.push(e)) == changes_in(
                root,
                patterns,
                events,
            )
            &&& !counts ==> changes_in(root, patterns, events.push(e)) == changes_in(
                root,
                patterns,
                events,
            ) && dirs_in(root, patterns, events.push(e)) == dirs_in(root, patterns, events)
        }),
{
    assert(events.push(e).drop_last() =~= events);
}

/// Directories that are hidden or ignored are not watched.
pub proof fn law_ignored_directories_are_not_watched(
    dir: Seq<char>,
    entries: Seq<SubEntry>,
    patterns: Seq<Seq<char>>,
    e: SubEntry,
)
    ensures
        patterns.contains(e.name@) ==> subdirs(dir, entries.push(e), patterns) == subdirs(
            dir,
            entries,
            patterns,
        ),
        e.name@.len() > 0 && e.name@[0] == '.' ==> subdirs(dir, entries.push(e), patterns)
            == subdirs(dir, entries, patterns),
        !e.is_dir ==> subdirs(dir, entries.push(e), patterns) == subdirs(dir, entries, patterns),
        e.is_dir && !patterns.contains(e.name@) && !(e.name@.len() > 0 && e.name@[0] == '.')
            ==> subdirs(dir, entries.push(e), patterns) == subdirs(dir, entries, patterns).push(
            crate::path::joined(dir, e.name@),
        ),
{
    assert(entries.push(e).drop_last() =~= entries);
}

// ---------------------------------------------------------------------------
// Messages
// ---------------------------------------------------------------------------

/// A field of a message.
pub open spec fn field(key: Seq<char>, value: Seq<char>) -> Seq<char> {
    key.push('=') + value
}

/// Whether a text holds no semicolon.
pub open spec fn no_semicolon(s: Seq<char>) -> bool {
    forall|i: int| 0 <= i < s.len() ==> #[trigger] s[i] != ';'
}

proof fn lemma_field(fields: Seq<Seq<char>>, key: Seq<char>, value: Seq<char>)
    requires
        forall|i: int| 0 <= i < key.len() ==> #[trigger] key[i] != '=',
    ensures
        all_fields(fields.push(field(key, value))) == (match all_fields(fields) {
            Some(g) => with_field(g, key, value),
            None => None,
        }),
{
    let s = field(key, value);
    assert(fields.push(s).drop_last() =~= fields);
    assert forall|j: int| 0 <= j < key.len() implies s[j] != '=' by {
        assert(s[j] == key[j]);
    }
    lemma_next_at_is(s, '=', 0, key.len() as int);
    assert(s.subrange(0, key.len() as int) =~= key);
    assert(s.subrange(key.len() as int + 1, s.len() as int) =~= value);
}

proof fn reveal_keys()
    ensures
        "kind"@ == seq!['k', 'i', 'n', 'd'],
        "path"@ == seq!['p', 'a', 't', 'h'],
        "tool"@ == seq!['t', 'o', 'o', 'l'],
        "seq"@ == seq!['s', 'e', 'q'],
        "last"@ == seq!['l', 'a', 's', 't'],
        "data"@ == seq!['d', 'a', 't', 'a'],
        "event"@ == seq!['e', 'v', 'e', 'n', 't'],
        "file"@ == seq!['f', 'i', 'l', 'e'],
        "new"@ == seq!['n', 'e', 'w'],
        "mod"@ == seq!['m', 'o', 'd'],
        "del"@ == seq!['d', 'e', 'l'],
        "0"@ == seq!['0'],
        "1"@ == seq!['1'],
{
    reveal_strlit("kind");
    reveal_strlit("path");
    reveal_strlit("tool");
    reveal_strlit("seq");
    reveal_strlit("last");
    reveal_strlit("data");
    reveal_strlit("event");
    reveal_strlit("file");
    reveal_strlit("new");
    reveal_strlit("mod");
    reveal_strlit("del");
    reveal_strlit("0");
    reveal_strlit("1");
    assert("kind"@ =~= seq!['k', 'i', 'n', 'd']);
    assert("path"@ =~= seq!['p', 'a', 't', 'h']);
    assert("tool"@ =~= seq!['t', 'o', 'o', 'l']);
    assert("seq"@ =~= seq!['s', 'e', 'q']);
    assert("last"@ =~= seq!['l', 'a', 's', 't']);
    assert("data"@ =~= seq!['d', 'a', 't', 'a']);
    assert("event"@ =~= seq!['e', 'v', 'e', 'n', 't']);
    assert("file"@ =~= seq!['f', 'i', 'l', 'e']);
    assert("new"@ =~= seq!['n', 'e', 'w']);
    assert("mod"@ =~= seq!['m', 'o', 'd']);
    assert("del"@ =~= seq!['d', 'e', 'l']);
    assert("0"@ =~= seq!['0']);
    assert("1"@ =~= seq!['1']);
}

proof fn lemma_keys_differ()
    ensures
        "kind"@ != "path"@,
        "path"@ != "kind"@,
        "tool"@ != "kind"@ && "tool"@ != "path"@,
        "seq"@ != "kind"@ && "seq"@ != "path"@ && "seq"@ != "tool"@,
        "last"@ != "kind"@ && "last"@ != "path"@ && "last"@ != "tool"@ && "last"@ != "seq"@,
        "data"@ != "kind"@ && "data"@ != "path"@ && "data"@ != "tool"@ && "data"@ != "seq"@
            && "data"@ != "last"@,
        "file"@ != "event"@,
        "new"@ != "mod"@ && "new"@ != "del"@ && "mod"@ != "del"@,
        "0"@ != "1"@,
{
    reveal_keys();
    assert("kind"@[0] == 'k' && "path"@[0] == 'p' && "tool"@[0] == 't' && "last"@[0] == 'l'
        && "data"@[0] == 'd');
    assert("seq"@.len() == 3 && "kind"@.len() == 4);
    assert("file"@.len() == 4 && "event"@.len() == 5);
    assert("new"@[0] == 'n' && "mod"@[0] == 'm' && "del"@[0] == 'd');
    assert("0"@[0] == '0' && "1"@[0] == '1');
}

/// The word for a kind of change.
pub open spec fn kind_word(kind: ChangeKind) -> Seq<char> {
    if kind == ChangeKind::New {
        seq!['n', 'e', 'w']
    } else if kind == ChangeKind::Modified {
        seq!['m', 'o', 'd']
    } else {
        seq!['d', 'e', 'l']
    }
}

/// A message about a change is read as it was written: its kind, the file and
/// the tool.
pub proof fn law_event_is_read(kind: ChangeKind, p: Seq<char>, path: Seq<char>, t: Seq<char>, tool: Seq<
    char,
>)
    requires
        no_semicolon(p),
        no_semicolon(t),
        value_text(p) == Some(path),
        value_text(t) == Some(tool),
    ensures
        message_in(
            join_with(
                seq![
                    seq!['e', 'v', 'e', 'n', 't'],
                    field(seq!['k', 'i', 'n', 'd'], kind_word(kind)),
                    field(seq!['p', 'a', 't', 'h'], p),
                    field(seq!['t', 'o', 'o', 'l'], t),
                ],
                ';',
            ),
        ) == Some(Message::Event { kind, path, tool: Some(tool) }),
{
    reveal_keys();
    lemma_keys_differ();
    let f1 = field("kind"@, kind_word(kind));
    let f2 = field("path"@, p);
    let f3 = field("tool"@, t);
    let parts = seq!["event"@, f1, f2, f3];
    assert forall|i: int, j: int| 0 <= i < parts.len() && 0 <= j < parts[i].len() implies
        #[trigger] parts[i][j] != ';' by {
        if i == 2 && j > 4 {
            assert(f2[j] == p[j - 5]);
        } else if i == 3 && j > 4 {
            assert(f3[j] == t[j - 5]);
        }
    }
    lemma_pieces_join(parts, ';');
    let rest = parts.subrange(1, 4);
    let none = Seq::<Seq<char>>::empty();
    assert(rest =~= none.push(f1).push(f2).push(f3));
    lemma_field(none, "kind"@, kind_word(kind));
    lemma_field(none.push(f1), "path"@, p);
    lemma_field(none.push(f1).push(f2), "tool"@, t);
    assert(kind_named(kind_word(kind)) == Some(kind));
}

/// A piece of a file is read as it was written: the file, the number of the
/// piece, whether it is the last, and its bytes.
pub proof fn law_file_piece_is_read(
    p: Seq<char>,
    path: Seq<char>,
    n: Seq<char>,
    number: u32,
    last: bool,
    d: Seq<char>,
    data: Seq<u8>,
)
    requires
        no_semicolon(p),
        no_semicolon(n),
        no_semicolon(d),
        value_text(p) == Some(path),
        u32_value(n) == Some(number),
        value_bytes(d) == Some(data),
    ensures
        message_in(
            join_with(
                seq![
                    seq!['f', 'i', 'l', 'e'],
                    field(seq!['p', 'a', 't', 'h'], p),
                    field(seq!['s', 'e', 'q'], n),
                    field(
                        seq!['l', 'a', 's', 't'],
                        if last {
                            seq!['1']
                        } else {
                            seq!['0']
                        },
                    ),
                    field(seq!['d', 'a', 't', 'a'], d),
                ],
                ';',
            ),
        ) == Some(Message::FileChunk { path, seq: number, last, data }),
{
    reveal_keys();
    lemma_keys_differ();
    let l = if last {
        "1"@
    } else {
        "0"@
    };
    let f1 = field("path"@, p);
    let f2 = field("seq"@, n);
    let f3 = field("last"@, l);
    let f4 = field("data"@, d);
    let parts = seq!["file"@, f1, f2, f3, f4];
    assert forall|i: int, j: int| 0 <= i < parts.len() && 0 <= j < parts[i].len() implies
        #[trigger] parts[i][j] != ';' by {
        if i == 1 && j > 4 {
            assert(f1[j] == p[j - 5]);
        } else if i == 2 && j > 3 {
            assert(f2[j] == n[j - 4]);
        } else if i == 4 && j > 4 {
            assert(f4[j] == d[j - 5]);
        }
    }
    lemma_pieces_join(parts, ';');
    let rest = parts.subrange(1, 5);
    let none = Seq::<Seq<char>>::empty();
    assert(rest =~= none.push(f1).push(f2).push(f3).push(f4));
    lemma_field(none, "path"@, p);
    lemma_field(none.push(f1), "seq"@, n);
    lemma_field(none.push(f1).push(f2), "last"@, l);
    lemma_field(none.push(f1).push(f2).push(f3), "data"@, d);
}

// ---------------------------------------------------------------------------
// Places
// ---------------------------------------------------------------------------

/// A shell that names this machine, or none, is on it; any other is elsewhere.
/// Its path is the one it tells.
pub proof fn law_own_host_is_local(host: Seq<char>, path: Seq<char>, own: Seq<char>)
    ensures
        place_of(own, path, own) == Place::Local(path),
        place_of(Seq::empty(), path, own) == Place::Local(path),
        place_of("localhost"@, path, own) == Place::Local(path),
        host.len() > 0 && host != "localhost"@ && host != own ==> place_of(host, path, own) == (
        Place::Remote { host, path }),
{
}

/// An address is `file://`, a host without a slash, and a path from its slash
/// on.
pub proof fn law_address_is_read(host: Seq<char>, path: Seq<char>, bytes: Seq<u8>)
    requires
        forall|i: int| 0 <= i < host.len() ==> #[trigger] host[i] != '/',
        path.len() > 0,
        path[0] == '/',
        unescaped(encode_utf8(path), 0) == Some(bytes),
        valid_utf8(bytes),
    ensures
        address_parts("file://"@ + host + path) == Some((host, decode_utf8(bytes))),
{
    reveal_strlit("file://");
    let text = "file://"@ + host + path;
    assert(text.subrange(0, 7) =~= "file://"@);
    let rest = text.subrange(7, text.len() as int);
    assert(rest =~= host + path);
    assert forall|j: int| 0 <= j < host.len() implies rest[j] != '/' by {
        assert(rest[j] == host[j]);
    }
    lemma_next_at_is(rest, '/', 0, host.len() as int);
    assert(rest.subrange(0, host.len() as int) =~= host);
    assert(rest.subrange(host.len() as int, rest.len() as int) =~= path);
}

/// A report of a place tells the place, and a report of a message the message.
pub proof fn law_reports_say_their_kind(payload: Seq<u8>, own: Seq<char>)
    requires
        valid_utf8(payload),
    ensures
        report_of(ReportKind::Location, payload, own) is Some ==> report_of(
            ReportKind::Location,
            payload,
            own,
        )->0 is At,
        report_of(ReportKind::Message, payload, own) is Some ==> report_of(
            ReportKind::Message,
            payload,
            own,
        )->0 is Told,
        ({
            let a = address_parts(decode_utf8(payload));
            a is Some ==> report_of(ReportKind::Location, payload, own) == Some(
                Said::At(place_of((a->0).0, (a->0).1, own)),
            )
        }),
        ({
            let m = message_in(decode_utf8(payload));
            m is Some ==> report_of(ReportKind::Message, payload, own) == Some(Said::Told(m->0))
        }),
{
}

/// A report begins with escape, a bracket, the number seven for a place or 7717
/// for a message, and a semicolon, and ends with a bell.
pub proof fn law_report_numbers(payload: Seq<u8>)
    ensures
        reported(ReportKind::Location, payload) == seq![0x1bu8, 0x5d, 0x37, 0x3b] + payload + seq![
            0x07u8,
        ],
        reported(ReportKind::Message, payload) == seq![0x1bu8, 0x5d, 0x37, 0x37, 0x31, 0x37, 0x3b]
            + payload + seq![0x07u8],
{
    assert(seq![0x1bu8, 0x5d] + intro_of(ReportKind::Location) =~= seq![0x1bu8, 0x5d, 0x37, 0x3b]);
    assert(seq![0x1bu8, 0x5d] + intro_of(ReportKind::Message) =~= seq![
        0x1bu8,
        0x5d,
        0x37,
        0x37,
        0x31,
        0x37,
        0x3b,
    ]);
}

/// A pane is where its shell says, else in the directory of its program, else
/// in that of this one.
pub proof fn law_pane_is_where_its_shell_is(p: Place, cwd: Seq<char>, current: Seq<char>)
    ensures
        pane_place(Some(p), Some(cwd), Some(current)) == p,
        pane_place(None, Some(cwd), Some(current)) == Place::Local(cwd),
        pane_place(None, None, Some(current)) == Place::Local(current),
{
}

// ---------------------------------------------------------------------------
// What to look at
// ---------------------------------------------------------------------------

/// A deletion is always to be looked at; after that come secrets, what the
/// project depends on, automation and settings.
pub proof fn law_risks_are_told(path: Seq<char>, kind: ChangeKind)
    ensures
        risk_of(path, ChangeKind::Deleted) == Some("削除"@),
        kind != ChangeKind::Deleted && plain_name(path) == ".env"@ ==> risk_of(path, kind) == Some(
            "秘密"@,
        ),
        kind != ChangeKind::Deleted && names_dependencies(plain_name(path)) && plain_name(path)
            != ".env"@ && !has_prefix(plain_name(path), ".env."@) ==> risk_of(path, kind) == Some(
            "依存"@,
        ),
        risk_of(path, ChangeKind::New) == risk_of(path, ChangeKind::Modified),
{
}

/// An entry that is joined by another change of its file keeps the file, has
/// the time of the change, and the tool that made it, where one is known.
pub proof fn law_joined_entry(e: Entry, kind: ChangeKind, tool: Seq<char>, now: u64)
    ensures
        joined_entry(e, kind, Some(tool), now).path == e.path,
        joined_entry(e, kind, Some(tool), now).at == now,
        joined_entry(e, kind, Some(tool), now).tool == Some(tool),
        joined_entry(e, kind, None, now).tool == e.tool,
        joined_entry(e, kind, None, now).kind == merged(Some(e.kind), kind),
        joined_entry(e, kind, None, now).risk == risk_of(e.path, merged(Some(e.kind), kind)),
{
}

/// Changes of one file belong together for three seconds.
pub proof fn law_changes_belong_together(e: Entry, path: Seq<char>, now: u64)
    requires
        path_eq(e.path, path),
        now >= e.at,
    ensures
        joins(e, path, now) <==> now - e.at < 3_000_000_000,
{
}

/// How many are to be looked at is counted one by one.
pub proof fn law_flagged_counts(list: Seq<Entry>, e: Entry)
    ensures
        flagged(list.push(e)) == flagged(list) + (if e.risk is Some {
            1int
        } else {
            0
        }),
        flagged(list) <= list.len(),
    decreases list.len(),
{
    assert(list.push(e).drop_last() =~= list);
    if list.len() > 0 {
        law_flagged_counts(list.drop_last(), e);
    }
}

/// How long ago something was is told in the largest unit that fits once:
/// seconds, minutes, hours or days. A moment ago is now.
pub proof fn law_ages_are_told(n: nat, rest: nat)
    ensures
        n < 10 ==> age_text(n) == "いま"@,
        10 <= n < 60 ==> age_text(n) == decimal(n) + "秒"@,
        1 <= n < 60 && rest < 60 ==> age_text(60 * n + rest) == decimal(n) + "分"@,
        1 <= n < 24 && rest < 3600 ==> age_text(3600 * n + rest) == decimal(n) + "時間"@,
        1 <= n && rest < 86400 ==> age_text(86400 * n + rest) == decimal(n) + "日"@,
{
    if rest < 60 {
        assert((60 * n + rest) / 60 == n);
    }
    if rest < 3600 {
        assert((3600 * n + rest) / 3600 == n);
    }
    if rest < 86400 {
        assert((86400 * n + rest) / 86400 == n);
    }
}

/// The summary of a session counts the files that changed and the lines added
/// and removed, and lists the files to look at in their order, the first eight
/// of them.
pub proof fn law_session_is_summed_up(
    changed: nat,
    risks: Seq<(Seq<char>, Seq<char>)>,
    d: DiffStat,
    i: int,
)
    requires
        0 <= i < risks.len(),
        i < 8,
    ensures
        ({
            let t = review_text(changed, risks, Some(d));
            &&& t.len() > 6 + i
            &&& t[2].0 == "変更ファイル  "@ + decimal(changed) + "件"@
            &&& t[3].0 == "+"@ + decimal(d.added as nat) + " / -"@ + decimal(d.removed as nat)
                + " 行"@
            &&& t[5].0 == "要確認"@
            &&& t[6 + i].0 == " ▲"@ + risks[i].1 + "  "@ + risks[i].0
        }),
        risk_lines(Seq::empty()).len() == 0,
{
}

// ---------------------------------------------------------------------------
// Shells
// ---------------------------------------------------------------------------

/// A shell inherits every variable but those that name another terminal.
pub proof fn law_shell_inherits(vars: Seq<(Seq<char>, Seq<char>)>, i: int)
    requires
        0 <= i < vars.len(),
    ensures
        inherited(vars).contains(vars[i]) <==> !names_terminal(vars[i].0),
        names_terminal("TERM_PROGRAM"@),
{
    let keep = |p: (Seq<char>, Seq<char>)| !names_terminal(p.0);
    let left = inherited(vars);
    if keep(vars[i]) {
        vars.lemma_filter_contains(keep, i);
    } else if left.contains(vars[i]) {
        let k = choose|k: int| 0 <= k < left.len() && left[k] == vars[i];
        vars.lemma_filter_pred(keep, k);
    }
}

/// Only the answer about the kind of terminal is replaced, by one that tells of
/// images; every other goes out as it is.
pub proof fn law_answers_go_out(text: Seq<char>)
    ensures
        text != "\x1b[?6c"@ ==> reply_text(text) == text,
        reply_text("\x1b[?6c"@) == "\x1b[?62;4c"@,
{
}

/// Transparency counts most in the choice of a surface, and eight bits next.
pub proof fn law_transparency_counts_most(a: u8, b: u8)
    ensures
        score(true, a) > score(false, b),
        b != 8 ==> score(true, 8) > score(true, b) && score(false, 8) > score(false, b),
{
}

/// Each style has its own fonts.
pub proof fn law_styles_have_fonts<F>(set: FontSet<F>)
    ensures
        set.of(FontStyle::Regular) == set.regular@,
        set.of(FontStyle::Bold) == set.bold@,
        set.of(FontStyle::Faint) == set.faint@,
{
}

/// A difference is shown only where the command succeeded and printed
/// something. Files are read at least a tenth of a second apart.
pub proof fn law_differences_and_reads(stdout: Seq<u8>, last: u64, now: u64)
    ensures
        diff_lines(false, stdout) is None,
        diff_lines(true, Seq::empty()) is None,
        stdout.len() > 0 ==> diff_lines(true, stdout) is Some,
        0 < stdout.len() <= 524_288 && tail_of(stdout, usize::MAX as nat).len() <= 5000
            ==> diff_lines(true, stdout) == Some(tail_of(stdout, usize::MAX as nat)),
        may_read(Some(last), now) <==> now - last >= 100_000_000,
        may_read(None, now),
{
}

} // verus!
