//! What the keys of the launcher do.

use crate::entries::{law_ordered, name_le, not_hidden, ordered};
use crate::keys::KeyCode;
use crate::launcher::{
    arranged, entry_matches, file_found, found, keyed, listed, read_in, tab_command, visible,
    Launch, Mode, Outcome, Purpose, RawEntry, Step, MAX_READ,
};
use crate::path::{file_name, joined, parent};
use crate::rows::lesser;
use crate::text::{join_with, lowercase, occurs_at};
use vstd::prelude::*;
use vstd::seq_lib::group_to_multiset_ensures;
use vstd::string::*;

verus! {

/// A key that has no meaning of its own, only the text that it types.
pub open spec fn only_types(code: KeyCode) -> bool {
    !(code == KeyCode::Escape || code == KeyCode::Enter || code == KeyCode::ArrowDown || code
        == KeyCode::ArrowUp || code == KeyCode::ArrowRight || code == KeyCode::ArrowLeft || code
        == KeyCode::Backspace)
}

/// A key is the one given, or types the letter that stands for it.
pub open spec fn is_key(code: KeyCode, text: Option<Seq<char>>, key: KeyCode, letter: Seq<char>)
    -> bool {
    code == key || (only_types(code) && text == Some(letter))
}

proof fn reveal_letters()
    ensures
        "j"@ == seq!['j'],
        "k"@ == seq!['k'],
        "l"@ == seq!['l'],
        "h"@ == seq!['h'],
        "o"@ == seq!['o'],
        "/"@ == seq!['/'],
        "."@ == seq!['.'],
        "r"@ == seq!['r'],
        "m"@ == seq!['m'],
        "b"@ == seq!['b'],
        "d"@ == seq!['d'],
        ".."@ == seq!['.', '.'],
{
    reveal_strlit("j");
    reveal_strlit("k");
    reveal_strlit("l");
    reveal_strlit("h");
    reveal_strlit("o");
    reveal_strlit("/");
    reveal_strlit(".");
    reveal_strlit("r");
    reveal_strlit("m");
    reveal_strlit("b");
    reveal_strlit("d");
    reveal_strlit("..");
    assert("j"@ =~= seq!['j']);
    assert("k"@ =~= seq!['k']);
    assert("l"@ =~= seq!['l']);
    assert("h"@ =~= seq!['h']);
    assert("o"@ =~= seq!['o']);
    assert("/"@ =~= seq!['/']);
    assert("."@ =~= seq!['.']);
    assert("r"@ =~= seq!['r']);
    assert("m"@ =~= seq!['m']);
    assert("b"@ =~= seq!['b']);
    assert("d"@ =~= seq!['d']);
    assert(".."@ =~= seq!['.', '.']);
}

/// The letter that a key types is told from the others by its only character.
proof fn lemma_letters(a: char, b: char)
    ensures
        seq![a] == seq![b] <==> a == b,
{
    assert(seq![a][0] == a);
    assert(seq![b][0] == b);
}

proof fn lemma_all_letters()
    ensures
        forall|a: char, b: char| #![auto] seq![a] == seq![b] <==> a == b,
{
    assert forall|a: char, b: char| #![auto] seq![a] == seq![b] <==> a == b by {
        lemma_letters(a, b);
    }
}

// ---------------------------------------------------------------------------
// The browser
// ---------------------------------------------------------------------------

/// To the right is the way into the selected directory: its entries are read,
/// and it is shown from then on.
pub proof fn law_right_goes_into_the_directory(
    m: Launch,
    code: KeyCode,
    text: Option<Seq<char>>,
    tools: Seq<Seq<Seq<char>>>,
    name: Seq<char>,
)
    requires
        m.mode == Mode::Browse,
        m.filter is None,
        m.selected < m.entries.len(),
        m.entries[m.selected as int] == (name, true),
        name != ".."@,
        is_key(code, text, KeyCode::ArrowRight, "l"@),
    ensures
        ({
            let (next, step) = keyed(m, code, text, tools);
            &&& step is ReadDir
            &&& step->dir == joined(m.dir, name)
            &&& step->select is None
            &&& next.dir == joined(m.dir, name)
            &&& next.mode == Mode::Browse
        }),
{
    reveal_letters();
    lemma_all_letters();
}

/// To the left is the way up: the entries of the parent directory are read,
/// and the directory come from is to be selected. At the root nothing happens.
pub proof fn law_left_goes_up(
    m: Launch,
    code: KeyCode,
    text: Option<Seq<char>>,
    tools: Seq<Seq<Seq<char>>>,
)
    requires
        m.mode == Mode::Browse,
        m.filter is None,
        is_key(code, text, KeyCode::ArrowLeft, "h"@),
    ensures
        ({
            let (next, step) = keyed(m, code, text, tools);
            &&& parent(m.dir) is Some ==> step is ReadDir && step->dir == parent(m.dir)->0
                && step->select == file_name(m.dir) && next.dir == parent(m.dir)->0
            &&& parent(m.dir) is None ==> next == m && step == Step::Done(Outcome::Pending)
        }),
{
    reveal_letters();
    lemma_all_letters();
}

/// On the way up to the right is the way up too; on a file it leads nowhere.
pub proof fn law_right_of_others(
    m: Launch,
    code: KeyCode,
    text: Option<Seq<char>>,
    tools: Seq<Seq<Seq<char>>>,
    name: Seq<char>,
    is_dir: bool,
)
    requires
        m.mode == Mode::Browse,
        m.filter is None,
        m.selected < m.entries.len(),
        m.entries[m.selected as int] == (name, is_dir),
        is_key(code, text, KeyCode::ArrowRight, "l"@),
    ensures
        name == ".."@ && parent(m.dir) is Some ==> keyed(m, code, text, tools).1 is ReadDir && keyed(
            m,
            code,
            text,
            tools,
        ).1->dir == parent(m.dir)->0,
        name != ".."@ && !is_dir ==> keyed(m, code, text, tools) == (m, Step::Done(Outcome::Pending)),
{
    reveal_letters();
    lemma_all_letters();
}

proof fn lemma_here(v: Seq<nat>, x: nat, from: int)
    requires
        0 <= from <= x < v.len(),
        forall|i: int| 0 <= i < v.len() ==> #[trigger] v[i] == i,
    ensures
        crate::launcher::place_of(v, x, from) == x,
    decreases v.len() - from,
{
    if from < x {
        lemma_here(v, x, from + 1);
    }
}

/// Down and up go to the entry below and above, and stay at the ends. Nothing
/// else changes.
pub proof fn law_selection_moves_one_entry(
    m: Launch,
    code: KeyCode,
    text: Option<Seq<char>>,
    tools: Seq<Seq<Seq<char>>>,
)
    requires
        m.mode == Mode::Browse,
        m.filter is None,
        m.selected < m.entries.len(),
    ensures
        is_key(code, text, KeyCode::ArrowDown, "j"@) ==> keyed(m, code, text, tools) == (
            Launch {
                selected: if m.selected + 1 < m.entries.len() {
                    m.selected + 1
                } else {
                    m.selected
                },
                ..m
            },
            Step::Done(Outcome::Pending),
        ),
        is_key(code, text, KeyCode::ArrowUp, "k"@) ==> keyed(m, code, text, tools) == (
            Launch {
                selected: if m.selected > 0 {
                    (m.selected - 1) as nat
                } else {
                    0
                },
                ..m
            },
            Step::Done(Outcome::Pending),
        ),
{
    reveal_letters();
    lemma_all_letters();
    lemma_here(visible(m), m.selected, 0);
}

/// Enter on a file has it looked for, on a directory has that directory looked
/// up to choose a tool for, and on the way up the directory that is shown.
pub proof fn law_enter_opens_the_selected(
    m: Launch,
    text: Option<Seq<char>>,
    tools: Seq<Seq<Seq<char>>>,
    name: Seq<char>,
    is_dir: bool,
)
    requires
        m.mode == Mode::Browse,
        m.filter is None,
        m.selected < m.entries.len(),
        m.entries[m.selected as int] == (name, is_dir),
    ensures
        ({
            let (next, step) = keyed(m, KeyCode::Enter, text, tools);
            &&& next == m
            &&& name != ".."@ && !is_dir ==> step is CheckFile && step->file == joined(
                m.canonical,
                name,
            ) && step->name == name && !step->external
            &&& name != ".."@ && is_dir ==> step is Resolve && step->path == joined(m.dir, name)
                && step->purpose == Purpose::Agent
            &&& name == ".."@ ==> step is Resolve && step->path == m.dir && step->purpose
                == Purpose::Agent
        }),
{
    reveal_letters();
}

/// The letters of the browser: `o` hands a file to another program, `/` begins
/// a search, `.` shows or hides hidden entries, `m` marks a directory, and `r`
/// and `b` show the lists of recent directories and of bookmarks, where there
/// are any.
pub proof fn law_browser_letters(m: Launch, code: KeyCode, tools: Seq<Seq<Seq<char>>>, t: Seq<char>)
    requires
        m.mode == Mode::Browse,
        m.filter is None,
        m.selected < m.entries.len(),
        only_types(code),
    ensures
        ({
            let (next, step) = keyed(m, code, Some(t), tools);
            let (name, is_dir) = m.entries[m.selected as int];
            &&& t == "o"@ && name != ".."@ && !is_dir ==> next == m && step is CheckFile
                && step->file == joined(m.canonical, name) && step->external
            &&& t == "/"@ ==> next.filter == Some(Seq::<char>::empty()) && next.dir == m.dir
                && next.entries == m.entries
            &&& t == "."@ ==> next == (Launch { show_hidden: !m.show_hidden, ..m }) && step
                is ReadDir && step->dir == m.dir
            &&& t == "m"@ && name != ".."@ && is_dir ==> next == m && step is Resolve && step->path
                == joined(m.dir, name) && step->purpose == Purpose::Bookmark
            &&& t == "r"@ ==> (next.mode == Mode::Recent <==> m.recent.len() > 0) && next.dir
                == m.dir
            &&& t == "b"@ ==> (next.mode == Mode::Bookmarks <==> m.bookmarks.len() > 0) && next.dir
                == m.dir
        }),
{
    reveal_letters();
    lemma_all_letters();
}

/// Escape closes the launcher, and while a search is under way only the
/// search.
pub proof fn law_escape_leaves(
    m: Launch,
    text: Option<Seq<char>>,
    tools: Seq<Seq<Seq<char>>>,
)
    ensures
        ({
            let (next, step) = keyed(m, KeyCode::Escape, text, tools);
            &&& m.mode == Mode::Browse && m.filter is None ==> step == Step::Done(
                Outcome::Cancelled,
            )
            &&& m.mode == Mode::Browse && m.filter is Some ==> next == (Launch {
                filter: None,
                ..m
            }) && step == Step::Done(Outcome::Pending)
            &&& m.mode != Mode::Browse ==> next.mode == Mode::Browse && next.dir == m.dir && step
                == Step::Done(Outcome::Pending)
        }),
{
}

// ---------------------------------------------------------------------------
// Searching
// ---------------------------------------------------------------------------

/// What is typed is added to the search, and Backspace takes the last
/// character away. Behind the first character it ends the search.
pub proof fn law_search_is_typed(
    m: Launch,
    code: KeyCode,
    t: Seq<char>,
    tools: Seq<Seq<Seq<char>>>,
    q: Seq<char>,
)
    requires
        m.mode == Mode::Browse,
        m.filter == Some(q),
    ensures
        only_types(code) && crate::text::printable(t) ==> keyed(m, code, Some(t), tools).0.filter
            == Some(q + t),
        q.len() > 0 ==> keyed(m, KeyCode::Backspace, None, tools).0.filter == Some(
            q.subrange(0, q.len() - 1),
        ),
        q.len() == 0 ==> keyed(m, KeyCode::Backspace, None, tools).0.filter is None,
        keyed(m, code, Some(t), tools).0.entries == m.entries,
{
    if q.len() > 0 {
        assert(q.drop_last() =~= q.subrange(0, q.len() - 1));
    }
}

proof fn lemma_matching(entries: Seq<(Seq<char>, bool)>, q: Seq<char>, n: int, k: int)
    requires
        0 <= k < n <= entries.len(),
    ensures
        crate::launcher::matches(entries, q, n).contains(k as nat) <==> entry_matches(entries[k].0, q),
    decreases n,
{
    let all = crate::launcher::matches(entries, q, n);
    let before = crate::launcher::matches(entries, q, n - 1);
    lemma_below(entries, q, n - 1);
    if k < n - 1 {
        lemma_matching(entries, q, n - 1, k);
        if before.contains(k as nat) {
            let i = choose|i: int| 0 <= i < before.len() && before[i] == k as nat;
            assert(all[i] == k as nat);
        }
        if all.contains(k as nat) {
            let i = choose|i: int| 0 <= i < all.len() && all[i] == k as nat;
            assert(before[i] == k as nat);
        }
    } else {
        if entry_matches(entries[k].0, q) {
            assert(all.last() == k as nat);
            assert(all[all.len() - 1] == k as nat);
        } else if all.contains(k as nat) {
            let i = choose|i: int| 0 <= i < all.len() && all[i] == k as nat;
            assert(before[i] < n - 1);
        }
    }
}

proof fn lemma_below(entries: Seq<(Seq<char>, bool)>, q: Seq<char>, n: int)
    requires
        0 <= n <= entries.len(),
    ensures
        forall|i: int|
            0 <= i < crate::launcher::matches(entries, q, n).len() ==> (#[trigger] crate::launcher::matches(entries, q, n)[i]) < n,
        forall|i: int, j: int|
            0 <= i < j < crate::launcher::matches(entries, q, n).len() ==> (#[trigger] crate::launcher::matches(entries, q, n)[i]) < (
            #[trigger] crate::launcher::matches(entries, q, n)[j]),
    decreases n,
{
    if n > 0 {
        lemma_below(entries, q, n - 1);
        let before = crate::launcher::matches(entries, q, n - 1);
        let all = crate::launcher::matches(entries, q, n);
        assert forall|i: int| 0 <= i < all.len() implies (#[trigger] all[i]) < n by {
            if i < before.len() {
                assert(all[i] == before[i]);
            }
        }
        assert forall|i: int, j: int| 0 <= i < j < all.len() implies (#[trigger] all[i]) < (
        #[trigger] all[j]) by {
            assert(all[i] == before[i]);
            if j < before.len() {
                assert(all[j] == before[j]);
            }
        }
    }
}

/// A search shows exactly the entries whose names match, in their order.
/// Without one all are shown.
pub proof fn law_search_shows_what_matches(m: Launch, k: int)
    requires
        0 <= k < m.entries.len(),
    ensures
        m.filter is None ==> visible(m).len() == m.entries.len() && visible(m)[k] == k,
        m.filter is Some ==> (visible(m).contains(k as nat) <==> entry_matches(
            m.entries[k].0,
            m.filter->0,
        )),
        forall|i: int, j: int|
            0 <= i < j < visible(m).len() ==> (#[trigger] visible(m)[i]) < (#[trigger] visible(
                m,
            )[j]),
{
    if m.filter is Some {
        lemma_matching(m.entries, m.filter->0, m.entries.len() as int, k);
        lemma_below(m.entries, m.filter->0, m.entries.len() as int);
    }
}

// ---------------------------------------------------------------------------
// The lists
// ---------------------------------------------------------------------------

/// In the list of recent directories down and up move by one, Enter has the
/// selected one looked up to choose a tool for, and `r` leads back.
pub proof fn law_recent_list(
    m: Launch,
    code: KeyCode,
    text: Option<Seq<char>>,
    tools: Seq<Seq<Seq<char>>>,
)
    requires
        m.mode == Mode::Recent,
        m.recent_selected < m.recent.len(),
    ensures
        ({
            let (next, step) = keyed(m, code, text, tools);
            &&& is_key(code, text, KeyCode::ArrowDown, "j"@) ==> next == (Launch {
                recent_selected: if m.recent_selected + 1 < m.recent.len() {
                    m.recent_selected + 1
                } else {
                    m.recent_selected
                },
                ..m
            })
            &&& is_key(code, text, KeyCode::ArrowUp, "k"@) ==> next == (Launch {
                recent_selected: if m.recent_selected > 0 {
                    (m.recent_selected - 1) as nat
                } else {
                    0
                },
                ..m
            })
            &&& code == KeyCode::Enter ==> next == m && step is Resolve && step->path
                == m.recent[m.recent_selected as int] && step->purpose == Purpose::Agent
            &&& only_types(code) && text == Some("r"@) ==> next == (Launch {
                mode: Mode::Browse,
                ..m
            })
        }),
{
    reveal_letters();
    lemma_all_letters();
}

/// In the list of bookmarks down and up move by one, Enter has the selected
/// one looked up to choose a tool for, to the right is the way into it, `m`
/// and `d` remove it, and `b` leads back.
pub proof fn law_bookmark_list(
    m: Launch,
    code: KeyCode,
    text: Option<Seq<char>>,
    tools: Seq<Seq<Seq<char>>>,
)
    requires
        m.mode == Mode::Bookmarks,
        m.bookmark_selected < m.bookmarks.len(),
    ensures
        ({
            let (next, step) = keyed(m, code, text, tools);
            let mark = m.bookmarks[m.bookmark_selected as int];
            &&& is_key(code, text, KeyCode::ArrowDown, "j"@) ==> next == (Launch {
                bookmark_selected: if m.bookmark_selected + 1 < m.bookmarks.len() {
                    m.bookmark_selected + 1
                } else {
                    m.bookmark_selected
                },
                ..m
            })
            &&& is_key(code, text, KeyCode::ArrowUp, "k"@) ==> next == (Launch {
                bookmark_selected: if m.bookmark_selected > 0 {
                    (m.bookmark_selected - 1) as nat
                } else {
                    0
                },
                ..m
            })
            &&& code == KeyCode::Enter ==> next == m && step is Resolve && step->path == mark
                && step->purpose == Purpose::Agent
            &&& is_key(code, text, KeyCode::ArrowRight, "l"@) ==> next == m && step is Resolve
                && step->path == mark && step->purpose == Purpose::Browse
            &&& only_types(code) && (text == Some("m"@) || text == Some("d"@)) ==> next.bookmarks
                == crate::bookmarks::toggled(m.bookmarks, mark)
            &&& only_types(code) && text == Some("b"@) ==> next == (Launch {
                mode: Mode::Browse,
                ..m
            })
        }),
{
    reveal_letters();
    lemma_all_letters();
}

/// In the list of tools the first is the plain shell. Down and up move by one,
/// and Enter opens the directory that was chosen with the selected tool.
pub proof fn law_tool_list(
    m: Launch,
    code: KeyCode,
    text: Option<Seq<char>>,
    tools: Seq<Seq<Seq<char>>>,
    dir: Seq<char>,
)
    requires
        m.mode == Mode::Agent,
        m.agent_selected <= tools.len(),
        m.chosen == Some(dir),
    ensures
        ({
            let (next, step) = keyed(m, code, text, tools);
            &&& is_key(code, text, KeyCode::ArrowDown, "j"@) ==> next == (Launch {
                agent_selected: if m.agent_selected < tools.len() {
                    m.agent_selected + 1
                } else {
                    m.agent_selected
                },
                ..m
            })
            &&& is_key(code, text, KeyCode::ArrowUp, "k"@) ==> next == (Launch {
                agent_selected: if m.agent_selected > 0 {
                    (m.agent_selected - 1) as nat
                } else {
                    0
                },
                ..m
            })
            &&& code == KeyCode::Enter ==> step is Done && step->Done_0 is OpenIn
                && step->Done_0->OpenIn_dir == dir
            &&& code == KeyCode::Enter && m.agent_selected == 0 ==> step->Done_0->command is None
            &&& code == KeyCode::Enter && m.agent_selected > 0 ==> step->Done_0->command == Some(
                tools[m.agent_selected - 1],
            )
        }),
{
    reveal_letters();
    lemma_all_letters();
}

// ---------------------------------------------------------------------------
// What was found
// ---------------------------------------------------------------------------

/// A directory that was looked up is taken for what it was looked up for: a
/// tool is chosen for it, or it is shown, or its bookmark is set or removed.
/// Where there is none, nothing happens.
pub proof fn law_found_directory(m: Launch, purpose: Purpose, dir: Seq<char>)
    ensures
        ({
            let (next, step) = found(m, purpose, Some(dir));
            &&& purpose == Purpose::Agent ==> next.mode == Mode::Agent && next.chosen == Some(dir)
                && next.agent_selected == 0
            &&& purpose == Purpose::Browse ==> next.mode == Mode::Browse && next.dir == dir && step
                is ReadDir && step->dir == dir
            &&& purpose == Purpose::Bookmark ==> next.bookmarks == crate::bookmarks::toggled(
                m.bookmarks,
                dir,
            ) && next.mode == m.mode && next.dir == m.dir
        }),
        found(m, purpose, None) == (m, Step::Done(Outcome::Pending)),
{
}

/// A file that is there goes to the editor, in its own directory, unless it is
/// to go to another program.
pub proof fn law_found_file(m: Launch, file: Seq<char>, name: Seq<char>, external: bool)
    ensures
        file_found(m, file, name, external, false) == Outcome::Pending,
        external ==> file_found(m, file, name, external, true) == (Outcome::OpenExternal { file }),
        !external && !crate::launcher::is_external(name) && parent(file) is Some ==> file_found(
            m,
            file,
            name,
            external,
            true,
        ) == (Outcome::OpenFile { file, dir: parent(file)->0 }),
        crate::launcher::is_external(name) ==> file_found(m, file, name, external, true) == (
        Outcome::OpenExternal { file }),
{
}

/// The entries that were read are shown from the first, with the one to be
/// selected, if it is there, or the first.
pub proof fn law_entries_are_read_in(
    m: Launch,
    entries: Seq<(Seq<char>, bool)>,
    canonical: Option<Seq<char>>,
)
    ensures
        read_in(m, entries, canonical, None).entries == entries,
        read_in(m, entries, canonical, None).selected == 0,
        read_in(m, entries, canonical, None).scroll == 0,
        read_in(m, entries, canonical, None).dir == m.dir,
        canonical is Some ==> read_in(m, entries, canonical, None).canonical == canonical->0,
        canonical is None ==> read_in(m, entries, canonical, None).canonical == m.dir,
{
}

proof fn lemma_listed(raw: Seq<RawEntry>, show_hidden: bool, n: int, k: int)
    requires
        0 <= k < n <= raw.len(),
        raw[k].name is Some,
        show_hidden || not_hidden((raw[k].name->0@, raw[k].is_dir)),
    ensures
        listed(raw, show_hidden, n).contains((raw[k].name->0@, raw[k].is_dir)),
    decreases n,
{
    let e = (raw[k].name->0@, raw[k].is_dir);
    let all = listed(raw, show_hidden, n);
    if k < n - 1 {
        lemma_listed(raw, show_hidden, n - 1, k);
        let before = listed(raw, show_hidden, n - 1);
        let i = choose|i: int| 0 <= i < before.len() && before[i] == e;
        assert(all[i] == e);
    } else {
        assert(all[all.len() - 1] == e);
    }
}

proof fn lemma_listed_shown(raw: Seq<RawEntry>, show_hidden: bool, n: int)
    requires
        0 <= n <= raw.len(),
        !show_hidden,
    ensures
        forall|i: int|
            0 <= i < listed(raw, show_hidden, n).len() ==> not_hidden(
                #[trigger] listed(raw, show_hidden, n)[i],
            ),
    decreases n,
{
    if n > 0 {
        lemma_listed_shown(raw, show_hidden, n - 1);
        let before = listed(raw, show_hidden, n - 1);
        let all = listed(raw, show_hidden, n);
        assert forall|i: int| 0 <= i < all.len() implies not_hidden(#[trigger] all[i]) by {
            if i < before.len() {
                assert(all[i] == before[i]);
            }
        }
    }
}

/// The entries of a directory are listed with the way up first, where there is
/// one, then all directories, then all files, by name. Hidden ones are only
/// there while they are to be shown; no other is left out.
pub proof fn law_directory_is_listed(
    raw: Seq<RawEntry>,
    show_hidden: bool,
    has_parent: bool,
    k: int,
    i: int,
    j: int,
)
    requires
        0 <= k < raw.len(),
        k < MAX_READ,
        raw[k].name is Some,
    ensures
        ({
            let all = arranged(raw, show_hidden, has_parent);
            let e = (raw[k].name->0@, raw[k].is_dir);
            let first: int = if has_parent {
                1
            } else {
                0
            };
            &&& has_parent ==> all.len() > 0 && all[0] == (".."@, true)
            &&& show_hidden || !(e.0.len() > 0 && e.0[0] == '.') ==> all.contains(e)
            &&& !show_hidden && first <= i < all.len() ==> !(all[i].0.len() > 0 && all[i].0[0]
                == '.')
            &&& first <= i < j < all.len() ==> (all[j].1 ==> all[i].1) && (all[i].1 == all[j].1
                ==> name_le(all[i].0, all[j].0))
        }),
{
    let n = lesser(raw.len(), MAX_READ as nat) as int;
    let l = listed(raw, show_hidden, n);
    let o = ordered(l);
    let all = arranged(raw, show_hidden, has_parent);
    let e = (raw[k].name->0@, raw[k].is_dir);
    let first: int = if has_parent {
        1
    } else {
        0
    };
    law_ordered(l);
    broadcast use group_to_multiset_ensures;

    if show_hidden || not_hidden(e) {
        lemma_listed(raw, show_hidden, n, k);
        assert(o.to_multiset().count(e) > 0);
        assert(o.contains(e));
        let p = choose|p: int| 0 <= p < o.len() && o[p] == e;
        assert(all[p + first] == e);
    }
    if !show_hidden && first <= i < all.len() {
        lemma_listed_shown(raw, show_hidden, n);
        assert(all[i] == o[i - first]);
        assert(o.contains(all[i]));
        assert(l.to_multiset().count(all[i]) > 0);
        assert(l.contains(all[i]));
        let p = choose|p: int| 0 <= p < l.len() && l[p] == all[i];
        assert(not_hidden(l[p]));
    }
    if first <= i < j < all.len() {
        assert(all[i] == o[i - first]);
        assert(all[j] == o[j - first]);
    }
}

/// The command of a tab is the shell. With a tool the shell runs it, and then
/// itself.
pub proof fn law_tab_runs_shell(shell: Seq<Seq<char>>, tool: Seq<Seq<char>>)
    requires
        shell.len() > 0,
    ensures
        tab_command(shell, None) == shell,
        tab_command(shell, Some(tool)).len() == 3,
        tab_command(shell, Some(tool))[0] == shell[0],
        tab_command(shell, Some(tool))[1] == "-c"@,
        ({
            let line = tab_command(shell, Some(tool))[2];
            let run = join_with(tool, ' ');
            &&& line.subrange(0, run.len() as int) == run
            &&& line.subrange(run.len() as int, line.len() as int) == "; exec "@ + shell[0]
        }),
{
    let line = tab_command(shell, Some(tool))[2];
    let run = join_with(tool, ' ');
    assert(line =~= run + ("; exec "@ + shell[0]));
    assert(line.subrange(0, run.len() as int) =~= run);
    assert(line.subrange(run.len() as int, line.len() as int) =~= "; exec "@ + shell[0]);
}

/// While a search is under way down and up go to the next match and the one
/// before, to the right is the way into the selected directory, and Enter opens
/// what is selected.
pub proof fn law_search_keys(m: Launch, text: Option<Seq<char>>, tools: Seq<Seq<Seq<char>>>, p: int)
    requires
        m.mode == Mode::Browse,
        m.filter is Some,
        0 <= p < visible(m).len(),
        m.selected == visible(m)[p],
        m.selected < m.entries.len(),
    ensures
        ({
            let v = visible(m);
            let (name, is_dir) = m.entries[m.selected as int];
            &&& p + 1 < v.len() ==> keyed(m, KeyCode::ArrowDown, text, tools).0.selected == v[p + 1]
            &&& p + 1 == v.len() ==> keyed(m, KeyCode::ArrowDown, text, tools).0.selected == v[p]
            &&& p > 0 ==> keyed(m, KeyCode::ArrowUp, text, tools).0.selected == v[p - 1]
            &&& p == 0 ==> keyed(m, KeyCode::ArrowUp, text, tools).0.selected == v[p]
            &&& name != ".."@ && is_dir ==> keyed(m, KeyCode::ArrowRight, text, tools).1 is ReadDir
                && keyed(m, KeyCode::ArrowRight, text, tools).1->dir == joined(m.dir, name)
            &&& name != ".."@ && !is_dir ==> keyed(m, KeyCode::Enter, text, tools).1 is CheckFile
                && keyed(m, KeyCode::Enter, text, tools).1->file == joined(m.canonical, name)
            &&& name != ".."@ && is_dir ==> keyed(m, KeyCode::Enter, text, tools).1 is Resolve
                && keyed(m, KeyCode::Enter, text, tools).1->path == joined(m.dir, name)
        }),
{
    lemma_below(m.entries, m.filter->0, m.entries.len() as int);
    lemma_only_place(visible(m), p, 0);
}

proof fn lemma_only_place(v: Seq<nat>, p: int, from: int)
    requires
        0 <= from <= p < v.len(),
        forall|i: int, j: int| 0 <= i < j < v.len() ==> (#[trigger] v[i]) < (#[trigger] v[j]),
    ensures
        crate::launcher::place_of(v, v[p], from) == p,
    decreases v.len() - from,
{
    if from < p {
        lemma_only_place(v, p, from + 1);
    }
}

/// The search begins at the first match.
pub proof fn law_search_selects_the_first(m: Launch, code: KeyCode, t: Seq<char>, tools: Seq<
    Seq<Seq<char>>,
>, q: Seq<char>)
    requires
        m.mode == Mode::Browse,
        m.filter == Some(q),
        only_types(code),
        crate::text::printable(t),
    ensures
        ({
            let next = keyed(m, code, Some(t), tools).0;
            &&& visible(next).len() > 0 ==> next.selected == visible(next)[0]
            &&& visible(next).len() == 0 ==> next.selected == m.selected
        }),
{
    let n = Launch { filter: Some(q + t), ..m };
    assert(visible(keyed(m, code, Some(t), tools).0) == visible(n));
}

/// A search finds the names that hold what is searched for, whatever the case of
/// the letters, and never the way up.
pub proof fn law_search_finds_parts_of_names(
    name: Seq<char>,
    q: Seq<char>,
    before: Seq<char>,
    after: Seq<char>,
)
    ensures
        name != ".."@ && lowercase(name) == before + lowercase(q) + after ==> entry_matches(name, q),
        lowercase(q).len() > lowercase(name).len() ==> !entry_matches(name, q),
        entry_matches(name, q) ==> exists|k: int|
            0 <= k <= lowercase(name).len() - lowercase(q).len() && #[trigger] lowercase(
                name,
            ).subrange(k, k + lowercase(q).len()) == lowercase(q),
        !entry_matches(".."@, q),
{
    let low = lowercase(name);
    let p = lowercase(q);
    if low == before + p + after {
        assert(low.subrange(before.len() as int, before.len() as int + p.len()) =~= p);
        assert(occurs_at(low, p, before.len() as int));
    }
    if entry_matches(name, q) {
        let k = choose|k: int| occurs_at(low, p, k);
        assert(low.subrange(k, k + p.len()) == p);
    }
}

} // verus!
