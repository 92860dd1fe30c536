//! Words on the screen that name a page or a file.

use crate::path::{
    absolute, components, is_absolute, is_name, join, joined, lemma_components_names,
    lemma_rooted_components, path_components,
};
use crate::reader::opt_str;
use crate::terminal::{Cell, Line};
use crate::text::{
    after_prefix, chars_of, has_prefix, is_white, join_texts, join_with, lemma_texts_push, opt_text,
    same_text, starts_with, string_between, texts, white,
};
use vstd::prelude::*;

verus! {

/// A character that a link can hold. White space ends a link, and so do
/// quotes, brackets and lines of a frame.
pub open spec fn link_char(c: char) -> bool {
    !white(c) && c != '\0' && c != '"' && c != '\'' && c != '<' && c != '>' && c != '`' && c != '('
        && c != ')' && c != '[' && c != ']' && c != '{' && c != '}' && c != '|' && c != '\u{2502}'
}

/// Whether a link can hold the character.
pub fn is_link_token_char(c: char) -> (r: bool)
    ensures
        r == link_char(c),
{
    !is_white(c) && c != '\0' && c != '"' && c != '\'' && c != '<' && c != '>' && c != '`' && c
        != '(' && c != ')' && c != '[' && c != ']' && c != '{' && c != '}' && c != '|' && c
        != '\u{2502}'
}

/// Whether a word names a page.
pub open spec fn is_url(token: Seq<char>) -> bool {
    has_prefix(token, "http://"@) || has_prefix(token, "https://"@)
}

/// Whether a word names a page.
pub fn names_page(token: &str) -> (r: bool)
    ensures
        r == is_url(token@),
{
    starts_with(token, "http://") || starts_with(token, "https://")
}

/// Whether a word looks like a path: it holds a slash.
pub fn looks_like_path(token: &str) -> (r: bool)
    ensures
        r == token@.contains('/'),
{
    let cs = chars_of(token);
    let mut i: usize = 0;
    while i < cs.len()
        invariant
            i <= cs.len(),
            cs@ == token@,
            forall|k: int| 0 <= k < i ==> cs@[k] != '/',
        decreases cs.len() - i,
    {
        if cs[i] == '/' {
            assert(token@[i as int] == '/');
            return true;
        }
        i += 1;
    }
    false
}

// ---------------------------------------------------------------------------
// Paths
// ---------------------------------------------------------------------------

/// The names that are left of the first `n` components of a path: `..` takes
/// the name before it back.
pub open spec fn kept_names(c: Seq<Seq<char>>, n: int) -> Seq<Seq<char>>
    decreases n,
{
    if n <= 0 {
        Seq::empty()
    } else {
        let before = kept_names(c, n - 1);
        let name = c[n - 1];
        if name == "/"@ || name == "."@ {
            before
        } else if name == ".."@ {
            if before.len() > 0 {
                before.drop_last()
            } else {
                before
            }
        } else {
            before.push(name)
        }
    }
}

/// The path without `.` and `..`.
pub open spec fn normalized(path: Seq<char>) -> Seq<char> {
    let names = join_with(kept_names(components(path), components(path).len() as int), '/');
    if absolute(path) {
        "/"@ + names
    } else {
        names
    }
}

/// The path without `.` and `..`, by its text alone.
pub fn normalize_absolute_path(path: &str) -> (r: String)
    ensures
        r@ == normalized(path@),
{
    let parts = path_components(path);
    let ghost c = components(path@);
    let mut names: Vec<String> = Vec::new();
    let mut i: usize = 0;
    assert(texts(names@) =~= Seq::empty());
    while i < parts.len()
        invariant
            i <= parts.len(),
            texts(parts@) == c,
            texts(names@) == kept_names(c, i as int),
        decreases parts.len() - i,
    {
        let name = parts[i].as_str();
        assert(name@ == c[i as int]);
        if same_text(name, "/") || same_text(name, ".") {
        } else if same_text(name, "..") {
            let ghost before = names@;
            if names.len() > 0 {
                names.pop();
                assert(texts(names@) =~= texts(before).drop_last());
            }
        } else {
            let ghost before = names@;
            let own = name.to_owned();
            names.push(own);
            proof {
                lemma_texts_push(before, own);
            }
        }
        i += 1;
    }
    let body = join_texts(&names, '/');
    if is_absolute(path) {
        let mut out = "/".to_owned();
        out.append(body.as_str());
        out
    } else {
        body
    }
}

/// Names that are left of names are names, and none is `..`.
proof fn lemma_kept_names(c: Seq<Seq<char>>, n: int)
    requires
        0 <= n <= c.len(),
        forall|i: int| 0 <= i < n ==> c[i] == "/"@ || is_name(#[trigger] c[i]),
    ensures
        forall|i: int|
            0 <= i < kept_names(c, n).len() ==> is_name(#[trigger] kept_names(c, n)[i])
                && kept_names(c, n)[i] != ".."@ && kept_names(c, n)[i] != "/"@,
    decreases n,
{
    if n > 0 {
        lemma_kept_names(c, n - 1);
        let before = kept_names(c, n - 1);
        let all = kept_names(c, n);
        assert forall|i: int| 0 <= i < all.len() implies is_name(#[trigger] all[i]) && all[i]
            != ".."@ && all[i] != "/"@ by {
            if i < before.len() {
                assert(all[i] == before[i]);
            } else {
                assert(all[i] == c[n - 1]);
            }
        }
    }
}

/// Plain names are all kept.
proof fn lemma_all_kept(names: Seq<Seq<char>>, n: int)
    requires
        0 <= n <= names.len(),
        forall|i: int|
            0 <= i < names.len() ==> is_name(#[trigger] names[i]) && names[i] != ".."@ && names[i]
                != "/"@,
    ensures
        kept_names(seq!["/"@] + names, n + 1) == names.subrange(0, n),
    decreases n,
{
    reveal_strlit("/");
    reveal_strlit(".");
    let c = seq!["/"@] + names;
    if n == 0 {
        assert(c[0] == "/"@);
        assert(kept_names(c, 0) =~= Seq::empty());
        assert(kept_names(c, 1) =~= names.subrange(0, 0));
    } else {
        lemma_all_kept(names, n - 1);
        assert(c[n] == names[n - 1]);
        assert(is_name(names[n - 1]));
        assert("."@ =~= seq!['.']);
        assert(kept_names(c, n + 1) =~= names.subrange(0, n - 1).push(names[n - 1]));
        assert(names.subrange(0, n) =~= names.subrange(0, n - 1).push(names[n - 1]));
    }
}

/// A path without `.` and `..` stays as it is.
pub proof fn law_normalized_once(path: Seq<char>)
    requires
        absolute(path),
    ensures
        normalized(normalized(path)) == normalized(path),
        absolute(normalized(path)),
{
    reveal_strlit("/");
    assert("/"@ =~= seq!['/']);
    let c = components(path);
    lemma_components_names(path);
    assert forall|i: int| 0 <= i < c.len() implies c[i] == "/"@ || is_name(#[trigger] c[i]) by {}
    lemma_kept_names(c, c.len() as int);
    let names = kept_names(c, c.len() as int);
    lemma_rooted_components(names);
    let p = normalized(path);
    assert(p == seq!['/'] + join_with(names, '/'));
    assert(p[0] == '/');
    assert(components(p) == seq!["/"@] + names);
    lemma_all_kept(names, names.len() as int);
    assert(names.subrange(0, names.len() as int) =~= names);
}

/// The path that a word names, seen from a directory. A `~` stands for the
/// home directory; a directory that is not absolute is seen from `current`.
pub open spec fn token_path(
    token: Seq<char>,
    cwd: Seq<char>,
    home: Option<Seq<char>>,
    current: Option<Seq<char>>,
) -> Option<Seq<char>> {
    if token.len() == 0 || is_url(token) {
        None
    } else if has_prefix(token, "~/"@) {
        match home {
            Some(h) => Some(normalized(joined(h, token.subrange(2, token.len() as int)))),
            None => None,
        }
    } else if absolute(token) {
        Some(normalized(token))
    } else if absolute(cwd) {
        Some(normalized(joined(cwd, token)))
    } else {
        match current {
            Some(d) => Some(normalized(joined(joined(d, cwd), token))),
            None => None,
        }
    }
}

/// The path that a word on the screen names.
pub fn resolve_path_token(token: &str, cwd: &str, home: Option<&str>, current: Option<&str>) -> (r: Option<
    String,
>)
    ensures
        opt_text(r) == token_path(token@, cwd@, opt_str(home), opt_str(current)),
{
    if chars_of(token).len() == 0 || names_page(token) {
        return None;
    }
    proof {
        reveal_strlit("~/");
    }
    match after_prefix(token, "~/") {
        Some(rest) => match home {
            Some(h) => Some(normalize_absolute_path(join(h, rest.as_str()).as_str())),
            None => None,
        },
        None => {
            if is_absolute(token) {
                Some(normalize_absolute_path(token))
            } else if is_absolute(cwd) {
                Some(normalize_absolute_path(join(cwd, token).as_str()))
            } else {
                match current {
                    Some(d) => {
                        let base = join(d, cwd);
                        Some(normalize_absolute_path(join(base.as_str(), token).as_str()))
                    },
                    None => None,
                }
            }
        },
    }
}

/// The file that a word names: `exists` says whether there is a file at its
/// path.
pub fn resolve_existing_file_token(
    token: &str,
    cwd: &str,
    home: Option<&str>,
    current: Option<&str>,
    exists: bool,
) -> (r: Option<String>)
    ensures
        opt_text(r) == (if exists {
            token_path(token@, cwd@, opt_str(home), opt_str(current))
        } else {
            None
        }),
{
    if exists {
        resolve_path_token(token, cwd, home, current)
    } else {
        None
    }
}

// ---------------------------------------------------------------------------
// Words on the screen
// ---------------------------------------------------------------------------

/// The characters of a row by their columns. The further columns of a wide
/// character hold none.
pub open spec fn column_chars(c: Seq<Cell>, n: int) -> Seq<char>
    decreases n,
{
    if n <= 0 {
        Seq::empty()
    } else {
        let before = column_chars(c, n - 1);
        let w = c[n - 1].width;
        if w == 0 {
            before
        } else {
            before.push(c[n - 1].ch) + Seq::new((w - 1) as nat, |i: int| '\0')
        }
    }
}

/// Where the word that holds a column begins.
pub open spec fn token_left(s: Seq<char>, col: int) -> int
    decreases col,
{
    if 0 < col <= s.len() && link_char(s[col - 1]) {
        token_left(s, col - 1)
    } else {
        col
    }
}

/// Where the word that holds a column ends.
pub open spec fn token_right(s: Seq<char>, col: int) -> int
    decreases s.len() - col,
{
    if 0 <= col && col + 1 < s.len() && link_char(s[col + 1]) {
        token_right(s, col + 1)
    } else {
        col
    }
}

/// A character that ends a sentence.
pub open spec fn stop_char(c: char) -> bool {
    c == '.' || c == ',' || c == ';' || c == ':' || c == '!' || c == '?' || c == '\u{3002}' || c
        == '\u{3001}'
}

fn is_stop_char(c: char) -> (r: bool)
    ensures
        r == stop_char(c),
{
    c == '.' || c == ',' || c == ';' || c == ':' || c == '!' || c == '?' || c == '\u{3002}' || c
        == '\u{3001}'
}

/// The text without the stops at its end.
pub open spec fn without_stops(s: Seq<char>) -> Seq<char>
    decreases s.len(),
{
    if s.len() > 0 && stop_char(s.last()) {
        without_stops(s.drop_last())
    } else {
        s
    }
}

/// The word at a column of a row.
pub open spec fn token_in(c: Seq<Cell>, col: int) -> Option<Seq<char>> {
    let s = column_chars(c, c.len() as int);
    if col < 0 || col >= s.len() || !link_char(s[col]) {
        None
    } else {
        Some(without_stops(s.subrange(token_left(s, col), token_right(s, col) + 1)))
    }
}

/// The word at a cell of the screen.
pub open spec fn word_at(lines: Seq<Line>, row: int, col: int) -> Option<Seq<char>> {
    if row < 0 || row >= lines.len() {
        None
    } else {
        token_in(lines[row]@, col)
    }
}

fn chars_by_column(cells: &Vec<Cell>) -> (r: Vec<char>)
    ensures
        r@ == column_chars(cells@, cells.len() as int),
{
    let mut out: Vec<char> = Vec::new();
    let mut i: usize = 0;
    assert(out@ =~= Seq::empty());
    while i < cells.len()
        invariant
            i <= cells.len(),
            out@ == column_chars(cells@, i as int),
        decreases cells.len() - i,
    {
        let w = cells[i].width;
        if w != 0 {
            out.push(cells[i].ch);
            let ghost base = out@;
            let mut k: u16 = 1;
            assert(base + Seq::new(0, |i: int| '\0') =~= base);
            while k < w
                invariant
                    1 <= k <= w,
                    out@ == base + Seq::new((k - 1) as nat, |i: int| '\0'),
                decreases w - k,
            {
                let ghost before = out@;
                out.push('\0');
                assert(out@ =~= base + Seq::new(k as nat, |i: int| '\0'));
                k += 1;
            }
        }
        i += 1;
    }
    out
}

proof fn lemma_token_left(s: Seq<char>, col: int)
    requires
        0 <= col <= s.len(),
    ensures
        0 <= token_left(s, col) <= col,
    decreases col,
{
    if 0 < col && link_char(s[col - 1]) {
        lemma_token_left(s, col - 1);
    }
}

/// The word at a cell of the screen, without the stops behind it.
pub fn token_at(lines: &Vec<Line>, row: usize, col: usize) -> (r: Option<String>)
    ensures
        opt_text(r) == word_at(lines@, row as int, col as int),
{
    if row >= lines.len() {
        return None;
    }
    let cells = lines[row].iter();
    let s = chars_by_column(&cells);
    if col >= s.len() || !is_link_token_char(s[col]) {
        return None;
    }
    let mut start = col;
    while start > 0 && is_link_token_char(s[start - 1])
        invariant
            start <= col < s.len(),
            token_left(s@, start as int) == token_left(s@, col as int),
        decreases start,
    {
        start -= 1;
    }
    let mut last = col;
    while last + 1 < s.len() && is_link_token_char(s[last + 1])
        invariant
            col <= last < s.len(),
            token_right(s@, last as int) == token_right(s@, col as int),
        decreases s.len() - last,
    {
        last += 1;
    }
    let mut end = last + 1;
    let ghost word = s@.subrange(start as int, end as int);
    while end > start && is_stop_char(s[end - 1])
        invariant
            start <= end <= s.len(),
            without_stops(s@.subrange(start as int, end as int)) == without_stops(word),
        decreases end,
    {
        assert(s@.subrange(start as int, end as int).drop_last() =~= s@.subrange(
            start as int,
            end - 1,
        ));
        end -= 1;
    }
    proof {
        let t = s@.subrange(start as int, end as int);
        assert(t.len() > 0 ==> t.last() == s@[end - 1]);
    }
    Some(string_between(&s, start, end))
}

/// Whether a word is shown as a link: a page always, a path while the control
/// key is held down.
pub open spec fn points_to(token: Option<Seq<char>>, control: bool) -> bool {
    match token {
        None => false,
        Some(t) => is_url(t) || (t.contains('/') && control),
    }
}

/// Whether the mouse over a cell shows a link.
pub fn should_show_link_pointer(lines: &Vec<Line>, row: usize, col: usize, control: bool) -> (r: bool)
    ensures
        r == points_to(word_at(lines@, row as int, col as int), control),
{
    match token_at(lines, row, col) {
        None => false,
        Some(t) => names_page(t.as_str()) || (looks_like_path(t.as_str()) && control),
    }
}

/// What a click on a word asks for.
#[derive(Debug)]
pub enum LinkTarget {
    /// Open the page.
    Page(String),
    /// Open the file that the word names, if there is one.
    File(String),
}

/// What a click on a word asks for.
pub ghost enum Link {
    Page(Seq<char>),
    File(Seq<char>),
}

impl View for LinkTarget {
    type V = Link;

    open spec fn view(&self) -> Link {
        match *self {
            LinkTarget::Page(t) => Link::Page(t@),
            LinkTarget::File(t) => Link::File(t@),
        }
    }
}

/// What a click on a word asks for: a page is opened by a plain click, a file
/// only while the control key is held down.
pub open spec fn link_of(token: Option<Seq<char>>, control: bool) -> Option<Link> {
    match token {
        None => None,
        Some(t) => if is_url(t) {
            Some(Link::Page(t))
        } else if control {
            Some(Link::File(t))
        } else {
            None
        },
    }
}

/// What a click on a cell asks for.
pub fn link_at(lines: &Vec<Line>, row: usize, col: usize, control: bool) -> (r: Option<LinkTarget>)
    ensures
        crate::rows::opt_view(r) == link_of(word_at(lines@, row as int, col as int), control),
{
    match token_at(lines, row, col) {
        None => None,
        Some(t) => {
            if names_page(t.as_str()) {
                Some(LinkTarget::Page(t))
            } else if control {
                Some(LinkTarget::File(t))
            } else {
                None
            }
        },
    }
}

/// Where the pointer shows a link, a click opens something.
pub proof fn law_shown_links_open(token: Option<Seq<char>>, control: bool)
    requires
        points_to(token, control),
    ensures
        link_of(token, control) is Some,
{
}

} // verus!
