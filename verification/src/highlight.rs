//! Syntax highlighting. Which part of a text is what is up to `syntect`; the
//! colours are chosen here.

use crate::path::{extension, extension_of, file_name, file_name_of};
use crate::terminal::Color;
use crate::text::{
    chars_of, kept_lines, kept_lines_from, lemma_kept_lines, lemma_next_at, lines, lines_from,
    next_at, opt_text, split_lines, string_between, texts,
};
use crate::vt::{opaque_rgba, rgba_u32, Rgb};
use std::str::FromStr;
use syntect::easy::HighlightLines;
use syntect::highlighting::{Color as SynColor, ScopeSelectors, StyleModifier, Theme, ThemeItem, ThemeSettings};
use syntect::parsing::SyntaxSet;
use syntect::util::LinesWithEndings;
use vstd::prelude::*;
use vstd::string::*;

verus! {

/// Texts with more lines than this are not highlighted.
pub const MAX_LINES: usize = 5000;

/// A line of text in several colours.
pub type HighlightedLine = Vec<(Color, String)>;

/// The set of grammars of `syntect`.
#[verifier::external_type_specification]
#[verifier::external_body]
pub struct ExSyntaxSet(SyntaxSet);

/// A colour scheme of `syntect`.
#[verifier::external_type_specification]
#[verifier::external_body]
pub struct ExTheme(Theme);

/// A part of a line: its colour as red, green and blue, and its text.
pub type RawSpan = ((u8, u8, u8), String);

/// The contents of a line.
pub open spec fn raw_line(line: Seq<((u8, u8, u8), String)>) -> Seq<((u8, u8, u8), Seq<char>)> {
    Seq::new(line.len(), |i: int| (line[i].0, line[i].1@))
}

/// The contents of lines.
pub open spec fn raw_lines(lines: Seq<Vec<RawSpan>>) -> Seq<Seq<((u8, u8, u8), Seq<char>)>> {
    Seq::new(lines.len(), |i: int| raw_line(lines[i]@))
}

/// The contents of lines, where there are any.
pub open spec fn raw_view(r: Option<Vec<Vec<RawSpan>>>) -> Option<
    Seq<Seq<((u8, u8, u8), Seq<char>)>>,
> {
    match r {
        Some(v) => Some(raw_lines(v@)),
        None => None,
    }
}

/// The parts of a line one after the other.
pub open spec fn raw_text(line: Seq<((u8, u8, u8), Seq<char>)>) -> Seq<char>
    decreases line.len(),
{
    if line.len() == 0 {
        Seq::empty()
    } else {
        raw_text(line.drop_last()) + line.last().1
    }
}

/// The lines of parts are those of the text, each with its line feed.
pub open spec fn covers_text(raw: Seq<Seq<((u8, u8, u8), Seq<char>)>>, text: Seq<char>) -> bool {
    &&& raw.len() == kept_lines(text).len()
    &&& forall|i: int| 0 <= i < raw.len() ==> raw_text(#[trigger] raw[i]) == kept_lines(text)[i]
}

/// Whether `ScopeSelectors::from_str` reads a text.
pub uninterp spec fn is_selector(s: Seq<char>) -> bool;

/// Whether a set holds the grammars that come with `syntect`, and no others.
pub uninterp spec fn is_default_set(s: SyntaxSet) -> bool;

/// The rules of a colour scheme: what each matches, and its colour.
pub uninterp spec fn theme_rules(t: Theme) -> Seq<(Seq<char>, (u8, u8, u8))>;

/// The colour of what no rule of a colour scheme matches.
pub uninterp spec fn theme_color(t: Theme) -> (u8, u8, u8);

/// Whether the default grammars have one for a file extension.
pub uninterp spec fn extension_has_syntax(ext: Seq<char>) -> bool;

/// How the default grammar for a file extension parts a text, with the colours
/// of some rules and of ordinary text; `None` where there is no grammar or it
/// fails on a line.
pub uninterp spec fn extension_spans(
    rules: Seq<(Seq<char>, (u8, u8, u8))>,
    color: (u8, u8, u8),
    ext: Seq<char>,
    text: Seq<char>,
) -> Option<Seq<Seq<((u8, u8, u8), Seq<char>)>>>;

/// How the default grammar for a language name parts a text, with the colours
/// of some rules and of ordinary text; `None` where there is no grammar or it
/// fails on a line.
pub uninterp spec fn token_spans(
    rules: Seq<(Seq<char>, (u8, u8, u8))>,
    color: (u8, u8, u8),
    token: Seq<char>,
    text: Seq<char>,
) -> Option<Seq<Seq<((u8, u8, u8), Seq<char>)>>>;

/// Calls `SyntaxSet::load_defaults_newlines`, which gives the grammars that
/// come with `syntect`.
#[verifier::external_body]
fn default_syntaxes() -> (r: SyntaxSet)
    ensures
        is_default_set(r),
{
    SyntaxSet::load_defaults_newlines()
}

/// Calls `ScopeSelectors::from_str` on what each rule matches, and makes a
/// `Theme` of the rules and the colour of ordinary text; there is none where a
/// rule is not well formed.
#[verifier::external_body]
fn theme_of(
    name: &str,
    color: (u8, u8, u8),
    rules: &Vec<(&'static str, (u8, u8, u8))>,
) -> (r: Option<Theme>)
    ensures
        r is Some <==> forall|i: int| 0 <= i < rules.len() ==> is_selector((#[trigger] rules[i]).0@),
        r is Some ==> theme_rules(r->0) == rule_views(rules@) && theme_color(r->0) == color,
{
    let rgb = |c: (u8, u8, u8)| Some(SynColor { r: c.0, g: c.1, b: c.2, a: 0xFF });
    let style = |c| StyleModifier { foreground: rgb(c), background: None, font_style: None };
    let item = |s, c| ScopeSelectors::from_str(s).ok().map(|scope| ThemeItem { scope, style: style(c) });
    let scopes = rules.iter().map(|(s, c)| item(s, *c)).collect::<Option<Vec<ThemeItem>>>()?;
    let settings = ThemeSettings { foreground: rgb(color), ..ThemeSettings::default() };
    Some(Theme { name: Some(name.to_owned()), settings, scopes, ..Theme::default() })
}

/// Calls `SyntaxSet::find_syntax_by_extension` on the default grammars: whether
/// there is one for a file extension.
#[verifier::external_body]
fn has_extension(syntaxes: &SyntaxSet, ext: &str) -> (r: bool)
    requires
        is_default_set(*syntaxes),
    ensures
        r == extension_has_syntax(ext@),
{
    syntaxes.find_syntax_by_extension(ext).is_some()
}

/// Calls `SyntaxSet::find_syntax_by_extension` on the default grammars and, with
/// the grammar it gives, `HighlightLines::highlight_line` on each of the text's
/// `LinesWithEndings`. The parts of a line are together that line.
#[verifier::external_body]
fn color_by_extension(syntaxes: &SyntaxSet, theme: &Theme, ext: &str, text: &str) -> (r: Option<
    Vec<Vec<RawSpan>>,
>)
    requires
        is_default_set(*syntaxes),
    ensures
        raw_view(r) == extension_spans(theme_rules(*theme), theme_color(*theme), ext@, text@),
        r is Some ==> covers_text(raw_lines(r->0@), text@),
{
    let syntax = syntaxes.find_syntax_by_extension(ext)?;
    let mut state = HighlightLines::new(syntax, theme);
    let mut color = |line| {
        let parts = state.highlight_line(line, syntaxes).ok()?.into_iter();
        Some(parts.map(|(s, t)| ((s.foreground.r, s.foreground.g, s.foreground.b), t.to_owned())).collect())
    };
    LinesWithEndings::from(text).map(|line| color(line)).collect()
}

/// Calls `SyntaxSet::find_syntax_by_token` on the default grammars and, with the
/// grammar it gives, `HighlightLines::highlight_line` on each of the text's
/// `LinesWithEndings`. The parts of a line are together that line.
#[verifier::external_body]
fn color_by_token(syntaxes: &SyntaxSet, theme: &Theme, token: &str, text: &str) -> (r: Option<
    Vec<Vec<RawSpan>>,
>)
    requires
        is_default_set(*syntaxes),
    ensures
        raw_view(r) == token_spans(theme_rules(*theme), theme_color(*theme), token@, text@),
        r is Some ==> covers_text(raw_lines(r->0@), text@),
{
    let syntax = syntaxes.find_syntax_by_token(token)?;
    let mut state = HighlightLines::new(syntax, theme);
    let mut color = |line| {
        let parts = state.highlight_line(line, syntaxes).ok()?.into_iter();
        Some(parts.map(|(s, t)| ((s.foreground.r, s.foreground.g, s.foreground.b), t.to_owned())).collect())
    };
    LinesWithEndings::from(text).map(|line| color(line)).collect()
}

/// The rules of the colour scheme: what is coloured, and how.
pub open spec fn scheme() -> Seq<(Seq<char>, (u8, u8, u8))> {
    seq![
        ("comment, punctuation.definition.comment"@, (0x56u8, 0x5Fu8, 0x89u8)),
        ("string, punctuation.definition.string, constant.character"@, (0x9Eu8, 0xCEu8, 0x6Au8)),
        ("constant.numeric, constant.language"@, (0xFFu8, 0x9Eu8, 0x64u8)),
        ("constant.other, support.constant"@, (0xFFu8, 0x9Eu8, 0x64u8)),
        ("keyword, storage.modifier, keyword.operator.word"@, (0xBBu8, 0x9Au8, 0xF7u8)),
        ("storage.type, keyword.declaration"@, (0x9Du8, 0x7Cu8, 0xD8u8)),
        ("keyword.operator, punctuation.separator"@, (0x89u8, 0xDDu8, 0xFFu8)),
        ("entity.name.function, support.function, meta.function-call"@, (0x7Au8, 0xA2u8, 0xF7u8)),
        ("entity.name.type, entity.other.inherited-class, support.type"@, (0x2Au8, 0xC3u8, 0xDEu8)),
        ("entity.name.tag, meta.tag"@, (0xF7u8, 0x76u8, 0x8Eu8)),
        ("entity.other.attribute-name"@, (0xBBu8, 0x9Au8, 0xF7u8)),
        ("variable.parameter"@, (0xE0u8, 0xAFu8, 0x68u8)),
        ("variable.function, variable.annotation"@, (0x7Au8, 0xA2u8, 0xF7u8)),
        ("meta.preprocessor, meta.annotation"@, (0x7Du8, 0xCFu8, 0xFFu8)),
        ("invalid"@, (0xF7u8, 0x76u8, 0x8Eu8)),
        ("markup.heading, entity.name.section"@, (0x7Au8, 0xA2u8, 0xF7u8)),
        ("markup.bold"@, (0xE0u8, 0xAFu8, 0x68u8)),
        ("support.type.property-name, meta.mapping.key"@, (0x7Au8, 0xA2u8, 0xF7u8)),
    ]
}

/// The contents of rules.
pub open spec fn rule_views(v: Seq<(&'static str, (u8, u8, u8))>) -> Seq<(Seq<char>, (u8, u8, u8))> {
    Seq::new(v.len(), |i: int| (v[i].0@, v[i].1))
}

/// The rules of the colour scheme: what is coloured, and how.
pub fn tokyo_night() -> (r: Vec<(&'static str, (u8, u8, u8))>)
    ensures
        rule_views(r@) == scheme(),
{
    let mut v: Vec<(&'static str, (u8, u8, u8))> = Vec::new();
    v.push(("comment, punctuation.definition.comment", (0x56, 0x5F, 0x89)));
    v.push(("string, punctuation.definition.string, constant.character", (0x9E, 0xCE, 0x6A)));
    v.push(("constant.numeric, constant.language", (0xFF, 0x9E, 0x64)));
    v.push(("constant.other, support.constant", (0xFF, 0x9E, 0x64)));
    v.push(("keyword, storage.modifier, keyword.operator.word", (0xBB, 0x9A, 0xF7)));
    v.push(("storage.type, keyword.declaration", (0x9D, 0x7C, 0xD8)));
    v.push(("keyword.operator, punctuation.separator", (0x89, 0xDD, 0xFF)));
    v.push(("entity.name.function, support.function, meta.function-call", (0x7A, 0xA2, 0xF7)));
    v.push(("entity.name.type, entity.other.inherited-class, support.type", (0x2A, 0xC3, 0xDE)));
    v.push(("entity.name.tag, meta.tag", (0xF7, 0x76, 0x8E)));
    v.push(("entity.other.attribute-name", (0xBB, 0x9A, 0xF7)));
    v.push(("variable.parameter", (0xE0, 0xAF, 0x68)));
    v.push(("variable.function, variable.annotation", (0x7A, 0xA2, 0xF7)));
    v.push(("meta.preprocessor, meta.annotation", (0x7D, 0xCF, 0xFF)));
    v.push(("invalid", (0xF7, 0x76, 0x8E)));
    v.push(("markup.heading, entity.name.section", (0x7A, 0xA2, 0xF7)));
    v.push(("markup.bold", (0xE0, 0xAF, 0x68)));
    v.push(("support.type.property-name, meta.mapping.key", (0x7A, 0xA2, 0xF7)));
    assert(rule_views(v@) =~= scheme());
    v
}

/// The colour of ordinary text.
pub open spec fn text_color() -> (u8, u8, u8) {
    (0xC0u8, 0xCAu8, 0xF5u8)
}

/// The default grammars and the colour scheme.
pub struct Highlighter {
    syntaxes: SyntaxSet,
    theme: Theme,
}

impl Highlighter {
    #[verifier::type_invariant]
    spec fn is_loaded(self) -> bool {
        &&& is_default_set(self.syntaxes)
        &&& theme_rules(self.theme) == scheme()
        &&& theme_color(self.theme) == text_color()
    }

    /// Loads the grammars and makes the colour scheme; fails only if one of
    /// its rules is not well formed.
    pub fn new() -> (r: Option<Highlighter>)
        ensures
            r is Some <==> forall|i: int| 0 <= i < scheme().len() ==> is_selector(
                (#[trigger] scheme()[i]).0,
            ),
    {
        let rules = tokyo_night();
        proof {
            assert(rule_views(rules@).len() == rules.len());
            assert forall|i: int| 0 <= i < rules.len() implies (#[trigger] rules[i]).0@
                == scheme()[i].0 by {
                assert(rule_views(rules@)[i].0 == rules[i].0@);
            }
            assert forall|i: int| 0 <= i < scheme().len() implies (#[trigger] scheme()[i]).0
                == rules[i].0@ by {
                assert(rule_views(rules@)[i].0 == rules[i].0@);
            }
        }
        match theme_of("gototerm-tokyo-night", (0xC0, 0xCA, 0xF5), &rules) {
            Some(theme) => Some(Highlighter { syntaxes: default_syntaxes(), theme }),
            None => None,
        }
    }

    /// Whether there is a grammar for a file extension.
    fn knows_extension(&self, ext: &str) -> (r: bool)
        ensures
            r == extension_has_syntax(ext@),
    {
        proof {
            use_type_invariant(self);
        }
        has_extension(&self.syntaxes, ext)
    }

    fn spans_by_extension(&self, ext: &str, text: &str) -> (r: Option<Vec<Vec<RawSpan>>>)
        ensures
            raw_view(r) == extension_spans(scheme(), text_color(), ext@, text@),
            r is Some ==> covers_text(raw_lines(r->0@), text@),
    {
        proof {
            use_type_invariant(self);
        }
        color_by_extension(&self.syntaxes, &self.theme, ext, text)
    }

    fn spans_by_token(&self, token: &str, text: &str) -> (r: Option<Vec<Vec<RawSpan>>>)
        ensures
            raw_view(r) == token_spans(scheme(), text_color(), token@, text@),
            r is Some ==> covers_text(raw_lines(r->0@), text@),
    {
        proof {
            use_type_invariant(self);
        }
        color_by_token(&self.syntaxes, &self.theme, token, text)
    }
}

/// A text without the line feeds and carriage returns at its end.
pub open spec fn without_eol(s: Seq<char>) -> Seq<char>
    decreases s.len(),
{
    if s.len() > 0 && (s.last() == '\n' || s.last() == '\r') {
        without_eol(s.drop_last())
    } else {
        s
    }
}

fn strip_eol(s: &str) -> (r: String)
    ensures
        r@ == without_eol(s@),
{
    let cs = chars_of(s);
    let mut to: usize = cs.len();
    assert(cs@.subrange(0, to as int) =~= s@);
    while to > 0 && (cs[to - 1] == '\n' || cs[to - 1] == '\r')
        invariant
            to <= cs.len(),
            without_eol(cs@.subrange(0, to as int)) == without_eol(s@),
        decreases to,
    {
        assert(cs@.subrange(0, to as int).drop_last() =~= cs@.subrange(0, to - 1));
        to -= 1;
    }
    string_between(&cs, 0, to)
}

/// The contents of a coloured line.
pub open spec fn colored(line: Seq<(Color, String)>) -> Seq<(Color, Seq<char>)> {
    Seq::new(line.len(), |i: int| (line[i].0, line[i].1@))
}

/// The contents of coloured lines.
pub open spec fn colored_lines(lines: Seq<HighlightedLine>) -> Seq<Seq<(Color, Seq<char>)>> {
    Seq::new(lines.len(), |i: int| colored(lines[i]@))
}

/// The contents of coloured lines, where there are any.
pub open spec fn colored_view(r: Option<Vec<HighlightedLine>>) -> Option<
    Seq<Seq<(Color, Seq<char>)>>,
> {
    match r {
        Some(v) => Some(colored_lines(v@)),
        None => None,
    }
}

/// The parts of a line as they are shown: without the line's end, and without
/// parts that then have nothing left.
pub open spec fn shown(raw: Seq<((u8, u8, u8), Seq<char>)>) -> Seq<(Color, Seq<char>)>
    decreases raw.len(),
{
    if raw.len() == 0 {
        Seq::empty()
    } else {
        let before = shown(raw.drop_last());
        let (rgb, text) = raw.last();
        let t = without_eol(text);
        if t.len() == 0 {
            before
        } else {
            before.push((Color::Rgb { rgba: opaque_rgba(Rgb { r: rgb.0, g: rgb.1, b: rgb.2 }) }, t))
        }
    }
}

/// Lines as they are shown.
pub open spec fn shown_lines(raw: Seq<Seq<((u8, u8, u8), Seq<char>)>>) -> Seq<
    Seq<(Color, Seq<char>)>,
> {
    Seq::new(raw.len(), |i: int| shown(raw[i]))
}

/// The text of a coloured line.
pub open spec fn line_text(line: Seq<(Color, Seq<char>)>) -> Seq<char>
    decreases line.len(),
{
    if line.len() == 0 {
        Seq::empty()
    } else {
        line_text(line.drop_last()) + line.last().1
    }
}

/// Whether no part of a line is empty.
pub open spec fn no_empty_part(line: Seq<(Color, Seq<char>)>) -> bool {
    forall|k: int| 0 <= k < line.len() ==> (#[trigger] line[k]).1.len() > 0
}

/// Whether coloured lines have the text of the lines of `text`.
pub open spec fn keeps_text(colored: Seq<Seq<(Color, Seq<char>)>>, text: Seq<char>) -> bool {
    &&& colored.len() == lines(text).len()
    &&& forall|i: int|
        0 <= i < colored.len() ==> line_text(#[trigger] colored[i]) == lines(text)[i]
}

/// Whether a text has carriage returns only before line feeds.
pub open spec fn ends_lines_plainly(text: Seq<char>) -> bool {
    forall|i: int|
        0 <= i < text.len() && #[trigger] text[i] == '\r' ==> i + 1 < text.len() && text[i + 1]
            == '\n'
}

/// The first `n` characters of a line, and no others, are before its end.
spec fn ends_at(line: Seq<char>, n: int) -> bool {
    forall|j: int|
        0 <= j < line.len() ==> (j < n <==> #[trigger] line[j] != '\n' && line[j] != '\r')
}

proof fn lemma_without_eol(s: Seq<char>, n: int)
    requires
        0 <= n <= s.len(),
        ends_at(s, n),
    ensures
        without_eol(s) == s.subrange(0, n),
    decreases s.len(),
{
    if n < s.len() {
        assert(s[s.len() - 1] == s.last());
        let shorter = s.drop_last();
        assert forall|j: int| 0 <= j < shorter.len() implies (j < n <==> #[trigger] shorter[j] != '\n'
            && shorter[j] != '\r') by {
            assert(shorter[j] == s[j]);
        }
        lemma_without_eol(shorter, n);
        assert(shorter.subrange(0, n) =~= s.subrange(0, n));
    } else {
        if s.len() > 0 {
            assert(s[s.len() - 1] == s.last());
        }
        assert(s.subrange(0, n) =~= s);
    }
}

/// What is shown of a line is what comes before its end.
proof fn lemma_shown_text(raw: Seq<((u8, u8, u8), Seq<char>)>, n: int)
    requires
        0 <= n,
        ends_at(raw_text(raw), n),
    ensures
        line_text(shown(raw)) == (if n < raw_text(raw).len() {
            raw_text(raw).subrange(0, n)
        } else {
            raw_text(raw)
        }),
    decreases raw.len(),
{
    if raw.len() > 0 {
        let s = raw_text(raw);
        let before = raw_text(raw.drop_last());
        let t = raw.last().1;
        assert(s == before + t);
        assert forall|j: int| 0 <= j < before.len() implies (j < n <==> #[trigger] before[j] != '\n'
            && before[j] != '\r') by {
            assert(before[j] == s[j]);
        }
        lemma_shown_text(raw.drop_last(), n);
        let m: int = if n < before.len() {
            0
        } else if n - before.len() < t.len() {
            n - before.len()
        } else {
            t.len() as int
        };
        assert forall|j: int| 0 <= j < t.len() implies (j < m <==> #[trigger] t[j] != '\n' && t[j]
            != '\r') by {
            assert(t[j] == s[before.len() + j]);
        }
        lemma_without_eol(t, m);
        let start = shown(raw.drop_last());
        let whole = shown(raw);
        if m > 0 {
            assert(whole.drop_last() =~= start);
        }
        let joined = line_text(start) + t.subrange(0, m);
        assert(line_text(whole) =~= joined);
        if n < s.len() {
            assert(joined =~= s.subrange(0, n));
        } else {
            assert(joined =~= s);
        }
    }
}

proof fn lemma_no_empty_part(raw: Seq<((u8, u8, u8), Seq<char>)>)
    ensures
        no_empty_part(shown(raw)),
    decreases raw.len(),
{
    if raw.len() > 0 {
        lemma_no_empty_part(raw.drop_last());
    }
}

/// A line is its line with the end kept, up to that end.
proof fn lemma_line_ends(s: Seq<char>, from: int, i: int)
    requires
        ends_lines_plainly(s),
        0 <= from,
        0 <= i < lines_from(s, from).len(),
    ensures
        kept_lines_from(s, from).len() == lines_from(s, from).len(),
        ({
            let kept = kept_lines_from(s, from)[i];
            let line = lines_from(s, from)[i];
            &&& line.len() <= kept.len()
            &&& line == kept.subrange(0, line.len() as int)
            &&& ends_at(kept, line.len() as int)
        }),
    decreases s.len() - from,
{
    lemma_kept_lines(s, from);
    lemma_next_at(s, '\n', from);
    let k = next_at(s, '\n', from);
    if i == 0 {
        let kept = kept_lines_from(s, from)[0];
        let line = lines_from(s, from)[0];
        assert(line =~= kept.subrange(0, line.len() as int));
        assert forall|j: int| 0 <= j < kept.len() implies (j < line.len() <==> #[trigger] kept[j]
            != '\n' && kept[j] != '\r') by {
            assert(kept[j] == s[from + j]);
            if s[from + j] == '\r' {
                assert(s[from + j + 1] == '\n');
            }
            if j < line.len() && line.len() < k - from {
                assert(s.subrange(from, k).last() == s[k - 1]);
            }
        }
    } else {
        lemma_line_ends(s, k + 1, i - 1);
        assert(kept_lines_from(s, from)[i] == kept_lines_from(s, k + 1)[i - 1]);
        assert(lines_from(s, from)[i] == lines_from(s, k + 1)[i - 1]);
    }
}

/// Lines made of parts that cover a text have its text, where its carriage
/// returns stand before line feeds, and no empty parts.
pub proof fn lemma_shown_lines(raw: Seq<Seq<((u8, u8, u8), Seq<char>)>>, text: Seq<char>)
    requires
        covers_text(raw, text),
    ensures
        shown_lines(raw).len() == lines(text).len(),
        ends_lines_plainly(text) ==> keeps_text(shown_lines(raw), text),
        forall|i: int| 0 <= i < raw.len() ==> no_empty_part(#[trigger] shown_lines(raw)[i]),
{
    lemma_kept_lines(text, 0);
    assert forall|i: int| 0 <= i < raw.len() implies no_empty_part(#[trigger] shown_lines(raw)[i]) by {
        lemma_no_empty_part(raw[i]);
    }
    if ends_lines_plainly(text) {
        assert forall|i: int| 0 <= i < shown_lines(raw).len() implies line_text(
            #[trigger] shown_lines(raw)[i],
        ) == lines(text)[i] by {
            assert(raw_text(raw[i]) == kept_lines(text)[i]);
            lemma_line_ends(text, 0, i);
            lemma_shown_text(raw[i], lines(text)[i].len() as int);
        }
    }
}

fn shown_line(raw: &Vec<RawSpan>) -> (r: HighlightedLine)
    ensures
        colored(r@) == shown(raw_line(raw@)),
{
    let ghost all = raw_line(raw@);
    let mut out: HighlightedLine = Vec::new();
    let mut i: usize = 0;
    assert(all.subrange(0, 0) =~= Seq::empty());
    assert(colored(out@) =~= Seq::empty());
    while i < raw.len()
        invariant
            i <= raw.len(),
            all == raw_line(raw@),
            colored(out@) == shown(all.subrange(0, i as int)),
        decreases raw.len() - i,
    {
        let (red, green, blue) = raw[i].0;
        let t = strip_eol(raw[i].1.as_str());
        proof {
            assert(all.subrange(0, i + 1).drop_last() =~= all.subrange(0, i as int));
            assert(all.subrange(0, i + 1).last() == all[i as int]);
        }
        if !t.as_str().is_empty() {
            let ghost before = out@;
            let color = Color::Rgb { rgba: rgba_u32(red, green, blue) };
            out.push((color, t));
            assert(colored(out@) =~= colored(before).push((color, t@)));
        }
        i += 1;
    }
    assert(all.subrange(0, i as int) =~= all);
    out
}

/// Makes lines of parts into lines to show.
pub fn finish_lines(raw: &Vec<Vec<RawSpan>>) -> (r: Vec<HighlightedLine>)
    ensures
        colored_lines(r@) == shown_lines(raw_lines(raw@)),
        r.len() == raw.len(),
{
    let mut out: Vec<HighlightedLine> = Vec::new();
    let mut i: usize = 0;
    while i < raw.len()
        invariant
            i <= raw.len(),
            out.len() == i,
            forall|k: int| 0 <= k < i ==> colored((#[trigger] out[k])@) == shown(raw_line(raw[k]@)),
        decreases raw.len() - i,
    {
        out.push(shown_line(&raw[i]));
        i += 1;
    }
    assert(colored_lines(out@) =~= shown_lines(raw_lines(raw@)));
    out
}

/// Whether a text has too many lines to be highlighted.
pub open spec fn too_long(text: Seq<char>) -> bool {
    lines(text).len() > MAX_LINES
}

fn is_too_long(text: &str) -> (r: bool)
    ensures
        r == too_long(text@),
{
    let all = split_lines(text);
    assert(texts(all@).len() == all.len());
    all.len() > MAX_LINES
}

/// The lines to show of a text that was parted, unless it is too long.
pub open spec fn highlighted(
    text: Seq<char>,
    raw: Option<Seq<Seq<((u8, u8, u8), Seq<char>)>>>,
) -> Option<Seq<Seq<(Color, Seq<char>)>>> {
    if too_long(text) {
        None
    } else {
        match raw {
            Some(r) => Some(shown_lines(r)),
            None => None,
        }
    }
}

/// The name by which the grammar for a path is found: its extension if there
/// is a grammar for it, else its whole name.
pub open spec fn syntax_key(path: Seq<char>) -> Option<Seq<char>> {
    match file_name(path) {
        None => None,
        Some(name) => match extension(path) {
            Some(ext) => if extension_has_syntax(ext) {
                Some(ext)
            } else if extension_has_syntax(name) {
                Some(name)
            } else {
                None
            },
            None => if extension_has_syntax(name) {
                Some(name)
            } else {
                None
            },
        },
    }
}

fn find_key(h: &Highlighter, path: &str) -> (r: Option<String>)
    ensures
        opt_text(r) == syntax_key(path@),
{
    let name = match file_name_of(path) {
        Some(n) => n,
        None => {
            return None;
        },
    };
    if let Some(ext) = extension_of(path) {
        if h.knows_extension(ext.as_str()) {
            return Some(ext);
        }
    }
    if h.knows_extension(name.as_str()) {
        Some(name)
    } else {
        None
    }
}

/// The lines of a file in colours; `None` if no grammar is known for its name
/// or it is too long.
pub open spec fn source_lines(text: Seq<char>, path: Seq<char>) -> Option<
    Seq<Seq<(Color, Seq<char>)>>,
> {
    match syntax_key(path) {
        None => None,
        Some(key) => highlighted(text, extension_spans(scheme(), text_color(), key, text)),
    }
}

/// Highlights a file. The result has the lines of the text, each in parts that
/// are not empty and are together the line, where carriage returns stand only
/// before line feeds.
pub fn highlight_source(h: &Highlighter, text: &str, path: &str) -> (r: Option<Vec<HighlightedLine>>)
    ensures
        colored_view(r) == source_lines(text@, path@),
        r is Some ==> r->0@.len() == lines(text@).len(),
        r is Some && ends_lines_plainly(text@) ==> keeps_text(colored_lines(r->0@), text@),
        r is Some ==> forall|i: int|
            0 <= i < r->0@.len() ==> no_empty_part(#[trigger] colored_lines(r->0@)[i]),
{
    let key = match find_key(h, path) {
        Some(k) => k,
        None => {
            return None;
        },
    };
    if is_too_long(text) {
        return None;
    }
    match h.spans_by_extension(key.as_str(), text) {
        Some(raw) => {
            proof {
                lemma_shown_lines(raw_lines(raw@), text@);
                assert(raw_lines(raw@).len() == raw.len());
            }
            Some(finish_lines(&raw))
        },
        None => None,
    }
}

/// The lines of a code block in colours; `None` if it names no language that
/// has a grammar or is too long.
pub open spec fn block_lines(code: Seq<char>, lang: Seq<char>) -> Option<
    Seq<Seq<(Color, Seq<char>)>>,
> {
    if lang.len() == 0 {
        None
    } else {
        highlighted(code, token_spans(scheme(), text_color(), lang, code))
    }
}

/// Highlights a code block. The result has the lines of the code, each in parts
/// that are not empty and are together the line, where carriage returns stand
/// only before line feeds.
pub fn highlight_code_block(h: &Highlighter, code: &str, lang: &str) -> (r: Option<
    Vec<HighlightedLine>,
>)
    ensures
        colored_view(r) == block_lines(code@, lang@),
        r is Some ==> r->0@.len() == lines(code@).len(),
        r is Some && ends_lines_plainly(code@) ==> keeps_text(colored_lines(r->0@), code@),
        r is Some ==> forall|i: int|
            0 <= i < r->0@.len() ==> no_empty_part(#[trigger] colored_lines(r->0@)[i]),
{
    if lang.is_empty() {
        return None;
    }
    if is_too_long(code) {
        return None;
    }
    match h.spans_by_token(lang, code) {
        Some(raw) => {
            proof {
                lemma_shown_lines(raw_lines(raw@), code@);
                assert(raw_lines(raw@).len() == raw.len());
            }
            Some(finish_lines(&raw))
        },
        None => None,
    }
}

} // verus!
