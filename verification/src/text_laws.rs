//! What holds of numerals, paths, symbols and rows of text.

use crate::gt::{b64_symbol, quad};
use crate::keybindings::{
    action_of, binding_of, chosen, defaults, modifier_mask, KeyBinding, ShortcutAction, MOD_ALT,
    MOD_CTRL, MOD_SHIFT, MOD_SUPER,
};
use crate::keys::ModifiersState;
use crate::path::{
    absolute, components, file_name, is_name, joined, name_spans, parent, path_eq, spans,
};
use crate::preview::untabbed;
use crate::recent::{recorded, without};
use crate::styled::{
    laid, lay, style_attr, total_width, wrapped, wrapping, Laying, TextStyle, Wrapping,
};
use crate::terminal::Color;
use crate::text::{
    ascii_lower_char, decimal, digits_value, is_digit, lemma_next_at, lemma_next_at_is, lines,
    lines_from, next_at, trim_end, trim_start, trimmed, u32_value, white,
};
use crate::width::{abbreviated, columns_of, tail_start, width_sum};
use vstd::prelude::*;
use vstd::string::*;

verus! {

// ---------------------------------------------------------------------------
// Numerals and letters
// ---------------------------------------------------------------------------

/// A numeral stands for its number, is made of digits, and has no zero before
/// it.
pub proof fn law_numerals_stand_for_numbers(n: nat)
    ensures
        decimal(n).len() > 0,
        digits_value(decimal(n)) == n,
        forall|i: int| 0 <= i < decimal(n).len() ==> '0' <= #[trigger] decimal(n)[i] <= '9',
        n > 0 ==> decimal(n)[0] != '0',
    decreases n,
{
    if n < 10 {
        assert(decimal(n).drop_last() =~= Seq::empty());
        assert(digits_value(Seq::<char>::empty()) == 0);
    } else {
        law_numerals_stand_for_numbers(n / 10);
        assert(decimal(n).drop_last() =~= decimal(n / 10));
        let all = decimal(n);
        assert forall|i: int| 0 <= i < all.len() implies '0' <= #[trigger] all[i] <= '9' by {
            if i < all.len() - 1 {
                assert(all[i] == decimal(n / 10)[i]);
            }
        }
    }
}

/// A numeral of a small number is read as that number.
pub proof fn law_numerals_are_read_back(n: u32)
    ensures
        u32_value(decimal(n as nat)) == Some(n),
{
    law_numerals_stand_for_numbers(n as nat);
    let d = decimal(n as nat);
    assert(d[0] != '+');
    assert forall|i: int| 0 <= i < d.len() implies is_digit(#[trigger] d[i]) by {}
}

/// The small letter of a capital has the same place in the alphabet; other
/// characters stay.
pub proof fn law_capitals_become_small(c: char)
    ensures
        'A' <= c <= 'Z' ==> ascii_lower_char(c) as u32 - 'a' as u32 == c as u32 - 'A' as u32,
        !('A' <= c <= 'Z') ==> ascii_lower_char(c) == c,
        ascii_lower_char(ascii_lower_char(c)) == ascii_lower_char(c),
{
}

/// Trimming takes away the white space at both ends, and nothing else.
pub proof fn law_trimming_takes_white_space(s: Seq<char>)
    ensures
        trimmed(s).len() > 0 ==> !white(trimmed(s)[0]) && !white(trimmed(s).last()),
        exists|a: int, b: int|
            0 <= a <= b <= s.len() && #[trigger] s.subrange(a, b) == trimmed(s) && (forall|i: int|
                0 <= i < a ==> white(#[trigger] s[i])) && (forall|i: int|
                b <= i < s.len() ==> white(#[trigger] s[i])),
{
    lemma_trim_start(s);
    let t = trim_start(s);
    let a = s.len() - t.len();
    lemma_trim_end(t);
    let r = trimmed(s);
    let b = a + r.len();
    assert(s.subrange(a, b) =~= r);
    assert forall|i: int| b <= i < s.len() implies white(#[trigger] s[i]) by {
        assert(t[i - a] == s[i]);
    }
}

proof fn lemma_trim_start(s: Seq<char>)
    ensures
        trim_start(s).len() <= s.len(),
        trim_start(s) == s.subrange(s.len() - trim_start(s).len(), s.len() as int),
        forall|i: int| 0 <= i < s.len() - trim_start(s).len() ==> white(#[trigger] s[i]),
        trim_start(s).len() > 0 ==> !white(trim_start(s)[0]),
    decreases s.len(),
{
    if s.len() > 0 && white(s[0]) {
        let r = s.drop_first();
        lemma_trim_start(r);
        let t = trim_start(s);
        assert(t =~= s.subrange(s.len() - t.len(), s.len() as int));
        assert forall|i: int| 0 <= i < s.len() - t.len() implies white(#[trigger] s[i]) by {
            if i > 0 {
                assert(r[i - 1] == s[i]);
            }
        }
    } else {
        assert(s =~= s.subrange(0, s.len() as int));
    }
}

proof fn lemma_trim_end(s: Seq<char>)
    ensures
        trim_end(s).len() <= s.len(),
        trim_end(s) == s.subrange(0, trim_end(s).len() as int),
        forall|i: int| trim_end(s).len() <= i < s.len() ==> white(#[trigger] s[i]),
        trim_end(s).len() > 0 ==> !white(trim_end(s).last()),
        trim_end(s).len() > 0 && !white(s[0]) ==> !white(trim_end(s)[0]),
    decreases s.len(),
{
    if s.len() > 0 && white(s.last()) {
        let r = s.drop_last();
        lemma_trim_end(r);
        let t = trim_end(s);
        assert(t =~= s.subrange(0, t.len() as int));
        assert forall|i: int| t.len() <= i < s.len() implies white(#[trigger] s[i]) by {
            if i < r.len() {
                assert(r[i] == s[i]);
            }
        }
    } else {
        assert(s =~= s.subrange(0, s.len() as int));
    }
}

/// The alphabet of Base64: capitals, small letters, digits, and two signs.
pub open spec fn base64_alphabet() -> Seq<char> {
    "ABCDEFGHIJKLMNOPQRSTUVWXYZabcdefghijklmnopqrstuvwxyz0123456789+/"@
}

/// Six bits are the symbol with their number in the alphabet.
pub proof fn law_base64_alphabet(v: u8)
    requires
        v < 64,
    ensures
        base64_alphabet().len() == 64,
        base64_alphabet()[v as int] as u32 == b64_symbol(v) as u32,
{
    reveal_strlit("ABCDEFGHIJKLMNOPQRSTUVWXYZabcdefghijklmnopqrstuvwxyz0123456789+/");
}

/// Three bytes are four symbols of six bits each, the highest first. Where bytes
/// are missing at the end, equals signs stand for the symbols without bits.
pub proof fn law_base64_groups(a: u8, b: u8, c: u8)
    ensures
        quad(seq![a, b, c]) == seq![
            b64_symbol(a / 4),
            b64_symbol(((a % 4) * 16 + b / 16) as u8),
            b64_symbol(((b % 16) * 4 + c / 64) as u8),
            b64_symbol(c % 64),
        ],
        quad(seq![a, b]) == seq![
            b64_symbol(a / 4),
            b64_symbol(((a % 4) * 16 + b / 16) as u8),
            b64_symbol(((b % 16) * 4) as u8),
            61u8,
        ],
        quad(seq![a]) == seq![b64_symbol(a / 4), b64_symbol(((a % 4) * 16) as u8), 61u8, 61u8],
{
    assert(a >> 2 == a / 4) by (bit_vector);
    assert(((a & 3) << 4) | (b >> 4) == ((a % 4) * 16 + b / 16) as u8) by (bit_vector);
    assert(((b & 15) << 2) | (c >> 6) == ((b % 16) * 4 + c / 64) as u8) by (bit_vector);
    assert(c & 63 == c % 64) by (bit_vector);
    assert((b & 15) << 2 == ((b % 16) * 4) as u8) by (bit_vector);
    assert((a & 3) << 4 == ((a % 4) * 16) as u8) by (bit_vector);
}

// ---------------------------------------------------------------------------
// Paths
// ---------------------------------------------------------------------------

proof fn lemma_next_in_joined(d: Seq<char>, n: Seq<char>, from: int)
    requires
        0 <= from <= d.len(),
    ensures
        next_at(d.push('/') + n, '/', from) == next_at(d, '/', from),
{
    let s = d.push('/') + n;
    lemma_next_at(d, '/', from);
    let k = next_at(d, '/', from);
    assert forall|j: int| from <= j < k implies s[j] != '/' by {
        assert(s[j] == d[j]);
    }
    assert(s[k] == '/');
    lemma_next_at_is(s, '/', from, k);
}

proof fn lemma_last_name(d: Seq<char>, n: Seq<char>)
    requires
        is_name(n),
    ensures
        name_spans(d.push('/') + n, d.len() as int) == seq![
            (d.len() as int + 1, (d.len() + 1 + n.len()) as int),
        ],
{
    let s = d.push('/') + n;
    let from = d.len() as int;
    assert(s[from] == '/');
    lemma_next_at_is(s, '/', from, from);
    assert forall|j: int| from + 1 <= j < s.len() implies s[j] != '/' by {
        assert(s[j] == n[j - from - 1]);
        assert(n.contains(n[j - from - 1]));
    }
    lemma_next_at_is(s, '/', from + 1, s.len() as int);
    assert(s.subrange(from + 1, s.len() as int) =~= n);
    reveal_with_fuel(name_spans, 3);
    assert(name_spans(s, s.len() as int) =~= Seq::empty());
    assert(name_spans(s, from) =~= seq![(d.len() as int + 1, (d.len() + 1 + n.len()) as int)]);
}

proof fn lemma_spans_joined(d: Seq<char>, n: Seq<char>, from: int)
    requires
        is_name(n),
        0 <= from <= d.len(),
    ensures
        name_spans(d.push('/') + n, from) == name_spans(d, from).push(
            (d.len() as int + 1, (d.len() + 1 + n.len()) as int),
        ),
    decreases d.len() - from,
{
    let s = d.push('/') + n;
    let last = (d.len() as int + 1, (d.len() + 1 + n.len()) as int);
    if from == d.len() {
        lemma_last_name(d, n);
        assert(name_spans(d, from) =~= Seq::empty());
        assert(seq![last] =~= Seq::<(int, int)>::empty().push(last));
    } else {
        lemma_next_in_joined(d, n, from);
        lemma_next_at(d, '/', from);
        let e = next_at(d, '/', from);
        if e == from {
            lemma_spans_joined(d, n, from + 1);
        } else {
            assert(s.subrange(from, e) =~= d.subrange(from, e));
            lemma_spans_joined(d, n, e);
            assert(seq![(from, e)] + name_spans(d, e).push(last) =~= (seq![(from, e)] + name_spans(
                d,
                e,
            )).push(last));
        }
    }
}

/// A name in a directory is one component more, behind those of the directory:
/// it is the name of the file, and where the directory is written plainly it is
/// the parent.
pub proof fn law_joined_name_is_last(d: Seq<char>, n: Seq<char>)
    requires
        d.len() > 0,
        d.last() != '/',
        is_name(n),
    ensures
        joined(d, n) == d.push('/') + n,
        components(joined(d, n)) == components(d).push(n),
        n != seq!['.', '.'] ==> file_name(joined(d, n)) == Some(n),
        spans(d).len() > 0 && spans(d).last().1 == d.len() ==> parent(joined(d, n)) == Some(d),
{
    let s = d.push('/') + n;
    assert(n[0] != '/') by {
        assert(n.contains(n[0]));
    }
    assert(s[0] == d[0]);
    if absolute(d) {
        lemma_spans_joined(d, n, 1);
        assert(spans(s) =~= spans(d).push((d.len() as int + 1, (d.len() + 1 + n.len()) as int)));
    } else {
        lemma_spans_joined(d, n, 0);
    }
    let last = (d.len() as int + 1, (d.len() + 1 + n.len()) as int);
    assert(spans(s) == spans(d).push(last));
    assert(s.subrange(last.0, last.1) =~= n);
    crate::path::lemma_spans(d);
    assert forall|i: int| 0 <= i < spans(d).len() implies s.subrange(
        #[trigger] spans(d)[i].0,
        spans(d)[i].1,
    ) == d.subrange(spans(d)[i].0, spans(d)[i].1) by {
        assert(s.subrange(spans(d)[i].0, spans(d)[i].1) =~= d.subrange(
            spans(d)[i].0,
            spans(d)[i].1,
        ));
    }
    assert forall|i: int| 0 <= i < components(s).len() implies components(s)[i] == components(
        d,
    ).push(n)[i] by {
        if i < spans(d).len() {
            assert(spans(s)[i] == spans(d)[i]);
            assert(components(d)[i] == d.subrange(spans(d)[i].0, spans(d)[i].1));
        }
    }
    assert(components(s) =~= components(d).push(n));
    assert(components(s).last() == n);
    assert(n != seq!['/']) by {
        assert(seq!['/'][0] == '/');
    }
    if spans(d).len() > 0 && spans(d).last().1 == d.len() {
        assert(spans(s)[spans(s).len() - 2] == spans(d).last());
        assert(s.subrange(0, d.len() as int) =~= d);
    }
}

/// A path that begins at the root stays as it is in any directory.
pub proof fn law_absolute_paths_stay(d: Seq<char>, p: Seq<char>)
    requires
        absolute(p),
    ensures
        joined(d, p) == p,
        joined(Seq::empty(), p) == p,
{
}

/// Paths are the same where their components are, so each is the same as
/// itself, whichever way it is asked.
pub proof fn law_same_paths(a: Seq<char>, b: Seq<char>, c: Seq<char>)
    ensures
        path_eq(a, a),
        path_eq(a, b) == path_eq(b, a),
        path_eq(a, b) && path_eq(b, c) ==> path_eq(a, c),
{
}

/// A directory that is used comes first, and the others follow in their order;
/// of more than twenty the last is forgotten.
pub proof fn law_recent_directories_move_down(list: Seq<Seq<char>>, p: Seq<char>, i: int)
    requires
        forall|k: int| 0 <= k < list.len() ==> !path_eq(#[trigger] list[k], p),
        0 <= i < list.len(),
        i < 19,
    ensures
        recorded(list, p)[0] == p,
        recorded(list, p)[i + 1] == list[i],
        recorded(list, p).len() == (if list.len() < 20 {
            list.len() + 1
        } else {
            20
        }),
{
    lemma_nothing_taken(list, p);
    assert((seq![p] + list)[i + 1] == list[i]);
}

proof fn lemma_nothing_taken(list: Seq<Seq<char>>, p: Seq<char>)
    requires
        forall|k: int| 0 <= k < list.len() ==> !path_eq(#[trigger] list[k], p),
    ensures
        without(list, p) == list,
    decreases list.len(),
{
    reveal(Seq::filter);
    if list.len() > 0 {
        assert forall|k: int| 0 <= k < list.drop_last().len() implies !path_eq(
            #[trigger] list.drop_last()[k],
            p,
        ) by {
            assert(list.drop_last()[k] == list[k]);
        }
        lemma_nothing_taken(list.drop_last(), p);
        assert(!path_eq(list[list.len() - 1], p));
        assert(list.drop_last().push(list.last()) =~= list);
    }
}

// ---------------------------------------------------------------------------
// Rows of text
// ---------------------------------------------------------------------------

/// A line of characters of one column each that fits is drawn as it is: every
/// character in its column, in its colour and weight.
pub proof fn law_text_is_drawn_as_it_is(g: Seq<(char, TextStyle)>, cols: nat)
    requires
        g.len() <= cols,
        forall|i: int| 0 <= i < g.len() ==> columns_of((#[trigger] g[i]).0) == 1,
    ensures
        laid(g, cols).cells.len() == g.len(),
        !laid(g, cols).full,
        forall|i: int|
            0 <= i < g.len() ==> (#[trigger] laid(g, cols).cells[i]).ch == g[i].0 && laid(
                g,
                cols,
            ).cells[i].attr.fg == g[i].1.fg && laid(g, cols).cells[i].attr.bg == Color::Background
                && (laid(g, cols).cells[i].attr.bold > 0 <==> g[i].1.bold) && laid(g, cols).cells[i].width
                == 1,
    decreases g.len(),
{
    if g.len() > 0 {
        let before = g.drop_last();
        assert forall|i: int| 0 <= i < before.len() implies columns_of((#[trigger] before[i]).0)
            == 1 by {
            assert(before[i] == g[i]);
        }
        law_text_is_drawn_as_it_is(before, cols);
        let l = laid(before, cols);
        let r = laid(g, cols);
        assert(g[g.len() - 1] == g.last());
        assert forall|i: int| 0 <= i < g.len() implies (#[trigger] r.cells[i]).ch == g[i].0
            && r.cells[i].attr.fg == g[i].1.fg && r.cells[i].attr.bg == Color::Background && (
        r.cells[i].attr.bold > 0 <==> g[i].1.bold) && r.cells[i].width == 1 by {
            if i < before.len() {
                assert(r.cells[i] == l.cells[i]);
                assert(before[i] == g[i]);
            }
        }
    }
}

/// A wide character takes two columns, the second of which points back to it.
pub proof fn law_wide_characters_take_two_columns(l: Laying, ch: char, style: TextStyle, cols: nat)
    requires
        !l.full,
        columns_of(ch) == 2,
        l.cells.len() + 2 <= cols,
    ensures
        ({
            let r = lay(l, ch, style_attr(style), cols);
            &&& r.cells.len() == l.cells.len() + 2
            &&& r.cells[l.cells.len() as int].ch == ch
            &&& r.cells[l.cells.len() as int].width == 2
            &&& r.cells[l.cells.len() as int + 1].width == 0
            &&& r.cells[l.cells.len() as int + 1].backlink == 1
            &&& r.cells.subrange(0, l.cells.len() as int) == l.cells
        }),
{
    let r = lay(l, ch, style_attr(style), cols);
    assert(r.cells.subrange(0, l.cells.len() as int) =~= l.cells);
}

/// A text that is too wide keeps its end, behind an ellipsis.
pub proof fn law_abbreviations_keep_the_end(s: Seq<char>, max: nat)
    requires
        width_sum(s) > max,
        1 < max < usize::MAX,
    ensures
        abbreviated(s, max).len() > 0,
        abbreviated(s, max)[0] == '\u{2026}',
        ({
            let kept = abbreviated(s, max).len() - 1;
            0 <= kept <= s.len() && abbreviated(s, max).subrange(1, kept + 1) == s.subrange(
                s.len() - kept,
                s.len() as int,
            )
        }),
{
    lemma_tail_start(s, s.len() as int, 0, max - 1);
    let k = tail_start(s, s.len() as int, 0, max - 1);
    let a = abbreviated(s, max);
    assert(a.subrange(1, a.len() as int) =~= s.subrange(k, s.len() as int));
}

proof fn lemma_tail_start(s: Seq<char>, at: int, used: int, max: int)
    requires
        0 <= at <= s.len(),
    ensures
        0 <= tail_start(s, at, used, max) <= at,
    decreases at,
{
    if at > 0 && columns_of(s[at - 1]) != 0 && used + columns_of(s[at - 1]) <= max {
        lemma_tail_start(s, at - 1, used + columns_of(s[at - 1]), max);
    }
}

// ---------------------------------------------------------------------------
// Shortcuts
// ---------------------------------------------------------------------------

/// The key that an action has where the settings say nothing.
pub open spec fn usual_key(a: ShortcutAction) -> Seq<char> {
    if a == ShortcutAction::NewTab {
        "Ctrl+Shift+T"@
    } else if a == ShortcutAction::OpenLauncher {
        "Ctrl+Shift+N"@
    } else if a == ShortcutAction::ClosePane {
        "Ctrl+Shift+W"@
    } else if a == ShortcutAction::NextTab {
        "Ctrl+Tab"@
    } else if a == ShortcutAction::PrevTab {
        "Ctrl+Shift+Tab"@
    } else if a == ShortcutAction::SplitVertical {
        "Ctrl+Shift+E"@
    } else if a == ShortcutAction::SplitHorizontal {
        "Ctrl+Shift+O"@
    } else if a == ShortcutAction::ToggleSidebar {
        "Ctrl+Shift+F"@
    } else if a == ShortcutAction::FocusLeft {
        "Ctrl+Shift+H"@
    } else if a == ShortcutAction::FocusDown {
        "Ctrl+Shift+J"@
    } else if a == ShortcutAction::FocusUp {
        "Ctrl+Shift+K"@
    } else if a == ShortcutAction::FocusRight {
        "Ctrl+Shift+L"@
    } else if a == ShortcutAction::ResizeUp {
        "Ctrl+Shift+Up"@
    } else if a == ShortcutAction::ResizeDown {
        "Ctrl+Shift+Down"@
    } else if a == ShortcutAction::ResizeLeft {
        "Ctrl+Shift+Left"@
    } else if a == ShortcutAction::ResizeRight {
        "Ctrl+Shift+Right"@
    } else if a == ShortcutAction::IncreaseFont {
        "Ctrl+Equal"@
    } else if a == ShortcutAction::DecreaseFont {
        "Ctrl+Minus"@
    } else if a == ShortcutAction::Copy {
        "Ctrl+Shift+C"@
    } else if a == ShortcutAction::Paste {
        "Ctrl+Shift+V"@
    } else {
        "Ctrl+Shift+Delete"@
    }
}

/// Every action has one entry with its usual key.
pub proof fn law_every_action_has_its_usual_key(a: ShortcutAction)
    ensures
        exists|i: int|
            0 <= i < defaults().len() && (#[trigger] defaults()[i]).2 == a && defaults()[i].1
                == usual_key(a),
        forall|i: int|
            0 <= i < defaults().len() ==> (#[trigger] defaults()[i]).1 == usual_key(
                defaults()[i].2,
            ),
{
    let d = defaults();
    assert(d.len() == 21);
    assert(d[0].2 == ShortcutAction::NewTab && d[1].2 == ShortcutAction::OpenLauncher && d[2].2
        == ShortcutAction::ClosePane && d[3].2 == ShortcutAction::NextTab && d[4].2
        == ShortcutAction::PrevTab && d[5].2 == ShortcutAction::SplitVertical && d[6].2
        == ShortcutAction::SplitHorizontal && d[7].2 == ShortcutAction::ToggleSidebar && d[8].2
        == ShortcutAction::FocusLeft && d[9].2 == ShortcutAction::FocusDown && d[10].2
        == ShortcutAction::FocusUp && d[11].2 == ShortcutAction::FocusRight && d[12].2
        == ShortcutAction::ResizeUp && d[13].2 == ShortcutAction::ResizeDown && d[14].2
        == ShortcutAction::ResizeLeft && d[15].2 == ShortcutAction::ResizeRight && d[16].2
        == ShortcutAction::IncreaseFont && d[17].2 == ShortcutAction::DecreaseFont && d[18].2
        == ShortcutAction::Copy && d[19].2 == ShortcutAction::Paste && d[20].2
        == ShortcutAction::ClearHistory);
}

/// A setting for an action takes the place of its usual key.
pub proof fn law_settings_choose_keys(settings: Seq<(Seq<char>, Seq<char>)>, i: int, value: Seq<
    char,
>)
    requires
        0 <= i < defaults().len(),
        settings.len() > 0,
        settings[0] == (defaults()[i].0, value),
    ensures
        binding_of(value) is Ok ==> chosen(settings, i) == binding_of(value),
        binding_of(value) is Err ==> chosen(settings, i) is Err,
        binding_of(defaults()[i].1) is Ok ==> chosen(Seq::empty(), i) == binding_of(
            defaults()[i].1,
        ),
{
}

/// Each modifier that is held down is a bit of its own.
pub proof fn law_modifiers_are_bits(m: ModifiersState)
    ensures
        modifier_mask(m) & MOD_CTRL != 0 <==> m.control,
        modifier_mask(m) & MOD_SHIFT != 0 <==> m.shift,
        modifier_mask(m) & MOD_ALT != 0 <==> m.alt,
        modifier_mask(m) & MOD_SUPER != 0 <==> m.logo,
        modifier_mask(m) < 16,
{
    let c: u8 = if m.control {
        1
    } else {
        0
    };
    let s: u8 = if m.shift {
        2
    } else {
        0
    };
    let a: u8 = if m.alt {
        4
    } else {
        0
    };
    let l: u8 = if m.logo {
        8
    } else {
        0
    };
    let r = c | s | a | l;
    assert((r & 1 != 0 <==> c == 1) && (r & 2 != 0 <==> s == 2) && (r & 4 != 0 <==> a == 4) && (r & 8
        != 0 <==> l == 8) && r < 16) by (bit_vector)
        requires
            r == c | s | a | l,
            c == 0 || c == 1,
            s == 0 || s == 2,
            a == 0 || a == 4,
            l == 0 || l == 8,
    ;
}

/// Other modifiers make another combination: a shortcut answers only to its
/// own.
pub proof fn law_shortcuts_need_their_modifiers(
    table: Seq<(KeyBinding, ShortcutAction)>,
    b: KeyBinding,
)
    ensures
        action_of(table, b) is Some ==> exists|k: int|
            0 <= k < table.len() && (#[trigger] table[k]).0 == b && Some(table[k].1) == action_of(
                table,
                b,
            ),
    decreases table.len(),
{
    if table.len() > 0 && table[0].0 != b {
        let rest = table.drop_first();
        law_shortcuts_need_their_modifiers(rest, b);
        if action_of(table, b) is Some {
            let k = choose|k: int|
                0 <= k < rest.len() && (#[trigger] rest[k]).0 == b && Some(rest[k].1) == action_of(
                    rest,
                    b,
                );
            assert(table[k + 1] == rest[k]);
        }
    }
}

/// A path in a directory stands behind it, with one slash between them.
pub proof fn law_joined_paths_have_one_slash(d: Seq<char>, p: Seq<char>)
    requires
        !absolute(p),
    ensures
        d.len() > 0 && d.last() == '/' ==> joined(d, p) == d + p,
        d.len() > 0 && d.last() != '/' ==> joined(d, p) == d + seq!['/'] + p,
        joined(Seq::empty(), p) == p,
{
    assert(d.push('/') + p =~= d + seq!['/'] + p);
    assert(Seq::<char>::empty() + p =~= p);
}

// ---------------------------------------------------------------------------
// Lines and words
// ---------------------------------------------------------------------------

proof fn lemma_next_behind(a: Seq<char>, b: Seq<char>, c: char, from: int)
    requires
        0 <= from <= b.len(),
    ensures
        next_at(a + b, c, a.len() + from) == a.len() + next_at(b, c, from),
    decreases b.len() - from,
{
    if from < b.len() {
        assert((a + b)[a.len() + from] == b[from]);
        if b[from] != c {
            lemma_next_behind(a, b, c, from + 1);
        }
    }
}

proof fn lemma_lines_behind(a: Seq<char>, b: Seq<char>, from: int)
    requires
        0 <= from <= b.len(),
    ensures
        lines_from(a + b, a.len() + from) == lines_from(b, from),
    decreases b.len() - from,
{
    let s = a + b;
    if from < b.len() {
        lemma_next_behind(a, b, '\n', from);
        lemma_next_at(b, '\n', from);
        let k = next_at(b, '\n', from);
        if k < b.len() {
            assert(s.subrange(a.len() + from, a.len() + k) =~= b.subrange(from, k));
            lemma_lines_behind(a, b, k + 1);
        } else {
            assert(s.subrange(a.len() + from, s.len() as int) =~= b.subrange(
                from,
                b.len() as int,
            ));
        }
    }
}

/// A line ends at a line feed, with or without a carriage return before it, and
/// the next begins behind it. A text without line feeds is one line, and no text
/// is none.
pub proof fn law_lines_end_at_line_feeds(line: Seq<char>, rest: Seq<char>)
    requires
        forall|i: int| 0 <= i < line.len() ==> #[trigger] line[i] != '\n' && line[i] != '\r',
    ensures
        lines(line + seq!['\n'] + rest) == seq![line] + lines(rest),
        lines(line + seq!['\r', '\n'] + rest) == seq![line] + lines(rest),
        line.len() > 0 ==> lines(line) == seq![line],
        lines(Seq::empty()).len() == 0,
{
    let a = line + seq!['\n'];
    let s = a + rest;
    let n = line.len() as int;
    assert forall|j: int| 0 <= j < n implies s[j] != '\n' by {
        assert(s[j] == line[j]);
    }
    lemma_next_at_is(s, '\n', 0, n);
    assert(s.subrange(0, n) =~= line);
    lemma_lines_behind(a, rest, 0);
    let b = line + seq!['\r', '\n'];
    let t = b + rest;
    assert forall|j: int| 0 <= j < n + 1 implies t[j] != '\n' by {
        if j < n {
            assert(t[j] == line[j]);
        }
    }
    lemma_next_at_is(t, '\n', 0, n + 1);
    assert(t.subrange(0, n + 1).drop_last() =~= line);
    assert(t.subrange(0, n + 1).last() == '\r');
    lemma_lines_behind(b, rest, 0);
    if n > 0 {
        assert forall|j: int| 0 <= j < n implies line[j] != '\n' by {}
        lemma_next_at_is(line, '\n', 0, n);
        assert(line.subrange(0, n) =~= line);
    }
}

/// A tab is four spaces; every other character stays.
pub proof fn law_tabs_are_four_spaces(s: Seq<char>, c: char)
    ensures
        untabbed(s.push('\t')) == untabbed(s) + seq![' ', ' ', ' ', ' '],
        c != '\t' ==> untabbed(s.push(c)) == untabbed(s).push(c),
        untabbed(Seq::empty()).len() == 0,
{
    assert(s.push('\t').drop_last() =~= s);
    assert(s.push(c).drop_last() =~= s);
}

/// A row is broken only where the next character does not fit in it.
pub proof fn law_rows_are_filled<T>(items: Seq<T>, width: spec_fn(T) -> nat, cols: nat, i: int)
    requires
        0 <= i,
        i + 1 < wrapped(items, width, cols).len(),
    ensures
        wrapped(items, width, cols)[i + 1].len() > 0,
        total_width(wrapped(items, width, cols)[i], width) + width(
            wrapped(items, width, cols)[i + 1][0],
        ) > cols,
{
    lemma_filled(items, width, cols);
    let w = wrapping(items, width, cols);
    assert(rows_filled(w, width, cols, i));
}

/// The row at `i` has no room for the first item of the next.
pub open spec fn rows_filled<T>(w: Wrapping<T>, width: spec_fn(T) -> nat, cols: nat, i: int) -> bool {
    let next = if i + 1 < w.done.len() {
        w.done[i + 1]
    } else {
        w.row
    };
    next.len() > 0 && total_width(w.done[i], width) + width(next[0]) > cols
}

proof fn lemma_filled<T>(items: Seq<T>, width: spec_fn(T) -> nat, cols: nat)
    ensures
        ({
            let w = wrapping(items, width, cols);
            &&& w.used == total_width(w.row, width)
            &&& w.done.len() > 0 ==> w.row.len() > 0
            &&& w.row.len() > 0 ==> w.used > 0
            &&& forall|i: int| 0 <= i < w.done.len() ==> #[trigger] rows_filled(w, width, cols, i)
        }),
    decreases items.len(),
{
    if items.len() > 0 {
        lemma_filled(items.drop_last(), width, cols);
        let b = wrapping(items.drop_last(), width, cols);
        let w = wrapping(items, width, cols);
        let x = items.last();
        assert(b.row.push(x).drop_last() =~= b.row);
        assert(seq![x].drop_last() =~= Seq::<T>::empty());
        assert(total_width(Seq::<T>::empty(), width) == 0);
        assert forall|i: int| 0 <= i < w.done.len() implies #[trigger] rows_filled(
            w,
            width,
            cols,
            i,
        ) by {
            if i < b.done.len() {
                assert(rows_filled(b, width, cols, i));
            }
        }
    }
}

/// The name under which the key of an action is set.
pub open spec fn setting_name(a: ShortcutAction) -> Seq<char> {
    if a == ShortcutAction::NewTab {
        "new_tab"@
    } else if a == ShortcutAction::OpenLauncher {
        "open_launcher"@
    } else if a == ShortcutAction::ClosePane {
        "close_pane"@
    } else if a == ShortcutAction::NextTab {
        "next_tab"@
    } else if a == ShortcutAction::PrevTab {
        "prev_tab"@
    } else if a == ShortcutAction::SplitVertical {
        "split_vertical"@
    } else if a == ShortcutAction::SplitHorizontal {
        "split_horizontal"@
    } else if a == ShortcutAction::ToggleSidebar {
        "toggle_sidebar"@
    } else if a == ShortcutAction::FocusLeft {
        "focus_left"@
    } else if a == ShortcutAction::FocusDown {
        "focus_down"@
    } else if a == ShortcutAction::FocusUp {
        "focus_up"@
    } else if a == ShortcutAction::FocusRight {
        "focus_right"@
    } else if a == ShortcutAction::ResizeUp {
        "resize_up"@
    } else if a == ShortcutAction::ResizeDown {
        "resize_down"@
    } else if a == ShortcutAction::ResizeLeft {
        "resize_left"@
    } else if a == ShortcutAction::ResizeRight {
        "resize_right"@
    } else if a == ShortcutAction::IncreaseFont {
        "increase_font"@
    } else if a == ShortcutAction::DecreaseFont {
        "decrease_font"@
    } else if a == ShortcutAction::Copy {
        "copy"@
    } else if a == ShortcutAction::Paste {
        "paste"@
    } else {
        "clear_history"@
    }
}

/// Every action is set under its own name.
pub proof fn law_actions_are_set_by_name()
    ensures
        forall|i: int|
            0 <= i < defaults().len() ==> (#[trigger] defaults()[i]).0 == setting_name(
                defaults()[i].2,
            ),
{
}

} // verus!
