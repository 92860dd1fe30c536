//! Which key combination does what.

use crate::keys::{key_label, key_name, key_named, nameable, parse_key_name, KeyCode, ModifiersState};
use crate::text::{
    ascii_lower, join_texts, join_with, pieces, same_text, split_at_char, texts, to_ascii_lower,
    trim, trimmed, white,
};
use vstd::prelude::*;
use vstd::string::*;

verus! {

pub const MOD_CTRL: u8 = 1;

pub const MOD_SHIFT: u8 = 2;

pub const MOD_ALT: u8 = 4;

pub const MOD_SUPER: u8 = 8;

/// What a key combination can do.
#[derive(Debug, Clone, Copy, PartialEq, Eq, Structural)]
pub enum ShortcutAction {
    NewTab,
    OpenLauncher,
    ClosePane,
    NextTab,
    PrevTab,
    SplitVertical,
    SplitHorizontal,
    ToggleSidebar,
    FocusLeft,
    FocusDown,
    FocusUp,
    FocusRight,
    ResizeUp,
    ResizeDown,
    ResizeLeft,
    ResizeRight,
    IncreaseFont,
    DecreaseFont,
    Copy,
    Paste,
    ClearHistory,
}

/// A key with its modifiers, one bit for each.
#[derive(Debug, Clone, Copy, PartialEq, Eq, Structural)]
pub struct KeyBinding {
    pub modifiers: u8,
    pub key: KeyCode,
}

/// The bits of the modifiers held down.
pub open spec fn modifier_mask(m: ModifiersState) -> u8 {
    (if m.control { MOD_CTRL } else { 0 }) | (if m.shift { MOD_SHIFT } else { 0 }) | (if m.alt {
        MOD_ALT
    } else {
        0
    }) | (if m.logo { MOD_SUPER } else { 0 })
}

/// The parts of a combination's name: its modifiers, then its key.
pub open spec fn label_parts(b: KeyBinding) -> Seq<Seq<char>> {
    let none = Seq::<Seq<char>>::empty();
    (if b.modifiers & MOD_CTRL != 0 { seq!["Ctrl"@] } else { none }) + (if b.modifiers & MOD_SHIFT
        != 0 { seq!["Shift"@] } else { none }) + (if b.modifiers & MOD_ALT != 0 {
        seq!["Alt"@]
    } else {
        none
    }) + (if b.modifiers & MOD_SUPER != 0 { seq!["Super"@] } else { none }) + seq![
        key_label(b.key),
    ]
}

/// The name of a combination, such as `Ctrl+Shift+T`.
pub open spec fn label(b: KeyBinding) -> Seq<char> {
    join_with(label_parts(b), '+')
}

impl KeyBinding {
    /// The combination of a key press.
    pub fn from_event(modifiers: ModifiersState, key: KeyCode) -> (r: Self)
        ensures
            r == (KeyBinding { modifiers: modifier_mask(modifiers), key }),
    {
        let ctrl: u8 = if modifiers.control { MOD_CTRL } else { 0 };
        let shift: u8 = if modifiers.shift { MOD_SHIFT } else { 0 };
        let alt: u8 = if modifiers.alt { MOD_ALT } else { 0 };
        let logo: u8 = if modifiers.logo { MOD_SUPER } else { 0 };
        KeyBinding { modifiers: ctrl | shift | alt | logo, key }
    }

    /// The name of the combination.
    pub fn display(self) -> (r: String)
        ensures
            r@ == label(self),
    {
        let mut parts: Vec<String> = Vec::new();
        if self.modifiers & MOD_CTRL != 0 {
            parts.push("Ctrl".to_owned());
        }
        if self.modifiers & MOD_SHIFT != 0 {
            parts.push("Shift".to_owned());
        }
        if self.modifiers & MOD_ALT != 0 {
            parts.push("Alt".to_owned());
        }
        if self.modifiers & MOD_SUPER != 0 {
            parts.push("Super".to_owned());
        }
        parts.push(key_name(self.key).to_owned());
        assert(texts(parts@) =~= label_parts(self));
        join_texts(&parts, '+')
    }
}

/// The bit of the modifier a name in small letters names.
pub open spec fn modifier_bit(n: Seq<char>) -> Option<u8> {
    if n == "ctrl"@ || n == "control"@ {
        Some(MOD_CTRL)
    } else if n == "shift"@ {
        Some(MOD_SHIFT)
    } else if n == "alt"@ {
        Some(MOD_ALT)
    } else if n == "super"@ {
        Some(MOD_SUPER)
    } else {
        None
    }
}

fn find_modifier(token: &str) -> (r: Option<u8>)
    ensures
        r == modifier_bit(ascii_lower(token@)),
{
    let low = to_ascii_lower(token);
    let n = low.as_str();
    if same_text(n, "ctrl") || same_text(n, "control") {
        Some(MOD_CTRL)
    } else if same_text(n, "shift") {
        Some(MOD_SHIFT)
    } else if same_text(n, "alt") {
        Some(MOD_ALT)
    } else if same_text(n, "super") {
        Some(MOD_SUPER)
    } else {
        None
    }
}

/// The bits that modifier names stand for together, or what is wrong with the
/// first bad one: it is unknown, or named before.
pub open spec fn modifiers_of(tokens: Seq<Seq<char>>) -> Result<u8, Seq<char>>
    decreases tokens.len(),
{
    if tokens.len() == 0 {
        Ok(0)
    } else {
        let t = tokens.last();
        match modifiers_of(tokens.drop_last()) {
            Err(e) => Err(e),
            Ok(m) => match modifier_bit(ascii_lower(t)) {
                None => Err("不明な修飾キー名 \""@ + t + "\""@),
                Some(b) => if m & b != 0 {
                    Err("修飾キー \""@ + t + "\" が重複しています"@)
                } else {
                    Ok(m | b)
                },
            },
        }
    }
}

/// The message about a bad setting.
pub open spec fn invalid_text(action: Seq<char>, value: Seq<char>, reason: Seq<char>) -> Seq<char> {
    "keybindings."@ + action + " = \""@ + value + "\" は不正です: "@ + reason
}

fn invalid(action_name: &str, value: &str, reason: &str) -> (r: String)
    ensures
        r@ == invalid_text(action_name@, value@, reason@),
{
    let mut out = "keybindings.".to_owned();
    out.append(action_name);
    out.append(" = \"");
    out.append(value);
    out.append("\" は不正です: ");
    out.append(reason);
    out
}

/// `text` between two texts.
fn between(before: &str, text: &str, after: &str) -> (r: String)
    ensures
        r@ == before@ + text@ + after@,
{
    let mut out = before.to_owned();
    out.append(text);
    out.append(after);
    out
}

/// The tokens of a setting: what stands between plus signs, without the white
/// space around it.
pub open spec fn tokens_of(value: Seq<char>) -> Seq<Seq<char>> {
    let p = pieces(value, '+');
    Seq::new(p.len(), |i: int| trimmed(p[i]))
}

pub open spec fn has_empty(tokens: Seq<Seq<char>>) -> bool {
    exists|i: int| 0 <= i < tokens.len() && (#[trigger] tokens[i]).len() == 0
}

/// What is wrong with a setting, or the combination it stands for: modifiers,
/// at least one, then a key.
pub open spec fn binding_of(value: Seq<char>) -> Result<KeyBinding, Seq<char>> {
    let tokens = tokens_of(value);
    if has_empty(tokens) {
        Err("空のキー指定です"@)
    } else {
        match modifiers_of(tokens.drop_last()) {
            Err(e) => Err(e),
            Ok(m) => if m == 0 {
                Err("修飾キー（Ctrl/Shift/Alt/Super）が最低1つ必要です"@)
            } else {
                match key_named(ascii_lower(tokens.last())) {
                    None => Err("不明なキー名 \""@ + tokens.last() + "\""@),
                    Some(key) => Ok(KeyBinding { modifiers: m, key }),
                }
            },
        }
    }
}

/// The contents of a result with a message.
pub open spec fn message_view<T>(r: Result<T, String>) -> Result<T, Seq<char>> {
    match r {
        Ok(v) => Ok(v),
        Err(e) => Err(e@),
    }
}

/// Once a modifier is bad, so is every longer list, for the same reason.
proof fn lemma_bad_modifier(tokens: Seq<Seq<char>>, k: int)
    requires
        0 <= k <= tokens.len(),
        modifiers_of(tokens.subrange(0, k)) is Err,
    ensures
        modifiers_of(tokens) == modifiers_of(tokens.subrange(0, k)),
    decreases tokens.len() - k,
{
    if k < tokens.len() {
        assert(tokens.subrange(0, k + 1).drop_last() =~= tokens.subrange(0, k));
        lemma_bad_modifier(tokens, k + 1);
    } else {
        assert(tokens.subrange(0, k) =~= tokens);
    }
}

/// Reads the combination set for an action.
pub fn parse_keybinding(action_name: &str, value: &str) -> (r: Result<KeyBinding, String>)
    ensures
        message_view(r) == (match binding_of(value@) {
            Ok(b) => Ok(b),
            Err(reason) => Err(invalid_text(action_name@, value@, reason)),
        }),
{
    let raw = split_at_char(value, '+');
    let ghost tv = tokens_of(value@);
    assert(texts(raw@).len() == raw.len());
    let n = raw.len();
    let mut tokens: Vec<String> = Vec::new();
    let mut i: usize = 0;
    while i < n
        invariant
            i <= n,
            n == raw.len(),
            texts(raw@) == pieces(value@, '+'),
            tv == tokens_of(value@),
            tv.len() == n,
            texts(tokens@) == tv.subrange(0, i as int),
            forall|k: int| 0 <= k < i ==> (#[trigger] tv[k]).len() > 0,
        decreases n - i,
    {
        let t = trim(raw[i].as_str());
        assert(texts(raw@)[i as int] == raw[i as int]@);
        assert(tv[i as int] == t@);
        if t.as_str().is_empty() {
            return Err(invalid(action_name, value, "空のキー指定です"));
        }
        let ghost before = tokens@;
        tokens.push(t);
        assert(texts(tokens@) =~= texts(before).push(t@));
        assert(tv.subrange(0, i + 1) =~= tv.subrange(0, i as int).push(t@));
        i += 1;
    }
    assert(tv.subrange(0, n as int) =~= tv);
    assert(texts(tokens@).len() == tokens.len());
    let ghost mods = tv.drop_last();
    let mut modifiers: u8 = 0;
    let mut k: usize = 0;
    assert(mods.subrange(0, 0) =~= Seq::empty());
    while k < n - 1
        invariant
            n >= 1,
            k <= n - 1,
            n == tokens.len(),
            texts(tokens@) == tv,
            tv == tokens_of(value@),
            mods == tv.drop_last(),
            !has_empty(tv),
            modifiers_of(mods.subrange(0, k as int)) == Ok::<u8, Seq<char>>(modifiers),
        decreases n - k,
    {
        let token = tokens[k].as_str();
        proof {
            assert(tv[k as int] == token@);
            assert(mods.subrange(0, k + 1).drop_last() =~= mods.subrange(0, k as int));
            assert(mods.subrange(0, k + 1).last() == token@);
        }
        let bit = match find_modifier(token) {
            Some(b) => b,
            None => {
                proof {
                    lemma_bad_modifier(mods, k + 1);
                }
                let reason = between("不明な修飾キー名 \"", token, "\"");
                return Err(invalid(action_name, value, reason.as_str()));
            },
        };
        if modifiers & bit != 0 {
            proof {
                lemma_bad_modifier(mods, k + 1);
            }
            let reason = between("修飾キー \"", token, "\" が重複しています");
            return Err(invalid(action_name, value, reason.as_str()));
        }
        modifiers = modifiers | bit;
        k += 1;
    }
    assert(mods.subrange(0, k as int) =~= mods);
    if modifiers == 0 {
        return Err(
            invalid(action_name, value, "修飾キー（Ctrl/Shift/Alt/Super）が最低1つ必要です"),
        );
    }
    let key_token = tokens[n - 1].as_str();
    assert(tv.last() == key_token@);
    match parse_key_name(key_token) {
        Some(key) => Ok(KeyBinding { modifiers, key }),
        None => {
            let reason = between("不明なキー名 \"", key_token, "\"");
            Err(invalid(action_name, value, reason.as_str()))
        },
    }
}

/// The actions, each with the name of its setting and its default.
pub open spec fn defaults() -> Seq<(Seq<char>, Seq<char>, ShortcutAction)> {
    seq![
        ("new_tab"@, "Ctrl+Shift+T"@, ShortcutAction::NewTab),
        ("open_launcher"@, "Ctrl+Shift+N"@, ShortcutAction::OpenLauncher),
        ("close_pane"@, "Ctrl+Shift+W"@, ShortcutAction::ClosePane),
        ("next_tab"@, "Ctrl+Tab"@, ShortcutAction::NextTab),
        ("prev_tab"@, "Ctrl+Shift+Tab"@, ShortcutAction::PrevTab),
        ("split_vertical"@, "Ctrl+Shift+E"@, ShortcutAction::SplitVertical),
        ("split_horizontal"@, "Ctrl+Shift+O"@, ShortcutAction::SplitHorizontal),
        ("toggle_sidebar"@, "Ctrl+Shift+F"@, ShortcutAction::ToggleSidebar),
        ("focus_left"@, "Ctrl+Shift+H"@, ShortcutAction::FocusLeft),
        ("focus_down"@, "Ctrl+Shift+J"@, ShortcutAction::FocusDown),
        ("focus_up"@, "Ctrl+Shift+K"@, ShortcutAction::FocusUp),
        ("focus_right"@, "Ctrl+Shift+L"@, ShortcutAction::FocusRight),
        ("resize_up"@, "Ctrl+Shift+Up"@, ShortcutAction::ResizeUp),
        ("resize_down"@, "Ctrl+Shift+Down"@, ShortcutAction::ResizeDown),
        ("resize_left"@, "Ctrl+Shift+Left"@, ShortcutAction::ResizeLeft),
        ("resize_right"@, "Ctrl+Shift+Right"@, ShortcutAction::ResizeRight),
        ("increase_font"@, "Ctrl+Equal"@, ShortcutAction::IncreaseFont),
        ("decrease_font"@, "Ctrl+Minus"@, ShortcutAction::DecreaseFont),
        ("copy"@, "Ctrl+Shift+C"@, ShortcutAction::Copy),
        ("paste"@, "Ctrl+Shift+V"@, ShortcutAction::Paste),
        ("clear_history"@, "Ctrl+Shift+Delete"@, ShortcutAction::ClearHistory),
    ]
}

/// The contents of a table of actions.
pub open spec fn table_view(v: Seq<(&'static str, &'static str, ShortcutAction)>) -> Seq<
    (Seq<char>, Seq<char>, ShortcutAction),
> {
    Seq::new(v.len(), |i: int| (v[i].0@, v[i].1@, v[i].2))
}

/// The actions, each with the name of its setting and its default.
pub fn default_bindings() -> (r: Vec<(&'static str, &'static str, ShortcutAction)>)
    ensures
        table_view(r@) == defaults(),
{
    let mut v: Vec<(&'static str, &'static str, ShortcutAction)> = Vec::new();
    v.push(("new_tab", "Ctrl+Shift+T", ShortcutAction::NewTab));
    v.push(("open_launcher", "Ctrl+Shift+N", ShortcutAction::OpenLauncher));
    v.push(("close_pane", "Ctrl+Shift+W", ShortcutAction::ClosePane));
    v.push(("next_tab", "Ctrl+Tab", ShortcutAction::NextTab));
    v.push(("prev_tab", "Ctrl+Shift+Tab", ShortcutAction::PrevTab));
    v.push(("split_vertical", "Ctrl+Shift+E", ShortcutAction::SplitVertical));
    v.push(("split_horizontal", "Ctrl+Shift+O", ShortcutAction::SplitHorizontal));
    v.push(("toggle_sidebar", "Ctrl+Shift+F", ShortcutAction::ToggleSidebar));
    v.push(("focus_left", "Ctrl+Shift+H", ShortcutAction::FocusLeft));
    v.push(("focus_down", "Ctrl+Shift+J", ShortcutAction::FocusDown));
    v.push(("focus_up", "Ctrl+Shift+K", ShortcutAction::FocusUp));
    v.push(("focus_right", "Ctrl+Shift+L", ShortcutAction::FocusRight));
    v.push(("resize_up", "Ctrl+Shift+Up", ShortcutAction::ResizeUp));
    v.push(("resize_down", "Ctrl+Shift+Down", ShortcutAction::ResizeDown));
    v.push(("resize_left", "Ctrl+Shift+Left", ShortcutAction::ResizeLeft));
    v.push(("resize_right", "Ctrl+Shift+Right", ShortcutAction::ResizeRight));
    v.push(("increase_font", "Ctrl+Equal", ShortcutAction::IncreaseFont));
    v.push(("decrease_font", "Ctrl+Minus", ShortcutAction::DecreaseFont));
    v.push(("copy", "Ctrl+Shift+C", ShortcutAction::Copy));
    v.push(("paste", "Ctrl+Shift+V", ShortcutAction::Paste));
    v.push(("clear_history", "Ctrl+Shift+Delete", ShortcutAction::ClearHistory));
    assert(table_view(v@) =~= defaults());
    v
}

// ---------------------------------------------------------------------------
// The whole table
// ---------------------------------------------------------------------------

/// The contents of settings.
pub open spec fn settings_view(v: Seq<(String, String)>) -> Seq<(Seq<char>, Seq<char>)> {
    Seq::new(v.len(), |i: int| (v[i].0@, v[i].1@))
}

/// The value set under a name, if any.
pub open spec fn setting(settings: Seq<(Seq<char>, Seq<char>)>, name: Seq<char>) -> Option<Seq<char>>
    decreases settings.len(),
{
    if settings.len() == 0 {
        None
    } else if settings[0].0 == name {
        Some(settings[0].1)
    } else {
        setting(settings.drop_first(), name)
    }
}

/// The combination for the action with number `i`: the one set for it, else
/// its default.
pub open spec fn chosen(settings: Seq<(Seq<char>, Seq<char>)>, i: int) -> Result<
    KeyBinding,
    Seq<char>,
> {
    let (name, default, action) = defaults()[i];
    let value = match setting(settings, name) {
        Some(v) => v,
        None => default,
    };
    match binding_of(value) {
        Ok(b) => Ok(b),
        Err(reason) => Err(invalid_text(name, value, reason)),
    }
}

/// Whether an action has this name.
pub open spec fn known_action(name: Seq<char>) -> bool {
    exists|i: int| 0 <= i < defaults().len() && (#[trigger] defaults()[i]).0 == name
}

/// The message about a name that is no action's.
pub open spec fn unknown_text(name: Seq<char>) -> Seq<char> {
    "keybindings."@ + name + " は不明なアクション名です"@
}

/// The message about a combination with two actions.
pub open spec fn duplicate_text(b: KeyBinding, first: Seq<char>, second: Seq<char>) -> Seq<char> {
    "キーバインドが重複しています: \""@ + label(b) + "\" が "@ + first + " と "@ + second
        + " の両方に割り当てられています"@
}

/// Whether `r` is the table that the settings make, or the message about what
/// is wrong with them. What is looked at first decides: a value that is no
/// combination, in the order of the actions; then a name that is no action's;
/// then two actions with one combination.
pub open spec fn table_for(
    settings: Seq<(Seq<char>, Seq<char>)>,
    r: Result<Seq<(KeyBinding, ShortcutAction)>, Seq<char>>,
) -> bool {
    let n = defaults().len();
    if exists|i: int| 0 <= i < n && #[trigger] chosen(settings, i) is Err {
        exists|i: int|
            0 <= i < n && r == Err::<Seq<(KeyBinding, ShortcutAction)>, Seq<char>>(
                (#[trigger] chosen(settings, i))->Err_0,
            ) && chosen(settings, i) is Err && forall|j: int|
                0 <= j < i ==> #[trigger] chosen(settings, j) is Ok
    } else if exists|i: int| 0 <= i < settings.len() && !known_action((#[trigger] settings[i]).0) {
        exists|i: int|
            0 <= i < settings.len() && !known_action((#[trigger] settings[i]).0) && r == Err::<
                Seq<(KeyBinding, ShortcutAction)>,
                Seq<char>,
            >(unknown_text(settings[i].0)) && forall|j: int|
                0 <= j < i ==> known_action((#[trigger] settings[j]).0)
    } else if exists|i: int, j: int|
        0 <= i < j < n && #[trigger] chosen(settings, i) == #[trigger] chosen(settings, j) {
        exists|i: int, j: int|
            0 <= i < j < n && #[trigger] chosen(settings, i) == #[trigger] chosen(settings, j) && r
                == Err::<Seq<(KeyBinding, ShortcutAction)>, Seq<char>>(
                duplicate_text(chosen(settings, j)->Ok_0, defaults()[i].0, defaults()[j].0),
            ) && forall|k: int, l: int|
                0 <= k < l < j ==> #[trigger] chosen(settings, k) != #[trigger] chosen(settings, l)
    } else {
        r == Ok::<Seq<(KeyBinding, ShortcutAction)>, Seq<char>>(
            Seq::new(n, |i: int| (chosen(settings, i)->Ok_0, defaults()[i].2)),
        )
    }
}

/// The value set under a name.
fn find_setting(settings: &Vec<(String, String)>, name: &str) -> (r: Option<String>)
    ensures
        (match r {
            Some(v) => Some(v@),
            None => None,
        }) == setting(settings_view(settings@), name@),
{
    let ghost all = settings_view(settings@);
    let mut i: usize = 0;
    assert(all.subrange(0, all.len() as int) =~= all);
    while i < settings.len()
        invariant
            i <= settings.len(),
            all == settings_view(settings@),
            setting(all.subrange(i as int, all.len() as int), name@) == setting(all, name@),
        decreases settings.len() - i,
    {
        proof {
            let s = all.subrange(i as int, all.len() as int);
            assert(s[0] == all[i as int]);
            assert(s.drop_first() =~= all.subrange(i + 1, all.len() as int));
        }
        if same_text(settings[i].0.as_str(), name) {
            return Some(settings[i].1.clone());
        }
        i += 1;
    }
    None
}

/// Whether an action has this name.
fn is_action(table: &Vec<(&'static str, &'static str, ShortcutAction)>, name: &str) -> (r: bool)
    requires
        table_view(table@) == defaults(),
    ensures
        r == known_action(name@),
{
    let mut i: usize = 0;
    while i < table.len()
        invariant
            i <= table.len(),
            table_view(table@) == defaults(),
            forall|k: int| 0 <= k < i ==> (#[trigger] defaults()[k]).0 != name@,
        decreases table.len() - i,
    {
        assert(table_view(table@)[i as int].0 == table[i as int].0@);
        if same_text(table[i].0, name) {
            assert(defaults()[i as int].0 == name@);
            return true;
        }
        i += 1;
    }
    assert(table_view(table@).len() == table.len());
    false
}

/// Makes the table of key combinations from the settings.
pub fn build(settings: &Vec<(String, String)>) -> (r: Result<Vec<(KeyBinding, ShortcutAction)>, String>)
    ensures
        table_for(
            settings_view(settings@),
            match r {
                Ok(v) => Ok(v@),
                Err(e) => Err(e@),
            },
        ),
        r is Ok ==> distinct_keys(r->Ok_0@),
{
    let table = default_bindings();
    let ghost sv = settings_view(settings@);
    let ghost n = defaults().len();
    assert(table_view(table@).len() == table.len());
    let mut out: Vec<(KeyBinding, ShortcutAction)> = Vec::new();
    let mut i: usize = 0;
    while i < table.len()
        invariant
            i <= table.len(),
            table.len() == n,
            n == defaults().len(),
            table_view(table@) == defaults(),
            sv == settings_view(settings@),
            out.len() == i,
            forall|k: int|
                0 <= k < i ==> #[trigger] chosen(sv, k) == Ok::<KeyBinding, Seq<char>>(out[k].0)
                    && out[k].1 == defaults()[k].2,
        decreases table.len() - i,
    {
        let (name, default, action) = table[i];
        assert(table_view(table@)[i as int] == (name@, default@, action));
        let parsed = match find_setting(settings, name) {
            Some(v) => parse_keybinding(name, v.as_str()),
            None => parse_keybinding(name, default),
        };
        match parsed {
            Ok(b) => {
                assert(chosen(sv, i as int) == Ok::<KeyBinding, Seq<char>>(b));
                out.push((b, action));
            },
            Err(e) => {
                assert(chosen(sv, i as int) == Err::<KeyBinding, Seq<char>>(e@));
                return Err(e);
            },
        }
        i += 1;
    }
    let mut k: usize = 0;
    while k < settings.len()
        invariant
            k <= settings.len(),
            table_view(table@) == defaults(),
            sv == settings_view(settings@),
            n == defaults().len(),
            forall|j: int| 0 <= j < n ==> #[trigger] chosen(sv, j) is Ok,
            forall|j: int| 0 <= j < k ==> known_action((#[trigger] sv[j]).0),
        decreases settings.len() - k,
    {
        assert(sv[k as int].0 == settings[k as int].0@);
        let name = settings[k].0.as_str();
        if !is_action(&table, name) {
            return Err(between("keybindings.", name, " は不明なアクション名です"));
        }
        k += 1;
    }
    let mut j: usize = 0;
    while j < out.len()
        invariant
            j <= out.len(),
            out.len() == n,
            n == defaults().len(),
            table.len() == n,
            table_view(table@) == defaults(),
            sv == settings_view(settings@),
            forall|k: int|
                0 <= k < n ==> #[trigger] chosen(sv, k) == Ok::<KeyBinding, Seq<char>>(out[k].0)
                    && out[k].1 == defaults()[k].2,
            forall|j: int| 0 <= j < sv.len() ==> known_action((#[trigger] sv[j]).0),
            forall|k: int, l: int|
                0 <= k < l < j ==> #[trigger] chosen(sv, k) != #[trigger] chosen(sv, l),
        decreases out.len() - j,
    {
        let mut i: usize = 0;
        while i < j
            invariant
                i <= j < out.len(),
                out.len() == n,
                n == defaults().len(),
                table.len() == n,
                table_view(table@) == defaults(),
                sv == settings_view(settings@),
                forall|k: int|
                    0 <= k < n ==> #[trigger] chosen(sv, k) == Ok::<KeyBinding, Seq<char>>(out[k].0)
                        && out[k].1 == defaults()[k].2,
                forall|j: int| 0 <= j < sv.len() ==> known_action((#[trigger] sv[j]).0),
                forall|k: int, l: int|
                    0 <= k < l < j ==> #[trigger] chosen(sv, k) != #[trigger] chosen(sv, l),
                forall|k: int| 0 <= k < i ==> #[trigger] chosen(sv, k) != chosen(sv, j as int),
            decreases j - i,
        {
            assert(chosen(sv, i as int) == Ok::<KeyBinding, Seq<char>>(out[i as int].0));
            assert(chosen(sv, j as int) == Ok::<KeyBinding, Seq<char>>(out[j as int].0));
            if out[i].0 == out[j].0 {
                assert(table_view(table@)[i as int].0 == table[i as int].0@);
                assert(table_view(table@)[j as int].0 == table[j as int].0@);
                let name = out[j].0.display();
                let mut text = "キーバインドが重複しています: \"".to_owned();
                text.append(name.as_str());
                text.append("\" が ");
                text.append(table[i].0);
                text.append(" と ");
                text.append(table[j].0);
                text.append(" の両方に割り当てられています");
                assert(text@ == duplicate_text(
                    out[j as int].0,
                    defaults()[i as int].0,
                    defaults()[j as int].0,
                ));
                assert(chosen(sv, i as int) == chosen(sv, j as int));
                return Err(text);
            }
            i += 1;
        }
        j += 1;
    }
    proof {
        assert(out@ =~= Seq::new(n, |i: int| (chosen(sv, i)->Ok_0, defaults()[i].2))) by {
            assert forall|i: int| 0 <= i < n implies out@[i] == (
                chosen(sv, i)->Ok_0,
                defaults()[i].2,
            ) by {
                assert(chosen(sv, i) == Ok::<KeyBinding, Seq<char>>(out[i].0));
            }
        }
        assert(distinct_keys(out@)) by {
            assert forall|k: int, l: int| 0 <= k < l < out@.len() implies (#[trigger] out@[k]).0 != (
            #[trigger] out@[l]).0 by {
                assert(chosen(sv, k) != chosen(sv, l));
            }
        }
    }
    Ok(out)
}

/// No combination has two actions.
pub open spec fn distinct_keys(table: Seq<(KeyBinding, ShortcutAction)>) -> bool {
    forall|k: int, l: int|
        0 <= k < l < table.len() ==> (#[trigger] table[k]).0 != (#[trigger] table[l]).0
}

/// The action of a combination, if it has one.
pub open spec fn action_of(table: Seq<(KeyBinding, ShortcutAction)>, b: KeyBinding) -> Option<
    ShortcutAction,
>
    decreases table.len(),
{
    if table.len() == 0 {
        None
    } else if table[0].0 == b {
        Some(table[0].1)
    } else {
        action_of(table.drop_first(), b)
    }
}

/// The action of a key press, if it has one.
pub fn lookup(
    table: &Vec<(KeyBinding, ShortcutAction)>,
    modifiers: ModifiersState,
    key: KeyCode,
) -> (r: Option<ShortcutAction>)
    ensures
        r == action_of(table@, KeyBinding { modifiers: modifier_mask(modifiers), key }),
{
    let b = KeyBinding::from_event(modifiers, key);
    let mut i: usize = 0;
    assert(table@.subrange(0, table@.len() as int) =~= table@);
    while i < table.len()
        invariant
            i <= table.len(),
            b == (KeyBinding { modifiers: modifier_mask(modifiers), key }),
            action_of(table@.subrange(i as int, table@.len() as int), b) == action_of(table@, b),
        decreases table.len() - i,
    {
        proof {
            let s = table@.subrange(i as int, table@.len() as int);
            assert(s[0] == table@[i as int]);
            assert(s.drop_first() =~= table@.subrange(i + 1, table@.len() as int));
        }
        if table[i].0 == b {
            return Some(table[i].1);
        }
        i += 1;
    }
    None
}

// ---------------------------------------------------------------------------
// Laws
// ---------------------------------------------------------------------------

/// In a table without duplicates every combination does what it was set for.
pub proof fn law_lookup_finds(table: Seq<(KeyBinding, ShortcutAction)>, i: int)
    requires
        distinct_keys(table),
        0 <= i < table.len(),
    ensures
        action_of(table, table[i].0) == Some(table[i].1),
    decreases table.len(),
{
    if i > 0 {
        let rest = table.drop_first();
        assert(table[0].0 != table[i].0);
        assert forall|k: int, l: int| 0 <= k < l < rest.len() implies (#[trigger] rest[k]).0 != (
        #[trigger] rest[l]).0 by {
            assert(rest[k] == table[k + 1] && rest[l] == table[l + 1]);
        }
        assert(rest[i - 1] == table[i]);
        law_lookup_finds(rest, i - 1);
    }
}

proof fn lemma_clean(p: Seq<char>)
    requires
        p.len() > 0,
        forall|i: int| 0 <= i < p.len() ==> !white(#[trigger] p[i]),
    ensures
        trimmed(p) == p,
{
    assert(!white(p[0]));
    assert(!white(p[p.len() - 1]));
}

/// A modifier's shown name, which `low` is in small letters, stands for its bit.
proof fn lemma_modifier_names()
    ensures
        modifier_bit(ascii_lower("Ctrl"@)) == Some(MOD_CTRL),
        modifier_bit(ascii_lower("Shift"@)) == Some(MOD_SHIFT),
        modifier_bit(ascii_lower("Alt"@)) == Some(MOD_ALT),
        modifier_bit(ascii_lower("Super"@)) == Some(MOD_SUPER),
        plain_part("Ctrl"@),
        plain_part("Shift"@),
        plain_part("Alt"@),
        plain_part("Super"@),
{
    reveal_strlit("Ctrl");
    reveal_strlit("Shift");
    reveal_strlit("Alt");
    reveal_strlit("Super");
    reveal_strlit("ctrl");
    reveal_strlit("control");
    reveal_strlit("shift");
    reveal_strlit("alt");
    reveal_strlit("super");
    let c = ascii_lower("Ctrl"@);
    let s = ascii_lower("Shift"@);
    let a = ascii_lower("Alt"@);
    let u = ascii_lower("Super"@);
    assert(c =~= "ctrl"@);
    assert(s =~= "shift"@);
    assert(a =~= "alt"@);
    assert(u =~= "super"@);
    assert(s[1] == 'h' && u[1] == 'u');
}

/// A part of a combination's name that stands for itself when it is read.
pub open spec fn plain_part(p: Seq<char>) -> bool {
    &&& p.len() > 0
    &&& forall|i: int| 0 <= i < p.len() ==> !white(#[trigger] p[i]) && p[i] != '+'
}

proof fn lemma_mods_push(tokens: Seq<Seq<char>>, t: Seq<char>)
    ensures
        modifiers_of(tokens.push(t)) == (match modifiers_of(tokens) {
            Err(e) => Err(e),
            Ok(m) => match modifier_bit(ascii_lower(t)) {
                None => Err("不明な修飾キー名 \""@ + t + "\""@),
                Some(b) => if m & b != 0 {
                    Err("修飾キー \""@ + t + "\" が重複しています"@)
                } else {
                    Ok(m | b)
                },
            },
        }),
{
    assert(tokens.push(t).drop_last() =~= tokens);
}

/// The name a combination is shown by is read back as that combination.
pub proof fn law_label_round_trip(b: KeyBinding)
    requires
        0 < b.modifiers < 16,
        nameable(b.key),
    ensures
        binding_of(label(b)) == Ok::<KeyBinding, Seq<char>>(b),
{
    let m = b.modifiers;
    let c = m & MOD_CTRL;
    let s = m & MOD_SHIFT;
    let a = m & MOD_ALT;
    let u = m & MOD_SUPER;
    assert((c == 0 || c == 1) && (s == 0 || s == 2) && (a == 0 || a == 4) && (u == 0 || u == 8))
        by (bit_vector)
        requires
            c == m & 1,
            s == m & 2,
            a == m & 4,
            u == m & 8,
    ;
    assert(m == c | s | a | u) by (bit_vector)
        requires
            m < 16,
            c == m & 1,
            s == m & 2,
            a == m & 4,
            u == m & 8,
    ;
    lemma_modifier_names();
    crate::keys::law_key_names(b.key);
    let none = Seq::<Seq<char>>::empty();
    let m0 = none;
    let m1 = if c != 0 { m0.push("Ctrl"@) } else { m0 };
    let m2 = if s != 0 { m1.push("Shift"@) } else { m1 };
    let m3 = if a != 0 { m2.push("Alt"@) } else { m2 };
    let m4 = if u != 0 { m3.push("Super"@) } else { m3 };
    let parts = label_parts(b);
    assert(parts =~= m4.push(key_label(b.key)));
    lemma_mods_push(m0, "Ctrl"@);
    lemma_mods_push(m1, "Shift"@);
    lemma_mods_push(m2, "Alt"@);
    lemma_mods_push(m3, "Super"@);
    assert(0u8 & 1u8 == 0 && 0u8 | 1u8 == 1) by (bit_vector);
    assert(c & 2 == 0 && (c == 0 ==> c | 2 == 2)) by (bit_vector)
        requires
            c == 0 || c == 1,
    ;
    let cs = c | s;
    assert(cs & 4 == 0 && (s == 0 ==> cs == c) && (s == 2 ==> cs == c | 2)) by (bit_vector)
        requires
            c == 0 || c == 1,
            s == 0 || s == 2,
            cs == c | s,
    ;
    let csa = cs | a;
    assert(csa & 8 == 0 && (a == 0 ==> csa == cs) && (a == 4 ==> csa == cs | 4)) by (bit_vector)
        requires
            c == 0 || c == 1,
            s == 0 || s == 2,
            a == 0 || a == 4,
            cs == c | s,
            csa == cs | a,
    ;
    assert((u == 0 ==> m == csa) && (u == 8 ==> m == csa | 8)) by (bit_vector)
        requires
            m == csa | u,
    ;
    assert(modifiers_of(m1) == Ok::<u8, Seq<char>>(c));
    assert(modifiers_of(m2) == Ok::<u8, Seq<char>>(cs));
    assert(modifiers_of(m3) == Ok::<u8, Seq<char>>(csa));
    assert(modifiers_of(m4) == Ok::<u8, Seq<char>>(m));
    assert forall|i: int| 0 <= i < parts.len() implies plain_part(#[trigger] parts[i]) by {}
    assert forall|i: int, j: int| 0 <= i < parts.len() && 0 <= j < parts[i].len() implies
        #[trigger] parts[i][j] != '+' by {
        assert(plain_part(parts[i]));
    }
    crate::text::lemma_pieces_join(parts, '+');
    let tokens = tokens_of(label(b));
    assert forall|i: int| 0 <= i < parts.len() implies tokens[i] == parts[i] by {
        assert(plain_part(parts[i]));
        lemma_clean(parts[i]);
    }
    assert(tokens =~= parts);
    assert(!has_empty(tokens)) by {
        assert forall|i: int| 0 <= i < tokens.len() implies (#[trigger] tokens[i]).len() > 0 by {
            assert(plain_part(parts[i]));
        }
    }
    assert(tokens.drop_last() =~= m4);
}

} // verus!
