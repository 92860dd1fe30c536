//! What reaches the program in a terminal.

use crate::clipboard::{copied, pasted};
use crate::input::{button_number, key_bytes, modifier_bits, report, times, MouseButton};
use crate::keybindings::{action_of, modifier_mask, KeyBinding, ShortcutAction};
use crate::keys::{key_label, key_named, KeyCode, ModifiersState};
use crate::links::{link_of, word_at};
use crate::selection::selected;
use crate::snapshot::Snapshot;
use crate::terminal::{pictures, CellSize};
use crate::text::decimal;
use crate::view::Viewport;
use crate::window::{
    button_changed, cursor_moved, drag_ended, drag_of, focus_set, handled, is_inner, key_pressed,
    reported_cell, reselected, resized, shown, wheel_moved, Act, CursorIcon, MouseState, Pane,
    PaneEvent, TerminalModes, COMMIT_INTERVAL,
};
use vstd::prelude::*;
use vstd::utf8::encode_utf8;

verus! {

// ---------------------------------------------------------------------------
// Keys
// ---------------------------------------------------------------------------

/// A sequence that begins with escape and a bracket.
pub open spec fn csi(rest: Seq<u8>) -> Seq<u8> {
    seq![0x1bu8, 0x5bu8] + rest
}

/// An arrow key moves the cursor its own way: up, down, forward or back are
/// the letters A to D behind the bracket.
pub proof fn law_arrows_point_their_way(shift: bool)
    ensures
        key_bytes(false, shift, KeyCode::ArrowUp) == Some(csi(seq![0x41u8])),
        key_bytes(false, shift, KeyCode::ArrowDown) == Some(csi(seq![0x42u8])),
        key_bytes(false, shift, KeyCode::ArrowRight) == Some(csi(seq![0x43u8])),
        key_bytes(false, shift, KeyCode::ArrowLeft) == Some(csi(seq![0x44u8])),
{
    assert(csi(seq![0x41u8]) =~= seq![0x1bu8, 0x5b, 0x41]);
    assert(csi(seq![0x42u8]) =~= seq![0x1bu8, 0x5b, 0x42]);
    assert(csi(seq![0x43u8]) =~= seq![0x1bu8, 0x5b, 0x43]);
    assert(csi(seq![0x44u8]) =~= seq![0x1bu8, 0x5b, 0x44]);
}

/// The keys of the letters, from A to Z.
pub open spec fn letter_keys() -> Seq<KeyCode> {
    seq![
        KeyCode::KeyA,
        KeyCode::KeyB,
        KeyCode::KeyC,
        KeyCode::KeyD,
        KeyCode::KeyE,
        KeyCode::KeyF,
        KeyCode::KeyG,
        KeyCode::KeyH,
        KeyCode::KeyI,
        KeyCode::KeyJ,
        KeyCode::KeyK,
        KeyCode::KeyL,
        KeyCode::KeyM,
        KeyCode::KeyN,
        KeyCode::KeyO,
        KeyCode::KeyP,
        KeyCode::KeyQ,
        KeyCode::KeyR,
        KeyCode::KeyS,
        KeyCode::KeyT,
        KeyCode::KeyU,
        KeyCode::KeyV,
        KeyCode::KeyW,
        KeyCode::KeyX,
        KeyCode::KeyY,
        KeyCode::KeyZ,
    ]
}

/// With the control key down a letter sends its place in the alphabet. With
/// shift down too, and without the control key, it types its text.
pub proof fn law_control_letters_count(i: int, shift: bool)
    requires
        0 <= i < 26,
    ensures
        letter_keys().len() == 26,
        key_bytes(true, false, letter_keys()[i]) == Some(seq![(i + 1) as u8]),
        key_bytes(true, true, letter_keys()[i]) is None,
        key_bytes(false, shift, letter_keys()[i]) is None,
{
}

/// With the control key down only letters send a code.
pub proof fn law_control_is_for_letters(key: KeyCode)
    requires
        !letter_keys().contains(key),
    ensures
        key_bytes(true, false, key) is None,
{
    if key_bytes(true, false, key) is Some {
        let n = key_bytes(true, false, key)->0[0] as int;
        assert(1 <= n <= 26 && letter_keys()[n - 1] == key);
        assert(letter_keys().contains(key));
    }
}

/// The keys that end, undo and space text send the control characters of
/// that name. With shift down Enter is told apart by an escape before it.
pub proof fn law_editing_keys(shift: bool)
    ensures
        key_bytes(false, false, KeyCode::Enter) == Some(seq![13u8]),
        key_bytes(false, true, KeyCode::Enter) == Some(seq![27u8, 13u8]),
        key_bytes(false, shift, KeyCode::Tab) == Some(seq![9u8]),
        key_bytes(false, shift, KeyCode::Space) == Some(seq![32u8]),
        key_bytes(false, shift, KeyCode::Escape) == Some(seq![27u8]),
        key_bytes(false, shift, KeyCode::Backspace) == Some(seq![127u8]),
{
}

/// Delete and the page keys have a number each, in the order in which they
/// stand on the keyboard.
pub proof fn law_page_keys(shift: bool)
    ensures
        key_bytes(false, shift, KeyCode::Delete) == Some(csi(seq![0x33u8, 0x7e])),
        key_bytes(false, shift, KeyCode::PageUp) == Some(csi(seq![0x35u8, 0x7e])),
        key_bytes(false, shift, KeyCode::PageDown) == Some(csi(seq![0x36u8, 0x7e])),
{
    assert(csi(seq![0x33u8, 0x7e]) =~= seq![0x1bu8, 0x5b, 0x33, 0x7e]);
    assert(csi(seq![0x35u8, 0x7e]) =~= seq![0x1bu8, 0x5b, 0x35, 0x7e]);
    assert(csi(seq![0x36u8, 0x7e]) =~= seq![0x1bu8, 0x5b, 0x36, 0x7e]);
}

/// The function keys, from the first on.
pub open spec fn function_keys() -> Seq<KeyCode> {
    seq![
        KeyCode::F1,
        KeyCode::F2,
        KeyCode::F3,
        KeyCode::F4,
        KeyCode::F5,
        KeyCode::F6,
        KeyCode::F7,
        KeyCode::F8,
        KeyCode::F9,
        KeyCode::F10,
        KeyCode::F11,
        KeyCode::F12,
    ]
}

/// The numbers of the function keys from the fifth on: 16 and 22 are left out.
pub open spec fn function_number(i: int) -> int {
    11 + i + (if i > 4 {
        1int
    } else {
        0
    }) + (if i > 9 {
        1int
    } else {
        0
    })
}

/// The first four function keys are the letters from P on behind escape and O;
/// the others have numbers of two digits.
pub proof fn law_function_keys_count(i: int, shift: bool)
    requires
        0 <= i < 12,
    ensures
        i < 4 ==> key_bytes(false, shift, function_keys()[i]) == Some(
            seq![0x1bu8, 0x4f, (0x50 + i) as u8],
        ),
        4 <= i ==> key_bytes(false, shift, function_keys()[i]) == Some(
            csi(
                seq![
                    (0x30 + function_number(i) / 10) as u8,
                    (0x30 + function_number(i) % 10) as u8,
                    0x7eu8,
                ],
            ),
        ),
{
    if i < 4 {
        assert(key_bytes(false, shift, function_keys()[i])->0 =~= seq![
            0x1bu8,
            0x4f,
            (0x50 + i) as u8,
        ]);
    } else {
        assert(key_bytes(false, shift, function_keys()[i])->0 =~= csi(
            seq![
                (0x30 + function_number(i) / 10) as u8,
                (0x30 + function_number(i) % 10) as u8,
                0x7eu8,
            ],
        ));
    }
}

/// What a key sends with the control key up tells which key it was.
pub proof fn law_keys_are_told_apart(shift: bool, a: KeyCode, b: KeyCode)
    requires
        key_bytes(false, shift, a) is Some,
        key_bytes(false, shift, a) == key_bytes(false, shift, b),
    ensures
        a == b,
{
    let s = key_bytes(false, shift, a)->0;
    let t = key_bytes(false, shift, b)->0;
    assert(s.len() == t.len());
    assert(s[0] == t[0]);
    if s.len() > 1 {
        assert(s[1] == t[1]);
    }
    if s.len() > 2 {
        assert(s[2] == t[2]);
    }
    if s.len() > 3 {
        assert(s[3] == t[3]);
    }
}

/// The pane has nothing under way that a key could belong to.
pub open spec fn listens(p: Pane, key: KeyCode, now: u64) -> bool {
    &&& p.preedit.len() == 0
    &&& key == KeyCode::Enter && p.last_commit is Some ==> now - p.last_commit->0
        >= COMMIT_INTERVAL
}

/// The shortcut that a key is.
pub open spec fn shortcut_of(
    p: Pane,
    key: KeyCode,
    table: Seq<(KeyBinding, ShortcutAction)>,
) -> Option<ShortcutAction> {
    action_of(table, KeyBinding { modifiers: modifier_mask(p.modifiers), key })
}

/// A key that is no shortcut sends its own bytes, and where it has none the
/// text that it types. The screen goes to its end, and nothing stays selected.
pub proof fn law_keys_reach_the_program(
    p: Pane,
    key: KeyCode,
    text: Option<Seq<char>>,
    table: Seq<(KeyBinding, ShortcutAction)>,
    now: u64,
)
    requires
        listens(p, key, now),
        shortcut_of(p, key, table) is None,
    ensures
        ({
            let q = key_pressed(p, Some(key), text, table, now);
            let own = key_bytes(p.modifiers.control, p.modifiers.shift, key);
            &&& own is Some ==> q.actions == p.actions.push(Act::Write(own->0)).push(
                Act::ScrollToBottom,
            )
            &&& own is None && text is Some ==> q.actions == p.actions.push(
                Act::Write(encode_utf8(text->0)),
            ).push(Act::ScrollToBottom)
            &&& own is None && text is None ==> q == p
            &&& own is Some || text is Some ==> q.selection is None && q.mouse.pressed_pos is None
                && q.updated
            &&& q.lines == p.lines && q.size == p.size && q.modifiers == p.modifiers
        }),
{
}

/// What the shortcuts of a pane ask for. Copying leaves the selection as it
/// is.
pub proof fn law_pane_shortcuts(
    p: Pane,
    key: KeyCode,
    text: Option<Seq<char>>,
    table: Seq<(KeyBinding, ShortcutAction)>,
    now: u64,
)
    requires
        listens(p, key, now),
    ensures
        ({
            let q = key_pressed(p, Some(key), text, table, now);
            let first = q.actions[p.actions.len() as int];
            &&& shortcut_of(p, key, table) == Some(ShortcutAction::Copy) ==> q.actions
                == p.actions.push(Act::Copy(copied(p.lines, p.selection))) && q.selection
                == p.selection
            &&& shortcut_of(p, key, table) == Some(ShortcutAction::Paste) ==> first == Act::Paste
            &&& shortcut_of(p, key, table) == Some(ShortcutAction::ClearHistory) ==> first
                == Act::ClearHistory
            &&& shortcut_of(p, key, table) == Some(ShortcutAction::IncreaseFont) ==> first
                is ChangeFont && first->ChangeFont_0 > 0
            &&& shortcut_of(p, key, table) == Some(ShortcutAction::DecreaseFont) ==> first
                is ChangeFont && first->ChangeFont_0 < 0
        }),
{
}

/// A composed text goes to the program as it is, and nothing is left of it.
/// The Enter key that ended it does not follow it, and one a little later
/// does.
pub proof fn law_composed_text_arrives(
    p: Pane,
    text: String,
    table: Seq<(KeyBinding, ShortcutAction)>,
    modes: TerminalModes,
    now: u64,
    later: u64,
)
    ensures
        ({
            let q = handled(p, PaneEvent::Commit(text), table, modes, now);
            &&& q.actions == p.actions.push(Act::Write(encode_utf8(text@)))
            &&& q.preedit.len() == 0
            &&& now <= later < now + COMMIT_INTERVAL ==> key_pressed(
                q,
                Some(KeyCode::Enter),
                None,
                table,
                later,
            ) == q
            &&& later >= now + COMMIT_INTERVAL ==> listens(q, KeyCode::Enter, later)
        }),
{
}

/// A text being composed is shown at the cursor, and none of it is sent.
pub proof fn law_composing_is_shown(
    p: Pane,
    text: String,
    table: Seq<(KeyBinding, ShortcutAction)>,
    modes: TerminalModes,
    now: u64,
)
    ensures
        ({
            let q = handled(p, PaneEvent::Preedit(text), table, modes, now);
            &&& q.preedit == text@
            &&& q.updated
            &&& p.cursor is None ==> q.actions == p.actions
            &&& p.cursor is Some ==> q.actions.len() == p.actions.len() + 1 && q.actions.last()
                is ImeArea
        }),
{
}

/// What is pasted arrives as it is; a program that asked for it gets marks
/// around it: escape, bracket, 200 or 201, and a tilde.
pub proof fn law_paste_is_marked(text: Seq<char>)
    ensures
        pasted(text, false) == encode_utf8(text),
        pasted(text, true) == csi(seq![0x32u8, 0x30, 0x30, 0x7e]) + encode_utf8(text) + csi(
            seq![0x32u8, 0x30, 0x31, 0x7e],
        ),
{
    assert(csi(seq![0x32u8, 0x30, 0x30, 0x7e]) =~= seq![0x1bu8, 0x5b, 0x32, 0x30, 0x30, 0x7e]);
    assert(csi(seq![0x32u8, 0x30, 0x31, 0x7e]) =~= seq![0x1bu8, 0x5b, 0x32, 0x30, 0x31, 0x7e]);
}

// ---------------------------------------------------------------------------
// The mouse
// ---------------------------------------------------------------------------

/// The cell that is reported holds the nearest pixel to the mouse, and the
/// first one has the number one.
pub proof fn law_reported_cell_holds_mouse(half: int, cell: u32)
    requires
        0 <= half <= 0x8000_0000,
        cell > 0,
    ensures
        reported_cell(half, cell) >= 1,
        (reported_cell(half, cell) - 1) * cell <= (half + 1) / 2,
        (half + 1) / 2 < reported_cell(half, cell) * cell,
{
    let px = (half + 1) / 2;
    let q = px / cell as int;
    vstd::arithmetic::div_mod::lemma_fundamental_div_mod(px, cell as int);
    vstd::arithmetic::div_mod::lemma_mod_bound(px, cell as int);
    assert(cell as int * q == q * cell) by (nonlinear_arith);
    assert(q <= px) by (nonlinear_arith)
        requires
            px == cell as int * q + px % (cell as int),
            0 <= px % (cell as int),
            cell > 0,
            q >= 0 || q < 0,
            px >= 0,
    ;
    assert(q >= 0) by (nonlinear_arith)
        requires
            px == cell as int * q + px % (cell as int),
            px % (cell as int) < cell,
            px >= 0,
            cell > 0,
    ;
    assert((q + 1) * cell == q * cell + cell) by (nonlinear_arith);
}

/// The buttons count from the left. A button that goes up is told by its
/// number in the long form, and is number three in the short one.
pub proof fn law_buttons_count_from_the_left(pressed: bool)
    ensures
        button_number(MouseButton::Left, true, false) == 0,
        button_number(MouseButton::Middle, true, false) == 1,
        button_number(MouseButton::Right, true, false) == 2,
        button_number(MouseButton::Left, pressed, true) == 0,
        button_number(MouseButton::Middle, pressed, true) == 1,
        button_number(MouseButton::Right, pressed, true) == 2,
        forall|b: MouseButton| #[trigger] button_number(b, false, false) == 3,
{
}

/// The modifiers are the next three bits: shift, alt, control.
pub proof fn law_report_modifiers_are_bits(m: ModifiersState)
    ensures
        (modifier_bits(m) / 4) % 2 == 1 <==> m.shift,
        (modifier_bits(m) / 8) % 2 == 1 <==> m.alt,
        (modifier_bits(m) / 16) % 2 == 1 <==> m.control,
        modifier_bits(m) < 32,
        modifier_bits(m) % 4 == 0,
{
}

/// A long report tells button, column and row in this order, and by its last
/// letter whether the button went down.
pub proof fn law_long_report(button: u8, col: u32, row: u32, pressed: bool)
    ensures
        report(true, button, col, row, pressed) == encode_utf8(
            "\x1b[<"@ + decimal(button as nat) + ";"@ + decimal(col as nat) + ";"@ + decimal(
                row as nat,
            ) + (if pressed {
                "M"@
            } else {
                "m"@
            }),
        ),
{
    reveal_strlit("\x1b[<");
    reveal_strlit(";");
    reveal_strlit("M");
    reveal_strlit("m");
    assert("\x1b[<"@ =~= seq!['\u{1b}', '[', '<']);
    assert(";"@ =~= seq![';']);
    assert("M"@ =~= seq!['M']);
    assert("m"@ =~= seq!['m']);
}

/// A short report tells button, column and row in this order, each 32 above
/// its number, and zero for a place that is too far off.
pub proof fn law_short_report(button: u8, col: u32, row: u32, pressed: bool)
    requires
        button < 224,
    ensures
        ({
            let r = report(false, button, col, row, pressed);
            &&& r.len() == 6
            &&& r.subrange(0, 3) == csi(seq![0x4du8])
            &&& r[3] == 32 + button
            &&& 1 <= col <= 223 ==> r[4] == 32 + col
            &&& col > 223 ==> r[4] == 0
            &&& 1 <= row <= 223 ==> r[5] == 32 + row
            &&& row > 223 ==> r[5] == 0
        }),
{
    let r = report(false, button, col, row, pressed);
    assert(r.subrange(0, 3) =~= csi(seq![0x4du8]));
}

/// A program that follows the mouse hears of a button where the mouse is, and
/// nothing is selected by it.
pub proof fn law_followed_button_is_reported(
    p: Pane,
    pressed: bool,
    button: MouseButton,
    modes: TerminalModes,
    now: u64,
)
    requires
        is_inner(p),
        modes.mouse,
        !p.modifiers.shift,
        !p.mouse.selecting,
    ensures
        ({
            let q = button_changed(p, pressed, button, modes, now);
            let n = (button_number(button, pressed, modes.sgr) + modifier_bits(p.modifiers)) as u8;
            &&& q.actions == p.actions.push(
                Act::Write(
                    report(
                        modes.sgr,
                        n,
                        reported_cell(p.mouse.cursor_pos.0 as int, p.cell.w),
                        reported_cell(p.mouse.cursor_pos.1 as int, p.cell.h),
                        pressed,
                    ),
                ),
            )
            &&& q.mouse.pressed_pos == p.mouse.pressed_pos
            &&& q.selection == p.selection
        }),
{
}

/// Where no program follows the mouse, or shift is held down, a button that
/// goes down begins a selection where the mouse is, and the next one that goes
/// up ends it where the mouse is then.
pub proof fn law_drag_goes_from_press_to_release(
    p: Pane,
    button: MouseButton,
    modes: TerminalModes,
    now: u64,
    then: TerminalModes,
    later: u64,
)
    requires
        is_inner(p),
        !modes.mouse || p.modifiers.shift,
    ensures
        ({
            let q = button_changed(p, true, button, modes, now);
            &&& q.mouse.pressed_pos == Some(p.mouse.cursor_pos)
            &&& q.mouse.released_pos is None
            &&& q.mouse.pressed_offset == modes.offset
            &&& q.mouse.block == p.modifiers.control
            &&& q.mouse.selecting
            &&& q.actions == p.actions
            &&& is_inner(q) ==> {
                let r = button_changed(q, false, button, then, later);
                &&& r.mouse.pressed_pos == Some(p.mouse.cursor_pos)
                &&& r.mouse.released_pos == Some(q.mouse.cursor_pos)
                &&& r.mouse.released_offset == then.offset
                &&& !r.mouse.selecting
            }
        }),
{
}

/// A click counts on from one that came just before, and begins anew after a
/// while.
pub proof fn law_clicks_count(p: Pane, button: MouseButton, modes: TerminalModes, now: u64)
    requires
        is_inner(p),
        !modes.mouse || p.modifiers.shift,
        p.mouse.click_count < usize::MAX,
    ensures
        ({
            let q = button_changed(p, true, button, modes, now);
            let last = p.mouse.last_clicked;
            &&& q.mouse.last_clicked == Some(now)
            &&& last is None ==> q.mouse.click_count == 1
            &&& last is Some && now - last->0 > 400_000_000 ==> q.mouse.click_count == 1
            &&& last is Some && now - last->0 <= 400_000_000 ==> q.mouse.click_count
                == p.mouse.click_count + 1
        }),
{
}

/// A click with the left button on a word opens the page or looks for the file
/// that it names; other buttons, and a drag to another cell, open nothing.
pub proof fn law_click_opens_link(p: Pane, button: MouseButton, offset: u32, col: int, row: int)
    requires
        p.mouse.pressed_pos is Some,
        p.cell.w > 0,
        p.cell.h > 0,
        col == p.mouse.cursor_pos.0 as int / (2 * p.cell.w),
        row == p.mouse.cursor_pos.1 as int / (2 * p.cell.h),
    ensures
        ({
            let q = drag_ended(p, button, offset);
            let from = p.mouse.pressed_pos->0;
            let same = from.0 as int / (2 * p.cell.w) == col && from.1 as int / (2 * p.cell.h)
                == row;
            let link = link_of(word_at(p.lines, row, col), p.modifiers.control);
            &&& button != MouseButton::Left || !same || link is None ==> q.actions == p.actions
            &&& button == MouseButton::Left && same && link is Some && link->0 is Page ==> q.actions
                == p.actions.push(Act::OpenUrl(link->0->Page_0))
            &&& button == MouseButton::Left && same && link is Some && link->0 is File ==> q.actions
                == p.actions.push(Act::FindFile(link->0->File_0))
        }),
{
}

proof fn lemma_times_len(b: Seq<u8>, n: nat)
    ensures
        times(b, n).len() == n * b.len(),
    decreases n,
{
    if n > 0 {
        lemma_times_len(b, (n - 1) as nat);
        assert((n - 1) * b.len() + b.len() == n * b.len()) by (nonlinear_arith)
            requires
                n > 0,
        ;
    } else {
        assert(0 * b.len() == 0) by (nonlinear_arith);
    }
}

/// Repeated bytes are the bytes over and over.
pub proof fn law_times_repeats(b: Seq<u8>, n: nat, i: int, k: int)
    requires
        0 <= i < n,
        0 <= k < b.len(),
    ensures
        times(b, n).len() == n * b.len(),
        0 <= i * b.len() + k < times(b, n).len(),
        times(b, n)[i * b.len() + k] == b[k],
    decreases n,
{
    lemma_times_len(b, n);
    lemma_times_len(b, (n - 1) as nat);
    assert(0 <= i * b.len() + k < n * b.len()) by (nonlinear_arith)
        requires
            0 <= i < n,
            0 <= k < b.len(),
    ;
    if i < n - 1 {
        law_times_repeats(b, (n - 1) as nat, i, k);
    }
}

/// The arrow keys in a screen of a program's own: as many as the wheel turned
/// lines, up and right where it turned so.
pub proof fn law_wheel_turns_into_arrows(
    p: Pane,
    horizontal: i32,
    vertical: i32,
    modes: TerminalModes,
)
    requires
        !p.modifiers.shift,
        !modes.mouse,
        modes.alt_screen,
    ensures
        ({
            let up = csi(seq![0x41u8]);
            let down = csi(seq![0x42u8]);
            let right = csi(seq![0x43u8]);
            let left = csi(seq![0x44u8]);
            wheel_moved(p, horizontal, vertical, modes).actions == p.actions.push(
                Act::Write(
                    if vertical >= 0 {
                        times(up, vertical as nat)
                    } else {
                        times(down, (-vertical) as nat)
                    },
                ),
            ).push(
                Act::Write(
                    if horizontal >= 0 {
                        times(right, horizontal as nat)
                    } else {
                        times(left, (-horizontal) as nat)
                    },
                ),
            )
        }),
{
    assert(csi(seq![0x41u8]) =~= seq![0x1bu8, 0x5b, 0x41]);
    assert(csi(seq![0x42u8]) =~= seq![0x1bu8, 0x5b, 0x42]);
    assert(csi(seq![0x43u8]) =~= seq![0x1bu8, 0x5b, 0x43]);
    assert(csi(seq![0x44u8]) =~= seq![0x1bu8, 0x5b, 0x44]);
    lemma_none(csi(seq![0x41u8]), csi(seq![0x42u8]));
    lemma_none(csi(seq![0x43u8]), csi(seq![0x44u8]));
}

proof fn lemma_none(a: Seq<u8>, b: Seq<u8>)
    ensures
        times(a, 0) == times(b, 0),
{
}

/// A program that follows the mouse gets a report for each line: buttons 64
/// and 65 for up and down, 67 and 66 for the other axis.
pub proof fn law_wheel_is_reported(p: Pane, horizontal: i32, vertical: i32, modes: TerminalModes)
    requires
        !p.modifiers.shift,
        modes.mouse,
        vertical != 0,
        horizontal != 0,
    ensures
        ({
            let col = reported_cell(p.mouse.cursor_pos.0 as int, p.cell.w);
            let row = reported_cell(p.mouse.cursor_pos.1 as int, p.cell.h);
            wheel_moved(p, horizontal, vertical, modes).actions == p.actions.push(
                Act::Write(
                    if vertical > 0 {
                        times(report(modes.sgr, 64, col, row, true), vertical as nat)
                    } else {
                        times(report(modes.sgr, 65, col, row, true), (-vertical) as nat)
                    },
                ),
            ).push(
                Act::Write(
                    if horizontal > 0 {
                        times(report(modes.sgr, 67, col, row, true), horizontal as nat)
                    } else {
                        times(report(modes.sgr, 66, col, row, true), (-horizontal) as nat)
                    },
                ),
            )
        }),
{
}

/// At a shell the wheel scrolls the history by as many lines as it turned.
pub proof fn law_wheel_scrolls_history(
    p: Pane,
    horizontal: i32,
    vertical: i32,
    modes: TerminalModes,
)
    requires
        !modes.mouse,
        !modes.alt_screen,
    ensures
        wheel_moved(p, horizontal, vertical, modes).actions.len() > p.actions.len(),
        wheel_moved(p, horizontal, vertical, modes).actions[p.actions.len() as int] == Act::Scroll(
            vertical,
        ),
{
}

/// Over a link that can be opened the mouse points; elsewhere it is one for
/// text.
pub proof fn law_mouse_points_at_links(
    p: Pane,
    x: int,
    y: int,
    row: usize,
    col: usize,
)
    requires
        -0x8000_0000 <= x <= 0x8000_0000,
        -0x8000_0000 <= y <= 0x8000_0000,
    ensures
        ({
            let q = cursor_moved(p, x, y, Some((row, col)), false);
            let link = link_of(word_at(p.lines, row as int, col as int), p.modifiers.control);
            &&& q.mouse.cursor_pos.0 == x - 2 * p.viewport.x
            &&& q.mouse.cursor_pos.1 == y - 2 * p.viewport.y
            &&& link is Some && link->0 is Page ==> q.actions == p.actions.push(
                Act::SetCursorIcon(CursorIcon::Pointer),
            )
            &&& link is None ==> q.actions == p.actions.push(Act::SetCursorIcon(CursorIcon::Text))
        }),
{
}

/// The terminal has as many rows and columns as fit, and at least one, and its
/// program is told.
pub proof fn law_terminal_fills_pane(p: Pane, viewport: Viewport, cell: CellSize)
    requires
        cell.w > 0,
        cell.h > 0,
    ensures
        ({
            let q = resized(p, viewport, cell);
            let room = viewport.w - p.scroll_bar;
            &&& q.viewport == viewport
            &&& q.cell == cell
            &&& q.size.rows >= 1 && q.size.cols >= 1
            &&& viewport.h >= cell.h ==> q.size.rows * cell.h <= viewport.h < (q.size.rows + 1)
                * cell.h
            &&& room >= cell.w ==> q.size.cols * cell.w <= room < (q.size.cols + 1) * cell.w
            &&& q.actions.last() is Resize
            &&& q.actions.last()->Resize_cols == q.size.cols
            &&& q.actions.last()->rows == q.size.rows
        }),
{
    lemma_fits(viewport.h as int, cell.h as int);
    if viewport.w > p.scroll_bar {
        lemma_fits(viewport.w - p.scroll_bar, cell.w as int);
    }
}

proof fn lemma_fits(a: int, b: int)
    requires
        0 <= a,
        0 < b,
    ensures
        (a / b) * b <= a < (a / b + 1) * b,
        0 <= a / b <= a,
        a >= b ==> a / b >= 1,
{
    vstd::arithmetic::div_mod::lemma_fundamental_div_mod(a, b);
    vstd::arithmetic::div_mod::lemma_mod_bound(a, b);
    let q = a / b;
    assert(b * q == q * b) by (nonlinear_arith);
    assert((q + 1) * b == q * b + b) by (nonlinear_arith);
    assert(q >= 0) by (nonlinear_arith)
        requires
            a == b * q + a % b,
            a % b < b,
            a >= 0,
            b > 0,
    ;
    assert(q <= a) by (nonlinear_arith)
        requires
            a >= b * q,
            q >= 0,
            b >= 1,
    ;
    if a >= b {
        assert(q >= 1) by (nonlinear_arith)
            requires
                a == b * q + a % b,
                a % b < b,
                a >= b,
                b > 0,
        ;
    }
}

// ---------------------------------------------------------------------------
// The names of keys
// ---------------------------------------------------------------------------

/// The key of a letter is shown by its capital, and named by it and by its small
/// form.
pub proof fn law_letters_name_their_keys(i: int)
    requires
        0 <= i < 26,
    ensures
        key_label(letter_keys()[i]) == seq![(65 + i) as u8 as char],
        key_named(seq![(97 + i) as u8 as char]) == Some(letter_keys()[i]),
{
    assert(seq![(97 + i) as u8 as char][0] == (97 + i) as u8 as char);
}

/// The arrow keys and the others without a character are shown by their names.
pub proof fn law_other_keys_have_names()
    ensures
        key_label(KeyCode::ArrowUp) == "Up"@,
        key_label(KeyCode::ArrowDown) == "Down"@,
        key_label(KeyCode::ArrowLeft) == "Left"@,
        key_label(KeyCode::ArrowRight) == "Right"@,
        key_label(KeyCode::Tab) == "Tab"@,
        key_label(KeyCode::Enter) == "Enter"@,
        key_label(KeyCode::Escape) == "Escape"@,
        key_label(KeyCode::Space) == "Space"@,
        key_label(KeyCode::Backspace) == "Backspace"@,
        key_label(KeyCode::Delete) == "Delete"@,
        key_label(KeyCode::Minus) == "Minus"@,
        key_label(KeyCode::Equal) == "Equal"@,
        key_label(KeyCode::F1) == "F1"@,
        key_label(KeyCode::F12) == "F12"@,
{
}

// ---------------------------------------------------------------------------
// The pane
// ---------------------------------------------------------------------------

/// The focus of a pane is what it was told last, and with it comes the cursor
/// of the mouse: an arrow where the program follows the mouse, else one for
/// text.
pub proof fn law_focus_is_taken(p: Pane, mouse: bool)
    ensures
        focus_set(p, true, mouse).focused,
        !focus_set(p, false, mouse).focused,
        focus_set(p, false, mouse).actions == p.actions,
        focus_set(p, true, true).actions == p.actions.push(Act::SetCursorIcon(CursorIcon::Default)),
        focus_set(p, true, false).actions == p.actions.push(Act::SetCursorIcon(CursorIcon::Text)),
{
}

/// A new screen is shown with its lines, its cursor and its images. With the
/// focus the text being composed goes to the cell of the cursor.
pub proof fn law_screen_is_shown(p: Pane, s: Snapshot)
    ensures
        shown(p, s).lines == s.lines@,
        shown(p, s).cursor == s.cursor,
        shown(p, s).images == pictures(s.images@),
        shown(p, s).updated,
        p.focused && s.cursor is Some && s.cursor->0.col < 0x1_0000 && s.cursor->0.row < 0x1_0000
            && p.cell.w < 0x1_0000 && p.cell.h < 0x1_0000 && p.viewport.x < 0x1_0000_0000
            && p.viewport.y < 0x1_0000_0000 ==> shown(p, s).actions.last() == (Act::ImeArea {
            x: (p.viewport.x + s.cursor->0.col * p.cell.w) as u64,
            y: (p.viewport.y + s.cursor->0.row * p.cell.h) as u64,
            w: p.cell.w,
            h: p.cell.h,
        }),
        !p.focused ==> shown(p, s).actions == p.actions,
{
}

/// A drag goes from where the button went down to where it went up, or to the
/// mouse while it is down.
pub proof fn law_drag_has_two_ends(m: MouseState, offset: u32)
    requires
        m.pressed_pos is Some,
    ensures
        ({
            let d = drag_of(m, offset);
            &&& (d.start_x, d.start_y) == m.pressed_pos->0
            &&& d.start_offset == m.pressed_offset
            &&& m.released_pos is Some ==> (d.end_x, d.end_y) == m.released_pos->0 && d.end_offset
                == m.released_offset
            &&& m.released_pos is None ==> (d.end_x, d.end_y) == m.cursor_pos && d.end_offset
                == offset
            &&& d.block == m.block && d.clicks == m.click_count && d.offset == offset
        }),
{
}

/// Without a button that went down nothing is selected.
pub proof fn law_no_drag_selects_nothing(p: Pane, offset: u32)
    ensures
        p.mouse.pressed_pos is None ==> reselected(p, offset).selection is None,
        p.mouse.pressed_pos is Some ==> reselected(p, offset).selection == selected(
            drag_of(p.mouse, offset),
            p.cell,
            p.size,
            p.lines,
        ),
        reselected(p, offset).lines == p.lines,
        reselected(p, offset).selection != p.selection ==> reselected(p, offset).updated,
{
}

/// Outside the pane a button selects nothing and is told to no program.
pub proof fn law_buttons_outside_do_nothing(
    p: Pane,
    pressed: bool,
    button: MouseButton,
    modes: TerminalModes,
    now: u64,
)
    requires
        p.mouse.cursor_pos.0 < 0 || p.mouse.cursor_pos.1 < 0 || p.mouse.cursor_pos.0 >= 2
            * p.viewport.w || p.mouse.cursor_pos.1 >= 2 * p.viewport.h,
    ensures
        button_changed(p, pressed, button, modes, now).actions == p.actions,
        button_changed(p, pressed, button, modes, now).mouse.pressed_pos is None,
        !button_changed(p, pressed, button, modes, now).mouse.selecting,
{
}

/// An event does what its name says: modifiers are held, keys are typed, buttons
/// and the wheel are the mouse's.
pub proof fn law_events_are_what_they_are_called(
    p: Pane,
    m: ModifiersState,
    code: Option<KeyCode>,
    text: Option<String>,
    pressed: bool,
    button: MouseButton,
    horizontal: i32,
    vertical: i32,
    table: Seq<(KeyBinding, ShortcutAction)>,
    modes: TerminalModes,
    now: u64,
)
    ensures
        handled(p, PaneEvent::ModifiersChanged(m), table, modes, now) == (Pane {
            modifiers: m,
            ..p
        }),
        handled(p, PaneEvent::KeyPressed { code, text }, table, modes, now) == key_pressed(
            p,
            code,
            crate::text::opt_text(text),
            table,
            now,
        ),
        handled(p, PaneEvent::MouseInput { pressed, button }, table, modes, now)
            == button_changed(p, pressed, button, modes, now),
        handled(p, PaneEvent::MouseWheel { horizontal, vertical }, table, modes, now)
            == wheel_moved(p, horizontal, vertical, modes),
{
}

} // verus!
