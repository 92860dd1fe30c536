//! What keys and the mouse send to the program in a terminal.

use crate::clipboard::bytes_of;
use crate::keys::{KeyCode, ModifiersState};
use crate::text::{decimal, decimal_text};
use vstd::prelude::*;
use vstd::utf8::encode_utf8;

verus! {

/// The control code of a letter.
pub open spec fn letter_code(key: KeyCode) -> Option<u8> {
    match key {
        KeyCode::KeyA => Some(1),
        KeyCode::KeyB => Some(2),
        KeyCode::KeyC => Some(3),
        KeyCode::KeyD => Some(4),
        KeyCode::KeyE => Some(5),
        KeyCode::KeyF => Some(6),
        KeyCode::KeyG => Some(7),
        KeyCode::KeyH => Some(8),
        KeyCode::KeyI => Some(9),
        KeyCode::KeyJ => Some(10),
        KeyCode::KeyK => Some(11),
        KeyCode::KeyL => Some(12),
        KeyCode::KeyM => Some(13),
        KeyCode::KeyN => Some(14),
        KeyCode::KeyO => Some(15),
        KeyCode::KeyP => Some(16),
        KeyCode::KeyQ => Some(17),
        KeyCode::KeyR => Some(18),
        KeyCode::KeyS => Some(19),
        KeyCode::KeyT => Some(20),
        KeyCode::KeyU => Some(21),
        KeyCode::KeyV => Some(22),
        KeyCode::KeyW => Some(23),
        KeyCode::KeyX => Some(24),
        KeyCode::KeyY => Some(25),
        KeyCode::KeyZ => Some(26),
        _ => None,
    }
}

/// The control code of a letter.
pub fn ctrl_letter_code(key: KeyCode) -> (r: Option<u8>)
    ensures
        r == letter_code(key),
{
    let n: u8 = match key {
        KeyCode::KeyA => 1,
        KeyCode::KeyB => 2,
        KeyCode::KeyC => 3,
        KeyCode::KeyD => 4,
        KeyCode::KeyE => 5,
        KeyCode::KeyF => 6,
        KeyCode::KeyG => 7,
        KeyCode::KeyH => 8,
        KeyCode::KeyI => 9,
        KeyCode::KeyJ => 10,
        KeyCode::KeyK => 11,
        KeyCode::KeyL => 12,
        KeyCode::KeyM => 13,
        KeyCode::KeyN => 14,
        KeyCode::KeyO => 15,
        KeyCode::KeyP => 16,
        KeyCode::KeyQ => 17,
        KeyCode::KeyR => 18,
        KeyCode::KeyS => 19,
        KeyCode::KeyT => 20,
        KeyCode::KeyU => 21,
        KeyCode::KeyV => 22,
        KeyCode::KeyW => 23,
        KeyCode::KeyX => 24,
        KeyCode::KeyY => 25,
        KeyCode::KeyZ => 26,
        _ => {
            return None;
        },
    };
    Some(n)
}

/// The bytes of keys that do not type a character of their own, with the
/// control key up.
pub open spec fn plain_key_bytes(shift: bool, key: KeyCode) -> Option<Seq<u8>> {
    match key {
        KeyCode::Escape => Some(seq![0x1bu8]),
        KeyCode::Backspace => Some(seq![0x7fu8]),
        KeyCode::Delete => Some(seq![0x1bu8, 0x5b, 0x33, 0x7e]),
        KeyCode::Enter => Some(
            if shift {
                seq![0x1bu8, 0x0d]
            } else {
                seq![0x0du8]
            },
        ),
        KeyCode::Tab => Some(seq![0x09u8]),
        KeyCode::Space => Some(seq![0x20u8]),
        KeyCode::ArrowUp => Some(seq![0x1bu8, 0x5b, 0x41]),
        KeyCode::ArrowDown => Some(seq![0x1bu8, 0x5b, 0x42]),
        KeyCode::ArrowRight => Some(seq![0x1bu8, 0x5b, 0x43]),
        KeyCode::ArrowLeft => Some(seq![0x1bu8, 0x5b, 0x44]),
        KeyCode::PageUp => Some(seq![0x1bu8, 0x5b, 0x35, 0x7e]),
        KeyCode::PageDown => Some(seq![0x1bu8, 0x5b, 0x36, 0x7e]),
        KeyCode::F1 => Some(seq![0x1bu8, 0x4f, 0x50]),
        KeyCode::F2 => Some(seq![0x1bu8, 0x4f, 0x51]),
        KeyCode::F3 => Some(seq![0x1bu8, 0x4f, 0x52]),
        KeyCode::F4 => Some(seq![0x1bu8, 0x4f, 0x53]),
        KeyCode::F5 => Some(seq![0x1bu8, 0x5b, 0x31, 0x35, 0x7e]),
        KeyCode::F6 => Some(seq![0x1bu8, 0x5b, 0x31, 0x37, 0x7e]),
        KeyCode::F7 => Some(seq![0x1bu8, 0x5b, 0x31, 0x38, 0x7e]),
        KeyCode::F8 => Some(seq![0x1bu8, 0x5b, 0x31, 0x39, 0x7e]),
        KeyCode::F9 => Some(seq![0x1bu8, 0x5b, 0x32, 0x30, 0x7e]),
        KeyCode::F10 => Some(seq![0x1bu8, 0x5b, 0x32, 0x31, 0x7e]),
        KeyCode::F11 => Some(seq![0x1bu8, 0x5b, 0x32, 0x33, 0x7e]),
        KeyCode::F12 => Some(seq![0x1bu8, 0x5b, 0x32, 0x34, 0x7e]),
        _ => None,
    }
}

/// The bytes of a key, `None` where it types its text: with the control key
/// down a letter sends its control code.
pub open spec fn key_bytes(control: bool, shift: bool, key: KeyCode) -> Option<Seq<u8>> {
    if !control {
        plain_key_bytes(shift, key)
    } else if shift {
        None
    } else {
        match letter_code(key) {
            Some(b) => Some(seq![b]),
            None => None,
        }
    }
}

/// The bytes inside an option.
pub open spec fn opt_bytes(o: Option<Vec<u8>>) -> Option<Seq<u8>> {
    match o {
        Some(v) => Some(v@),
        None => None,
    }
}

fn plain_bytes_for_key(shift: bool, key: KeyCode) -> (r: Option<Vec<u8>>)
    ensures
        opt_bytes(r) == plain_key_bytes(shift, key),
{
    let v: Vec<u8> = match key {
        KeyCode::Escape => vec![0x1b],
        KeyCode::Backspace => vec![0x7f],
        KeyCode::Delete => vec![0x1b, 0x5b, 0x33, 0x7e],
        KeyCode::Enter => if shift {
            vec![0x1b, 0x0d]
        } else {
            vec![0x0d]
        },
        KeyCode::Tab => vec![0x09],
        KeyCode::Space => vec![0x20],
        KeyCode::ArrowUp => vec![0x1b, 0x5b, 0x41],
        KeyCode::ArrowDown => vec![0x1b, 0x5b, 0x42],
        KeyCode::ArrowRight => vec![0x1b, 0x5b, 0x43],
        KeyCode::ArrowLeft => vec![0x1b, 0x5b, 0x44],
        KeyCode::PageUp => vec![0x1b, 0x5b, 0x35, 0x7e],
        KeyCode::PageDown => vec![0x1b, 0x5b, 0x36, 0x7e],
        KeyCode::F1 => vec![0x1b, 0x4f, 0x50],
        KeyCode::F2 => vec![0x1b, 0x4f, 0x51],
        KeyCode::F3 => vec![0x1b, 0x4f, 0x52],
        KeyCode::F4 => vec![0x1b, 0x4f, 0x53],
        KeyCode::F5 => vec![0x1b, 0x5b, 0x31, 0x35, 0x7e],
        KeyCode::F6 => vec![0x1b, 0x5b, 0x31, 0x37, 0x7e],
        KeyCode::F7 => vec![0x1b, 0x5b, 0x31, 0x38, 0x7e],
        KeyCode::F8 => vec![0x1b, 0x5b, 0x31, 0x39, 0x7e],
        KeyCode::F9 => vec![0x1b, 0x5b, 0x32, 0x30, 0x7e],
        KeyCode::F10 => vec![0x1b, 0x5b, 0x32, 0x31, 0x7e],
        KeyCode::F11 => vec![0x1b, 0x5b, 0x32, 0x33, 0x7e],
        KeyCode::F12 => vec![0x1b, 0x5b, 0x32, 0x34, 0x7e],
        _ => {
            return None;
        },
    };
    proof {
        let want = plain_key_bytes(shift, key)->0;
        assert(v@ =~= want);
    }
    Some(v)
}

/// The bytes of a key; `None` where it types its text.
pub fn bytes_for_key(control: bool, shift: bool, key: KeyCode) -> (r: Option<Vec<u8>>)
    ensures
        opt_bytes(r) == key_bytes(control, shift, key),
        !control && key == KeyCode::ArrowUp ==> r is Some && r->0@ == seq![0x1bu8, 0x5b, 0x41],
        !control && key == KeyCode::ArrowDown ==> r is Some && r->0@ == seq![0x1bu8, 0x5b, 0x42],
        !control && key == KeyCode::ArrowRight ==> r is Some && r->0@ == seq![0x1bu8, 0x5b, 0x43],
        !control && key == KeyCode::ArrowLeft ==> r is Some && r->0@ == seq![0x1bu8, 0x5b, 0x44],
{
    if !control {
        plain_bytes_for_key(shift, key)
    } else if shift {
        None
    } else {
        match ctrl_letter_code(key) {
            Some(b) => {
                let v: Vec<u8> = vec![b];
                assert(v@ =~= seq![b]);
                Some(v)
            },
            None => None,
        }
    }
}

// ---------------------------------------------------------------------------
// Mouse
// ---------------------------------------------------------------------------

/// A column or row of a short report: zero where it cannot be told.
pub open spec fn short_position(n: u32) -> u8 {
    if 0 < n < 224 {
        (n + 32) as u8
    } else {
        0
    }
}

/// A short report.
pub open spec fn short_report(button: u8, col: u32, row: u32) -> Seq<u8> {
    seq![
        0x1bu8,
        0x5b,
        0x4d,
        (32 + button) as u8,
        short_position(col),
        short_position(row),
    ]
}

/// The report of the mouse in the short form.
pub fn normal_mouse_report(button: u8, col: u32, row: u32) -> (r: Vec<u8>)
    requires
        button <= 223,
    ensures
        r@ == short_report(button, col, row),
{
    let c: u8 = if 0 < col && col < 224 {
        (col + 32) as u8
    } else {
        0
    };
    let l: u8 = if 0 < row && row < 224 {
        (row + 32) as u8
    } else {
        0
    };
    let v: Vec<u8> = vec![0x1b, 0x5b, 0x4d, 32 + button, c, l];
    assert(v@ =~= short_report(button, col, row));
    v
}

/// The text of a long report.
pub open spec fn long_report(button: u8, col: u32, row: u32, pressed: bool) -> Seq<char> {
    seq!['\u{1b}', '[', '<'] + decimal(button as nat) + seq![';'] + decimal(col as nat) + seq![';']
        + decimal(row as nat) + seq![
        if pressed {
            'M'
        } else {
            'm'
        },
    ]
}

/// The report of the mouse in the long form.
pub fn sgr_ext_mouse_report(button: u8, col: u32, row: u32, pressed: bool) -> (r: Vec<u8>)
    ensures
        r@ == encode_utf8(long_report(button, col, row, pressed)),
{
    let mut s = String::new();
    s.push('\u{1b}');
    s.push('[');
    s.push('<');
    s.append(decimal_text(button as u64).as_str());
    s.push(';');
    s.append(decimal_text(col as u64).as_str());
    s.push(';');
    s.append(decimal_text(row as u64).as_str());
    if pressed {
        s.push('M');
    } else {
        s.push('m');
    }
    assert(s@ =~= long_report(button, col, row, pressed));
    bytes_of(s.as_str())
}

/// A report in the form that the program asked for.
pub open spec fn report(sgr: bool, button: u8, col: u32, row: u32, pressed: bool) -> Seq<u8> {
    if sgr {
        encode_utf8(long_report(button, col, row, pressed))
    } else {
        short_report(button, col, row)
    }
}

/// The report of the mouse in the form that the program asked for.
pub fn mouse_report(sgr: bool, button: u8, col: u32, row: u32, pressed: bool) -> (r: Vec<u8>)
    requires
        button <= 223,
    ensures
        r@ == report(sgr, button, col, row, pressed),
{
    if sgr {
        sgr_ext_mouse_report(button, col, row, pressed)
    } else {
        normal_mouse_report(button, col, row)
    }
}

/// The modifiers as a report tells them.
pub open spec fn modifier_bits(m: ModifiersState) -> u8 {
    ((if m.shift {
        4int
    } else {
        0
    }) + (if m.alt {
        8int
    } else {
        0
    }) + (if m.control {
        16int
    } else {
        0
    })) as u8
}

/// The modifiers as a report tells them.
pub fn report_modifiers(m: ModifiersState) -> (r: u8)
    ensures
        r == modifier_bits(m),
        r <= 28,
{
    let a: u8 = if m.shift {
        4
    } else {
        0
    };
    let b: u8 = if m.alt {
        8
    } else {
        0
    };
    let c: u8 = if m.control {
        16
    } else {
        0
    };
    a + b + c
}

#[derive(Debug, Clone, Copy, PartialEq, Eq, Structural)]
pub enum MouseButton {
    Left,
    Middle,
    Right,
    Other,
}

/// The number of a button in a report. The short form does not tell which
/// button was released.
pub open spec fn button_number(button: MouseButton, pressed: bool, sgr: bool) -> u8 {
    if !pressed && !sgr {
        3
    } else {
        match button {
            MouseButton::Left => 0,
            MouseButton::Middle => 1,
            MouseButton::Right => 2,
            MouseButton::Other => 0,
        }
    }
}

/// The number of a button in a report.
pub fn report_button(button: MouseButton, pressed: bool, sgr: bool) -> (r: u8)
    ensures
        r == button_number(button, pressed, sgr),
        r <= 3,
{
    if !pressed && !sgr {
        3
    } else {
        match button {
            MouseButton::Left => 0,
            MouseButton::Middle => 1,
            MouseButton::Right => 2,
            MouseButton::Other => 0,
        }
    }
}

/// The bytes `n` times.
pub open spec fn times(b: Seq<u8>, n: nat) -> Seq<u8>
    decreases n,
{
    if n == 0 {
        Seq::empty()
    } else {
        times(b, (n - 1) as nat) + b
    }
}

/// The bytes `n` times.
pub fn repeat_bytes(b: &Vec<u8>, n: u32) -> (r: Vec<u8>)
    ensures
        r@ == times(b@, n as nat),
{
    let mut out: Vec<u8> = Vec::new();
    let mut i: u32 = 0;
    assert(out@ =~= Seq::empty());
    while i < n
        invariant
            i <= n,
            out@ == times(b@, i as nat),
        decreases n - i,
    {
        out.extend_from_slice(b.as_slice());
        assert(out@ =~= times(b@, i as nat) + b@);
        i += 1;
    }
    out
}

} // verus!
