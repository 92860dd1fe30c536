//! Keys and the modifiers held with them.

use crate::text::{ascii_lower, chars_of, same_text, to_ascii_lower, white};
use vstd::prelude::*;
use vstd::string::*;

verus! {

/// The keys that mean something here. `Other` is any other key.
#[derive(Debug, Clone, Copy, PartialEq, Eq, Structural)]
pub enum KeyCode {
    KeyA,
    KeyB,
    KeyC,
    KeyD,
    KeyE,
    KeyF,
    KeyG,
    KeyH,
    KeyI,
    KeyJ,
    KeyK,
    KeyL,
    KeyM,
    KeyN,
    KeyO,
    KeyP,
    KeyQ,
    KeyR,
    KeyS,
    KeyT,
    KeyU,
    KeyV,
    KeyW,
    KeyX,
    KeyY,
    KeyZ,
    Digit0,
    Digit1,
    Digit2,
    Digit3,
    Digit4,
    Digit5,
    Digit6,
    Digit7,
    Digit8,
    Digit9,
    F1,
    F2,
    F3,
    F4,
    F5,
    F6,
    F7,
    F8,
    F9,
    F10,
    F11,
    F12,
    Tab,
    Delete,
    Backspace,
    Enter,
    Escape,
    Space,
    ArrowUp,
    ArrowDown,
    ArrowLeft,
    ArrowRight,
    Minus,
    Equal,
    Home,
    End,
    PageUp,
    PageDown,
    Other,
}

/// The modifiers that are held down.
#[derive(Debug, Clone, Copy, PartialEq, Eq, Structural)]
pub struct ModifiersState {
    pub control: bool,
    pub shift: bool,
    pub alt: bool,
    pub logo: bool,
}

/// The key a single small character names.
pub open spec fn char_key(c: char) -> Option<KeyCode> {
    match c {
        'a' => Some(KeyCode::KeyA),
        'b' => Some(KeyCode::KeyB),
        'c' => Some(KeyCode::KeyC),
        'd' => Some(KeyCode::KeyD),
        'e' => Some(KeyCode::KeyE),
        'f' => Some(KeyCode::KeyF),
        'g' => Some(KeyCode::KeyG),
        'h' => Some(KeyCode::KeyH),
        'i' => Some(KeyCode::KeyI),
        'j' => Some(KeyCode::KeyJ),
        'k' => Some(KeyCode::KeyK),
        'l' => Some(KeyCode::KeyL),
        'm' => Some(KeyCode::KeyM),
        'n' => Some(KeyCode::KeyN),
        'o' => Some(KeyCode::KeyO),
        'p' => Some(KeyCode::KeyP),
        'q' => Some(KeyCode::KeyQ),
        'r' => Some(KeyCode::KeyR),
        's' => Some(KeyCode::KeyS),
        't' => Some(KeyCode::KeyT),
        'u' => Some(KeyCode::KeyU),
        'v' => Some(KeyCode::KeyV),
        'w' => Some(KeyCode::KeyW),
        'x' => Some(KeyCode::KeyX),
        'y' => Some(KeyCode::KeyY),
        'z' => Some(KeyCode::KeyZ),
        '0' => Some(KeyCode::Digit0),
        '1' => Some(KeyCode::Digit1),
        '2' => Some(KeyCode::Digit2),
        '3' => Some(KeyCode::Digit3),
        '4' => Some(KeyCode::Digit4),
        '5' => Some(KeyCode::Digit5),
        '6' => Some(KeyCode::Digit6),
        '7' => Some(KeyCode::Digit7),
        '8' => Some(KeyCode::Digit8),
        '9' => Some(KeyCode::Digit9),
        '-' => Some(KeyCode::Minus),
        '=' => Some(KeyCode::Equal),
        _ => None,
    }
}

/// The key a name in small letters names.
pub open spec fn key_named(n: Seq<char>) -> Option<KeyCode> {
    if n.len() == 1 {
        char_key(n[0])
    } else if n == "f1"@ {
        Some(KeyCode::F1)
    } else if n == "f2"@ {
        Some(KeyCode::F2)
    } else if n == "f3"@ {
        Some(KeyCode::F3)
    } else if n == "f4"@ {
        Some(KeyCode::F4)
    } else if n == "f5"@ {
        Some(KeyCode::F5)
    } else if n == "f6"@ {
        Some(KeyCode::F6)
    } else if n == "f7"@ {
        Some(KeyCode::F7)
    } else if n == "f8"@ {
        Some(KeyCode::F8)
    } else if n == "f9"@ {
        Some(KeyCode::F9)
    } else if n == "f10"@ {
        Some(KeyCode::F10)
    } else if n == "f11"@ {
        Some(KeyCode::F11)
    } else if n == "f12"@ {
        Some(KeyCode::F12)
    } else if n == "tab"@ {
        Some(KeyCode::Tab)
    } else if n == "delete"@ {
        Some(KeyCode::Delete)
    } else if n == "backspace"@ {
        Some(KeyCode::Backspace)
    } else if n == "enter"@ {
        Some(KeyCode::Enter)
    } else if n == "escape"@ || n == "esc"@ {
        Some(KeyCode::Escape)
    } else if n == "space"@ {
        Some(KeyCode::Space)
    } else if n == "up"@ {
        Some(KeyCode::ArrowUp)
    } else if n == "down"@ {
        Some(KeyCode::ArrowDown)
    } else if n == "left"@ {
        Some(KeyCode::ArrowLeft)
    } else if n == "right"@ {
        Some(KeyCode::ArrowRight)
    } else if n == "minus"@ {
        Some(KeyCode::Minus)
    } else if n == "equal"@ {
        Some(KeyCode::Equal)
    } else {
        None
    }
}

/// The name a key is shown by.
pub open spec fn key_label(key: KeyCode) -> Seq<char> {
    match key {
        KeyCode::KeyA => seq!['A'],
        KeyCode::KeyB => seq!['B'],
        KeyCode::KeyC => seq!['C'],
        KeyCode::KeyD => seq!['D'],
        KeyCode::KeyE => seq!['E'],
        KeyCode::KeyF => seq!['F'],
        KeyCode::KeyG => seq!['G'],
        KeyCode::KeyH => seq!['H'],
        KeyCode::KeyI => seq!['I'],
        KeyCode::KeyJ => seq!['J'],
        KeyCode::KeyK => seq!['K'],
        KeyCode::KeyL => seq!['L'],
        KeyCode::KeyM => seq!['M'],
        KeyCode::KeyN => seq!['N'],
        KeyCode::KeyO => seq!['O'],
        KeyCode::KeyP => seq!['P'],
        KeyCode::KeyQ => seq!['Q'],
        KeyCode::KeyR => seq!['R'],
        KeyCode::KeyS => seq!['S'],
        KeyCode::KeyT => seq!['T'],
        KeyCode::KeyU => seq!['U'],
        KeyCode::KeyV => seq!['V'],
        KeyCode::KeyW => seq!['W'],
        KeyCode::KeyX => seq!['X'],
        KeyCode::KeyY => seq!['Y'],
        KeyCode::KeyZ => seq!['Z'],
        KeyCode::Digit0 => seq!['0'],
        KeyCode::Digit1 => seq!['1'],
        KeyCode::Digit2 => seq!['2'],
        KeyCode::Digit3 => seq!['3'],
        KeyCode::Digit4 => seq!['4'],
        KeyCode::Digit5 => seq!['5'],
        KeyCode::Digit6 => seq!['6'],
        KeyCode::Digit7 => seq!['7'],
        KeyCode::Digit8 => seq!['8'],
        KeyCode::Digit9 => seq!['9'],
        KeyCode::F1 => "F1"@,
        KeyCode::F2 => "F2"@,
        KeyCode::F3 => "F3"@,
        KeyCode::F4 => "F4"@,
        KeyCode::F5 => "F5"@,
        KeyCode::F6 => "F6"@,
        KeyCode::F7 => "F7"@,
        KeyCode::F8 => "F8"@,
        KeyCode::F9 => "F9"@,
        KeyCode::F10 => "F10"@,
        KeyCode::F11 => "F11"@,
        KeyCode::F12 => "F12"@,
        KeyCode::Tab => "Tab"@,
        KeyCode::Delete => "Delete"@,
        KeyCode::Backspace => "Backspace"@,
        KeyCode::Enter => "Enter"@,
        KeyCode::Escape => "Escape"@,
        KeyCode::Space => "Space"@,
        KeyCode::ArrowUp => "Up"@,
        KeyCode::ArrowDown => "Down"@,
        KeyCode::ArrowLeft => "Left"@,
        KeyCode::ArrowRight => "Right"@,
        KeyCode::Minus => "Minus"@,
        KeyCode::Equal => "Equal"@,
        _ => "Unknown"@,
    }
}

/// The key a name names; the case of its letters makes no difference.
pub fn parse_key_name(name: &str) -> (r: Option<KeyCode>)
    ensures
        r == key_named(ascii_lower(name@)),
{
    let low = to_ascii_lower(name);
    let cs = chars_of(low.as_str());
    if cs.len() == 1 {
        return key_of_char(cs[0]);
    }
    let n = low.as_str();
    if same_text(n, "f1") {
        Some(KeyCode::F1)
    } else if same_text(n, "f2") {
        Some(KeyCode::F2)
    } else if same_text(n, "f3") {
        Some(KeyCode::F3)
    } else if same_text(n, "f4") {
        Some(KeyCode::F4)
    } else if same_text(n, "f5") {
        Some(KeyCode::F5)
    } else if same_text(n, "f6") {
        Some(KeyCode::F6)
    } else if same_text(n, "f7") {
        Some(KeyCode::F7)
    } else if same_text(n, "f8") {
        Some(KeyCode::F8)
    } else if same_text(n, "f9") {
        Some(KeyCode::F9)
    } else if same_text(n, "f10") {
        Some(KeyCode::F10)
    } else if same_text(n, "f11") {
        Some(KeyCode::F11)
    } else if same_text(n, "f12") {
        Some(KeyCode::F12)
    } else if same_text(n, "tab") {
        Some(KeyCode::Tab)
    } else if same_text(n, "delete") {
        Some(KeyCode::Delete)
    } else if same_text(n, "backspace") {
        Some(KeyCode::Backspace)
    } else if same_text(n, "enter") {
        Some(KeyCode::Enter)
    } else if same_text(n, "escape") || same_text(n, "esc") {
        Some(KeyCode::Escape)
    } else if same_text(n, "space") {
        Some(KeyCode::Space)
    } else if same_text(n, "up") {
        Some(KeyCode::ArrowUp)
    } else if same_text(n, "down") {
        Some(KeyCode::ArrowDown)
    } else if same_text(n, "left") {
        Some(KeyCode::ArrowLeft)
    } else if same_text(n, "right") {
        Some(KeyCode::ArrowRight)
    } else if same_text(n, "minus") {
        Some(KeyCode::Minus)
    } else if same_text(n, "equal") {
        Some(KeyCode::Equal)
    } else {
        None
    }
}

/// The key a single small character names.
fn key_of_char(c: char) -> (r: Option<KeyCode>)
    ensures
        r == char_key(c),
{
    match c {
        'a' => Some(KeyCode::KeyA),
        'b' => Some(KeyCode::KeyB),
        'c' => Some(KeyCode::KeyC),
        'd' => Some(KeyCode::KeyD),
        'e' => Some(KeyCode::KeyE),
        'f' => Some(KeyCode::KeyF),
        'g' => Some(KeyCode::KeyG),
        'h' => Some(KeyCode::KeyH),
        'i' => Some(KeyCode::KeyI),
        'j' => Some(KeyCode::KeyJ),
        'k' => Some(KeyCode::KeyK),
        'l' => Some(KeyCode::KeyL),
        'm' => Some(KeyCode::KeyM),
        'n' => Some(KeyCode::KeyN),
        'o' => Some(KeyCode::KeyO),
        'p' => Some(KeyCode::KeyP),
        'q' => Some(KeyCode::KeyQ),
        'r' => Some(KeyCode::KeyR),
        's' => Some(KeyCode::KeyS),
        't' => Some(KeyCode::KeyT),
        'u' => Some(KeyCode::KeyU),
        'v' => Some(KeyCode::KeyV),
        'w' => Some(KeyCode::KeyW),
        'x' => Some(KeyCode::KeyX),
        'y' => Some(KeyCode::KeyY),
        'z' => Some(KeyCode::KeyZ),
        '0' => Some(KeyCode::Digit0),
        '1' => Some(KeyCode::Digit1),
        '2' => Some(KeyCode::Digit2),
        '3' => Some(KeyCode::Digit3),
        '4' => Some(KeyCode::Digit4),
        '5' => Some(KeyCode::Digit5),
        '6' => Some(KeyCode::Digit6),
        '7' => Some(KeyCode::Digit7),
        '8' => Some(KeyCode::Digit8),
        '9' => Some(KeyCode::Digit9),
        '-' => Some(KeyCode::Minus),
        '=' => Some(KeyCode::Equal),
        _ => None,
    }
}

/// The name a key is shown by.
pub fn key_name(key: KeyCode) -> (r: &'static str)
    ensures
        r@ == key_label(key),
{
    proof {
        reveal_strlit("A");
        reveal_strlit("B");
        reveal_strlit("C");
        reveal_strlit("D");
        reveal_strlit("E");
        reveal_strlit("F");
        reveal_strlit("G");
        reveal_strlit("H");
        reveal_strlit("I");
        reveal_strlit("J");
        reveal_strlit("K");
        reveal_strlit("L");
        reveal_strlit("M");
        reveal_strlit("N");
        reveal_strlit("O");
        reveal_strlit("P");
        reveal_strlit("Q");
        reveal_strlit("R");
        reveal_strlit("S");
        reveal_strlit("T");
        reveal_strlit("U");
        reveal_strlit("V");
        reveal_strlit("W");
        reveal_strlit("X");
        reveal_strlit("Y");
        reveal_strlit("Z");
        reveal_strlit("0");
        reveal_strlit("1");
        reveal_strlit("2");
        reveal_strlit("3");
        reveal_strlit("4");
        reveal_strlit("5");
        reveal_strlit("6");
        reveal_strlit("7");
        reveal_strlit("8");
        reveal_strlit("9");
    }
    let name: &'static str = match key {
        KeyCode::KeyA => "A",
        KeyCode::KeyB => "B",
        KeyCode::KeyC => "C",
        KeyCode::KeyD => "D",
        KeyCode::KeyE => "E",
        KeyCode::KeyF => "F",
        KeyCode::KeyG => "G",
        KeyCode::KeyH => "H",
        KeyCode::KeyI => "I",
        KeyCode::KeyJ => "J",
        KeyCode::KeyK => "K",
        KeyCode::KeyL => "L",
        KeyCode::KeyM => "M",
        KeyCode::KeyN => "N",
        KeyCode::KeyO => "O",
        KeyCode::KeyP => "P",
        KeyCode::KeyQ => "Q",
        KeyCode::KeyR => "R",
        KeyCode::KeyS => "S",
        KeyCode::KeyT => "T",
        KeyCode::KeyU => "U",
        KeyCode::KeyV => "V",
        KeyCode::KeyW => "W",
        KeyCode::KeyX => "X",
        KeyCode::KeyY => "Y",
        KeyCode::KeyZ => "Z",
        KeyCode::Digit0 => "0",
        KeyCode::Digit1 => "1",
        KeyCode::Digit2 => "2",
        KeyCode::Digit3 => "3",
        KeyCode::Digit4 => "4",
        KeyCode::Digit5 => "5",
        KeyCode::Digit6 => "6",
        KeyCode::Digit7 => "7",
        KeyCode::Digit8 => "8",
        KeyCode::Digit9 => "9",
        KeyCode::F1 => "F1",
        KeyCode::F2 => "F2",
        KeyCode::F3 => "F3",
        KeyCode::F4 => "F4",
        KeyCode::F5 => "F5",
        KeyCode::F6 => "F6",
        KeyCode::F7 => "F7",
        KeyCode::F8 => "F8",
        KeyCode::F9 => "F9",
        KeyCode::F10 => "F10",
        KeyCode::F11 => "F11",
        KeyCode::F12 => "F12",
        KeyCode::Tab => "Tab",
        KeyCode::Delete => "Delete",
        KeyCode::Backspace => "Backspace",
        KeyCode::Enter => "Enter",
        KeyCode::Escape => "Escape",
        KeyCode::Space => "Space",
        KeyCode::ArrowUp => "Up",
        KeyCode::ArrowDown => "Down",
        KeyCode::ArrowLeft => "Left",
        KeyCode::ArrowRight => "Right",
        KeyCode::Minus => "Minus",
        KeyCode::Equal => "Equal",
        _ => "Unknown",
    };
    assert(name@ =~= key_label(key));
    name
}

/// Whether a key has a name of its own.
pub open spec fn nameable(key: KeyCode) -> bool {
    match key {
        KeyCode::Home | KeyCode::End | KeyCode::PageUp | KeyCode::PageDown | KeyCode::Other => false,
        _ => true,
    }
}

/// The name a key is shown by names that key.
pub proof fn law_key_names(key: KeyCode)
    requires
        nameable(key),
    ensures
        key_named(ascii_lower(key_label(key))) == Some(key),
        key_label(key).len() > 0,
        forall|i: int|
            0 <= i < key_label(key).len() ==> {
                let c = #[trigger] key_label(key)[i];
                !white(c) && c != '+'
            },
{
    let low = ascii_lower(key_label(key));
    reveal_strlit("F1");
    reveal_strlit("f1");
    reveal_strlit("F2");
    reveal_strlit("f2");
    reveal_strlit("F3");
    reveal_strlit("f3");
    reveal_strlit("F4");
    reveal_strlit("f4");
    reveal_strlit("F5");
    reveal_strlit("f5");
    reveal_strlit("F6");
    reveal_strlit("f6");
    reveal_strlit("F7");
    reveal_strlit("f7");
    reveal_strlit("F8");
    reveal_strlit("f8");
    reveal_strlit("F9");
    reveal_strlit("f9");
    reveal_strlit("F10");
    reveal_strlit("f10");
    reveal_strlit("F11");
    reveal_strlit("f11");
    reveal_strlit("F12");
    reveal_strlit("f12");
    reveal_strlit("tab");
    reveal_strlit("Tab");
    reveal_strlit("delete");
    reveal_strlit("Delete");
    reveal_strlit("backspace");
    reveal_strlit("Backspace");
    reveal_strlit("enter");
    reveal_strlit("Enter");
    reveal_strlit("escape");
    reveal_strlit("Escape");
    reveal_strlit("space");
    reveal_strlit("Space");
    reveal_strlit("up");
    reveal_strlit("Up");
    reveal_strlit("down");
    reveal_strlit("Down");
    reveal_strlit("left");
    reveal_strlit("Left");
    reveal_strlit("right");
    reveal_strlit("Right");
    reveal_strlit("minus");
    reveal_strlit("Minus");
    reveal_strlit("equal");
    reveal_strlit("Equal");
    reveal_strlit("esc");
    match key {
        KeyCode::F1 => {
            assert(low =~= "f1"@);
            assert(low[0] == 'f' && low[1] == '1');
        },
        KeyCode::F2 => {
            assert(low =~= "f2"@);
            assert(low[0] == 'f' && low[1] == '2');
        },
        KeyCode::F3 => {
            assert(low =~= "f3"@);
            assert(low[0] == 'f' && low[1] == '3');
        },
        KeyCode::F4 => {
            assert(low =~= "f4"@);
            assert(low[0] == 'f' && low[1] == '4');
        },
        KeyCode::F5 => {
            assert(low =~= "f5"@);
            assert(low[0] == 'f' && low[1] == '5');
        },
        KeyCode::F6 => {
            assert(low =~= "f6"@);
            assert(low[0] == 'f' && low[1] == '6');
        },
        KeyCode::F7 => {
            assert(low =~= "f7"@);
            assert(low[0] == 'f' && low[1] == '7');
        },
        KeyCode::F8 => {
            assert(low =~= "f8"@);
            assert(low[0] == 'f' && low[1] == '8');
        },
        KeyCode::F9 => {
            assert(low =~= "f9"@);
            assert(low[0] == 'f' && low[1] == '9');
        },
        KeyCode::F10 => {
            assert(low =~= "f10"@);
            assert(low[0] == 'f' && low[1] == '1' && low[2] == '0');
        },
        KeyCode::F11 => {
            assert(low =~= "f11"@);
            assert(low[0] == 'f' && low[1] == '1' && low[2] == '1');
        },
        KeyCode::F12 => {
            assert(low =~= "f12"@);
            assert(low[0] == 'f' && low[1] == '1' && low[2] == '2');
        },
        KeyCode::Tab => {
            assert(low =~= "tab"@);
            assert(low[0] == 't' && low[1] == 'a' && low[2] == 'b');
        },
        KeyCode::Delete => {
            assert(low =~= "delete"@);
            assert(low[0] == 'd' && low[1] == 'e' && low[2] == 'l' && low[3] == 'e' && low[4] == 't' && low[5] == 'e');
        },
        KeyCode::Backspace => {
            assert(low =~= "backspace"@);
            assert(low[0] == 'b' && low[1] == 'a' && low[2] == 'c' && low[3] == 'k' && low[4] == 's' && low[5] == 'p' && low[6] == 'a' && low[7] == 'c' && low[8] == 'e');
        },
        KeyCode::Enter => {
            assert(low =~= "enter"@);
            assert(low[0] == 'e' && low[1] == 'n' && low[2] == 't' && low[3] == 'e' && low[4] == 'r');
        },
        KeyCode::Escape => {
            assert(low =~= "escape"@);
            assert(low[0] == 'e' && low[1] == 's' && low[2] == 'c' && low[3] == 'a' && low[4] == 'p' && low[5] == 'e');
        },
        KeyCode::Space => {
            assert(low =~= "space"@);
            assert(low[0] == 's' && low[1] == 'p' && low[2] == 'a' && low[3] == 'c' && low[4] == 'e');
        },
        KeyCode::ArrowUp => {
            assert(low =~= "up"@);
            assert(low[0] == 'u' && low[1] == 'p');
        },
        KeyCode::ArrowDown => {
            assert(low =~= "down"@);
            assert(low[0] == 'd' && low[1] == 'o' && low[2] == 'w' && low[3] == 'n');
        },
        KeyCode::ArrowLeft => {
            assert(low =~= "left"@);
            assert(low[0] == 'l' && low[1] == 'e' && low[2] == 'f' && low[3] == 't');
        },
        KeyCode::ArrowRight => {
            assert(low =~= "right"@);
            assert(low[0] == 'r' && low[1] == 'i' && low[2] == 'g' && low[3] == 'h' && low[4] == 't');
        },
        KeyCode::Minus => {
            assert(low =~= "minus"@);
            assert(low[0] == 'm' && low[1] == 'i' && low[2] == 'n' && low[3] == 'u' && low[4] == 's');
        },
        KeyCode::Equal => {
            assert(low =~= "equal"@);
            assert(low[0] == 'e' && low[1] == 'q' && low[2] == 'u' && low[3] == 'a' && low[4] == 'l');
        },
        KeyCode::KeyA => {
            assert(low[0] == 'a');
        },
        KeyCode::KeyB => {
            assert(low[0] == 'b');
        },
        KeyCode::KeyC => {
            assert(low[0] == 'c');
        },
        KeyCode::KeyD => {
            assert(low[0] == 'd');
        },
        KeyCode::KeyE => {
            assert(low[0] == 'e');
        },
        KeyCode::KeyF => {
            assert(low[0] == 'f');
        },
        KeyCode::KeyG => {
            assert(low[0] == 'g');
        },
        KeyCode::KeyH => {
            assert(low[0] == 'h');
        },
        KeyCode::KeyI => {
            assert(low[0] == 'i');
        },
        KeyCode::KeyJ => {
            assert(low[0] == 'j');
        },
        KeyCode::KeyK => {
            assert(low[0] == 'k');
        },
        KeyCode::KeyL => {
            assert(low[0] == 'l');
        },
        KeyCode::KeyM => {
            assert(low[0] == 'm');
        },
        KeyCode::KeyN => {
            assert(low[0] == 'n');
        },
        KeyCode::KeyO => {
            assert(low[0] == 'o');
        },
        KeyCode::KeyP => {
            assert(low[0] == 'p');
        },
        KeyCode::KeyQ => {
            assert(low[0] == 'q');
        },
        KeyCode::KeyR => {
            assert(low[0] == 'r');
        },
        KeyCode::KeyS => {
            assert(low[0] == 's');
        },
        KeyCode::KeyT => {
            assert(low[0] == 't');
        },
        KeyCode::KeyU => {
            assert(low[0] == 'u');
        },
        KeyCode::KeyV => {
            assert(low[0] == 'v');
        },
        KeyCode::KeyW => {
            assert(low[0] == 'w');
        },
        KeyCode::KeyX => {
            assert(low[0] == 'x');
        },
        KeyCode::KeyY => {
            assert(low[0] == 'y');
        },
        KeyCode::KeyZ => {
            assert(low[0] == 'z');
        },
        _ => {},
    }
}

} // verus!
