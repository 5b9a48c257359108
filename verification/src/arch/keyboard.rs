//! PS/2 keyboard (scancode set 1): scancodes to key events, modifier
//! keys, and keys to characters on the US layout.

use vstd::prelude::*;

verus! {

/// A key.
#[derive(Debug, Clone, Copy, PartialEq, Eq, Structural)]
pub enum KeyCode {
    Char(char),
    Backspace,
    Delete,
    Enter,
    Tab,
    Escape,
    LeftShift,
    RightShift,
    LeftCtrl,
    RightCtrl,
    LeftAlt,
    RightAlt,
    CapsLock,
    F1,
    F2,
    F3,
    F4,
    F5,
    F6,
    F7,
    F8,
    F9,
    F10,
    F11,
    F12,
    Up,
    Down,
    Left,
    Right,
    Home,
    End,
    Unknown,
}

/// A key going down or up.
#[derive(Debug, Clone, Copy, PartialEq, Eq, Structural)]
pub enum KeyEvent {
    Press(KeyCode),
    Release(KeyCode),
}

/// The key a scancode (without its release bit) names.
pub open spec fn spec_base_key(code: u8) -> KeyCode {
    match code {
        0x01u8 => KeyCode::Escape,
        0x02u8 => KeyCode::Char('1'),
        0x03u8 => KeyCode::Char('2'),
        0x04u8 => KeyCode::Char('3'),
        0x05u8 => KeyCode::Char('4'),
        0x06u8 => KeyCode::Char('5'),
        0x07u8 => KeyCode::Char('6'),
        0x08u8 => KeyCode::Char('7'),
        0x09u8 => KeyCode::Char('8'),
        0x0Au8 => KeyCode::Char('9'),
        0x0Bu8 => KeyCode::Char('0'),
        0x0Cu8 => KeyCode::Char('-'),
        0x0Du8 => KeyCode::Char('='),
        0x0Eu8 => KeyCode::Backspace,
        0x0Fu8 => KeyCode::Tab,
        0x10u8 => KeyCode::Char('q'),
        0x11u8 => KeyCode::Char('w'),
        0x12u8 => KeyCode::Char('e'),
        0x13u8 => KeyCode::Char('r'),
        0x14u8 => KeyCode::Char('t'),
        0x15u8 => KeyCode::Char('y'),
        0x16u8 => KeyCode::Char('u'),
        0x17u8 => KeyCode::Char('i'),
        0x18u8 => KeyCode::Char('o'),
        0x19u8 => KeyCode::Char('p'),
        0x1Au8 => KeyCode::Char('['),
        0x1Bu8 => KeyCode::Char(']'),
        0x1Cu8 => KeyCode::Enter,
        0x1Du8 => KeyCode::LeftCtrl,
        0x1Eu8 => KeyCode::Char('a'),
        0x1Fu8 => KeyCode::Char('s'),
        0x20u8 => KeyCode::Char('d'),
        0x21u8 => KeyCode::Char('f'),
        0x22u8 => KeyCode::Char('g'),
        0x23u8 => KeyCode::Char('h'),
        0x24u8 => KeyCode::Char('j'),
        0x25u8 => KeyCode::Char('k'),
        0x26u8 => KeyCode::Char('l'),
        0x27u8 => KeyCode::Char(';'),
        0x28u8 => KeyCode::Char('\''),
        0x29u8 => KeyCode::Char('`'),
        0x2Au8 => KeyCode::LeftShift,
        0x2Bu8 => KeyCode::Char('\\'),
        0x2Cu8 => KeyCode::Char('z'),
        0x2Du8 => KeyCode::Char('x'),
        0x2Eu8 => KeyCode::Char('c'),
        0x2Fu8 => KeyCode::Char('v'),
        0x30u8 => KeyCode::Char('b'),
        0x31u8 => KeyCode::Char('n'),
        0x32u8 => KeyCode::Char('m'),
        0x33u8 => KeyCode::Char(','),
        0x34u8 => KeyCode::Char('.'),
        0x35u8 => KeyCode::Char('/'),
        0x36u8 => KeyCode::RightShift,
        0x38u8 => KeyCode::LeftAlt,
        0x39u8 => KeyCode::Char(' '),
        0x3Au8 => KeyCode::CapsLock,
        0x3Bu8 => KeyCode::F1,
        0x3Cu8 => KeyCode::F2,
        0x3Du8 => KeyCode::F3,
        0x3Eu8 => KeyCode::F4,
        0x3Fu8 => KeyCode::F5,
        0x40u8 => KeyCode::F6,
        0x41u8 => KeyCode::F7,
        0x42u8 => KeyCode::F8,
        0x43u8 => KeyCode::F9,
        0x44u8 => KeyCode::F10,
        0x57u8 => KeyCode::F11,
        0x58u8 => KeyCode::F12,
        _ => KeyCode::Unknown,
    }
}

/// The key an extended scancode (after the 0xE0 prefix, without its
/// release bit) names.
pub open spec fn spec_extended_key(code: u8) -> KeyCode {
    match code {
        0x1Du8 => KeyCode::RightCtrl,
        0x47u8 => KeyCode::Home,
        0x48u8 => KeyCode::Up,
        0x4Bu8 => KeyCode::Left,
        0x4Du8 => KeyCode::Right,
        0x4Fu8 => KeyCode::End,
        0x50u8 => KeyCode::Down,
        0x53u8 => KeyCode::Delete,
        _ => KeyCode::Unknown,
    }
}

/// The scancode (set 1, without the release bit) of each key that has one.
spec fn spec_base_code(k: KeyCode) -> u8 {
    match k {
        KeyCode::Escape => 0x01u8,
        KeyCode::Backspace => 0x0Eu8,
        KeyCode::Tab => 0x0Fu8,
        KeyCode::Enter => 0x1Cu8,
        KeyCode::LeftCtrl => 0x1Du8,
        KeyCode::LeftShift => 0x2Au8,
        KeyCode::RightShift => 0x36u8,
        KeyCode::LeftAlt => 0x38u8,
        KeyCode::CapsLock => 0x3Au8,
        KeyCode::F1 => 0x3Bu8,
        KeyCode::F2 => 0x3Cu8,
        KeyCode::F3 => 0x3Du8,
        KeyCode::F4 => 0x3Eu8,
        KeyCode::F5 => 0x3Fu8,
        KeyCode::F6 => 0x40u8,
        KeyCode::F7 => 0x41u8,
        KeyCode::F8 => 0x42u8,
        KeyCode::F9 => 0x43u8,
        KeyCode::F10 => 0x44u8,
        KeyCode::F11 => 0x57u8,
        KeyCode::F12 => 0x58u8,
        KeyCode::Char(ch) => spec_char_code(ch),
        _ => 0u8,
    }
}

spec fn spec_char_code(ch: char) -> u8 {
    match ch {
        '1' => 0x02u8,
        '2' => 0x03u8,
        '3' => 0x04u8,
        '4' => 0x05u8,
        '5' => 0x06u8,
        '6' => 0x07u8,
        '7' => 0x08u8,
        '8' => 0x09u8,
        '9' => 0x0Au8,
        '0' => 0x0Bu8,
        '-' => 0x0Cu8,
        '=' => 0x0Du8,
        'q' => 0x10u8,
        'w' => 0x11u8,
        'e' => 0x12u8,
        'r' => 0x13u8,
        't' => 0x14u8,
        'y' => 0x15u8,
        'u' => 0x16u8,
        'i' => 0x17u8,
        'o' => 0x18u8,
        'p' => 0x19u8,
        '[' => 0x1Au8,
        ']' => 0x1Bu8,
        'a' => 0x1Eu8,
        's' => 0x1Fu8,
        'd' => 0x20u8,
        'f' => 0x21u8,
        'g' => 0x22u8,
        'h' => 0x23u8,
        'j' => 0x24u8,
        'k' => 0x25u8,
        'l' => 0x26u8,
        ';' => 0x27u8,
        '\'' => 0x28u8,
        '`' => 0x29u8,
        '\\' => 0x2Bu8,
        'z' => 0x2Cu8,
        'x' => 0x2Du8,
        'c' => 0x2Eu8,
        'v' => 0x2Fu8,
        'b' => 0x30u8,
        'n' => 0x31u8,
        'm' => 0x32u8,
        ',' => 0x33u8,
        '.' => 0x34u8,
        '/' => 0x35u8,
        ' ' => 0x39u8,
        _ => 0u8,
    }
}

/// The scancode table names each key at most once: two different
/// scancodes never give the same key (except that both name no key).
pub proof fn lemma_base_key_injective()
    ensures
        forall|a: u8, b: u8|
            a != b && #[trigger] spec_base_key(a) == #[trigger] spec_base_key(b) ==> spec_base_key(a) == KeyCode::Unknown,
{
    assert forall|c: u8| spec_base_key(c) != KeyCode::Unknown implies spec_base_code(#[trigger] spec_base_key(c)) == c by {}
}

/// The characters of the number row, in key order.
pub open spec fn spec_row_number() -> Seq<char> {
    seq!['1', '2', '3', '4', '5', '6', '7', '8', '9', '0', '-', '=']
}

/// The characters of the top letter row, in key order.
pub open spec fn spec_row_qwerty() -> Seq<char> {
    seq!['q', 'w', 'e', 'r', 't', 'y', 'u', 'i', 'o', 'p', '[', ']']
}

/// The characters of the middle letter row, in key order.
pub open spec fn spec_row_asdf() -> Seq<char> {
    seq!['a', 's', 'd', 'f', 'g', 'h', 'j', 'k', 'l', ';', '\'', '`']
}

/// The characters of the bottom letter row, in key order.
pub open spec fn spec_row_zxcv() -> Seq<char> {
    seq!['\\', 'z', 'x', 'c', 'v', 'b', 'n', 'm', ',', '.', '/']
}

/// The keys of scancode set 1: the number row from 0x02 (1 to 0, minus,
/// equals), the letter rows from 0x10 (q to ]), 0x1E (a to the back
/// quote) and 0x2B (backslash, z to slash), the space bar at 0x39, and the
/// control, modifier and function keys at their codes.
pub proof fn lemma_base_key_rows()
    ensures
        forall|i: int| 0 <= i < 12 ==> spec_base_key((0x2 + i) as u8) == KeyCode::Char(#[trigger] spec_row_number()[i]),
        forall|i: int| 0 <= i < 12 ==> spec_base_key((0x10 + i) as u8) == KeyCode::Char(#[trigger] spec_row_qwerty()[i]),
        forall|i: int| 0 <= i < 12 ==> spec_base_key((0x1e + i) as u8) == KeyCode::Char(#[trigger] spec_row_asdf()[i]),
        forall|i: int| 0 <= i < 11 ==> spec_base_key((0x2b + i) as u8) == KeyCode::Char(#[trigger] spec_row_zxcv()[i]),
        spec_base_key(0x01) == KeyCode::Escape,
        spec_base_key(0x0E) == KeyCode::Backspace,
        spec_base_key(0x0F) == KeyCode::Tab,
        spec_base_key(0x1C) == KeyCode::Enter,
        spec_base_key(0x1D) == KeyCode::LeftCtrl,
        spec_base_key(0x2A) == KeyCode::LeftShift,
        spec_base_key(0x36) == KeyCode::RightShift,
        spec_base_key(0x38) == KeyCode::LeftAlt,
        spec_base_key(0x3A) == KeyCode::CapsLock,
        spec_base_key(0x3B) == KeyCode::F1,
        spec_base_key(0x3C) == KeyCode::F2,
        spec_base_key(0x3D) == KeyCode::F3,
        spec_base_key(0x3E) == KeyCode::F4,
        spec_base_key(0x3F) == KeyCode::F5,
        spec_base_key(0x40) == KeyCode::F6,
        spec_base_key(0x41) == KeyCode::F7,
        spec_base_key(0x42) == KeyCode::F8,
        spec_base_key(0x43) == KeyCode::F9,
        spec_base_key(0x44) == KeyCode::F10,
        spec_base_key(0x57) == KeyCode::F11,
        spec_base_key(0x58) == KeyCode::F12,
        spec_base_key(0x39) == KeyCode::Char(' '),
{
    assert forall|i: int| 0 <= i < 12 implies spec_base_key((0x2 + i) as u8) == KeyCode::Char(
        #[trigger] spec_row_number()[i],
    ) by {
        assert(i == 0 || i == 1 || i == 2 || i == 3 || i == 4 || i == 5 || i == 6 || i == 7 || i == 8 || i == 9 || i == 10 || i == 11);
    }
    assert forall|i: int| 0 <= i < 12 implies spec_base_key((0x10 + i) as u8) == KeyCode::Char(
        #[trigger] spec_row_qwerty()[i],
    ) by {
        assert(i == 0 || i == 1 || i == 2 || i == 3 || i == 4 || i == 5 || i == 6 || i == 7 || i == 8 || i == 9 || i == 10 || i == 11);
    }
    assert forall|i: int| 0 <= i < 12 implies spec_base_key((0x1e + i) as u8) == KeyCode::Char(
        #[trigger] spec_row_asdf()[i],
    ) by {
        assert(i == 0 || i == 1 || i == 2 || i == 3 || i == 4 || i == 5 || i == 6 || i == 7 || i == 8 || i == 9 || i == 10 || i == 11);
    }
    assert forall|i: int| 0 <= i < 11 implies spec_base_key((0x2b + i) as u8) == KeyCode::Char(
        #[trigger] spec_row_zxcv()[i],
    ) by {
        assert(i == 0 || i == 1 || i == 2 || i == 3 || i == 4 || i == 5 || i == 6 || i == 7 || i == 8 || i == 9 || i == 10);
    }
}

/// The extended keys (after the 0xE0 prefix): right control at 0x1D, the
/// arrows at 0x48 (up), 0x4B (left), 0x4D (right) and 0x50 (down), home at
/// 0x47, end at 0x4F and delete at 0x53; no two codes name the same key.
pub proof fn lemma_extended_keys()
    ensures
        spec_extended_key(0x1D) == KeyCode::RightCtrl,
        spec_extended_key(0x47) == KeyCode::Home,
        spec_extended_key(0x48) == KeyCode::Up,
        spec_extended_key(0x4B) == KeyCode::Left,
        spec_extended_key(0x4D) == KeyCode::Right,
        spec_extended_key(0x4F) == KeyCode::End,
        spec_extended_key(0x50) == KeyCode::Down,
        spec_extended_key(0x53) == KeyCode::Delete,
        forall|a: u8, b: u8|
            a != b && #[trigger] spec_extended_key(a) == #[trigger] spec_extended_key(b) ==> spec_extended_key(a)
                == KeyCode::Unknown,
{
}

fn base_key(code: u8) -> (r: KeyCode)
    ensures
        r == spec_base_key(code),
{
    match code {
        0x01u8 => KeyCode::Escape,
        0x02u8 => KeyCode::Char('1'),
        0x03u8 => KeyCode::Char('2'),
        0x04u8 => KeyCode::Char('3'),
        0x05u8 => KeyCode::Char('4'),
        0x06u8 => KeyCode::Char('5'),
        0x07u8 => KeyCode::Char('6'),
        0x08u8 => KeyCode::Char('7'),
        0x09u8 => KeyCode::Char('8'),
        0x0Au8 => KeyCode::Char('9'),
        0x0Bu8 => KeyCode::Char('0'),
        0x0Cu8 => KeyCode::Char('-'),
        0x0Du8 => KeyCode::Char('='),
        0x0Eu8 => KeyCode::Backspace,
        0x0Fu8 => KeyCode::Tab,
        0x10u8 => KeyCode::Char('q'),
        0x11u8 => KeyCode::Char('w'),
        0x12u8 => KeyCode::Char('e'),
        0x13u8 => KeyCode::Char('r'),
        0x14u8 => KeyCode::Char('t'),
        0x15u8 => KeyCode::Char('y'),
        0x16u8 => KeyCode::Char('u'),
        0x17u8 => KeyCode::Char('i'),
        0x18u8 => KeyCode::Char('o'),
        0x19u8 => KeyCode::Char('p'),
        0x1Au8 => KeyCode::Char('['),
        0x1Bu8 => KeyCode::Char(']'),
        0x1Cu8 => KeyCode::Enter,
        0x1Du8 => KeyCode::LeftCtrl,
        0x1Eu8 => KeyCode::Char('a'),
        0x1Fu8 => KeyCode::Char('s'),
        0x20u8 => KeyCode::Char('d'),
        0x21u8 => KeyCode::Char('f'),
        0x22u8 => KeyCode::Char('g'),
        0x23u8 => KeyCode::Char('h'),
        0x24u8 => KeyCode::Char('j'),
        0x25u8 => KeyCode::Char('k'),
        0x26u8 => KeyCode::Char('l'),
        0x27u8 => KeyCode::Char(';'),
        0x28u8 => KeyCode::Char('\''),
        0x29u8 => KeyCode::Char('`'),
        0x2Au8 => KeyCode::LeftShift,
        0x2Bu8 => KeyCode::Char('\\'),
        0x2Cu8 => KeyCode::Char('z'),
        0x2Du8 => KeyCode::Char('x'),
        0x2Eu8 => KeyCode::Char('c'),
        0x2Fu8 => KeyCode::Char('v'),
        0x30u8 => KeyCode::Char('b'),
        0x31u8 => KeyCode::Char('n'),
        0x32u8 => KeyCode::Char('m'),
        0x33u8 => KeyCode::Char(','),
        0x34u8 => KeyCode::Char('.'),
        0x35u8 => KeyCode::Char('/'),
        0x36u8 => KeyCode::RightShift,
        0x38u8 => KeyCode::LeftAlt,
        0x39u8 => KeyCode::Char(' '),
        0x3Au8 => KeyCode::CapsLock,
        0x3Bu8 => KeyCode::F1,
        0x3Cu8 => KeyCode::F2,
        0x3Du8 => KeyCode::F3,
        0x3Eu8 => KeyCode::F4,
        0x3Fu8 => KeyCode::F5,
        0x40u8 => KeyCode::F6,
        0x41u8 => KeyCode::F7,
        0x42u8 => KeyCode::F8,
        0x43u8 => KeyCode::F9,
        0x44u8 => KeyCode::F10,
        0x57u8 => KeyCode::F11,
        0x58u8 => KeyCode::F12,
        _ => KeyCode::Unknown,
    }
}

fn extended_key(code: u8) -> (r: KeyCode)
    ensures
        r == spec_extended_key(code),
{
    match code {
        0x1Du8 => KeyCode::RightCtrl,
        0x47u8 => KeyCode::Home,
        0x48u8 => KeyCode::Up,
        0x4Bu8 => KeyCode::Left,
        0x4Du8 => KeyCode::Right,
        0x4Fu8 => KeyCode::End,
        0x50u8 => KeyCode::Down,
        0x53u8 => KeyCode::Delete,
        _ => KeyCode::Unknown,
    }
}

/// Whether a character is an ASCII letter.
pub open spec fn spec_is_alpha(c: char) -> bool {
    ('a' <= c && c <= 'z') || ('A' <= c && c <= 'Z')
}

/// The character with an ASCII lower-case letter made upper case.
pub open spec fn spec_upper(c: char) -> char {
    if 'a' <= c && c <= 'z' {
        ((c as u32) - 32) as char
    } else {
        c
    }
}

/// Whether a character is an ASCII letter.
pub fn is_ascii_alphabetic(c: char) -> (r: bool)
    ensures
        r == spec_is_alpha(c),
{
    ('a' <= c && c <= 'z') || ('A' <= c && c <= 'Z')
}

/// The character with an ASCII lower-case letter made upper case.
pub fn to_ascii_uppercase(c: char) -> (r: char)
    ensures
        r == spec_upper(c),
{
    if 'a' <= c && c <= 'z' {
        ((c as u8) - 32) as char
    } else {
        c
    }
}

/// The character a symbol key gives with shift on the US layout.
pub open spec fn spec_us_shifted(c: char) -> char {
    match c {
        '1' => '!',
        '2' => '@',
        '3' => '#',
        '4' => '$',
        '5' => '%',
        '6' => '^',
        '7' => '&',
        '8' => '*',
        '9' => '(',
        '0' => ')',
        '-' => '_',
        '=' => '+',
        '[' => '{',
        ']' => '}',
        ';' => ':',
        '\'' => '"',
        '`' => '~',
        '\\' => '|',
        ',' => '<',
        '.' => '>',
        '/' => '?',
        _ => c,
    }
}

pub(crate) fn us_shifted(c: char) -> (r: char)
    ensures
        r == spec_us_shifted(c),
{
    match c {
        '1' => '!',
        '2' => '@',
        '3' => '#',
        '4' => '$',
        '5' => '%',
        '6' => '^',
        '7' => '&',
        '8' => '*',
        '9' => '(',
        '0' => ')',
        '-' => '_',
        '=' => '+',
        '[' => '{',
        ']' => '}',
        ';' => ':',
        '\'' => '"',
        '`' => '~',
        '\\' => '|',
        ',' => '<',
        '.' => '>',
        '/' => '?',
        _ => c,
    }
}

/// The modifier state: shift, control, alt, caps lock, and whether an
/// extended scancode prefix is pending.
pub type KeyboardState = (bool, bool, bool, bool, bool);

/// The modifier state after a key event.
pub open spec fn spec_modifiers_after(s: KeyboardState, key: KeyCode, release: bool) -> KeyboardState {
    if !release {
        match key {
            KeyCode::LeftShift | KeyCode::RightShift => (true, s.1, s.2, s.3, s.4),
            KeyCode::LeftCtrl | KeyCode::RightCtrl => (s.0, true, s.2, s.3, s.4),
            KeyCode::LeftAlt | KeyCode::RightAlt => (s.0, s.1, true, s.3, s.4),
            KeyCode::CapsLock => (s.0, s.1, s.2, !s.3, s.4),
            _ => s,
        }
    } else {
        match key {
            KeyCode::LeftShift | KeyCode::RightShift => (false, s.1, s.2, s.3, s.4),
            KeyCode::LeftCtrl | KeyCode::RightCtrl => (s.0, false, s.2, s.3, s.4),
            KeyCode::LeftAlt | KeyCode::RightAlt => (s.0, s.1, false, s.3, s.4),
            _ => s,
        }
    }
}

/// Processing a scancode: the new state and the event. The prefix 0xE0
/// only marks the next scancode as extended; the high bit of any other
/// scancode marks a release.
pub open spec fn spec_process(s: KeyboardState, scancode: u8) -> (KeyboardState, Option<KeyEvent>) {
    if scancode == 0xE0 {
        ((s.0, s.1, s.2, s.3, true), None)
    } else {
        let release = scancode >= 0x80;
        let code = (scancode % 0x80) as u8;
        let key = if s.4 { spec_extended_key(code) } else { spec_base_key(code) };
        let cleared = (s.0, s.1, s.2, s.3, false);
        (
            spec_modifiers_after(cleared, key, release),
            Some(if release { KeyEvent::Release(key) } else { KeyEvent::Press(key) }),
        )
    }
}

/// The character a key gives: a letter is upper case when exactly one of
/// shift and caps lock is on; with shift held, any other character gives
/// its US shifted symbol (`'1'` gives `'!'`, `'/'` gives `'?'`), and a
/// letter with both shift and caps lock stays lower case; backspace,
/// enter and tab give their control characters; other keys give none.
pub open spec fn spec_to_ascii(shift: bool, caps: bool, key: KeyCode) -> Option<char> {
    match key {
        KeyCode::Char(c) => {
            let upper = (shift && !caps && spec_is_alpha(c)) || (!shift && caps && spec_is_alpha(c));
            if upper {
                Some(spec_upper(c))
            } else if shift {
                Some(spec_us_shifted(c))
            } else {
                Some(c)
            }
        },
        KeyCode::Backspace => Some('\x08'),
        KeyCode::Enter => Some('\n'),
        KeyCode::Tab => Some('\t'),
        _ => None,
    }
}

/// Keyboard state: modifiers and a pending extended prefix.
pub struct Keyboard {
    shift_pressed: bool,
    ctrl_pressed: bool,
    alt_pressed: bool,
    caps_lock: bool,
    extended_scancode: bool,
}

impl View for Keyboard {
    type V = KeyboardState;

    closed spec fn view(&self) -> KeyboardState {
        (self.shift_pressed, self.ctrl_pressed, self.alt_pressed, self.caps_lock, self.extended_scancode)
    }
}

impl Keyboard {
    /// No modifier down, caps lock off, no prefix pending.
    pub fn new() -> (r: Self)
        ensures
            r@ == (false, false, false, false, false),
    {
        Keyboard {
            shift_pressed: false,
            ctrl_pressed: false,
            alt_pressed: false,
            caps_lock: false,
            extended_scancode: false,
        }
    }

    /// Turns a scancode into a key event and tracks the modifier keys.
    pub fn process_scancode(&mut self, scancode: u8) -> (r: Option<KeyEvent>)
        ensures
            (final(self)@, r) == spec_process(old(self)@, scancode),
    {
        if scancode == 0xE0 {
            self.extended_scancode = true;
            return None;
        }
        let is_release = (scancode & 0x80) != 0;
        let key_code = scancode & 0x7F;
        assert(is_release == (scancode >= 0x80) && key_code == scancode % 0x80) by (bit_vector)
            requires
                is_release == ((scancode & 0x80) != 0),
                key_code == scancode & 0x7F,
        ;
        let keycode = if self.extended_scancode {
            self.extended_scancode = false;
            extended_key(key_code)
        } else {
            base_key(key_code)
        };
        if !is_release {
            match keycode {
                KeyCode::LeftShift | KeyCode::RightShift => {
                    self.shift_pressed = true;
                },
                KeyCode::LeftCtrl | KeyCode::RightCtrl => {
                    self.ctrl_pressed = true;
                },
                KeyCode::LeftAlt | KeyCode::RightAlt => {
                    self.alt_pressed = true;
                },
                KeyCode::CapsLock => {
                    self.caps_lock = !self.caps_lock;
                },
                _ => {},
            }
        } else {
            match keycode {
                KeyCode::LeftShift | KeyCode::RightShift => {
                    self.shift_pressed = false;
                },
                KeyCode::LeftCtrl | KeyCode::RightCtrl => {
                    self.ctrl_pressed = false;
                },
                KeyCode::LeftAlt | KeyCode::RightAlt => {
                    self.alt_pressed = false;
                },
                _ => {},
            }
        }
        if is_release {
            Some(KeyEvent::Release(keycode))
        } else {
            Some(KeyEvent::Press(keycode))
        }
    }

    /// The character a key gives under the current shift and caps lock.
    pub fn to_ascii(&self, keycode: KeyCode) -> (r: Option<char>)
        ensures
            r == spec_to_ascii(self@.0, self@.3, keycode),
    {
        match keycode {
            KeyCode::Char(c) => {
                let should_uppercase = (self.shift_pressed && !self.caps_lock && is_ascii_alphabetic(c)) || (
                !self.shift_pressed && self.caps_lock && is_ascii_alphabetic(c));
                if should_uppercase {
                    Some(to_ascii_uppercase(c))
                } else if self.shift_pressed {
                    Some(us_shifted(c))
                } else {
                    Some(c)
                }
            },
            KeyCode::Backspace => Some('\x08'),
            KeyCode::Enter => Some('\n'),
            KeyCode::Tab => Some('\t'),
            _ => None,
        }
    }

    /// Whether a shift key is down.
    pub fn is_shift_pressed(&self) -> (r: bool)
        ensures
            r == self@.0,
    {
        self.shift_pressed
    }

    /// Whether a control key is down.
    pub fn is_ctrl_pressed(&self) -> (r: bool)
        ensures
            r == self@.1,
    {
        self.ctrl_pressed
    }

    /// Whether an alt key is down.
    pub fn is_alt_pressed(&self) -> (r: bool)
        ensures
            r == self@.2,
    {
        self.alt_pressed
    }

    /// Whether caps lock is on.
    pub fn is_caps_lock(&self) -> (r: bool)
        ensures
            r == self@.3,
    {
        self.caps_lock
    }
}

/// Pressing and releasing a shift, control or alt key leaves the modifier
/// state as it was before the press (when that key was up).
pub proof fn lemma_press_release_restores(s: KeyboardState, code: u8)
    requires
        !s.4,
        code < 0x80,
        spec_base_key(code) == KeyCode::LeftShift || spec_base_key(code) == KeyCode::RightShift
            || spec_base_key(code) == KeyCode::LeftCtrl || spec_base_key(code) == KeyCode::LeftAlt,
        spec_base_key(code) == KeyCode::LeftShift || spec_base_key(code) == KeyCode::RightShift ==> !s.0,
        spec_base_key(code) == KeyCode::LeftCtrl ==> !s.1,
        spec_base_key(code) == KeyCode::LeftAlt ==> !s.2,
    ensures
        spec_process(spec_process(s, code).0, (code + 0x80) as u8).0 == s,
{
    assert(((code + 0x80) as u8) % 0x80 == code);
}

/// Caps lock is a toggle: pressing it twice restores the state.
pub proof fn lemma_caps_lock_toggle(s: KeyboardState)
    requires
        !s.4,
    ensures
        spec_process(spec_process(s, 0x3A).0, 0x3A).0 == s,
        spec_process(s, 0x3A).0.3 == !s.3,
{
}

} // verus!
