//! Keyboard layouts (US, UK, German, French): the character a key gives
//! under shift and caps lock, and the manager of the layout in use.

use vstd::prelude::*;
use super::keyboard::{
    is_ascii_alphabetic, spec_is_alpha, spec_upper, spec_us_shifted, to_ascii_uppercase, KeyCode,
};

verus! {

/// A keyboard layout.
pub trait KeyboardLayout {
    /// The layout's name.
    fn name(&self) -> &'static str;

    /// The character a key gives with the modifiers applied, if any.
    fn to_char(&self, keycode: KeyCode, shift: bool, caps_lock: bool) -> Option<char>;
}

/// The character a symbol key gives with shift on the UK layout.
pub open spec fn spec_uk_shifted(c: char) -> char {
    match c {
        '1' => '!',
        '2' => '"',
        '3' => '\u{a3}',
        '4' => '$',
        '5' => '%',
        '6' => '^',
        '7' => '&',
        '8' => '*',
        '9' => '(',
        '0' => ')',
        '-' => '_',
        '=' => '+',
        '[' => '{',
        ']' => '}',
        ';' => ':',
        '\'' => '@',
        '`' => '\u{ac}',
        '\\' => '|',
        ',' => '<',
        '.' => '>',
        '/' => '?',
        '#' => '~',
        _ => c,
    }
}

fn uk_shifted(c: char) -> (r: char)
    ensures
        r == spec_uk_shifted(c),
{
    match c {
        '1' => '!',
        '2' => '"',
        '3' => '\u{a3}',
        '4' => '$',
        '5' => '%',
        '6' => '^',
        '7' => '&',
        '8' => '*',
        '9' => '(',
        '0' => ')',
        '-' => '_',
        '=' => '+',
        '[' => '{',
        ']' => '}',
        ';' => ':',
        '\'' => '@',
        '`' => '\u{ac}',
        '\\' => '|',
        ',' => '<',
        '.' => '>',
        '/' => '?',
        '#' => '~',
        _ => c,
    }
}

/// The character a symbol key gives with shift on the German layout.
pub open spec fn spec_de_shifted(c: char) -> char {
    match c {
        '1' => '!',
        '2' => '"',
        '3' => '\u{a7}',
        '4' => '$',
        '5' => '%',
        '6' => '&',
        '7' => '/',
        '8' => '(',
        '9' => ')',
        '0' => '=',
        '-' => '_',
        '=' => '?',
        '[' => '\u{dc}',
        ']' => '*',
        ';' => '\u{d6}',
        '\'' => '\u{c4}',
        '`' => '\u{b0}',
        '\\' => '\'',
        ',' => ';',
        '.' => ':',
        '/' => '_',
        _ => c,
    }
}

fn de_shifted(c: char) -> (r: char)
    ensures
        r == spec_de_shifted(c),
{
    match c {
        '1' => '!',
        '2' => '"',
        '3' => '\u{a7}',
        '4' => '$',
        '5' => '%',
        '6' => '&',
        '7' => '/',
        '8' => '(',
        '9' => ')',
        '0' => '=',
        '-' => '_',
        '=' => '?',
        '[' => '\u{dc}',
        ']' => '*',
        ';' => '\u{d6}',
        '\'' => '\u{c4}',
        '`' => '\u{b0}',
        '\\' => '\'',
        ',' => ';',
        '.' => ':',
        '/' => '_',
        _ => c,
    }
}

/// The character a key gives with shift on the French layout.
pub open spec fn spec_fr_shifted(c: char) -> char {
    match c {
        '1' => '&',
        '2' => '\u{e9}',
        '3' => '"',
        '4' => '\'',
        '5' => '(',
        '6' => '-',
        '7' => '\u{e8}',
        '8' => '_',
        '9' => '\u{e7}',
        '0' => '\u{e0}',
        '-' => '\u{b0}',
        '=' => '+',
        _ => c,
    }
}

fn fr_shifted(c: char) -> (r: char)
    ensures
        r == spec_fr_shifted(c),
{
    match c {
        '1' => '&',
        '2' => '\u{e9}',
        '3' => '"',
        '4' => '\'',
        '5' => '(',
        '6' => '-',
        '7' => '\u{e8}',
        '8' => '_',
        '9' => '\u{e7}',
        '0' => '\u{e0}',
        '-' => '\u{b0}',
        '=' => '+',
        _ => c,
    }
}

/// The character the German layout puts on a US key position.
pub open spec fn spec_de_position(c: char) -> char {
    match c {
        'y' => 'z',
        'z' => 'y',
        _ => c,
    }
}

fn de_position(c: char) -> (r: char)
    ensures
        r == spec_de_position(c),
{
    match c {
        'y' => 'z',
        'z' => 'y',
        _ => c,
    }
}

/// The character the French layout puts on a US key position.
pub open spec fn spec_fr_position(c: char) -> char {
    match c {
        'q' => 'a',
        'w' => 'z',
        'a' => 'q',
        'z' => 'w',
        'm' => ',',
        ',' => ';',
        ';' => 'm',
        _ => c,
    }
}

fn fr_position(c: char) -> (r: char)
    ensures
        r == spec_fr_position(c),
{
    match c {
        'q' => 'a',
        'w' => 'z',
        'a' => 'q',
        'z' => 'w',
        'm' => ',',
        ',' => ';',
        ';' => 'm',
        _ => c,
    }
}

/// The character a layout gives: `mapped` is the character on the key
/// position, `shifted` the layout's shift table. A letter is upper case
/// when shift or caps lock (not both) applies; shift gives the shifted
/// character otherwise; backspace, enter and tab give their control
/// characters; other keys give none.
pub open spec fn spec_layout_char(
    key: KeyCode,
    shift: bool,
    caps_lock: bool,
    mapped: spec_fn(char) -> char,
    shifted: spec_fn(char) -> char,
) -> Option<char> {
    match key {
        KeyCode::Char(c) => {
            let m = mapped(c);
            let upper = (shift && !caps_lock) || (!shift && caps_lock && spec_is_alpha(m));
            if upper && spec_is_alpha(m) {
                Some(spec_upper(m))
            } else if shift {
                Some(shifted(m))
            } else {
                Some(m)
            }
        },
        KeyCode::Backspace => Some('\x08'),
        KeyCode::Enter => Some('\n'),
        KeyCode::Tab => Some('\t'),
        _ => None,
    }
}

/// The US layout's character for a key.
pub open spec fn spec_us_char(key: KeyCode, shift: bool, caps_lock: bool) -> Option<char> {
    spec_layout_char(key, shift, caps_lock, |c: char| c, |c: char| spec_us_shifted(c))
}

/// The UK layout's character for a key.
pub open spec fn spec_uk_char(key: KeyCode, shift: bool, caps_lock: bool) -> Option<char> {
    spec_layout_char(key, shift, caps_lock, |c: char| c, |c: char| spec_uk_shifted(c))
}

/// The German layout's character for a key.
pub open spec fn spec_de_char(key: KeyCode, shift: bool, caps_lock: bool) -> Option<char> {
    spec_layout_char(key, shift, caps_lock, |c: char| spec_de_position(c), |c: char| spec_de_shifted(c))
}

/// The French layout's character for a key.
pub open spec fn spec_fr_char(key: KeyCode, shift: bool, caps_lock: bool) -> Option<char> {
    spec_layout_char(key, shift, caps_lock, |c: char| spec_fr_position(c), |c: char| spec_fr_shifted(c))
}

/// Applies the case and shift rules to the character on a key position.
fn apply_modifiers(m: char, shift: bool, caps_lock: bool, shifted: char) -> (r: char)
    ensures
        r == (if ((shift && !caps_lock) || (!shift && caps_lock && spec_is_alpha(m))) && spec_is_alpha(m) {
            spec_upper(m)
        } else if shift {
            shifted
        } else {
            m
        }),
{
    let should_uppercase = (shift && !caps_lock) || (!shift && caps_lock && is_ascii_alphabetic(m));
    if should_uppercase && is_ascii_alphabetic(m) {
        to_ascii_uppercase(m)
    } else if shift {
        shifted
    } else {
        m
    }
}

/// The US QWERTY layout.
pub struct UsLayout;

impl KeyboardLayout for UsLayout {
    fn name(&self) -> (r: &'static str)
        ensures
            r@ == "US"@,
    {
        "US"
    }

    fn to_char(&self, keycode: KeyCode, shift: bool, caps_lock: bool) -> (r: Option<char>)
        ensures
            r == spec_us_char(keycode, shift, caps_lock),
    {
        match keycode {
            KeyCode::Char(c) => Some(apply_modifiers(c, shift, caps_lock, super::keyboard::us_shifted(c))),
            KeyCode::Backspace => Some('\x08'),
            KeyCode::Enter => Some('\n'),
            KeyCode::Tab => Some('\t'),
            _ => None,
        }
    }
}

/// The UK QWERTY layout.
pub struct UkLayout;

impl KeyboardLayout for UkLayout {
    fn name(&self) -> (r: &'static str)
        ensures
            r@ == "UK"@,
    {
        "UK"
    }

    fn to_char(&self, keycode: KeyCode, shift: bool, caps_lock: bool) -> (r: Option<char>)
        ensures
            r == spec_uk_char(keycode, shift, caps_lock),
    {
        match keycode {
            KeyCode::Char(c) => Some(apply_modifiers(c, shift, caps_lock, uk_shifted(c))),
            KeyCode::Backspace => Some('\x08'),
            KeyCode::Enter => Some('\n'),
            KeyCode::Tab => Some('\t'),
            _ => None,
        }
    }
}

/// The German QWERTZ layout.
pub struct DeLayout;

impl KeyboardLayout for DeLayout {
    fn name(&self) -> (r: &'static str)
        ensures
            r@ == "DE"@,
    {
        "DE"
    }

    fn to_char(&self, keycode: KeyCode, shift: bool, caps_lock: bool) -> (r: Option<char>)
        ensures
            r == spec_de_char(keycode, shift, caps_lock),
    {
        match keycode {
            KeyCode::Char(c) => {
                let m = de_position(c);
                Some(apply_modifiers(m, shift, caps_lock, de_shifted(m)))
            },
            KeyCode::Backspace => Some('\x08'),
            KeyCode::Enter => Some('\n'),
            KeyCode::Tab => Some('\t'),
            _ => None,
        }
    }
}

/// The French AZERTY layout.
pub struct FrLayout;

impl KeyboardLayout for FrLayout {
    fn name(&self) -> (r: &'static str)
        ensures
            r@ == "FR"@,
    {
        "FR"
    }

    fn to_char(&self, keycode: KeyCode, shift: bool, caps_lock: bool) -> (r: Option<char>)
        ensures
            r == spec_fr_char(keycode, shift, caps_lock),
    {
        match keycode {
            KeyCode::Char(c) => {
                let m = fr_position(c);
                Some(apply_modifiers(m, shift, caps_lock, fr_shifted(m)))
            },
            KeyCode::Backspace => Some('\x08'),
            KeyCode::Enter => Some('\n'),
            KeyCode::Tab => Some('\t'),
            _ => None,
        }
    }
}

/// The available layouts.
#[derive(Debug, Clone, Copy, PartialEq, Eq, Structural)]
pub enum LayoutType {
    Us,
    Uk,
    De,
    Fr,
}

/// The character a layout gives for a key.
pub open spec fn spec_layout_type_char(l: LayoutType, key: KeyCode, shift: bool, caps_lock: bool) -> Option<char> {
    match l {
        LayoutType::Us => spec_us_char(key, shift, caps_lock),
        LayoutType::Uk => spec_uk_char(key, shift, caps_lock),
        LayoutType::De => spec_de_char(key, shift, caps_lock),
        LayoutType::Fr => spec_fr_char(key, shift, caps_lock),
    }
}

/// The layout in use.
pub struct LayoutManager {
    current_layout: LayoutType,
}

impl LayoutManager {
    /// The layout in use.
    pub closed spec fn spec_layout(&self) -> LayoutType {
        self.current_layout
    }

    /// A manager using the US layout.
    pub fn new() -> (r: Self)
        ensures
            r.spec_layout() == LayoutType::Us,
    {
        LayoutManager { current_layout: LayoutType::Us }
    }

    /// The layout in use.
    pub fn current_layout(&self) -> (r: LayoutType)
        ensures
            r == self.spec_layout(),
    {
        self.current_layout
    }

    /// Switches to another layout.
    pub fn set_layout(&mut self, layout: LayoutType)
        ensures
            final(self).spec_layout() == layout,
    {
        self.current_layout = layout;
    }

    /// The character the layout in use gives for a key.
    pub fn to_char(&self, keycode: KeyCode, shift: bool, caps_lock: bool) -> (r: Option<char>)
        ensures
            r == spec_layout_type_char(self.spec_layout(), keycode, shift, caps_lock),
    {
        match self.current_layout {
            LayoutType::Us => UsLayout.to_char(keycode, shift, caps_lock),
            LayoutType::Uk => UkLayout.to_char(keycode, shift, caps_lock),
            LayoutType::De => DeLayout.to_char(keycode, shift, caps_lock),
            LayoutType::Fr => FrLayout.to_char(keycode, shift, caps_lock),
        }
    }

    /// The name of the layout in use.
    pub fn current_layout_name(&self) -> (r: &'static str)
        ensures
            r@ == (match self.spec_layout() {
                LayoutType::Us => "US"@,
                LayoutType::Uk => "UK"@,
                LayoutType::De => "DE"@,
                LayoutType::Fr => "FR"@,
            }),
    {
        match self.current_layout {
            LayoutType::Us => UsLayout.name(),
            LayoutType::Uk => UkLayout.name(),
            LayoutType::De => DeLayout.name(),
            LayoutType::Fr => FrLayout.name(),
        }
    }
}

} // verus!
