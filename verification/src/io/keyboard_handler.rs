//! The keyboard key handler: what a key press does to the line being
//! edited, and what is left for the console and the shell to do.

use vstd::prelude::*;
use crate::arch::keyboard::{spec_to_ascii, KeyCode, KeyEvent, Keyboard};
use super::line_editor::{spec_backspace, spec_delete_char, spec_editor_ok, spec_insert_char, spec_replace_line, LineEditor};

verus! {

/// What the console and shell do after a key press.
#[derive(Debug, Clone, Copy, PartialEq, Eq, Structural)]
pub enum KeyAction {
    /// Show virtual terminal `n` (Alt+F1 to Alt+F12).
    SwitchTerminal(usize),
    /// Ctrl+C: echo `^C` and a newline; the line was cleared.
    Interrupt,
    /// Ctrl+D on an empty line: echo `^D` and a newline.
    EndOfInput,
    /// The line changed: redraw it and the cursor.
    Redraw,
    /// The cursor moved: show it at its new place.
    MoveCursor,
    /// Enter: hand the line to the shell.
    Submit,
    /// Up: replace the line by the previous history entry.
    HistoryPrev,
    /// Down: replace the line by the next history entry.
    HistoryNext,
    /// Tab: complete the command name.
    Complete,
    /// Nothing to do.
    Nothing,
}

/// The terminal an Alt+function key shows.
pub open spec fn spec_function_key_terminal(key: KeyCode) -> Option<usize> {
    match key {
        KeyCode::F1 => Some(0),
        KeyCode::F2 => Some(1),
        KeyCode::F3 => Some(2),
        KeyCode::F4 => Some(3),
        KeyCode::F5 => Some(4),
        KeyCode::F6 => Some(5),
        KeyCode::F7 => Some(6),
        KeyCode::F8 => Some(7),
        KeyCode::F9 => Some(8),
        KeyCode::F10 => Some(9),
        KeyCode::F11 => Some(10),
        KeyCode::F12 => Some(11),
        _ => None,
    }
}

fn function_key_terminal(key: KeyCode) -> (r: Option<usize>)
    ensures
        r == spec_function_key_terminal(key),
{
    match key {
        KeyCode::F1 => Some(0),
        KeyCode::F2 => Some(1),
        KeyCode::F3 => Some(2),
        KeyCode::F4 => Some(3),
        KeyCode::F5 => Some(4),
        KeyCode::F6 => Some(5),
        KeyCode::F7 => Some(6),
        KeyCode::F8 => Some(7),
        KeyCode::F9 => Some(8),
        KeyCode::F10 => Some(9),
        KeyCode::F11 => Some(10),
        KeyCode::F12 => Some(11),
        _ => None,
    }
}

/// What a key press does, given the alt and control keys, the character
/// the key gives, and the line: Alt+F1..F12 switch terminals; Ctrl+C
/// clears the line; Ctrl+D ends input on an empty line and deletes at the
/// cursor otherwise; a character key inserts its character; the editing
/// and movement keys edit the line or move the cursor (a refused edit or
/// move does nothing); Enter, Up, Down and Tab go to the shell.
pub open spec fn spec_key_press(
    alt: bool,
    ctrl: bool,
    ascii: Option<char>,
    key: KeyCode,
    s: (Seq<char>, nat),
) -> ((Seq<char>, nat), KeyAction) {
    if alt && spec_function_key_terminal(key) is Some {
        (s, KeyAction::SwitchTerminal(spec_function_key_terminal(key)->0))
    } else if ctrl && (key == KeyCode::Char('c') || key == KeyCode::Char('C')) {
        ((Seq::empty(), 0), KeyAction::Interrupt)
    } else if ctrl && (key == KeyCode::Char('d') || key == KeyCode::Char('D')) {
        if s.0.len() == 0 {
            (s, KeyAction::EndOfInput)
        } else {
            let (t, done) = spec_delete_char(s);
            (t, if done { KeyAction::Redraw } else { KeyAction::Nothing })
        }
    } else {
        match key {
            KeyCode::Char(_) => match ascii {
                Some(a) => {
                    let (t, done) = spec_insert_char(s, a);
                    (t, if done { KeyAction::Redraw } else { KeyAction::Nothing })
                },
                None => (s, KeyAction::Nothing),
            },
            KeyCode::Backspace => {
                let (t, done) = spec_backspace(s);
                (t, if done { KeyAction::Redraw } else { KeyAction::Nothing })
            },
            KeyCode::Delete => {
                let (t, done) = spec_delete_char(s);
                (t, if done { KeyAction::Redraw } else { KeyAction::Nothing })
            },
            KeyCode::Left => if s.1 > 0 {
                ((s.0, (s.1 - 1) as nat), KeyAction::MoveCursor)
            } else {
                (s, KeyAction::Nothing)
            },
            KeyCode::Right => if s.1 < s.0.len() {
                ((s.0, s.1 + 1), KeyAction::MoveCursor)
            } else {
                (s, KeyAction::Nothing)
            },
            KeyCode::Home => if s.1 > 0 {
                ((s.0, 0), KeyAction::MoveCursor)
            } else {
                (s, KeyAction::Nothing)
            },
            KeyCode::End => if s.1 < s.0.len() {
                ((s.0, s.0.len()), KeyAction::MoveCursor)
            } else {
                (s, KeyAction::Nothing)
            },
            KeyCode::Enter => (s, KeyAction::Submit),
            KeyCode::Up => (s, KeyAction::HistoryPrev),
            KeyCode::Down => (s, KeyAction::HistoryNext),
            KeyCode::Tab => (s, KeyAction::Complete),
            _ => (s, KeyAction::Nothing),
        }
    }
}

fn redraw_if(done: bool) -> (r: KeyAction)
    ensures
        r == (if done { KeyAction::Redraw } else { KeyAction::Nothing }),
{
    if done {
        KeyAction::Redraw
    } else {
        KeyAction::Nothing
    }
}

fn move_if(done: bool) -> (r: KeyAction)
    ensures
        r == (if done { KeyAction::MoveCursor } else { KeyAction::Nothing }),
{
    if done {
        KeyAction::MoveCursor
    } else {
        KeyAction::Nothing
    }
}

/// Handles a key press.
pub fn handle_key_press(keycode: KeyCode, kbd: &Keyboard, editor: &mut LineEditor) -> (r: KeyAction)
    requires
        spec_editor_ok(old(editor)@),
    ensures
        spec_editor_ok(final(editor)@),
        (final(editor)@, r) == spec_key_press(
            kbd@.2,
            kbd@.1,
            spec_to_ascii(kbd@.0, kbd@.3, keycode),
            keycode,
            old(editor)@,
        ),
{
    if kbd.is_alt_pressed() {
        match function_key_terminal(keycode) {
            Some(n) => return KeyAction::SwitchTerminal(n),
            None => {},
        }
    }
    if kbd.is_ctrl_pressed() {
        match keycode {
            KeyCode::Char('c') | KeyCode::Char('C') => {
                editor.clear();
                return KeyAction::Interrupt;
            },
            KeyCode::Char('d') | KeyCode::Char('D') => {
                if editor.is_empty() {
                    return KeyAction::EndOfInput;
                }
                let done = editor.delete_char();
                return redraw_if(done);
            },
            _ => {},
        }
    }
    match keycode {
        KeyCode::Char(_) => match kbd.to_ascii(keycode) {
            Some(ascii) => {
                let done = editor.insert_char(ascii);
                redraw_if(done)
            },
            None => KeyAction::Nothing,
        },
        KeyCode::Backspace => {
            let done = editor.backspace();
            redraw_if(done)
        },
        KeyCode::Delete => {
            let done = editor.delete_char();
            redraw_if(done)
        },
        KeyCode::Left => {
            let done = editor.move_left();
            move_if(done)
        },
        KeyCode::Right => {
            let done = editor.move_right();
            move_if(done)
        },
        KeyCode::Home => {
            let done = editor.move_home();
            move_if(done)
        },
        KeyCode::End => {
            let done = editor.move_end();
            move_if(done)
        },
        KeyCode::Enter => KeyAction::Submit,
        KeyCode::Up => KeyAction::HistoryPrev,
        KeyCode::Down => KeyAction::HistoryNext,
        KeyCode::Tab => KeyAction::Complete,
        _ => KeyAction::Nothing,
    }
}

/// Handles a key event: presses act, releases do nothing.
pub fn handle_key_event(event: KeyEvent, kbd: &Keyboard, editor: &mut LineEditor) -> (r: KeyAction)
    requires
        spec_editor_ok(old(editor)@),
    ensures
        spec_editor_ok(final(editor)@),
        match event {
            KeyEvent::Press(k) => (final(editor)@, r) == spec_key_press(
                kbd@.2,
                kbd@.1,
                spec_to_ascii(kbd@.0, kbd@.3, k),
                k,
                old(editor)@,
            ),
            KeyEvent::Release(_) => r == KeyAction::Nothing && final(editor)@ == old(editor)@,
        },
{
    match event {
        KeyEvent::Press(keycode) => handle_key_press(keycode, kbd, editor),
        KeyEvent::Release(_) => KeyAction::Nothing,
    }
}

/// Whether `c` is white space in Unicode's sense (the characters that
/// `char::is_whitespace` accepts).
pub open spec fn spec_is_whitespace(c: char) -> bool {
    let x = c as u32;
    ||| 0x09 <= x <= 0x0D
    ||| x == 0x20 || x == 0x85 || x == 0xA0 || x == 0x1680
    ||| 0x2000 <= x <= 0x200A
    ||| x == 0x2028 || x == 0x2029 || x == 0x202F || x == 0x205F || x == 0x3000
}

/// The first index at or after `i` that holds no white space (the length
/// when there is none).
pub open spec fn spec_first_non_space(s: Seq<char>, i: int) -> int
    decreases s.len() - i,
{
    if i < 0 || i >= s.len() {
        if i < 0 { 0 } else { s.len() as int }
    } else if spec_is_whitespace(s[i]) {
        spec_first_non_space(s, i + 1)
    } else {
        i
    }
}

/// The end of `s[lo..j]` once trailing white space is dropped.
pub open spec fn spec_trimmed_end(s: Seq<char>, lo: int, j: int) -> int
    decreases j - lo,
{
    if j <= lo {
        lo
    } else if spec_is_whitespace(s[j - 1]) {
        spec_trimmed_end(s, lo, j - 1)
    } else {
        j
    }
}

/// `s` without its leading and trailing white space.
pub open spec fn spec_trim(s: Seq<char>) -> Seq<char> {
    let lo = spec_first_non_space(s, 0);
    s.subrange(lo, spec_trimmed_end(s, lo, s.len() as int))
}

fn is_whitespace(c: char) -> (r: bool)
    ensures
        r == spec_is_whitespace(c),
{
    let x = c as u32;
    (0x09 <= x && x <= 0x0D) || x == 0x20 || x == 0x85 || x == 0xA0 || x == 0x1680 || (0x2000 <= x && x <= 0x200A)
        || x == 0x2028 || x == 0x2029 || x == 0x202F || x == 0x205F || x == 0x3000
}

/// The command name that Tab completes: the line without surrounding white
/// space, or `None` when the line already holds a space (arguments follow
/// the command, so there is nothing to complete).
pub fn completion_word(line: &[char]) -> (r: Option<Vec<char>>)
    ensures
        r is None <==> spec_trim(line@).contains(' '),
        r matches Some(w) ==> w@ == spec_trim(line@),
{
    let n = line.len();
    let mut lo: usize = 0;
    while lo < n && is_whitespace(line[lo])
        invariant
            n == line@.len(),
            0 <= lo <= n,
            spec_first_non_space(line@, lo as int) == spec_first_non_space(line@, 0),
        decreases n - lo,
    {
        lo = lo + 1;
    }
    let mut hi: usize = n;
    while hi > lo && is_whitespace(line[hi - 1])
        invariant
            n == line@.len(),
            lo == spec_first_non_space(line@, 0),
            lo <= hi <= n,
            spec_trimmed_end(line@, lo as int, hi as int) == spec_trimmed_end(line@, lo as int, n as int),
        decreases hi - lo,
    {
        hi = hi - 1;
    }
    let ghost t = spec_trim(line@);
    assert(t == line@.subrange(lo as int, hi as int));
    let mut word: Vec<char> = Vec::new();
    let mut k: usize = lo;
    while k < hi
        invariant
            lo <= k <= hi <= n,
            n == line@.len(),
            t == line@.subrange(lo as int, hi as int),
            t == spec_trim(line@),
            word@ == line@.subrange(lo as int, k as int),
            !word@.contains(' '),
        decreases hi - k,
    {
        if line[k] == ' ' {
            assert(t[k - lo] == line@[k as int]);
            assert(t.contains(' ')) by {
                assert(0 <= k - lo < t.len() && t[k - lo] == ' ');
            }
            return None;
        }
        word.push(line[k]);
        assert(word@ =~= line@.subrange(lo as int, k as int + 1));
        k = k + 1;
    }
    Some(word)
}

/// Applies the outcome of a completion to the line: a single completion
/// replaces the line (and `true` is returned); otherwise the line stays as
/// it is and the candidates are for the console to list.
pub fn complete_line(editor: &mut LineEditor, single: Option<&[char]>) -> (r: bool)
    ensures
        r == single is Some,
        match single {
            Some(text) => final(editor)@ == spec_replace_line(text@) && spec_editor_ok(final(editor)@),
            None => final(editor)@ == old(editor)@,
        },
{
    match single {
        Some(text) => {
            editor.replace_line(text);
            true
        },
        None => false,
    }
}

} // verus!
