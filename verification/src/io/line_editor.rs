//! Line editing: a bounded line of characters with a cursor, edited by
//! inserting, deleting and moving.

use vstd::prelude::*;
use crate::fs::path::string_from_chars;

verus! {

/// The longest line the editor holds.
pub const MAX_LINE_LENGTH: usize = 256;

/// A line being edited and the cursor in it.
pub struct LineEditor {
    buffer: Vec<char>,
    cursor: usize,
}

impl View for LineEditor {
    type V = (Seq<char>, nat);

    /// The characters of the line and the cursor position.
    closed spec fn view(&self) -> (Seq<char>, nat) {
        (self.buffer@, self.cursor as nat)
    }
}

/// A line editor state is valid when its cursor lies within the line and
/// the line is not over the limit.
pub open spec fn spec_editor_ok(s: (Seq<char>, nat)) -> bool {
    s.1 <= s.0.len() && s.0.len() <= MAX_LINE_LENGTH
}

/// The state after inserting `ch`, and whether it was inserted.
pub open spec fn spec_insert_char(s: (Seq<char>, nat), ch: char) -> ((Seq<char>, nat), bool) {
    if s.0.len() >= MAX_LINE_LENGTH {
        (s, false)
    } else {
        ((s.0.insert(s.1 as int, ch), s.1 + 1), true)
    }
}

/// The state after deleting the character at the cursor.
pub open spec fn spec_delete_char(s: (Seq<char>, nat)) -> ((Seq<char>, nat), bool) {
    if s.1 < s.0.len() {
        ((s.0.remove(s.1 as int), s.1), true)
    } else {
        (s, false)
    }
}

/// The state after deleting the character before the cursor.
pub open spec fn spec_backspace(s: (Seq<char>, nat)) -> ((Seq<char>, nat), bool) {
    if s.1 > 0 {
        ((s.0.remove(s.1 - 1), (s.1 - 1) as nat), true)
    } else {
        (s, false)
    }
}

/// The state after the line is replaced by `text`: as much of it as fits,
/// with the cursor at its end.
pub open spec fn spec_replace_line(text: Seq<char>) -> (Seq<char>, nat) {
    let n = if text.len() <= MAX_LINE_LENGTH { text.len() } else { MAX_LINE_LENGTH as nat };
    (text.take(n as int), n)
}

impl LineEditor {
    /// An empty line.
    pub fn new() -> (r: Self)
        ensures
            r@ == (Seq::<char>::empty(), 0nat),
    {
        LineEditor { buffer: Vec::new(), cursor: 0 }
    }

    /// Empties the line and puts the cursor at its start.
    pub fn init(&mut self)
        ensures
            final(self)@ == (Seq::<char>::empty(), 0nat),
    {
        self.buffer = Vec::with_capacity(MAX_LINE_LENGTH);
        self.cursor = 0;
    }

    /// Inserts `ch` at the cursor and moves the cursor past it; refused
    /// when the line is full.
    pub fn insert_char(&mut self, ch: char) -> (r: bool)
        requires
            spec_editor_ok(old(self)@),
        ensures
            spec_editor_ok(final(self)@),
            (final(self)@, r) == spec_insert_char(old(self)@, ch),
    {
        if self.buffer.len() >= MAX_LINE_LENGTH {
            return false;
        }
        if self.cursor >= self.buffer.len() {
            self.buffer.push(ch);
            self.cursor = self.buffer.len();
        } else {
            self.buffer.insert(self.cursor, ch);
            self.cursor = self.cursor + 1;
        }
        assert(self.buffer@ =~= old(self).buffer@.insert(old(self).cursor as int, ch));
        true
    }

    /// Deletes the character at the cursor, if any.
    pub fn delete_char(&mut self) -> (r: bool)
        requires
            spec_editor_ok(old(self)@),
        ensures
            spec_editor_ok(final(self)@),
            (final(self)@, r) == spec_delete_char(old(self)@),
    {
        if self.cursor < self.buffer.len() {
            self.buffer.remove(self.cursor);
            true
        } else {
            false
        }
    }

    /// Deletes the character before the cursor, if any.
    pub fn backspace(&mut self) -> (r: bool)
        requires
            spec_editor_ok(old(self)@),
        ensures
            spec_editor_ok(final(self)@),
            (final(self)@, r) == spec_backspace(old(self)@),
    {
        if self.cursor > 0 {
            self.cursor = self.cursor - 1;
            self.buffer.remove(self.cursor);
            true
        } else {
            false
        }
    }

    /// Moves the cursor one character left, if it can.
    pub fn move_left(&mut self) -> (r: bool)
        ensures
            r == (old(self)@.1 > 0),
            final(self)@ == (old(self)@.0, if r { (old(self)@.1 - 1) as nat } else { old(self)@.1 }),
    {
        if self.cursor > 0 {
            self.cursor = self.cursor - 1;
            true
        } else {
            false
        }
    }

    /// Moves the cursor one character right, if it can.
    pub fn move_right(&mut self) -> (r: bool)
        ensures
            r == (old(self)@.1 < old(self)@.0.len()),
            final(self)@ == (old(self)@.0, if r { old(self)@.1 + 1 } else { old(self)@.1 }),
    {
        if self.cursor < self.buffer.len() {
            self.cursor = self.cursor + 1;
            true
        } else {
            false
        }
    }

    /// Moves the cursor to the start of the line, if it is elsewhere.
    pub fn move_home(&mut self) -> (r: bool)
        ensures
            r == (old(self)@.1 > 0),
            final(self)@ == (old(self)@.0, 0nat),
    {
        if self.cursor > 0 {
            self.cursor = 0;
            true
        } else {
            false
        }
    }

    /// Moves the cursor to the end of the line, if it is before it.
    pub fn move_end(&mut self) -> (r: bool)
        ensures
            r == (old(self)@.1 < old(self)@.0.len()),
            final(self)@ == (old(self)@.0, if r { old(self)@.0.len() } else { old(self)@.1 }),
    {
        if self.cursor < self.buffer.len() {
            self.cursor = self.buffer.len();
            true
        } else {
            false
        }
    }

    /// The line as a string.
    pub fn get_line(&self) -> (r: String)
        ensures
            r@ == self@.0,
    {
        string_from_chars(&self.buffer)
    }

    /// The length of the line.
    pub fn len(&self) -> (r: usize)
        ensures
            r == self@.0.len(),
    {
        self.buffer.len()
    }

    /// Whether the line is empty.
    pub fn is_empty(&self) -> (r: bool)
        ensures
            r == (self@.0.len() == 0),
    {
        self.buffer.len() == 0
    }

    /// The cursor position.
    pub fn cursor(&self) -> (r: usize)
        ensures
            r == self@.1,
    {
        self.cursor
    }

    /// Empties the line.
    pub fn clear(&mut self)
        ensures
            final(self)@ == (Seq::<char>::empty(), 0nat),
    {
        self.buffer.clear();
        self.cursor = 0;
    }

    /// Replaces the line by `text`, typed in from an empty line: the
    /// characters past the limit are refused.
    pub fn replace_line(&mut self, text: &[char])
        ensures
            spec_editor_ok(final(self)@),
            final(self)@ == spec_replace_line(text@),
    {
        self.clear();
        let mut i: usize = 0;
        while i < text.len()
            invariant
                0 <= i <= text@.len(),
                self@ == spec_replace_line(text@.take(i as int)),
                spec_editor_ok(self@),
            decreases text@.len() - i,
        {
            let ghost before = self@;
            self.insert_char(text[i]);
            proof {
                let t = text@.take(i as int + 1);
                if i < MAX_LINE_LENGTH {
                    assert(before.0.insert(before.1 as int, text@[i as int]) =~= t.take(i as int + 1));
                } else {
                    assert(t.take(MAX_LINE_LENGTH as int) =~= text@.take(i as int).take(MAX_LINE_LENGTH as int));
                }
            }
            i = i + 1;
        }
        assert(text@.take(text@.len() as int) =~= text@);
    }

    /// The characters of the line.
    pub fn buffer(&self) -> (r: &[char])
        ensures
            r@ == self@.0,
    {
        self.buffer.as_slice()
    }
}

/// Inserting a character and then deleting the one before the cursor gives
/// back the line and cursor as they were.
pub proof fn lemma_insert_then_backspace(s: (Seq<char>, nat), ch: char)
    requires
        spec_editor_ok(s),
        s.0.len() < MAX_LINE_LENGTH,
    ensures
        spec_backspace(spec_insert_char(s, ch).0).0 == s,
{
    let t = spec_insert_char(s, ch).0;
    assert(t.0.remove(s.1 as int) =~= s.0);
}

/// Every edit keeps the cursor within the line and the line within the
/// limit.
pub proof fn lemma_edits_keep_state_valid(s: (Seq<char>, nat), ch: char)
    requires
        spec_editor_ok(s),
    ensures
        spec_editor_ok(spec_insert_char(s, ch).0),
        spec_editor_ok(spec_delete_char(s).0),
        spec_editor_ok(spec_backspace(s).0),
{
}

} // verus!
