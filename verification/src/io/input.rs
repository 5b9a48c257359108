//! The keyboard input buffer: characters waiting to be read, oldest
//! first, at most `MAX_BUFFERED` of them.

use std::collections::VecDeque;
use vstd::prelude::*;

verus! {

/// The most characters the buffer holds.
pub const MAX_BUFFERED: usize = 1024;

/// Characters typed and not yet read.
pub struct InputBuffer {
    chars: VecDeque<char>,
}

impl View for InputBuffer {
    type V = Seq<char>;

    closed spec fn view(&self) -> Seq<char> {
        self.chars@
    }
}

impl InputBuffer {
    /// An empty buffer.
    pub fn new() -> (r: Self)
        ensures
            r@ == Seq::<char>::empty(),
    {
        InputBuffer { chars: VecDeque::new() }
    }

    /// Appends `ch`; dropped when the buffer is full.
    pub fn push_char(&mut self, ch: char)
        ensures
            old(self)@.len() < MAX_BUFFERED ==> final(self)@ == old(self)@.push(ch),
            old(self)@.len() >= MAX_BUFFERED ==> final(self)@ == old(self)@,
    {
        if self.chars.len() < MAX_BUFFERED {
            self.chars.push_back(ch);
        }
    }

    /// Takes the oldest character, if any.
    pub fn pop_char(&mut self) -> (r: Option<char>)
        ensures
            old(self)@.len() == 0 ==> r is None && final(self)@ == old(self)@,
            old(self)@.len() > 0 ==> r == Some(old(self)@[0]) && final(self)@ == old(self)@.drop_first(),
    {
        self.chars.pop_front()
    }

    /// Whether no character is waiting.
    pub fn is_empty(&self) -> (r: bool)
        ensures
            r == (self@.len() == 0),
    {
        self.chars.len() == 0
    }

    /// Drops every waiting character.
    pub fn clear(&mut self)
        ensures
            final(self)@ == Seq::<char>::empty(),
    {
        self.chars.clear();
    }
}

/// Characters come out in the order they went in: pushing onto a buffer
/// with room and then popping gives the oldest waiting character, or the
/// pushed one when none was waiting.
pub proof fn lemma_push_then_pop_order(s: Seq<char>, ch: char)
    requires
        s.len() < MAX_BUFFERED,
    ensures
        s.push(ch)[0] == (if s.len() == 0 { ch } else { s[0] }),
        s.push(ch).drop_first() == (if s.len() == 0 { Seq::<char>::empty() } else { s.drop_first().push(ch) }),
{
    if s.len() == 0 {
        assert(s.push(ch).drop_first() =~= Seq::<char>::empty());
    } else {
        assert(s.push(ch).drop_first() =~= s.drop_first().push(ch));
    }
}

} // verus!
