//! Virtual terminals: independent text screens with a cursor, scrolling
//! and a history of the lines scrolled off, and the manager that keeps
//! twelve of them and knows which one is shown.

use vstd::prelude::*;
use crate::fs::path::string_from_chars;
use super::framebuffer::FbOp;

verus! {

/// The number of virtual terminals.
pub const MAX_TERMINALS: usize = 12;

/// The most lines kept in a terminal's history.
pub const HISTORY_SIZE: usize = 1000;

/// The default foreground colour (white).
pub const DEFAULT_FG: u32 = 0xFFFFFFFF;

/// The default background colour (black).
pub const DEFAULT_BG: u32 = 0xFF000000;

/// A screen cell: character, foreground and background colour.
pub type Cell = (char, u32, u32);

/// What writing changes: the cells, the cursor column and row, and the
/// history.
pub type VtState = (Seq<Cell>, usize, usize, Seq<Seq<char>>);

/// What writing reads but never changes: columns, rows, foreground and
/// background colour.
pub type VtParams = (usize, usize, u32, u32);

/// Whether a character is printed (space to tilde).
pub open spec fn spec_printable(ch: char) -> bool {
    ' ' <= ch && ch <= '~'
}

/// The line without its trailing spaces.
pub open spec fn spec_trim_spaces(s: Seq<char>) -> Seq<char>
    decreases s.len(),
{
    if s.len() > 0 && s.last() == ' ' {
        spec_trim_spaces(s.drop_last())
    } else {
        s
    }
}

/// The characters of the first row.
pub open spec fn spec_first_line(screen: Seq<Cell>, cols: usize) -> Seq<char> {
    Seq::new(cols as nat, |i: int| screen[i].0)
}

/// The history after a line scrolls off: kept when it holds more than
/// spaces, the oldest line dropped when the history is full.
pub open spec fn spec_history_after(hist: Seq<Seq<char>>, line: Seq<char>) -> Seq<Seq<char>> {
    let t = spec_trim_spaces(line);
    if t.len() > 0 {
        (if hist.len() >= HISTORY_SIZE { hist.drop_first() } else { hist }).push(t)
    } else {
        hist
    }
}

/// Scrolling up one line: the first row goes to the history, the rows move
/// up and the last row is blank.
pub open spec fn spec_scroll(s: VtState, p: VtParams) -> VtState {
    let cols = p.0;
    let rows = p.1;
    (
        Seq::new(
            s.0.len(),
            |i: int| if i < (rows - 1) * cols { s.0[i + cols] } else { (' ', p.2, p.3) },
        ),
        s.1,
        s.2,
        spec_history_after(s.3, spec_first_line(s.0, cols)),
    )
}

/// Moving to the start of the next line, scrolling at the bottom.
pub open spec fn spec_newline(s: VtState, p: VtParams) -> VtState {
    if s.2 + 1 >= p.1 {
        let t = spec_scroll(s, p);
        (t.0, 0, (p.1 - 1) as usize, t.3)
    } else {
        (s.0, 0, (s.2 + 1) as usize, s.3)
    }
}

/// Putting a character at the cursor, scrolling first when the cursor is
/// below the screen; a cell past the screen is not written.
pub open spec fn spec_put_char(s: VtState, ch: char, p: VtParams) -> VtState {
    let t = if s.2 >= p.1 {
        let u = spec_scroll(s, p);
        (u.0, u.1, (p.1 - 1) as usize, u.3)
    } else {
        s
    };
    let idx = t.2 * p.0 + t.1;
    if idx < t.0.len() {
        (t.0.update(idx, (ch, p.2, p.3)), t.1, t.2, t.3)
    } else {
        t
    }
}

/// Writing a printable character: wrap at the end of the line, put it,
/// move right.
pub open spec fn spec_write_printable(s: VtState, ch: char, p: VtParams) -> VtState {
    let t = if s.1 >= p.0 { spec_newline(s, p) } else { s };
    let u = spec_put_char(t, ch, p);
    (u.0, (u.1 + 1) as usize, u.2, u.3)
}

/// Writing one character: newline, carriage return, tab (four spaces),
/// backspace (blank the cell before the cursor and move back two), a
/// printable character, or nothing for other control characters.
pub open spec fn spec_write_char(s: VtState, ch: char, p: VtParams) -> VtState {
    if ch == '\n' {
        spec_newline(s, p)
    } else if ch == '\r' {
        (s.0, 0, s.2, s.3)
    } else if ch == '\t' {
        spec_write_printable(
            spec_write_printable(spec_write_printable(spec_write_printable(s, ' ', p), ' ', p), ' ', p),
            ' ',
            p,
        )
    } else if ch == '\x08' {
        if s.1 > 0 {
            let t = spec_put_char((s.0, (s.1 - 1) as usize, s.2, s.3), ' ', p);
            (t.0, (t.1 - 1) as usize, t.2, t.3)
        } else {
            s
        }
    } else if spec_printable(ch) {
        spec_write_printable(s, ch, p)
    } else {
        s
    }
}

/// Whether writing the character completes: anything that reaches a row
/// needs at least one row, and a backspace in the second column would
/// move the cursor before the first.
pub open spec fn spec_write_ok(s: VtState, ch: char, p: VtParams) -> bool {
    if ch == '\n' || ch == '\t' || spec_printable(ch) {
        p.1 > 0
    } else if ch == '\x08' {
        s.1 == 0 || (s.1 >= 2 && p.1 > 0)
    } else {
        true
    }
}

/// Writing a sequence of characters, in order.
pub open spec fn spec_write_seq(s: VtState, cs: Seq<char>, p: VtParams) -> VtState
    decreases cs.len(),
{
    if cs.len() == 0 {
        s
    } else {
        spec_write_char(spec_write_seq(s, cs.drop_last(), p), cs.last(), p)
    }
}

/// Whether writing each character of the sequence completes.
pub open spec fn spec_write_seq_ok(s: VtState, cs: Seq<char>, p: VtParams) -> bool
    decreases cs.len(),
{
    cs.len() == 0 || (spec_write_seq_ok(s, cs.drop_last(), p) && spec_write_ok(
        spec_write_seq(s, cs.drop_last(), p),
        cs.last(),
        p,
    ))
}

/// A terminal state is consistent: the screen has a cell per column and
/// row, all printable, the cursor is at most one past the last column and
/// on a row (or at row 0 of a screen without rows), and the history is
/// within its limit.
pub open spec fn spec_vt_ok(s: VtState, p: VtParams) -> bool {
    &&& s.0.len() == p.0 * p.1
    &&& s.0.len() < usize::MAX
    &&& forall|i: int| 0 <= i < s.0.len() ==> spec_printable(#[trigger] s.0[i].0)
    &&& s.1 <= p.0 + 1
    &&& (p.1 > 0 ==> s.2 < p.1)
    &&& (p.1 == 0 ==> s.2 == 0)
    &&& s.3.len() <= HISTORY_SIZE
}

proof fn lemma_seq_ok_prefix(s: VtState, cs: Seq<char>, p: VtParams, k: int)
    requires
        spec_write_seq_ok(s, cs, p),
        0 <= k <= cs.len(),
    ensures
        spec_write_seq_ok(s, cs.take(k), p),
    decreases cs.len(),
{
    if k < cs.len() {
        assert(cs.drop_last().take(k) =~= cs.take(k));
        lemma_seq_ok_prefix(s, cs.drop_last(), p, k);
    } else {
        assert(cs.take(k) =~= cs);
    }
}

/// A text screen.
pub struct VirtualTerminal {
    id: usize,
    col: usize,
    row: usize,
    max_cols: usize,
    max_rows: usize,
    fg_color: u32,
    bg_color: u32,
    screen_buffer: Vec<Cell>,
    history: Vec<String>,
    history_offset: usize,
    active: bool,
}

impl VirtualTerminal {
    /// The cells, cursor and history.
    pub closed spec fn state(&self) -> VtState {
        (self.screen_buffer@, self.col, self.row, self.history@.map_values(|s: String| s@))
    }

    /// Columns, rows and colours.
    pub closed spec fn params(&self) -> VtParams {
        (self.max_cols, self.max_rows, self.fg_color, self.bg_color)
    }

    /// The terminal's number.
    pub closed spec fn spec_id(&self) -> usize {
        self.id
    }

    /// Whether the terminal is the one shown.
    pub closed spec fn spec_active(&self) -> bool {
        self.active
    }

    /// The state is consistent.
    pub open spec fn wf(&self) -> bool {
        spec_vt_ok(self.state(), self.params())
    }

    /// A blank terminal with white on black text, the cursor at the top
    /// left, no history, not shown.
    pub fn new(id: usize, max_cols: usize, max_rows: usize) -> (r: Self)
        requires
            max_cols * max_rows < usize::MAX,
        ensures
            r.wf(),
            r.spec_id() == id,
            !r.spec_active(),
            r.params() == (max_cols, max_rows, DEFAULT_FG, DEFAULT_BG),
            r.state() == (
                Seq::new((max_cols * max_rows) as nat, |i: int| (' ', DEFAULT_FG, DEFAULT_BG)),
                0usize,
                0usize,
                Seq::<Seq<char>>::empty(),
            ),
    {
        let buffer_size = max_cols * max_rows;
        let mut screen_buffer: Vec<Cell> = Vec::with_capacity(buffer_size);
        while screen_buffer.len() < buffer_size
            invariant
                screen_buffer@.len() <= buffer_size,
                forall|i: int| 0 <= i < screen_buffer@.len() ==> #[trigger] screen_buffer@[i] == (' ', DEFAULT_FG, DEFAULT_BG),
            decreases buffer_size - screen_buffer@.len(),
        {
            screen_buffer.push((' ', DEFAULT_FG, DEFAULT_BG));
        }
        let r = VirtualTerminal {
            id,
            col: 0,
            row: 0,
            max_cols,
            max_rows,
            fg_color: DEFAULT_FG,
            bg_color: DEFAULT_BG,
            screen_buffer,
            history: Vec::with_capacity(HISTORY_SIZE),
            history_offset: 0,
            active: false,
        };
        assert(r.state().0 =~= Seq::new((max_cols * max_rows) as nat, |i: int| (' ', DEFAULT_FG, DEFAULT_BG)));
        assert(r.state().3 =~= Seq::<Seq<char>>::empty());
        r
    }

    /// The terminal's number.
    pub fn id(&self) -> (r: usize)
        ensures
            r == self.spec_id(),
    {
        self.id
    }

    /// Whether the terminal is the one shown.
    pub fn is_active(&self) -> (r: bool)
        ensures
            r == self.spec_active(),
    {
        self.active
    }

    /// Marks the terminal as shown or not.
    pub fn set_active(&mut self, active: bool)
        ensures
            final(self).spec_active() == active,
            final(self).state() == old(self).state(),
            final(self).params() == old(self).params(),
            final(self).spec_id() == old(self).spec_id(),
    {
        self.active = active;
    }

    /// Scrolls the screen up one line.
    fn scroll_up(&mut self)
        requires
            old(self).wf(),
            old(self).max_rows > 0,
        ensures
            final(self).state() == spec_scroll(old(self).state(), old(self).params()),
            final(self).params() == old(self).params(),
            final(self).spec_id() == old(self).spec_id(),
            final(self).spec_active() == old(self).spec_active(),
            final(self).history@.len() <= HISTORY_SIZE,
            forall|i: int| 0 <= i < final(self).screen_buffer@.len() ==> spec_printable(#[trigger] final(self).screen_buffer@[i].0),
    {
        let ghost s = self.state();
        let ghost p = self.params();
        let cols = self.max_cols;
        let rows = self.max_rows;
        proof {
            assert(cols <= cols * rows) by (nonlinear_arith)
                requires
                    rows >= 1,
            ;
        }
        let mut line: Vec<char> = Vec::new();
        let mut c: usize = 0;
        while c < cols
            invariant
                cols == self.max_cols,
                cols <= self.screen_buffer@.len(),
                self.screen_buffer@ == s.0,
                0 <= c <= cols,
                line@ == spec_first_line(s.0, cols).take(c as int),
            decreases cols - c,
        {
            line.push(self.screen_buffer[c].0);
            assert(line@ =~= spec_first_line(s.0, cols).take(c as int + 1));
            c = c + 1;
        }
        assert(line@ =~= spec_first_line(s.0, cols));
        let mut end = line.len();
        assert(line@.take(end as int) =~= line@);
        while end > 0 && line[end - 1] == ' '
            invariant
                0 <= end <= line@.len(),
                spec_trim_spaces(line@) == spec_trim_spaces(line@.take(end as int)),
            decreases end,
        {
            assert(line@.take(end as int).drop_last() =~= line@.take(end as int - 1));
            end = end - 1;
        }
        assert(spec_trim_spaces(line@.take(end as int)) == line@.take(end as int));
        let ghost hist = s.3;
        if end > 0 {
            let mut kept: Vec<char> = Vec::new();
            let mut k: usize = 0;
            while k < end
                invariant
                    0 <= k <= end <= line@.len(),
                    kept@ == line@.take(k as int),
                decreases end - k,
            {
                kept.push(line[k]);
                assert(kept@ =~= line@.take(k as int + 1));
                k = k + 1;
            }
            if self.history.len() >= HISTORY_SIZE {
                self.history.remove(0);
                assert(self.history@.map_values(|x: String| x@) =~= hist.drop_first());
            }
            let ghost before = self.history@.map_values(|x: String| x@);
            let text = string_from_chars(&kept);
            self.history.push(text);
            assert(self.history@.map_values(|x: String| x@) =~= before.push(kept@));
        } else {
            assert(self.history@.map_values(|x: String| x@) =~= hist);
        }
        proof {
            assert((rows - 1) * cols + cols == cols * rows) by (nonlinear_arith)
                requires
                    rows >= 1,
            ;
        }
        assert(cols * rows == self.screen_buffer.len());
        let n = (rows - 1) * cols;
        let ghost h = self.history@;
        let mut i: usize = 0;
        while i < n
            invariant
                cols == self.max_cols,
                rows == self.max_rows,
                n == (rows - 1) * cols,
                n + cols == self.screen_buffer.len(),
                self.screen_buffer@.len() == s.0.len(),
                self.fg_color == p.2,
                self.bg_color == p.3,
                self.id == old(self).id,
                self.active == old(self).active,
                self.col == old(self).col,
                self.row == old(self).row,
                self.history@ == h,
                0 <= i <= n,
                forall|k: int| 0 <= k < i ==> #[trigger] self.screen_buffer@[k] == s.0[k + cols],
                forall|k: int| i <= k < s.0.len() ==> #[trigger] self.screen_buffer@[k] == s.0[k],
            decreases n - i,
        {
            let v = self.screen_buffer[i + cols];
            self.screen_buffer.set(i, v);
            i = i + 1;
        }
        let mut j: usize = 0;
        while j < cols
            invariant
                cols == self.max_cols,
                rows == self.max_rows,
                n == (rows - 1) * cols,
                n + cols == self.screen_buffer.len(),
                self.screen_buffer@.len() == s.0.len(),
                self.fg_color == p.2,
                self.bg_color == p.3,
                self.id == old(self).id,
                self.active == old(self).active,
                self.col == old(self).col,
                self.row == old(self).row,
                self.history@ == h,
                0 <= j <= cols,
                forall|k: int| 0 <= k < n ==> #[trigger] self.screen_buffer@[k] == s.0[k + cols],
                forall|k: int| n <= k < n + j ==> #[trigger] self.screen_buffer@[k] == (' ', p.2, p.3),
            decreases cols - j,
        {
            self.screen_buffer.set(n + j, (' ', self.fg_color, self.bg_color));
            j = j + 1;
        }
        assert(self.screen_buffer@ =~= spec_scroll(s, p).0);
    }

    /// Moves to the start of the next line.
    fn newline(&mut self)
        requires
            old(self).wf(),
            old(self).max_rows > 0,
        ensures
            final(self).wf(),
            final(self).state() == spec_newline(old(self).state(), old(self).params()),
            final(self).params() == old(self).params(),
            final(self).spec_id() == old(self).spec_id(),
            final(self).spec_active() == old(self).spec_active(),
    {
        let next = self.row + 1;
        self.col = 0;
        if next >= self.max_rows {
            self.scroll_up();
            self.row = self.max_rows - 1;
        } else {
            self.row = next;
        }
    }

    /// Puts a printable character at the cursor without moving it.
    fn put_char(&mut self, ch: char)
        requires
            old(self).wf(),
            old(self).max_rows > 0,
            spec_printable(ch),
        ensures
            final(self).wf(),
            final(self).state() == spec_put_char(old(self).state(), ch, old(self).params()),
            final(self).params() == old(self).params(),
            final(self).spec_id() == old(self).spec_id(),
            final(self).spec_active() == old(self).spec_active(),
    {
        if self.row >= self.max_rows {
            self.scroll_up();
            self.row = self.max_rows - 1;
        }
        proof {
            let r = self.row as int;
            let c = self.max_cols as int;
            assert(r * c <= (self.max_rows - 1) * c) by (nonlinear_arith)
                requires
                    0 <= r <= self.max_rows - 1,
                    c >= 0,
            ;
            assert((self.max_rows - 1) * c + c == c * self.max_rows) by (nonlinear_arith)
                requires
                    self.max_rows >= 1,
            ;
        }
        let idx = self.row * self.max_cols + self.col;
        if idx < self.screen_buffer.len() {
            self.screen_buffer.set(idx, (ch, self.fg_color, self.bg_color));
        }
    }

    /// Writes a printable character and moves right, wrapping first at
    /// the end of the line.
    fn write_printable(&mut self, ch: char)
        requires
            old(self).wf(),
            old(self).max_rows > 0,
            spec_printable(ch),
        ensures
            final(self).wf(),
            final(self).state() == spec_write_printable(old(self).state(), ch, old(self).params()),
            final(self).params() == old(self).params(),
            final(self).spec_id() == old(self).spec_id(),
            final(self).spec_active() == old(self).spec_active(),
    {
        if self.col >= self.max_cols {
            self.newline();
        }
        self.put_char(ch);
        self.col = self.col + 1;
    }

    /// Writes one character.
    pub fn write_char(&mut self, ch: char)
        requires
            old(self).wf(),
            spec_write_ok(old(self).state(), ch, old(self).params()),
        ensures
            final(self).wf(),
            final(self).state() == spec_write_char(old(self).state(), ch, old(self).params()),
            final(self).params() == old(self).params(),
            final(self).spec_id() == old(self).spec_id(),
            final(self).spec_active() == old(self).spec_active(),
    {
        if ch == '\n' {
            self.newline();
        } else if ch == '\r' {
            self.col = 0;
        } else if ch == '\t' {
            self.write_printable(' ');
            self.write_printable(' ');
            self.write_printable(' ');
            self.write_printable(' ');
        } else if ch == '\x08' {
            if self.col > 0 {
                self.col = self.col - 1;
                self.put_char(' ');
                self.col = self.col - 1;
            }
        } else if ' ' <= ch && ch <= '~' {
            self.write_printable(ch);
        }
    }

    /// Writes the characters of a string in order.
    pub fn write_str(&mut self, s: &str)
        requires
            old(self).wf(),
            spec_write_seq_ok(old(self).state(), s@, old(self).params()),
        ensures
            final(self).wf(),
            final(self).state() == spec_write_seq(old(self).state(), s@, old(self).params()),
            final(self).params() == old(self).params(),
            final(self).spec_id() == old(self).spec_id(),
            final(self).spec_active() == old(self).spec_active(),
    {
        let cs = crate::fs::path::chars_of(s);
        let ghost st = self.state();
        let ghost p = self.params();
        let mut i: usize = 0;
        assert(cs@.take(0) =~= Seq::<char>::empty());
        while i < cs.len()
            invariant
                cs@ == s@,
                0 <= i <= cs@.len(),
                self.wf(),
                spec_write_seq_ok(st, s@, p),
                self.params() == p,
                self.spec_id() == old(self).spec_id(),
                self.spec_active() == old(self).spec_active(),
                self.state() == spec_write_seq(st, cs@.take(i as int), p),
            decreases cs@.len() - i,
        {
            proof {
                lemma_seq_ok_prefix(st, s@, p, i as int + 1);
                assert(cs@.take(i as int + 1).drop_last() =~= cs@.take(i as int));
                assert(cs@.take(i as int + 1).last() == cs@[i as int]);
            }
            self.write_char(cs[i]);
            i = i + 1;
        }
        assert(cs@.take(cs@.len() as int) =~= s@);
    }

    /// Blanks the screen and puts the cursor at the top left.
    pub fn clear(&mut self)
        requires
            old(self).wf(),
        ensures
            final(self).wf(),
            final(self).state() == (
                Seq::new(old(self).state().0.len(), |i: int| (' ', old(self).params().2, old(self).params().3)),
                0usize,
                0usize,
                old(self).state().3,
            ),
            final(self).params() == old(self).params(),
            final(self).spec_id() == old(self).spec_id(),
            final(self).spec_active() == old(self).spec_active(),
    {
        let n = self.screen_buffer.len();
        let mut i: usize = 0;
        while i < n
            invariant
                n == self.screen_buffer@.len(),
                n == old(self).screen_buffer@.len(),
                0 <= i <= n,
                self.fg_color == old(self).fg_color,
                self.bg_color == old(self).bg_color,
                self.max_cols == old(self).max_cols,
                self.max_rows == old(self).max_rows,
                self.id == old(self).id,
                self.active == old(self).active,
                self.history == old(self).history,
                forall|k: int| 0 <= k < i ==> #[trigger] self.screen_buffer@[k] == (' ', self.fg_color, self.bg_color),
                forall|k: int| i <= k < n ==> #[trigger] self.screen_buffer@[k] == old(self).screen_buffer@[k],
            decreases n - i,
        {
            self.screen_buffer.set(i, (' ', self.fg_color, self.bg_color));
            i = i + 1;
        }
        self.col = 0;
        self.row = 0;
        assert(self.state().0 =~= Seq::new(old(self).state().0.len(), |i: int| (' ', old(self).params().2, old(self).params().3)));
    }

    /// The cells, row by row.
    pub fn screen_buffer(&self) -> (r: &[Cell])
        ensures
            r@ == self.state().0,
    {
        self.screen_buffer.as_slice()
    }

    /// Moves the cursor, clamped to the last column and row.
    pub fn set_position(&mut self, col: usize, row: usize)
        requires
            old(self).wf(),
            old(self).params().0 > 0,
            old(self).params().1 > 0,
        ensures
            final(self).wf(),
            final(self).state() == (
                old(self).state().0,
                if col < old(self).params().0 - 1 { col } else { (old(self).params().0 - 1) as usize },
                if row < old(self).params().1 - 1 { row } else { (old(self).params().1 - 1) as usize },
                old(self).state().3,
            ),
            final(self).params() == old(self).params(),
            final(self).spec_id() == old(self).spec_id(),
            final(self).spec_active() == old(self).spec_active(),
    {
        self.col = if col < self.max_cols - 1 { col } else { self.max_cols - 1 };
        self.row = if row < self.max_rows - 1 { row } else { self.max_rows - 1 };
    }

    /// The cursor column and row.
    pub fn position(&self) -> (r: (usize, usize))
        ensures
            r == (self.state().1, self.state().2),
    {
        (self.col, self.row)
    }

    /// Sets the colours of text written from now on.
    pub fn set_colors(&mut self, fg: u32, bg: u32)
        requires
            old(self).wf(),
        ensures
            final(self).wf(),
            final(self).state() == old(self).state(),
            final(self).params() == (old(self).params().0, old(self).params().1, fg, bg),
            final(self).spec_id() == old(self).spec_id(),
            final(self).spec_active() == old(self).spec_active(),
    {
        self.fg_color = fg;
        self.bg_color = bg;
    }
}

/// Whether a cell shows on a black screen: not a blank on black.
pub open spec fn spec_cell_visible(c: Cell) -> bool {
    c.0 != ' ' || c.2 != DEFAULT_BG
}

/// Drawing the first `n` cells of a screen of `cols` columns, row after
/// row, skipping those that do not show.
pub open spec fn spec_render_cells(buf: Seq<Cell>, cols: usize, n: nat) -> Seq<FbOp>
    decreases n,
{
    if n == 0 {
        Seq::empty()
    } else {
        spec_render_cells(buf, cols, (n - 1) as nat) + spec_render_cell(buf, cols, n - 1)
    }
}

/// Drawing cell `i` of a screen of `cols` columns, if it shows.
pub open spec fn spec_render_cell(buf: Seq<Cell>, cols: usize, i: int) -> Seq<FbOp> {
    if 0 <= i < buf.len() && spec_cell_visible(buf[i]) {
        seq![spec_cell_op(buf[i], cols, i)]
    } else {
        Seq::empty()
    }
}

/// Drawing cell `c`, number `i` on a screen of `cols` columns.
pub open spec fn spec_cell_op(c: Cell, cols: usize, i: int) -> FbOp {
    FbOp::Draw { ch: c.0, col: (i % cols as int) as usize, row: (i / cols as int) as usize, fg: c.1, bg: c.2 }
}

/// Drawing a terminal of `cols` by `rows` cells: clear to black, the
/// cells that show, then the cursor as a white block.
pub open spec fn spec_render(s: VtState, cols: usize, rows: usize) -> Seq<FbOp> {
    seq![FbOp::Fill { color: DEFAULT_BG }] + spec_render_cells(s.0, cols, (cols * rows) as nat) + seq![
        FbOp::Draw { ch: ' ', col: s.1, row: s.2, fg: DEFAULT_FG, bg: DEFAULT_FG },
    ]
}

/// The virtual terminals and which one is shown.
pub struct VtManager {
    terminals: Vec<VirtualTerminal>,
    current: usize,
    max_cols: usize,
    max_rows: usize,
    fb_width: usize,
    fb_height: usize,
    fb_pitch: usize,
    mapped: bool,
}

impl VtManager {
    /// The terminals, by number.
    pub closed spec fn spec_terminals(&self) -> Seq<VirtualTerminal> {
        self.terminals@
    }

    /// The number of the terminal shown.
    pub closed spec fn spec_current(&self) -> usize {
        self.current
    }

    /// The text size of every terminal: columns and rows.
    pub closed spec fn spec_dims(&self) -> (usize, usize) {
        (self.max_cols, self.max_rows)
    }

    /// Whether a framebuffer was given to draw on.
    pub closed spec fn spec_mapped(&self) -> bool {
        self.mapped
    }

    /// A manager without terminals, showing terminal 0.
    pub fn new() -> (r: Self)
        ensures
            !r.spec_mapped(),
            r.spec_terminals().len() == 0,
            r.spec_current() == 0,
            r.spec_dims() == (0usize, 0usize),
    {
        VtManager {
            terminals: Vec::new(),
            current: 0,
            max_cols: 0,
            max_rows: 0,
            fb_width: 0,
            fb_height: 0,
            fb_pitch: 0,
            mapped: false,
        }
    }

    /// Sizes the terminals to a `width` by `height` pixel framebuffer
    /// (`mapped` when its address is not null) drawn with `font_width` by
    /// `font_height` pixel characters, and appends the twelve terminals,
    /// numbered 0 to 11, the first one shown.
    pub fn init(
        &mut self,
        mapped: bool,
        width: usize,
        height: usize,
        pitch: usize,
        font_width: usize,
        font_height: usize,
    )
        requires
            font_width > 0,
            font_height > 0,
            (width / font_width) * (height / font_height) < usize::MAX,
            old(self).spec_terminals().len() + MAX_TERMINALS <= usize::MAX,
        ensures
            final(self).spec_mapped() == mapped,
            final(self).spec_dims() == (width / font_width, height / font_height),
            final(self).spec_current() == old(self).spec_current(),
            final(self).spec_terminals().len() == old(self).spec_terminals().len() + MAX_TERMINALS,
            forall|i: int| 0 <= i < old(self).spec_terminals().len() ==> #[trigger] final(self).spec_terminals()[i]
                == old(self).spec_terminals()[i],
            forall|k: int|
                0 <= k < MAX_TERMINALS ==> {
                    let t = #[trigger] final(self).spec_terminals()[old(self).spec_terminals().len() + k];
                    &&& t.wf()
                    &&& t.spec_id() == k
                    &&& t.spec_active() == (k == 0)
                    &&& t.params() == (width / font_width, height / font_height, DEFAULT_FG, DEFAULT_BG)
                    &&& t.state().1 == 0 && t.state().2 == 0
                },
    {
        self.mapped = mapped;
        self.fb_width = width;
        self.fb_height = height;
        self.fb_pitch = pitch;
        self.max_cols = width / font_width;
        self.max_rows = height / font_height;
        let base = self.terminals.len();
        let mut id: usize = 0;
        while id < MAX_TERMINALS
            invariant
                0 <= id <= MAX_TERMINALS,
                self.terminals@.len() == base + id,
                base == old(self).terminals@.len(),
                base + MAX_TERMINALS <= usize::MAX,
                self.max_cols == width / font_width,
                self.max_rows == height / font_height,
                self.max_cols * self.max_rows < usize::MAX,
                self.current == old(self).current,
                self.mapped == mapped,
                forall|i: int| 0 <= i < base ==> #[trigger] self.terminals@[i] == old(self).terminals@[i],
                forall|k: int|
                    0 <= k < id ==> {
                        let t = #[trigger] self.terminals@[base + k];
                        &&& t.wf()
                        &&& t.spec_id() == k
                        &&& t.spec_active() == (k == 0)
                        &&& t.params() == (width / font_width, height / font_height, DEFAULT_FG, DEFAULT_BG)
                        &&& t.state().1 == 0 && t.state().2 == 0
                    },
            decreases MAX_TERMINALS - id,
        {
            let mut vt = VirtualTerminal::new(id, self.max_cols, self.max_rows);
            if id == 0 {
                vt.set_active(true);
            }
            self.terminals.push(vt);
            id = id + 1;
        }
    }

    /// The terminal shown, if it exists.
    pub fn current_terminal(&mut self) -> (r: Option<&mut VirtualTerminal>)
        ensures
            old(self).spec_current() < old(self).spec_terminals().len() ==> r is Some,
            old(self).spec_current() >= old(self).spec_terminals().len() ==> r is None,
            final(self).spec_current() == old(self).spec_current(),
            final(self).spec_dims() == old(self).spec_dims(),
            final(self).spec_terminals().len() == old(self).spec_terminals().len(),
            match r {
                Some(t) => {
                    &&& *t == old(self).spec_terminals()[old(self).spec_current() as int]
                    &&& final(self).spec_terminals() == old(self).spec_terminals().update(
                        old(self).spec_current() as int,
                        *final(t),
                    )
                },
                None => final(self).spec_terminals() == old(self).spec_terminals(),
            },
    {
        let cur = self.current;
        if cur < self.terminals.len() {
            Some(&mut self.terminals[cur])
        } else {
            None
        }
    }

    /// Terminal `id`, if it exists.
    pub fn terminal(&mut self, id: usize) -> (r: Option<&mut VirtualTerminal>)
        ensures
            id < old(self).spec_terminals().len() ==> r is Some,
            id >= old(self).spec_terminals().len() ==> r is None,
            final(self).spec_current() == old(self).spec_current(),
            final(self).spec_dims() == old(self).spec_dims(),
            final(self).spec_terminals().len() == old(self).spec_terminals().len(),
            match r {
                Some(t) => {
                    &&& *t == old(self).spec_terminals()[id as int]
                    &&& final(self).spec_terminals() == old(self).spec_terminals().update(id as int, *final(t))
                },
                None => final(self).spec_terminals() == old(self).spec_terminals(),
            },
    {
        if id < self.terminals.len() {
            Some(&mut self.terminals[id])
        } else {
            None
        }
    }

    /// Shows terminal `id`: refused past the last terminal number; for
    /// another terminal than the shown one, the shown one is marked not
    /// shown and `id` shown. The caller redraws the screen when the
    /// terminal changed.
    pub fn switch_to(&mut self, id: usize) -> (r: bool)
        ensures
            r == (id < MAX_TERMINALS),
            final(self).spec_current() == (if r { id } else { old(self).spec_current() }),
            final(self).spec_dims() == old(self).spec_dims(),
            final(self).spec_terminals().len() == old(self).spec_terminals().len(),
            forall|k: int|
                0 <= k < old(self).spec_terminals().len() ==> {
                    let before = old(self).spec_terminals()[k];
                    let after = #[trigger] final(self).spec_terminals()[k];
                    &&& after.state() == before.state()
                    &&& after.params() == before.params()
                    &&& after.spec_id() == before.spec_id()
                    &&& after.spec_active() == (if r && id != old(self).spec_current() && k == id {
                        true
                    } else if r && id != old(self).spec_current() && k == old(self).spec_current() {
                        false
                    } else {
                        before.spec_active()
                    })
                },
    {
        if id >= MAX_TERMINALS {
            return false;
        }
        if id == self.current {
            return true;
        }
        let cur = self.current;
        if cur < self.terminals.len() {
            self.terminals[cur].set_active(false);
        }
        self.current = id;
        if id < self.terminals.len() {
            self.terminals[id].set_active(true);
        }
        true
    }

    /// The text size of every terminal: columns and rows.
    pub fn dims(&self) -> (r: (usize, usize))
        ensures
            r == self.spec_dims(),
    {
        (self.max_cols, self.max_rows)
    }

    /// Draws the terminal shown: the screen cleared to black, each cell
    /// that is not a blank on black in row order, and the cursor as a
    /// white block; nothing without a framebuffer or that terminal.
    pub fn render_current(&mut self) -> (ops: Vec<FbOp>)
        requires
            old(self).spec_dims().0 * old(self).spec_dims().1 <= usize::MAX,
        ensures
            *final(self) == *old(self),
            ops@ == (if old(self).spec_mapped() && old(self).spec_current() < old(self).spec_terminals().len() {
                let t = old(self).spec_terminals()[old(self).spec_current() as int];
                spec_render(t.state(), old(self).spec_dims().0, old(self).spec_dims().1)
            } else {
                Seq::empty()
            }),
    {
        let mut ops: Vec<FbOp> = Vec::new();
        if !self.mapped || self.current >= self.terminals.len() {
            return ops;
        }
        let vt = &self.terminals[self.current];
        let buffer = vt.screen_buffer();
        let cols: usize = self.max_cols;
        let n: usize = self.max_cols * self.max_rows;
        ops.push(FbOp::Fill { color: DEFAULT_BG });
        let ghost st = vt.state();
        let mut idx: usize = 0;
        assert(ops@ =~= seq![FbOp::Fill { color: DEFAULT_BG }] + spec_render_cells(st.0, cols, 0));
        while idx < n
            invariant
                idx <= n,
                buffer@ == st.0,
                cols == self.max_cols,
                n == cols * self.max_rows,
                ops@ == seq![FbOp::Fill { color: DEFAULT_BG }] + spec_render_cells(st.0, cols, idx as nat),
            decreases n - idx,
        {
            assert(cols > 0) by (nonlinear_arith)
                requires
                    idx < n,
                    n == cols * self.max_rows,
            ;
            let ghost before = ops@;
            if idx < buffer.len() {
                let cell = buffer[idx];
                if cell.0 != ' ' || cell.2 != DEFAULT_BG {
                    let op = FbOp::Draw { ch: cell.0, col: idx % cols, row: idx / cols, fg: cell.1, bg: cell.2 };
                    assert(op == spec_cell_op(st.0[idx as int], cols, idx as int));
                    ops.push(op);
                }
            }
            assert(ops@ =~= before + spec_render_cell(st.0, cols, idx as int));
            idx = idx + 1;
            assert(ops@ =~= seq![FbOp::Fill { color: DEFAULT_BG }] + spec_render_cells(st.0, cols, idx as nat));
        }
        let (cur_col, cur_row) = vt.position();
        ops.push(FbOp::Draw { ch: ' ', col: cur_col, row: cur_row, fg: DEFAULT_FG, bg: DEFAULT_FG });
        ops
    }

    /// The number of the terminal shown.
    pub fn current_id(&self) -> (r: usize)
        ensures
            r == self.spec_current(),
    {
        self.current
    }
}

} // verus!
