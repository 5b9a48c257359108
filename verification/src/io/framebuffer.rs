//! The framebuffer text console: where the cursor goes as text is
//! written, and which character cells get drawn or when the screen
//! scrolls. Drawing the pixels is left to the caller, who performs the
//! operations in order.

use vstd::prelude::*;
use vstd::string::StringSliceAdditionalSpecFns;

verus! {

/// A drawing operation on the framebuffer.
#[derive(Debug, Clone, Copy, PartialEq, Eq, Structural)]
pub enum FbOp {
    /// Draw a character into the cell at column and row, in the colours.
    Draw { ch: char, col: usize, row: usize, fg: u32, bg: u32 },
    /// Move the picture up one text row and blank the last one.
    ScrollUp,
    /// Fill the whole screen with the colour.
    Fill { color: u32 },
}

/// The cursor: column and row.
pub type FbCursor = (usize, usize);

/// What drawing reads: columns, rows, foreground and background colour,
/// and whether the framebuffer can be drawn on (mapped, 32 bits per
/// pixel).
pub type FbParams = (usize, usize, u32, u32, bool);

/// Drawing a character at the cursor, when the screen can be drawn on.
pub open spec fn spec_draw(c: FbCursor, ch: char, p: FbParams) -> Seq<FbOp> {
    if p.4 {
        seq![FbOp::Draw { ch, col: c.0, row: c.1, fg: p.2, bg: p.3 }]
    } else {
        Seq::empty()
    }
}

/// Scrolling when the cursor is below the last row: the cursor moves to
/// the last row.
pub open spec fn spec_settle(c: FbCursor, p: FbParams) -> (FbCursor, Seq<FbOp>) {
    if c.1 >= p.1 {
        ((c.0, (p.1 - 1) as usize), if p.4 { seq![FbOp::ScrollUp] } else { Seq::empty() })
    } else {
        (c, Seq::empty())
    }
}

/// Writing one byte other than a tab: newline, carriage return,
/// backspace (move left and blank the cell), or a character (wrapping at
/// the end of the line; only printable ASCII is drawn and advances); then
/// scrolling when below the last row.
pub open spec fn spec_write_simple(c: FbCursor, b: u8, p: FbParams) -> (FbCursor, Seq<FbOp>) {
    let (moved, ops): (FbCursor, Seq<FbOp>) = if b == 10 {
        ((0usize, (c.1 + 1) as usize), Seq::empty())
    } else if b == 13 {
        ((0usize, c.1), Seq::empty())
    } else if b == 8 {
        if c.0 > 0 {
            let d = ((c.0 - 1) as usize, c.1);
            (d, spec_draw(d, ' ', p))
        } else {
            (c, Seq::empty())
        }
    } else {
        let w = if c.0 >= p.0 { (0usize, (c.1 + 1) as usize) } else { c };
        if 32 <= b < 127 {
            (((w.0 + 1) as usize, w.1), spec_draw(w, b as char, p))
        } else {
            (w, Seq::empty())
        }
    };
    let (settled, more) = spec_settle(moved, p);
    (settled, ops + more)
}

/// Writing one byte; a tab writes four spaces.
pub open spec fn spec_write_byte(c: FbCursor, b: u8, p: FbParams) -> (FbCursor, Seq<FbOp>) {
    if b == 9 {
        let (c1, o1) = spec_write_simple(c, 32, p);
        let (c2, o2) = spec_write_simple(c1, 32, p);
        let (c3, o3) = spec_write_simple(c2, 32, p);
        let (c4, o4) = spec_write_simple(c3, 32, p);
        let (c5, o5) = spec_settle(c4, p);
        (c5, o1 + o2 + o3 + o4 + o5)
    } else {
        spec_write_simple(c, b, p)
    }
}

/// Writing bytes in order.
pub open spec fn spec_write_bytes(c: FbCursor, bs: Seq<u8>, p: FbParams) -> (FbCursor, Seq<FbOp>)
    decreases bs.len(),
{
    if bs.len() == 0 {
        (c, Seq::empty())
    } else {
        let (c1, o1) = spec_write_bytes(c, bs.drop_last(), p);
        let (c2, o2) = spec_write_byte(c1, bs.last(), p);
        (c2, o1 + o2)
    }
}

/// The cursor stays within the screen: at most one past the last column,
/// on a row.
pub open spec fn spec_cursor_ok(c: FbCursor, p: FbParams) -> bool {
    c.0 <= p.0 + 1 && c.1 < p.1
}

/// The character of `text` at `i`, or a blank past its end.
pub open spec fn line_char(text: Seq<char>, i: int) -> char {
    if 0 <= i < text.len() { text[i] } else { ' ' }
}

/// Drawing on `row` from `start_col` to the last column: the characters
/// of `text` first, then blanks; nothing when drawing is not possible.
pub open spec fn line_run_ops(start_col: usize, row: usize, text: Seq<char>, p: FbParams) -> Seq<FbOp> {
    if p.4 && start_col < p.0 {
        Seq::new(
            (p.0 - start_col) as nat,
            |i: int|
                FbOp::Draw {
                    ch: line_char(text, i),
                    col: (start_col + i) as usize,
                    row,
                    fg: p.2,
                    bg: p.3,
                },
        )
    } else {
        Seq::empty()
    }
}

/// The text console state of the framebuffer.
pub struct FramebufferWriter {
    width: usize,
    height: usize,
    pitch: usize,
    bpp: usize,
    mapped: bool,
    col: usize,
    row: usize,
    max_cols: usize,
    max_rows: usize,
    /// Foreground colour (ARGB).
    pub fg_color: u32,
    /// Background colour (ARGB).
    pub bg_color: u32,
}

impl FramebufferWriter {
    /// The cursor.
    pub closed spec fn cursor(&self) -> FbCursor {
        (self.col, self.row)
    }

    /// Columns, rows, colours and whether drawing is possible.
    pub closed spec fn params(&self) -> FbParams {
        (self.max_cols, self.max_rows, self.fg_color, self.bg_color, self.mapped && self.bpp == 32)
    }

    /// Whether a framebuffer was given.
    pub closed spec fn spec_initialized(&self) -> bool {
        self.mapped
    }

    /// The pixel geometry: width, height, bytes per row, bits per pixel.
    pub closed spec fn geometry(&self) -> (usize, usize, usize, usize) {
        (self.width, self.height, self.pitch, self.bpp)
    }

    /// No framebuffer, white on black, no rows or columns.
    pub fn new() -> (r: Self)
        ensures
            !r.spec_initialized(),
            r.cursor() == (0usize, 0usize),
            r.params() == (0usize, 0usize, 0xFFFFFFFFu32, 0xFF000000u32, false),
    {
        FramebufferWriter {
            width: 0,
            height: 0,
            pitch: 0,
            bpp: 0,
            mapped: false,
            col: 0,
            row: 0,
            max_cols: 0,
            max_rows: 0,
            fg_color: 0xFFFFFFFF,
            bg_color: 0xFF000000,
        }
    }

    /// Takes a framebuffer (`mapped` when its address is not null) of
    /// the given geometry, drawn with `font_width` by `font_height`
    /// characters, and clears it.
    pub fn init(
        &mut self,
        mapped: bool,
        width: usize,
        height: usize,
        pitch: usize,
        bpp: usize,
        font_width: usize,
        font_height: usize,
    ) -> (ops: Vec<FbOp>)
        requires
            font_width > 0,
            font_height > 0,
        ensures
            final(self).spec_initialized() == mapped,
            final(self).geometry() == (width, height, pitch, bpp),
            final(self).params() == (
                width / font_width,
                height / font_height,
                old(self).params().2,
                old(self).params().3,
                mapped && bpp == 32,
            ),
            final(self).cursor() == (0usize, 0usize),
            ops@ == (if mapped && bpp == 32 { seq![FbOp::Fill { color: old(self).params().3 }] } else { Seq::empty() }),
    {
        self.mapped = mapped;
        self.width = width;
        self.height = height;
        self.pitch = pitch;
        self.bpp = bpp;
        self.max_cols = width / font_width;
        self.max_rows = height / font_height;
        self.col = 0;
        self.row = 0;
        self.clear()
    }

    /// Whether drawing is possible.
    fn drawable(&self) -> (r: bool)
        ensures
            r == self.params().4,
    {
        self.mapped && self.bpp == 32
    }

    /// Fills the screen with the background colour and puts the cursor
    /// at the top left; nothing when drawing is not possible.
    pub fn clear(&mut self) -> (ops: Vec<FbOp>)
        ensures
            final(self).params() == old(self).params(),
            final(self).geometry() == old(self).geometry(),
            final(self).spec_initialized() == old(self).spec_initialized(),
            old(self).params().4 ==> final(self).cursor() == (0usize, 0usize) && ops@ == seq![
                FbOp::Fill { color: old(self).params().3 },
            ],
            !old(self).params().4 ==> final(self).cursor() == old(self).cursor() && ops@ == Seq::<FbOp>::empty(),
    {
        let mut ops: Vec<FbOp> = Vec::new();
        if !self.drawable() {
            return ops;
        }
        ops.push(FbOp::Fill { color: self.bg_color });
        self.col = 0;
        self.row = 0;
        ops
    }

    /// Sets the foreground colour.
    pub fn set_fg_color(&mut self, color: u32)
        ensures
            final(self).params() == (old(self).params().0, old(self).params().1, color, old(self).params().3, old(
                self,
            ).params().4),
            final(self).cursor() == old(self).cursor(),
            final(self).geometry() == old(self).geometry(),
            final(self).spec_initialized() == old(self).spec_initialized(),
    {
        self.fg_color = color;
    }

    /// Sets the background colour.
    pub fn set_bg_color(&mut self, color: u32)
        ensures
            final(self).params() == (old(self).params().0, old(self).params().1, old(self).params().2, color, old(
                self,
            ).params().4),
            final(self).cursor() == old(self).cursor(),
            final(self).geometry() == old(self).geometry(),
            final(self).spec_initialized() == old(self).spec_initialized(),
    {
        self.bg_color = color;
    }

    fn draw_at_cursor(&self, ch: char, ops: &mut Vec<FbOp>)
        ensures
            final(ops)@ == old(ops)@ + spec_draw(self.cursor(), ch, self.params()),
    {
        if self.drawable() {
            ops.push(FbOp::Draw { ch, col: self.col, row: self.row, fg: self.fg_color, bg: self.bg_color });
        } else {
            assert(old(ops)@ + Seq::<FbOp>::empty() =~= old(ops)@);
        }
    }

    fn settle(&mut self, ops: &mut Vec<FbOp>)
        requires
            old(self).params().1 > 0,
        ensures
            (final(self).cursor(), final(ops)@) == ({
                let (c, o) = spec_settle(old(self).cursor(), old(self).params());
                (c, old(ops)@ + o)
            }),
            final(self).params() == old(self).params(),
            final(self).geometry() == old(self).geometry(),
            final(self).spec_initialized() == old(self).spec_initialized(),
    {
        if self.row >= self.max_rows {
            if self.drawable() {
                ops.push(FbOp::ScrollUp);
            } else {
                assert(old(ops)@ + Seq::<FbOp>::empty() =~= old(ops)@);
            }
            self.row = self.max_rows - 1;
        } else {
            assert(old(ops)@ + Seq::<FbOp>::empty() =~= old(ops)@);
        }
    }

    fn write_simple(&mut self, byte: u8, ops: &mut Vec<FbOp>)
        requires
            byte != 9,
            old(self).params().1 > 0,
            spec_cursor_ok(old(self).cursor(), old(self).params()),
        ensures
            spec_cursor_ok(final(self).cursor(), final(self).params()),
            (final(self).cursor(), final(ops)@) == ({
                let (c, o) = spec_write_simple(old(self).cursor(), byte, old(self).params());
                (c, old(ops)@ + o)
            }),
            final(self).params() == old(self).params(),
            final(self).geometry() == old(self).geometry(),
            final(self).spec_initialized() == old(self).spec_initialized(),
    {
        let ghost o0 = ops@;
        if byte == 10 {
            self.col = 0;
            self.row = self.row + 1;
            assert(o0 + Seq::<FbOp>::empty() =~= o0);
        } else if byte == 13 {
            self.col = 0;
            assert(o0 + Seq::<FbOp>::empty() =~= o0);
        } else if byte == 8 {
            if self.col > 0 {
                self.col = self.col - 1;
                self.draw_at_cursor(' ', ops);
            } else {
                assert(o0 + Seq::<FbOp>::empty() =~= o0);
            }
        } else {
            if self.col >= self.max_cols {
                self.col = 0;
                self.row = self.row + 1;
            }
            if byte >= 32 && byte < 127 {
                self.draw_at_cursor(byte as char, ops);
                self.col = self.col + 1;
            } else {
                assert(o0 + Seq::<FbOp>::empty() =~= o0);
            }
        }
        self.settle(ops);
        assert(ops@ =~= o0 + spec_write_simple(old(self).cursor(), byte, old(self).params()).1);
    }

    fn write_byte_into(&mut self, byte: u8, ops: &mut Vec<FbOp>)
        requires
            old(self).params().1 > 0,
            spec_cursor_ok(old(self).cursor(), old(self).params()),
        ensures
            spec_cursor_ok(final(self).cursor(), final(self).params()),
            (final(self).cursor(), final(ops)@) == ({
                let (c, o) = spec_write_byte(old(self).cursor(), byte, old(self).params());
                (c, old(ops)@ + o)
            }),
            final(self).params() == old(self).params(),
            final(self).geometry() == old(self).geometry(),
            final(self).spec_initialized() == old(self).spec_initialized(),
    {
        let ghost o0 = ops@;
        if byte == 9 {
            self.write_simple(32, ops);
            self.write_simple(32, ops);
            self.write_simple(32, ops);
            self.write_simple(32, ops);
            self.settle(ops);
            assert(ops@ =~= o0 + spec_write_byte(old(self).cursor(), byte, old(self).params()).1);
        } else {
            self.write_simple(byte, ops);
        }
    }

    /// Writes one byte: newline, carriage return, tab (four spaces),
    /// backspace, or a character; only printable ASCII is drawn.
    pub fn write_byte(&mut self, byte: u8) -> (ops: Vec<FbOp>)
        requires
            old(self).params().1 > 0,
            spec_cursor_ok(old(self).cursor(), old(self).params()),
        ensures
            spec_cursor_ok(final(self).cursor(), final(self).params()),
            (final(self).cursor(), ops@) == spec_write_byte(old(self).cursor(), byte, old(self).params()),
            final(self).params() == old(self).params(),
            final(self).geometry() == old(self).geometry(),
            final(self).spec_initialized() == old(self).spec_initialized(),
    {
        let mut ops: Vec<FbOp> = Vec::new();
        self.write_byte_into(byte, &mut ops);
        assert(ops@ =~= spec_write_byte(old(self).cursor(), byte, old(self).params()).1);
        ops
    }

    /// Writes the bytes of a string in order.
    pub fn write_string(&mut self, s: &str) -> (ops: Vec<FbOp>)
        requires
            old(self).params().1 > 0,
            spec_cursor_ok(old(self).cursor(), old(self).params()),
        ensures
            spec_cursor_ok(final(self).cursor(), final(self).params()),
            (final(self).cursor(), ops@) == spec_write_bytes(old(self).cursor(), s.spec_bytes(), old(self).params()),
            final(self).params() == old(self).params(),
            final(self).geometry() == old(self).geometry(),
            final(self).spec_initialized() == old(self).spec_initialized(),
    {
        let bytes = s.as_bytes();
        let mut ops: Vec<FbOp> = Vec::new();
        let mut i: usize = 0;
        assert(bytes@.take(0) =~= Seq::<u8>::empty());
        while i < bytes.len()
            invariant
                i <= bytes@.len(),
                bytes@ == s.spec_bytes(),
                self.params() == old(self).params(),
                self.geometry() == old(self).geometry(),
                self.spec_initialized() == old(self).spec_initialized(),
                self.params().1 > 0,
                spec_cursor_ok(self.cursor(), self.params()),
                (self.cursor(), ops@) == spec_write_bytes(old(self).cursor(), bytes@.take(i as int), old(self).params()),
            decreases bytes@.len() - i,
        {
            let b: u8 = bytes[i];
            self.write_byte_into(b, &mut ops);
            assert(bytes@.take(i + 1).drop_last() =~= bytes@.take(i as int));
            i = i + 1;
        }
        assert(bytes@.take(i as int) =~= bytes@);
        ops
    }

    /// The text size: columns and rows.
    pub fn dims(&self) -> (r: (usize, usize))
        ensures
            r == (self.params().0, self.params().1),
    {
        (self.max_cols, self.max_rows)
    }

    /// The cursor column.
    pub fn get_col(&self) -> (r: usize)
        ensures
            r == self.cursor().0,
    {
        self.col
    }

    /// The cursor row.
    pub fn get_row(&self) -> (r: usize)
        ensures
            r == self.cursor().1,
    {
        self.row
    }

    /// Moves the cursor, keeping it within the screen.
    pub fn set_position(&mut self, col: usize, row: usize)
        requires
            old(self).params().1 > 0,
        ensures
            final(self).cursor() == (
                if col < old(self).params().0 { col } else { old(self).params().0 },
                if row < old(self).params().1 { row } else { (old(self).params().1 - 1) as usize },
            ),
            spec_cursor_ok(final(self).cursor(), final(self).params()),
            final(self).params() == old(self).params(),
            final(self).geometry() == old(self).geometry(),
            final(self).spec_initialized() == old(self).spec_initialized(),
    {
        self.col = if col < self.max_cols { col } else { self.max_cols };
        self.row = if row < self.max_rows { row } else { self.max_rows - 1 };
    }

    /// Blanks the cells from the cursor to the end of the line; the
    /// cursor stays.
    pub fn clear_to_eol(&mut self) -> (ops: Vec<FbOp>)
        ensures
            *final(self) == *old(self),
            ops@ == line_run_ops(
                old(self).cursor().0,
                old(self).cursor().1,
                Seq::<char>::empty(),
                old(self).params(),
            ),
    {
        let none: Vec<char> = Vec::new();
        self.draw_run(self.col, none.as_slice())
    }

    /// Draws `text` on the cursor's row from `start_col`, blanks the rest
    /// of the line, and leaves the cursor where it was.
    pub fn redraw_line(&mut self, start_col: usize, text: &[char]) -> (ops: Vec<FbOp>)
        ensures
            *final(self) == *old(self),
            ops@ == line_run_ops(start_col, old(self).cursor().1, text@, old(self).params()),
    {
        self.draw_run(start_col, text)
    }

    fn draw_run(&self, start_col: usize, text: &[char]) -> (ops: Vec<FbOp>)
        ensures
            ops@ == line_run_ops(start_col, self.cursor().1, text@, self.params()),
    {
        let mut ops: Vec<FbOp> = Vec::new();
        if !self.drawable() || start_col >= self.max_cols {
            return ops;
        }
        let mut c: usize = start_col;
        while c < self.max_cols
            invariant
                start_col <= c <= self.max_cols,
                self.params().4,
                ops@ == line_run_ops(start_col, self.cursor().1, text@, self.params()).take(c - start_col),
            decreases self.max_cols - c,
        {
            let i: usize = c - start_col;
            let ch: char = if i < text.len() { text[i] } else { ' ' };
            let ghost full = line_run_ops(start_col, self.cursor().1, text@, self.params());
            let op = FbOp::Draw { ch, col: c, row: self.row, fg: self.fg_color, bg: self.bg_color };
            assert(full[i as int] == op);
            ops.push(op);
            assert(ops@ =~= full.take(c + 1 - start_col));
            c = c + 1;
        }
        assert(ops@ =~= line_run_ops(start_col, self.cursor().1, text@, self.params()));
        ops
    }

    /// Draws the cursor: a blank cell in swapped colours at the cursor.
    pub fn draw_cursor(&mut self) -> (ops: Vec<FbOp>)
        ensures
            *final(self) == *old(self),
            ops@ == (if old(self).params().4 {
                seq![FbOp::Draw {
                    ch: ' ',
                    col: old(self).cursor().0,
                    row: old(self).cursor().1,
                    fg: old(self).params().3,
                    bg: old(self).params().2,
                }]
            } else {
                Seq::empty()
            }),
    {
        let mut ops: Vec<FbOp> = Vec::new();
        if self.drawable() {
            ops.push(FbOp::Draw { ch: ' ', col: self.col, row: self.row, fg: self.bg_color, bg: self.fg_color });
        }
        ops
    }

    /// Whether a framebuffer was given.
    pub fn is_initialized(&self) -> (r: bool)
        ensures
            r == self.spec_initialized(),
    {
        self.mapped
    }
}

} // verus!
