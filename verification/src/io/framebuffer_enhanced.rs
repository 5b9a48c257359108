//! A framebuffer with an optional back buffer: resolution, where drawing
//! goes, and what drawing does to the back buffer. Drawing on the
//! hardware framebuffer itself is handed to the caller as a
//! [`HwAccess`], in pixels.

use vstd::prelude::*;
use vstd::arithmetic::div_mod::{
    lemma_fundamental_div_mod,
    lemma_fundamental_div_mod_converse_div,
    lemma_fundamental_div_mod_converse_mod,
    lemma_mod_bound,
};

verus! {

/// A screen resolution in pixels.
#[derive(Debug, Clone, Copy, PartialEq, Eq, Structural)]
pub struct Resolution {
    pub width: usize,
    pub height: usize,
}

impl Resolution {
    /// The resolution `width` by `height`.
    pub fn new(width: usize, height: usize) -> (r: Self)
        ensures
            r == (Resolution { width, height }),
    {
        Resolution { width, height }
    }

    /// 640 by 480.
    pub fn vga() -> (r: Self)
        ensures
            r == (Resolution { width: 640, height: 480 }),
    {
        Resolution::new(640, 480)
    }

    /// 800 by 600.
    pub fn svga() -> (r: Self)
        ensures
            r == (Resolution { width: 800, height: 600 }),
    {
        Resolution::new(800, 600)
    }

    /// 1024 by 768.
    pub fn xga() -> (r: Self)
        ensures
            r == (Resolution { width: 1024, height: 768 }),
    {
        Resolution::new(1024, 768)
    }

    /// 1280 by 720.
    pub fn hd() -> (r: Self)
        ensures
            r == (Resolution { width: 1280, height: 720 }),
    {
        Resolution::new(1280, 720)
    }

    /// 1920 by 1080.
    pub fn full_hd() -> (r: Self)
        ensures
            r == (Resolution { width: 1920, height: 1080 }),
    {
        Resolution::new(1920, 1080)
    }
}

/// How a framebuffer is set up: its address (0 when there is none),
/// resolution, bytes per row, bits per pixel, and whether drawing goes
/// to a back buffer first.
#[derive(Debug, Clone, Copy, PartialEq, Eq, Structural)]
pub struct FramebufferConfig {
    pub addr: usize,
    pub resolution: Resolution,
    pub pitch: usize,
    pub bpp: usize,
    pub double_buffering: bool,
}

/// Where drawing goes: the back buffer, or the hardware framebuffer at
/// an address (0 when there is none).
#[derive(Debug, Clone, Copy, PartialEq, Eq, Structural)]
pub enum DrawTarget {
    BackBuffer,
    Hardware(usize),
}

/// Drawing left to the caller on the hardware framebuffer, in pixels;
/// a pixel (x, y) lies at byte `y * pitch + 4 * x`.
#[derive(Debug, Clone, Copy, PartialEq, Eq, Structural)]
pub enum HwAccess {
    /// Set the pixels with `x0 <= x < x1` and `y0 <= y < y1` to `color`.
    Fill { x0: usize, x1: usize, y0: usize, y1: usize, color: u32 },
    /// Copy the `width` by `height` block at (`src_x`, `src_y`) to
    /// (`dst_x`, `dst_y`), as if through a copy of the source.
    Copy { src_x: usize, src_y: usize, dst_x: usize, dst_y: usize, width: usize, height: usize },
}

/// A pixel read: outside the screen or not drawable, its value in the
/// back buffer, or a pixel to read from the hardware framebuffer.
#[derive(Debug, Clone, Copy, PartialEq, Eq, Structural)]
pub enum PixelValue {
    Missing,
    Value(u32),
    Hardware { x: usize, y: usize },
}

/// The colour a cleared screen has.
pub const CLEAR_COLOR: u32 = 0xFF000000u32;

/// Whether buffer index `i` lies in the block of columns `x0..x1` and
/// rows `y0..y1`, with `stride` pixels per row.
pub open spec fn in_rect(i: int, stride: int, x0: int, x1: int, y0: int, y1: int) -> bool {
    stride > 0 && y0 <= i / stride < y1 && x0 <= i % stride < x1
}

/// Pixel `i` after filling the block with `color`.
pub open spec fn fill_px(buf: Seq<u32>, i: int, stride: int, x0: int, x1: int, y0: int, y1: int, color: u32) -> u32 {
    if in_rect(i, stride, x0, x1, y0, y1) {
        color
    } else {
        buf[i]
    }
}

/// The buffer after filling the block with `color`.
pub open spec fn spec_fill(buf: Seq<u32>, stride: int, x0: int, x1: int, y0: int, y1: int, color: u32) -> Seq<u32> {
    Seq::new(buf.len(), |i: int| fill_px(buf, i, stride, x0, x1, y0, y1, color))
}

/// Pixel `i` after copying the `w` by `h` block at (`sx`, `sy`) to
/// (`dx`, `dy`).
pub open spec fn copy_px(
    buf: Seq<u32>,
    i: int,
    stride: int,
    sx: int,
    sy: int,
    dx: int,
    dy: int,
    w: int,
    h: int,
) -> u32 {
    if in_rect(i, stride, dx, dx + w, dy, dy + h) {
        buf[(i / stride - dy + sy) * stride + (i % stride - dx + sx)]
    } else {
        buf[i]
    }
}

/// The buffer after copying the `w` by `h` block at (`sx`, `sy`) to
/// (`dx`, `dy`).
pub open spec fn spec_copy(buf: Seq<u32>, stride: int, sx: int, sy: int, dx: int, dy: int, w: int, h: int) -> Seq<u32> {
    Seq::new(buf.len(), |i: int| copy_px(buf, i, stride, sx, sy, dx, dy, w, h))
}

/// The smaller of two numbers.
pub open spec fn spec_min(a: usize, b: usize) -> usize {
    if a < b { a } else { b }
}

fn min_usize(a: usize, b: usize) -> (r: usize)
    ensures
        r == spec_min(a, b),
{
    if a < b { a } else { b }
}

/// Within one row, the buffer indices of columns `x0..x1` of row `row`
/// are exactly the indices `row * stride + x0 .. row * stride + x1`.
proof fn lemma_row_span(i: int, stride: int, row: int, x0: int, x1: int)
    requires
        stride > 0,
        0 <= x0,
        x1 <= stride,
        0 <= i,
    ensures
        (row * stride + x0 <= i < row * stride + x1) <==> (i / stride == row && x0 <= i % stride < x1),
        (row * stride + x0 <= i < row * stride + x1) ==> i == row * stride + i % stride,
{
    lemma_fundamental_div_mod(i, stride);
    lemma_mod_bound(i, stride);
    let q = i / stride;
    let r = i % stride;
    assert(i == stride * q + r);
    if q < row {
        assert(q * stride + stride <= row * stride) by (nonlinear_arith)
            requires
                q < row,
                stride > 0,
        ;
        assert(stride * q == q * stride) by (nonlinear_arith);
    } else if q > row {
        assert(row * stride + stride <= q * stride) by (nonlinear_arith)
            requires
                q > row,
                stride > 0,
        ;
        assert(stride * q == q * stride) by (nonlinear_arith);
    } else {
        assert(stride * q == row * stride) by (nonlinear_arith)
            requires
                q == row,
        ;
    }
}

/// Row `row` ends inside a buffer of `rows` rows.
proof fn lemma_row_fits(row: int, rows: int, stride: int, x: int)
    requires
        0 <= row < rows,
        0 <= x <= stride,
    ensures
        0 <= row * stride + x <= rows * stride,
{
    assert(row * stride + stride <= rows * stride) by (nonlinear_arith)
        requires
            row < rows,
            0 <= stride,
    ;
    assert(0 <= row * stride) by (nonlinear_arith)
        requires
            0 <= row,
            0 <= stride,
    ;
}

/// Pixel `i` after setting `start..end` to `color`.
pub open spec fn span_px(buf: Seq<u32>, i: int, start: int, end: int, color: u32) -> u32 {
    if start <= i < end {
        color
    } else {
        buf[i]
    }
}

/// Sets `buf[start..end]` to `color`.
fn fill_span(buf: &mut Vec<u32>, start: usize, end: usize, color: u32)
    requires
        end <= old(buf).len(),
    ensures
        final(buf)@ == Seq::new(old(buf)@.len(), |i: int| span_px(old(buf)@, i, start as int, end as int, color)),
{
    let ghost ob = buf@;
    let mut k: usize = start;
    while k < end
        invariant
            start <= k,
            start <= end ==> k <= end,
            end < start ==> k == start,
            end <= buf.len(),
            buf@.len() == ob.len(),
            forall|i: int| 0 <= i < buf@.len() ==> #[trigger] buf@[i] == span_px(ob, i, start as int, k as int, color),
        decreases end - k,
    {
        buf.set(k, color);
        k = k + 1;
    }
    let ghost want = Seq::new(ob.len(), |i: int| span_px(ob, i, start as int, end as int, color));
    assert forall|i: int| 0 <= i < buf@.len() implies buf@[i] == want[i] by {
        assert(buf@[i] == span_px(ob, i, start as int, k as int, color));
    }
    assert(buf@ =~= want);
}

/// Fills the block of columns `x0..x1` and rows `y0..y1` of a buffer of
/// `rows` rows of `stride` pixels.
fn fill_block(buf: &mut Vec<u32>, stride: usize, rows: usize, x0: usize, x1: usize, y0: usize, y1: usize, color: u32)
    requires
        old(buf).len() == rows * stride,
        x1 <= stride,
        y1 <= rows,
    ensures
        final(buf)@ == spec_fill(old(buf)@, stride as int, x0 as int, x1 as int, y0 as int, y1 as int, color),
{
    let ghost start_buf = buf@;
    let mut ry: usize = y0;
    assert(buf@ =~= spec_fill(start_buf, stride as int, x0 as int, x1 as int, y0 as int, y0 as int, color));
    while ry < y1
        invariant
            y0 <= ry,
            y0 <= y1 ==> ry <= y1,
            y1 < y0 ==> ry == y0,
            buf.len() == rows * stride,
            x1 <= stride,
            y1 <= rows,
            start_buf.len() == rows * stride,
            buf@ == spec_fill(start_buf, stride as int, x0 as int, x1 as int, y0 as int, ry as int, color),
        decreases y1 - ry,
    {
        proof {
            lemma_row_fits(ry as int, rows as int, stride as int, x1 as int);
            lemma_row_fits(ry as int, rows as int, stride as int, 0);
        }
        let row_start: usize = ry * stride;
        if x0 < x1 {
            let ghost before = buf@;
            fill_span(buf, row_start + x0, row_start + x1, color);
            proof {
                assert forall|i: int| 0 <= i < buf@.len() implies buf@[i] == fill_px(
                    start_buf,
                    i,
                    stride as int,
                    x0 as int,
                    x1 as int,
                    y0 as int,
                    ry + 1,
                    color,
                ) by {
                    lemma_row_span(i, stride as int, ry as int, x0 as int, x1 as int);
                }
                assert(buf@ =~= spec_fill(start_buf, stride as int, x0 as int, x1 as int, y0 as int, ry + 1, color));
            }
        } else {
            assert(buf@ =~= spec_fill(start_buf, stride as int, x0 as int, x1 as int, y0 as int, ry + 1, color));
        }
        ry = ry + 1;
    }
    assert forall|i: int| 0 <= i < buf@.len() implies buf@[i] == fill_px(
        start_buf,
        i,
        stride as int,
        x0 as int,
        x1 as int,
        y0 as int,
        y1 as int,
        color,
    ) by {
        assert(buf@[i] == fill_px(start_buf, i, stride as int, x0 as int, x1 as int, y0 as int, ry as int, color));
    }
    assert(buf@ =~= spec_fill(start_buf, stride as int, x0 as int, x1 as int, y0 as int, y1 as int, color));
}

/// Pixel `i` after copying `n` pixels of `src` from `src_start` to
/// `dst_start`.
pub open spec fn move_px(buf: Seq<u32>, src: Seq<u32>, i: int, dst_start: int, src_start: int, n: int) -> u32 {
    if dst_start <= i < dst_start + n {
        src[src_start + (i - dst_start)]
    } else {
        buf[i]
    }
}

/// Copies `n` pixels of `src` from `src_start` into `buf` at `dst_start`.
fn copy_span(buf: &mut Vec<u32>, src: &Vec<u32>, dst_start: usize, src_start: usize, n: usize)
    requires
        dst_start + n <= old(buf).len(),
        src_start + n <= src.len(),
    ensures
        final(buf)@ == Seq::new(
            old(buf)@.len(),
            |i: int| move_px(old(buf)@, src@, i, dst_start as int, src_start as int, n as int),
        ),
{
    let ghost ob = buf@;
    let mut k: usize = 0;
    while k < n
        invariant
            k <= n,
            dst_start + n <= buf.len(),
            src_start + n <= src.len(),
            buf@.len() == ob.len(),
            forall|i: int|
                0 <= i < buf@.len() ==> #[trigger] buf@[i] == move_px(ob, src@, i, dst_start as int, src_start as int, k as int),
        decreases n - k,
    {
        let v: u32 = src[src_start + k];
        buf.set(dst_start + k, v);
        k = k + 1;
    }
    let ghost want = Seq::new(ob.len(), |i: int| move_px(ob, src@, i, dst_start as int, src_start as int, n as int));
    assert forall|i: int| 0 <= i < buf@.len() implies buf@[i] == want[i] by {
        assert(buf@[i] == move_px(ob, src@, i, dst_start as int, src_start as int, k as int));
    }
    assert(buf@ =~= want);
}

/// Copies the `w` by `h` block at (`sx`, `sy`) to (`dx`, `dy`) in a
/// buffer of `rows` rows of `stride` pixels, reading from a copy of the
/// buffer as it was.
fn copy_block(
    buf: &mut Vec<u32>,
    stride: usize,
    rows: usize,
    sx: usize,
    sy: usize,
    dx: usize,
    dy: usize,
    w: usize,
    h: usize,
)
    requires
        old(buf).len() == rows * stride,
        sx + w <= stride,
        dx + w <= stride,
        sy + h <= rows,
        dy + h <= rows,
    ensures
        final(buf)@ == spec_copy(old(buf)@, stride as int, sx as int, sy as int, dx as int, dy as int, w as int, h as int),
{
    let mut snap: Vec<u32> = Vec::new();
    let mut k: usize = 0;
    while k < buf.len()
        invariant
            k <= buf.len(),
            snap@ == buf@.take(k as int),
        decreases buf.len() - k,
    {
        snap.push(buf[k]);
        k = k + 1;
        assert(snap@ =~= buf@.take(k as int));
    }
    assert(snap@ =~= buf@);
    let mut ry: usize = 0;
    assert(buf@ =~= spec_copy(snap@, stride as int, sx as int, sy as int, dx as int, dy as int, w as int, 0));
    while ry < h
        invariant
            ry <= h,
            buf.len() == rows * stride,
            snap@.len() == rows * stride,
            sx + w <= stride,
            dx + w <= stride,
            sy + h <= rows,
            dy + h <= rows,
            buf@ == spec_copy(snap@, stride as int, sx as int, sy as int, dx as int, dy as int, w as int, ry as int),
        decreases h - ry,
    {
        proof {
            lemma_row_fits(dy + ry, rows as int, stride as int, dx + w);
            lemma_row_fits(sy + ry, rows as int, stride as int, sx + w);
        }
        let dst_start: usize = (dy + ry) * stride + dx;
        let src_start: usize = (sy + ry) * stride + sx;
        copy_span(buf, &snap, dst_start, src_start, w);
        proof {
            assert forall|i: int| 0 <= i < buf@.len() implies buf@[i] == copy_px(
                snap@,
                i,
                stride as int,
                sx as int,
                sy as int,
                dx as int,
                dy as int,
                w as int,
                ry + 1,
            ) by {
                if stride > 0 {
                    lemma_row_span(i, stride as int, dy + ry, dx as int, dx + w);
                }
            }
            assert(buf@ =~= spec_copy(snap@, stride as int, sx as int, sy as int, dx as int, dy as int, w as int, ry + 1));
        }
        ry = ry + 1;
    }
}

/// Drawing a pixel and reading it back: the pixel has the colour drawn,
/// and every other pixel of the buffer is as it was.
pub proof fn lemma_pixel_write_read(b: Seq<u32>, stride: int, rows: int, x: int, y: int, color: u32)
    requires
        b.len() == rows * stride,
        0 <= x < stride,
        0 <= y < rows,
    ensures
        0 <= y * stride + x < b.len(),
        spec_fill(b, stride, x, x + 1, y, y + 1, color)[y * stride + x] == color,
        forall|i: int|
            0 <= i < b.len() && i != y * stride + x ==> #[trigger] spec_fill(b, stride, x, x + 1, y, y + 1, color)[i]
                == b[i],
{
    lemma_row_fits(y, rows, stride, x + 1);
    lemma_row_span(y * stride + x, stride, y, x, x + 1);
    assert forall|i: int|
        0 <= i < b.len() && i != y * stride + x implies #[trigger] spec_fill(b, stride, x, x + 1, y, y + 1, color)[i]
            == b[i] by {
        lemma_row_span(i, stride, y, x, x + 1);
    }
}

/// A framebuffer with an optional back buffer of 32-bit pixels.
pub struct EnhancedFramebuffer {
    hw_addr: usize,
    back_buffer: Option<Vec<u32>>,
    resolution: Resolution,
    pitch: usize,
    bpp: usize,
    double_buffering: bool,
    flip_count: usize,
}

/// Pixels per row for a row of `pitch` bytes.
pub open spec fn spec_stride(pitch: usize) -> int {
    pitch as int / 4
}

impl EnhancedFramebuffer {
    /// The hardware framebuffer's address (0 when there is none).
    pub closed spec fn spec_hw_addr(&self) -> usize {
        self.hw_addr
    }

    /// The back buffer's pixels, row after row.
    pub closed spec fn spec_back(&self) -> Option<Seq<u32>> {
        match self.back_buffer {
            Some(b) => Some(b@),
            None => None,
        }
    }

    /// The resolution.
    pub closed spec fn spec_resolution(&self) -> Resolution {
        self.resolution
    }

    /// Bytes per row.
    pub closed spec fn spec_pitch(&self) -> usize {
        self.pitch
    }

    /// Bits per pixel.
    pub closed spec fn spec_bpp(&self) -> usize {
        self.bpp
    }

    /// Whether double buffering was asked for.
    pub closed spec fn spec_double_buffering(&self) -> bool {
        self.double_buffering
    }

    /// How many times the back buffer was shown.
    pub closed spec fn spec_flip_count(&self) -> usize {
        self.flip_count
    }

    /// A row of pixels fits in the pitch, and a back buffer, where there
    /// is one, holds every row and has 32-bit pixels.
    pub open spec fn well_formed(&self) -> bool {
        &&& self.spec_resolution().width <= spec_stride(self.spec_pitch())
        &&& self.spec_back() matches Some(b) ==> {
            &&& b.len() == self.spec_resolution().height * spec_stride(self.spec_pitch())
            &&& self.spec_bpp() == 32
        }
    }

    /// Where drawing goes.
    pub open spec fn spec_target(&self) -> DrawTarget {
        if self.spec_back() is Some {
            DrawTarget::BackBuffer
        } else {
            DrawTarget::Hardware(self.spec_hw_addr())
        }
    }

    /// Whether drawing reaches a framebuffer: there is one, of 32-bit
    /// pixels.
    pub open spec fn spec_drawable(&self) -> bool {
        self.spec_target() != DrawTarget::Hardware(0) && self.spec_bpp() == 32
    }

    /// What is left to the caller when drawing `access` reaches the
    /// hardware framebuffer.
    pub open spec fn spec_hw_result(&self, access: HwAccess) -> Option<HwAccess> {
        if self.spec_back() is None && self.spec_drawable() {
            Some(access)
        } else {
            None
        }
    }

    /// No framebuffer, no back buffer, nothing shown yet.
    pub fn new() -> (r: Self)
        ensures
            r.well_formed(),
            r.spec_hw_addr() == 0,
            r.spec_back() is None,
            r.spec_resolution() == (Resolution { width: 0, height: 0 }),
            r.spec_pitch() == 0,
            r.spec_bpp() == 0,
            !r.spec_double_buffering(),
            r.spec_flip_count() == 0,
    {
        EnhancedFramebuffer {
            hw_addr: 0,
            back_buffer: None,
            resolution: Resolution::new(0, 0),
            pitch: 0,
            bpp: 0,
            double_buffering: false,
            flip_count: 0,
        }
    }

    /// Takes the configuration, makes a back buffer when double
    /// buffering 32-bit pixels, and clears the screen.
    pub fn init(&mut self, config: FramebufferConfig) -> (r: Option<HwAccess>)
        requires
            config.resolution.width <= spec_stride(config.pitch),
            config.double_buffering && config.bpp == 32 ==> config.resolution.height * config.pitch <= usize::MAX,
            !(config.double_buffering && config.bpp == 32) ==> old(self).spec_back() is None,
        ensures
            final(self).well_formed(),
            final(self).spec_hw_addr() == config.addr,
            final(self).spec_resolution() == config.resolution,
            final(self).spec_pitch() == config.pitch,
            final(self).spec_bpp() == config.bpp,
            final(self).spec_double_buffering() == config.double_buffering,
            final(self).spec_flip_count() == old(self).spec_flip_count(),
            final(self).spec_back() == (if config.double_buffering && config.bpp == 32 {
                Some(
                    Seq::new(
                        (config.resolution.height * spec_stride(config.pitch)) as nat,
                        |i: int| CLEAR_COLOR,
                    ),
                )
            } else {
                None
            }),
            r == final(self).spec_hw_result(
                HwAccess::Fill {
                    x0: 0,
                    x1: (config.pitch / 4) as usize,
                    y0: 0,
                    y1: config.resolution.height,
                    color: CLEAR_COLOR,
                },
            ),
    {
        self.hw_addr = config.addr;
        self.resolution = config.resolution;
        self.pitch = config.pitch;
        self.bpp = config.bpp;
        self.double_buffering = config.double_buffering;
        if self.double_buffering && self.bpp == 32 {
            let stride: usize = config.pitch / 4;
            proof {
                assert(config.resolution.height * stride <= config.resolution.height * config.pitch) by (nonlinear_arith)
                    requires
                        stride <= config.pitch,
                ;
            }
            let size: usize = config.resolution.height * stride;
            let mut buf: Vec<u32> = Vec::new();
            let mut k: usize = 0;
            while k < size
                invariant
                    k <= size,
                    buf@ == Seq::new(k as nat, |i: int| 0u32),
                decreases size - k,
            {
                buf.push(0);
                k = k + 1;
                assert(buf@ =~= Seq::new(k as nat, |i: int| 0u32));
            }
            self.back_buffer = Some(buf);
        }
        let r = self.clear();
        proof {
            if config.double_buffering && config.bpp == 32 {
                let b = self.spec_back()->0;
                let stride = spec_stride(config.pitch);
                assert forall|i: int| 0 <= i < b.len() implies b[i] == CLEAR_COLOR by {
                    if stride > 0 {
                        lemma_row_span(i, stride, i / stride, 0, stride);
                        lemma_fundamental_div_mod(i, stride);
                        lemma_mod_bound(i, stride);
                        assert(i / stride < config.resolution.height) by (nonlinear_arith)
                            requires
                                i == stride * (i / stride) + i % stride,
                                0 <= i % stride,
                                i < config.resolution.height * stride,
                                stride > 0,
                        ;
                    }
                }
                assert(b =~= Seq::new(
                    (config.resolution.height * spec_stride(config.pitch)) as nat,
                    |i: int| CLEAR_COLOR,
                ));
            }
        }
        r
    }

    /// The resolution.
    pub fn resolution(&self) -> (r: Resolution)
        ensures
            r == self.spec_resolution(),
    {
        self.resolution
    }

    /// Where drawing goes: the back buffer when there is one, else the
    /// hardware framebuffer.
    pub fn draw_addr(&mut self) -> (r: DrawTarget)
        ensures
            r == old(self).spec_target(),
            *final(self) == *old(self),
    {
        match &self.back_buffer {
            Some(_) => DrawTarget::BackBuffer,
            None => DrawTarget::Hardware(self.hw_addr),
        }
    }

    fn drawable(&self) -> (r: bool)
        ensures
            r == self.spec_drawable(),
    {
        let target_ok = match &self.back_buffer {
            Some(_) => true,
            None => self.hw_addr != 0,
        };
        target_ok && self.bpp == 32
    }

    /// The back buffer, to be copied to the hardware framebuffer when
    /// shown.
    pub fn back_buffer(&self) -> (r: Option<&Vec<u32>>)
        ensures
            match r {
                Some(b) => self.spec_back() == Some(b@),
                None => self.spec_back() is None,
            },
    {
        match &self.back_buffer {
            Some(b) => Some(b),
            None => None,
        }
    }

    /// Shows the back buffer: true when the caller is to copy it to the
    /// hardware framebuffer, which is counted; nothing without double
    /// buffering, a back buffer, or a 32-bit framebuffer.
    pub fn flip(&mut self) -> (r: bool)
        requires
            old(self).spec_flip_count() < usize::MAX,
        ensures
            r == (old(self).spec_double_buffering() && old(self).spec_back() is Some && old(self).spec_hw_addr() != 0
                && old(self).spec_bpp() == 32),
            final(self).spec_flip_count() == old(self).spec_flip_count() + (if r { 1int } else { 0int }),
            final(self).spec_back() == old(self).spec_back(),
            final(self).spec_hw_addr() == old(self).spec_hw_addr(),
            final(self).spec_resolution() == old(self).spec_resolution(),
            final(self).spec_pitch() == old(self).spec_pitch(),
            final(self).spec_bpp() == old(self).spec_bpp(),
            final(self).spec_double_buffering() == old(self).spec_double_buffering(),
    {
        if !self.double_buffering {
            return false;
        }
        let has_back = match &self.back_buffer {
            Some(_) => true,
            None => false,
        };
        if has_back && self.hw_addr != 0 && self.bpp == 32 {
            self.flip_count = self.flip_count + 1;
            true
        } else {
            false
        }
    }

    /// Fills the block of columns `x0..x1` and rows `y0..y1` of the back
    /// buffer, or hands it to the caller for the hardware framebuffer.
    fn fill_target(&mut self, x0: usize, x1: usize, y0: usize, y1: usize, color: u32) -> (r: Option<HwAccess>)
        requires
            old(self).well_formed(),
            x1 <= spec_stride(old(self).spec_pitch()),
            y1 <= old(self).spec_resolution().height,
        ensures
            final(self).well_formed(),
            r == old(self).spec_hw_result(HwAccess::Fill { x0, x1, y0, y1, color }),
            final(self).spec_back() == (match old(self).spec_back() {
                Some(b) => Some(spec_fill(b, spec_stride(old(self).spec_pitch()), x0 as int, x1 as int, y0 as int, y1 as int, color)),
                None => None,
            }),
            final(self).spec_hw_addr() == old(self).spec_hw_addr(),
            final(self).spec_resolution() == old(self).spec_resolution(),
            final(self).spec_pitch() == old(self).spec_pitch(),
            final(self).spec_bpp() == old(self).spec_bpp(),
            final(self).spec_double_buffering() == old(self).spec_double_buffering(),
            final(self).spec_flip_count() == old(self).spec_flip_count(),
    {
        if !self.drawable() {
            return None;
        }
        let stride: usize = self.pitch / 4;
        let rows: usize = self.resolution.height;
        match self.back_buffer.take() {
            Some(mut buf) => {
                fill_block(&mut buf, stride, rows, x0, x1, y0, y1, color);
                self.back_buffer = Some(buf);
                None
            },
            None => Some(HwAccess::Fill { x0, x1, y0, y1, color }),
        }
    }

    /// Clears the drawing surface to black.
    pub fn clear(&mut self) -> (r: Option<HwAccess>)
        requires
            old(self).well_formed(),
        ensures
            final(self).well_formed(),
            r == old(self).spec_hw_result(
                HwAccess::Fill {
                    x0: 0,
                    x1: (old(self).spec_pitch() / 4) as usize,
                    y0: 0,
                    y1: old(self).spec_resolution().height,
                    color: CLEAR_COLOR,
                },
            ),
            final(self).spec_back() == (match old(self).spec_back() {
                Some(b) => Some(
                    spec_fill(
                        b,
                        spec_stride(old(self).spec_pitch()),
                        0,
                        spec_stride(old(self).spec_pitch()),
                        0,
                        old(self).spec_resolution().height as int,
                        CLEAR_COLOR,
                    ),
                ),
                None => None,
            }),
            final(self).spec_hw_addr() == old(self).spec_hw_addr(),
            final(self).spec_resolution() == old(self).spec_resolution(),
            final(self).spec_pitch() == old(self).spec_pitch(),
            final(self).spec_bpp() == old(self).spec_bpp(),
            final(self).spec_double_buffering() == old(self).spec_double_buffering(),
            final(self).spec_flip_count() == old(self).spec_flip_count(),
    {
        let stride: usize = self.pitch / 4;
        let rows: usize = self.resolution.height;
        self.fill_target(0, stride, 0, rows, CLEAR_COLOR)
    }

    /// Fills a rectangle, cut to the screen.
    pub fn fill_rect(&mut self, x: usize, y: usize, width: usize, height: usize, color: u32) -> (r: Option<HwAccess>)
        requires
            old(self).well_formed(),
            x + width <= usize::MAX,
            y + height <= usize::MAX,
        ensures
            final(self).well_formed(),
            ({
                let x_end = spec_min((x + width) as usize, old(self).spec_resolution().width);
                let y_end = spec_min((y + height) as usize, old(self).spec_resolution().height);
                &&& r == old(self).spec_hw_result(HwAccess::Fill { x0: x, x1: x_end, y0: y, y1: y_end, color })
                &&& final(self).spec_back() == (match old(self).spec_back() {
                    Some(b) => Some(spec_fill(b, spec_stride(old(self).spec_pitch()), x as int, x_end as int, y as int, y_end as int, color)),
                    None => None,
                })
            }),
            final(self).spec_hw_addr() == old(self).spec_hw_addr(),
            final(self).spec_resolution() == old(self).spec_resolution(),
            final(self).spec_pitch() == old(self).spec_pitch(),
            final(self).spec_bpp() == old(self).spec_bpp(),
            final(self).spec_double_buffering() == old(self).spec_double_buffering(),
            final(self).spec_flip_count() == old(self).spec_flip_count(),
    {
        let x_end: usize = min_usize(x + width, self.resolution.width);
        let y_end: usize = min_usize(y + height, self.resolution.height);
        self.fill_target(x, x_end, y, y_end, color)
    }

    /// Sets one pixel; nothing outside the screen.
    pub fn draw_pixel(&mut self, x: usize, y: usize, color: u32) -> (r: Option<HwAccess>)
        requires
            old(self).well_formed(),
        ensures
            final(self).well_formed(),
            x >= old(self).spec_resolution().width || y >= old(self).spec_resolution().height ==> (r is None && *final(self) == *old(self)),
            x < old(self).spec_resolution().width && y < old(self).spec_resolution().height ==> {
                &&& r == old(self).spec_hw_result(HwAccess::Fill { x0: x, x1: (x + 1) as usize, y0: y, y1: (y + 1) as usize, color })
                &&& final(self).spec_back() == (match old(self).spec_back() {
                    Some(b) => Some(spec_fill(b, spec_stride(old(self).spec_pitch()), x as int, x + 1, y as int, y + 1, color)),
                    None => None,
                })
            },
            final(self).spec_hw_addr() == old(self).spec_hw_addr(),
            final(self).spec_resolution() == old(self).spec_resolution(),
            final(self).spec_pitch() == old(self).spec_pitch(),
            final(self).spec_bpp() == old(self).spec_bpp(),
            final(self).spec_double_buffering() == old(self).spec_double_buffering(),
            final(self).spec_flip_count() == old(self).spec_flip_count(),
    {
        if x >= self.resolution.width || y >= self.resolution.height {
            return None;
        }
        self.fill_target(x, x + 1, y, y + 1, color)
    }

    /// Reads one pixel.
    pub fn get_pixel(&self, x: usize, y: usize) -> (r: PixelValue)
        requires
            self.well_formed(),
        ensures
            r == (if x >= self.spec_resolution().width || y >= self.spec_resolution().height || !self.spec_drawable() {
                PixelValue::Missing
            } else {
                match self.spec_back() {
                    Some(b) => PixelValue::Value(b[y * spec_stride(self.spec_pitch()) + x]),
                    None => PixelValue::Hardware { x, y },
                }
            }),
    {
        if x >= self.resolution.width || y >= self.resolution.height {
            return PixelValue::Missing;
        }
        if !self.drawable() {
            return PixelValue::Missing;
        }
        let stride: usize = self.pitch / 4;
        match &self.back_buffer {
            Some(buf) => {
                let n: usize = buf.len();
                proof {
                    assert(buf@.len() == self.resolution.height * stride);
                    assert(x < stride);
                    lemma_row_fits(y as int, self.resolution.height as int, stride as int, x + 1);
                }
                PixelValue::Value(buf[y * stride + x])
            },
            None => PixelValue::Hardware { x, y },
        }
    }

    /// Copies a block of pixels to another place, as if through a copy
    /// of the source; nothing when either block leaves the screen.
    pub fn copy_region(
        &mut self,
        src_x: usize,
        src_y: usize,
        dst_x: usize,
        dst_y: usize,
        width: usize,
        height: usize,
    ) -> (r: Option<HwAccess>)
        requires
            old(self).well_formed(),
            src_x + width <= usize::MAX,
            src_y + height <= usize::MAX,
            dst_x + width <= usize::MAX,
            dst_y + height <= usize::MAX,
        ensures
            final(self).well_formed(),
            ({
                let res = old(self).spec_resolution();
                let outside = src_x + width > res.width || src_y + height > res.height || dst_x + width > res.width
                    || dst_y + height > res.height;
                &&& outside ==> r is None && *final(self) == *old(self)
                &&& !outside ==> r == old(self).spec_hw_result(
                    HwAccess::Copy { src_x, src_y, dst_x, dst_y, width, height },
                )
                &&& !outside ==> final(self).spec_back() == (match old(self).spec_back() {
                    Some(b) => Some(
                        spec_copy(
                            b,
                            spec_stride(old(self).spec_pitch()),
                            src_x as int,
                            src_y as int,
                            dst_x as int,
                            dst_y as int,
                            width as int,
                            height as int,
                        ),
                    ),
                    None => None,
                })
            }),
            final(self).spec_hw_addr() == old(self).spec_hw_addr(),
            final(self).spec_resolution() == old(self).spec_resolution(),
            final(self).spec_pitch() == old(self).spec_pitch(),
            final(self).spec_bpp() == old(self).spec_bpp(),
            final(self).spec_double_buffering() == old(self).spec_double_buffering(),
            final(self).spec_flip_count() == old(self).spec_flip_count(),
    {
        if src_x + width > self.resolution.width || src_y + height > self.resolution.height || dst_x + width
            > self.resolution.width || dst_y + height > self.resolution.height {
            return None;
        }
        if !self.drawable() {
            return None;
        }
        let stride: usize = self.pitch / 4;
        let rows: usize = self.resolution.height;
        match self.back_buffer.take() {
            Some(mut buf) => {
                copy_block(&mut buf, stride, rows, src_x, src_y, dst_x, dst_y, width, height);
                self.back_buffer = Some(buf);
                None
            },
            None => Some(HwAccess::Copy { src_x, src_y, dst_x, dst_y, width, height }),
        }
    }

    /// How many times the back buffer was shown.
    pub fn flip_count(&self) -> (r: usize)
        ensures
            r == self.spec_flip_count(),
    {
        self.flip_count
    }

    /// Whether double buffering was asked for.
    pub fn is_double_buffered(&self) -> (r: bool)
        ensures
            r == self.spec_double_buffering(),
    {
        self.double_buffering
    }
}

} // verus!
