//! What the firmware sends to the panel to draw: the address window of an
//! area, the bytes of solid and of streamed fills, and the start-up commands.
//!
//! The logical screen is 240x160; every logical pixel covers 2x2 pixels of
//! the 480x320 panel.
use crate::commands::{COLMOD, DISON, MADCTL, SLPOUT, SWRESET};
use vstd::prelude::*;

verus! {

/// Pixels in a row (OX) of the panel.
pub const REAL_WIDTH: u16 = 480;
/// Pixels in a column (OY) of the panel.
pub const REAL_HEIGHT: u16 = 320;
/// Bytes per pixel on the wire.
pub const COLOR_BYTES: usize = 2;
/// Panel pixels per logical pixel, vertically.
pub const SCALE_Y: u8 = 2;
/// Panel pixels per logical pixel, horizontally.
pub const SCALE_X: u8 = 2;
/// Logical pixels in a row (OX).
pub const WIDTH: u16 = 240;
/// Logical pixels in a column (OY).
pub const HEIGHT: u16 = 160;

/// A point; `x` grows to the right and `y` downwards.
#[derive(Clone, Copy, Debug, PartialEq, Eq, Structural)]
pub struct Point {
    pub x: i32,
    pub y: i32,
}

/// A width and a height.
#[derive(Clone, Copy, Debug, PartialEq, Eq, Structural)]
pub struct Size {
    pub width: u32,
    pub height: u32,
}

/// An axis-aligned rectangle given by its top-left corner and its size.
#[derive(Clone, Copy, Debug, PartialEq, Eq, Structural)]
pub struct Rectangle {
    pub top_left: Point,
    pub size: Size,
}

/// The logical screen, in logical pixels.
pub fn screen_size() -> (s: Size)
    ensures
        s == (Size { width: WIDTH as u32, height: HEIGHT as u32 }),
{
    Size { width: WIDTH as u32, height: HEIGHT as u32 }
}

/// Whether an area can be scaled to panel pixels without overflow.
pub open spec fn scalable(area: Rectangle) -> bool {
    &&& i32::MIN <= area.top_left.x * SCALE_X <= i32::MAX
    &&& i32::MIN <= area.top_left.y * SCALE_Y <= i32::MAX
    &&& area.size.width * SCALE_X <= u32::MAX
    &&& area.size.height * SCALE_Y <= u32::MAX
}

/// The panel pixels that a logical area covers.
pub fn scale_area(area: &Rectangle) -> (res: Rectangle)
    requires
        scalable(*area),
    ensures
        res.top_left.x == area.top_left.x * SCALE_X,
        res.top_left.y == area.top_left.y * SCALE_Y,
        res.size.width == area.size.width * SCALE_X,
        res.size.height == area.size.height * SCALE_Y,
{
    Rectangle {
        top_left: Point {
            x: area.top_left.x * (SCALE_X as i32),
            y: area.top_left.y * (SCALE_Y as i32),
        },
        size: Size {
            width: area.size.width * (SCALE_X as u32),
            height: area.size.height * (SCALE_Y as u32),
        },
    }
}

/// A range of columns or of pages, both ends included.
#[derive(Clone, Copy, Debug, PartialEq, Eq, Structural)]
pub struct Span {
    pub start: u16,
    pub end: u16,
}

/// `v` limited to `lo..=hi`.
pub open spec fn clamp(v: int, lo: int, hi: int) -> int {
    if v < lo {
        lo
    } else if v > hi {
        hi
    } else {
        v
    }
}

/// The range `start..=end` cut to the panel's `0..limit`: the start is
/// clamped first, and the end is clamped between the start and the last
/// line, so the range is never empty.
pub open spec fn clamped_span(start: int, end: int, limit: int) -> Span {
    let s = clamp(start, 0, limit - 1);
    Span { start: s as u16, end: clamp(end, s, limit - 1) as u16 }
}

/// Cutting a range to the panel keeps a range that already lies on it, and
/// otherwise moves each end to the nearest allowed line: the start into
/// `0..limit`, the end into `start..limit`.
pub proof fn lemma_clamped_span(start: int, end: int, limit: int)
    requires
        1 <= limit <= u16::MAX + 1,
    ensures
        0 <= start <= end < limit ==> clamped_span(start, end, limit).start == start
            && clamped_span(start, end, limit).end == end,
        clamped_span(start, end, limit).start == (if start < 0 {
            0
        } else if start >= limit {
            limit - 1
        } else {
            start
        }),
        clamped_span(start, end, limit).end == (if end < clamped_span(start, end, limit).start {
            clamped_span(start, end, limit).start as int
        } else if end >= limit {
            limit - 1
        } else {
            end
        }),
        clamped_span(start, end, limit).start <= clamped_span(start, end, limit).end < limit,
{
}

fn clamp_span(start: i32, end: i32, limit: u16) -> (res: Span)
    requires
        limit >= 1,
    ensures
        res == clamped_span(start as int, end as int, limit as int),
{
    let max: i32 = limit as i32 - 1;
    let s: i32 = if start < 0 {
        0
    } else if start > max {
        max
    } else {
        start
    };
    let e: i32 = if end < s {
        s
    } else if end > max {
        max
    } else {
        end
    };
    Span { start: s as u16, end: e as u16 }
}

/// The columns `sc..=ec` cut to the panel.
pub fn column_span(sc: i32, ec: i32) -> (res: Span)
    ensures
        res == clamped_span(sc as int, ec as int, REAL_WIDTH as int),
        res.start <= res.end < REAL_WIDTH,
        res.start == (if sc < 0 {
            0
        } else if sc > REAL_WIDTH - 1 {
            REAL_WIDTH - 1
        } else {
            sc as int
        }),
        res.end == (if ec < res.start {
            res.start as int
        } else if ec > REAL_WIDTH - 1 {
            REAL_WIDTH - 1
        } else {
            ec as int
        }),
        0 <= sc <= ec < REAL_WIDTH ==> res.start == sc && res.end == ec,
{
    proof {
        lemma_clamped_span(sc as int, ec as int, REAL_WIDTH as int);
    }
    clamp_span(sc, ec, REAL_WIDTH)
}

/// The pages `sp..=ep` cut to the panel.
pub fn page_span(sp: i32, ep: i32) -> (res: Span)
    ensures
        res == clamped_span(sp as int, ep as int, REAL_HEIGHT as int),
        res.start <= res.end < REAL_HEIGHT,
        res.start == (if sp < 0 {
            0
        } else if sp > REAL_HEIGHT - 1 {
            REAL_HEIGHT - 1
        } else {
            sp as int
        }),
        res.end == (if ep < res.start {
            res.start as int
        } else if ep > REAL_HEIGHT - 1 {
            REAL_HEIGHT - 1
        } else {
            ep as int
        }),
        0 <= sp <= ep < REAL_HEIGHT ==> res.start == sp && res.end == ep,
{
    proof {
        lemma_clamped_span(sp as int, ep as int, REAL_HEIGHT as int);
    }
    clamp_span(sp, ep, REAL_HEIGHT)
}

/// The four parameter bytes of an address command: start then end, each
/// high byte first.
pub open spec fn span_param_bytes(span: Span) -> Seq<u8> {
    seq![
        (span.start / 256) as u8,
        (span.start % 256) as u8,
        (span.end / 256) as u8,
        (span.end % 256) as u8,
    ]
}

/// The parameter bytes of a range carry its start and its end, each
/// big-endian: high byte times 256 plus low byte gives the line back.
pub proof fn lemma_span_params_decode(span: Span)
    ensures
        span_param_bytes(span).len() == 4,
        span_param_bytes(span)[0] * 256 + span_param_bytes(span)[1] == span.start,
        span_param_bytes(span)[2] * 256 + span_param_bytes(span)[3] == span.end,
{
}

impl Span {
    /// The parameters of the `CASET` or `PASET` command for this range.
    pub fn params(&self) -> (res: [u8; 4])
        ensures
            res@ == span_param_bytes(*self),
            res[0] * 256 + res[1] == self.start,
            res[2] * 256 + res[3] == self.end,
    {
        proof {
            lemma_span_params_decode(*self);
        }
        let s = self.start;
        let e = self.end;
        let res = [(s >> 8u16) as u8, s as u8, (e >> 8u16) as u8, e as u8];
        assert((s >> 8u16) as u8 == (s / 256) as u8 && s as u8 == (s % 256) as u8) by (bit_vector);
        assert((e >> 8u16) as u8 == (e / 256) as u8 && e as u8 == (e % 256) as u8) by (bit_vector);
        assert(res@ =~= span_param_bytes(*self));
        res
    }

    /// Number of lines in the range.
    pub fn len(&self) -> (n: u16)
        requires
            self.start <= self.end < u16::MAX,
        ensures
            n == self.end - self.start + 1,
    {
        self.end - self.start + 1
    }
}

/// Whether the last column and page of an area fit in an `i32`.
pub open spec fn area_ends_fit(area: Rectangle) -> bool {
    &&& i32::MIN <= area.top_left.x + (area.size.width as i32) - 1
    &&& area.top_left.x + (area.size.width as i32) <= i32::MAX
    &&& i32::MIN <= area.top_left.y + (area.size.height as i32) - 1
    &&& area.top_left.y + (area.size.height as i32) <= i32::MAX
}

/// The address window of an area, cut to the panel: columns, then pages.
pub open spec fn area_window(area: Rectangle) -> (Span, Span) {
    (
        clamped_span(
            area.top_left.x as int,
            area.top_left.x + (area.size.width as i32) - 1,
            REAL_WIDTH as int,
        ),
        clamped_span(
            area.top_left.y as int,
            area.top_left.y + (area.size.height as i32) - 1,
            REAL_HEIGHT as int,
        ),
    )
}

/// The columns and pages that the panel is set to for drawing `area`, and
/// the size of that window.
pub fn bounds(area: &Rectangle) -> (res: (Span, Span, Size))
    requires
        area_ends_fit(*area),
    ensures
        (res.0, res.1) == area_window(*area),
        res.2 == (Size {
            width: (res.0.end - res.0.start + 1) as u32,
            height: (res.1.end - res.1.start + 1) as u32,
        }),
        1 <= res.2.width <= REAL_WIDTH,
        1 <= res.2.height <= REAL_HEIGHT,
{
    let tl = area.top_left;
    let w: i32 = #[verifier::truncate] (area.size.width as i32);
    let h: i32 = #[verifier::truncate] (area.size.height as i32);
    let xs = column_span(tl.x, tl.x + w - 1);
    let ys = page_span(tl.y, tl.y + h - 1);
    let size = Size { width: xs.len() as u32, height: ys.len() as u32 };
    (xs, ys, size)
}

/// Fills a buffer with one colour: every pixel slot gets its two bytes.
pub fn fill_color(bytes: &mut [u8], raw: [u8; 2])
    requires
        old(bytes)@.len() % 2 == 0,
    ensures
        final(bytes)@.len() == old(bytes)@.len(),
        forall|i: int| 0 <= i < final(bytes)@.len() ==> #[trigger] final(bytes)@[i] == raw@[i % 2],
{
    let len = bytes.len();
    let mut i: usize = 0;
    while i < len
        invariant
            len == bytes@.len(),
            len == old(bytes)@.len(),
            len % 2 == 0,
            i % 2 == 0,
            i <= len,
            forall|j: int| 0 <= j < i ==> #[trigger] bytes@[j] == raw@[j % 2],
        decreases len - i,
    {
        bytes[i] = raw[0];
        bytes[i + 1] = raw[1];
        i = i + 2;
    }
}

/// How many more buffers a solid fill sends after its first one: the window
/// holds `n_pixels`, a buffer `per_buffer` pixels, and only whole buffers are
/// counted.
pub open spec fn solid_fill_repeats(n_pixels: nat, per_buffer: nat) -> nat {
    let buffers = n_pixels / per_buffer;
    if buffers > 1 {
        (buffers - 1) as nat
    } else {
        0
    }
}

/// A solid fill sends whole buffers: its first write and its repeats are
/// `n_pixels / per_buffer` buffers, but at least the first one.
pub proof fn lemma_solid_fill_covers(n_pixels: nat, per_buffer: nat)
    requires
        per_buffer >= 1,
    ensures
        solid_fill_repeats(n_pixels, per_buffer) + 1 == (if n_pixels / per_buffer >= 1 {
            n_pixels / per_buffer
        } else {
            1
        }),
{
}

/// Pixels that a buffer of `capacity` bytes holds, counted in a `u32` as the
/// fill counts them.
pub open spec fn buffer_pixels(capacity: usize) -> u32 {
    (capacity / COLOR_BYTES) as u32
}

/// Number of `RAMWRC` writes that follow the first `RAMWR` write of a solid
/// fill of a window of `size`, with buffers of `capacity` bytes.
pub fn solid_repeats(size: &Size, capacity: usize) -> (n: u32)
    requires
        buffer_pixels(capacity) >= 1,
        size.width * size.height <= u32::MAX,
    ensures
        n == solid_fill_repeats(
            (size.width * size.height) as nat,
            buffer_pixels(capacity) as nat,
        ),
        n + 1 == (if (size.width * size.height) / ((capacity / 2) as u32) as int >= 1 {
            (size.width * size.height) / ((capacity / 2) as u32) as int
        } else {
            1
        }),
{
    proof {
        lemma_solid_fill_covers(
            (size.width * size.height) as nat,
            buffer_pixels(capacity) as nat,
        );
    }
    let buf_pixels: u32 = #[verifier::truncate] ((capacity / COLOR_BYTES) as u32);
    let n_pixels: u32 = size.width * size.height;
    let buffers: u32 = n_pixels / buf_pixels;
    if buffers > 1 {
        buffers - 1
    } else {
        0
    }
}

/// How many colours a streamed fill of a window of `size` takes at most.
pub fn contiguous_budget(size: &Size) -> (n: usize)
    requires
        size.width * size.height <= u32::MAX,
    ensures
        n == size.width * size.height / (SCALE_Y as int),
{
    (size.width * size.height / (SCALE_Y as u32)) as usize
}

/// A command for the panel with its parameter bytes.
pub struct PanelCommand {
    pub cmd: u8,
    pub params: Vec<u8>,
}

/// The commands that bring the panel up, in order: reset, leave sleep, 16
/// bits per pixel on both interfaces, scan direction, display on.
pub open spec fn init_sequence() -> Seq<(u8, Seq<u8>)> {
    seq![
        (SWRESET, seq![]),
        (SLPOUT, seq![]),
        (COLMOD, seq![0b101_0101u8]),
        (MADCTL, seq![0b1110_0000u8]),
        (DISON, seq![]),
    ]
}

/// The start-up commands of the panel.
pub fn init_commands() -> (res: Vec<PanelCommand>)
    ensures
        res@.len() == init_sequence().len(),
        forall|i: int|
            0 <= i < res@.len() ==> (#[trigger] res@[i]).cmd == init_sequence()[i].0
                && res@[i].params@ == init_sequence()[i].1,
{
    let mut res: Vec<PanelCommand> = Vec::new();
    res.push(PanelCommand { cmd: SWRESET, params: Vec::new() });
    res.push(PanelCommand { cmd: SLPOUT, params: Vec::new() });
    let mut colmod: Vec<u8> = Vec::new();
    colmod.push(0b101_0101u8);
    res.push(PanelCommand { cmd: COLMOD, params: colmod });
    let mut madctl: Vec<u8> = Vec::new();
    madctl.push(0b1110_0000u8);
    res.push(PanelCommand { cmd: MADCTL, params: madctl });
    res.push(PanelCommand { cmd: DISON, params: Vec::new() });
    assert(res@[0].params@ =~= seq![]);
    assert(res@[1].params@ =~= seq![]);
    assert(res@[2].params@ =~= seq![0b101_0101u8]);
    assert(res@[3].params@ =~= seq![0b1110_0000u8]);
    assert(res@[4].params@ =~= seq![]);
    res
}

} // verus!
