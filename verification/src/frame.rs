//! The panel's frame buffer: one start byte followed by three colour bytes
//! (red, green, blue) for each of the 256 LEDs, row by row.

use vstd::prelude::*;
use crate::text::{TextStrip, window_frame, STRIP_ROWS};
use crate::glyph::{Glyph, glyph_value, glyph_readable, lemma_glyph_index};

verus! {

/// Number of LED rows on the panel.
pub const LENGTH: usize = 16;

/// Number of LED columns on the panel.
pub const WIDTH: usize = 16;

/// Colour bytes per LED.
pub const BYTES_PER_LED: usize = 3;

/// Start-of-frame byte that leads every frame written to the panel.
pub const SOF: u8 = 0x72;

/// Bytes in one frame: the start byte and `LENGTH * WIDTH * BYTES_PER_LED` colour bytes.
pub const FRAME_LEN: usize = 769;

/// Whether `(x, y)` names an LED of the panel (`x` is the column, `y` the row).
pub open spec fn on_panel(x: int, y: int) -> bool {
    0 <= x < 16 && 0 <= y < 16
}

/// Index in the frame of the red byte of LED `(x, y)`.
pub open spec fn pixel_pos(x: int, y: int) -> int {
    (16 * y + x) * 3 + 1
}

/// Column of the LED that frame byte `i` (with `i >= 1`) belongs to.
pub open spec fn led_x(i: int) -> int {
    ((i - 1) / 3) % 16
}

/// Row of the LED that frame byte `i` (with `i >= 1`) belongs to.
pub open spec fn led_y(i: int) -> int {
    ((i - 1) / 3) / 16
}

/// Colour channel (0 red, 1 green, 2 blue) carried by frame byte `i` (with `i >= 1`).
pub open spec fn channel_of(i: int) -> int {
    (i - 1) % 3
}

/// A well-formed frame: the right length, led by the start byte.
pub open spec fn frame_wf(f: Seq<u8>) -> bool {
    f.len() == FRAME_LEN && f[0] == SOF
}

/// The colour of LED `(x, y)` in frame `f`.
pub open spec fn pixel_at(f: Seq<u8>, x: int, y: int) -> (u8, u8, u8) {
    let p = pixel_pos(x, y);
    (f[p], f[p + 1], f[p + 2])
}

/// Frame `f` with LED `(x, y)` set to `(r, g, b)`; unchanged when `(x, y)` is off the panel.
pub open spec fn with_pixel(f: Seq<u8>, x: int, y: int, r: u8, g: u8, b: u8) -> Seq<u8> {
    if on_panel(x, y) {
        let p = pixel_pos(x, y);
        f.update(p, r).update(p + 1, g).update(p + 2, b)
    } else {
        f
    }
}

/// The frame in which every LED shows `(r, g, b)`.
pub open spec fn filled(r: u8, g: u8, b: u8) -> Seq<u8> {
    Seq::new(
        FRAME_LEN as nat,
        |i: int|
            if i == 0 {
                SOF
            } else if channel_of(i) == 0 {
                r
            } else if channel_of(i) == 1 {
                g
            } else {
                b
            },
    )
}

/// The frame in which every LED is dark.
pub open spec fn blank() -> Seq<u8> {
    filled(0, 0, 0)
}

/// Frame `f` with glyph `g` drawn in grey with its top-left corner at LED
/// `(xo, yo)`; the parts of the glyph that fall off the panel are dropped.
pub open spec fn glyph_frame(f: Seq<u8>, g: Glyph, xo: int, yo: int) -> Seq<u8> {
    Seq::new(
        f.len(),
        |i: int|
            if i >= 1 && xo <= led_x(i) < xo + g.width && yo <= led_y(i) < yo + g.height {
                glyph_value(g, led_x(i) - xo, led_y(i) - yo)
            } else {
                f[i]
            },
    )
}

/// The panel's frame buffer.
pub struct Matrix {
    data: Vec<u8>,
}

impl View for Matrix {
    type V = Seq<u8>;

    closed spec fn view(&self) -> Seq<u8> {
        self.data@
    }
}

impl Matrix {
    #[verifier::type_invariant]
    spec fn well_formed(self) -> bool {
        frame_wf(self.data@)
    }

    /// A dark frame, ready to be written to the panel.
    pub fn new() -> (m: Matrix)
        ensures
            m@ == blank(),
            frame_wf(m@),
    {
        let mut data: Vec<u8> = Vec::new();
        data.push(SOF);
        let mut i: usize = 1;
        while i < FRAME_LEN
            invariant
                1 <= i <= FRAME_LEN,
                data@.len() == i,
                data@[0] == SOF,
                forall|j: int| 1 <= j < i ==> data@[j] == 0,
            decreases FRAME_LEN - i,
        {
            data.push(0);
            i = i + 1;
        }
        assert(data@ =~= blank());
        Matrix { data }
    }

    /// The bytes to write to the panel for the current frame.
    pub fn as_bytes(&self) -> (bytes: &[u8])
        ensures
            bytes@ == self@,
            frame_wf(bytes@),
    {
        proof {
            use_type_invariant(self);
        }
        self.data.as_slice()
    }

    /// Sets LED `(x, y)` to `(r, g, b)`; a position off the panel is ignored.
    pub fn set_pixel(&mut self, x: u32, y: u32, r: u8, g: u8, b: u8)
        ensures
            final(self)@ == with_pixel(old(self)@, x as int, y as int, r, g, b),
            frame_wf(final(self)@),
    {
        proof {
            use_type_invariant(&*self);
        }
        if x >= 16 || y >= 16 {
            return;
        }
        let pos: usize = ((16 * y + x) as usize) * 3 + 1;
        self.data[pos] = r;
        self.data[pos + 1] = g;
        self.data[pos + 2] = b;
    }

    /// Turns every LED off.
    pub fn clear_matrix(&mut self)
        ensures
            final(self)@ == blank(),
            frame_wf(final(self)@),
    {
        proof {
            use_type_invariant(&*self);
        }
        let mut n: usize = 0;
        while n < FRAME_LEN - 1
            invariant
                n <= FRAME_LEN - 1,
                self.data@.len() == FRAME_LEN,
                self.data@[0] == SOF,
                forall|j: int| 1 <= j < n + 1 ==> self.data@[j] == 0,
            decreases FRAME_LEN - 1 - n,
        {
            self.data[n + 1] = 0;
            n = n + 1;
        }
        assert(self.data@ =~= blank());
    }

    /// Sets every LED to `(r, g, b)`. The caller then writes the frame to the panel.
    pub fn set_matrix(&mut self, r: u8, g: u8, b: u8)
        ensures
            final(self)@ == filled(r, g, b),
            frame_wf(final(self)@),
    {
        proof {
            use_type_invariant(&*self);
        }
        let mut n: usize = 0;
        while n < FRAME_LEN - 1
            invariant
                n <= FRAME_LEN - 1,
                self.data@.len() == FRAME_LEN,
                self.data@[0] == SOF,
                forall|j: int| 1 <= j < n + 1 ==> self.data@[j] == #[trigger] filled(r, g, b)[j],
            decreases FRAME_LEN - 1 - n,
        {
            let channel = n % 3;
            let v = if channel == 0 {
                r
            } else if channel == 1 {
                g
            } else {
                b
            };
            self.data[n + 1] = v;
            n = n + 1;
        }
        assert(self.data@ =~= filled(r, g, b));
    }

    /// Draws `glyph` in grey with its top-left corner at LED `(x_offset, y_offset)`,
    /// dropping what falls off the panel, and returns the glyph's width.
    pub fn print_char(&mut self, glyph: &Glyph, x_offset: u8, y_offset: u8) -> (advance: usize)
        requires
            glyph_readable(*glyph),
            glyph.width == 0 || glyph.height == 0 || (glyph.width + x_offset <= 0x1_0000_0000
                && glyph.height + y_offset <= 0x1_0000_0000),
        ensures
            advance == glyph.width,
            final(self)@ == glyph_frame(old(self)@, *glyph, x_offset as int, y_offset as int),
            frame_wf(final(self)@),
    {
        proof {
            use_type_invariant(&*self);
        }
        let ghost before = self.data@;
        let w = glyph.width;
        let h = glyph.height;
        let xo = x_offset as usize;
        let yo = y_offset as usize;
        let blen = glyph.bitmap.len();
        let mut i: usize = 1;
        while i < FRAME_LEN
            invariant
                1 <= i <= FRAME_LEN,
                before.len() == FRAME_LEN,
                self.data@.len() == FRAME_LEN,
                self.data@[0] == SOF,
                w == glyph.width,
                h == glyph.height,
                blen == glyph.bitmap@.len(),
                xo == x_offset,
                yo == y_offset,
                glyph_readable(*glyph),
                forall|j: int|
                    1 <= j < i ==> self.data@[j] == #[trigger] glyph_frame(
                        before,
                        *glyph,
                        xo as int,
                        yo as int,
                    )[j],
                forall|j: int| i <= j < FRAME_LEN ==> self.data@[j] == before[j],
            decreases FRAME_LEN - i,
        {
            let led = (i - 1) / 3;
            let x = led % 16;
            let y = led / 16;
            if x >= xo && x - xo < w && y >= yo && y - yo < h {
                proof {
                    lemma_glyph_index(*glyph, (x - xo) as int, (y - yo) as int);
                    assert((y - yo) * w <= (y - yo) * w * 3);
                }
                let idx = (x - xo) * 3 + (y - yo) * w * 3;
                assert(idx < blen);
                let v = glyph.bitmap[idx];
                self.data[i] = v;
            }
            i = i + 1;
        }
        assert(self.data@ =~= glyph_frame(before, *glyph, x_offset as int, y_offset as int));
        w
    }

    /// Shows the 16-column window of `strip` whose left edge is strip column
    /// `offset` (see `window_frame`); the caller then writes the frame to the
    /// panel. Scrolling text shows the offsets `-12 .. strip.width()` in turn.
    pub fn show_text_window(&mut self, strip: &TextStrip, offset: i32)
        requires
            strip.cols() <= i32::MAX,
            offset <= i32::MAX - 15,
        ensures
            final(self)@ == window_frame(strip@, strip.cols() as int, offset as int),
            frame_wf(final(self)@),
    {
        proof {
            use_type_invariant(&*self);
        }
        let cols = strip.width();
        let mut i: usize = 1;
        while i < FRAME_LEN
            invariant
                1 <= i <= FRAME_LEN,
                cols == strip.cols(),
                cols <= i32::MAX,
                offset <= i32::MAX - 15,
                self.data@.len() == FRAME_LEN,
                self.data@[0] == SOF,
                forall|j: int|
                    1 <= j < i ==> self.data@[j] == #[trigger] window_frame(
                        strip@,
                        cols as int,
                        offset as int,
                    )[j],
            decreases FRAME_LEN - i,
        {
            let led = (i - 1) / 3;
            let x = led % 16;
            let y = led / 16;
            let col: i32 = x as i32 + offset;
            let v = if y < STRIP_ROWS && col >= 0 && col < cols as i32 {
                strip.pixel(col as usize, y)
            } else {
                0
            };
            self.data[i] = v;
            i = i + 1;
        }
        assert(self.data@ =~= window_frame(strip@, cols as int, offset as int));
    }
}

/// The three bytes of LED `(x, y)` belong to that LED, one per channel.
pub proof fn lemma_pixel_bytes(x: int, y: int, k: int)
    requires
        on_panel(x, y),
        0 <= k < 3,
    ensures
        1 <= pixel_pos(x, y) + k < FRAME_LEN,
        led_x(pixel_pos(x, y) + k) == x,
        led_y(pixel_pos(x, y) + k) == y,
        channel_of(pixel_pos(x, y) + k) == k,
{
    let i = pixel_pos(x, y) + k;
    assert((i - 1) / 3 == 16 * y + x);
    assert((i - 1) % 3 == k);
    assert((16 * y + x) / 16 == y);
    assert((16 * y + x) % 16 == x);
}

/// Every colour byte of a frame is byte `channel_of(i)` of LED `(led_x(i), led_y(i))`.
pub proof fn lemma_byte_pixel(i: int)
    requires
        1 <= i < FRAME_LEN,
    ensures
        on_panel(led_x(i), led_y(i)),
        0 <= channel_of(i) < 3,
        i == pixel_pos(led_x(i), led_y(i)) + channel_of(i),
{
    let p = (i - 1) / 3;
    assert(i - 1 == 3 * p + (i - 1) % 3);
    assert(p == 16 * (p / 16) + p % 16);
}

/// Law: after LED `(x, y)` is set to `(r, g, b)` it shows `(r, g, b)`, every
/// other LED shows what it showed before, and the frame stays well formed.
pub proof fn law_pixel_read_back(f: Seq<u8>, x: int, y: int, r: u8, g: u8, b: u8)
    requires
        frame_wf(f),
        on_panel(x, y),
    ensures
        pixel_at(with_pixel(f, x, y, r, g, b), x, y) == (r, g, b),
        forall|x2: int, y2: int|
            on_panel(x2, y2) && (x2 != x || y2 != y) ==> #[trigger] pixel_at(
                with_pixel(f, x, y, r, g, b),
                x2,
                y2,
            ) == pixel_at(f, x2, y2),
        frame_wf(with_pixel(f, x, y, r, g, b)),
{
}

/// Law: setting an LED off the panel changes nothing.
pub proof fn law_pixel_off_panel(f: Seq<u8>, x: int, y: int, r: u8, g: u8, b: u8)
    requires
        !on_panel(x, y),
    ensures
        with_pixel(f, x, y, r, g, b) == f,
{
}

/// Law: of two settings of the same LED, the last one wins.
pub proof fn law_last_write_wins(
    f: Seq<u8>,
    x: int,
    y: int,
    r1: u8,
    g1: u8,
    b1: u8,
    r2: u8,
    g2: u8,
    b2: u8,
)
    requires
        frame_wf(f),
    ensures
        with_pixel(with_pixel(f, x, y, r1, g1, b1), x, y, r2, g2, b2) == with_pixel(
            f,
            x,
            y,
            r2,
            g2,
            b2,
        ),
{
    if on_panel(x, y) {
        assert(with_pixel(with_pixel(f, x, y, r1, g1, b1), x, y, r2, g2, b2) =~= with_pixel(
            f,
            x,
            y,
            r2,
            g2,
            b2,
        ));
    }
}

/// Law: a well-formed frame is determined by the colours of its LEDs.
pub proof fn law_frame_determined_by_pixels(f1: Seq<u8>, f2: Seq<u8>)
    requires
        frame_wf(f1),
        frame_wf(f2),
        forall|x: int, y: int| on_panel(x, y) ==> #[trigger] pixel_at(f1, x, y) == pixel_at(f2, x, y),
    ensures
        f1 == f2,
{
    assert forall|i: int| 0 <= i < f1.len() implies f1[i] == f2[i] by {
        if i >= 1 {
            lemma_byte_pixel(i);
            assert(pixel_at(f1, led_x(i), led_y(i)) == pixel_at(f2, led_x(i), led_y(i)));
        }
    }
    assert(f1 =~= f2);
}

/// Law: in the frame filled with `(r, g, b)` every LED shows `(r, g, b)`; in
/// particular every LED of the blank frame is dark.
pub proof fn law_filled_reads(r: u8, g: u8, b: u8, x: int, y: int)
    requires
        on_panel(x, y),
    ensures
        frame_wf(filled(r, g, b)),
        pixel_at(filled(r, g, b), x, y) == (r, g, b),
        pixel_at(blank(), x, y) == (0u8, 0u8, 0u8),
{
    lemma_pixel_bytes(x, y, 0);
    lemma_pixel_bytes(x, y, 1);
    lemma_pixel_bytes(x, y, 2);
}

/// Law: after a glyph is drawn at `(xo, yo)`, LED `(xo + gx, yo + gy)`, when on
/// the panel, shows the grey level of glyph pixel `(gx, gy)`; every LED outside
/// the glyph's box keeps its colour.
pub proof fn law_glyph_drawn(f: Seq<u8>, g: Glyph, xo: int, yo: int, x: int, y: int)
    requires
        frame_wf(f),
        on_panel(x, y),
    ensures
        frame_wf(glyph_frame(f, g, xo, yo)),
        xo <= x < xo + g.width && yo <= y < yo + g.height ==> pixel_at(glyph_frame(f, g, xo, yo), x, y)
            == (glyph_value(g, x - xo, y - yo), glyph_value(g, x - xo, y - yo), glyph_value(
            g,
            x - xo,
            y - yo,
        )),
        !(xo <= x < xo + g.width && yo <= y < yo + g.height) ==> pixel_at(
            glyph_frame(f, g, xo, yo),
            x,
            y,
        ) == pixel_at(f, x, y),
{
    lemma_pixel_bytes(x, y, 0);
    lemma_pixel_bytes(x, y, 1);
    lemma_pixel_bytes(x, y, 2);
}

/// Law: a window of scrolling text leaves the rows below the strip dark, and
/// LED `(x, y)` of a strip row shows, in grey, strip pixel `(x + offset, y)`
/// when that column lies within the strip, and is dark otherwise.
pub proof fn law_window_reads(strip: Seq<u8>, cols: int, offset: int, x: int, y: int)
    requires
        on_panel(x, y),
    ensures
        frame_wf(window_frame(strip, cols, offset)),
        y >= STRIP_ROWS ==> pixel_at(window_frame(strip, cols, offset), x, y) == (0u8, 0u8, 0u8),
        y < STRIP_ROWS && !(0 <= x + offset < cols) ==> pixel_at(window_frame(strip, cols, offset), x, y)
            == (0u8, 0u8, 0u8),
        y < STRIP_ROWS && 0 <= x + offset < cols ==> pixel_at(window_frame(strip, cols, offset), x, y)
            == (strip[y * cols + x + offset], strip[y * cols + x + offset], strip[y * cols + x
            + offset]),
{
    lemma_pixel_bytes(x, y, 0);
    lemma_pixel_bytes(x, y, 1);
    lemma_pixel_bytes(x, y, 2);
}

/// Law: every frame of scrolling text, whatever the strip and the offset, is
/// well formed (it keeps the start byte) and leaves the four rows below the
/// strip dark.
pub proof fn law_window_frame_shape(strip: Seq<u8>, cols: int, offset: int)
    ensures
        frame_wf(window_frame(strip, cols, offset)),
        forall|x: int, y: int|
            on_panel(x, y) && y >= STRIP_ROWS ==> #[trigger] pixel_at(
                window_frame(strip, cols, offset),
                x,
                y,
            ) == (0u8, 0u8, 0u8),
{
    assert forall|x: int, y: int| on_panel(x, y) && y >= STRIP_ROWS implies #[trigger] pixel_at(
        window_frame(strip, cols, offset),
        x,
        y,
    ) == (0u8, 0u8, 0u8) by {
        law_window_reads(strip, cols, offset, x, y);
    }
}

} // verus!
