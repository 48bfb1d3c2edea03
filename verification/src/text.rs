//! Scrolling text: the glyphs of a string laid side by side on a strip 12 rows
//! high, of which a 16-column window is shown on the panel at a time.

use vstd::prelude::*;
use vstd::string::*;
use vstd::arithmetic::div_mod::{lemma_fundamental_div_mod, lemma_fundamental_div_mod_converse};
use crate::frame::{FRAME_LEN, SOF, led_x, led_y, blank};
use crate::glyph::{Glyph, glyph_value, glyph_readable, lemma_glyph_index, is_readable};

verus! {

/// Rows of the text strip.
pub const STRIP_ROWS: usize = 12;

/// Columns reserved on the strip for each character of the text.
pub const CELL_COLUMNS: usize = 11;

/// Columns a space advances the pen.
pub const SPACE_ADVANCE: usize = 10;

/// Columns the pen advances past character `c` drawn as glyph `g`.
pub open spec fn advance(c: char, g: Glyph) -> int {
    if c == ' ' {
        SPACE_ADVANCE as int
    } else {
        g.width + 1
    }
}

/// Column at which character `i` of `text` is drawn.
pub open spec fn char_offset(text: Seq<char>, glyphs: Seq<Glyph>, i: int) -> int
    decreases i,
{
    if i <= 0 {
        0
    } else {
        char_offset(text, glyphs, i - 1) + advance(text[i - 1], glyphs[i - 1])
    }
}

/// Columns of the strip for `text`.
pub open spec fn strip_columns(text: Seq<char>) -> int {
    CELL_COLUMNS * text.len()
}

/// Character `i` is laid out without fault: it is a space, or its glyph has no
/// rows, or it is at most 12 rows high and either has no columns or can be
/// read and ends within the strip.
pub open spec fn glyph_fits(text: Seq<char>, glyphs: Seq<Glyph>, i: int) -> bool {
    text[i] == ' ' || glyphs[i].height == 0 || {
        &&& glyphs[i].height <= STRIP_ROWS
        &&& glyphs[i].width == 0 || {
            &&& glyph_readable(glyphs[i])
            &&& char_offset(text, glyphs, i) + glyphs[i].width <= strip_columns(text)
        }
    }
}

/// The texts that are laid out without fault: one glyph per character, every
/// glyph fits, the pen's column never exceeds `usize::MAX`, and the strip can
/// be held in memory.
pub open spec fn text_accepted(text: Seq<char>, glyphs: Seq<Glyph>) -> bool {
    &&& glyphs.len() == text.len()
    &&& forall|i: int| 0 <= i < text.len() ==> glyph_fits(text, glyphs, i)
    &&& forall|i: int| 0 <= i <= text.len() ==> #[trigger] char_offset(text, glyphs, i) <= usize::MAX
    &&& STRIP_ROWS * strip_columns(text) <= usize::MAX
}

/// Strip `s` (row-major, `cols` columns) with glyph `g` drawn with its left edge
/// at column `off` and its bottom row on the strip's bottom row.
pub open spec fn painted(s: Seq<u8>, cols: int, g: Glyph, off: int) -> Seq<u8> {
    Seq::new(
        s.len(),
        |j: int|
            {
                let gx = j % cols - off;
                let gy = j / cols - (STRIP_ROWS - g.height);
                if 0 <= gx < g.width && 0 <= gy < g.height {
                    glyph_value(g, gx, gy)
                } else {
                    s[j]
                }
            },
    )
}

/// The strip after the first `k` characters of `text` have been drawn.
pub open spec fn strip_after(text: Seq<char>, glyphs: Seq<Glyph>, k: nat) -> Seq<u8>
    decreases k,
{
    if k == 0 {
        Seq::new((STRIP_ROWS * strip_columns(text)) as nat, |j: int| 0u8)
    } else if text[k - 1] == ' ' {
        strip_after(text, glyphs, (k - 1) as nat)
    } else {
        painted(
            strip_after(text, glyphs, (k - 1) as nat),
            strip_columns(text),
            glyphs[k - 1],
            char_offset(text, glyphs, k - 1),
        )
    }
}

/// The strip for the whole of `text`.
pub open spec fn text_strip(text: Seq<char>, glyphs: Seq<Glyph>) -> Seq<u8> {
    strip_after(text, glyphs, text.len())
}

/// The frame that shows the window of the strip (`cols` columns) whose left
/// edge is strip column `offset`: LED `(x, y)` shows strip column `x + offset`
/// of row `y` when `y` is a strip row and `0 <= x + offset < cols`, and is dark
/// otherwise: columns outside the strip show as dark LEDs.
pub open spec fn window_frame(strip: Seq<u8>, cols: int, offset: int) -> Seq<u8> {
    Seq::new(
        FRAME_LEN as nat,
        |i: int|
            if i == 0 {
                SOF
            } else {
                let col = led_x(i) + offset;
                let row = led_y(i);
                if row < STRIP_ROWS && 0 <= col < cols {
                    strip[row * cols + col]
                } else {
                    0
                }
            },
    )
}

/// A rendered line of text, 12 rows high, stored row by row.
pub struct TextStrip {
    columns: usize,
    pixels: Vec<u8>,
}

impl View for TextStrip {
    type V = Seq<u8>;

    closed spec fn view(&self) -> Seq<u8> {
        self.pixels@
    }
}

/// Position in a strip of `cols` columns of the pixel at column `col`, row `row`.
pub proof fn lemma_cell(row: int, col: int, cols: int)
    requires
        0 <= row < STRIP_ROWS,
        0 <= col < cols,
    ensures
        0 <= row * cols + col < STRIP_ROWS * cols,
        (row * cols + col) / cols == row,
        (row * cols + col) % cols == col,
{
    assert(0 <= row * cols + col < 12 * cols) by (nonlinear_arith)
        requires
            0 <= row < 12,
            0 <= col < cols,
    ;
    lemma_fundamental_div_mod_converse(row * cols + col, cols, row, col);
}

impl TextStrip {
    #[verifier::type_invariant]
    spec fn well_formed(self) -> bool {
        self.pixels@.len() == STRIP_ROWS * self.columns
    }

    /// Columns of the strip.
    pub closed spec fn cols(self) -> nat {
        self.columns as nat
    }

    /// Columns of the strip.
    pub fn width(&self) -> (w: usize)
        ensures
            w == self.cols(),
    {
        self.columns
    }

    /// Grey level of the strip at column `x`, row `y`.
    pub fn pixel(&self, x: usize, y: usize) -> (v: u8)
        requires
            x < self.cols(),
            y < STRIP_ROWS,
        ensures
            v == self@[y * self.cols() + x],
            self@.len() == STRIP_ROWS * self.cols(),
    {
        proof {
            use_type_invariant(self);
            lemma_cell(y as int, x as int, self.columns as int);
        }
        let n = self.pixels.len();
        assert(y * self.columns + x < n);
        self.pixels[y * self.columns + x]
    }

    /// The offsets (see `window_frame`) of the frames that scroll the strip
    /// across the panel, in order: from -12, when the strip's left edge is at
    /// LED column 12, up to the strip's last column, one column per frame;
    /// `width + 12` frames in all.
    pub fn scroll_offsets(&self) -> (offsets: Vec<i32>)
        requires
            self.cols() <= i32::MAX,
        ensures
            offsets@.len() == self.cols() + 12,
            forall|k: int| 0 <= k < offsets@.len() ==> offsets@[k] == k - 12,
    {
        let end = self.columns as i32;
        let mut offsets: Vec<i32> = Vec::new();
        let mut offset: i32 = -12;
        while offset < end
            invariant
                -12 <= offset <= end,
                end == self.cols(),
                offsets@.len() == offset + 12,
                forall|k: int| 0 <= k < offsets@.len() ==> offsets@[k] == k - 12,
            decreases end - offset,
        {
            offsets.push(offset);
            offset = offset + 1;
        }
        offsets
    }

    /// Lays `text` out on a strip 11 columns per character wide: a space
    /// advances the pen 10 columns, any other character is drawn from its glyph
    /// (`glyphs[i]` for `text[i]`), bottom-aligned, and advances the pen by its
    /// width plus one.
    pub fn render(text: &str, glyphs: &Vec<Glyph>) -> (strip: TextStrip)
        requires
            text_accepted(text@, glyphs@),
        ensures
            strip.cols() == strip_columns(text@),
            strip@ == text_strip(text@, glyphs@),
    {
        let n = text.unicode_len();
        let cols = CELL_COLUMNS * n;
        let total = STRIP_ROWS * cols;
        let mut pixels: Vec<u8> = Vec::new();
        let mut k: usize = 0;
        while k < total
            invariant
                k <= total,
                pixels@.len() == k,
                forall|j: int| 0 <= j < k ==> pixels@[j] == 0,
            decreases total - k,
        {
            pixels.push(0);
            k = k + 1;
        }
        assert(pixels@ =~= strip_after(text@, glyphs@, 0));
        let mut x_offset: usize = 0;
        let mut i: usize = 0;
        while i < n
            invariant
                i <= n,
                n == text@.len(),
                cols == strip_columns(text@),
                text_accepted(text@, glyphs@),
                pixels@ == strip_after(text@, glyphs@, i as nat),
                pixels@.len() == STRIP_ROWS * cols,
                x_offset == char_offset(text@, glyphs@, i as int),
            decreases n - i,
        {
            let c = text.get_char(i);
            assert(char_offset(text@, glyphs@, i + 1) <= usize::MAX);
            if c == ' ' {
                x_offset = x_offset + SPACE_ADVANCE;
            } else {
                let g = &glyphs[i];
                assert(glyph_fits(text@, glyphs@, i as int));
                draw_on_strip(&mut pixels, cols, g, x_offset);
                x_offset = x_offset + g.width + 1;
            }
            i = i + 1;
        }
        TextStrip { columns: cols, pixels }
    }
}

/// Strip `s` with the pixels of glyph `g` drawn (as in `painted`) in the glyph
/// rows before `rows`, and in row `rows` before glyph column `xs`.
spec fn painted_upto(s: Seq<u8>, cols: int, g: Glyph, off: int, rows: int, xs: int) -> Seq<u8> {
    Seq::new(
        s.len(),
        |j: int|
            {
                let gx = j % cols - off;
                let gy = j / cols - (STRIP_ROWS - g.height);
                if 0 <= gx < g.width && 0 <= gy < g.height && (gy < rows || (gy == rows && gx
                    < xs)) {
                    glyph_value(g, gx, gy)
                } else {
                    s[j]
                }
            },
    )
}

proof fn lemma_paint_step(s: Seq<u8>, cols: int, g: Glyph, off: int, y: int, x: int)
    requires
        s.len() == STRIP_ROWS * cols,
        0 <= x < g.width,
        0 <= y < g.height,
        g.height <= STRIP_ROWS,
        0 <= off,
        off + g.width <= cols,
    ensures
        ({
            let j = (STRIP_ROWS - g.height + y) * cols + off + x;
            &&& 0 <= j < s.len()
            &&& painted_upto(s, cols, g, off, y, x).update(j, glyph_value(g, x, y))
                == painted_upto(s, cols, g, off, y, x + 1)
        }),
{
    let top = STRIP_ROWS - g.height;
    let j0 = (top + y) * cols + off + x;
    lemma_cell(top + y, off + x, cols);
    let a = painted_upto(s, cols, g, off, y, x).update(j0, glyph_value(g, x, y));
    let b = painted_upto(s, cols, g, off, y, x + 1);
    assert forall|j: int| 0 <= j < a.len() implies a[j] == b[j] by {
        lemma_fundamental_div_mod(j, cols);
        if j % cols - off == x && j / cols - top == y {
            assert(j == cols * (top + y) + (off + x));
            assert(cols * (top + y) == (top + y) * cols) by (nonlinear_arith);
        }
    }
    assert(a =~= b);
}

fn draw_on_strip(pixels: &mut Vec<u8>, cols: usize, glyph: &Glyph, off: usize)
    requires
        old(pixels)@.len() == STRIP_ROWS * cols,
        glyph.height <= STRIP_ROWS,
        glyph.width == 0 || glyph.height == 0 || (glyph_readable(*glyph) && off + glyph.width
            <= cols),
    ensures
        final(pixels)@ == painted(old(pixels)@, cols as int, *glyph, off as int),
{
    let ghost s0 = pixels@;
    let w = glyph.width;
    let h = glyph.height;
    let blen = glyph.bitmap.len();
    let plen = pixels.len();
    let top = STRIP_ROWS - h;
    assert(painted_upto(s0, cols as int, *glyph, off as int, 0, 0) =~= s0);
    let mut y: usize = 0;
    while y < h
        invariant
            y <= h,
            w == glyph.width,
            h == glyph.height,
            top == STRIP_ROWS - h,
            blen == glyph.bitmap@.len(),
            plen == s0.len(),
            s0.len() == STRIP_ROWS * cols,
            glyph.height <= STRIP_ROWS,
            glyph.width == 0 || glyph.height == 0 || (glyph_readable(*glyph) && off + glyph.width
                <= cols),
            pixels@ == painted_upto(s0, cols as int, *glyph, off as int, y as int, 0),
        decreases h - y,
    {
        let mut x: usize = 0;
        while x < w
            invariant
                x <= w,
                y < h,
                w == glyph.width,
                h == glyph.height,
                top == STRIP_ROWS - h,
                blen == glyph.bitmap@.len(),
                plen == s0.len(),
                s0.len() == STRIP_ROWS * cols,
                glyph.height <= STRIP_ROWS,
                w > 0 ==> glyph_readable(*glyph) && off + glyph.width <= cols,
                pixels@ == painted_upto(s0, cols as int, *glyph, off as int, y as int, x as int),
            decreases w - x,
        {
            proof {
                lemma_glyph_index(*glyph, x as int, y as int);
                lemma_paint_step(s0, cols as int, *glyph, off as int, y as int, x as int);
                lemma_cell((top + y) as int, (off + x) as int, cols as int);
            }
            let v = glyph.bitmap[x * 3 + y * w * 3];
            let j = (top + y) * cols + off + x;
            pixels.set(j, v);
            x = x + 1;
        }
        assert(painted_upto(s0, cols as int, *glyph, off as int, y as int, w as int) =~= painted_upto(
            s0,
            cols as int,
            *glyph,
            off as int,
            y + 1,
            0,
        ));
        y = y + 1;
    }
    assert(painted_upto(s0, cols as int, *glyph, off as int, h as int, 0) =~= painted(
        s0,
        cols as int,
        *glyph,
        off as int,
    ));
}

/// Whether `text` can be laid out with `glyphs` (see `text_accepted`).
pub fn text_fits(text: &str, glyphs: &Vec<Glyph>) -> (ok: bool)
    ensures
        ok == text_accepted(text@, glyphs@),
{
    let n = text.unicode_len();
    if glyphs.len() != n {
        return false;
    }
    let cols = match CELL_COLUMNS.checked_mul(n) {
        Some(c) => c,
        None => {
            return false;
        },
    };
    match STRIP_ROWS.checked_mul(cols) {
        Some(_) => {},
        None => {
            return false;
        },
    }
    let mut x_offset: usize = 0;
    let mut i: usize = 0;
    while i < n
        invariant
            i <= n,
            n == text@.len(),
            glyphs@.len() == n,
            cols == strip_columns(text@),
            STRIP_ROWS * cols <= usize::MAX,
            forall|j: int| 0 <= j < i ==> glyph_fits(text@, glyphs@, j),
            forall|j: int| 0 <= j <= i ==> #[trigger] char_offset(text@, glyphs@, j) <= usize::MAX,
            x_offset == char_offset(text@, glyphs@, i as int),
        decreases n - i,
    {
        let c = text.get_char(i);
        let advance: usize = if c == ' ' {
            SPACE_ADVANCE
        } else {
            let g = &glyphs[i];
            if g.height != 0 && (g.height > STRIP_ROWS || (g.width != 0 && (!is_readable(g)
                || x_offset > cols || g.width > cols - x_offset))) {
                assert(!glyph_fits(text@, glyphs@, i as int));
                return false;
            }
            match g.width.checked_add(1) {
                Some(a) => a,
                None => {
                    assert(char_offset(text@, glyphs@, i + 1) > usize::MAX);
                    return false;
                },
            }
        };
        match x_offset.checked_add(advance) {
            Some(next) => {
                x_offset = next;
            },
            None => {
                assert(char_offset(text@, glyphs@, i + 1) > usize::MAX);
                return false;
            },
        }
        i = i + 1;
    }
    true
}

/// The pen never moves left.
proof fn lemma_offset_grows(text: Seq<char>, glyphs: Seq<Glyph>, i: int, j: int)
    requires
        0 <= i <= j,
    ensures
        char_offset(text, glyphs, i) <= char_offset(text, glyphs, j),
    decreases j - i,
{
    if i < j {
        lemma_offset_grows(text, glyphs, i, j - 1);
    }
}

/// Drawing characters keeps the strip's size.
proof fn lemma_strip_len(text: Seq<char>, glyphs: Seq<Glyph>, k: nat)
    ensures
        strip_after(text, glyphs, k).len() == STRIP_ROWS * strip_columns(text),
    decreases k,
{
    if k > 0 {
        lemma_strip_len(text, glyphs, (k - 1) as nat);
    }
}

/// Once drawn, a pixel of character `i` is not drawn over by the characters after it.
proof fn lemma_pixel_kept(
    text: Seq<char>,
    glyphs: Seq<Glyph>,
    i: int,
    gx: int,
    gy: int,
    k: nat,
)
    requires
        text_accepted(text, glyphs),
        0 <= i < text.len(),
        text[i] != ' ',
        0 <= gx < glyphs[i].width,
        0 <= gy < glyphs[i].height,
        i + 1 <= k <= text.len(),
    ensures
        ({
            let cols = strip_columns(text);
            let row = STRIP_ROWS - glyphs[i].height + gy;
            let col = char_offset(text, glyphs, i) + gx;
            strip_after(text, glyphs, k)[row * cols + col] == glyph_value(glyphs[i], gx, gy)
        }),
    decreases k,
{
    let cols = strip_columns(text);
    let row = STRIP_ROWS - glyphs[i].height + gy;
    let col = char_offset(text, glyphs, i) + gx;
    assert(glyph_fits(text, glyphs, i));
    lemma_offset_grows(text, glyphs, 0, i);
    lemma_cell(row, col, cols);
    lemma_strip_len(text, glyphs, (k - 1) as nat);
    if k > i + 1 {
        lemma_pixel_kept(text, glyphs, i, gx, gy, (k - 1) as nat);
        let m = k - 1;
        if text[m] != ' ' {
            lemma_offset_grows(text, glyphs, i + 1, m);
        }
    }
}

/// Law: each character of the text appears on the strip where the pen placed
/// it, bottom-aligned: pixel `(gx, gy)` of the glyph of a non-space character
/// `i` is at row `12 - height + gy`, column `char_offset(i) + gx`.
pub proof fn law_characters_on_strip(
    text: Seq<char>,
    glyphs: Seq<Glyph>,
    i: int,
    gx: int,
    gy: int,
)
    requires
        text_accepted(text, glyphs),
        0 <= i < text.len(),
        text[i] != ' ',
        0 <= gx < glyphs[i].width,
        0 <= gy < glyphs[i].height,
    ensures
        ({
            let cols = strip_columns(text);
            let row = STRIP_ROWS - glyphs[i].height + gy;
            let col = char_offset(text, glyphs, i) + gx;
            &&& 0 <= row * cols + col < text_strip(text, glyphs).len()
            &&& text_strip(text, glyphs)[row * cols + col] == glyph_value(glyphs[i], gx, gy)
        }),
{
    lemma_pixel_kept(text, glyphs, i, gx, gy, text.len());
    lemma_strip_len(text, glyphs, text.len());
    assert(glyph_fits(text, glyphs, i));
    lemma_offset_grows(text, glyphs, 0, i);
    lemma_cell(
        STRIP_ROWS - glyphs[i].height + gy,
        char_offset(text, glyphs, i) + gx,
        strip_columns(text),
    );
}

/// Law: the strip of the empty text has no columns, and every window of it is
/// the dark frame; so a sign that scrolls an empty text shows only dark frames.
pub proof fn law_empty_text_is_dark(glyphs: Seq<Glyph>, offset: int)
    ensures
        strip_columns(Seq::<char>::empty()) == 0,
        window_frame(
            text_strip(Seq::<char>::empty(), glyphs),
            strip_columns(Seq::<char>::empty()),
            offset,
        ) == blank(),
{
    assert(window_frame(
        text_strip(Seq::<char>::empty(), glyphs),
        strip_columns(Seq::<char>::empty()),
        offset,
    ) =~= blank());
}

/// Law: the pen starts at column 0; wherever it stands in the text, a space
/// moves it 10 columns right, and any other character moves it its glyph's
/// width plus one.
pub proof fn law_pen_advance(text: Seq<char>, glyphs: Seq<Glyph>, i: int)
    requires
        0 <= i < text.len(),
    ensures
        char_offset(text, glyphs, 0) == 0,
        text[i] == ' ' ==> char_offset(text, glyphs, i + 1) == char_offset(text, glyphs, i) + 10,
        text[i] != ' ' ==> char_offset(text, glyphs, i + 1) == char_offset(text, glyphs, i)
            + glyphs[i].width + 1,
{
}

proof fn lemma_background_dark(text: Seq<char>, glyphs: Seq<Glyph>, row: int, col: int, k: nat)
    requires
        0 <= row < STRIP_ROWS,
        0 <= col < strip_columns(text),
        k <= text.len(),
        forall|i: int|
            0 <= i < k && text[i] != ' ' ==> !(char_offset(text, glyphs, i) <= col
                < char_offset(text, glyphs, i) + glyphs[i].width && STRIP_ROWS - glyphs[i].height
                <= row),
    ensures
        strip_after(text, glyphs, k)[row * strip_columns(text) + col] == 0,
    decreases k,
{
    lemma_cell(row, col, strip_columns(text));
    lemma_strip_len(text, glyphs, k);
    if k > 0 {
        lemma_background_dark(text, glyphs, row, col, (k - 1) as nat);
        lemma_strip_len(text, glyphs, (k - 1) as nat);
    }
}

/// Law: the strip is dark wherever no glyph was drawn: a pixel at row `row`,
/// column `col` that lies in the box of no non-space character's glyph (columns
/// `char_offset(i) .. char_offset(i) + width`, rows `12 - height .. 12`) is 0.
pub proof fn law_strip_background_dark(text: Seq<char>, glyphs: Seq<Glyph>, row: int, col: int)
    requires
        0 <= row < STRIP_ROWS,
        0 <= col < strip_columns(text),
        forall|i: int|
            0 <= i < text.len() && text[i] != ' ' ==> !(char_offset(text, glyphs, i) <= col
                < char_offset(text, glyphs, i) + glyphs[i].width && STRIP_ROWS - glyphs[i].height
                <= row),
    ensures
        0 <= row * strip_columns(text) + col < text_strip(text, glyphs).len(),
        text_strip(text, glyphs)[row * strip_columns(text) + col] == 0,
{
    lemma_cell(row, col, strip_columns(text));
    lemma_strip_len(text, glyphs, text.len());
    lemma_background_dark(text, glyphs, row, col, text.len());
}

} // verus!
