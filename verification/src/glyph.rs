//! A rasterised character, as the font renderer hands it over.

use vstd::prelude::*;

verus! {

/// A rasterised character in subpixel (RGB) layout: `height` rows of `width`
/// pixels, three bytes per pixel, rows `3 * width` bytes apart.
pub struct Glyph {
    pub width: usize,
    pub height: usize,
    pub bitmap: Vec<u8>,
}

/// The grey level drawn for glyph pixel `(x, y)`: the first byte of that pixel.
pub open spec fn glyph_value(g: Glyph, x: int, y: int) -> u8 {
    g.bitmap@[x * 3 + y * g.width * 3]
}

/// Every pixel of the glyph can be read from its bitmap.
pub open spec fn glyph_readable(g: Glyph) -> bool {
    g.width == 0 || g.height == 0 || 3 * g.width * g.height <= g.bitmap@.len() + 2
}

/// Bound on the bitmap position of glyph pixel `(x, y)`.
pub proof fn lemma_glyph_index(g: Glyph, x: int, y: int)
    requires
        glyph_readable(g),
        0 <= x < g.width,
        0 <= y < g.height,
    ensures
        0 <= x * 3 + y * g.width * 3 < g.bitmap@.len(),
        y * g.width * 3 <= 3 * g.width * g.height,
        0 <= y * g.width,
{
    let w = g.width as int;
    let h = g.height as int;
    assert(y * w * 3 + 3 * w <= 3 * w * h) by (nonlinear_arith)
        requires
            0 <= y < h,
            0 <= w,
    ;
    assert(0 <= y * w) by (nonlinear_arith)
        requires
            0 <= y,
            0 <= w,
    ;
}

/// Whether every pixel of `glyph` can be read from its bitmap.
pub fn is_readable(glyph: &Glyph) -> (ok: bool)
    ensures
        ok == glyph_readable(*glyph),
{
    let w = glyph.width;
    let h = glyph.height;
    if w == 0 || h == 0 {
        return true;
    }
    let len = glyph.bitmap.len();
    match w.checked_mul(h) {
        Some(area) => match area.checked_mul(3) {
            Some(need) => {
                assert(need == 3 * w * h) by (nonlinear_arith)
                    requires
                        need == area * 3,
                        area == w * h,
                ;
                need <= len || need - len <= 2
            },
            None => {
                assert(3 * w * h > len + 2) by (nonlinear_arith)
                    requires
                        area * 3 > usize::MAX,
                        area == w * h,
                        len <= usize::MAX,
                ;
                false
            },
        },
        None => {
            assert(3 * w * h > len + 2) by (nonlinear_arith)
                requires
                    w * h > usize::MAX,
                    len <= usize::MAX,
            ;
            false
        },
    }
}

} // verus!
