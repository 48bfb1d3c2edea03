use unicorn_matrix::frame::Matrix;
use unicorn_matrix::glyph::Glyph;
use unicorn_matrix::text::{text_fits, TextStrip};

fn glyph(width: usize, height: usize, levels: &[u8]) -> Glyph {
    let mut bitmap = Vec::new();
    for l in levels {
        bitmap.extend_from_slice(&[*l, 0, 0]);
    }
    assert_eq!(bitmap.len(), 3 * width * height);
    Glyph { width, height, bitmap }
}

#[test]
fn render_lays_glyphs_out_bottom_aligned() {
    let a = glyph(2, 3, &[1, 2, 3, 4, 5, 6]);
    let b = glyph(1, 1, &[9]);
    let glyphs = vec![a, b];
    assert!(text_fits("AB", &glyphs));
    let strip = TextStrip::render("AB", &glyphs);
    assert_eq!(strip.width(), 22);
    // A: rows 9..12, columns 0..2.
    assert_eq!(strip.pixel(0, 9), 1);
    assert_eq!(strip.pixel(1, 9), 2);
    assert_eq!(strip.pixel(0, 10), 3);
    assert_eq!(strip.pixel(1, 11), 6);
    // B: after A's width plus one, on the bottom row.
    assert_eq!(strip.pixel(3, 11), 9);
    assert_eq!(strip.pixel(2, 11), 0);
    assert_eq!(strip.pixel(3, 10), 0);
    assert_eq!(strip.pixel(0, 8), 0);
}

#[test]
fn space_advances_ten_columns() {
    let unused = glyph(0, 0, &[]);
    let a = glyph(1, 1, &[7]);
    let glyphs = vec![unused, a];
    assert!(text_fits(" A", &glyphs));
    let strip = TextStrip::render(" A", &glyphs);
    assert_eq!(strip.width(), 22);
    assert_eq!(strip.pixel(10, 11), 7);
    for x in 0..22 {
        if x != 10 {
            assert_eq!(strip.pixel(x, 11), 0);
        }
    }
}

#[test]
fn empty_text_gives_empty_strip() {
    let strip = TextStrip::render("", &Vec::new());
    assert_eq!(strip.width(), 0);
}

#[test]
fn text_fits_refuses_what_would_fault() {
    // Too tall.
    assert!(!text_fits("A", &vec![glyph(1, 13, &[0; 13])]));
    // Too wide for its cell and no room left.
    assert!(!text_fits("A", &vec![glyph(12, 1, &[0; 12])]));
    // Bitmap too short.
    assert!(!text_fits("A", &vec![Glyph { width: 2, height: 2, bitmap: vec![0; 3] }]));
    // One glyph per character.
    assert!(!text_fits("AB", &vec![glyph(1, 1, &[0])]));
    // A wide glyph may use the room of the next character.
    assert!(text_fits("AB", &vec![glyph(15, 1, &[0; 15]), glyph(1, 1, &[0])]));
}

#[test]
fn window_shows_strip_columns_after_offset() {
    let a = glyph(2, 1, &[4, 5]);
    let strip = TextStrip::render("A", &vec![a]);
    // "A" drawn at columns 0..2 of row 11 with levels 4, 5.
    assert_eq!(strip.pixel(0, 11), 4);
    assert_eq!(strip.pixel(1, 11), 5);
    let mut m = Matrix::new();
    m.set_matrix(50, 50, 50);
    m.show_text_window(&strip, -1);
    let bytes = m.as_bytes();
    let led = |x: usize, y: usize| &bytes[(16 * y + x) * 3 + 1..(16 * y + x) * 3 + 4];
    // Column 0 of the strip shows at LED 1; LED 0 lies left of the strip.
    assert_eq!(led(1, 11), &[4, 4, 4]);
    assert_eq!(led(2, 11), &[5, 5, 5]);
    assert_eq!(led(0, 11), &[0, 0, 0]);
    // Rows below the strip are dark.
    assert_eq!(led(2, 12), &[0, 0, 0]);
    assert_eq!(led(5, 15), &[0, 0, 0]);
}

#[test]
fn window_scrolls_with_offset() {
    let strip = TextStrip::render("A", &vec![glyph(3, 1, &[1, 2, 3])]);
    let mut m = Matrix::new();
    m.show_text_window(&strip, 1);
    let bytes = m.as_bytes();
    let led = |x: usize, y: usize| bytes[(16 * y + x) * 3 + 1];
    assert_eq!(led(0, 11), 2);
    assert_eq!(led(1, 11), 3);
    assert_eq!(led(2, 11), 0);
}

#[test]
fn scroll_offsets_run_from_minus_twelve_to_last_column() {
    let strip = TextStrip::render("A", &vec![glyph(1, 1, &[1])]);
    let offsets = strip.scroll_offsets();
    assert_eq!(offsets.len(), 11 + 12);
    assert_eq!(offsets[0], -12);
    assert_eq!(*offsets.last().unwrap(), 10);
    let empty = TextStrip::render("", &Vec::new());
    assert_eq!(empty.scroll_offsets(), (-12..0).collect::<Vec<i32>>());
}

#[test]
fn empty_glyphs_never_fault() {
    // No rows: nothing is drawn, wherever the pen stands.
    let flat = Glyph { width: 40, height: 0, bitmap: Vec::new() };
    assert!(text_fits("A", &vec![flat]));
    // No columns: nothing is drawn, even past the strip (the pen stands at 41 of 22).
    let wide_flat = Glyph { width: 40, height: 0, bitmap: Vec::new() };
    let thin = Glyph { width: 0, height: 5, bitmap: Vec::new() };
    assert!(text_fits("AB", &vec![wide_flat, thin]));
    let strip = TextStrip::render("A", &vec![Glyph { width: 40, height: 0, bitmap: Vec::new() }]);
    assert_eq!(strip.width(), 11);
    for x in 0..11 {
        for y in 0..12 {
            assert_eq!(strip.pixel(x, y), 0);
        }
    }
}

#[test]
fn window_of_empty_text_is_dark() {
    let strip = TextStrip::render("", &Vec::new());
    let mut m = Matrix::new();
    m.set_matrix(9, 9, 9);
    for offset in strip.scroll_offsets() {
        m.show_text_window(&strip, offset);
        assert!(m.as_bytes()[1..].iter().all(|b| *b == 0));
    }
}
