use unicorn_matrix::frame::{Matrix, FRAME_LEN, SOF};
use unicorn_matrix::glyph::Glyph;

fn only_header(bytes: &[u8]) -> bool {
    bytes[0] == SOF && bytes[1..].iter().all(|b| *b == 0)
}

#[test]
fn new_frame_is_dark_with_start_byte() {
    let m = Matrix::new();
    let bytes = m.as_bytes();
    assert_eq!(bytes.len(), FRAME_LEN);
    assert_eq!(bytes[0], 0x72);
    assert!(only_header(bytes));
}

#[test]
fn set_pixel_writes_the_three_bytes_of_the_led() {
    let mut m = Matrix::new();
    m.set_pixel(1, 2, 10, 20, 30);
    let bytes = m.as_bytes();
    // LED (1, 2) starts at (16 * 2 + 1) * 3 + 1 = 100.
    assert_eq!(&bytes[100..103], &[10, 20, 30]);
    let changed = bytes.iter().enumerate().filter(|(i, b)| *i > 0 && **b != 0).count();
    assert_eq!(changed, 3);
}

#[test]
fn set_pixel_last_write_wins() {
    let mut m = Matrix::new();
    m.set_pixel(15, 15, 1, 2, 3);
    m.set_pixel(15, 15, 4, 5, 6);
    let bytes = m.as_bytes();
    assert_eq!(&bytes[766..769], &[4, 5, 6]);
}

#[test]
fn set_pixel_off_panel_is_ignored() {
    let mut m = Matrix::new();
    m.set_pixel(16, 0, 9, 9, 9);
    m.set_pixel(0, 16, 9, 9, 9);
    m.set_pixel(u32::MAX, u32::MAX, 9, 9, 9);
    assert!(only_header(m.as_bytes()));
}

#[test]
fn clear_matrix_darkens_every_led() {
    let mut m = Matrix::new();
    m.set_matrix(7, 8, 9);
    m.set_pixel(3, 3, 1, 1, 1);
    m.clear_matrix();
    assert!(only_header(m.as_bytes()));
}

#[test]
fn set_matrix_fills_every_led() {
    let mut m = Matrix::new();
    m.set_matrix(1, 2, 3);
    let bytes = m.as_bytes();
    assert_eq!(bytes[0], SOF);
    for led in 0..256 {
        assert_eq!(&bytes[led * 3 + 1..led * 3 + 4], &[1, 2, 3]);
    }
}

#[test]
fn print_char_draws_grey_glyph_and_returns_width() {
    let mut m = Matrix::new();
    let glyph = Glyph { width: 2, height: 1, bitmap: vec![5, 0, 0, 7, 0, 0] };
    let advance = m.print_char(&glyph, 3, 4);
    assert_eq!(advance, 2);
    let bytes = m.as_bytes();
    // LED (3, 4) starts at (64 + 3) * 3 + 1 = 202.
    assert_eq!(&bytes[202..208], &[5, 5, 5, 7, 7, 7]);
    let changed = bytes.iter().enumerate().filter(|(i, b)| *i > 0 && **b != 0).count();
    assert_eq!(changed, 6);
}

#[test]
fn print_char_drops_what_falls_off_the_panel() {
    let mut m = Matrix::new();
    let glyph = Glyph { width: 2, height: 2, bitmap: vec![1, 0, 0, 2, 0, 0, 3, 0, 0, 4, 0, 0] };
    m.print_char(&glyph, 15, 15);
    let bytes = m.as_bytes();
    assert_eq!(&bytes[766..769], &[1, 1, 1]);
    let changed = bytes.iter().enumerate().filter(|(i, b)| *i > 0 && **b != 0).count();
    assert_eq!(changed, 3);
}

#[test]
fn print_char_of_empty_glyph_draws_nothing() {
    let mut m = Matrix::new();
    let flat = Glyph { width: usize::MAX, height: 0, bitmap: Vec::new() };
    assert_eq!(m.print_char(&flat, 255, 255), usize::MAX);
    let thin = Glyph { width: 0, height: usize::MAX, bitmap: Vec::new() };
    assert_eq!(m.print_char(&thin, 255, 255), 0);
    assert!(only_header(m.as_bytes()));
}
