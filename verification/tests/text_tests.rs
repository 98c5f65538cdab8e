use soft_raster::fixed::Fixed;
use soft_raster::framebuffer::Framebuffer;
use soft_raster::text::{draw_char, draw_text, FONT};

const WHITE: u32 = 0xff_ffff;

fn lit(fb: &Framebuffer) -> Vec<(usize, usize)> {
    let mut out = Vec::new();
    for y in 0..fb.height() {
        for x in 0..fb.width() {
            if fb.pixel(x, y) != Some(0) {
                out.push((x, y));
            }
        }
    }
    out
}

fn glyph_pixels(c: char, x: usize, y: usize) -> Vec<(usize, usize)> {
    let mut out = Vec::new();
    for row in 0..8 {
        for col in 0..8 {
            if FONT[c as usize - 32][row] & (1 << col) != 0 {
                out.push((x + col, y + row));
            }
        }
    }
    out
}

#[test]
fn font_has_a_glyph_per_printable_character() {
    assert_eq!(FONT.len(), 95);
    assert_eq!(FONT[0], [0; 8]);
    assert_eq!(FONT['A' as usize - 32], [0x0c, 0x1e, 0x33, 0x33, 0x3f, 0x33, 0x33, 0x00]);
    assert_eq!(FONT['~' as usize - 32], [0x6e, 0x3b, 0, 0, 0, 0, 0, 0]);
    assert_eq!(FONT['_' as usize - 32], [0, 0, 0, 0, 0, 0, 0, 0xff]);
}

#[test]
fn draw_char_sets_the_bits_of_the_glyph() {
    let mut fb = Framebuffer::new(8, 8);
    fb.clear();
    draw_char(&mut fb, 0, 0, 'A', WHITE);
    assert_eq!(fb.pixel(2, 0), Some(WHITE));
    assert_eq!(fb.pixel(3, 0), Some(WHITE));
    assert_eq!(fb.pixel(0, 0), Some(0));
    assert_eq!(fb.pixel(4, 0), Some(0));
    for x in 0..6 {
        assert_eq!(fb.pixel(x, 4), Some(WHITE));
    }
    assert_eq!(fb.pixel(6, 4), Some(0));
    assert_eq!(fb.pixel(7, 4), Some(0));
    for x in 0..8 {
        assert_eq!(fb.pixel(x, 7), Some(0));
    }
    assert_eq!(lit(&fb), glyph_pixels('A', 0, 0));
    assert_eq!(fb.depth(2, 0), Some(Fixed::zero()));
    assert_eq!(fb.depth(0, 0), Some(Fixed::max_value()));
    assert_eq!(fb.current_color(), WHITE);
}

#[test]
fn draw_char_at_an_offset_in_a_color() {
    let mut fb = Framebuffer::new(20, 12);
    fb.clear();
    draw_char(&mut fb, 5, 3, '#', 0x00ff00);
    assert_eq!(lit(&fb), glyph_pixels('#', 5, 3));
    assert_eq!(fb.pixel(6, 3), Some(0x00ff00));
}

#[test]
fn draw_char_ignores_unprintable_characters() {
    let mut fb = Framebuffer::new(8, 8);
    fb.clear();
    fb.set_current_color(0x123456);
    for c in ['\n', '\t', '\0', '\u{7f}', 'é', '\u{1f}', '☀'] {
        draw_char(&mut fb, 0, 0, c, WHITE);
    }
    assert!(lit(&fb).is_empty());
    assert_eq!(fb.current_color(), 0x123456);
    draw_char(&mut fb, 0, 0, ' ', WHITE);
    assert!(lit(&fb).is_empty());
    assert_eq!(fb.current_color(), 0x123456);
}

#[test]
fn draw_char_is_clipped_at_the_edges() {
    let mut fb = Framebuffer::new(8, 8);
    fb.clear();
    draw_char(&mut fb, 6, 5, 'A', WHITE);
    let expected: Vec<(usize, usize)> =
        glyph_pixels('A', 6, 5).into_iter().filter(|&(x, y)| x < 8 && y < 8).collect();
    assert!(!expected.is_empty());
    assert_eq!(lit(&fb), expected);
    let before = fb.buffer().clone();
    draw_char(&mut fb, 8, 0, 'A', WHITE);
    draw_char(&mut fb, 0, 8, 'A', WHITE);
    draw_char(&mut fb, usize::MAX, 0, 'A', WHITE);
    draw_char(&mut fb, 0, usize::MAX, 'A', WHITE);
    draw_char(&mut fb, usize::MAX - 3, usize::MAX - 3, 'A', WHITE);
    assert_eq!(fb.buffer(), &before);
}

#[test]
fn draw_char_goes_through_the_depth_test() {
    let mut fb = Framebuffer::new(8, 8);
    fb.clear();
    fb.plot(2, 0, Fixed::from_int(-1), 0xff0000);
    fb.plot(3, 0, Fixed::from_int(1), 0x0000ff);
    draw_char(&mut fb, 0, 0, 'A', WHITE);
    assert_eq!(fb.pixel(2, 0), Some(0xff0000));
    assert_eq!(fb.depth(2, 0), Some(Fixed::from_int(-1)));
    assert_eq!(fb.pixel(3, 0), Some(WHITE));
    assert_eq!(fb.depth(3, 0), Some(Fixed::zero()));
}

#[test]
fn draw_text_advances_eight_pixels_per_byte() {
    let mut fb = Framebuffer::new(24, 8);
    fb.clear();
    draw_text(&mut fb, 0, 0, "AB!", WHITE);
    let mut expected = glyph_pixels('A', 0, 0);
    expected.extend(glyph_pixels('B', 8, 0));
    expected.extend(glyph_pixels('!', 16, 0));
    expected.sort_by_key(|&(x, y)| (y, x));
    assert_eq!(lit(&fb), expected);
}

#[test]
fn draw_text_leaves_a_gap_for_a_line_feed() {
    let mut fb = Framebuffer::new(24, 8);
    fb.clear();
    draw_text(&mut fb, 0, 0, "A\nA", WHITE);
    let mut expected = glyph_pixels('A', 0, 0);
    expected.extend(glyph_pixels('A', 16, 0));
    expected.sort_by_key(|&(x, y)| (y, x));
    assert_eq!(lit(&fb), expected);
    assert_eq!(fb.pixel(18, 0), Some(WHITE));
    assert_eq!(fb.pixel(10, 0), Some(0));
}

#[test]
fn draw_text_counts_bytes_not_characters() {
    let mut fb = Framebuffer::new(40, 8);
    fb.clear();
    draw_text(&mut fb, 0, 0, "éA", WHITE);
    assert_eq!(lit(&fb), {
        let mut e = glyph_pixels('A', 16, 0);
        e.sort_by_key(|&(x, y)| (y, x));
        e
    });
}

#[test]
fn draw_text_is_clipped_and_never_overflows() {
    let mut fb = Framebuffer::new(12, 8);
    fb.clear();
    draw_text(&mut fb, 0, 0, "AAAA", WHITE);
    let mut expected = glyph_pixels('A', 0, 0);
    expected.extend(glyph_pixels('A', 8, 0).into_iter().filter(|&(x, _)| x < 12));
    expected.sort_by_key(|&(x, y)| (y, x));
    assert_eq!(lit(&fb), expected);
    let before = fb.buffer().clone();
    draw_text(&mut fb, usize::MAX - 4, 0, "AAAA", WHITE);
    draw_text(&mut fb, 0, usize::MAX, "AAAA", WHITE);
    draw_text(&mut fb, 0, 0, "", WHITE);
    assert_eq!(fb.buffer(), &before);
}
