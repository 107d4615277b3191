use chip8::display::{Display, DISPLAY_HEIGHT, DISPLAY_SIZE, DISPLAY_WIDTH};

#[test]
fn display_dimensions() {
    assert_eq!(DISPLAY_WIDTH, 64);
    assert_eq!(DISPLAY_HEIGHT, 32);
    assert_eq!(DISPLAY_SIZE, 2048);
    assert_eq!(Display::new().pixels().len(), DISPLAY_SIZE);
}

#[test]
fn new_display_is_blank() {
    let display = Display::new();
    assert!(display.pixels().iter().all(|pixel| *pixel == 0));
}

#[test]
fn draw_xors_and_reports_collisions() {
    let mut display = Display::new();
    assert!(!display.draw(&[0b1010_0000], 0, 0, false));
    assert_eq!(display.pixels()[0..4], [1, 0, 1, 0]);
    // Overlap at column 2 only.
    assert!(display.draw(&[0b0110_0000], 0, 0, false));
    assert_eq!(display.pixels()[0..4], [1, 1, 0, 0]);
    // No overlap.
    assert!(!display.draw(&[0b0011_0000], 0, 0, false));
    assert_eq!(display.pixels()[0..4], [1, 1, 1, 1]);
}

#[test]
fn draw_places_rows_below_each_other() {
    let mut display = Display::new();
    assert!(!display.draw(&[0x80, 0x40, 0x20], 10, 20, false));
    assert_eq!(display.pixel(10, 20), Some(1));
    assert_eq!(display.pixel(11, 21), Some(1));
    assert_eq!(display.pixel(12, 22), Some(1));
    assert_eq!(display.pixels().iter().filter(|pixel| **pixel == 1).count(), 3);
    assert_eq!(display.pixels()[20 * 64 + 10], 1);
}

#[test]
fn draw_twice_is_the_identity() {
    let mut display = Display::new();
    display.draw(&[0xF0, 0x0F, 0xAA], 5, 5, false);
    let before = display.clone();
    let first = display.draw(&[0xFF, 0xFF, 0x18, 0x00], 3, 4, false);
    let second = display.draw(&[0xFF, 0xFF, 0x18, 0x00], 3, 4, false);
    assert_eq!(display.pixels(), before.pixels());
    // Row 5 of the sprite covers the lit pixels at columns 5 to 8.
    assert!(first);
    // The first draw lit pixels that were off, so the second collides.
    assert!(second);
}

#[test]
fn second_draw_collides_only_if_the_first_lit_a_pixel() {
    let mut display = Display::new();
    display.draw(&[0xFF], 0, 0, false);
    // Every bit of this sprite lands on a lit pixel: the first draw lights
    // nothing, so the second meets only dark pixels.
    assert!(display.draw(&[0x3C], 0, 0, false));
    assert!(!display.draw(&[0x3C], 0, 0, false));
    assert_eq!(display.pixels()[0..8], [1, 1, 1, 1, 1, 1, 1, 1]);
}

#[test]
fn draw_drops_bits_beyond_the_edges() {
    let mut display = Display::new();
    assert!(!display.draw(&[0xFF, 0xFF], 63, 31, false));
    assert_eq!(display.pixel(63, 31), Some(1));
    assert_eq!(display.pixels().iter().filter(|pixel| **pixel == 1).count(), 1);
}

#[test]
fn draw_of_no_rows_changes_nothing() {
    let mut display = Display::new();
    display.draw(&[0xFF], 0, 0, false);
    assert!(!display.draw(&[], 0, 0, false));
    assert_eq!(display.pixels().iter().filter(|pixel| **pixel == 1).count(), 8);
}

#[test]
fn clear_turns_every_pixel_off() {
    let mut display = Display::new();
    display.draw(&[0xFF; 15], 7, 9, false);
    display.clear();
    assert!(display.pixels().iter().all(|pixel| *pixel == 0));
}

#[test]
fn pixels_stay_binary() {
    let mut display = Display::new();
    for step in 0..40u8 {
        display.draw(&[0xA5, 0x5A, 0xFF, step], step % 64, step.wrapping_mul(3) % 32, false);
        assert!(display.pixels().iter().all(|pixel| *pixel <= 1));
    }
}

#[test]
fn draw_takes_the_origin_modulo_the_size() {
    let mut display = Display::new();
    assert!(!display.draw(&[0x80], 64 + 3, 32 + 2, false));
    assert_eq!(display.pixel(3, 2), Some(1));
    assert!(display.draw(&[0x80], 3, 2, false));
    assert_eq!(display.pixel(3, 2), Some(0));
}

#[test]
fn draw_wraps_around_the_edges_when_asked() {
    let mut display = Display::new();
    assert!(!display.draw(&[0xFF, 0x81], 60, 31, true));
    // Row 31: columns 60..63 and 0..3; row 0: columns 60 and 3.
    for x in [60, 61, 62, 63, 0, 1, 2, 3] {
        assert_eq!(display.pixel(x, 31), Some(1));
    }
    assert_eq!(display.pixel(4, 31), Some(0));
    assert_eq!(display.pixel(59, 31), Some(0));
    assert_eq!(display.pixel(60, 0), Some(1));
    assert_eq!(display.pixel(3, 0), Some(1));
    assert_eq!(display.pixel(61, 0), Some(0));
    assert_eq!(display.pixels().iter().filter(|pixel| **pixel == 1).count(), 10);
    // The wrapped bits collide like any other.
    assert!(display.draw(&[0x01], 60, 31, true));
    assert_eq!(display.pixel(3, 31), Some(0));
}

#[test]
fn draw_twice_with_wrapping_is_the_identity() {
    let mut display = Display::new();
    display.draw(&[0xF0, 0x0F, 0xAA], 62, 30, true);
    let before = display.clone();
    display.draw(&[0xFF, 0x81, 0x18], 61, 31, true);
    display.draw(&[0xFF, 0x81, 0x18], 61, 31, true);
    assert_eq!(display.pixels(), before.pixels());
}
