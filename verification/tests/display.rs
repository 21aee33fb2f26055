use rc_8::backend::interfaces::{DisplayBuffer, Options};
use rc_8::backend::{DISPLAY_BUFFER_HEIGHT, DISPLAY_BUFFER_WIDTH};

fn display(track_changes: bool, wrap_sprites: bool) -> DisplayBuffer {
    DisplayBuffer::new(Options { track_changes, wrap_sprites })
}

fn lit(display: &DisplayBuffer) -> Vec<(usize, usize)> {
    let mut pixels = Vec::new();
    for y in 0..DISPLAY_BUFFER_HEIGHT {
        for x in 0..DISPLAY_BUFFER_WIDTH {
            if display.pixel(x, y) {
                pixels.push((x, y));
            }
        }
    }
    pixels
}

#[test]
fn new_display_is_blank_and_clean() {
    let display = display(true, true);
    assert!(lit(&display).is_empty());
    assert!(!display.dirty);
    assert!(display.changed.is_empty());
    assert!(display.options.track_changes);
    assert!(display.options.wrap_sprites);
}

#[test]
fn pixel_outside_the_display_is_not_lit() {
    let mut display = display(false, true);
    display.draw((0, 0), &[0xFF; 32]);
    assert!(display.pixel(0, 0));
    assert!(!display.pixel(64, 0));
    assert!(!display.pixel(0, 32));
    assert!(!display.pixel(usize::MAX, usize::MAX));
}

#[test]
fn draw_sets_the_bits_of_a_byte_from_the_left() {
    let mut display = display(false, false);
    let collided = display.draw((0, 0), &[0x80]);
    assert!(!collided);
    assert_eq!(lit(&display), vec![(0, 0)]);

    let mut display = self::display(false, false);
    display.draw((0, 0), &[0x01]);
    assert_eq!(lit(&display), vec![(7, 0)]);

    let mut display = self::display(false, false);
    display.draw((10, 4), &[0b1010_0101]);
    assert_eq!(lit(&display), vec![(10, 4), (12, 4), (15, 4), (17, 4)]);
}

#[test]
fn draw_puts_each_byte_on_a_row_of_its_own() {
    let mut display = display(false, false);
    let collided = display.draw((3, 5), &[0xC0, 0x00, 0x20]);
    assert!(!collided);
    assert_eq!(lit(&display), vec![(3, 5), (4, 5), (5, 7)]);
}

#[test]
fn draw_marks_the_display_dirty() {
    let mut display = display(false, false);
    display.draw((0, 0), &[]);
    assert!(display.dirty);
    display.dirty = false;
    display.draw((0, 0), &[0x00]);
    assert!(display.dirty);
}

#[test]
fn clear_switches_everything_off_and_marks_the_display_dirty() {
    let mut display = display(false, true);
    display.draw((0, 0), &[0xFF; 32]);
    display.draw((30, 9), &[0x3C, 0x42]);
    display.dirty = false;
    display.clear();
    assert!(lit(&display).is_empty());
    assert!(display.dirty);
}

#[test]
fn clear_keeps_the_time_stamps() {
    let mut display = display(true, false);
    display.draw((0, 0), &[0x80]);
    display.draw((0, 0), &[0x80]);
    assert_eq!(display.changed.len(), 1);
    display.clear();
    assert_eq!(display.changed.len(), 1);
}

#[test]
fn draw_takes_the_origin_modulo_the_size_of_the_display() {
    let mut display = display(false, false);
    display.draw((64 + 2, 32 + 3), &[0x80]);
    assert_eq!(lit(&display), vec![(2, 3)]);
    let mut display = self::display(false, true);
    display.draw((640 + 63, 320 + 31), &[0x80]);
    assert_eq!(lit(&display), vec![(63, 31)]);
}

#[test]
fn draw_reports_a_collision_where_a_lit_pixel_is_switched_off() {
    let mut display = display(false, false);
    assert!(!display.draw((0, 0), &[0xF0]));
    assert!(display.draw((0, 0), &[0x10]));
    assert_eq!(lit(&display), vec![(0, 0), (1, 0), (2, 0)]);
    assert!(!display.draw((0, 0), &[0x0F]));
    assert_eq!(lit(&display), vec![(0, 0), (1, 0), (2, 0), (4, 0), (5, 0), (6, 0), (7, 0)]);
}

#[test]
fn draw_of_zero_bytes_never_collides() {
    let mut display = display(true, true);
    display.draw((5, 5), &[0xFF, 0xFF, 0xFF]);
    let before = lit(&display);
    assert!(!display.draw((5, 5), &[0x00, 0x00, 0x00]));
    assert!(!display.draw((60, 30), &[0x00; 15]));
    assert_eq!(lit(&display), before);
    assert!(display.changed.is_empty());
}

#[test]
fn draw_of_zero_bytes_after_clear_never_collides() {
    let mut display = display(false, false);
    display.draw((0, 0), &[0xAA, 0x55]);
    display.clear();
    assert!(!display.draw((0, 0), &[0x00; 15]));
    assert!(lit(&display).is_empty());
}

#[test]
fn drawing_a_sprite_twice_restores_the_display() {
    let sprite = [0xF0, 0x90, 0x90, 0x90, 0xF0];
    for &(wrap, x, y) in &[(false, 0, 0), (false, 61, 29), (true, 61, 29), (true, 63, 31), (false, 7, 13)] {
        let mut display = display(false, wrap);
        display.draw((20, 10), &[0x18, 0x3C, 0x7E]);
        display.draw((60, 30), &[0xFF, 0xFF]);
        let before = lit(&display);
        display.draw((x, y), &sprite);
        assert_ne!(lit(&display), before);
        let collided = display.draw((x, y), &sprite);
        assert!(collided);
        assert_eq!(lit(&display), before);
    }
}

#[test]
fn sprite_is_cut_at_the_right_edge_without_wrapping() {
    let mut display = display(false, false);
    display.draw((60, 0), &[0xFF]);
    assert_eq!(lit(&display), vec![(60, 0), (61, 0), (62, 0), (63, 0)]);
}

#[test]
fn sprite_goes_on_at_the_left_edge_with_wrapping() {
    let mut display = display(false, true);
    display.draw((60, 0), &[0xFF]);
    assert_eq!(lit(&display), vec![(0, 0), (1, 0), (2, 0), (3, 0), (60, 0), (61, 0), (62, 0), (63, 0)]);
}

#[test]
fn sprite_is_cut_at_the_bottom_edge_without_wrapping() {
    let mut display = display(false, false);
    display.draw((0, 30), &[0x80, 0x80, 0x80, 0x80]);
    assert_eq!(lit(&display), vec![(0, 30), (0, 31)]);
}

#[test]
fn sprite_goes_on_at_the_top_edge_with_wrapping() {
    let mut display = display(false, true);
    display.draw((0, 30), &[0x80, 0x80, 0x80, 0x80]);
    assert_eq!(lit(&display), vec![(0, 0), (0, 1), (0, 30), (0, 31)]);
}

#[test]
fn sprite_that_ends_at_the_edge_is_drawn_whole() {
    let mut display = display(false, false);
    display.draw((56, 31), &[0xFF]);
    assert_eq!(lit(&display).len(), 8);
    assert!(display.pixel(56, 31));
    assert!(display.pixel(63, 31));
}

#[test]
fn rows_of_a_long_wrapping_sprite_meet_their_own_pixels() {
    let mut display = display(false, true);
    let mut sprite = [0u8; 33];
    sprite[0] = 0x80;
    sprite[32] = 0x80;
    let collided = display.draw((0, 0), &sprite);
    assert!(collided);
    assert!(lit(&display).is_empty());
}

#[test]
fn long_sprite_without_wrapping_stops_at_the_bottom() {
    let mut display = display(false, false);
    let collided = display.draw((0, 0), &[0x80; 40]);
    assert!(!collided);
    assert_eq!(lit(&display).len(), 32);
}

#[test]
fn collisions_are_stamped_where_changes_are_tracked() {
    let mut display = display(true, false);
    display.draw((2, 1), &[0xC0]);
    assert!(display.changed.is_empty());
    assert!(display.draw((3, 1), &[0xC0]));
    assert_eq!(display.changed.len(), 1);
    assert!(display.changed.contains_key(&(1 * DISPLAY_BUFFER_WIDTH + 3)));
    assert_eq!(lit(&display), vec![(2, 1), (4, 1)]);
}

#[test]
fn collisions_are_not_stamped_where_changes_are_not_tracked() {
    let mut display = display(false, false);
    display.draw((2, 1), &[0xC0]);
    assert!(display.draw((2, 1), &[0xC0]));
    assert!(display.changed.is_empty());
}

#[test]
fn stamps_of_other_pixels_stay() {
    let mut display = display(true, true);
    display.draw((0, 0), &[0x80]);
    display.draw((0, 0), &[0x80]);
    let first = display.changed[&0];
    display.draw((9, 9), &[0x80]);
    display.draw((9, 9), &[0x80]);
    assert_eq!(display.changed.len(), 2);
    assert_eq!(display.changed[&0], first);
    assert!(display.changed.contains_key(&(9 * DISPLAY_BUFFER_WIDTH + 9)));
}
