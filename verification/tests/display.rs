use chip8rs::display::{DISPLAY_HEIGHT, DISPLAY_WIDTH, PIXEL_COUNT};
use chip8rs::Display;

fn lit(display: &Display) -> Vec<(usize, usize)> {
    let mut on = Vec::new();
    for y in 0..DISPLAY_HEIGHT {
        for x in 0..DISPLAY_WIDTH {
            if display.pixel(x, y) {
                on.push((x, y));
            }
        }
    }
    on
}

#[test]
fn the_grid_is_64_by_32() {
    assert_eq!(DISPLAY_WIDTH, 64);
    assert_eq!(DISPLAY_HEIGHT, 32);
    assert_eq!(PIXEL_COUNT, 2048);
    assert_eq!(Display::new().pixels().len(), 2048);
}

#[test]
fn a_new_display_is_blank() {
    let display = Display::new();
    assert!(display.pixels().iter().all(|on| !on));
    assert!(lit(&display).is_empty());
}

#[test]
fn clear_turns_every_pixel_off() {
    let mut display = Display::new();
    display.draw_sprite(0, 0, &[0xFF; 15]);
    display.draw_sprite(30, 20, &[0xA5; 15]);
    display.draw_sprite(60, 30, &[0xFF; 4]);
    assert!(!lit(&display).is_empty());
    display.clear();
    assert!(lit(&display).is_empty());
    assert!(display.pixels().iter().all(|on| !on));
    for y in 0..64 {
        for x in 0..64 {
            assert!(!display.pixel(x, y));
        }
    }
}

#[test]
fn wrapped_coordinates_are_taken_modulo_the_grid() {
    assert_eq!(Display::get_wrapped_coordinates(0, 0), (0, 0));
    assert_eq!(Display::get_wrapped_coordinates(63, 31), (63, 31));
    assert_eq!(Display::get_wrapped_coordinates(64, 32), (0, 0));
    assert_eq!(Display::get_wrapped_coordinates(67, 33), (3, 1));
    assert_eq!(Display::get_wrapped_coordinates(255, 255), (63, 31));
    assert_eq!(Display::get_wrapped_coordinates(130, 70), (2, 6));
    assert_eq!(
        Display::get_wrapped_coordinates(usize::MAX, usize::MAX),
        (usize::MAX % 64, usize::MAX % 32)
    );
}

#[test]
fn bit_7_is_the_leftmost_column() {
    let mut display = Display::new();
    assert!(!display.draw_sprite(10, 5, &[0b1000_0000]));
    assert_eq!(lit(&display), vec![(10, 5)]);
    display.clear();
    assert!(!display.draw_sprite(10, 5, &[0b0000_0001]));
    assert_eq!(lit(&display), vec![(17, 5)]);
    display.clear();
    assert!(!display.draw_sprite(10, 5, &[0b0100_0010]));
    assert_eq!(lit(&display), vec![(11, 5), (16, 5)]);
}

#[test]
fn rows_go_downwards() {
    let mut display = Display::new();
    display.draw_sprite(2, 3, &[0x80, 0x40, 0x20]);
    assert_eq!(lit(&display), vec![(2, 3), (3, 4), (4, 5)]);
}

#[test]
fn the_grid_is_row_major() {
    let mut display = Display::new();
    display.draw_sprite(5, 2, &[0x80]);
    let grid = display.pixels();
    for (place, on) in grid.iter().enumerate() {
        assert_eq!(*on, place == 5 + 2 * 64);
    }
}

#[test]
fn drawing_ff_twice_cancels_and_collides() {
    let mut display = Display::new();
    assert!(!display.draw_sprite(12, 7, &[0xFF]));
    assert_eq!(
        lit(&display),
        vec![(12, 7), (13, 7), (14, 7), (15, 7), (16, 7), (17, 7), (18, 7), (19, 7)]
    );
    assert!(display.draw_sprite(12, 7, &[0xFF]));
    assert!(lit(&display).is_empty());
    for x in 12..20 {
        assert!(!display.pixel(x, 7));
    }
}

#[test]
fn drawing_twice_restores_any_screen() {
    let mut display = Display::new();
    display.draw_sprite(3, 3, &[0xF0, 0x0F, 0x3C]);
    display.draw_sprite(61, 29, &[0xAA, 0x55, 0xAA, 0x55, 0xAA]);
    let before = display.pixels().to_vec();
    let sprite = [0xFF, 0x81, 0x42, 0x24, 0x18];
    display.draw_sprite(62, 30, &sprite);
    assert_ne!(display.pixels(), &before[..]);
    display.draw_sprite(62, 30, &sprite);
    assert_eq!(display.pixels(), &before[..]);
}

#[test]
fn drawing_twice_restores_even_where_the_sprite_overlaps_itself() {
    let mut display = Display::new();
    display.draw_sprite(1, 1, &[0x99]);
    let before = display.pixels().to_vec();
    let tall: Vec<u8> = (0..70).map(|row| (row * 37 + 5) as u8).collect();
    display.draw_sprite(9, 9, &tall);
    display.draw_sprite(9, 9, &tall);
    assert_eq!(display.pixels(), &before[..]);
}

#[test]
fn a_sprite_taller_than_the_screen_draws_over_itself() {
    let mut display = Display::new();
    let mut tall = vec![0u8; 33];
    tall[0] = 0x80;
    tall[32] = 0x80;
    assert!(display.draw_sprite(0, 0, &tall));
    assert!(lit(&display).is_empty());
}

#[test]
fn a_sprite_at_60_30_wraps_around_both_edges() {
    let mut display = Display::new();
    assert!(!display.draw_sprite(60, 30, &[0xFF; 4]));
    let mut expected = Vec::new();
    for y in [0usize, 1, 30, 31] {
        for x in [0usize, 1, 2, 3, 60, 61, 62, 63] {
            expected.push((x, y));
        }
    }
    expected.sort_by_key(|&(x, y)| (y, x));
    assert_eq!(lit(&display), expected);
    assert!(display.pixel(63, 31));
    assert!(display.pixel(0, 0));
    assert!(display.pixel(3, 1));
    assert!(!display.pixel(4, 0));
    assert!(!display.pixel(59, 30));
    assert!(!display.pixel(60, 29));
    assert!(!display.pixel(0, 2));
}

#[test]
fn a_position_outside_the_screen_wraps() {
    let mut wrapped = Display::new();
    let mut plain = Display::new();
    assert!(!wrapped.draw_sprite(64 + 5, 32 * 3 + 7, &[0xC3, 0x3C]));
    assert!(!plain.draw_sprite(5, 7, &[0xC3, 0x3C]));
    assert_eq!(wrapped.pixels(), plain.pixels());
    assert!(wrapped.draw_sprite(5, 7, &[0x80]));
}

#[test]
fn a_position_near_the_largest_number_wraps() {
    let mut wrapped = Display::new();
    let mut plain = Display::new();
    wrapped.draw_sprite(usize::MAX, usize::MAX, &[0xFF, 0xFF]);
    plain.draw_sprite(usize::MAX % 64, usize::MAX % 32, &[0xFF, 0xFF]);
    assert_eq!(wrapped.pixels(), plain.pixels());
    assert_eq!(lit(&wrapped).len(), 16);
}

#[test]
fn pixel_reads_wrapped_coordinates() {
    let mut display = Display::new();
    display.draw_sprite(1, 2, &[0x80]);
    assert!(display.pixel(1, 2));
    assert!(display.pixel(65, 34));
    assert!(display.pixel(1 + 64 * 5, 2 + 32 * 9));
    assert!(!display.pixel(2, 1));
}

#[test]
fn collision_needs_a_lit_pixel_under_a_set_bit() {
    let mut display = Display::new();
    assert!(!display.draw_sprite(0, 0, &[0xF0]));
    assert!(!display.draw_sprite(0, 0, &[0x0F]));
    assert_eq!(lit(&display).len(), 8);
    assert!(!display.draw_sprite(0, 0, &[0x00]));
    assert!(display.draw_sprite(0, 0, &[0x01]));
    assert_eq!(lit(&display).len(), 7);
    assert!(!display.pixel(7, 0));
}

#[test]
fn collision_is_reported_for_the_whole_sprite() {
    let mut display = Display::new();
    display.draw_sprite(20, 10, &[0x00, 0x00, 0x10]);
    assert!(display.draw_sprite(20, 10, &[0xFF, 0xFF, 0xFF]));
    assert!(!display.pixel(23, 12));
    assert_eq!(lit(&display).len(), 23);
}

#[test]
fn an_empty_sprite_draws_nothing() {
    let mut display = Display::new();
    display.draw_sprite(4, 4, &[0xFF]);
    let before = display.pixels().to_vec();
    assert!(!display.draw_sprite(4, 4, &[]));
    assert_eq!(display.pixels(), &before[..]);
}

#[test]
fn a_blank_sprite_draws_nothing() {
    let mut display = Display::new();
    display.draw_sprite(4, 4, &[0xFF]);
    let before = display.pixels().to_vec();
    assert!(!display.draw_sprite(4, 4, &[0, 0, 0]));
    assert_eq!(display.pixels(), &before[..]);
}
