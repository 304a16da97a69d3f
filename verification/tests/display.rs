use rust8::display::Display;

#[test]
fn fresh_screen_is_dark() {
    let d = Display::new();
    let buf = d.get_display_buffer();
    assert_eq!(buf.len(), 2048);
    assert!(buf.iter().all(|&p| p == 0));
}

#[test]
fn index_from_coords() {
    assert_eq!(Display::get_index_from_coords(0, 0), 0);
    assert_eq!(Display::get_index_from_coords(7, 3), 3 * 64 + 7);
    assert_eq!(Display::get_index_from_coords(63, 31), 2047);
}

#[test]
fn blit_sets_pixels_msb_first() {
    let mut d = Display::new();
    // 0b1010_0001: bits 0, 2 and 7 from the most significant end
    let collided = d.debug_draw_sprite(0xA1, 4, 2);
    assert!(!collided);
    let buf = d.get_display_buffer();
    let base = 2 * 64 + 4;
    let expected = [1u8, 0, 1, 0, 0, 0, 0, 1];
    for (k, &want) in expected.iter().enumerate() {
        assert_eq!(buf[base + k], want);
    }
}

#[test]
fn blit_wraps_horizontally() {
    let mut d = Display::new();
    let collided = d.debug_draw_sprite(0xFF, 60, 0);
    assert!(!collided);
    let buf = d.get_display_buffer();
    for col in 60..64 {
        assert_eq!(buf[col], 1);
    }
    for col in 0..4 {
        assert_eq!(buf[col], 1);
    }
    for col in 4..60 {
        assert_eq!(buf[col], 0);
    }
}

#[test]
fn blit_clips_below_bottom_edge() {
    let mut d = Display::new();
    let collided = d.debug_draw_sprite(0xFF, 0, 32);
    assert!(!collided);
    assert!(d.get_display_buffer().iter().all(|&p| p == 0));
}

#[test]
fn blit_twice_restores_screen_and_reports_collision() {
    let mut d = Display::new();
    d.debug_draw_sprite(0x3C, 10, 5);
    d.debug_draw_sprite(0x81, 12, 5);
    let before: Vec<u8> = d.get_display_buffer().to_vec();
    let first = d.debug_draw_sprite(0xE7, 11, 5);
    let second = d.debug_draw_sprite(0xE7, 11, 5);
    assert!(second, "the second blit erases what the first drew");
    let _ = first;
    assert_eq!(d.get_display_buffer(), &before[..]);
}

#[test]
fn collision_only_on_one_to_zero() {
    let mut d = Display::new();
    let first = d.debug_draw_sprite(0xF0, 0, 0);
    assert!(!first, "drawing on a dark screen collides with nothing");
    let overlapping = d.debug_draw_sprite(0x10, 0, 0);
    assert!(overlapping, "bit 3 lands on a lit pixel");
    let disjoint = d.debug_draw_sprite(0x0F, 0, 1);
    assert!(!disjoint, "a different row is untouched");
}

#[test]
fn clear_screen_zeroes_everything() {
    let mut d = Display::new();
    d.debug_draw_sprite(0xFF, 0, 0);
    d.debug_draw_sprite(0xFF, 30, 17);
    d.clear_screen();
    assert!(d.get_display_buffer().iter().all(|&p| p == 0));
}
