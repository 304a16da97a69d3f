use rust8::bus::Bus;
use rust8::keyboard::Keyboard;

#[test]
fn keyboard_latch_round_trip() {
    let mut k = Keyboard::new();
    assert_eq!(k.get_key_pressed(), None);
    k.set_key_pressed(Some(0xA));
    assert_eq!(k.get_key_pressed(), Some(0xA));
    k.set_key_pressed(None);
    assert_eq!(k.get_key_pressed(), None);
}

#[test]
fn keyboard_pressed_means_latched_key() {
    let mut k = Keyboard::new();
    assert!(!k.is_key_pressed(0x0));
    k.set_key_pressed(Some(0x4));
    assert!(k.is_key_pressed(0x4));
    assert!(!k.is_key_pressed(0x5));
}

#[test]
fn bus_memory_round_trip() {
    let mut bus = Bus::new();
    assert_eq!(bus.ram_read_byte(0x200), 0);
    bus.ram_write_byte(0x200, 0xAB);
    bus.ram_write_byte(0xFFF, 0x01);
    assert_eq!(bus.ram_read_byte(0x200), 0xAB);
    assert_eq!(bus.ram_read_byte(0xFFF), 0x01);
    assert_eq!(bus.ram_read_byte(0x201), 0);
}

#[test]
fn timer_set_get_tick() {
    let mut bus = Bus::new();
    assert_eq!(bus.get_delay_timer(), 0);
    bus.set_delay_timer(3);
    bus.tick();
    assert_eq!(bus.get_delay_timer(), 2);
    bus.tick();
    bus.tick();
    assert_eq!(bus.get_delay_timer(), 0);
}

#[test]
fn timer_reaches_floor_and_stays() {
    let mut bus = Bus::new();
    bus.set_delay_timer(5);
    for _ in 0..300 {
        bus.tick();
    }
    assert_eq!(bus.get_delay_timer(), 0);
    bus.tick();
    assert_eq!(bus.get_delay_timer(), 0);
}

#[test]
fn bus_key_latch() {
    let mut bus = Bus::new();
    assert_eq!(bus.get_key_pressed(), None);
    bus.set_key_pressed(Some(0xF));
    assert!(bus.is_key_pressed(0xF));
    assert!(!bus.is_key_pressed(0xE));
    assert_eq!(bus.get_key_pressed(), Some(0xF));
}

#[test]
fn bus_clear_screen_zeroes_pixels() {
    let mut bus = Bus::new();
    bus.debug_draw_sprite(0xFF, 3, 9);
    assert!(bus.get_display_buffer().iter().any(|&p| p == 1));
    bus.clear_screen();
    assert!(bus.get_display_buffer().iter().all(|&p| p == 0));
}
