use rust8::chip8::Chip8;

#[test]
fn loaded_rom_executes_from_program_start() {
    let mut chip8 = Chip8::new();
    // V2 = 7; V3 = 3; I = 0x20A; draw 1 row of the sprite stored in the ROM
    let rom = [0x62, 0x07, 0x63, 0x03, 0xA2, 0x0A, 0xD2, 0x31, 0x00, 0x00, 0xFF];
    assert_eq!(chip8.load_rom(&rom), Ok(()));
    for _ in 0..4 {
        assert_eq!(chip8.run_instruction(), Ok(()));
    }
    let buf = chip8.get_display_buffer();
    for col in 7..15 {
        assert_eq!(buf[3 * 64 + col], 1);
    }
    let lit: usize = buf.iter().map(|&p| p as usize).sum();
    assert_eq!(lit, 8);
}

#[test]
fn keys_reach_the_waiting_program() {
    let mut chip8 = Chip8::new();
    // wait for a key into V4, then loop in place
    let rom = [0xF4, 0x0A, 0x12, 0x02];
    assert_eq!(chip8.load_rom(&rom), Ok(()));
    // no key latched: the wait instruction holds the program in place
    assert_eq!(chip8.run_instruction(), Ok(()));
    chip8.set_key_pressed(Some(0x7));
    // the key lets the wait complete, and the loop instruction follows
    assert_eq!(chip8.run_instruction(), Ok(()));
    assert_eq!(chip8.run_instruction(), Ok(()));
    chip8.set_key_pressed(None);
    assert_eq!(chip8.run_instruction(), Ok(()));
}

#[test]
fn ticked_timer_reaches_zero_and_unblocks_the_program() {
    let mut chip8 = Chip8::new();
    let rom = [
        0x60, 0x02, // V0 = 2
        0xF0, 0x15, // delay timer = V0
        0xF1, 0x07, // V1 = delay timer
        0x31, 0x00, // skip next instruction if V1 == 0
        0x12, 0x08, // spin here while the timer still runs
        0xA2, 0x10, // I = 0x210
        0xD0, 0x01, // draw 1 row at (V0, V0)
        0x00, 0x00, //
        0x80, // sprite: a single pixel, leftmost bit
    ];
    assert_eq!(chip8.load_rom(&rom), Ok(()));
    assert_eq!(chip8.run_instruction(), Ok(()));
    assert_eq!(chip8.run_instruction(), Ok(()));
    // the host ticks the timer down to its floor
    chip8.tick();
    chip8.tick();
    chip8.tick();
    for _ in 0..4 {
        assert_eq!(chip8.run_instruction(), Ok(()));
    }
    let buf = chip8.get_display_buffer();
    assert_eq!(buf[2 * 64 + 2], 1, "the timer read 0, so the draw was reached");
}
