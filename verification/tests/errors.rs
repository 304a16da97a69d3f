use rust8::bus::Bus;
use rust8::chip8::Chip8;
use rust8::cpu::Cpu;
use rust8::Chip8Error;

fn load_at(bus: &mut Bus, addr: u16, bytes: &[u8]) {
    for (k, b) in bytes.iter().enumerate() {
        bus.ram_write_byte(addr + k as u16, *b);
    }
}

#[test]
fn unknown_opcode_reports_pc_and_word() {
    let mut cpu = Cpu::new();
    let mut bus = Bus::new();
    load_at(&mut bus, 0x200, &[0x51, 0x23]);
    assert_eq!(
        cpu.step(&mut bus, 0),
        Err(Chip8Error::UnknownOpcode { pc: 0x200, instruction: 0x5123 })
    );
    assert_eq!(cpu.get_pc(), 0x200, "a fault leaves the machine unchanged");
    // the same fault comes back deterministically
    assert_eq!(
        cpu.step(&mut bus, 0),
        Err(Chip8Error::UnknownOpcode { pc: 0x200, instruction: 0x5123 })
    );
}

#[test]
fn unknown_opcodes_in_dispatched_families() {
    let mut cpu = Cpu::new();
    let mut bus = Bus::new();
    load_at(&mut bus, 0x200, &[0x00, 0x00]);
    assert_eq!(
        cpu.step(&mut bus, 0),
        Err(Chip8Error::UnknownOpcode { pc: 0x200, instruction: 0x0000 })
    );

    let mut cpu = Cpu::new();
    let mut bus = Bus::new();
    load_at(&mut bus, 0x200, &[0x81, 0x27]);
    assert_eq!(
        cpu.step(&mut bus, 0),
        Err(Chip8Error::UnknownOpcode { pc: 0x200, instruction: 0x8127 })
    );

    let mut cpu = Cpu::new();
    let mut bus = Bus::new();
    load_at(&mut bus, 0x200, &[0xE1, 0x00]);
    assert_eq!(
        cpu.step(&mut bus, 0),
        Err(Chip8Error::UnknownOpcode { pc: 0x200, instruction: 0xE100 })
    );

    let mut cpu = Cpu::new();
    let mut bus = Bus::new();
    load_at(&mut bus, 0x200, &[0xF1, 0x99]);
    assert_eq!(
        cpu.step(&mut bus, 0),
        Err(Chip8Error::UnknownOpcode { pc: 0x200, instruction: 0xF199 })
    );
}

#[test]
fn return_on_empty_stack_underflows() {
    let mut cpu = Cpu::new();
    let mut bus = Bus::new();
    load_at(&mut bus, 0x200, &[0x00, 0xEE]);
    assert_eq!(cpu.step(&mut bus, 0), Err(Chip8Error::StackUnderflow { pc: 0x200 }));
    assert_eq!(cpu.get_pc(), 0x200);
}

#[test]
fn fetch_past_end_of_memory() {
    let mut cpu = Cpu::new();
    let mut bus = Bus::new();
    // jump to the last byte: the second instruction byte is out of range
    load_at(&mut bus, 0x200, &[0x1F, 0xFF]);
    assert_eq!(cpu.step(&mut bus, 0), Ok(()));
    assert_eq!(cpu.get_pc(), 0xFFF);
    assert_eq!(cpu.step(&mut bus, 0), Err(Chip8Error::OutOfBounds { address: 4096 }));
}

#[test]
fn bcd_store_past_end_of_memory() {
    let mut cpu = Cpu::new();
    let mut bus = Bus::new();
    cpu.write_reg_i(0xFFE);
    load_at(&mut bus, 0x200, &[0xF0, 0x33]);
    assert_eq!(cpu.step(&mut bus, 0), Err(Chip8Error::OutOfBounds { address: 4096 }));
    assert_eq!(cpu.get_pc(), 0x200);
}

#[test]
fn register_dump_past_end_of_memory() {
    let mut cpu = Cpu::new();
    let mut bus = Bus::new();
    cpu.write_reg_i(0xFFD);
    load_at(&mut bus, 0x200, &[0xF3, 0x55]);
    assert_eq!(cpu.step(&mut bus, 0), Err(Chip8Error::OutOfBounds { address: 4096 }));

    // the same range read back also faults
    load_at(&mut bus, 0x200, &[0xF3, 0x65]);
    assert_eq!(cpu.step(&mut bus, 0), Err(Chip8Error::OutOfBounds { address: 4096 }));
}

#[test]
fn draw_reading_rows_past_end_of_memory() {
    let mut cpu = Cpu::new();
    let mut bus = Bus::new();
    cpu.write_reg_i(0xFFE);
    load_at(&mut bus, 0x200, &[0xD0, 0x14]);
    assert_eq!(cpu.step(&mut bus, 0), Err(Chip8Error::OutOfBounds { address: 4096 }));
    assert!(bus.get_display_buffer().iter().all(|&p| p == 0), "nothing was drawn");
}

#[test]
fn rom_too_large_is_rejected_whole() {
    let mut chip8 = Chip8::new();
    let data = vec![0xAB; 4096 - 0x200 + 1];
    assert_eq!(chip8.load_rom(&data), Err(Chip8Error::RomTooLarge { size: data.len() }));
}

#[test]
fn largest_rom_that_fits_loads() {
    let mut chip8 = Chip8::new();
    let data = vec![0xAB; 4096 - 0x200];
    assert_eq!(chip8.load_rom(&data), Ok(()));
}
