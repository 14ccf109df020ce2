use chip8::cartridge::Cartridge;
use chip8::cpu::{Chip8Error, Cpu};

fn boot(rom: Vec<u8>) -> Cpu {
    let cart = Cartridge::new(&rom);
    Cpu::new(&cart)
}

fn run(cpu: &mut Cpu, cycles: usize) {
    for _ in 0..cycles {
        cpu.step(0, 0).unwrap();
    }
}

#[test]
fn load_register_immediate() {
    let mut cpu = boot(vec![0x6A, 0x42]);
    cpu.step(0, 0).unwrap();
    assert_eq!(cpu.register(0xA), 0x42);
    assert_eq!(cpu.program_counter(), 0x202);
}

#[test]
fn glyph_sprites_in_low_memory() {
    let cpu = boot(vec![]);
    assert_eq!(cpu.read_memory(0), 0xF0);
    assert_eq!(cpu.read_memory(79), 0x80);
    assert_eq!(cpu.read_memory(80), 0);
    assert_eq!(cpu.program_counter(), 0x200);
}

#[test]
fn program_loaded_at_start_offset() {
    let cpu = boot(vec![0x12, 0x34, 0x56]);
    assert_eq!(cpu.read_memory(0x200), 0x12);
    assert_eq!(cpu.read_memory(0x201), 0x34);
    assert_eq!(cpu.read_memory(0x202), 0x56);
    assert_eq!(cpu.read_memory(0x203), 0x00);
}

#[test]
fn add_with_carry_wraps_and_sets_flag() {
    let mut cpu = boot(vec![0x61, 0xFF, 0x62, 0x01, 0x81, 0x24]);
    run(&mut cpu, 3);
    assert_eq!(cpu.register(0x1), 0x00);
    assert_eq!(cpu.register(0xF), 1);
}

#[test]
fn add_without_carry_clears_flag() {
    let mut cpu = boot(vec![0x61, 0x10, 0x62, 0x01, 0x81, 0x24]);
    run(&mut cpu, 3);
    assert_eq!(cpu.register(0x1), 0x11);
    assert_eq!(cpu.register(0xF), 0);
}

#[test]
fn sub_with_borrow_wraps_and_clears_flag() {
    let mut cpu = boot(vec![0x61, 0x01, 0x62, 0x02, 0x81, 0x25]);
    run(&mut cpu, 3);
    assert_eq!(cpu.register(0x1), 0xFF);
    assert_eq!(cpu.register(0xF), 0);
}

#[test]
fn sub_without_borrow_sets_flag() {
    let mut cpu = boot(vec![0x61, 0x05, 0x62, 0x02, 0x81, 0x25]);
    run(&mut cpu, 3);
    assert_eq!(cpu.register(0x1), 0x03);
    assert_eq!(cpu.register(0xF), 1);
}

#[test]
fn logic_and_shift_group() {
    // v1 = 0b1100, v2 = 0b1010: OR, then AND, then XOR against fresh values.
    let mut cpu = boot(vec![0x61, 0x0C, 0x62, 0x0A, 0x81, 0x21]);
    run(&mut cpu, 3);
    assert_eq!(cpu.register(0x1), 0x0E);

    let mut cpu = boot(vec![0x61, 0x0C, 0x62, 0x0A, 0x81, 0x22]);
    run(&mut cpu, 3);
    assert_eq!(cpu.register(0x1), 0x08);

    let mut cpu = boot(vec![0x61, 0x0C, 0x62, 0x0A, 0x81, 0x23]);
    run(&mut cpu, 3);
    assert_eq!(cpu.register(0x1), 0x06);

    // Shift right: v1 = 5 -> 2, flag gets the dropped bit.
    let mut cpu = boot(vec![0x61, 0x05, 0x81, 0x06]);
    run(&mut cpu, 2);
    assert_eq!(cpu.register(0x1), 2);
    assert_eq!(cpu.register(0xF), 1);

    // Shift left: v1 = 0x81 -> 0x02, flag gets the dropped bit.
    let mut cpu = boot(vec![0x61, 0x81, 0x81, 0x0E]);
    run(&mut cpu, 2);
    assert_eq!(cpu.register(0x1), 0x02);
    assert_eq!(cpu.register(0xF), 1);

    // Reverse subtraction: v1 = v2 - v1 = 7 - 2 = 5, no borrow.
    let mut cpu = boot(vec![0x61, 0x02, 0x62, 0x07, 0x81, 0x27]);
    run(&mut cpu, 3);
    assert_eq!(cpu.register(0x1), 5);
    assert_eq!(cpu.register(0xF), 1);

    // Copy: v1 = v2.
    let mut cpu = boot(vec![0x62, 0x55, 0x81, 0x20]);
    run(&mut cpu, 2);
    assert_eq!(cpu.register(0x1), 0x55);
}

#[test]
fn call_and_return_round_trip() {
    let mut rom = vec![0u8; 0x102];
    rom[0] = 0x23; // 0x2300: call 0x300 from 0x200
    rom[1] = 0x00;
    rom[0x100] = 0x00; // 0x00EE at 0x300: return
    rom[0x101] = 0xEE;
    let mut cpu = boot(rom);
    cpu.step(0, 0).unwrap();
    assert_eq!(cpu.program_counter(), 0x300);
    assert_eq!(cpu.stack_pointer(), 1);
    cpu.step(0, 0).unwrap();
    assert_eq!(cpu.program_counter(), 0x202);
    assert_eq!(cpu.stack_pointer(), 0);
}

#[test]
fn jump_absolute_and_offset() {
    let mut cpu = boot(vec![0x13, 0x00]);
    cpu.step(0, 0).unwrap();
    assert_eq!(cpu.program_counter(), 0x300);

    let mut cpu = boot(vec![0x60, 0x05, 0xB3, 0x00]);
    run(&mut cpu, 2);
    assert_eq!(cpu.program_counter(), 0x305);
}

#[test]
fn skip_instructions() {
    // 0x3xkk skips when equal.
    let mut cpu = boot(vec![0x60, 0x07, 0x30, 0x07]);
    run(&mut cpu, 2);
    assert_eq!(cpu.program_counter(), 0x206);

    // 0x3xkk does not skip when unequal.
    let mut cpu = boot(vec![0x60, 0x07, 0x30, 0x08]);
    run(&mut cpu, 2);
    assert_eq!(cpu.program_counter(), 0x204);

    // 0x4xkk skips when unequal.
    let mut cpu = boot(vec![0x60, 0x07, 0x40, 0x08]);
    run(&mut cpu, 2);
    assert_eq!(cpu.program_counter(), 0x206);

    // 0x5xy0 skips when registers match.
    let mut cpu = boot(vec![0x60, 0x07, 0x61, 0x07, 0x50, 0x10]);
    run(&mut cpu, 3);
    assert_eq!(cpu.program_counter(), 0x208);

    // 0x9xy0 skips when registers differ.
    let mut cpu = boot(vec![0x60, 0x07, 0x61, 0x08, 0x90, 0x10]);
    run(&mut cpu, 3);
    assert_eq!(cpu.program_counter(), 0x208);
}

#[test]
fn random_is_masked_by_immediate() {
    // A zero mask pins the result whatever byte the generator drew.
    let mut cpu = boot(vec![0x65, 0x77, 0xC5, 0x00]);
    cpu.step(0, 0).unwrap();
    cpu.tick(0).unwrap();
    assert_eq!(cpu.register(0x5), 0);
}

#[test]
fn random_with_explicit_byte() {
    let mut cpu = boot(vec![0xC5, 0xFF]);
    cpu.step(0xAB, 0).unwrap();
    assert_eq!(cpu.register(0x5), 0xAB);
}

#[test]
fn draw_wraps_columns() {
    // v0 = 60, v1 = 0, i = sprite of one full row, draw 1 row at (60, 0).
    let mut cpu = boot(vec![0x60, 0x3C, 0x61, 0x00, 0xA2, 0x08, 0xD0, 0x11, 0xFF]);
    run(&mut cpu, 4);
    for x in [60usize, 61, 62, 63, 0, 1, 2, 3] {
        assert_eq!(cpu.display.pixel(x, 0), 1, "column {x}");
    }
    assert_eq!(cpu.display.pixel(4, 0), 0);
    assert_eq!(cpu.display.pixel(59, 0), 0);
    assert_eq!(cpu.display.pixel(60, 1), 0);
    assert_eq!(cpu.register(0xF), 0);
    assert!(cpu.display.needs_draw);
}

#[test]
fn draw_twice_restores_pixels_and_reports_collision() {
    let mut cpu = boot(vec![
        0x60, 0x3C, 0x61, 0x00, 0xA2, 0x0A, 0xD0, 0x11, 0xD0, 0x11, 0xFF,
    ]);
    run(&mut cpu, 4);
    assert_eq!(cpu.display.pixel(60, 0), 1);
    assert_eq!(cpu.register(0xF), 0);
    run(&mut cpu, 1);
    for x in [60usize, 61, 62, 63, 0, 1, 2, 3] {
        assert_eq!(cpu.display.pixel(x, 0), 0, "column {x}");
    }
    assert_eq!(cpu.register(0xF), 1);
}

#[test]
fn clear_screen() {
    let mut cpu = boot(vec![
        0x60, 0x00, 0x61, 0x00, 0xA2, 0x0A, 0xD0, 0x11, 0x00, 0xE0, 0x80,
    ]);
    run(&mut cpu, 4);
    assert_eq!(cpu.display.pixel(0, 0), 1);
    run(&mut cpu, 1);
    assert_eq!(cpu.display.pixel(0, 0), 0);
    assert!(cpu.display.needs_draw);
}

#[test]
fn timer_instructions_and_tick_order() {
    // 0xF015 loads the delay timer, which then ticks at the end of the
    // same cycle (activation double-decrement included); 0xF107 reads it
    // before the next cycle's tick.
    let mut cpu = boot(vec![0x60, 0x05, 0xF0, 0x15, 0xF1, 0x07]);
    run(&mut cpu, 2);
    assert_eq!(cpu.delay_timer_value(), 4);
    run(&mut cpu, 1);
    assert_eq!(cpu.register(0x1), 4);
    assert_eq!(cpu.delay_timer_value(), 3);
}

#[test]
fn sound_timer_signals_beep_on_activation() {
    let mut cpu = boot(vec![0x60, 0x05, 0xF0, 0x18, 0x60, 0x00]);
    let o = cpu.step(0, 0).unwrap();
    assert!(!o.beep);
    let o = cpu.step(0, 0).unwrap();
    assert!(o.beep);
    assert_eq!(cpu.sound_timer_value(), 4);
    let o = cpu.step(0, 0).unwrap();
    assert!(!o.beep);
}

#[test]
fn address_register_instructions() {
    let mut cpu = boot(vec![0xA1, 0x23]);
    cpu.step(0, 0).unwrap();
    assert_eq!(cpu.address_register(), 0x123);

    let mut cpu = boot(vec![0x60, 0x42, 0xF0, 0x1E]);
    run(&mut cpu, 2);
    assert_eq!(cpu.address_register(), 0x42);

    let mut cpu = boot(vec![0x60, 0x07, 0xF0, 0x29]);
    run(&mut cpu, 2);
    assert_eq!(cpu.address_register(), 35);
}

#[test]
fn bcd_store() {
    let mut cpu = boot(vec![0x60, 0xED, 0xA3, 0x00, 0xF0, 0x33]);
    run(&mut cpu, 3);
    assert_eq!(cpu.read_memory(0x300), 2);
    assert_eq!(cpu.read_memory(0x301), 3);
    assert_eq!(cpu.read_memory(0x302), 7);
}

#[test]
fn store_and_load_registers() {
    let mut cpu = boot(vec![
        0x60, 0x01, 0x61, 0x02, 0x62, 0x03, 0xA3, 0x00, 0xF2, 0x55, 0x60, 0x00, 0x61, 0x00,
        0x62, 0x00, 0xF2, 0x65,
    ]);
    run(&mut cpu, 5);
    assert_eq!(cpu.read_memory(0x300), 1);
    assert_eq!(cpu.read_memory(0x301), 2);
    assert_eq!(cpu.read_memory(0x302), 3);
    run(&mut cpu, 4);
    assert_eq!(cpu.register(0x0), 1);
    assert_eq!(cpu.register(0x1), 2);
    assert_eq!(cpu.register(0x2), 3);
}

#[test]
fn key_skip_instructions() {
    // Key 5 down: 0xEA9E skips.
    let mut cpu = boot(vec![0x6A, 0x05, 0xEA, 0x9E]);
    cpu.step(0, 0).unwrap();
    cpu.step(0, 1 << 5).unwrap();
    assert_eq!(cpu.program_counter(), 0x206);

    // Key 5 up: 0xEA9E does not skip.
    let mut cpu = boot(vec![0x6A, 0x05, 0xEA, 0x9E]);
    cpu.step(0, 0).unwrap();
    cpu.step(0, 0).unwrap();
    assert_eq!(cpu.program_counter(), 0x204);

    // Key 5 up: 0xEAA1 skips.
    let mut cpu = boot(vec![0x6A, 0x05, 0xEA, 0xA1]);
    cpu.step(0, 0).unwrap();
    cpu.step(0, 0).unwrap();
    assert_eq!(cpu.program_counter(), 0x206);
}

#[test]
fn wait_for_key_suspends_then_stores() {
    let mut cpu = boot(vec![0xF5, 0x0A]);
    let o = cpu.step(0, 0).unwrap();
    assert!(o.waiting_for_key);
    assert_eq!(cpu.program_counter(), 0x200);

    let o = cpu.step(0, (1 << 9) | (1 << 3)).unwrap();
    assert!(!o.waiting_for_key);
    assert_eq!(cpu.register(0x5), 3);
    assert_eq!(cpu.program_counter(), 0x202);
}

#[test]
fn unsupported_opcode_is_reported_and_harmless() {
    let mut cpu = boot(vec![0x5A, 0xB1]);
    let e = cpu.step(0, 0).unwrap_err();
    assert_eq!(e, Chip8Error::UnsupportedOpcode { opcode: 0x5AB1, pc: 0x200 });
    assert_eq!(cpu.program_counter(), 0x200);

    let mut cpu = boot(vec![0x00, 0xE1]);
    let e = cpu.step(0, 0).unwrap_err();
    assert_eq!(e, Chip8Error::UnsupportedOpcode { opcode: 0x00E1, pc: 0x200 });

    let mut cpu = boot(vec![0x80, 0x18]);
    let e = cpu.step(0, 0).unwrap_err();
    assert_eq!(e, Chip8Error::UnsupportedOpcode { opcode: 0x8018, pc: 0x200 });

    let mut cpu = boot(vec![0xE0, 0x00]);
    let e = cpu.step(0, 0).unwrap_err();
    assert_eq!(e, Chip8Error::UnsupportedOpcode { opcode: 0xE000, pc: 0x200 });

    let mut cpu = boot(vec![0xF0, 0x99]);
    let e = cpu.step(0, 0).unwrap_err();
    assert_eq!(e, Chip8Error::UnsupportedOpcode { opcode: 0xF099, pc: 0x200 });
}

#[test]
fn stack_underflow_on_return_without_call() {
    let mut cpu = boot(vec![0x00, 0xEE]);
    let e = cpu.step(0, 0).unwrap_err();
    assert_eq!(e, Chip8Error::StackUnderflow { pc: 0x200 });
    assert_eq!(cpu.program_counter(), 0x200);
}

#[test]
fn stack_overflow_after_sixteen_calls() {
    // 0x2200 at 0x200 calls itself forever.
    let mut cpu = boot(vec![0x22, 0x00]);
    for _ in 0..16 {
        cpu.step(0, 0).unwrap();
    }
    assert_eq!(cpu.stack_pointer(), 16);
    let e = cpu.step(0, 0).unwrap_err();
    assert_eq!(e, Chip8Error::StackOverflow { pc: 0x200 });
    assert_eq!(cpu.stack_pointer(), 16);
}

#[test]
fn memory_out_of_bounds_on_bcd() {
    let mut cpu = boot(vec![0xAF, 0xFF, 0xF0, 0x33]);
    cpu.step(0, 0).unwrap();
    let e = cpu.step(0, 0).unwrap_err();
    assert_eq!(e, Chip8Error::MemoryOutOfBounds { address: 0x1001 });
}

#[test]
fn memory_out_of_bounds_on_fetch() {
    let mut cpu = boot(vec![0x1F, 0xFF]);
    cpu.step(0, 0).unwrap();
    assert_eq!(cpu.program_counter(), 0xFFF);
    let e = cpu.step(0, 0).unwrap_err();
    assert_eq!(e, Chip8Error::MemoryOutOfBounds { address: 0xFFF });
}
