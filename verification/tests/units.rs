use chip8::cartridge::Cartridge;
use chip8::display::Display;
use chip8::opcode::Opcode;
use chip8::timer::Timer;

#[test]
fn opcode_accessors() {
    let op = Opcode::new(0xABCD);
    assert_eq!(op.get_nibble(0), 0xA);
    assert_eq!(op.get_nibble(1), 0xB);
    assert_eq!(op.get_nibble(2), 0xC);
    assert_eq!(op.get_nibble(3), 0xD);
    assert_eq!(op.get_lowest_byte(), 0xCD);
    assert_eq!(op.get_address(), 0xBCD);
    assert_eq!(op.get_xy_register_numbers(), (0xB, 0xC));
}

#[test]
fn opcode_accessors_edges() {
    let op = Opcode::new(0x0000);
    assert_eq!(op.get_nibble(0), 0x0);
    assert_eq!(op.get_address(), 0x000);
    let op = Opcode::new(0xFFFF);
    assert_eq!(op.get_nibble(3), 0xF);
    assert_eq!(op.get_lowest_byte(), 0xFF);
    assert_eq!(op.get_address(), 0xFFF);
}

#[test]
fn timer_activation() {
    let mut t = Timer::new_no_callback();
    assert_eq!(t.value, 0);
    assert!(!t.is_active());

    t.value = 5;
    let fired = t.tick();
    assert!(fired);
    assert_eq!(t.value, 4);
    assert!(t.is_active());

    let mut fired_again = false;
    for _ in 0..5 {
        fired_again = fired_again || t.tick();
    }
    assert!(!fired_again);
    assert_eq!(t.value, 0);
    assert!(!t.is_active());
}

#[test]
fn timer_idle_stays_idle() {
    let mut t = Timer::new();
    for _ in 0..3 {
        assert!(!t.tick());
        assert_eq!(t.value, 0);
        assert!(!t.is_active());
    }
}

#[test]
fn timer_forced_zero_deactivates() {
    let mut t = Timer::new_no_callback();
    t.value = 3;
    t.tick();
    assert!(t.is_active());
    t.value = 0;
    let fired = t.tick();
    assert!(!fired);
    assert_eq!(t.value, 0);
    assert!(!t.is_active());
}

#[test]
fn cartridge_keeps_data_and_pads() {
    let data = vec![1u8, 2, 3, 4, 5];
    let c = Cartridge::new(&data);
    assert_eq!(c.size, 5);
    assert_eq!(c.buffer.len(), 0xE00);
    assert_eq!(&c.buffer[..5], &[1, 2, 3, 4, 5]);
    assert_eq!(c.buffer[5], 0);
    assert_eq!(c.buffer[0xDFF], 0);
}

#[test]
fn cartridge_truncates_oversized_image() {
    let data = vec![7u8; 0x1000];
    let c = Cartridge::new(&data);
    assert_eq!(c.size, 0xE00);
    assert_eq!(c.buffer[0xDFF], 7);
}

#[test]
fn display_starts_blank_and_clears() {
    let mut d = Display::new();
    assert!(!d.needs_draw);
    assert_eq!(d.pixel(0, 0), 0);
    assert_eq!(d.pixel(63, 31), 0);
    d.vram[5] = 1;
    d.clear();
    assert!(d.needs_draw);
    assert_eq!(d.pixel(5, 0), 0);
    d.update();
    assert!(!d.needs_draw);
}
