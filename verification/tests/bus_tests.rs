use zx_wasm::bus::Bus;
use zx_wasm::keyboard::ZxKey;

#[test]
fn new_bus_has_blank_rom_and_clear_ram() {
    let bus = Bus::new();
    assert_eq!(bus.read(0x0000), 0xFF);
    assert_eq!(bus.read(0x3FFF), 0xFF);
    assert_eq!(bus.read(0x4000), 0x00);
    assert_eq!(bus.read(0xFFFF), 0x00);
    assert_eq!(bus.border_color, 7);
    assert!(!bus.beeper);
    assert!(bus.beeper_log.is_empty());
}

#[test]
fn rom_writes_are_ignored() {
    let mut bus = Bus::new();
    bus.write(0x1234, 0x56);
    assert_eq!(bus.read(0x1234), 0xFF);
    bus.write(0x3FFF, 0x00);
    assert_eq!(bus.read(0x3FFF), 0xFF);
}

#[test]
fn ram_read_after_write() {
    let mut bus = Bus::new();
    bus.write(0x4000, 0x12);
    bus.write(0xFFFF, 0x34);
    bus.write(0x8000, 0xAB);
    assert_eq!(bus.read(0x4000), 0x12);
    assert_eq!(bus.read(0xFFFF), 0x34);
    assert_eq!(bus.read(0x8000), 0xAB);
    assert_eq!(bus.read(0x8001), 0x00);
}

#[test]
fn word_access_is_little_endian() {
    let mut bus = Bus::new();
    bus.write16(0x9000, 0xBEEF);
    assert_eq!(bus.read(0x9000), 0xEF);
    assert_eq!(bus.read(0x9001), 0xBE);
    assert_eq!(bus.read16(0x9000), 0xBEEF);
    // the high byte of a word at 0xFFFF wraps to ROM at 0x0000
    bus.write16(0xFFFF, 0x1122);
    assert_eq!(bus.read(0xFFFF), 0x22);
    assert_eq!(bus.read16(0xFFFF), 0xFF22);
}

#[test]
fn load_rom_copies_and_pads() {
    let mut bus = Bus::new();
    bus.load_rom(&[1, 2, 3]);
    assert_eq!(bus.read(0), 1);
    assert_eq!(bus.read(1), 2);
    assert_eq!(bus.read(2), 3);
    assert_eq!(bus.read(3), 0xFF);
    assert_eq!(bus.read(0x3FFF), 0xFF);
    let big = vec![0x42u8; 0x5000];
    bus.load_rom(&big);
    assert_eq!(bus.read(0x3FFF), 0x42);
    assert_eq!(bus.read(0x4000), 0x00);
}

#[test]
fn port_in_reads_keyboard_on_even_ports() {
    let mut bus = Bus::new();
    assert_eq!(bus.port_in(0xFEFE), 0xFF);
    assert_eq!(bus.port_in(0x00FF), 0xFF);
    bus.keyboard.press(ZxKey::Z);
    // row 0 selected: Z is bit 1, active low
    assert_eq!(bus.port_in(0xFEFE), 0xFD);
    // row 1 selected only: nothing pressed there
    assert_eq!(bus.port_in(0xFDFE), 0xFF);
    // all rows selected
    assert_eq!(bus.port_in(0x00FE), 0xFD);
    assert_eq!(bus.port_in(0xFEFF), 0xFF);
}

#[test]
fn port_out_sets_border_and_logs_beeper_changes() {
    let mut bus = Bus::new();
    bus.port_out(0x00FE, 0x12, 100);
    assert_eq!(bus.border_color, 2);
    assert!(bus.beeper);
    assert_eq!(bus.beeper_log, vec![(100u32, true)]);
    // same beeper level: no new entry
    bus.port_out(0x00FE, 0x15, 200);
    assert_eq!(bus.border_color, 5);
    assert_eq!(bus.beeper_log.len(), 1);
    bus.port_out(0x00FE, 0x07, 300);
    assert!(!bus.beeper);
    assert_eq!(bus.beeper_log, vec![(100u32, true), (300u32, false)]);
    // odd port: ignored
    bus.port_out(0x00FF, 0x10, 400);
    assert_eq!(bus.border_color, 7);
    assert!(!bus.beeper);
    bus.clear_beeper_log();
    assert!(bus.beeper_log.is_empty());
}

#[test]
fn vram_byte_reads_ram_only() {
    let mut bus = Bus::new();
    bus.write(0x5800, 0x38);
    assert_eq!(bus.vram_byte(0x5800), 0x38);
    assert_eq!(bus.vram_byte(0x0000), 0xFF);
    bus.load_rom(&[0x00]);
    assert_eq!(bus.vram_byte(0x0000), 0xFF);
}
