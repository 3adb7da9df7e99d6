use zx_wasm::bus::Bus;
use zx_wasm::display::Display;

fn pixel(d: &Display, x: usize, y: usize) -> (u8, u8, u8, u8) {
    let i = (y * 320 + x) * 4;
    (d.framebuffer[i], d.framebuffer[i + 1], d.framebuffer[i + 2], d.framebuffer[i + 3])
}

#[test]
fn new_display_is_white() {
    let d = Display::new();
    assert_eq!(d.framebuffer.len(), 320 * 240 * 4);
    assert!(d.framebuffer.iter().all(|b| *b == 0xFF));
    assert_eq!(d.frame_counter, 0);
}

#[test]
fn border_uses_border_colour() {
    let mut bus = Bus::new();
    bus.border_color = 2;
    let mut d = Display::new();
    d.render(&bus);
    assert_eq!(d.frame_counter, 1);
    assert_eq!(pixel(&d, 0, 0), (0xCD, 0x00, 0x00, 0xFF));
    assert_eq!(pixel(&d, 319, 239), (0xCD, 0x00, 0x00, 0xFF));
    assert_eq!(pixel(&d, 31, 100), (0xCD, 0x00, 0x00, 0xFF));
    assert_eq!(pixel(&d, 288, 100), (0xCD, 0x00, 0x00, 0xFF));
    // game area with cleared RAM: paper 0 = black
    assert_eq!(pixel(&d, 32, 24), (0x00, 0x00, 0x00, 0xFF));
}

#[test]
fn game_pixels_use_ink_paper_and_bright() {
    let mut bus = Bus::new();
    bus.write(0x5800, 0x47);  // bright, paper black, ink white
    bus.write(0x5801, 0x0A);  // paper blue, ink red
    bus.write(0x4000, 0x80);  // leftmost pixel of line 0 set
    bus.write(0x4001, 0x01);  // rightmost pixel of byte column 1
    let mut d = Display::new();
    d.render(&bus);
    assert_eq!(pixel(&d, 32, 24), (0xFF, 0xFF, 0xFF, 0xFF));
    assert_eq!(pixel(&d, 33, 24), (0x00, 0x00, 0x00, 0xFF));
    assert_eq!(pixel(&d, 47, 24), (0xCD, 0x00, 0x00, 0xFF));
    assert_eq!(pixel(&d, 46, 24), (0x00, 0x00, 0xCD, 0xFF));
}

#[test]
fn bitmap_rows_are_interleaved() {
    let mut bus = Bus::new();
    bus.write(0x5800, 0x07);  // cell (0,0): ink white
    bus.write(0x5820, 0x07);  // cell (0,1): ink white
    bus.write(0x5900, 0x07);  // cell (0,8): ink white
    bus.write(0x4100, 0x80);  // scanline 1
    bus.write(0x4020, 0x80);  // scanline 8
    bus.write(0x4800, 0x80);  // scanline 64
    let mut d = Display::new();
    d.render(&bus);
    assert_eq!(pixel(&d, 32, 24), (0x00, 0x00, 0x00, 0xFF));
    assert_eq!(pixel(&d, 32, 25), (0xCD, 0xCD, 0xCD, 0xFF));
    assert_eq!(pixel(&d, 32, 32), (0xCD, 0xCD, 0xCD, 0xFF));
    assert_eq!(pixel(&d, 32, 24 + 64), (0xCD, 0xCD, 0xCD, 0xFF));
}

#[test]
fn flash_swaps_every_16_frames() {
    let mut bus = Bus::new();
    bus.write(0x5800, 0x87);  // flash, paper black, ink white
    let mut d = Display::new();
    for _ in 0..15 {
        d.render(&bus);
    }
    assert_eq!(d.frame_counter, 15);
    assert_eq!(pixel(&d, 32, 24), (0x00, 0x00, 0x00, 0xFF));
    d.render(&bus);
    assert_eq!(d.frame_counter, 16);
    assert_eq!(pixel(&d, 32, 24), (0xCD, 0xCD, 0xCD, 0xFF));
    for _ in 0..16 {
        d.render(&bus);
    }
    assert_eq!(pixel(&d, 32, 24), (0x00, 0x00, 0x00, 0xFF));
}
