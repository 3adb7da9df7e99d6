use zx_wasm::ZxSpectrum;

const SNA_LEN: usize = 49179;

/// A snapshot with interrupts off, SP = 0xFF00 holding `pc`, border `border`, `code` at `pc`.
fn snapshot(pc: u16, border: u8, code: &[u8]) -> Vec<u8> {
    let mut d = vec![0u8; SNA_LEN];
    d[23] = 0x00;  // SP low
    d[24] = 0xFF;  // SP high
    d[25] = 1;  // IM 1
    d[26] = border;
    let sp_off = 27 + (0xFF00 - 0x4000);
    d[sp_off] = (pc & 0xFF) as u8;
    d[sp_off + 1] = (pc >> 8) as u8;
    let code_off = 27 + (pc as usize - 0x4000);
    d[code_off..code_off + code.len()].copy_from_slice(code);
    d
}

fn pixel(fb: &[u8], x: usize, y: usize) -> (u8, u8, u8, u8) {
    let i = (y * 320 + x) * 4;
    (fb[i], fb[i + 1], fb[i + 2], fb[i + 3])
}

#[test]
fn screen_size() {
    assert_eq!(ZxSpectrum::screen_width(), 320);
    assert_eq!(ZxSpectrum::screen_height(), 240);
    let zx = ZxSpectrum::new();
    assert_eq!(zx.get_framebuffer().len(), 320 * 240 * 4);
    assert_eq!(zx.frame_count(), 0);
}

#[test]
fn short_snapshot_is_rejected() {
    let mut zx = ZxSpectrum::new();
    assert!(!zx.load_sna(&vec![0u8; SNA_LEN - 1]));
    assert!(!zx.load_sna(&[]));
    assert!(zx.load_sna(&snapshot(0x8000, 0, &[0x76])));
}

#[test]
fn snapshot_sets_memory_border_and_pc() {
    let mut zx = ZxSpectrum::new();
    let mut d = snapshot(0x8000, 0x0A, &[0x76]);  // HALT; border byte keeps bits 2:0 only
    d[27 + (0x5800 - 0x4000)] = 0x38;  // cell (0,0): paper white, ink black
    d[27] = 0x80;  // leftmost pixel of the first scanline
    assert!(zx.load_sna(&d));
    zx.step_frame();
    assert_eq!(zx.frame_count(), 1);
    let fb = zx.get_framebuffer();
    assert_eq!(pixel(&fb, 0, 0), (0xCD, 0x00, 0x00, 0xFF));
    assert_eq!(pixel(&fb, 32, 24), (0x00, 0x00, 0x00, 0xFF));
    assert_eq!(pixel(&fb, 33, 24), (0xCD, 0xCD, 0xCD, 0xFF));
}

#[test]
fn each_frame_produces_882_samples() {
    let mut zx = ZxSpectrum::new();
    assert!(zx.load_sna(&snapshot(0x8000, 7, &[0x76])));
    zx.step_frame();
    zx.step_frame();
    let levels = zx.take_audio_levels();
    assert_eq!(levels.len(), 2 * 882);
    assert!(levels.iter().all(|l| !*l));
    assert!(zx.take_audio_levels().is_empty());
}

#[test]
fn beeper_transitions_become_samples() {
    // LD A,0x10 ; OUT (0xFE),A ; LD B,0 ; DJNZ -2 ; XOR A ; OUT (0xFE),A ; HALT
    let code = [0x3E, 0x10, 0xD3, 0xFE, 0x06, 0x00, 0x10, 0xFE, 0xAF, 0xD3, 0xFE, 0x76];
    let mut zx = ZxSpectrum::new();
    assert!(zx.load_sna(&snapshot(0x8000, 7, &code)));
    zx.step_frame();
    let levels = zx.take_audio_levels();
    assert_eq!(levels.len(), 882);
    // high from T=7 to T=3352; sample s stands for T = s * 3500000 / 44100
    assert!(!levels[0]);
    assert!(levels[1..43].iter().all(|l| *l));
    assert!(levels[43..].iter().all(|l| !*l));
}

#[test]
fn odd_transition_count_keeps_the_edge() {
    // LD A,0x10 ; OUT (0xFE),A ; HALT: one transition, low to high, at T=7
    let code = [0x3E, 0x10, 0xD3, 0xFE, 0x76];
    let mut zx = ZxSpectrum::new();
    assert!(zx.load_sna(&snapshot(0x8000, 7, &code)));
    zx.step_frame();
    let levels = zx.take_audio_levels();
    assert_eq!(levels.len(), 882);
    // sample 0 stands for T=0, before the transition: the level the frame began with
    assert!(!levels[0]);
    assert!(levels[1..].iter().all(|l| *l));
    // the next frame begins high and logs nothing
    zx.step_frame();
    assert!(zx.take_audio_levels().iter().all(|l| *l));
}

#[test]
fn idle_ula_port_reads_all_ones() {
    // LD A,0x00 ; IN A,(0xFE) ; LD (0x4000),A ; HALT
    let code = [0x3E, 0x00, 0xDB, 0xFE, 0x32, 0x00, 0x40, 0x76];
    let mut d = snapshot(0x8000, 7, &code);
    d[27 + (0x5800 - 0x4000)] = 0x38;  // paper white, ink black
    let mut zx = ZxSpectrum::new();
    assert!(zx.load_sna(&d));
    zx.step_frame();
    // 0xFF: every pixel of the byte is ink, the EAR bit (6) included
    let fb = zx.get_framebuffer();
    for x in 32..40 {
        assert_eq!(pixel(&fb, x, 24), (0x00, 0x00, 0x00, 0xFF));
    }
}

#[test]
fn keys_are_seen_by_the_program() {
    // loop: LD A,0xFE ; IN A,(0xFE) ; LD (0x4000),A ; JR loop
    let code = [0x3E, 0xFE, 0xDB, 0xFE, 0x32, 0x00, 0x40, 0x18, 0xF7];
    let mut d = snapshot(0x8000, 7, &code);
    d[27 + (0x5800 - 0x4000)] = 0x38;  // paper white, ink black
    let mut zx = ZxSpectrum::new();
    assert!(zx.load_sna(&d));
    zx.step_frame();
    // 0xFF: bit 0 (CAPS SHIFT, rightmost pixel of the byte) high: ink
    assert_eq!(pixel(&zx.get_framebuffer(), 39, 24), (0x00, 0x00, 0x00, 0xFF));
    zx.key_down("ShiftLeft");
    zx.step_frame();
    assert_eq!(pixel(&zx.get_framebuffer(), 39, 24), (0xCD, 0xCD, 0xCD, 0xFF));
    zx.key_up("ShiftLeft");
    zx.step_frame();
    assert_eq!(pixel(&zx.get_framebuffer(), 39, 24), (0x00, 0x00, 0x00, 0xFF));
    // a cursor key holds CAPS SHIFT too
    zx.key_down("ArrowLeft");
    zx.step_frame();
    assert_eq!(pixel(&zx.get_framebuffer(), 39, 24), (0xCD, 0xCD, 0xCD, 0xFF));
    zx.key_up("ArrowLeft");
    zx.key_down("NoSuchKey");
    zx.step_frame();
    assert_eq!(pixel(&zx.get_framebuffer(), 39, 24), (0x00, 0x00, 0x00, 0xFF));
}

#[test]
fn interrupt_fires_each_frame() {
    // ROM: 0x0038: INC (HL) ; EI ; RET
    let mut rom = vec![0u8; 0x4000];
    rom[0x38] = 0x34;
    rom[0x39] = 0xFB;
    rom[0x3A] = 0xC9;
    let mut zx = ZxSpectrum::new();
    zx.load_rom(&rom);
    // LD HL,0x4000 ; EI ; HALT ; NOP ; JR -4 (back to HALT)
    let code = [0x21, 0x00, 0x40, 0xFB, 0x76, 0x00, 0x18, 0xFC];
    let mut d = snapshot(0x8000, 7, &code);
    d[27 + (0x5800 - 0x4000)] = 0x38;  // paper white, ink black
    assert!(zx.load_sna(&d));
    // the first frame enables interrupts; each later frame's interrupt adds 1 to (0x4000)
    for _ in 0..4 {
        zx.step_frame();
    }
    let fb = zx.get_framebuffer();
    assert_eq!(pixel(&fb, 37, 24), (0xCD, 0xCD, 0xCD, 0xFF));
    assert_eq!(pixel(&fb, 38, 24), (0x00, 0x00, 0x00, 0xFF));
    assert_eq!(pixel(&fb, 39, 24), (0x00, 0x00, 0x00, 0xFF));
}

#[test]
fn load_rom_resets_the_machine() {
    let mut zx = ZxSpectrum::new();
    // ROM: LD A,2 ; OUT (0xFE),A ; HALT
    zx.load_rom(&[0x3E, 0x02, 0xD3, 0xFE, 0x76]);
    zx.step_frame();
    let fb = zx.get_framebuffer();
    assert_eq!(pixel(&fb, 0, 0), (0xCD, 0x00, 0x00, 0xFF));
    zx.load_rom(&[0x76]);
    zx.step_frame();
    let fb = zx.get_framebuffer();
    // reset sets the border back to white
    assert_eq!(pixel(&fb, 0, 0), (0xCD, 0xCD, 0xCD, 0xFF));
}

#[test]
fn snapshot_runs_without_a_rom() {
    // LD A,3 ; OUT (0xFE),A ; HALT
    let d = snapshot(0x8000, 7, &[0x3E, 0x03, 0xD3, 0xFE, 0x76]);
    let mut blank = ZxSpectrum::new();
    let mut with_rom = ZxSpectrum::new();
    with_rom.load_rom(&vec![0x12u8; 0x4000]);
    assert!(blank.load_sna(&d));
    assert!(with_rom.load_sna(&d));
    blank.step_frame();
    with_rom.step_frame();
    assert_eq!(blank.get_framebuffer(), with_rom.get_framebuffer());
    assert_eq!(pixel(&blank.get_framebuffer(), 0, 0), (0xCD, 0x00, 0xCD, 0xFF));
}

#[test]
fn key_up_after_key_down_restores_the_keyboard() {
    // loop: LD A,0x00 ; IN A,(0xFE) ; LD (0x4000),A ; JR loop  (all half-rows selected)
    let code = [0x3E, 0x00, 0xDB, 0xFE, 0x32, 0x00, 0x40, 0x18, 0xF7];
    let mut d = snapshot(0x8000, 7, &code);
    d[27 + (0x5800 - 0x4000)] = 0x38;
    let mut zx = ZxSpectrum::new();
    assert!(zx.load_sna(&d));
    zx.step_frame();
    let before = zx.get_framebuffer();
    for code in ["ArrowUp", "KeyQ", "Digit3", "Enter", "ControlLeft"] {
        zx.key_down(code);
        zx.step_frame();
        assert_ne!(zx.get_framebuffer()[..320 * 4 * 25], before[..320 * 4 * 25], "{}", code);
        zx.key_up(code);
        zx.step_frame();
        assert_eq!(zx.get_framebuffer()[..320 * 4 * 25], before[..320 * 4 * 25], "{}", code);
    }
}
