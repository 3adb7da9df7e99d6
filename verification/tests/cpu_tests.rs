use zx_wasm::bus::Bus;
use zx_wasm::cpu::Cpu;

/// A bus with `code` in RAM at 0x8000 and a CPU about to run it, interrupts off, flags clear.
fn machine(code: &[u8]) -> (Cpu, Bus) {
    let mut bus = Bus::new();
    for (i, b) in code.iter().enumerate() {
        bus.write(0x8000 + i as u16, *b);
    }
    let mut cpu = Cpu::new();
    cpu.pc = 0x8000;
    cpu.sp = 0xC000;
    cpu.f = 0;
    (cpu, bus)
}

#[test]
fn power_on_state() {
    let cpu = Cpu::new();
    assert_eq!(cpu.af(), 0xFFFF);
    assert_eq!(cpu.bc(), 0xFFFF);
    assert_eq!(cpu.de(), 0xFFFF);
    assert_eq!(cpu.hl(), 0xFFFF);
    assert_eq!(cpu.sp, 0xFFFF);
    assert_eq!(cpu.pc, 0x0000);
    assert_eq!(cpu.i, 0x3F);
    assert_eq!(cpu.r, 0);
    assert_eq!(cpu.im, 1);
    assert!(!cpu.iff1 && !cpu.iff2 && !cpu.halted && !cpu.ei_pending);
    assert_eq!(cpu.t, 0);
}

#[test]
fn register_pairs_join_bytes() {
    let mut cpu = Cpu::new();
    cpu.a = 0x12;
    cpu.f = 0x34;
    cpu.b = 0x56;
    cpu.c = 0x78;
    cpu.d = 0x9A;
    cpu.e = 0xBC;
    cpu.h = 0xDE;
    cpu.l = 0xF0;
    cpu.ix = 0xA1B2;
    cpu.iy = 0xC3D4;
    assert_eq!(cpu.af(), 0x1234);
    assert_eq!(cpu.bc(), 0x5678);
    assert_eq!(cpu.de(), 0x9ABC);
    assert_eq!(cpu.hl(), 0xDEF0);
    assert_eq!((cpu.ixh(), cpu.ixl()), (0xA1, 0xB2));
    assert_eq!((cpu.iyh(), cpu.iyl()), (0xC3, 0xD4));
}

#[test]
fn add_sets_half_carry() {
    // LD A,0x0F ; ADD A,0x01
    let (mut cpu, mut bus) = machine(&[0x3E, 0x0F, 0xC6, 0x01]);
    assert_eq!(cpu.step(&mut bus), 7);
    assert_eq!(cpu.step(&mut bus), 7);
    assert_eq!(cpu.a, 0x10);
    assert_eq!(cpu.f, 0x10);
    assert_eq!(cpu.pc, 0x8004);
    assert_eq!(cpu.t, 14);
    // R counts every byte fetched
    assert_eq!(cpu.r, 4);
}

#[test]
fn add_signed_overflow() {
    // LD A,0x7F ; ADD A,0x01
    let (mut cpu, mut bus) = machine(&[0x3E, 0x7F, 0xC6, 0x01]);
    cpu.step(&mut bus);
    cpu.step(&mut bus);
    assert_eq!(cpu.a, 0x80);
    assert_eq!(cpu.f, 0x94);  // S H P/V
}

#[test]
fn adc_with_carry_out() {
    // SCF ; LD A,0xFF ; ADC A,0x00
    let (mut cpu, mut bus) = machine(&[0x37, 0x3E, 0xFF, 0xCE, 0x00]);
    cpu.step(&mut bus);
    cpu.step(&mut bus);
    cpu.step(&mut bus);
    assert_eq!(cpu.a, 0x00);
    assert_eq!(cpu.f, 0x51);  // Z H C
}

#[test]
fn sub_with_borrow_out() {
    // LD A,0x00 ; SUB 0x01
    let (mut cpu, mut bus) = machine(&[0x3E, 0x00, 0xD6, 0x01]);
    cpu.step(&mut bus);
    cpu.step(&mut bus);
    assert_eq!(cpu.a, 0xFF);
    assert_eq!(cpu.f, 0xBB);  // S Y H X N C
}

#[test]
fn cp_keeps_a_and_takes_xy_from_operand() {
    // LD A,0x10 ; CP 0x28
    let (mut cpu, mut bus) = machine(&[0x3E, 0x10, 0xFE, 0x28]);
    cpu.step(&mut bus);
    cpu.step(&mut bus);
    assert_eq!(cpu.a, 0x10);
    assert_eq!(cpu.f, 0xBB);
}

#[test]
fn logic_ops_set_parity() {
    // LD A,0xF0 ; AND 0x3C ; OR 0x01 ; XOR 0x31
    let (mut cpu, mut bus) = machine(&[0x3E, 0xF0, 0xE6, 0x3C, 0xF6, 0x01, 0xEE, 0x31]);
    cpu.step(&mut bus);
    cpu.step(&mut bus);
    assert_eq!(cpu.a, 0x30);
    assert_eq!(cpu.f, 0x34);  // Y H P
    cpu.step(&mut bus);
    assert_eq!(cpu.a, 0x31);
    assert_eq!(cpu.f, 0x20);  // Y, odd parity
    cpu.step(&mut bus);
    assert_eq!(cpu.a, 0x00);
    assert_eq!(cpu.f, 0x44);  // Z P
}

#[test]
fn daa_after_bcd_add() {
    // LD A,0x15 ; ADD A,0x27 ; DAA
    let (mut cpu, mut bus) = machine(&[0x3E, 0x15, 0xC6, 0x27, 0x27]);
    cpu.step(&mut bus);
    cpu.step(&mut bus);
    assert_eq!(cpu.a, 0x3C);
    assert_eq!(cpu.step(&mut bus), 4);
    assert_eq!(cpu.a, 0x42);
    assert_eq!(cpu.f, 0x14);  // H P
}

#[test]
fn daa_after_bcd_add_with_carry() {
    // LD A,0x99 ; ADD A,0x01 ; DAA  -> 00 with carry
    let (mut cpu, mut bus) = machine(&[0x3E, 0x99, 0xC6, 0x01, 0x27]);
    cpu.step(&mut bus);
    cpu.step(&mut bus);
    cpu.step(&mut bus);
    assert_eq!(cpu.a, 0x00);
    assert_eq!(cpu.f & 0x41, 0x41);  // Z C
}

#[test]
fn daa_after_bcd_subtract() {
    // LD A,0x42 ; SUB 0x15 ; DAA  -> 27
    let (mut cpu, mut bus) = machine(&[0x3E, 0x42, 0xD6, 0x15, 0x27]);
    cpu.step(&mut bus);
    cpu.step(&mut bus);
    cpu.step(&mut bus);
    assert_eq!(cpu.a, 0x27);
    assert_eq!(cpu.f & 0x03, 0x02);  // N kept, no carry
}

#[test]
fn inc_dec_keep_carry() {
    // SCF ; LD B,0xFF ; INC B ; DEC B
    let (mut cpu, mut bus) = machine(&[0x37, 0x06, 0xFF, 0x04, 0x05]);
    cpu.step(&mut bus);
    cpu.step(&mut bus);
    assert_eq!(cpu.step(&mut bus), 4);
    assert_eq!(cpu.b, 0x00);
    assert_eq!(cpu.f, 0x51);  // Z H C
    cpu.step(&mut bus);
    assert_eq!(cpu.b, 0xFF);
    assert_eq!(cpu.f, 0xBB);  // S Y H X N C
}

#[test]
fn inc_memory_operand() {
    // LD HL,0x9000 ; INC (HL)
    let (mut cpu, mut bus) = machine(&[0x21, 0x00, 0x90, 0x34]);
    bus.write(0x9000, 0x7F);
    cpu.step(&mut bus);
    assert_eq!(cpu.step(&mut bus), 11);
    assert_eq!(bus.read(0x9000), 0x80);
    assert_eq!(cpu.f & 0x84, 0x84);  // S and overflow
}

#[test]
fn push_then_pop() {
    // LD BC,0x1234 ; PUSH BC ; POP DE
    let (mut cpu, mut bus) = machine(&[0x01, 0x34, 0x12, 0xC5, 0xD1]);
    assert_eq!(cpu.step(&mut bus), 10);
    assert_eq!(cpu.step(&mut bus), 11);
    assert_eq!(cpu.sp, 0xBFFE);
    assert_eq!(bus.read(0xBFFE), 0x34);
    assert_eq!(bus.read(0xBFFF), 0x12);
    assert_eq!(cpu.step(&mut bus), 10);
    assert_eq!(cpu.de(), 0x1234);
    assert_eq!(cpu.sp, 0xC000);
}

#[test]
fn call_and_return() {
    // CALL 0x8010 ... 0x8010: RET
    let mut code = vec![0u8; 0x11];
    code[0] = 0xCD;
    code[1] = 0x10;
    code[2] = 0x80;
    code[0x10] = 0xC9;
    let (mut cpu, mut bus) = machine(&code);
    assert_eq!(cpu.step(&mut bus), 17);
    assert_eq!(cpu.pc, 0x8010);
    assert_eq!(bus.read16(cpu.sp), 0x8003);
    assert_eq!(cpu.step(&mut bus), 10);
    assert_eq!(cpu.pc, 0x8003);
    assert_eq!(cpu.sp, 0xC000);
}

#[test]
fn conditional_jumps_and_returns() {
    // XOR A (Z set) ; JR NZ,+2 (not taken) ; JR Z,+1 (taken) ; NOP ; RET Z with 0x9000 on stack
    let (mut cpu, mut bus) = machine(&[0xAF, 0x20, 0x02, 0x28, 0x01, 0x00, 0xC8]);
    bus.write16(0xBFFE, 0x9000);
    cpu.sp = 0xBFFE;
    cpu.step(&mut bus);
    assert_eq!(cpu.step(&mut bus), 7);
    assert_eq!(cpu.pc, 0x8003);
    assert_eq!(cpu.step(&mut bus), 12);
    assert_eq!(cpu.pc, 0x8006);
    assert_eq!(cpu.step(&mut bus), 11);
    assert_eq!(cpu.pc, 0x9000);
}

#[test]
fn djnz_counts_down() {
    // LD B,3 ; DJNZ -2
    let (mut cpu, mut bus) = machine(&[0x06, 0x03, 0x10, 0xFE]);
    cpu.step(&mut bus);
    assert_eq!(cpu.step(&mut bus), 13);
    assert_eq!(cpu.pc, 0x8002);
    assert_eq!(cpu.step(&mut bus), 13);
    assert_eq!(cpu.step(&mut bus), 8);
    assert_eq!(cpu.b, 0);
    assert_eq!(cpu.pc, 0x8004);
}

#[test]
fn rst_pushes_and_jumps() {
    let (mut cpu, mut bus) = machine(&[0xEF]);  // RST 28h
    assert_eq!(cpu.step(&mut bus), 11);
    assert_eq!(cpu.pc, 0x0028);
    assert_eq!(bus.read16(cpu.sp), 0x8001);
}

#[test]
fn exchanges() {
    // EX AF,AF' ; EXX ; EX DE,HL
    let (mut cpu, mut bus) = machine(&[0x08, 0xD9, 0xEB]);
    cpu.a = 1;
    cpu.f = 2;
    cpu.a2 = 3;
    cpu.f2 = 4;
    cpu.b = 5;
    cpu.b2 = 6;
    cpu.d = 0x11;
    cpu.e = 0x22;
    cpu.h = 0x33;
    cpu.l = 0x44;
    cpu.step(&mut bus);
    assert_eq!((cpu.a, cpu.f, cpu.a2, cpu.f2), (3, 4, 1, 2));
    cpu.step(&mut bus);
    assert_eq!((cpu.b, cpu.b2), (6, 5));
    // after EXX the alternate set holds the old main registers
    assert_eq!((cpu.d2, cpu.e2, cpu.h2, cpu.l2), (0x11, 0x22, 0x33, 0x44));
    cpu.d = 0x11;
    cpu.e = 0x22;
    cpu.h = 0x33;
    cpu.l = 0x44;
    cpu.step(&mut bus);
    assert_eq!(cpu.de(), 0x3344);
    assert_eq!(cpu.hl(), 0x1122);
}

#[test]
fn ldir_copies_a_block() {
    // LD HL,0x9000 ; LD DE,0xA000 ; LD BC,3 ; LDIR
    let (mut cpu, mut bus) = machine(&[0x21, 0x00, 0x90, 0x11, 0x00, 0xA0, 0x01, 0x03, 0x00, 0xED, 0xB0]);
    bus.write(0x9000, 1);
    bus.write(0x9001, 2);
    bus.write(0x9002, 3);
    cpu.step(&mut bus);
    cpu.step(&mut bus);
    cpu.step(&mut bus);
    assert_eq!(cpu.step(&mut bus), 21);
    assert_eq!(cpu.pc, 0x8009);
    assert_eq!(cpu.step(&mut bus), 21);
    assert_eq!(cpu.step(&mut bus), 16);
    assert_eq!(cpu.pc, 0x800B);
    assert_eq!((bus.read(0xA000), bus.read(0xA001), bus.read(0xA002)), (1, 2, 3));
    assert_eq!(cpu.bc(), 0);
    assert_eq!(cpu.hl(), 0x9003);
    assert_eq!(cpu.de(), 0xA003);
    assert_eq!(cpu.f & 0x04, 0);
}

#[test]
fn cpir_stops_at_match() {
    // LD HL,0x9000 ; LD BC,5 ; LD A,7 ; CPIR
    let (mut cpu, mut bus) = machine(&[0x21, 0x00, 0x90, 0x01, 0x05, 0x00, 0x3E, 0x07, 0xED, 0xB1]);
    bus.write(0x9001, 7);
    cpu.step(&mut bus);
    cpu.step(&mut bus);
    cpu.step(&mut bus);
    assert_eq!(cpu.step(&mut bus), 21);
    assert_eq!(cpu.step(&mut bus), 16);
    assert_eq!(cpu.hl(), 0x9002);
    assert_eq!(cpu.bc(), 3);
    assert_eq!(cpu.f & 0x40, 0x40);
}

#[test]
fn halt_idles_until_interrupt() {
    // EI ; HALT
    let (mut cpu, mut bus) = machine(&[0xFB, 0x76]);
    cpu.step(&mut bus);
    assert!(cpu.ei_pending);
    assert_eq!(cpu.step(&mut bus), 4);
    assert!(cpu.halted);
    assert!(cpu.iff1);
    assert_eq!(cpu.pc, 0x8002);
    let t = cpu.t;
    assert_eq!(cpu.step(&mut bus), 4);
    assert_eq!(cpu.pc, 0x8002);
    assert_eq!(cpu.t, t + 4);
    assert_eq!(cpu.interrupt(&mut bus), 13);
    assert!(!cpu.halted);
    assert!(!cpu.iff1 && !cpu.iff2);
    assert_eq!(cpu.pc, 0x0038);
    // the handler returns to the instruction after the HALT
    assert_eq!(bus.read16(cpu.sp), 0x8002);
}

#[test]
fn ei_takes_effect_after_next_instruction() {
    // EI ; NOP
    let (mut cpu, mut bus) = machine(&[0xFB, 0x00]);
    cpu.step(&mut bus);
    assert_eq!(cpu.interrupt(&mut bus), 0);
    assert_eq!(cpu.pc, 0x8001);
    cpu.step(&mut bus);
    assert!(cpu.iff1);
    assert_eq!(cpu.interrupt(&mut bus), 13);
}

#[test]
fn di_blocks_interrupts() {
    // EI ; DI
    let (mut cpu, mut bus) = machine(&[0xFB, 0xF3]);
    cpu.step(&mut bus);
    cpu.step(&mut bus);
    assert!(!cpu.iff1);
    assert_eq!(cpu.interrupt(&mut bus), 0);
}

#[test]
fn im2_interrupt_uses_vector_table() {
    // IM 2 ; EI ; NOP
    let (mut cpu, mut bus) = machine(&[0xED, 0x5E, 0xFB, 0x00]);
    cpu.i = 0x90;
    bus.write16(0x90FF, 0x1234);
    assert_eq!(cpu.step(&mut bus), 8);
    assert_eq!(cpu.im, 2);
    cpu.step(&mut bus);
    cpu.step(&mut bus);
    assert_eq!(cpu.interrupt(&mut bus), 19);
    assert_eq!(cpu.pc, 0x1234);
    assert_eq!(bus.read16(cpu.sp), 0x8004);
}

#[test]
fn cb_bit_set_res_and_shifts() {
    // LD A,0x80 ; BIT 7,A ; SET 0,A ; RES 7,A ; SLA A ; SLL B
    let (mut cpu, mut bus) = machine(&[0x3E, 0x80, 0xCB, 0x7F, 0xCB, 0xC7, 0xCB, 0xBF, 0xCB, 0x27, 0xCB, 0x30]);
    cpu.step(&mut bus);
    assert_eq!(cpu.step(&mut bus), 8);
    assert_eq!(cpu.f & 0xC0, 0x80);  // S set, Z clear
    cpu.step(&mut bus);
    assert_eq!(cpu.a, 0x81);
    cpu.step(&mut bus);
    assert_eq!(cpu.a, 0x01);
    cpu.step(&mut bus);
    assert_eq!(cpu.a, 0x02);
    assert_eq!(cpu.f & 0x01, 0);
    cpu.b = 0x80;
    cpu.step(&mut bus);
    assert_eq!(cpu.b, 0x01);
    assert_eq!(cpu.f & 0x01, 0x01);
}

#[test]
fn cb_on_memory_takes_longer() {
    // LD HL,0x9000 ; RLC (HL) ; BIT 0,(HL)
    let (mut cpu, mut bus) = machine(&[0x21, 0x00, 0x90, 0xCB, 0x06, 0xCB, 0x46]);
    bus.write(0x9000, 0x81);
    cpu.step(&mut bus);
    assert_eq!(cpu.step(&mut bus), 15);
    assert_eq!(bus.read(0x9000), 0x03);
    assert_eq!(cpu.step(&mut bus), 12);
    assert_eq!(cpu.f & 0x40, 0);
}

#[test]
fn accumulator_rotates() {
    // LD A,0x81 ; RLCA ; RRA
    let (mut cpu, mut bus) = machine(&[0x3E, 0x81, 0x07, 0x1F]);
    cpu.step(&mut bus);
    cpu.step(&mut bus);
    assert_eq!(cpu.a, 0x03);
    assert_eq!(cpu.f & 0x01, 1);
    cpu.step(&mut bus);
    assert_eq!(cpu.a, 0x81);
    assert_eq!(cpu.f & 0x01, 1);
}

#[test]
fn indexed_loads_and_stores() {
    // LD IX,0x9000 ; LD (IX+5),0x42 ; LD A,(IX+5) ; LD (IX-1),A ; LD B,(IX-1)
    let (mut cpu, mut bus) = machine(&[
        0xDD, 0x21, 0x00, 0x90, 0xDD, 0x36, 0x05, 0x42, 0xDD, 0x7E, 0x05, 0xDD, 0x77, 0xFF, 0xDD, 0x46, 0xFF,
    ]);
    assert_eq!(cpu.step(&mut bus), 14);
    assert_eq!(cpu.ix, 0x9000);
    assert_eq!(cpu.step(&mut bus), 19);
    assert_eq!(bus.read(0x9005), 0x42);
    assert_eq!(cpu.step(&mut bus), 19);
    assert_eq!(cpu.a, 0x42);
    cpu.step(&mut bus);
    assert_eq!(bus.read(0x8FFF), 0x42);
    cpu.step(&mut bus);
    assert_eq!(cpu.b, 0x42);
    assert_eq!(cpu.pc, 0x8011);
}

#[test]
fn undocumented_index_halves() {
    // LD IYH,0x12 ; LD IYL,0x34 ; LD A,IYH ; ADD A,IYL ; INC IXH
    let (mut cpu, mut bus) = machine(&[0xFD, 0x26, 0x12, 0xFD, 0x2E, 0x34, 0xFD, 0x7C, 0xFD, 0x85, 0xDD, 0x24]);
    cpu.ix = 0x00FF;
    assert_eq!(cpu.step(&mut bus), 11);
    cpu.step(&mut bus);
    assert_eq!(cpu.iy, 0x1234);
    assert_eq!(cpu.step(&mut bus), 8);
    assert_eq!(cpu.a, 0x12);
    cpu.step(&mut bus);
    assert_eq!(cpu.a, 0x46);
    cpu.step(&mut bus);
    assert_eq!(cpu.ix, 0x01FF);
}

#[test]
fn indexed_bit_operations() {
    // LD IY,0x9000 ; SET 3,(IY+2) ; RLC (IY+2),B ; BIT 4,(IY+2)
    let (mut cpu, mut bus) = machine(&[
        0xFD, 0x21, 0x00, 0x90, 0xFD, 0xCB, 0x02, 0xDE, 0xFD, 0xCB, 0x02, 0x00, 0xFD, 0xCB, 0x02, 0x66,
    ]);
    cpu.step(&mut bus);
    assert_eq!(cpu.step(&mut bus), 23);
    assert_eq!(bus.read(0x9002), 0x08);
    assert_eq!(cpu.step(&mut bus), 23);
    assert_eq!(bus.read(0x9002), 0x10);
    assert_eq!(cpu.b, 0x10);
    assert_eq!(cpu.step(&mut bus), 20);
    assert_eq!(cpu.f & 0x40, 0);
}

#[test]
fn index_prefix_without_indexed_form_is_a_nop() {
    // DD 00
    let (mut cpu, mut bus) = machine(&[0xDD, 0x00]);
    assert_eq!(cpu.step(&mut bus), 8);
    assert_eq!(cpu.pc, 0x8002);
    assert_eq!(cpu.r, 3);
}

#[test]
fn add_ix_sets_carry() {
    // LD IX,0xFFFF ; LD BC,1 ; ADD IX,BC
    let (mut cpu, mut bus) = machine(&[0xDD, 0x21, 0xFF, 0xFF, 0x01, 0x01, 0x00, 0xDD, 0x09]);
    cpu.step(&mut bus);
    cpu.step(&mut bus);
    assert_eq!(cpu.step(&mut bus), 15);
    assert_eq!(cpu.ix, 0x0000);
    assert_eq!(cpu.f & 0x13, 0x11);  // H C, N clear
}

#[test]
fn ed_neg_and_16_bit_arithmetic() {
    // LD A,1 ; NEG ; LD HL,0x0000 ; LD DE,0x0001 ; SCF ; CCF ; SBC HL,DE
    let (mut cpu, mut bus) = machine(&[0x3E, 0x01, 0xED, 0x44, 0x21, 0x00, 0x00, 0x11, 0x01, 0x00, 0x37, 0x3F, 0xED, 0x52]);
    cpu.step(&mut bus);
    assert_eq!(cpu.step(&mut bus), 8);
    assert_eq!(cpu.a, 0xFF);
    assert_eq!(cpu.f, 0xBB);
    cpu.step(&mut bus);
    cpu.step(&mut bus);
    cpu.step(&mut bus);
    cpu.step(&mut bus);
    assert_eq!(cpu.step(&mut bus), 15);
    assert_eq!(cpu.hl(), 0xFFFF);
    assert_eq!(cpu.f & 0x83, 0x83);  // S N C
}

#[test]
fn ed_word_loads() {
    // LD BC,0x1234 ; LD (0x9000),BC ; LD SP,(0x9000)
    let (mut cpu, mut bus) = machine(&[0x01, 0x34, 0x12, 0xED, 0x43, 0x00, 0x90, 0xED, 0x7B, 0x00, 0x90]);
    cpu.step(&mut bus);
    assert_eq!(cpu.step(&mut bus), 20);
    assert_eq!(bus.read16(0x9000), 0x1234);
    assert_eq!(cpu.step(&mut bus), 20);
    assert_eq!(cpu.sp, 0x1234);
}

#[test]
fn ld_a_i_copies_iff2() {
    // EI ; NOP ; LD A,I
    let (mut cpu, mut bus) = machine(&[0xFB, 0x00, 0xED, 0x57]);
    cpu.i = 0x80;
    cpu.step(&mut bus);
    cpu.step(&mut bus);
    assert_eq!(cpu.step(&mut bus), 9);
    assert_eq!(cpu.a, 0x80);
    assert_eq!(cpu.f, 0x84);  // S P/V
}

#[test]
fn rld_rotates_digits() {
    // LD HL,0x9000 ; LD A,0x12 ; RLD
    let (mut cpu, mut bus) = machine(&[0x21, 0x00, 0x90, 0x3E, 0x12, 0xED, 0x6F]);
    bus.write(0x9000, 0x34);
    cpu.step(&mut bus);
    cpu.step(&mut bus);
    assert_eq!(cpu.step(&mut bus), 18);
    assert_eq!(cpu.a, 0x13);
    assert_eq!(bus.read(0x9000), 0x42);
}

#[test]
fn undefined_ed_opcode_is_a_nop() {
    let (mut cpu, mut bus) = machine(&[0xED, 0x00]);
    assert_eq!(cpu.step(&mut bus), 8);
    assert_eq!(cpu.pc, 0x8002);
    assert_eq!(cpu.r, 3);
}

#[test]
fn out_and_in_ports() {
    // LD A,0x12 ; OUT (0xFE),A ; LD A,0xFE ; IN A,(0xFE) ; LD BC,0xFEFE ; OUT (C),0 ; IN D,(C)
    let (mut cpu, mut bus) = machine(&[0x3E, 0x12, 0xD3, 0xFE, 0x3E, 0xFE, 0xDB, 0xFE, 0x01, 0xFE, 0xFE, 0xED, 0x71, 0xED, 0x50]);
    cpu.step(&mut bus);
    assert_eq!(cpu.step(&mut bus), 11);
    assert_eq!(bus.border_color, 2);
    assert!(bus.beeper);
    assert_eq!(bus.beeper_log, vec![(7u32, true)]);
    cpu.step(&mut bus);
    assert_eq!(cpu.step(&mut bus), 11);
    assert_eq!(cpu.a, 0xFF);
    cpu.step(&mut bus);
    assert_eq!(cpu.step(&mut bus), 12);
    assert_eq!(bus.border_color, 0);
    assert!(!bus.beeper);
    assert_eq!(cpu.step(&mut bus), 12);
    assert_eq!(cpu.d, 0xFF);
}

#[test]
fn t_counts_t_states() {
    // NOP ; LD BC,nn ; HALT
    let (mut cpu, mut bus) = machine(&[0x00, 0x01, 0x00, 0x00, 0x76]);
    let mut total = 0;
    for _ in 0..4 {
        total += cpu.step(&mut bus);
    }
    assert_eq!(total, 4 + 10 + 4 + 4);
    assert_eq!(cpu.t, total);
}

#[test]
fn r_keeps_bit_7() {
    let (mut cpu, mut bus) = machine(&[0x00]);
    cpu.r = 0xFF;
    cpu.step(&mut bus);
    assert_eq!(cpu.r, 0x80);
}

#[test]
fn rlc_then_rrc_restores() {
    // RLC B ; RRC B ; RL C ; RR C
    let (mut cpu, mut bus) = machine(&[0xCB, 0x00, 0xCB, 0x08, 0xCB, 0x11, 0xCB, 0x19]);
    cpu.b = 0xA5;
    cpu.c = 0x96;
    cpu.step(&mut bus);
    assert_eq!(cpu.b, 0x4B);
    cpu.step(&mut bus);
    assert_eq!(cpu.b, 0xA5);
    let carry = cpu.f & 1;
    cpu.step(&mut bus);
    assert_eq!(cpu.c, 0x2C | carry);
    cpu.step(&mut bus);
    assert_eq!(cpu.c, 0x96);
    assert_eq!(cpu.f & 1, carry);
}

#[test]
fn add_hl_carries_out_of_16_bits() {
    // LD HL,0x8000 ; LD DE,0x9001 ; ADD HL,DE
    let (mut cpu, mut bus) = machine(&[0x21, 0x00, 0x80, 0x11, 0x01, 0x90, 0x19]);
    cpu.step(&mut bus);
    cpu.step(&mut bus);
    assert_eq!(cpu.step(&mut bus), 11);
    assert_eq!(cpu.hl(), 0x1001);
    assert_eq!(cpu.f & 0x01, 0x01);
    assert_eq!(cpu.f & 0x02, 0x00);
}

/// The BCD byte for 0..=99.
fn bcd(n: u32) -> u8 {
    ((n / 10) * 16 + n % 10) as u8
}

#[test]
fn daa_gives_decimal_sums_and_differences() {
    for a in 0..100u32 {
        for b in 0..100u32 {
            for carry in 0..2u32 {
                // LD A,a ; ADC A,b ; DAA with the carry set beforehand
                let (mut cpu, mut bus) = machine(&[0x3E, bcd(a), 0xCE, bcd(b), 0x27]);
                cpu.f = carry as u8;
                cpu.step(&mut bus);
                cpu.step(&mut bus);
                cpu.step(&mut bus);
                let sum = a + b + carry;
                assert_eq!(cpu.a, bcd(sum % 100), "{} + {} + {}", a, b, carry);
                assert_eq!(cpu.f & 1 == 1, sum >= 100);

                // LD A,a ; SBC A,b ; DAA
                let (mut cpu, mut bus) = machine(&[0x3E, bcd(a), 0xDE, bcd(b), 0x27]);
                cpu.f = carry as u8;
                cpu.step(&mut bus);
                cpu.step(&mut bus);
                cpu.step(&mut bus);
                let diff = (a + 200 - b - carry) % 100;
                assert_eq!(cpu.a, bcd(diff), "{} - {} - {}", a, b, carry);
                assert_eq!(cpu.f & 1 == 1, a < b + carry);
            }
        }
    }
}

#[test]
fn fd_instructions_mirror_dd_with_iy() {
    // LD IX,0x9000 / INC (IX+2) / LD A,(IX+2) / ADD IX,BC, then the same with FD
    let dd = [0xDD, 0x21, 0x00, 0x90, 0xDD, 0x34, 0x02, 0xDD, 0x7E, 0x02, 0xDD, 0x09];
    let fd = [0xFD, 0x21, 0x00, 0x90, 0xFD, 0x34, 0x02, 0xFD, 0x7E, 0x02, 0xFD, 0x09];
    let (mut c1, mut b1) = machine(&dd);
    let (mut c2, mut b2) = machine(&fd);
    c1.ix = 0x1111;
    c1.iy = 0x2222;
    c2.ix = 0x2222;
    c2.iy = 0x1111;
    c1.b = 0;
    c1.c = 5;
    c2.b = 0;
    c2.c = 5;
    for _ in 0..4 {
        assert_eq!(c1.step(&mut b1), c2.step(&mut b2));
        assert_eq!((c1.ix, c1.iy), (c2.iy, c2.ix));
        assert_eq!((c1.a, c1.f, c1.pc, c1.sp), (c2.a, c2.f, c2.pc, c2.sp));
    }
    assert_eq!(c1.ix, 0x9005);
    assert_eq!(c2.iy, 0x9005);
    assert_eq!(b1.read(0x9002), 1);
    assert_eq!(b2.read(0x9002), 1);
    assert_eq!(c1.a, 1);
}

#[test]
fn push_writes_two_bytes_below_sp_and_pop_restores_it() {
    // PUSH BC ; POP DE
    let (mut cpu, mut bus) = machine(&[0xC5, 0xD1]);
    cpu.b = 0x12;
    cpu.c = 0x34;
    bus.write(0xBFFD, 0x77);
    cpu.step(&mut bus);
    assert_eq!(cpu.sp, 0xBFFE);
    assert_eq!(bus.read(0xBFFF), 0x12);
    assert_eq!(bus.read(0xBFFE), 0x34);
    assert_eq!(bus.read(0xBFFD), 0x77);
    cpu.step(&mut bus);
    assert_eq!(cpu.sp, 0xC000);
    assert_eq!(cpu.de(), 0x1234);
}
