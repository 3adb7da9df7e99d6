//! The instruction set of the Z80 as this machine runs it: what one
//! instruction does to the registers and the bus, and how many T-states it takes.
//!
//! Opcodes are decoded into the fields x (bits 7:6), y (bits 5:3), z (bits 2:0),
//! p (bits 5:4) and q (bit 3). Register tables: r = B C D E H L (HL) A,
//! rp = BC DE HL SP, rp2 = BC DE HL AF, cc = NZ Z NC C PO PE P M,
//! alu = ADD ADC SUB SBC AND XOR OR CP.
use vstd::prelude::*;
use crate::bus::BusState;
use crate::cpu::{
    Cpu, wrap8, wrap16, pair, hi_byte, lo_byte, bc_of, de_of, hl_of, with_hl, with_de, with_bc, with_f, flags_of,
    next_r, fetched, disp, cond_holds, push, stack_top, popped, reg8, set_reg8, set_reg8_cpu, reg16, set_reg16,
    reg16_af, set_reg16_af,
};
use crate::cpu::alu::{
    result_flags, even_parity, alu_spec, add_hl16_spec, add_ix16_spec, add_iy16_spec, sbc_hl16_spec, adc_hl16_spec,
    inc8_spec, dec8_spec, rot_spec, rota_spec, daa_spec, bit_test_spec, sub8_spec,
};
use crate::flags::{Flags, bit1, bit3, bit5, pack};

verus! {

/// What an instruction leaves: the processor, the bus and the T-states taken.
pub type Outcome = (Cpu, BusState, u32);

/// `c` after fetching two bytes.
pub open spec fn fetched2(c: Cpu) -> Cpu {
    fetched(fetched(c))
}

/// `c` after a prefix byte: PC advances and R counts up twice
/// (once for the fetch, once for the prefixed opcode).
pub open spec fn fetched_prefixed(c: Cpu) -> Cpu {
    Cpu { r: next_r(fetched(c).r), ..fetched(c) }
}

/// Relative jump by the signed displacement `e`.
pub open spec fn jump_rel(c: Cpu, e: int) -> Cpu {
    Cpu { pc: wrap16(c.pc + e), ..c }
}

/// Return: PC taken off the stack.
pub open spec fn ret(c: Cpu, m: BusState) -> Cpu {
    Cpu { pc: stack_top(c, m), ..popped(c) }
}

/// Call: the return address `c.pc` is pushed, then PC jumps to `target`.
pub open spec fn call(c: Cpu, m: BusState, target: u16) -> (Cpu, BusState) {
    let (c2, m2) = push(c, m, c.pc);
    (Cpu { pc: target, ..c2 }, m2)
}

/// EX AF,AF'.
pub open spec fn ex_af(c: Cpu) -> Cpu {
    Cpu { a: c.a2, f: c.f2, a2: c.a, f2: c.f, ..c }
}

/// EXX: BC, DE, HL exchanged with BC', DE', HL'.
pub open spec fn exx(c: Cpu) -> Cpu {
    Cpu { b: c.b2, c: c.c2, d: c.d2, e: c.e2, h: c.h2, l: c.l2, b2: c.b, c2: c.c, d2: c.d, e2: c.e, h2: c.h, l2: c.l, ..c }
}

/// The unprefixed accumulator and flag operations, x=0 z=7:
/// RLCA RRCA RLA RRA DAA CPL SCF CCF.
pub open spec fn misc_a(c: Cpu, y: int) -> Cpu {
    let fl = flags_of(c);
    if y < 4 {
        rota_spec(c, y)
    } else if y == 4 {
        daa_spec(c)
    } else if y == 5 {
        Cpu { a: !c.a, f: pack(Flags { h: true, n: true, ..fl }), ..c }
    } else if y == 6 {
        with_f(c, Flags { s: fl.s, z: fl.z, y: bit5(c.a as int), h: false, x: bit3(c.a as int), p: fl.p, n: false, c: true })
    } else {
        with_f(c, Flags { s: fl.s, z: fl.z, y: bit5(c.a as int), h: fl.c, x: bit3(c.a as int), p: fl.p, n: false, c: !fl.c })
    }
}

/// Unprefixed opcodes with x=0.
pub open spec fn main_x0(c: Cpu, m: BusState, y: int, z: int) -> Outcome {
    let p = y / 2;
    let q = y % 2;
    if z == 0 {
        if y == 0 {
            (c, m, 4)
        } else if y == 1 {
            (ex_af(c), m, 4)
        } else {
            let e = disp(m.read(c.pc));
            let c1 = fetched(c);
            if y == 2 {
                // DJNZ
                let c2 = Cpu { b: wrap8(c1.b - 1), ..c1 };
                if c2.b != 0 { (jump_rel(c2, e), m, 13) } else { (c2, m, 8) }
            } else if y == 3 {
                (jump_rel(c1, e), m, 12)
            } else if cond_holds(c1, y - 4) {
                (jump_rel(c1, e), m, 12)
            } else {
                (c1, m, 7)
            }
        }
    } else if z == 1 {
        if q == 0 {
            (set_reg16(fetched2(c), p, m.read16(c.pc)), m, 10)
        } else {
            (add_hl16_spec(c, reg16(c, p)), m, 11)
        }
    } else if z == 2 {
        let nn = m.read16(c.pc);
        let c2 = fetched2(c);
        if q == 0 {
            if p == 0 { (c, m.write(bc_of(c), c.a), 7) }
            else if p == 1 { (c, m.write(de_of(c), c.a), 7) }
            else if p == 2 { (c2, m.write16(nn, hl_of(c2)), 16) }
            else { (c2, m.write(nn, c.a), 13) }
        } else {
            if p == 0 { (Cpu { a: m.read(bc_of(c)), ..c }, m, 7) }
            else if p == 1 { (Cpu { a: m.read(de_of(c)), ..c }, m, 7) }
            else if p == 2 { (with_hl(c2, m.read16(nn)), m, 16) }
            else { (Cpu { a: m.read(nn), ..c2 }, m, 13) }
        }
    } else if z == 3 {
        if q == 0 {
            (set_reg16(c, p, wrap16(reg16(c, p) + 1)), m, 6)
        } else {
            (set_reg16(c, p, wrap16(reg16(c, p) - 1)), m, 6)
        }
    } else if z == 4 || z == 5 {
        let v = reg8(c, m, y);
        let (c2, res) = if z == 4 { inc8_spec(c, v) } else { dec8_spec(c, v) };
        let (c3, m3) = set_reg8(c2, m, y, res);
        (c3, m3, if y == 6 { 11 } else { 4 })
    } else if z == 6 {
        let (c2, m2) = set_reg8(fetched(c), m, y, m.read(c.pc));
        (c2, m2, if y == 6 { 10 } else { 7 })
    } else {
        (misc_a(c, y), m, 4)
    }
}

/// LD r[y],r[z] (x=1 except HALT).
pub open spec fn ld_r_r(c: Cpu, m: BusState, y: int, z: int) -> Outcome {
    let (c2, m2) = set_reg8(c, m, y, reg8(c, m, z));
    (c2, m2, if y == 6 || z == 6 { 7 } else { 4 })
}

/// Unprefixed opcodes with x=3.
pub open spec fn main_x3(c: Cpu, m: BusState, y: int, z: int) -> Outcome {
    let p = y / 2;
    let q = y % 2;
    if z == 0 {
        if cond_holds(c, y) { (ret(c, m), m, 11) } else { (c, m, 5) }
    } else if z == 1 {
        if q == 0 { (set_reg16_af(popped(c), p, stack_top(c, m)), m, 10) }
        else if p == 0 { (ret(c, m), m, 10) }
        else if p == 1 { (exx(c), m, 4) }
        else if p == 2 { (Cpu { pc: hl_of(c), ..c }, m, 4) }
        else { (Cpu { sp: hl_of(c), ..c }, m, 6) }
    } else if z == 2 {
        let c2 = fetched2(c);
        (if cond_holds(c2, y) { Cpu { pc: m.read16(c.pc), ..c2 } } else { c2 }, m, 10)
    } else if z == 3 {
        if y == 0 {
            (Cpu { pc: m.read16(c.pc), ..fetched2(c) }, m, 10)
        } else if y == 1 {
            exec_cb(c, m)
        } else if y == 2 {
            (fetched(c), m.port_out(pair(c.a, m.read(c.pc)), c.a, c.t), 11)
        } else if y == 3 {
            (Cpu { a: m.port_in(pair(c.a, m.read(c.pc))), ..fetched(c) }, m, 11)
        } else if y == 4 {
            (with_hl(c, m.read16(c.sp)), m.write16(c.sp, hl_of(c)), 19)
        } else if y == 5 {
            (with_hl(with_de(c, hl_of(c)), de_of(c)), m, 4)
        } else if y == 6 {
            (Cpu { iff1: false, iff2: false, ..c }, m, 4)
        } else {
            (Cpu { ei_pending: true, ..c }, m, 4)
        }
    } else if z == 4 {
        let c2 = fetched2(c);
        if cond_holds(c2, y) {
            let (c3, m3) = call(c2, m, m.read16(c.pc));
            (c3, m3, 17)
        } else {
            (c2, m, 10)
        }
    } else if z == 5 {
        if q == 0 {
            let (c2, m2) = push(c, m, reg16_af(c, p));
            (c2, m2, 11)
        } else if p == 0 {
            let (c3, m3) = call(fetched2(c), m, m.read16(c.pc));
            (c3, m3, 17)
        } else if p == 1 {
            exec_index(c, m, false)
        } else if p == 2 {
            exec_ed(c, m)
        } else {
            exec_index(c, m, true)
        }
    } else if z == 6 {
        (alu_spec(fetched(c), y, m.read(c.pc)), m, 7)
    } else {
        let (c2, m2) = call(c, m, (y * 8) as u16);
        (c2, m2, 11)
    }
}

/// One unprefixed instruction with opcode `op`, already fetched (`c` is the state after the fetch).
#[verifier::opaque]
pub open spec fn exec_main(c: Cpu, m: BusState, op: u8) -> Outcome {
    let x = op / 64;
    let y = (op / 8) % 8;
    let z = op % 8;
    if x == 0 {
        main_x0(c, m, y as int, z as int)
    } else if x == 1 {
        if y == 6 && z == 6 { (Cpu { halted: true, ..c }, m, 4) } else { ld_r_r(c, m, y as int, z as int) }
    } else if x == 2 {
        (alu_spec(c, y as int, reg8(c, m, z as int)), m, if z == 6 { 7 } else { 4 })
    } else {
        main_x3(c, m, y as int, z as int)
    }
}

/// The value of RES (row 16-23) or SET (row 24-31) of bit `row % 8` on `v`.
pub open spec fn res_set(row: int, v: u8) -> u8 {
    if row < 24 { v & !(1u8 << ((row - 16) as u8)) } else { v | (1u8 << ((row - 24) as u8)) }
}

/// A CB-prefixed instruction; `c` is the state after the CB prefix byte.
pub open spec fn exec_cb(c: Cpu, m: BusState) -> Outcome {
    let op = m.read(c.pc);
    let c1 = fetched(c);
    let reg = (op % 8) as int;
    let row = (op / 8) as int;
    let v = reg8(c1, m, reg);
    if 8 <= row < 16 {
        (bit_test_spec(c1, (row - 8) as u8, v), m, if reg == 6 { 12 } else { 8 })
    } else {
        let (c2, res) = if row < 8 { rot_spec(c1, row, v) } else { (c1, res_set(row, v)) };
        let (c3, m3) = set_reg8(c2, m, reg, res);
        (c3, m3, if reg == 6 { 15 } else { 8 })
    }
}

/// The index register IX (`iy` false) or IY (`iy` true).
pub open spec fn idx_reg(c: Cpu, iy: bool) -> u16 {
    if iy { c.iy } else { c.ix }
}

pub open spec fn with_idx(c: Cpu, iy: bool, v: u16) -> Cpu {
    if iy { Cpu { iy: v, ..c } } else { Cpu { ix: v, ..c } }
}

/// ADD IX,rr / ADD IY,rr.
pub open spec fn add_idx16_spec(c: Cpu, iy: bool, rr: u16) -> Cpu {
    if iy { add_iy16_spec(c, rr) } else { add_ix16_spec(c, rr) }
}

/// The high (`z` = 4) or low (`z` = 5) byte of the index register.
pub open spec fn idx_half(c: Cpu, iy: bool, z: int) -> u8 {
    if z == 4 { hi_byte(idx_reg(c, iy)) } else { lo_byte(idx_reg(c, iy)) }
}

/// The index register with its high (`y` = 4) or low (`y` = 5) byte replaced by `v`.
pub open spec fn with_idx_half(c: Cpu, iy: bool, y: int, v: u8) -> Cpu {
    let w = idx_reg(c, iy);
    with_idx(c, iy, if y == 4 { pair(v, lo_byte(w)) } else { pair(hi_byte(w), v) })
}

/// The operand address IX+d / IY+d for the displacement byte at PC.
pub open spec fn idx_addr(c: Cpu, m: BusState, iy: bool) -> u16 {
    wrap16(idx_reg(c, iy) + disp(m.read(c.pc)))
}

/// DD/FD-prefixed opcodes outside 40–BF; `c1` is the state after the opcode fetch.
pub open spec fn idx_other(c1: Cpu, m: BusState, iy: bool, op: u8) -> Outcome {
    let ir = idx_reg(c1, iy);
    if op == 0x09 || op == 0x19 || op == 0x29 || op == 0x39 {
        // ADD IX,rr with rr = BC DE IX SP
        let p = (op / 16) as int;
        (add_idx16_spec(c1, iy, if p == 2 { ir } else { reg16(c1, p) }), m, 15)
    } else if op == 0x21 {
        (with_idx(fetched2(c1), iy, m.read16(c1.pc)), m, 14)
    } else if op == 0x22 {
        (fetched2(c1), m.write16(m.read16(c1.pc), ir), 20)
    } else if op == 0x2A {
        (with_idx(fetched2(c1), iy, m.read16(m.read16(c1.pc))), m, 20)
    } else if op == 0x23 {
        (with_idx(c1, iy, wrap16(ir + 1)), m, 10)
    } else if op == 0x2B {
        (with_idx(c1, iy, wrap16(ir - 1)), m, 10)
    } else if op == 0x24 || op == 0x25 || op == 0x2C || op == 0x2D {
        // INC/DEC IXH, IXL
        let half = if op < 0x28 { 4int } else { 5int };
        let v = idx_half(c1, iy, half);
        let (c2, res) = if op % 2 == 0 { inc8_spec(c1, v) } else { dec8_spec(c1, v) };
        (with_idx_half(c2, iy, half, res), m, 8)
    } else if op == 0x26 || op == 0x2E {
        (with_idx_half(fetched(c1), iy, if op == 0x26 { 4 } else { 5 }, m.read(c1.pc)), m, 11)
    } else if op == 0x34 || op == 0x35 {
        let a = idx_addr(c1, m, iy);
        let (c3, res) = if op == 0x34 { inc8_spec(fetched(c1), m.read(a)) } else { dec8_spec(fetched(c1), m.read(a)) };
        (c3, m.write(a, res), 23)
    } else if op == 0x36 {
        (fetched2(c1), m.write(idx_addr(c1, m, iy), m.read(fetched(c1).pc)), 19)
    } else if op == 0xE1 {
        (with_idx(popped(c1), iy, stack_top(c1, m)), m, 14)
    } else if op == 0xE3 {
        (with_idx(c1, iy, m.read16(c1.sp)), m.write16(c1.sp, ir), 23)
    } else if op == 0xE5 {
        let (c2, m2) = push(c1, m, ir);
        (c2, m2, 15)
    } else if op == 0xE9 {
        (Cpu { pc: ir, ..c1 }, m, 8)
    } else if op == 0xF9 {
        (Cpu { sp: ir, ..c1 }, m, 10)
    } else if op == 0xCB {
        exec_index_cb(c1, m, iy)
    } else {
        (c1, m, 8)
    }
}

/// DD/FD-prefixed loads, 40–7F.
pub open spec fn idx_x1(c1: Cpu, m: BusState, iy: bool, y: int, z: int) -> Outcome {
    if z == 6 && y != 6 {
        // LD r,(IX+d)
        (set_reg8_cpu(fetched(c1), y, m.read(idx_addr(c1, m, iy))), m, 19)
    } else if y == 6 && z != 6 {
        // LD (IX+d),r
        (fetched(c1), m.write(idx_addr(c1, m, iy), reg8(c1, m, z)), 19)
    } else if (y == 4 || y == 5) && z != 6 {
        // LD IXH/IXL,r with H and L read as IXH and IXL
        let v = if z == 4 || z == 5 { idx_half(c1, iy, z) } else { reg8(c1, m, z) };
        (with_idx_half(c1, iy, y, v), m, 8)
    } else if (z == 4 || z == 5) && y != 6 {
        // LD r,IXH/IXL
        (set_reg8_cpu(c1, y, idx_half(c1, iy, z)), m, 8)
    } else {
        (c1, m, 8)
    }
}

/// DD/FD-prefixed arithmetic, 80–BF, on IXH, IXL and (IX+d).
pub open spec fn idx_x2(c1: Cpu, m: BusState, iy: bool, y: int, z: int) -> Outcome {
    if z == 4 || z == 5 {
        (alu_spec(c1, y, idx_half(c1, iy, z)), m, 8)
    } else if z == 6 {
        (alu_spec(fetched(c1), y, m.read(idx_addr(c1, m, iy))), m, 19)
    } else {
        (c1, m, 8)
    }
}

/// A DD- (`iy` false) or FD- (`iy` true) prefixed instruction; `c` is the state after the prefix byte.
/// Opcodes without an indexed form take 8 T-states and do nothing else.
pub open spec fn exec_index(c: Cpu, m: BusState, iy: bool) -> Outcome {
    let op = m.read(c.pc);
    let c1 = fetched_prefixed(c);
    let y = ((op / 8) % 8) as int;
    let z = (op % 8) as int;
    if op / 64 == 1 {
        idx_x1(c1, m, iy, y, z)
    } else if op / 64 == 2 {
        idx_x2(c1, m, iy, y, z)
    } else {
        idx_other(c1, m, iy, op)
    }
}

/// A DDCB- or FDCB-prefixed instruction; `c` is the state after the CB byte.
/// Rotates, RES and SET store the result in memory and, for r other than (HL), in r as well.
pub open spec fn exec_index_cb(c: Cpu, m: BusState, iy: bool) -> Outcome {
    let addr = idx_addr(c, m, iy);
    let c2 = fetched2(c);
    let op = m.read(fetched(c).pc);
    let reg = (op % 8) as int;
    let row = (op / 8) as int;
    let v = m.read(addr);
    if 8 <= row < 16 {
        (bit_test_spec(c2, (row - 8) as u8, v), m, 20)
    } else {
        let (c3, res) = if row < 8 { rot_spec(c2, row, v) } else { (c2, res_set(row, v)) };
        (set_reg8_cpu(c3, reg, res), m.write(addr, res), 23)
    }
}

/// LDI (`dir` = 1) / LDD (`dir` = -1): copy (HL) to (DE), step HL and DE, decrement BC.
pub open spec fn ld_block(c: Cpu, m: BusState, dir: int) -> (Cpu, BusState) {
    let fl = flags_of(c);
    let v = m.read(hl_of(c));
    let n = wrap8(v + c.a);
    let bc = wrap16(bc_of(c) - 1);
    let c2 = with_bc(with_de(with_hl(c, wrap16(hl_of(c) + dir)), wrap16(de_of(c) + dir)), bc);
    (
        with_f(c2, Flags { s: fl.s, z: fl.z, y: bit5(n as int), h: false, x: bit1(n as int), p: bc != 0, n: false, c: fl.c }),
        m.write(de_of(c), v),
    )
}

/// CPI (`dir` = 1) / CPD (`dir` = -1): compare A with (HL), step HL, decrement BC.
pub open spec fn cp_block(c: Cpu, m: BusState, dir: int) -> Cpu {
    let fl = flags_of(c);
    let v = m.read(hl_of(c));
    let res = wrap8(c.a - v);
    let half = c.a % 16 < v % 16;
    let bc = wrap16(bc_of(c) - 1);
    let n = wrap8(res - (if half { 1int } else { 0 }));
    with_f(
        with_bc(with_hl(c, wrap16(hl_of(c) + dir)), bc),
        Flags { s: res >= 128, z: res == 0, y: bit5(n as int), h: half, x: bit1(n as int), p: bc != 0, n: true, c: fl.c },
    )
}

/// Flags after IN r,(C), LD A,I, RRD and similar: S, Z, Y, X from `v`, H and N clear, carry kept.
pub open spec fn in_flags(c: Cpu, v: u8, p: bool) -> Flags {
    result_flags(v, false, p, false, flags_of(c).c)
}

/// ED-prefixed opcodes with x=1, z=7.
pub open spec fn ed_x1_z7(c1: Cpu, m: BusState, y: int) -> Outcome {
    if y == 0 {
        (Cpu { i: c1.a, ..c1 }, m, 9)
    } else if y == 1 {
        (Cpu { r: c1.a, ..c1 }, m, 9)
    } else if y == 2 {
        (with_f(Cpu { a: c1.i, ..c1 }, in_flags(c1, c1.i, c1.iff2)), m, 9)
    } else if y == 3 {
        (with_f(Cpu { a: c1.r, ..c1 }, in_flags(c1, c1.r, c1.iff2)), m, 9)
    } else if y == 4 || y == 5 {
        let hl = hl_of(c1);
        let mv = m.read(hl);
        // RRD rotates the low digits right through (HL); RLD left
        let mem = if y == 4 { mv / 16 + (c1.a % 16) * 16 } else { (mv % 16) * 16 + c1.a % 16 };
        let a = ((c1.a / 16) * 16 + (if y == 4 { mv % 16 } else { mv / 16 })) as u8;
        (with_f(Cpu { a: a, ..c1 }, in_flags(c1, a, even_parity(a))), m.write(hl, mem as u8), 18)
    } else {
        (c1, m, 8)
    }
}

/// ED-prefixed opcodes with x=1; `c1` is the state after the opcode fetch.
pub open spec fn ed_x1(c1: Cpu, m: BusState, y: int, z: int) -> Outcome {
    let p = y / 2;
    let q = y % 2;
    if z == 0 {
        // IN r,(C); y=6 sets the flags only
        let v = m.port_in(bc_of(c1));
        (with_f(set_reg8_cpu(c1, y, v), in_flags(c1, v, even_parity(v))), m, 12)
    } else if z == 1 {
        // OUT (C),r; y=6 outputs 0
        (c1, m.port_out(bc_of(c1), if y == 6 { 0 } else { reg8(c1, m, y) }, c1.t), 12)
    } else if z == 2 {
        (if q == 0 { sbc_hl16_spec(c1, reg16(c1, p)) } else { adc_hl16_spec(c1, reg16(c1, p)) }, m, 15)
    } else if z == 3 {
        let nn = m.read16(c1.pc);
        let c2 = fetched2(c1);
        if q == 0 { (c2, m.write16(nn, reg16(c2, p)), 20) } else { (set_reg16(c2, p, m.read16(nn)), m, 20) }
    } else if z == 4 {
        // NEG
        (sub8_spec(Cpu { a: 0, ..c1 }, c1.a, 0), m, 8)
    } else if z == 5 {
        // RETN / RETI
        (Cpu { iff1: c1.iff2, ..ret(c1, m) }, m, 14)
    } else if z == 6 {
        (Cpu { im: if y == 2 || y == 6 { 1 } else if y == 3 || y == 7 { 2 } else { 0 }, ..c1 }, m, 8)
    } else {
        ed_x1_z7(c1, m, y)
    }
}

/// The block transfer and search instructions LDI LDD LDIR LDDR (`z` = 0) and
/// CPI CPD CPIR CPDR (`z` = 1), by y = 4 5 6 7.
pub open spec fn ed_block(c1: Cpu, m: BusState, y: int, z: int) -> Outcome {
    let dir = if y % 2 == 0 { 1int } else { -1int };
    let repeat = y >= 6;
    if z == 0 {
        let (c2, m2) = ld_block(c1, m, dir);
        if repeat && flags_of(c2).p { (Cpu { pc: wrap16(c2.pc - 2), ..c2 }, m2, 21) } else { (c2, m2, 16) }
    } else {
        let c2 = cp_block(c1, m, dir);
        if repeat && flags_of(c2).p && !flags_of(c2).z {
            (Cpu { pc: wrap16(c2.pc - 2), ..c2 }, m, 21)
        } else {
            (c2, m, 16)
        }
    }
}

/// An ED-prefixed instruction; `c` is the state after the ED prefix byte.
/// Opcodes without a defined meaning take 8 T-states and do nothing else.
pub open spec fn exec_ed(c: Cpu, m: BusState) -> Outcome {
    let op = m.read(c.pc);
    let c1 = fetched_prefixed(c);
    let x = op / 64;
    let y = ((op / 8) % 8) as int;
    let z = (op % 8) as int;
    if x == 1 {
        ed_x1(c1, m, y, z)
    } else if x == 2 && y >= 4 && z <= 1 {
        ed_block(c1, m, y, z)
    } else {
        (c1, m, 8)
    }
}

/// Servicing a maskable interrupt: nothing when interrupts are disabled; otherwise HALT is left
/// (PC already points past the HALT, where the handler returns), interrupts are disabled,
/// and IM 0/1 call 0x0038 (13 T-states) while IM 2 calls the address in the table entry at
/// I*256+0xFF (19 T-states).
pub open spec fn interrupt_spec(c: Cpu, m: BusState) -> Outcome {
    if !c.iff1 {
        (c, m, 0)
    } else {
        let c2 = Cpu { halted: false, iff1: false, iff2: false, r: next_r(c.r), ..c };
        if c2.im == 0 || c2.im == 1 {
            let (c3, m3) = call(c2, m, 0x0038);
            (c3, m3, 13)
        } else if c2.im == 2 {
            let (c3, m3) = call(c2, m, m.read16(pair(c2.i, 0xFF)));
            (c3, m3, 19)
        } else {
            (c2, m, 0)
        }
    }
}

/// One step: a pending EI takes effect, then a halted processor idles for 4 T-states,
/// otherwise one instruction is fetched and executed. The frame counter T advances
/// by the T-states taken.
pub open spec fn step_spec(c: Cpu, m: BusState) -> Outcome {
    let c1 = if c.ei_pending { Cpu { ei_pending: false, iff1: true, iff2: true, ..c } } else { c };
    if c1.halted {
        (Cpu { t: ((c1.t + 4) % 0x1_0000_0000) as u32, ..c1 }, m, 4)
    } else {
        let (c2, m2, cycles) = exec_main(fetched(c1), m, m.read(c1.pc));
        (Cpu { t: ((c2.t + cycles) % 0x1_0000_0000) as u32, ..c2 }, m2, cycles)
    }
}

} // verus!
