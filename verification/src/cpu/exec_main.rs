//! Unprefixed instructions.
use vstd::prelude::*;
use crate::bus::Bus;
use crate::cpu::{Cpu, reg16_af, set_reg16_af};
use crate::cpu::alu::make_flags;
use crate::cpu::exec_index::offset;
use crate::cpu::isa::{exec_main, main_x0, main_x3, misc_a};
use crate::flags::lemma_set_h_n;

verus! {

impl Cpu {
    /// Register pair for PUSH/POP by index: BC DE HL AF = 0-3.
    fn rp2(&self, p: u8) -> (v: u16)
        requires
            p < 4,
        ensures
            v == reg16_af(*self, p as int),
    {
        if p == 3 { self.af() } else { self.rp(p) }
    }

    fn set_rp2(&mut self, p: u8, v: u16)
        requires
            p < 4,
        ensures
            *final(self) == set_reg16_af(*old(self), p as int, v),
    {
        if p == 3 { self.set_af(v) } else { self.set_rp(p, v) }
    }

    /// Execute the unprefixed opcode `op`, already fetched.
    pub(crate) fn execute(&mut self, op: u8, bus: &mut Bus) -> (cycles: u32)
        requires
            old(bus).wf(),
        ensures
            final(bus).wf(),
            (*final(self), final(bus)@, cycles) == exec_main(*old(self), old(bus)@, op),
    {
        reveal(exec_main);
        let y = (op / 8) % 8;
        let z = op % 8;
        if op < 0x40 {
            self.execute_x0(y, z, bus)
        } else if op == 0x76 {
            // HALT
            self.halted = true;
            4
        } else if op < 0x80 {
            // LD r,r' block (0x40–0x7F)
            let val = self.r8(z, bus);
            self.set_r8(y, val, bus);
            if z == 6 || y == 6 { 7 } else { 4 }
        } else if op < 0xC0 {
            // ALU A,r (0x80–0xBF)
            let val = self.r8(z, bus);
            self.alu_op(y, val);
            if z == 6 { 7 } else { 4 }
        } else {
            self.execute_x3(y, z, bus)
        }
    }

    /// Opcodes 00–3F.
    fn execute_x0(&mut self, y: u8, z: u8, bus: &mut Bus) -> (cycles: u32)
        requires
            old(bus).wf(),
            y < 8,
            z < 8,
        ensures
            final(bus).wf(),
            (*final(self), final(bus)@, cycles) == main_x0(*old(self), old(bus)@, y as int, z as int),
    {
        let p = y / 2;
        match z {
            0 => self.execute_jr(y, bus),
            1 => {
                if y % 2 == 0 {
                    // LD rr,nn
                    let v = self.fetch16(bus);
                    self.set_rp(p, v);
                    10
                } else {
                    // ADD HL,rr
                    let v = self.rp(p);
                    self.add_hl16(v);
                    11
                }
            },
            2 => self.execute_ld_ind(y, bus),
            3 => {
                // INC/DEC 16-bit
                let v = self.rp(p);
                let v2 = if y % 2 == 0 { v.wrapping_add(1) } else { v.wrapping_sub(1) };
                self.set_rp(p, v2);
                6
            },
            4 => {
                // INC r
                let v = self.r8(y, bus);
                let r = self.inc8(v);
                self.set_r8(y, r, bus);
                if y == 6 { 11 } else { 4 }
            },
            5 => {
                // DEC r
                let v = self.r8(y, bus);
                let r = self.dec8(v);
                self.set_r8(y, r, bus);
                if y == 6 { 11 } else { 4 }
            },
            6 => {
                // LD r,n
                let n = self.fetch(bus);
                self.set_r8(y, n, bus);
                if y == 6 { 10 } else { 7 }
            },
            _ => {
                self.execute_misc_a(y);
                4
            },
        }
    }

    /// NOP, EX AF,AF', DJNZ, JR, JR cc.
    fn execute_jr(&mut self, y: u8, bus: &Bus) -> (cycles: u32)
        requires
            bus.wf(),
            y < 8,
        ensures
            (*final(self), bus@, cycles) == main_x0(*old(self), bus@, y as int, 0),
    {
        match y {
            0 => 4,  // NOP
            1 => {
                // EX AF,AF'
                let af = self.af();
                let af2 = self.a2 as u16 * 256 + self.f2 as u16;
                self.a = self.a2;
                self.f = self.f2;
                self.a2 = (af / 256) as u8;
                self.f2 = (af % 256) as u8;
                proof {
                    reveal(crate::cpu::pair);
                }
                4
            },
            2 => {
                // DJNZ e
                let e = self.fetch_disp(bus);
                self.b = self.b.wrapping_sub(1);
                if self.b != 0 {
                    self.pc = offset(self.pc, e);
                    13
                } else {
                    8
                }
            },
            3 => {
                // JR e
                let e = self.fetch_disp(bus);
                self.pc = offset(self.pc, e);
                12
            },
            _ => {
                // JR cc,e  (NZ Z NC C)
                let e = self.fetch_disp(bus);
                if self.cond(y - 4) {
                    self.pc = offset(self.pc, e);
                    12
                } else {
                    7
                }
            },
        }
    }

    /// LD (BC),A  LD A,(BC)  LD (DE),A  LD A,(DE)  LD (nn),HL  LD HL,(nn)  LD (nn),A  LD A,(nn).
    fn execute_ld_ind(&mut self, y: u8, bus: &mut Bus) -> (cycles: u32)
        requires
            old(bus).wf(),
            y < 8,
        ensures
            final(bus).wf(),
            (*final(self), final(bus)@, cycles) == main_x0(*old(self), old(bus)@, y as int, 2),
    {
        match y {
            0 => { bus.write(self.bc(), self.a); 7 },
            1 => { self.a = bus.read(self.bc()); 7 },
            2 => { bus.write(self.de(), self.a); 7 },
            3 => { self.a = bus.read(self.de()); 7 },
            4 => { let a = self.fetch16(bus); bus.write16(a, self.hl()); 16 },
            5 => { let a = self.fetch16(bus); let v = bus.read16(a); self.set_hl(v); 16 },
            6 => { let a = self.fetch16(bus); bus.write(a, self.a); 13 },
            _ => { let a = self.fetch16(bus); self.a = bus.read(a); 13 },
        }
    }

    /// RLCA RRCA RLA RRA DAA CPL SCF CCF.
    fn execute_misc_a(&mut self, y: u8)
        requires
            y < 8,
        ensures
            *final(self) == misc_a(*old(self), y as int),
    {
        match y {
            0 => self.rlca(),
            1 => self.rrca(),
            2 => self.rla(),
            3 => self.rra(),
            4 => self.daa(),
            5 => {
                // CPL
                proof {
                    lemma_set_h_n(self.f);
                }
                self.a = !self.a;
                self.f = self.f | 0x12;
            },
            6 => {
                // SCF
                let a = self.a;
                self.f = make_flags(self.sf(), self.zf(), a / 32 % 2 == 1, false, a / 8 % 2 == 1, self.pf(), false, true);
            },
            _ => {
                // CCF
                let a = self.a;
                let c = self.cf();
                self.f = make_flags(self.sf(), self.zf(), a / 32 % 2 == 1, c, a / 8 % 2 == 1, self.pf(), false, !c);
            },
        }
    }

    /// Opcodes C0–FF.
    fn execute_x3(&mut self, y: u8, z: u8, bus: &mut Bus) -> (cycles: u32)
        requires
            old(bus).wf(),
            y < 8,
            z < 8,
        ensures
            final(bus).wf(),
            (*final(self), final(bus)@, cycles) == main_x3(*old(self), old(bus)@, y as int, z as int),
    {
        let p = y / 2;
        match z {
            0 => {
                // RET cc
                if self.cond(y) {
                    self.pc = self.pop16(bus);
                    11
                } else {
                    5
                }
            },
            1 => {
                if y % 2 == 0 {
                    // POP rr
                    let v = self.pop16(bus);
                    self.set_rp2(p, v);
                    10
                } else {
                    self.execute_x3_z1(p, bus)
                }
            },
            2 => {
                // JP cc,nn
                let a = self.fetch16(bus);
                if self.cond(y) {
                    self.pc = a;
                }
                10
            },
            3 => self.execute_x3_z3(y, bus),
            4 => {
                // CALL cc,nn
                let a = self.fetch16(bus);
                if self.cond(y) {
                    self.push16(self.pc, bus);
                    self.pc = a;
                    17
                } else {
                    10
                }
            },
            5 => {
                if y % 2 == 0 {
                    // PUSH rr
                    let v = self.rp2(p);
                    self.push16(v, bus);
                    11
                } else {
                    match p {
                        0 => {
                            // CALL nn
                            let a = self.fetch16(bus);
                            self.push16(self.pc, bus);
                            self.pc = a;
                            17
                        },
                        1 => self.execute_dd(bus),
                        2 => self.execute_ed(bus),
                        _ => self.execute_fd(bus),
                    }
                }
            },
            6 => {
                // ALU A,n
                let n = self.fetch(bus);
                self.alu_op(y, n);
                7
            },
            _ => {
                // RST
                self.push16(self.pc, bus);
                self.pc = y as u16 * 8;
                11
            },
        }
    }

    /// RET, EXX, JP (HL), LD SP,HL.
    fn execute_x3_z1(&mut self, p: u8, bus: &Bus) -> (cycles: u32)
        requires
            bus.wf(),
            p < 4,
        ensures
            (*final(self), bus@, cycles) == main_x3(*old(self), bus@, (2 * p + 1) as int, 1),
    {
        match p {
            0 => {
                // RET
                self.pc = self.pop16(bus);
                10
            },
            1 => {
                // EXX
                let (b, c, d, e, h, l) = (self.b, self.c, self.d, self.e, self.h, self.l);
                self.b = self.b2;
                self.c = self.c2;
                self.d = self.d2;
                self.e = self.e2;
                self.h = self.h2;
                self.l = self.l2;
                self.b2 = b;
                self.c2 = c;
                self.d2 = d;
                self.e2 = e;
                self.h2 = h;
                self.l2 = l;
                4
            },
            2 => {
                // JP (HL)
                self.pc = self.hl();
                4
            },
            _ => {
                // LD SP,HL
                self.sp = self.hl();
                6
            },
        }
    }

    /// JP nn, CB prefix, OUT (n),A, IN A,(n), EX (SP),HL, EX DE,HL, DI, EI.
    fn execute_x3_z3(&mut self, y: u8, bus: &mut Bus) -> (cycles: u32)
        requires
            old(bus).wf(),
            y < 8,
        ensures
            final(bus).wf(),
            (*final(self), final(bus)@, cycles) == main_x3(*old(self), old(bus)@, y as int, 3),
    {
        match y {
            0 => {
                // JP nn
                self.pc = self.fetch16(bus);
                10
            },
            1 => self.execute_cb(bus),
            2 => {
                // OUT (n),A
                let n = self.fetch(bus);
                let port = self.a as u16 * 256 + n as u16;
                proof {
                    reveal(crate::cpu::pair);
                }
                bus.port_out(port, self.a, self.t);
                11
            },
            3 => {
                // IN A,(n)
                let n = self.fetch(bus);
                let port = self.a as u16 * 256 + n as u16;
                proof {
                    reveal(crate::cpu::pair);
                }
                self.a = bus.port_in(port);
                11
            },
            4 => {
                // EX (SP),HL
                let sp = self.sp;
                let mem = bus.read16(sp);
                bus.write16(sp, self.hl());
                self.set_hl(mem);
                19
            },
            5 => {
                // EX DE,HL
                let de = self.de();
                let hl = self.hl();
                self.set_de(hl);
                self.set_hl(de);
                4
            },
            6 => {
                // DI
                self.iff1 = false;
                self.iff2 = false;
                4
            },
            _ => {
                // EI
                self.ei_pending = true;
                4
            },
        }
    }
}

} // verus!
