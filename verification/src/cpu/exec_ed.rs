//! ED-prefixed (extended) instructions.
use vstd::prelude::*;
use crate::bus::Bus;
use crate::cpu::Cpu;
use crate::cpu::alu::{make_flags, parity_even, flags_szxy};
use crate::cpu::isa::{exec_ed, ed_x1, ed_x1_z7, ed_block, ld_block, cp_block, in_flags};
use crate::flags::{pack, CF, PF};

verus! {

impl Cpu {
    /// Flags after IN r,(C), LD A,I, RRD and similar for the value `v` with P/V = `p`.
    fn in_f(&self, v: u8, p: bool) -> (f: u8)
        ensures
            f == pack(in_flags(*self, v, p)),
    {
        proof {
            reveal(pack);
        }
        let carry: u8 = if self.cf() { CF } else { 0 };
        let parity: u8 = if p { PF } else { 0 };
        carry + flags_szxy(v) + parity
    }

    /// IN r,(C): the flags for the value read.
    fn in_c_f(&self, v: u8) -> (f: u8)
        ensures
            f == pack(in_flags(*self, v, crate::cpu::alu::even_parity(v))),
    {
        let p = parity_even(v);
        self.in_f(v, p)
    }

    pub(crate) fn execute_ed(&mut self, bus: &mut Bus) -> (cycles: u32)
        requires
            old(bus).wf(),
        ensures
            final(bus).wf(),
            (*final(self), final(bus)@, cycles) == exec_ed(*old(self), old(bus)@),
    {
        let op = self.fetch(bus);
        self.bump_r();
        let y = (op / 8) % 8;
        let z = op % 8;
        if op / 64 == 1 {
            self.execute_ed_x1(y, z, bus)
        } else if op / 64 == 2 && y >= 4 && z <= 1 {
            self.execute_ed_block(y, z, bus)
        } else {
            8
        }
    }

    /// ED 40–7F.
    fn execute_ed_x1(&mut self, y: u8, z: u8, bus: &mut Bus) -> (cycles: u32)
        requires
            old(bus).wf(),
            y < 8,
            z < 8,
        ensures
            final(bus).wf(),
            (*final(self), final(bus)@, cycles) == ed_x1(*old(self), old(bus)@, y as int, z as int),
    {
        match z {
            0 => {
                // IN r,(C); IN F,(C) for y = 6
                let v = bus.port_in(self.bc());
                let f = self.in_c_f(v);
                if y != 6 {
                    self.set_r8(y, v, bus);
                }
                self.f = f;
                12
            },
            1 => {
                // OUT (C),r; OUT (C),0 for y = 6
                let v = if y == 6 { 0 } else { self.r8(y, bus) };
                bus.port_out(self.bc(), v, self.t);
                12
            },
            2 => {
                // SBC/ADC HL,rr
                let v = self.rp(y / 2);
                if y % 2 == 0 { self.sbc_hl16(v) } else { self.adc_hl16(v) }
                15
            },
            3 => {
                // LD (nn),rr / LD rr,(nn)
                let a = self.fetch16(bus);
                if y % 2 == 0 {
                    let v = self.rp(y / 2);
                    bus.write16(a, v);
                } else {
                    let v = bus.read16(a);
                    self.set_rp(y / 2, v);
                }
                20
            },
            4 => {
                // NEG
                let a = self.a;
                self.a = 0;
                self.sub8(a, 0);
                8
            },
            5 => {
                // RETN / RETI
                self.iff1 = self.iff2;
                self.pc = self.pop16(bus);
                14
            },
            6 => {
                // IM 0/1/2
                self.im = if y == 2 || y == 6 { 1 } else if y == 3 || y == 7 { 2 } else { 0 };
                8
            },
            _ => self.execute_ed_x1_z7(y, bus),
        }
    }

    /// ED 47, 4F, ... 7F: LD I,A  LD R,A  LD A,I  LD A,R  RRD  RLD, and two that do nothing.
    fn execute_ed_x1_z7(&mut self, y: u8, bus: &mut Bus) -> (cycles: u32)
        requires
            old(bus).wf(),
            y < 8,
        ensures
            final(bus).wf(),
            (*final(self), final(bus)@, cycles) == ed_x1_z7(*old(self), old(bus)@, y as int),
    {
        match y {
            0 => { self.i = self.a; 9 },
            1 => { self.r = self.a; 9 },
            2 => {
                let v = self.i;
                self.f = self.in_f(v, self.iff2);
                self.a = v;
                9
            },
            3 => {
                let v = self.r;
                self.f = self.in_f(v, self.iff2);
                self.a = v;
                9
            },
            4 => {
                // RRD
                let hl = self.hl();
                let m = bus.read(hl);
                bus.write(hl, m / 16 + (self.a % 16) * 16);
                let a = (self.a / 16) * 16 + m % 16;
                self.f = self.in_c_f(a);
                self.a = a;
                18
            },
            5 => {
                // RLD
                let hl = self.hl();
                let m = bus.read(hl);
                bus.write(hl, (m % 16) * 16 + self.a % 16);
                let a = (self.a / 16) * 16 + m / 16;
                self.f = self.in_c_f(a);
                self.a = a;
                18
            },
            _ => 8,
        }
    }

    /// ED A0 A1 A8 A9 B0 B1 B8 B9: block transfer and search.
    fn execute_ed_block(&mut self, y: u8, z: u8, bus: &mut Bus) -> (cycles: u32)
        requires
            old(bus).wf(),
            4 <= y < 8,
            z <= 1,
        ensures
            final(bus).wf(),
            (*final(self), final(bus)@, cycles) == ed_block(*old(self), old(bus)@, y as int, z as int),
    {
        if z == 0 {
            if y % 2 == 0 { self.ldi(bus) } else { self.ldd(bus) }
            // LDIR / LDDR repeat while BC is not zero
            if y >= 6 && self.pf() {
                self.pc = self.pc.wrapping_sub(2);
                21
            } else {
                16
            }
        } else {
            if y % 2 == 0 { self.cpi(bus) } else { self.cpd(bus) }
            // CPIR / CPDR repeat while BC is not zero and no match was found
            if y >= 6 && self.pf() && !self.zf() {
                self.pc = self.pc.wrapping_sub(2);
                21
            } else {
                16
            }
        }
    }

    // ── Block instruction helpers ─────────────────────────────────────────────

    fn ldi(&mut self, bus: &mut Bus)
        requires
            old(bus).wf(),
        ensures
            final(bus).wf(),
            (*final(self), final(bus)@) == ld_block(*old(self), old(bus)@, 1),
    {
        let v = bus.read(self.hl());
        bus.write(self.de(), v);
        let n = v.wrapping_add(self.a);
        let bc = self.bc().wrapping_sub(1);
        let hl = self.hl().wrapping_add(1);
        let de = self.de().wrapping_add(1);
        self.set_hl(hl);
        self.set_de(de);
        self.set_bc(bc);
        self.f = make_flags(self.sf(), self.zf(), n / 32 % 2 == 1, false, n / 2 % 2 == 1, bc != 0, false, self.cf());
    }

    fn ldd(&mut self, bus: &mut Bus)
        requires
            old(bus).wf(),
        ensures
            final(bus).wf(),
            (*final(self), final(bus)@) == ld_block(*old(self), old(bus)@, -1),
    {
        let v = bus.read(self.hl());
        bus.write(self.de(), v);
        let n = v.wrapping_add(self.a);
        let bc = self.bc().wrapping_sub(1);
        let hl = self.hl().wrapping_sub(1);
        let de = self.de().wrapping_sub(1);
        self.set_hl(hl);
        self.set_de(de);
        self.set_bc(bc);
        self.f = make_flags(self.sf(), self.zf(), n / 32 % 2 == 1, false, n / 2 % 2 == 1, bc != 0, false, self.cf());
    }

    fn cpi(&mut self, bus: &mut Bus)
        requires
            old(bus).wf(),
        ensures
            final(bus).wf(),
            *final(self) == cp_block(*old(self), old(bus)@, 1),
            final(bus)@ == old(bus)@,
    {
        let v = bus.read(self.hl());
        let res = self.a.wrapping_sub(v);
        let half = self.a % 16 < v % 16;
        let bc = self.bc().wrapping_sub(1);
        let hl = self.hl().wrapping_add(1);
        self.set_hl(hl);
        self.set_bc(bc);
        let n = res.wrapping_sub(if half { 1 } else { 0 });
        self.f = make_flags(res >= 128, res == 0, n / 32 % 2 == 1, half, n / 2 % 2 == 1, bc != 0, true, self.cf());
    }

    fn cpd(&mut self, bus: &mut Bus)
        requires
            old(bus).wf(),
        ensures
            final(bus).wf(),
            *final(self) == cp_block(*old(self), old(bus)@, -1),
            final(bus)@ == old(bus)@,
    {
        let v = bus.read(self.hl());
        let res = self.a.wrapping_sub(v);
        let half = self.a % 16 < v % 16;
        let bc = self.bc().wrapping_sub(1);
        let hl = self.hl().wrapping_sub(1);
        self.set_hl(hl);
        self.set_bc(bc);
        let n = res.wrapping_sub(if half { 1 } else { 0 });
        self.f = make_flags(res >= 128, res == 0, n / 32 % 2 == 1, half, n / 2 % 2 == 1, bc != 0, true, self.cf());
    }
}

} // verus!
