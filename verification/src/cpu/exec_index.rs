//! DD- and FD-prefixed instructions: the IX and IY forms.
use vstd::prelude::*;
use crate::bus::Bus;
use crate::bus::BusState;
use crate::cpu::{Cpu, pair, hi_byte, lo_byte, wrap16};
use crate::cpu::isa::{idx_reg, with_idx, idx_half, with_idx_half, idx_addr, exec_index, idx_other, idx_x1, idx_x2};

verus! {

/// `base + d`, wrapping around the 16-bit address space.
pub(crate) fn offset(base: u16, d: i8) -> (r: u16)
    ensures
        r == wrap16(base + d),
{
    base.wrapping_add_signed(d as i16)
}

impl Cpu {
    /// IX (`iy` false) or IY (`iy` true).
    pub(crate) fn idx(&self, iy: bool) -> (r: u16)
        ensures
            r == idx_reg(*self, iy),
    {
        if iy { self.iy } else { self.ix }
    }

    pub(crate) fn set_idx(&mut self, iy: bool, v: u16)
        ensures
            *final(self) == with_idx(*old(self), iy, v),
    {
        if iy { self.iy = v; } else { self.ix = v; }
    }

    /// IXH/IXL (`z` = 4 / 5) or IYH/IYL.
    fn idx_half(&self, iy: bool, z: u8) -> (v: u8)
        requires
            z == 4 || z == 5,
        ensures
            v == idx_half(*self, iy, z as int),
    {
        if z == 4 {
            if iy { self.iyh() } else { self.ixh() }
        } else {
            if iy { self.iyl() } else { self.ixl() }
        }
    }

    /// Replace IXH/IXL (`y` = 4 / 5) or IYH/IYL by `v`.
    fn set_idx_half(&mut self, iy: bool, y: u8, v: u8)
        requires
            y == 4 || y == 5,
        ensures
            *final(self) == with_idx_half(*old(self), iy, y as int, v),
    {
        if y == 4 {
            if iy { self.set_iyh(v) } else { self.set_ixh(v) }
        } else {
            if iy { self.set_iyl(v) } else { self.set_ixl(v) }
        }
    }

    /// The operand address IX+d / IY+d; the displacement is fetched.
    fn fetch_idx_addr(&mut self, bus: &Bus, iy: bool) -> (a: u16)
        requires
            bus.wf(),
        ensures
            a == idx_addr(*old(self), bus@, iy),
            *final(self) == crate::cpu::fetched(*old(self)),
    {
        let d = self.fetch_disp(bus);
        offset(self.idx(iy), d)
    }

    /// DD (`iy` false) / FD (`iy` true) prefix: IX and IY instructions.
    pub(crate) fn execute_index(&mut self, bus: &mut Bus, iy: bool) -> (cycles: u32)
        requires
            old(bus).wf(),
        ensures
            final(bus).wf(),
            (*final(self), final(bus)@, cycles) == exec_index(*old(self), old(bus)@, iy),
    {
        let op = self.fetch(bus);
        self.bump_r();
        let y = (op / 8) % 8;
        let z = op % 8;
        if op / 64 == 1 {
            self.execute_index_x1(bus, iy, y, z)
        } else if op / 64 == 2 {
            self.execute_index_x2(bus, iy, y, z)
        } else {
            self.execute_index_other(bus, iy, op)
        }
    }

    pub(crate) fn execute_dd(&mut self, bus: &mut Bus) -> (cycles: u32)
        requires
            old(bus).wf(),
        ensures
            final(bus).wf(),
            (*final(self), final(bus)@, cycles) == exec_index(*old(self), old(bus)@, false),
    {
        self.execute_index(bus, false)
    }

    pub(crate) fn execute_fd(&mut self, bus: &mut Bus) -> (cycles: u32)
        requires
            old(bus).wf(),
        ensures
            final(bus).wf(),
            (*final(self), final(bus)@, cycles) == exec_index(*old(self), old(bus)@, true),
    {
        self.execute_index(bus, true)
    }

    /// DD/FD 40–7F: loads through IXH, IXL and (IX+d).
    fn execute_index_x1(&mut self, bus: &mut Bus, iy: bool, y: u8, z: u8) -> (cycles: u32)
        requires
            old(bus).wf(),
            y < 8,
            z < 8,
        ensures
            final(bus).wf(),
            (*final(self), final(bus)@, cycles) == idx_x1(*old(self), old(bus)@, iy, y as int, z as int),
    {
        if z == 6 && y != 6 {
            // LD r,(IX+d)
            let a = self.fetch_idx_addr(bus, iy);
            let v = bus.read(a);
            self.set_r8(y, v, bus);
            19
        } else if y == 6 && z != 6 {
            // LD (IX+d),r
            let v = self.r8(z, bus);
            let a = self.fetch_idx_addr(bus, iy);
            bus.write(a, v);
            19
        } else if (y == 4 || y == 5) && z != 6 {
            // LD IXH/IXL,r (undocumented)
            let v = if z == 4 || z == 5 { self.idx_half(iy, z) } else { self.r8(z, bus) };
            self.set_idx_half(iy, y, v);
            8
        } else if (z == 4 || z == 5) && y != 6 {
            // LD r,IXH/IXL (undocumented)
            let v = self.idx_half(iy, z);
            self.set_r8(y, v, bus);
            8
        } else {
            8
        }
    }

    /// DD/FD 80–BF: arithmetic on IXH, IXL and (IX+d).
    fn execute_index_x2(&mut self, bus: &mut Bus, iy: bool, y: u8, z: u8) -> (cycles: u32)
        requires
            old(bus).wf(),
            y < 8,
            z < 8,
        ensures
            final(bus).wf(),
            (*final(self), final(bus)@, cycles) == idx_x2(*old(self), old(bus)@, iy, y as int, z as int),
    {
        if z == 4 || z == 5 {
            let v = self.idx_half(iy, z);
            self.alu_op(y, v);
            8
        } else if z == 6 {
            let a = self.fetch_idx_addr(bus, iy);
            let v = bus.read(a);
            self.alu_op(y, v);
            19
        } else {
            8  // Treat remaining DD xx as NOP-like
        }
    }

    /// DD/FD outside 40–BF.
    fn execute_index_other(&mut self, bus: &mut Bus, iy: bool, op: u8) -> (cycles: u32)
        requires
            old(bus).wf(),
        ensures
            final(bus).wf(),
            (*final(self), final(bus)@, cycles) == idx_other(*old(self), old(bus)@, iy, op),
    {
        match op {
            0x09 => { let v = self.bc(); self.add_idx16(iy, v); 15 },
            0x19 => { let v = self.de(); self.add_idx16(iy, v); 15 },
            0x29 => { let v = self.idx(iy); self.add_idx16(iy, v); 15 },
            0x39 => { let v = self.sp; self.add_idx16(iy, v); 15 },
            0x21 => { let v = self.fetch16(bus); self.set_idx(iy, v); 14 },
            0x22 => { let a = self.fetch16(bus); bus.write16(a, self.idx(iy)); 20 },
            0x2A => { let a = self.fetch16(bus); let v = bus.read16(a); self.set_idx(iy, v); 20 },
            0x23 => { let v = self.idx(iy).wrapping_add(1); self.set_idx(iy, v); 10 },
            0x2B => { let v = self.idx(iy).wrapping_sub(1); self.set_idx(iy, v); 10 },
            0x24 => { let v = self.idx_half(iy, 4); let r = self.inc8(v); self.set_idx_half(iy, 4, r); 8 },
            0x25 => { let v = self.idx_half(iy, 4); let r = self.dec8(v); self.set_idx_half(iy, 4, r); 8 },
            0x2C => { let v = self.idx_half(iy, 5); let r = self.inc8(v); self.set_idx_half(iy, 5, r); 8 },
            0x2D => { let v = self.idx_half(iy, 5); let r = self.dec8(v); self.set_idx_half(iy, 5, r); 8 },
            0x26 => { let n = self.fetch(bus); self.set_idx_half(iy, 4, n); 11 },
            0x2E => { let n = self.fetch(bus); self.set_idx_half(iy, 5, n); 11 },
            0x34 => { let a = self.fetch_idx_addr(bus, iy); let v = bus.read(a); let r = self.inc8(v); bus.write(a, r); 23 },
            0x35 => { let a = self.fetch_idx_addr(bus, iy); let v = bus.read(a); let r = self.dec8(v); bus.write(a, r); 23 },
            0x36 => { let a = self.fetch_idx_addr(bus, iy); let n = self.fetch(bus); bus.write(a, n); 19 },
            0xE1 => { let v = self.pop16(bus); self.set_idx(iy, v); 14 },
            0xE3 => {
                let sp = self.sp;
                let m = bus.read16(sp);
                bus.write16(sp, self.idx(iy));
                self.set_idx(iy, m);
                23
            },
            0xE5 => { let v = self.idx(iy); self.push16(v, bus); 15 },
            0xE9 => { self.pc = self.idx(iy); 8 },
            0xF9 => { self.sp = self.idx(iy); 10 },
            0xCB => if iy { self.execute_fdcb(bus) } else { self.execute_ddcb(bus) },
            _ => 8,
        }
    }

    /// ADD IX,rr (`iy` false) / ADD IY,rr.
    fn add_idx16(&mut self, iy: bool, rr: u16)
        ensures
            *final(self) == crate::cpu::isa::add_idx16_spec(*old(self), iy, rr),
    {
        if iy { self.add_iy16(rr) } else { self.add_ix16(rr) }
    }
}

} // verus!
