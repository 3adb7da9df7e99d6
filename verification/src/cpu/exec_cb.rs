//! CB-prefixed instructions: shifts and rotates, BIT, RES and SET, on registers
//! and (for the DDCB / FDCB forms) on indexed memory.
use vstd::prelude::*;
use crate::bus::Bus;
use crate::cpu::Cpu;
use crate::cpu::isa::{exec_cb, exec_index_cb};
use crate::cpu::exec_index::offset;

verus! {

impl Cpu {
    /// Shift/rotate `kind` (RLC RRC RL RR SLA SRA SLL SRL = 0-7) of `val`.
    fn rotate(&mut self, kind: u8, val: u8) -> (res: u8)
        requires
            kind < 8,
        ensures
            (*final(self), res) == crate::cpu::alu::rot_spec(*old(self), kind as int, val),
    {
        match kind {
            0x00 => self.rlc(val),
            0x01 => self.rrc(val),
            0x02 => self.rl(val),
            0x03 => self.rr(val),
            0x04 => self.sla(val),
            0x05 => self.sra(val),
            0x06 => self.sll(val),  // undocumented
            _ => self.srl(val),
        }
    }

    pub(crate) fn execute_cb(&mut self, bus: &mut Bus) -> (cycles: u32)
        requires
            old(bus).wf(),
        ensures
            final(bus).wf(),
            (*final(self), final(bus)@, cycles) == exec_cb(*old(self), old(bus)@),
    {
        let op = self.fetch(bus);
        let reg = op % 8;
        let val = self.r8(reg, bus);
        let row = op / 8;

        let res = match row {
            0x00..=0x07 => self.rotate(row, val),
            // BIT b,r (rows 8–15)
            r @ 0x08..=0x0F => {
                self.bit_test(r - 8, val);
                return if reg == 6 { 12 } else { 8 };
            },
            // RES b,r (rows 16–23)
            r @ 0x10..=0x17 => val & !(1u8 << (r - 0x10)),
            // SET b,r (rows 24–31)
            r => val | (1u8 << (r - 0x18)),
        };

        self.set_r8(reg, res, bus);
        if reg == 6 { 15 } else { 8 }
    }

    /// DDCB (`iy` false) / FDCB (`iy` true): the displacement, then the opcode.
    pub(crate) fn execute_index_cb(&mut self, bus: &mut Bus, iy: bool) -> (cycles: u32)
        requires
            old(bus).wf(),
        ensures
            final(bus).wf(),
            (*final(self), final(bus)@, cycles) == exec_index_cb(*old(self), old(bus)@, iy),
    {
        let d = self.fetch_disp(bus);
        let op = self.fetch(bus);
        let addr = offset(self.idx(iy), d);
        let val = bus.read(addr);
        let reg = op % 8;
        let row = op / 8;

        let res = match row {
            0x00..=0x07 => self.rotate(row, val),
            r @ 0x08..=0x0F => {
                self.bit_test(r - 8, val);
                return 20;
            },
            r @ 0x10..=0x17 => val & !(1u8 << (r - 0x10)),
            r => val | (1u8 << (r - 0x18)),
        };

        bus.write(addr, res);
        if reg != 6 {
            // also stored in the register (undocumented)
            self.set_r8(reg, res, bus);
        }
        23
    }

    pub(crate) fn execute_ddcb(&mut self, bus: &mut Bus) -> (cycles: u32)
        requires
            old(bus).wf(),
        ensures
            final(bus).wf(),
            (*final(self), final(bus)@, cycles) == exec_index_cb(*old(self), old(bus)@, false),
    {
        self.execute_index_cb(bus, false)
    }

    pub(crate) fn execute_fdcb(&mut self, bus: &mut Bus) -> (cycles: u32)
        requires
            old(bus).wf(),
        ensures
            final(bus).wf(),
            (*final(self), final(bus)@, cycles) == exec_index_cb(*old(self), old(bus)@, true),
    {
        self.execute_index_cb(bus, true)
    }
}

} // verus!
