//! Zilog Z80 CPU: complete instruction set including undocumented opcodes.
//!
//! Registers:
//!   Main:      A  F  B  C  D  E  H  L
//!   Alternate: A' F' B' C' D' E' H' L'
//!   Index:     IX  IY
//!   Special:   I  R  SP  PC
//!
//! Flags (F): S Z Y H X PV N C  (Y=bit5, X=bit3 are undocumented copy bits)
//!
//! Clock: 3.5 MHz.  One frame = 69888 T-states at 50 Hz.
use vstd::prelude::*;
use crate::bus::{Bus, BusState, addr_add};
use crate::flags::{Flags, pack, unpack};
use crate::cpu::isa::{interrupt_spec, step_spec};

pub mod alu;
pub mod isa;
pub mod timing;
pub mod laws;
pub mod semantics;
mod exec_main;
mod exec_cb;
mod exec_ed;
mod exec_index;

verus! {

pub struct Cpu {
    // Main registers
    pub a: u8,
    pub f: u8,
    pub b: u8,
    pub c: u8,
    pub d: u8,
    pub e: u8,
    pub h: u8,
    pub l: u8,
    // Alternate registers
    pub a2: u8,
    pub f2: u8,
    pub b2: u8,
    pub c2: u8,
    pub d2: u8,
    pub e2: u8,
    pub h2: u8,
    pub l2: u8,
    // Index registers
    pub ix: u16,
    pub iy: u16,
    // Special
    pub i: u8,
    pub r: u8,
    pub sp: u16,
    pub pc: u16,
    // Interrupt state
    pub iff1: bool,
    pub iff2: bool,
    pub im: u8,
    pub halted: bool,
    /// EI enables interrupts after the *next* instruction.
    pub ei_pending: bool,
    /// T-cycle counter within the current frame (reset each frame).
    pub t: u32,
}

/// `v` modulo 256, as a byte (a cast to `u8` truncates, so every branch is `v mod 256`).
pub open spec fn wrap8(v: int) -> u8 {
    if v < 0 { (v + 256) as u8 } else if v >= 256 { (v - 256) as u8 } else { v as u8 }
}

/// `v` modulo 65536, as a 16-bit word (a cast to `u16` truncates, so every branch is `v mod 65536`).
pub open spec fn wrap16(v: int) -> u16 {
    if v < 0 { (v + 65536) as u16 } else if v >= 65536 { (v - 65536) as u16 } else { v as u16 }
}

/// The 16-bit word with high byte `hi` and low byte `lo`.
#[verifier::opaque]
pub open spec fn pair(hi: u8, lo: u8) -> u16 {
    (hi * 256 + lo) as u16
}

#[verifier::opaque]
pub open spec fn hi_byte(v: u16) -> u8 {
    (v / 256) as u8
}

#[verifier::opaque]
pub open spec fn lo_byte(v: u16) -> u8 {
    (v % 256) as u8
}

pub open spec fn af_of(c: Cpu) -> u16 {
    pair(c.a, c.f)
}

pub open spec fn bc_of(c: Cpu) -> u16 {
    pair(c.b, c.c)
}

pub open spec fn de_of(c: Cpu) -> u16 {
    pair(c.d, c.e)
}

pub open spec fn hl_of(c: Cpu) -> u16 {
    pair(c.h, c.l)
}

pub open spec fn with_af(c: Cpu, v: u16) -> Cpu {
    Cpu { a: hi_byte(v), f: lo_byte(v), ..c }
}

pub open spec fn with_bc(c: Cpu, v: u16) -> Cpu {
    Cpu { b: hi_byte(v), c: lo_byte(v), ..c }
}

pub open spec fn with_de(c: Cpu, v: u16) -> Cpu {
    Cpu { d: hi_byte(v), e: lo_byte(v), ..c }
}

pub open spec fn with_hl(c: Cpu, v: u16) -> Cpu {
    Cpu { h: hi_byte(v), l: lo_byte(v), ..c }
}

pub open spec fn with_f(c: Cpu, fl: Flags) -> Cpu {
    Cpu { f: pack(fl), ..c }
}

/// The flags of `c`.
pub open spec fn flags_of(c: Cpu) -> Flags {
    unpack(c.f)
}

/// The memory refresh register after one opcode fetch: its low 7 bits count up, bit 7 stays.
pub open spec fn next_r(r: u8) -> u8 {
    ((r / 128) * 128 + (r % 128 + 1) % 128) as u8
}

/// `c` after fetching one byte: PC advances, R counts up.
pub open spec fn fetched(c: Cpu) -> Cpu {
    Cpu { pc: wrap16(c.pc + 1), r: next_r(c.r), ..c }
}

/// The signed value of a displacement byte.
pub open spec fn disp(n: u8) -> int {
    if n < 128 { n as int } else { n - 256 }
}

/// Condition code 0-7: NZ Z NC C PO PE P M.
pub open spec fn cond_holds(c: Cpu, cc: int) -> bool {
    let fl = flags_of(c);
    if cc == 0 { !fl.z }
    else if cc == 1 { fl.z }
    else if cc == 2 { !fl.c }
    else if cc == 3 { fl.c }
    else if cc == 4 { !fl.p }
    else if cc == 5 { fl.p }
    else if cc == 6 { !fl.s }
    else { fl.s }
}

/// Push `val` on the stack: high byte at SP-1, then low byte at SP-2.
pub open spec fn push(c: Cpu, m: BusState, val: u16) -> (Cpu, BusState) {
    let sp1 = wrap16(c.sp - 1);
    let sp2 = wrap16(c.sp - 2);
    (Cpu { sp: sp2, ..c }, m.write(sp1, hi_byte(val)).write(sp2, lo_byte(val)))
}

/// The word on top of the stack.
pub open spec fn stack_top(c: Cpu, m: BusState) -> u16 {
    m.read16(c.sp)
}

/// `c` after popping a word off the stack.
pub open spec fn popped(c: Cpu) -> Cpu {
    Cpu { sp: wrap16(c.sp + 2), ..c }
}

/// 8-bit register by index: B C D E H L (HL) A = 0-7.
pub open spec fn reg8(c: Cpu, m: BusState, idx: int) -> u8 {
    if idx == 0 { c.b }
    else if idx == 1 { c.c }
    else if idx == 2 { c.d }
    else if idx == 3 { c.e }
    else if idx == 4 { c.h }
    else if idx == 5 { c.l }
    else if idx == 6 { m.read(hl_of(c)) }
    else { c.a }
}

/// Store into an 8-bit register by index, other than the memory operand (index 6 changes nothing).
pub open spec fn set_reg8_cpu(c: Cpu, idx: int, v: u8) -> Cpu {
    if idx == 0 { Cpu { b: v, ..c } }
    else if idx == 1 { Cpu { c: v, ..c } }
    else if idx == 2 { Cpu { d: v, ..c } }
    else if idx == 3 { Cpu { e: v, ..c } }
    else if idx == 4 { Cpu { h: v, ..c } }
    else if idx == 5 { Cpu { l: v, ..c } }
    else if idx == 6 { c }
    else { Cpu { a: v, ..c } }
}

/// Store into an 8-bit register by index; index 6 writes memory at HL.
pub open spec fn set_reg8(c: Cpu, m: BusState, idx: int, v: u8) -> (Cpu, BusState) {
    if idx == 6 { (c, m.write(hl_of(c), v)) } else { (set_reg8_cpu(c, idx, v), m) }
}

/// Register pair by index: BC DE HL SP = 0-3.
pub open spec fn reg16(c: Cpu, p: int) -> u16 {
    if p == 0 { bc_of(c) }
    else if p == 1 { de_of(c) }
    else if p == 2 { hl_of(c) }
    else { c.sp }
}

pub open spec fn set_reg16(c: Cpu, p: int, v: u16) -> Cpu {
    if p == 0 { with_bc(c, v) }
    else if p == 1 { with_de(c, v) }
    else if p == 2 { with_hl(c, v) }
    else { Cpu { sp: v, ..c } }
}

/// Register pair for PUSH/POP by index: BC DE HL AF = 0-3.
pub open spec fn reg16_af(c: Cpu, p: int) -> u16 {
    if p == 3 { af_of(c) } else { reg16(c, p) }
}

pub open spec fn set_reg16_af(c: Cpu, p: int, v: u16) -> Cpu {
    if p == 3 { with_af(c, v) } else { set_reg16(c, p, v) }
}

/// The initial register contents after power-on.
pub open spec fn power_on() -> Cpu {
    Cpu {
        a: 0xFF, f: 0xFF, b: 0xFF, c: 0xFF, d: 0xFF, e: 0xFF, h: 0xFF, l: 0xFF,
        a2: 0xFF, f2: 0xFF, b2: 0xFF, c2: 0xFF, d2: 0xFF, e2: 0xFF, h2: 0xFF, l2: 0xFF,
        ix: 0xFFFF, iy: 0xFFFF,
        i: 0x3F, r: 0x00,
        sp: 0xFFFF, pc: 0x0000,
        iff1: false, iff2: false,
        im: 1,
        halted: false,
        ei_pending: false,
        t: 0,
    }
}

impl Cpu {
    pub fn new() -> (c: Self)
        ensures
            c == power_on(),
    {
        Cpu {
            a: 0xFF, f: 0xFF,
            b: 0xFF, c: 0xFF,
            d: 0xFF, e: 0xFF,
            h: 0xFF, l: 0xFF,
            a2: 0xFF, f2: 0xFF,
            b2: 0xFF, c2: 0xFF,
            d2: 0xFF, e2: 0xFF,
            h2: 0xFF, l2: 0xFF,
            ix: 0xFFFF, iy: 0xFFFF,
            i: 0x3F, r: 0x00,
            sp: 0xFFFF, pc: 0x0000,
            iff1: false, iff2: false,
            im: 1,
            halted: false,
            ei_pending: false,
            t: 0,
        }
    }

    // ── 16-bit register pairs ─────────────────────────────────────────────────

    pub fn af(&self) -> (r: u16)
        ensures
            r == af_of(*self),
    {
        reveal(pair);
        self.a as u16 * 256 + self.f as u16
    }

    pub fn bc(&self) -> (r: u16)
        ensures
            r == bc_of(*self),
    {
        reveal(pair);
        self.b as u16 * 256 + self.c as u16
    }

    pub fn de(&self) -> (r: u16)
        ensures
            r == de_of(*self),
    {
        reveal(pair);
        self.d as u16 * 256 + self.e as u16
    }

    pub fn hl(&self) -> (r: u16)
        ensures
            r == hl_of(*self),
    {
        reveal(pair);
        self.h as u16 * 256 + self.l as u16
    }

    pub fn ixh(&self) -> (r: u8)
        ensures
            r == hi_byte(self.ix),
    {
        reveal(hi_byte);
        (self.ix / 256) as u8
    }

    pub fn ixl(&self) -> (r: u8)
        ensures
            r == lo_byte(self.ix),
    {
        reveal(lo_byte);
        (self.ix % 256) as u8
    }

    pub fn iyh(&self) -> (r: u8)
        ensures
            r == hi_byte(self.iy),
    {
        reveal(hi_byte);
        (self.iy / 256) as u8
    }

    pub fn iyl(&self) -> (r: u8)
        ensures
            r == lo_byte(self.iy),
    {
        reveal(lo_byte);
        (self.iy % 256) as u8
    }

    fn set_af(&mut self, v: u16)
        ensures
            *final(self) == with_af(*old(self), v),
    {
        reveal(pair);
        reveal(hi_byte);
        reveal(lo_byte);
        self.a = (v / 256) as u8;
        self.f = (v % 256) as u8;
    }

    fn set_bc(&mut self, v: u16)
        ensures
            *final(self) == with_bc(*old(self), v),
    {
        reveal(pair);
        reveal(hi_byte);
        reveal(lo_byte);
        self.b = (v / 256) as u8;
        self.c = (v % 256) as u8;
    }

    fn set_de(&mut self, v: u16)
        ensures
            *final(self) == with_de(*old(self), v),
    {
        reveal(pair);
        reveal(hi_byte);
        reveal(lo_byte);
        self.d = (v / 256) as u8;
        self.e = (v % 256) as u8;
    }

    fn set_hl(&mut self, v: u16)
        ensures
            *final(self) == with_hl(*old(self), v),
    {
        reveal(pair);
        reveal(hi_byte);
        reveal(lo_byte);
        self.h = (v / 256) as u8;
        self.l = (v % 256) as u8;
    }

    fn set_ixh(&mut self, v: u8)
        ensures
            *final(self) == (Cpu { ix: pair(v, lo_byte(old(self).ix)), ..*old(self) }),
    {
        reveal(pair);
        reveal(hi_byte);
        reveal(lo_byte);
        self.ix = (self.ix % 256) + (v as u16) * 256;
    }

    fn set_ixl(&mut self, v: u8)
        ensures
            *final(self) == (Cpu { ix: pair(hi_byte(old(self).ix), v), ..*old(self) }),
    {
        reveal(pair);
        reveal(hi_byte);
        reveal(lo_byte);
        self.ix = (self.ix / 256) * 256 + v as u16;
    }

    fn set_iyh(&mut self, v: u8)
        ensures
            *final(self) == (Cpu { iy: pair(v, lo_byte(old(self).iy)), ..*old(self) }),
    {
        reveal(pair);
        reveal(hi_byte);
        reveal(lo_byte);
        self.iy = (self.iy % 256) + (v as u16) * 256;
    }

    fn set_iyl(&mut self, v: u8)
        ensures
            *final(self) == (Cpu { iy: pair(hi_byte(old(self).iy), v), ..*old(self) }),
    {
        reveal(pair);
        reveal(hi_byte);
        reveal(lo_byte);
        self.iy = (self.iy / 256) * 256 + v as u16;
    }

    /// Register pair by index: BC DE HL SP = 0-3.
    fn rp(&self, p: u8) -> (v: u16)
        requires
            p < 4,
        ensures
            v == reg16(*self, p as int),
    {
        match p {
            0 => self.bc(),
            1 => self.de(),
            2 => self.hl(),
            _ => self.sp,
        }
    }

    fn set_rp(&mut self, p: u8, v: u16)
        requires
            p < 4,
        ensures
            *final(self) == set_reg16(*old(self), p as int, v),
    {
        match p {
            0 => self.set_bc(v),
            1 => self.set_de(v),
            2 => self.set_hl(v),
            _ => self.sp = v,
        }
    }

    // ── Flag helpers ──────────────────────────────────────────────────────────

    fn sf(&self) -> (r: bool)
        ensures
            r == flags_of(*self).s,
    {
        reveal(unpack);
        self.f / 128 % 2 == 1
    }

    fn zf(&self) -> (r: bool)
        ensures
            r == flags_of(*self).z,
    {
        reveal(unpack);
        self.f / 64 % 2 == 1
    }

    fn hf(&self) -> (r: bool)
        ensures
            r == flags_of(*self).h,
    {
        reveal(unpack);
        self.f / 16 % 2 == 1
    }

    fn pf(&self) -> (r: bool)
        ensures
            r == flags_of(*self).p,
    {
        reveal(unpack);
        self.f / 4 % 2 == 1
    }

    fn nf(&self) -> (r: bool)
        ensures
            r == flags_of(*self).n,
    {
        reveal(unpack);
        self.f / 2 % 2 == 1
    }

    fn cf(&self) -> (r: bool)
        ensures
            r == flags_of(*self).c,
    {
        reveal(unpack);
        self.f % 2 == 1
    }

    /// Evaluate condition code 0-7 (NZ Z NC C PO PE P M).
    fn cond(&self, cc: u8) -> (r: bool)
        requires
            cc < 8,
        ensures
            r == cond_holds(*self, cc as int),
    {
        match cc {
            0 => !self.zf(),
            1 => self.zf(),
            2 => !self.cf(),
            3 => self.cf(),
            4 => !self.pf(),
            5 => self.pf(),
            6 => !self.sf(),
            _ => self.sf(),
        }
    }

    // ── Fetch helpers ─────────────────────────────────────────────────────────

    fn bump_r(&mut self)
        ensures
            *final(self) == (Cpu { r: next_r(old(self).r), ..*old(self) }),
    {
        self.r = (self.r / 128) * 128 + (self.r % 128 + 1) % 128;
    }

    fn fetch(&mut self, bus: &Bus) -> (v: u8)
        requires
            bus.wf(),
        ensures
            v == bus@.read(old(self).pc),
            *final(self) == fetched(*old(self)),
    {
        let v = bus.read(self.pc);
        self.pc = self.pc.wrapping_add(1);
        self.bump_r();
        v
    }

    fn fetch16(&mut self, bus: &Bus) -> (v: u16)
        requires
            bus.wf(),
        ensures
            v == bus@.read16(old(self).pc),
            *final(self) == fetched(fetched(*old(self))),
    {
        reveal(pair);
        reveal(hi_byte);
        reveal(lo_byte);
        let lo = self.fetch(bus) as u16;
        let hi = self.fetch(bus) as u16;
        hi * 256 + lo
    }

    fn fetch_disp(&mut self, bus: &Bus) -> (d: i8)
        requires
            bus.wf(),
        ensures
            d as int == disp(bus@.read(old(self).pc)),
            *final(self) == fetched(*old(self)),
    {
        let v = self.fetch(bus);
        if v < 128 {
            v as i8
        } else {
            (v as i16 - 256) as i8
        }
    }

    // ── Stack ─────────────────────────────────────────────────────────────────

    fn push16(&mut self, val: u16, bus: &mut Bus)
        requires
            old(bus).wf(),
        ensures
            final(bus).wf(),
            (*final(self), final(bus)@) == push(*old(self), old(bus)@, val),
    {
        reveal(pair);
        reveal(hi_byte);
        reveal(lo_byte);
        self.sp = self.sp.wrapping_sub(1);
        bus.write(self.sp, (val / 256) as u8);
        self.sp = self.sp.wrapping_sub(1);
        bus.write(self.sp, (val % 256) as u8);
    }

    fn pop16(&mut self, bus: &Bus) -> (v: u16)
        requires
            bus.wf(),
        ensures
            v == stack_top(*old(self), bus@),
            *final(self) == popped(*old(self)),
    {
        reveal(pair);
        reveal(hi_byte);
        reveal(lo_byte);
        let lo = bus.read(self.sp) as u16;
        self.sp = self.sp.wrapping_add(1);
        let hi = bus.read(self.sp) as u16;
        self.sp = self.sp.wrapping_add(1);
        hi * 256 + lo
    }

    // ── Register array access (B C D E H L (HL) A = index 0-7) ───────────────

    fn r8(&self, idx: u8, bus: &Bus) -> (v: u8)
        requires
            idx < 8,
            bus.wf(),
        ensures
            v == reg8(*self, bus@, idx as int),
    {
        match idx {
            0 => self.b,
            1 => self.c,
            2 => self.d,
            3 => self.e,
            4 => self.h,
            5 => self.l,
            6 => bus.read(self.hl()),
            _ => self.a,
        }
    }

    fn set_r8(&mut self, idx: u8, val: u8, bus: &mut Bus)
        requires
            idx < 8,
            old(bus).wf(),
        ensures
            final(bus).wf(),
            (*final(self), final(bus)@) == set_reg8(*old(self), old(bus)@, idx as int, val),
    {
        match idx {
            0 => self.b = val,
            1 => self.c = val,
            2 => self.d = val,
            3 => self.e = val,
            4 => self.h = val,
            5 => self.l = val,
            6 => bus.write(self.hl(), val),
            _ => self.a = val,
        }
    }

    /// Like `r8`, but H and L are replaced by IXH and IXL, and index 6 reads memory at IX.
    fn r8_ix(&self, idx: u8, bus: &Bus) -> (v: u8)
        requires
            idx < 8,
            bus.wf(),
        ensures
            v == (if idx == 4 { hi_byte(self.ix) } else if idx == 5 { lo_byte(self.ix) } else if idx == 6 {
                bus@.read(self.ix)
            } else {
                reg8(*self, bus@, idx as int)
            }),
    {
        match idx {
            4 => self.ixh(),
            5 => self.ixl(),
            6 => bus.read(self.ix),
            _ => self.r8(idx, bus),
        }
    }

    /// Like `set_r8`, but H and L are replaced by IXH and IXL, and index 6 stores nothing.
    fn set_r8_ix(&mut self, idx: u8, val: u8)
        requires
            idx < 8,
        ensures
            *final(self) == (if idx == 4 { Cpu { ix: pair(val, lo_byte(old(self).ix)), ..*old(self) } } else if idx
                == 5 { Cpu { ix: pair(hi_byte(old(self).ix), val), ..*old(self) } } else if idx == 6 {
                *old(self)
            } else {
                set_reg8_cpu(*old(self), idx as int, val)
            }),
    {
        match idx {
            4 => self.set_ixh(val),
            5 => self.set_ixl(val),
            0 => self.b = val,
            1 => self.c = val,
            2 => self.d = val,
            3 => self.e = val,
            7 => self.a = val,
            _ => {},
        }
    }

    /// Like `r8`, but H and L are replaced by IYH and IYL, and index 6 reads memory at IY.
    fn r8_iy(&self, idx: u8, bus: &Bus) -> (v: u8)
        requires
            idx < 8,
            bus.wf(),
        ensures
            v == (if idx == 4 { hi_byte(self.iy) } else if idx == 5 { lo_byte(self.iy) } else if idx == 6 {
                bus@.read(self.iy)
            } else {
                reg8(*self, bus@, idx as int)
            }),
    {
        match idx {
            4 => self.iyh(),
            5 => self.iyl(),
            6 => bus.read(self.iy),
            _ => self.r8(idx, bus),
        }
    }

    /// Like `set_r8`, but H and L are replaced by IYH and IYL, and index 6 stores nothing.
    fn set_r8_iy(&mut self, idx: u8, val: u8)
        requires
            idx < 8,
        ensures
            *final(self) == (if idx == 4 { Cpu { iy: pair(val, lo_byte(old(self).iy)), ..*old(self) } } else if idx
                == 5 { Cpu { iy: pair(hi_byte(old(self).iy), val), ..*old(self) } } else if idx == 6 {
                *old(self)
            } else {
                set_reg8_cpu(*old(self), idx as int, val)
            }),
    {
        match idx {
            4 => self.set_iyh(val),
            5 => self.set_iyl(val),
            0 => self.b = val,
            1 => self.c = val,
            2 => self.d = val,
            3 => self.e = val,
            7 => self.a = val,
            _ => {},
        }
    }

    // ── Interrupt handling ────────────────────────────────────────────────────

    /// Service a maskable interrupt (INT). Returns T-cycles used.
    pub fn interrupt(&mut self, bus: &mut Bus) -> (cycles: u32)
        requires
            old(bus).wf(),
        ensures
            final(bus).wf(),
            (*final(self), final(bus)@, cycles) == interrupt_spec(*old(self), old(bus)@),
    {
        if !self.iff1 {
            return 0;
        }
        // HALT already left PC on the next instruction: the interrupt returns there.
        self.halted = false;
        self.iff1 = false;
        self.iff2 = false;
        self.bump_r();
        match self.im {
            0 | 1 => {
                // IM 0 / IM 1: execute RST 38h
                self.push16(self.pc, bus);
                self.pc = 0x0038;
                13
            },
            2 => {
                // IM 2: indirect jump via the I register table
                let vec_addr = self.i as u16 * 256 + 0xFF;  // data bus = 0xFF when no device
                proof {
                    reveal(pair);
                }
                let target = bus.read16(vec_addr);
                self.push16(self.pc, bus);
                self.pc = target;
                19
            },
            _ => 0,
        }
    }

    // ── Main execute ──────────────────────────────────────────────────────────

    /// Execute one instruction (or idle one HALT cycle). Returns the T-states taken,
    /// which are also added to the frame counter `t`.
    pub fn step(&mut self, bus: &mut Bus) -> (cycles: u32)
        requires
            old(bus).wf(),
        ensures
            final(bus).wf(),
            (*final(self), final(bus)@, cycles) == step_spec(*old(self), old(bus)@),
    {
        if self.ei_pending {
            self.ei_pending = false;
            self.iff1 = true;
            self.iff2 = true;
        }
        if self.halted {
            self.t = self.t.wrapping_add(4);
            return 4;
        }
        let op = self.fetch(bus);
        let cycles = self.execute(op, bus);
        self.t = self.t.wrapping_add(cycles);
        cycles
    }
}

} // verus!
