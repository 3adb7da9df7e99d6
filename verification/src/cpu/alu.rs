//! Arithmetic, logic, rotate and flag instructions of the Z80.
use vstd::prelude::*;
use crate::cpu::{Cpu, wrap8, wrap16, flags_of, with_f, hl_of, with_hl};
use crate::flags::{Flags, pack, bit3, bit5, bit11, bit13, bit4, b2i, PF};

verus! {

/// Number of set bits of `v`.
pub open spec fn popcount(v: int) -> int
    decreases v,
{
    if v <= 0 { 0 } else { v % 2 + popcount(v / 2) }
}

/// Whether `v` has an even number of set bits.
pub open spec fn even_parity(v: u8) -> bool {
    popcount(v as int) % 2 == 0
}

/// The flags of an 8-bit result `res`: S, Z, Y and X come from the result,
/// H, P/V, N and C are given.
pub open spec fn result_flags(res: u8, h: bool, p: bool, n: bool, c: bool) -> Flags {
    Flags { s: res >= 128, z: res == 0, y: bit5(res as int), h: h, x: bit3(res as int), p: p, n: n, c: c }
}

/// Signed overflow of `a + b = res` on bytes: the operands agree in sign and the result does not.
pub open spec fn add_overflow8(a: u8, b: u8, res: u8) -> bool {
    (a >= 128) == (b >= 128) && (a >= 128) != (res >= 128)
}

/// Signed overflow of `a - b = res` on bytes: the operands differ in sign and the result differs from `a`.
pub open spec fn sub_overflow8(a: u8, b: u8, res: u8) -> bool {
    (a >= 128) != (b >= 128) && (a >= 128) != (res >= 128)
}

/// ADD / ADC: A := A + v + carry.
pub open spec fn add8_spec(c: Cpu, v: u8, carry: u8) -> Cpu {
    let sum = c.a + v + carry;
    let res = wrap8(sum);
    Cpu { a: res, f: pack(result_flags(res, c.a % 16 + v % 16 + carry > 15, add_overflow8(c.a, v, res), false, sum > 255)), ..c }
}

/// SUB / SBC: A := A - v - borrow.
pub open spec fn sub8_spec(c: Cpu, v: u8, borrow: u8) -> Cpu {
    let diff = c.a - v - borrow;
    let res = wrap8(diff);
    Cpu { a: res, f: pack(result_flags(res, c.a % 16 < v % 16 + borrow, sub_overflow8(c.a, v, res), true, diff < 0)), ..c }
}

/// AND: A := A & v; H set, P/V = parity.
pub open spec fn and8_spec(c: Cpu, v: u8) -> Cpu {
    let res = c.a & v;
    Cpu { a: res, f: pack(result_flags(res, true, even_parity(res), false, false)), ..c }
}

/// OR: A := A | v; P/V = parity.
pub open spec fn or8_spec(c: Cpu, v: u8) -> Cpu {
    let res = c.a | v;
    Cpu { a: res, f: pack(result_flags(res, false, even_parity(res), false, false)), ..c }
}

/// XOR: A := A ^ v; P/V = parity.
pub open spec fn xor8_spec(c: Cpu, v: u8) -> Cpu {
    let res = c.a ^ v;
    Cpu { a: res, f: pack(result_flags(res, false, even_parity(res), false, false)), ..c }
}

/// CP: flags of A - v, A unchanged; Y and X come from the operand.
pub open spec fn cp8_spec(c: Cpu, v: u8) -> Cpu {
    let diff = c.a - v;
    let res = wrap8(diff);
    Cpu {
        f: pack(
            Flags {
                s: res >= 128,
                z: res == 0,
                y: bit5(v as int),
                h: c.a % 16 < v % 16,
                x: bit3(v as int),
                p: sub_overflow8(c.a, v, res),
                n: true,
                c: diff < 0,
            },
        ),
        ..c
    }
}

/// INC of an 8-bit value: the result and the new state; carry is unaffected.
pub open spec fn inc8_spec(c: Cpu, v: u8) -> (Cpu, u8) {
    let res = wrap8(v + 1);
    (with_f(c, result_flags(res, v % 16 == 15, v == 0x7F, false, flags_of(c).c)), res)
}

/// DEC of an 8-bit value: the result and the new state; carry is unaffected.
pub open spec fn dec8_spec(c: Cpu, v: u8) -> (Cpu, u8) {
    let res = wrap8(v - 1);
    (with_f(c, result_flags(res, v % 16 == 0, v == 0x80, true, flags_of(c).c)), res)
}

/// Flags of a 16-bit ADD `x + rr`: S, Z and P/V kept, N cleared, Y and X from bits 13 and 11 of the result.
pub open spec fn add16_flags(c: Cpu, x: u16, rr: u16) -> Flags {
    let res = wrap16(x + rr);
    Flags {
        s: flags_of(c).s,
        z: flags_of(c).z,
        y: bit13(res as int),
        h: x % 4096 + rr % 4096 > 4095,
        x: bit11(res as int),
        p: flags_of(c).p,
        n: false,
        c: x + rr > 65535,
    }
}

/// ADD HL,rr.
pub open spec fn add_hl16_spec(c: Cpu, rr: u16) -> Cpu {
    with_hl(with_f(c, add16_flags(c, hl_of(c), rr)), wrap16(hl_of(c) + rr))
}

/// ADD IX,rr.
pub open spec fn add_ix16_spec(c: Cpu, rr: u16) -> Cpu {
    Cpu { ix: wrap16(c.ix + rr), f: pack(add16_flags(c, c.ix, rr)), ..c }
}

/// ADD IY,rr.
pub open spec fn add_iy16_spec(c: Cpu, rr: u16) -> Cpu {
    Cpu { iy: wrap16(c.iy + rr), f: pack(add16_flags(c, c.iy, rr)), ..c }
}

/// SBC HL,rr: HL := HL - rr - carry, all flags from the 16-bit result.
pub open spec fn sbc_hl16_spec(c: Cpu, rr: u16) -> Cpu {
    let hl = hl_of(c);
    let cy = b2i(flags_of(c).c);
    let diff = hl - rr - cy;
    let res = wrap16(diff);
    with_hl(
        with_f(
            c,
            Flags {
                s: res >= 32768,
                z: res == 0,
                y: bit13(res as int),
                h: hl % 4096 < rr % 4096 + cy,
                x: bit11(res as int),
                p: (hl >= 32768) != (rr >= 32768) && (hl >= 32768) != (res >= 32768),
                n: true,
                c: diff < 0,
            },
        ),
        res,
    )
}

/// ADC HL,rr: HL := HL + rr + carry, all flags from the 16-bit result.
pub open spec fn adc_hl16_spec(c: Cpu, rr: u16) -> Cpu {
    let hl = hl_of(c);
    let cy = b2i(flags_of(c).c);
    let sum = hl + rr + cy;
    let res = wrap16(sum);
    with_hl(
        with_f(
            c,
            Flags {
                s: res >= 32768,
                z: res == 0,
                y: bit13(res as int),
                h: hl % 4096 + rr % 4096 + cy > 4095,
                x: bit11(res as int),
                p: (hl >= 32768) == (rr >= 32768) && (hl >= 32768) != (res >= 32768),
                n: false,
                c: sum > 65535,
            },
        ),
        res,
    )
}

/// The result of the shift/rotate `kind` (RLC RRC RL RR SLA SRA SLL SRL = 0-7) of `v`,
/// with the incoming carry `cin`.
pub open spec fn rot_result(kind: int, v: u8, cin: int) -> u8 {
    if kind == 0 { ((v % 128) * 2 + v / 128) as u8 }
    else if kind == 1 { (v / 2 + (v % 2) * 128) as u8 }
    else if kind == 2 { ((v % 128) * 2 + cin) as u8 }
    else if kind == 3 { (v / 2 + cin * 128) as u8 }
    else if kind == 4 { ((v % 128) * 2) as u8 }
    else if kind == 5 { (v / 2 + (v / 128) * 128) as u8 }
    else if kind == 6 { ((v % 128) * 2 + 1) as u8 }
    else { (v / 2) as u8 }
}

/// The carry out of the shift/rotate `kind` of `v`: bit 7 for left moves, bit 0 for right moves.
pub open spec fn rot_carry(kind: int, v: u8) -> bool {
    if kind % 2 == 0 { v >= 128 } else { v % 2 == 1 }
}

/// A CB-group shift/rotate of `v`: the new state and the result.
pub open spec fn rot_spec(c: Cpu, kind: int, v: u8) -> (Cpu, u8) {
    let res = rot_result(kind, v, b2i(flags_of(c).c));
    (with_f(c, result_flags(res, false, even_parity(res), false, rot_carry(kind, v))), res)
}

/// RLCA RRCA RLA RRA (kind 0-3): rotate A; S, Z and P/V kept.
pub open spec fn rota_spec(c: Cpu, kind: int) -> Cpu {
    let res = rot_result(kind, c.a, b2i(flags_of(c).c));
    Cpu {
        a: res,
        f: pack(
            Flags {
                s: flags_of(c).s,
                z: flags_of(c).z,
                y: bit5(res as int),
                h: false,
                x: bit3(res as int),
                p: flags_of(c).p,
                n: false,
                c: rot_carry(kind, c.a),
            },
        ),
        ..c
    }
}

/// The accumulator after DAA of `a0` with carry `c`, half carry `h` and subtract flag `n`.
pub open spec fn daa_result(a0: u8, c: bool, h: bool, n: bool) -> u8 {
    let up = !n && (c || a0 > 0x99);
    let a1 = if n { if c { wrap8(a0 - 0x60) } else { a0 } } else if up { wrap8(a0 + 0x60) } else { a0 };
    if n { if h { wrap8(a1 - 0x06) } else { a1 } } else if h || a1 % 16 > 9 {
        wrap8(a1 + 0x06)
    } else {
        a1
    }
}

/// DAA: decimal adjust of A after a BCD addition (N clear) or subtraction (N set).
pub open spec fn daa_spec(c: Cpu) -> Cpu {
    let fl = flags_of(c);
    let a2 = daa_result(c.a, fl.c, fl.h, fl.n);
    let up = !fl.n && (fl.c || c.a > 0x99);
    Cpu {
        a: a2,
        f: pack(result_flags(a2, bit4((c.a ^ a2) as int), even_parity(a2), fl.n, fl.c || up)),
        ..c
    }
}

/// BIT b,v: Z and P/V tell whether bit `b` of `v` is clear, S whether bit 7 is tested and set,
/// H set, Y and X from `v`, carry kept.
pub open spec fn bit_test_spec(c: Cpu, b: u8, v: u8) -> Cpu {
    let test = v & (1u8 << b);
    with_f(
        c,
        Flags {
            s: b == 7 && test != 0,
            z: test == 0,
            y: bit5(v as int),
            h: true,
            x: bit3(v as int),
            p: test == 0,
            n: false,
            c: flags_of(c).c,
        },
    )
}

/// The 8-bit ALU operation `op` (ADD ADC SUB SBC AND XOR OR CP = 0-7) with operand `v`.
pub open spec fn alu_spec(c: Cpu, op: int, v: u8) -> Cpu {
    let cy = b2i(flags_of(c).c) as u8;
    if op == 0 { add8_spec(c, v, 0) }
    else if op == 1 { add8_spec(c, v, cy) }
    else if op == 2 { sub8_spec(c, v, 0) }
    else if op == 3 { sub8_spec(c, v, cy) }
    else if op == 4 { and8_spec(c, v) }
    else if op == 5 { xor8_spec(c, v) }
    else if op == 6 { or8_spec(c, v) }
    else { cp8_spec(c, v) }
}

/// The flag byte with the given flags.
pub(crate) fn make_flags(s: bool, z: bool, y: bool, h: bool, x: bool, p: bool, n: bool, c: bool) -> (r: u8)
    ensures
        r == pack(Flags { s: s, z: z, y: y, h: h, x: x, p: p, n: n, c: c }),
{
    reveal(pack);
    let mut r: u8 = 0;
    if s { r = r + 0x80; }
    if z { r = r + 0x40; }
    if y { r = r + 0x20; }
    if h { r = r + 0x10; }
    if x { r = r + 0x08; }
    if p { r = r + 0x04; }
    if n { r = r + 0x02; }
    if c { r = r + 0x01; }
    r
}

/// Build S/Z/Y/X flags from an 8-bit result (the common case).
pub(crate) fn flags_szxy(v: u8) -> (r: u8)
    ensures
        r == pack(result_flags(v, false, false, false, false)),
{
    make_flags(v >= 0x80, v == 0, v / 32 % 2 == 1, false, v / 8 % 2 == 1, false, false, false)
}

/// Even-parity flag: PF set if the number of set bits is even.
pub(crate) fn parity_flag(v: u8) -> (r: u8)
    ensures
        r == (if even_parity(v) { PF } else { 0 }),
{
    let mut ones: u8 = 0;
    let mut x: u8 = v;
    while x > 0
        invariant
            ones + popcount(x as int) == popcount(v as int),
            ones + x <= 255,
        decreases x,
    {
        ones = ones + x % 2;
        x = x / 2;
    }
    if ones % 2 == 0 { PF } else { 0 }
}

/// Whether `v` has an even number of set bits.
pub(crate) fn parity_even(v: u8) -> (r: bool)
    ensures
        r == even_parity(v),
{
    parity_flag(v) == PF
}

impl Cpu {
    pub(crate) fn add8(&mut self, val: u8, carry: u8)
        requires
            carry <= 1,
        ensures
            *final(self) == add8_spec(*old(self), val, carry),
    {
        let a = self.a;
        let res16: u16 = a as u16 + val as u16 + carry as u16;
        let res = (res16 % 256) as u8;
        let half = a % 16 + val % 16 + carry > 15;
        let overflow = (a >= 128) == (val >= 128) && (a >= 128) != (res >= 128);
        self.f = make_flags(res >= 128, res == 0, res / 32 % 2 == 1, half, res / 8 % 2 == 1, overflow, false, res16 > 255);
        self.a = res;
    }

    pub(crate) fn sub8(&mut self, val: u8, borrow: u8)
        requires
            borrow <= 1,
        ensures
            *final(self) == sub8_spec(*old(self), val, borrow),
    {
        let a = self.a;
        let res = a.wrapping_sub(val).wrapping_sub(borrow);
        let half = a % 16 < val % 16 + borrow;
        let overflow = (a >= 128) != (val >= 128) && (a >= 128) != (res >= 128);
        let carry = (a as u16) < val as u16 + borrow as u16;
        self.f = make_flags(res >= 128, res == 0, res / 32 % 2 == 1, half, res / 8 % 2 == 1, overflow, true, carry);
        self.a = res;
    }

    pub(crate) fn and8(&mut self, val: u8)
        ensures
            *final(self) == and8_spec(*old(self), val),
    {
        self.a = self.a & val;
        let a = self.a;
        self.f = make_flags(a >= 128, a == 0, a / 32 % 2 == 1, true, a / 8 % 2 == 1, parity_even(a), false, false);
    }

    pub(crate) fn or8(&mut self, val: u8)
        ensures
            *final(self) == or8_spec(*old(self), val),
    {
        self.a = self.a | val;
        let a = self.a;
        self.f = make_flags(a >= 128, a == 0, a / 32 % 2 == 1, false, a / 8 % 2 == 1, parity_even(a), false, false);
    }

    pub(crate) fn xor8(&mut self, val: u8)
        ensures
            *final(self) == xor8_spec(*old(self), val),
    {
        self.a = self.a ^ val;
        let a = self.a;
        self.f = make_flags(a >= 128, a == 0, a / 32 % 2 == 1, false, a / 8 % 2 == 1, parity_even(a), false, false);
    }

    pub(crate) fn cp8(&mut self, val: u8)
        ensures
            *final(self) == cp8_spec(*old(self), val),
    {
        let a = self.a;
        let res = a.wrapping_sub(val);
        let half = a % 16 < val % 16;
        let overflow = (a >= 128) != (val >= 128) && (a >= 128) != (res >= 128);
        let carry = a < val;
        // CP is like SUB but the result is not stored; X and Y come from the operand, not the result
        self.f = make_flags(res >= 128, res == 0, val / 32 % 2 == 1, half, val / 8 % 2 == 1, overflow, true, carry);
    }

    pub(crate) fn inc8(&mut self, val: u8) -> (r: u8)
        ensures
            (*final(self), r) == inc8_spec(*old(self), val),
    {
        let res = val.wrapping_add(1);
        let old_c = self.cf();
        self.f = make_flags(res >= 128, res == 0, res / 32 % 2 == 1, val % 16 == 15, res / 8 % 2 == 1, val == 0x7F, false, old_c);
        res
    }

    pub(crate) fn dec8(&mut self, val: u8) -> (r: u8)
        ensures
            (*final(self), r) == dec8_spec(*old(self), val),
    {
        let res = val.wrapping_sub(1);
        let old_c = self.cf();
        self.f = make_flags(res >= 128, res == 0, res / 32 % 2 == 1, val % 16 == 0, res / 8 % 2 == 1, val == 0x80, true, old_c);
        res
    }

    /// Flags of a 16-bit addition `x + rr`: only N, H, C and the Y/X bits from the high byte change.
    fn add16_f(&self, x: u16, rr: u16) -> (r: u8)
        ensures
            r == pack(add16_flags(*self, x, rr)),
    {
        let res = x.wrapping_add(rr);
        let half = x % 4096 + rr % 4096 > 4095;
        let carry = x as u32 + rr as u32 > 0xFFFF;
        make_flags(self.sf(), self.zf(), res / 8192 % 2 == 1, half, res / 2048 % 2 == 1, self.pf(), false, carry)
    }

    pub(crate) fn add_hl16(&mut self, rr: u16)
        ensures
            *final(self) == add_hl16_spec(*old(self), rr),
    {
        let hl = self.hl();
        let res = hl.wrapping_add(rr);
        self.f = self.add16_f(hl, rr);
        self.set_hl(res);
    }

    pub(crate) fn add_ix16(&mut self, rr: u16)
        ensures
            *final(self) == add_ix16_spec(*old(self), rr),
    {
        let ix = self.ix;
        let res = ix.wrapping_add(rr);
        self.f = self.add16_f(ix, rr);
        self.ix = res;
    }

    pub(crate) fn add_iy16(&mut self, rr: u16)
        ensures
            *final(self) == add_iy16_spec(*old(self), rr),
    {
        let iy = self.iy;
        let res = iy.wrapping_add(rr);
        self.f = self.add16_f(iy, rr);
        self.iy = res;
    }

    pub(crate) fn sbc_hl16(&mut self, rr: u16)
        ensures
            *final(self) == sbc_hl16_spec(*old(self), rr),
    {
        let hl = self.hl();
        let c: u16 = if self.cf() { 1 } else { 0 };
        let diff: i32 = hl as i32 - rr as i32 - c as i32;
        let carry = diff < 0;
        let res: u16 = if carry { (diff + 65536) as u16 } else { diff as u16 };
        assert(res == wrap16(diff as int));
        let half = hl % 4096 < rr % 4096 + c;
        let overflow = (hl >= 32768) != (rr >= 32768) && (hl >= 32768) != (res >= 32768);
        self.f = make_flags(res >= 32768, res == 0, res / 8192 % 2 == 1, half, res / 2048 % 2 == 1, overflow, true, carry);
        self.set_hl(res);
    }

    pub(crate) fn adc_hl16(&mut self, rr: u16)
        ensures
            *final(self) == adc_hl16_spec(*old(self), rr),
    {
        let hl = self.hl();
        let c: u16 = if self.cf() { 1 } else { 0 };
        let sum: u32 = hl as u32 + rr as u32 + c as u32;
        let carry = sum > 0xFFFF;
        let res: u16 = if carry { (sum - 65536) as u16 } else { sum as u16 };
        assert(res == wrap16(sum as int));
        let half = hl % 4096 + rr % 4096 + c > 4095;
        let overflow = (hl >= 32768) == (rr >= 32768) && (hl >= 32768) != (res >= 32768);
        self.f = make_flags(res >= 32768, res == 0, res / 8192 % 2 == 1, half, res / 2048 % 2 == 1, overflow, false, carry);
        self.set_hl(res);
    }

    // ── Rotates & shifts ──────────────────────────────────────────────────────

    /// Flags after a CB-group shift/rotate with result `r` and carry out `c`.
    fn rot_f(r: u8, c: bool) -> (f: u8)
        ensures
            f == pack(result_flags(r, false, even_parity(r), false, c)),
    {
        make_flags(r >= 128, r == 0, r / 32 % 2 == 1, false, r / 8 % 2 == 1, parity_even(r), false, c)
    }

    pub(crate) fn rlc(&mut self, v: u8) -> (res: u8)
        ensures
            (*final(self), res) == rot_spec(*old(self), 0, v),
    {
        let c = v / 128;
        let r = (v % 128) * 2 + c;
        self.f = Self::rot_f(r, c == 1);
        r
    }

    pub(crate) fn rrc(&mut self, v: u8) -> (res: u8)
        ensures
            (*final(self), res) == rot_spec(*old(self), 1, v),
    {
        let c = v % 2;
        let r = v / 2 + c * 128;
        self.f = Self::rot_f(r, c == 1);
        r
    }

    pub(crate) fn rl(&mut self, v: u8) -> (res: u8)
        ensures
            (*final(self), res) == rot_spec(*old(self), 2, v),
    {
        let old_c: u8 = if self.cf() { 1 } else { 0 };
        let new_c = v / 128;
        let r = (v % 128) * 2 + old_c;
        self.f = Self::rot_f(r, new_c == 1);
        r
    }

    pub(crate) fn rr(&mut self, v: u8) -> (res: u8)
        ensures
            (*final(self), res) == rot_spec(*old(self), 3, v),
    {
        let old_c: u8 = if self.cf() { 1 } else { 0 };
        let new_c = v % 2;
        let r = v / 2 + old_c * 128;
        self.f = Self::rot_f(r, new_c == 1);
        r
    }

    pub(crate) fn sla(&mut self, v: u8) -> (res: u8)
        ensures
            (*final(self), res) == rot_spec(*old(self), 4, v),
    {
        let c = v / 128;
        let r = (v % 128) * 2;
        self.f = Self::rot_f(r, c == 1);
        r
    }

    pub(crate) fn sra(&mut self, v: u8) -> (res: u8)
        ensures
            (*final(self), res) == rot_spec(*old(self), 5, v),
    {
        let c = v % 2;
        let r = v / 2 + (v / 128) * 128;
        self.f = Self::rot_f(r, c == 1);
        r
    }

    /// Undocumented SLL: shift left, bit 0 set.
    pub(crate) fn sll(&mut self, v: u8) -> (res: u8)
        ensures
            (*final(self), res) == rot_spec(*old(self), 6, v),
    {
        let c = v / 128;
        let r = (v % 128) * 2 + 1;
        self.f = Self::rot_f(r, c == 1);
        r
    }

    pub(crate) fn srl(&mut self, v: u8) -> (res: u8)
        ensures
            (*final(self), res) == rot_spec(*old(self), 7, v),
    {
        let c = v % 2;
        let r = v / 2;
        self.f = Self::rot_f(r, c == 1);
        r
    }

    /// Flags after an accumulator rotate with result `r` and carry out `c`: S, Z and P/V kept.
    fn rota_f(&self, r: u8, c: bool) -> (f: u8)
        ensures
            f == pack(
                Flags {
                    s: flags_of(*self).s,
                    z: flags_of(*self).z,
                    y: bit5(r as int),
                    h: false,
                    x: bit3(r as int),
                    p: flags_of(*self).p,
                    n: false,
                    c: c,
                },
            ),
    {
        make_flags(self.sf(), self.zf(), r / 32 % 2 == 1, false, r / 8 % 2 == 1, self.pf(), false, c)
    }

    pub(crate) fn rlca(&mut self)
        ensures
            *final(self) == rota_spec(*old(self), 0),
    {
        let c = self.a / 128;
        let r = (self.a % 128) * 2 + c;
        self.f = self.rota_f(r, c == 1);
        self.a = r;
    }

    pub(crate) fn rrca(&mut self)
        ensures
            *final(self) == rota_spec(*old(self), 1),
    {
        let c = self.a % 2;
        let r = self.a / 2 + c * 128;
        self.f = self.rota_f(r, c == 1);
        self.a = r;
    }

    pub(crate) fn rla(&mut self)
        ensures
            *final(self) == rota_spec(*old(self), 2),
    {
        let old_c: u8 = if self.cf() { 1 } else { 0 };
        let new_c = self.a / 128;
        let r = (self.a % 128) * 2 + old_c;
        self.f = self.rota_f(r, new_c == 1);
        self.a = r;
    }

    pub(crate) fn rra(&mut self)
        ensures
            *final(self) == rota_spec(*old(self), 3),
    {
        let old_c: u8 = if self.cf() { 1 } else { 0 };
        let new_c = self.a % 2;
        let r = self.a / 2 + old_c * 128;
        self.f = self.rota_f(r, new_c == 1);
        self.a = r;
    }

    fn daa_adjust(a0: u8, c: bool, h: bool, n: bool) -> (a: u8)
        ensures
            a == daa_result(a0, c, h, n),
    {
        let mut a = a0;
        if !n {
            if c || a > 0x99 {
                a = a.wrapping_add(0x60);
            }
            if h || a % 16 > 0x09 {
                a = a.wrapping_add(0x06);
            }
        } else {
            if c {
                a = a.wrapping_sub(0x60);
            }
            if h {
                a = a.wrapping_sub(0x06);
            }
        }
        a
    }

    pub(crate) fn daa(&mut self)
        ensures
            *final(self) == daa_spec(*old(self)),
    {
        let a0 = self.a;
        let c = self.cf();
        let h = self.hf();
        let n = self.nf();
        let new_c = c || (!n && a0 > 0x99);
        let a = Self::daa_adjust(a0, c, h, n);
        let half = (a0 ^ a) / 16 % 2 == 1;
        let even = parity_even(a);
        self.f = make_flags(a >= 128, a == 0, a / 32 % 2 == 1, half, a / 8 % 2 == 1, even, n, new_c);
        self.a = a;
    }

    pub(crate) fn bit_test(&mut self, bit: u8, val: u8)
        requires
            bit < 8,
        ensures
            *final(self) == bit_test_spec(*old(self), bit, val),
    {
        let test = val & (1u8 << bit);
        let c = self.cf();
        self.f = make_flags(bit == 7 && test != 0, test == 0, val / 32 % 2 == 1, true, val / 8 % 2 == 1, test == 0, false, c);
    }

    pub(crate) fn alu_op(&mut self, op: u8, val: u8)
        requires
            op < 8,
        ensures
            *final(self) == alu_spec(*old(self), op as int, val),
    {
        match op {
            0 => self.add8(val, 0),
            1 => {
                let c: u8 = if self.cf() { 1 } else { 0 };
                self.add8(val, c)
            },
            2 => self.sub8(val, 0),
            3 => {
                let c: u8 = if self.cf() { 1 } else { 0 };
                self.sub8(val, c)
            },
            4 => self.and8(val),
            5 => self.xor8(val),
            6 => self.or8(val),
            _ => self.cp8(val),
        }
    }
}

} // verus!
