//! What single instructions do, stated directly on registers, flag bits and memory:
//! the operand bytes after the opcode, the arithmetic on register values, and where
//! control goes.
use vstd::prelude::*;
use crate::bus::BusState;
use crate::cpu::{Cpu, pair, hi_byte, lo_byte};
use crate::cpu::isa::{interrupt_spec, step_spec, exec_main, main_x0, main_x3, ld_r_r, Outcome};
use crate::cpu::alu::{alu_spec, add8_spec, sub8_spec, and8_spec, or8_spec, xor8_spec, cp8_spec};
use crate::cpu::{fetched, reg8};
use crate::flags::{unpack, pow2_of, lemma_shift_bit, lemma_bit_mask};

verus! {

/// The code byte `k` places after PC.
pub open spec fn code_byte(c: Cpu, m: BusState, k: int) -> int {
    m.read(((c.pc + k) % 65536) as u16) as int
}

proof fn lemma_decode_x0(c: Cpu, m: BusState, op: u8)
    requires
        op / 64 == 0,
    ensures
        exec_main(c, m, op) == main_x0(c, m, ((op / 8) % 8) as int, (op % 8) as int),
{
    reveal(exec_main);
}

proof fn lemma_decode_x1(c: Cpu, m: BusState, op: u8)
    requires
        op / 64 == 1,
        op != 0x76,
    ensures
        exec_main(c, m, op) == ld_r_r(c, m, ((op / 8) % 8) as int, (op % 8) as int),
{
    reveal(exec_main);
}

proof fn lemma_decode_x2(c: Cpu, m: BusState, op: u8)
    requires
        op / 64 == 2,
    ensures
        exec_main(c, m, op) == (alu_spec(c, ((op / 8) % 8) as int, reg8(c, m, (op % 8) as int)), m, (if op % 8
            == 6 { 7u32 } else { 4u32 })),
{
    reveal(exec_main);
}

proof fn lemma_decode_x3(c: Cpu, m: BusState, op: u8)
    requires
        op / 64 == 3,
    ensures
        exec_main(c, m, op) == main_x3(c, m, ((op / 8) % 8) as int, (op % 8) as int),
{
    reveal(exec_main);
}

/// The processor as the opcode at PC is executed: a pending EI taken into account, then the
/// opcode fetched.
pub open spec fn after_fetch(c: Cpu) -> Cpu {
    fetched(if c.ei_pending { Cpu { ei_pending: false, iff1: true, iff2: true, ..c } } else { c })
}

/// JP cc,nn (C2 CA D2 DA E2 EA F2 FA) jumps to the little-endian operand exactly when its
/// condition holds on the flags before the step (NZ, Z, NC, C, PO, PE, P, M: Z bit 6,
/// C bit 0, P/V bit 2, S bit 7 of F); otherwise PC moves past the operand. Either way it
/// takes 10 T-states and leaves memory alone.
#[verifier::spinoff_prover]
#[verifier::rlimit(100)]
pub proof fn lemma_step_jp_cc(c: Cpu, m: BusState)
    requires
        !c.halted,
        m.read(c.pc) % 8 == 2,
        m.read(c.pc) >= 0xC0,
    ensures
        ({
            let op = m.read(c.pc);
            let f = c.f as int;
            let z = (f / 64) % 2 == 1;
            let cy = f % 2 == 1;
            let pv = (f / 4) % 2 == 1;
            let s = f / 128 == 1;
            let taken = (op == 0xC2 && !z) || (op == 0xCA && z) || (op == 0xD2 && !cy) || (op == 0xDA && cy)
                || (op == 0xE2 && !pv) || (op == 0xEA && pv) || (op == 0xF2 && !s) || (op == 0xFA && s);
            &&& step_spec(c, m).0.pc as int == (if taken {
                code_byte(c, m, 1) + 256 * code_byte(c, m, 2)
            } else {
                (c.pc + 3) % 65536
            })
            &&& step_spec(c, m).1 == m
            &&& step_spec(c, m).2 == 10
        }),
{
    let c1 = after_fetch(c);
    let op = m.read(c.pc);
    let y = ((op / 8) % 8) as int;
    lemma_decode_x3(c1, m, op);
    assert(exec_main(c1, m, op) == main_x3(c1, m, y, 2));
    let c2 = crate::cpu::isa::fetched2(c1);
    assert(c2.f == c.f);
    assert(main_x3(c1, m, y, 2) == (if crate::cpu::cond_holds(c2, y) { Cpu { pc: m.read16(c1.pc), ..c2 } } else { c2 }, m, 10u32));
    reveal(unpack);
    assert(c1.pc == (c.pc + 1) % 65536);
}

/// INC rr (03 13 23 33) adds 1 to BC, DE, HL or SP and DEC rr (0B 1B 2B 3B) subtracts 1,
/// modulo 65536, in 6 T-states; the other pairs and memory stay.
#[verifier::spinoff_prover]
#[verifier::rlimit(100)]
pub proof fn lemma_step_inc_dec_pair(c: Cpu, m: BusState)
    requires
        !c.halted,
        m.read(c.pc) % 8 == 3,
        m.read(c.pc) < 0x40,
    ensures
        ({
            let op = m.read(c.pc);
            let c2 = step_spec(c, m).0;
            let delta: int = if (op / 8) % 2 == 0 { 1 } else { -1 };
            let bc = c.b * 256 + c.c;
            let de = c.d * 256 + c.e;
            let hl = c.h * 256 + c.l;
            let bc2 = c2.b * 256 + c2.c;
            let de2 = c2.d * 256 + c2.e;
            let hl2 = c2.h * 256 + c2.l;
            &&& op / 16 == 0 ==> bc2 == (bc + delta + 65536) % 65536 && de2 == de && hl2 == hl && c2.sp == c.sp
            &&& op / 16 == 1 ==> de2 == (de + delta + 65536) % 65536 && bc2 == bc && hl2 == hl && c2.sp == c.sp
            &&& op / 16 == 2 ==> hl2 == (hl + delta + 65536) % 65536 && bc2 == bc && de2 == de && c2.sp == c.sp
            &&& op / 16 == 3 ==> c2.sp == (c.sp + delta + 65536) % 65536 && bc2 == bc && de2 == de && hl2 == hl
            &&& c2.a == c.a && c2.f == c.f
            &&& c2.pc == (c.pc + 1) % 65536
            &&& step_spec(c, m).1 == m
            &&& step_spec(c, m).2 == 6
        }),
{
    let c1 = after_fetch(c);
    let op = m.read(c.pc);
    let y = ((op / 8) % 8) as int;
    let p = y / 2;
    let v = crate::cpu::reg16(c1, p);
    let v2 = if y % 2 == 0 { crate::cpu::wrap16(v + 1) } else { crate::cpu::wrap16(v - 1) };
    lemma_x0_pair_step(c1, m, op);
    lemma_pair_word(c1.b, c1.c, v2);
    lemma_pair_word(c1.d, c1.e, v2);
    lemma_pair_word(c1.h, c1.l, v2);
    assert(op / 16 == p);
}

proof fn lemma_x0_pair_step(c1: Cpu, m: BusState, op: u8)
    requires
        op % 8 == 3,
        op < 0x40,
    ensures
        ({
            let y = ((op / 8) % 8) as int;
        exec_main(c1, m, op) == (crate::cpu::set_reg16(
            c1,
            y / 2,
            if y % 2 == 0 { crate::cpu::wrap16(crate::cpu::reg16(c1, y / 2) + 1) } else { crate::cpu::wrap16(crate::cpu::reg16(c1, y / 2) - 1) },
        ), m, 6u32)
        }),
{
    lemma_decode_x0(c1, m, op);
}

/// A register pair holds the word `hi * 256 + lo`, and storing a word splits it that way.
proof fn lemma_pair_word(hi: u8, lo: u8, v: u16)
    ensures
        pair(hi, lo) == hi * 256 + lo,
        hi_byte(v) * 256 + lo_byte(v) == v,
{
    reveal(pair);
    reveal(hi_byte);
    reveal(lo_byte);
}

/// Register number `i` of the instruction encoding: B C D E H L - A (6 is the byte at HL).
pub open spec fn named_reg(c: Cpu, i: int) -> u8 {
    if i == 0 { c.b } else if i == 1 { c.c } else if i == 2 { c.d } else if i == 3 { c.e }
    else if i == 4 { c.h } else if i == 5 { c.l } else { c.a }
}

/// HL as an address.
pub open spec fn hl_addr(c: Cpu) -> u16 {
    (c.h * 256 + c.l) as u16
}

/// The 8-bit operand number `i` names: a register, or the byte at HL for 6.
pub open spec fn operand(c: Cpu, m: BusState, i: int) -> int {
    if i == 6 { m.read(hl_addr(c)) as int } else { named_reg(c, i) as int }
}

proof fn lemma_reg8_is_operand(c: Cpu, m: BusState, i: int)
    requires
        0 <= i < 8,
    ensures
        reg8(c, m, i) as int == operand(c, m, i),
{
    reveal(pair);
}

/// LD r,r' (40-7F but 76): register `y` (bits 5:3), or the byte at HL for 6, gets the value
/// of register `z` (bits 2:0), or of the byte at HL for 6; flags and the other registers
/// stay. 4 T-states, 7 with a memory operand.
#[verifier::spinoff_prover]
#[verifier::rlimit(100)]
pub proof fn lemma_step_ld_r_r(c: Cpu, m: BusState)
    requires
        !c.halted,
        m.wf(),
        m.read(c.pc) / 64 == 1,
        m.read(c.pc) != 0x76,
    ensures
        ({
            let op = m.read(c.pc);
            let y = ((op / 8) % 8) as int;
            let z = (op % 8) as int;
            let (c2, m2, t) = step_spec(c, m);
            let v = operand(c, m, z);
            &&& y == 6 ==> m2 == m.write(hl_addr(c), v as u8) && named_reg(c2, 0) == c.b && c2.c == c.c
                && c2.d == c.d && c2.e == c.e && c2.h == c.h && c2.l == c.l && c2.a == c.a
            &&& y != 6 ==> m2 == m && named_reg(c2, y) == v
            &&& forall|j: int| 0 <= j < 8 && j != 6 && j != y ==> #[trigger] named_reg(c2, j) == named_reg(c, j)
            &&& c2.f == c.f
            &&& c2.pc == (c.pc + 1) % 65536
            &&& t == (if y == 6 || z == 6 { 7u32 } else { 4u32 })
        }),
{
    let c1 = after_fetch(c);
    let op = m.read(c.pc);
    lemma_decode_x1(c1, m, op);
    lemma_reg8_is_operand(c1, m, (op % 8) as int);
    reveal(pair);
}

/// The effect of ALU operation `y` (ADD ADC SUB SBC AND XOR OR CP) with operand `v` on A
/// and the flag byte: A and the carry (bit 0) and zero (bit 6) flags after it.
pub open spec fn alu_effect(y: int, a: int, v: int, cin: int, a2: int, f2: int) -> bool {
    let carry = f2 % 2 == 1;
    let zero = (f2 / 64) % 2 == 1;
    &&& y == 0 ==> a2 == (a + v) % 256 && carry == (a + v > 255)
    &&& y == 1 ==> a2 == (a + v + cin) % 256 && carry == (a + v + cin > 255)
    &&& y == 2 ==> a2 == (a - v + 256) % 256 && carry == (a < v)
    &&& y == 3 ==> a2 == (a - v - cin + 512) % 256 && carry == (a < v + cin)
    &&& y == 4 ==> a2 == (a as u8 & v as u8) && !carry
    &&& y == 5 ==> a2 == (a as u8 ^ v as u8) && !carry
    &&& y == 6 ==> a2 == (a as u8 | v as u8) && !carry
    &&& y == 7 ==> a2 == a && carry == (a < v) && zero == (a == v)
    &&& y != 7 ==> zero == (a2 == 0)
}

proof fn lemma_flag_bits(f: u8)
    ensures
        unpack(f).c == (f % 2 == 1),
        unpack(f).z == ((f / 64) % 2 == 1),
{
    reveal(unpack);
}

proof fn lemma_add_effect(c: Cpu, v: u8, k: u8)
    requires
        k <= 1,
    ensures
        add8_spec(c, v, k).a == (c.a + v + k) % 256,
        unpack(add8_spec(c, v, k).f).c == (c.a + v + k > 255),
        unpack(add8_spec(c, v, k).f).z == (add8_spec(c, v, k).a == 0),
        add8_spec(c, v, k) == (Cpu { a: add8_spec(c, v, k).a, f: add8_spec(c, v, k).f, ..c }),
{
    broadcast use crate::flags::lemma_unpack_pack;
}

proof fn lemma_sub_effect(c: Cpu, v: u8, k: u8)
    requires
        k <= 1,
    ensures
        sub8_spec(c, v, k).a == (c.a - v - k + 512) % 256,
        unpack(sub8_spec(c, v, k).f).c == (c.a < v + k),
        unpack(sub8_spec(c, v, k).f).z == (sub8_spec(c, v, k).a == 0),
        sub8_spec(c, v, k) == (Cpu { a: sub8_spec(c, v, k).a, f: sub8_spec(c, v, k).f, ..c }),
{
    broadcast use crate::flags::lemma_unpack_pack;
}

proof fn lemma_logic_effect(c: Cpu, v: u8)
    ensures
        and8_spec(c, v).a == c.a & v && !unpack(and8_spec(c, v).f).c && unpack(and8_spec(c, v).f).z == (c.a & v == 0),
        xor8_spec(c, v).a == c.a ^ v && !unpack(xor8_spec(c, v).f).c && unpack(xor8_spec(c, v).f).z == (c.a ^ v == 0),
        or8_spec(c, v).a == c.a | v && !unpack(or8_spec(c, v).f).c && unpack(or8_spec(c, v).f).z == (c.a | v == 0),
        and8_spec(c, v) == (Cpu { a: and8_spec(c, v).a, f: and8_spec(c, v).f, ..c }),
        xor8_spec(c, v) == (Cpu { a: xor8_spec(c, v).a, f: xor8_spec(c, v).f, ..c }),
        or8_spec(c, v) == (Cpu { a: or8_spec(c, v).a, f: or8_spec(c, v).f, ..c }),
{
    broadcast use crate::flags::lemma_unpack_pack;
}

proof fn lemma_cp_effect(c: Cpu, v: u8)
    ensures
        cp8_spec(c, v).a == c.a,
        unpack(cp8_spec(c, v).f).c == (c.a < v),
        unpack(cp8_spec(c, v).f).z == (c.a == v),
        cp8_spec(c, v) == (Cpu { f: cp8_spec(c, v).f, ..c }),
{
    broadcast use crate::flags::lemma_unpack_pack;
}

proof fn lemma_alu_effect(c: Cpu, y: int, v: u8)
    requires
        0 <= y < 8,
    ensures
        alu_effect(y, c.a as int, v as int, (c.f % 2) as int, alu_spec(c, y, v).a as int, alu_spec(c, y, v).f as int),
        alu_spec(c, y, v) == (Cpu { a: alu_spec(c, y, v).a, f: alu_spec(c, y, v).f, ..c }),
{
    let r = alu_spec(c, y, v);
    lemma_flag_bits(r.f);
    lemma_flag_bits(c.f);
    let cin: u8 = if c.f % 2 == 1 { 1 } else { 0 };
    if y == 0 || y == 1 {
        let k: u8 = if y == 0 { 0 } else { cin };
        lemma_add_effect(c, v, k);
    } else if y == 2 || y == 3 {
        let k: u8 = if y == 2 { 0 } else { cin };
        lemma_sub_effect(c, v, k);
    } else if y <= 6 {
        lemma_logic_effect(c, v);
    } else {
        lemma_cp_effect(c, v);
    }
}

/// ADD ADC SUB SBC AND XOR OR CP A,r (80-BF): A and the carry and zero flags as the
/// operation gives them on A and the operand (register `z`, or the byte at HL for 6), the
/// carry in being bit 0 of F; the other registers and memory stay.
#[verifier::spinoff_prover]
#[verifier::rlimit(100)]
pub proof fn lemma_step_alu(c: Cpu, m: BusState)
    requires
        !c.halted,
        m.read(c.pc) / 64 == 2,
    ensures
        ({
            let op = m.read(c.pc);
            let y = ((op / 8) % 8) as int;
            let z = (op % 8) as int;
            let (c2, m2, t) = step_spec(c, m);
            &&& alu_effect(y, c.a as int, operand(c, m, z), (c.f % 2) as int, c2.a as int, c2.f as int)
            &&& forall|j: int| 0 <= j < 6 ==> #[trigger] named_reg(c2, j) == named_reg(c, j)
            &&& c2.sp == c.sp && c2.pc == (c.pc + 1) % 65536
            &&& m2 == m
            &&& t == (if z == 6 { 7u32 } else { 4u32 })
        }),
{
    let c1 = after_fetch(c);
    let op = m.read(c.pc);
    let y = ((op / 8) % 8) as int;
    let z = (op % 8) as int;
    lemma_decode_x2(c1, m, op);
    lemma_reg8_is_operand(c1, m, z);
    lemma_alu_effect(c1, y, reg8(c1, m, z));
}

proof fn lemma_x0_incdec_step(c1: Cpu, m: BusState, op: u8)
    requires
        op < 0x40,
        op % 8 == 4 || op % 8 == 5,
    ensures
        ({
            let y = ((op / 8) % 8) as int;
            let v = reg8(c1, m, y);
            let (c2, res) = if op % 8 == 4 { crate::cpu::alu::inc8_spec(c1, v) } else { crate::cpu::alu::dec8_spec(c1, v) };
            exec_main(c1, m, op) == (crate::cpu::set_reg8(c2, m, y, res).0, crate::cpu::set_reg8(c2, m, y, res).1,
                if y == 6 { 11u32 } else { 4u32 })
        }),
{
    lemma_decode_x0(c1, m, op);
}

/// INC r (04 0C .. 3C) adds 1 and DEC r (05 0D .. 3D) subtracts 1, modulo 256, to register
/// `y` (bits 5:3) or the byte at HL for 6; the carry flag stays, the zero flag tells whether
/// the result is 0, and the other registers stay.
#[verifier::spinoff_prover]
#[verifier::rlimit(100)]
pub proof fn lemma_step_inc_dec_r(c: Cpu, m: BusState)
    requires
        !c.halted,
        m.wf(),
        m.read(c.pc) < 0x40,
        m.read(c.pc) % 8 == 4 || m.read(c.pc) % 8 == 5,
    ensures
        ({
            let op = m.read(c.pc);
            let y = ((op / 8) % 8) as int;
            let delta: int = if op % 8 == 4 { 1 } else { 255 };
            let (c2, m2, t) = step_spec(c, m);
            let res = (operand(c, m, y) + delta) % 256;
            &&& y == 6 ==> m2 == m.write(hl_addr(c), res as u8)
            &&& y != 6 ==> m2 == m && named_reg(c2, y) == res
            &&& forall|j: int| 0 <= j < 8 && j != 6 && j != y ==> #[trigger] named_reg(c2, j) == named_reg(c, j)
            &&& c2.f % 2 == c.f % 2
            &&& (c2.f / 64) % 2 == 1 <==> res == 0
            &&& c2.pc == (c.pc + 1) % 65536
            &&& t == (if y == 6 { 11u32 } else { 4u32 })
        }),
{
    let c1 = after_fetch(c);
    let op = m.read(c.pc);
    let y = ((op / 8) % 8) as int;
    lemma_x0_incdec_step(c1, m, op);
    lemma_reg8_is_operand(c1, m, y);
    broadcast use crate::flags::lemma_unpack_pack;
    let v = reg8(c1, m, y);
    let (c2, res) = if op % 8 == 4 { crate::cpu::alu::inc8_spec(c1, v) } else { crate::cpu::alu::dec8_spec(c1, v) };
    lemma_flag_bits(c2.f);
    lemma_flag_bits(c1.f);
    reveal(pair);
}

proof fn lemma_x0_ld_n_step(c1: Cpu, m: BusState, op: u8)
    requires
        op < 0x40,
        op % 8 == 6,
    ensures
        ({
            let y = ((op / 8) % 8) as int;
            exec_main(c1, m, op) == (crate::cpu::set_reg8(fetched(c1), m, y, m.read(c1.pc)).0, crate::cpu::set_reg8(
                fetched(c1),
                m,
                y,
                m.read(c1.pc),
            ).1, if y == 6 { 10u32 } else { 7u32 })
        }),
{
    lemma_decode_x0(c1, m, op);
}

/// LD r,n (06 0E .. 3E): register `y` (bits 5:3), or the byte at HL for 6, gets the byte
/// after the opcode; PC moves past it and the flags stay.
#[verifier::spinoff_prover]
#[verifier::rlimit(100)]
pub proof fn lemma_step_ld_n(c: Cpu, m: BusState)
    requires
        !c.halted,
        m.read(c.pc) < 0x40,
        m.read(c.pc) % 8 == 6,
    ensures
        ({
            let op = m.read(c.pc);
            let y = ((op / 8) % 8) as int;
            let (c2, m2, t) = step_spec(c, m);
            let n = code_byte(c, m, 1);
            &&& y == 6 ==> m2 == m.write(hl_addr(c), n as u8)
            &&& y != 6 ==> m2 == m && named_reg(c2, y) == n
            &&& forall|j: int| 0 <= j < 8 && j != 6 && j != y ==> #[trigger] named_reg(c2, j) == named_reg(c, j)
            &&& c2.f == c.f
            &&& c2.pc == (c.pc + 2) % 65536
            &&& t == (if y == 6 { 10u32 } else { 7u32 })
        }),
{
    let c1 = after_fetch(c);
    let op = m.read(c.pc);
    lemma_x0_ld_n_step(c1, m, op);
    reveal(pair);
}

proof fn lemma_x0_jr_step(c1: Cpu, m: BusState, op: u8)
    requires
        op == 0x10 || op == 0x18 || op == 0x20 || op == 0x28 || op == 0x30 || op == 0x38,
    ensures
        ({
            let e = crate::cpu::disp(m.read(c1.pc));
            let cf = fetched(c1);
            let cb = Cpu { b: crate::cpu::wrap8(cf.b - 1), ..cf };
            &&& op == 0x18 ==> exec_main(c1, m, op) == (crate::cpu::isa::jump_rel(cf, e), m, 12u32)
            &&& op == 0x10 ==> exec_main(c1, m, op) == (if cb.b != 0 { (crate::cpu::isa::jump_rel(cb, e), m, 13u32) } else { (cb, m, 8u32) })
            &&& op >= 0x20 ==> exec_main(c1, m, op) == (if crate::cpu::cond_holds(cf, ((op / 8) % 8) - 4) {
                (crate::cpu::isa::jump_rel(cf, e), m, 12u32)
            } else {
                (cf, m, 7u32)
            })
        }),
{
    lemma_decode_x0(c1, m, op);
}

/// JR e (18), JR NZ/Z/NC/C,e (20 28 30 38) and DJNZ e (10): with the signed displacement
/// `e` after the opcode, PC goes to the address after the instruction plus `e` when the
/// jump is taken, else to the address after the instruction. JR always jumps; JR cc jumps
/// when its condition holds on F (Z bit 6, C bit 0); DJNZ first decrements B (mod 256) and
/// jumps when the result is not 0. Taken jumps take 12 T-states (DJNZ 13), others 7 (DJNZ 8).
#[verifier::spinoff_prover]
#[verifier::rlimit(100)]
pub proof fn lemma_step_jr(c: Cpu, m: BusState)
    requires
        !c.halted,
        m.read(c.pc) == 0x10 || m.read(c.pc) == 0x18 || m.read(c.pc) == 0x20 || m.read(c.pc) == 0x28
            || m.read(c.pc) == 0x30 || m.read(c.pc) == 0x38,
    ensures
        ({
            let op = m.read(c.pc);
            let f = c.f as int;
            let z = (f / 64) % 2 == 1;
            let cy = f % 2 == 1;
            let b2 = (c.b + 255) % 256;
            let taken = op == 0x18 || (op == 0x10 && b2 != 0) || (op == 0x20 && !z) || (op == 0x28 && z)
                || (op == 0x30 && !cy) || (op == 0x38 && cy);
            let e = code_byte(c, m, 1);
            let d = if e < 128 { e } else { e - 256 };
            let (c2, m2, t) = step_spec(c, m);
            &&& c2.pc as int == (if taken { (c.pc + 2 + d + 65536) % 65536 } else { (c.pc + 2) % 65536 })
            &&& op == 0x10 ==> c2.b == b2
            &&& op != 0x10 ==> c2.b == c.b
            &&& c2.f == c.f && c2.a == c.a
            &&& m2 == m
            &&& t == (if op == 0x10 { if taken { 13u32 } else { 8u32 } } else if taken { 12u32 } else { 7u32 })
        }),
{
    let c1 = after_fetch(c);
    let op = m.read(c.pc);
    lemma_x0_jr_step(c1, m, op);
    reveal(unpack);
}

/// The little-endian word at `a` (wrapping at 0xFFFF).
pub open spec fn word_at(m: BusState, a: int) -> int {
    m.read((a % 65536) as u16) + 256 * m.read(((a + 1) % 65536) as u16)
}

/// Whether the two bytes below SP lie in RAM (SP = 0 wraps to 0xFFFE/0xFFFF).
pub open spec fn stack_in_ram(sp: u16) -> bool {
    sp == 0 || sp >= 0x4002
}

/// Whether the flags byte `f` meets condition `cc` of the encoding (bits 5:3 of the
/// opcode): NZ Z NC C PO PE P M on Z (bit 6), C (bit 0), P/V (bit 2), S (bit 7).
pub open spec fn flag_condition(f: u8, cc: int) -> bool {
    let v = f as int;
    let bit = if cc / 2 == 0 { (v / 64) % 2 } else if cc / 2 == 1 { v % 2 } else if cc / 2 == 2 { (v / 4) % 2 } else { v / 128 };
    if cc % 2 == 0 { bit == 0 } else { bit == 1 }
}

proof fn lemma_cond_is_flag_condition(c: Cpu, cc: int)
    requires
        0 <= cc < 8,
    ensures
        crate::cpu::cond_holds(c, cc) == flag_condition(c.f, cc),
{
    reveal(unpack);
}

proof fn lemma_x3_stack_step(c1: Cpu, m: BusState, op: u8)
    requires
        op >= 0xC0,
        op % 8 == 0 || op == 0xC9 || op % 8 == 4 || op == 0xCD || op % 8 == 7,
    ensures
        ({
            let y = ((op / 8) % 8) as int;
            let c2 = crate::cpu::isa::fetched2(c1);
            let nn = m.read16(c1.pc);
            &&& op % 8 == 0 ==> exec_main(c1, m, op) == (if crate::cpu::cond_holds(c1, y) {
                (crate::cpu::isa::ret(c1, m), m, 11u32)
            } else {
                (c1, m, 5u32)
            })
            &&& op == 0xC9 ==> exec_main(c1, m, op) == (crate::cpu::isa::ret(c1, m), m, 10u32)
            &&& op % 8 == 4 ==> exec_main(c1, m, op) == (if crate::cpu::cond_holds(c2, y) {
                (crate::cpu::isa::call(c2, m, nn).0, crate::cpu::isa::call(c2, m, nn).1, 17u32)
            } else {
                (c2, m, 10u32)
            })
            &&& op == 0xCD ==> exec_main(c1, m, op) == (crate::cpu::isa::call(c2, m, nn).0, crate::cpu::isa::call(c2, m, nn).1, 17u32)
            &&& op % 8 == 7 ==> exec_main(c1, m, op) == (crate::cpu::isa::call(c1, m, (y * 8) as u16).0, crate::cpu::isa::call(c1, m, (y * 8) as u16).1, 11u32)
        }),
{
    lemma_decode_x3(c1, m, op);
}

/// The call and return instructions. CALL nn (CD) and CALL cc,nn (C4 CC .. FC) push the
/// address after the instruction and jump to the operand (a CALL cc only when its
/// condition holds, else it moves on); RST p (C7 CF .. FF) pushes the address after it and
/// jumps to p = bits 5:3 times 8; RET (C9) and RET cc (C0 C8 .. F8, when the condition
/// holds) pop PC. A push stores the high byte at SP - 1 and the low byte at SP - 2 and
/// lowers SP by 2; a pop reads the word at SP and raises SP by 2.
#[verifier::spinoff_prover]
#[verifier::rlimit(100)]
pub proof fn lemma_step_call_ret(c: Cpu, m: BusState)
    requires
        !c.halted,
        m.wf(),
        stack_in_ram(c.sp),
        m.read(c.pc) >= 0xC0,
        m.read(c.pc) % 8 == 0 || m.read(c.pc) == 0xC9 || m.read(c.pc) % 8 == 4 || m.read(c.pc) == 0xCD
            || m.read(c.pc) % 8 == 7,
    ensures
        ({
            let op = m.read(c.pc);
            let cc = ((op / 8) % 8) as int;
            let (c2, m2, t) = step_spec(c, m);
            let is_call = op == 0xCD || (op % 8 == 4 && flag_condition(c.f, cc));
            let is_ret = op == 0xC9 || (op % 8 == 0 && flag_condition(c.f, cc));
            &&& is_call ==> c2.pc == word_at(m, c.pc + 1) && c2.sp == (c.sp + 65534) % 65536
                && word_at(m2, c2.sp as int) == (c.pc + 3) % 65536 && t == 17
            &&& op % 8 == 4 && !is_call ==> c2.pc == (c.pc + 3) % 65536 && c2.sp == c.sp && m2 == m && t == 10
            &&& op % 8 == 7 ==> c2.pc == cc * 8 && c2.sp == (c.sp + 65534) % 65536
                && word_at(m2, c2.sp as int) == (c.pc + 1) % 65536 && t == 11
            &&& is_ret ==> c2.pc == word_at(m, c.sp as int) && c2.sp == (c.sp + 2) % 65536 && m2 == m
            &&& op % 8 == 0 && !is_ret ==> c2.pc == (c.pc + 1) % 65536 && c2.sp == c.sp && m2 == m && t == 5
            &&& op == 0xC9 ==> t == 10
            &&& op % 8 == 0 && is_ret ==> t == 11
            &&& c2.a == c.a && c2.f == c.f
        }),
{
    let c1 = after_fetch(c);
    let op = m.read(c.pc);
    let cc = ((op / 8) % 8) as int;
    lemma_x3_stack_step(c1, m, op);
    lemma_cond_is_flag_condition(c1, cc);
    let c2 = crate::cpu::isa::fetched2(c1);
    lemma_cond_is_flag_condition(c2, cc);
    crate::cpu::laws::lemma_push_then_pop(c2, m, c2.pc);
    crate::cpu::laws::lemma_push_then_pop(c1, m, c1.pc);
}

#[verifier::spinoff_prover]
#[verifier::rlimit(100)]
proof fn lemma_x3_misc_step(c1: Cpu, m: BusState, op: u8)
    requires
        op >= 0xC0,
        op % 16 == 1 || op % 16 == 5 || op == 0xC3 || op == 0xE9 || op == 0xEB || op == 0xD9,
    ensures
        ({
            let p = ((op / 16) % 4) as int;
            &&& op % 16 == 1 ==> exec_main(c1, m, op) == (crate::cpu::set_reg16_af(crate::cpu::popped(c1), p, crate::cpu::stack_top(c1, m)), m, 10u32)
            &&& op % 16 == 5 ==> exec_main(c1, m, op) == (crate::cpu::push(c1, m, crate::cpu::reg16_af(c1, p)).0, crate::cpu::push(c1, m, crate::cpu::reg16_af(c1, p)).1, 11u32)
            &&& op == 0xC3 ==> exec_main(c1, m, op) == (Cpu { pc: m.read16(c1.pc), ..crate::cpu::isa::fetched2(c1) }, m, 10u32)
            &&& op == 0xE9 ==> exec_main(c1, m, op) == (Cpu { pc: crate::cpu::hl_of(c1), ..c1 }, m, 4u32)
            &&& op == 0xEB ==> exec_main(c1, m, op) == (crate::cpu::with_hl(crate::cpu::with_de(c1, crate::cpu::hl_of(c1)), crate::cpu::de_of(c1)), m, 4u32)
            &&& op == 0xD9 ==> exec_main(c1, m, op) == (crate::cpu::isa::exx(c1), m, 4u32)
        }),
{
    lemma_decode_x3(c1, m, op);
}

/// The value of register pair `p` of PUSH and POP (bits 5:4): BC, DE, HL or AF, high
/// register first.
pub open spec fn stack_pair(c: Cpu, p: int) -> int {
    if p == 0 { c.b * 256 + c.c } else if p == 1 { c.d * 256 + c.e } else if p == 2 { c.h * 256 + c.l } else { c.a * 256 + c.f }
}

/// PUSH qq (C5 D5 E5 F5) stores BC, DE, HL or AF as the word below SP and lowers SP by 2;
/// POP qq (C1 D1 E1 F1) loads the pair from the word at SP and raises SP by 2.
#[verifier::spinoff_prover]
#[verifier::rlimit(100)]
pub proof fn lemma_step_push_pop(c: Cpu, m: BusState)
    requires
        !c.halted,
        m.wf(),
        stack_in_ram(c.sp),
        m.read(c.pc) >= 0xC0,
        m.read(c.pc) % 16 == 1 || m.read(c.pc) % 16 == 5,
    ensures
        ({
            let op = m.read(c.pc);
            let p = ((op / 16) % 4) as int;
            let (c2, m2, t) = step_spec(c, m);
            &&& op % 16 == 5 ==> c2.sp == (c.sp + 65534) % 65536 && word_at(m2, c2.sp as int) == stack_pair(c, p)
                && stack_pair(c2, p) == stack_pair(c, p) && c2.pc == (c.pc + 1) % 65536 && t == 11
            &&& op % 16 == 1 ==> c2.sp == (c.sp + 2) % 65536 && stack_pair(c2, p) == word_at(m, c.sp as int) && m2 == m
                && c2.pc == (c.pc + 1) % 65536 && t == 10
        }),
{
    let c1 = after_fetch(c);
    let op = m.read(c.pc);
    let p = ((op / 16) % 4) as int;
    lemma_x3_misc_step(c1, m, op);
    let v = crate::cpu::reg16_af(c1, p);
    let w = crate::cpu::stack_top(c1, m);
    lemma_pair_word(c1.b, c1.c, w);
    lemma_pair_word(c1.d, c1.e, w);
    lemma_pair_word(c1.h, c1.l, w);
    lemma_pair_word(c1.a, c1.f, w);
    crate::cpu::laws::lemma_push_then_pop(c1, m, v);
    lemma_pair_word(0, 0, v);
    reveal(pair);
}

/// JP nn (C3) jumps to the operand; JP (HL) (E9) jumps to HL; EX DE,HL (EB) exchanges DE
/// and HL; EXX (D9) exchanges BC, DE, HL with BC', DE', HL'.
#[verifier::spinoff_prover]
#[verifier::rlimit(100)]
pub proof fn lemma_step_jump_exchange(c: Cpu, m: BusState)
    requires
        !c.halted,
        m.read(c.pc) == 0xC3 || m.read(c.pc) == 0xE9 || m.read(c.pc) == 0xEB || m.read(c.pc) == 0xD9,
    ensures
        ({
            let op = m.read(c.pc);
            let (c2, m2, t) = step_spec(c, m);
            &&& op == 0xC3 ==> c2.pc == word_at(m, c.pc + 1) && m2 == m && t == 10
            &&& op == 0xE9 ==> c2.pc == c.h * 256 + c.l && m2 == m && t == 4
            &&& op == 0xEB ==> c2.d == c.h && c2.e == c.l && c2.h == c.d && c2.l == c.e && c2.b == c.b && c2.c == c.c
                && m2 == m && t == 4
            &&& op == 0xD9 ==> c2.b == c.b2 && c2.c == c.c2 && c2.d == c.d2 && c2.e == c.e2 && c2.h == c.h2 && c2.l == c.l2
                && c2.b2 == c.b && c2.c2 == c.c && c2.d2 == c.d && c2.e2 == c.e && c2.h2 == c.h && c2.l2 == c.l
                && c2.a == c.a && c2.f == c.f && m2 == m && t == 4
        }),
{
    let c1 = after_fetch(c);
    let op = m.read(c.pc);
    lemma_x3_misc_step(c1, m, op);
    reveal(pair);
    reveal(hi_byte);
    reveal(lo_byte);
}

proof fn lemma_cb_step(c1: Cpu, m: BusState)
    ensures
        exec_main(c1, m, 0xCB) == crate::cpu::isa::exec_cb(c1, m),
{
    lemma_decode_x3(c1, m, 0xCB);
}

/// The shifts and rotations of the CB group on `v` with carry in `cin`, by `kind`
/// (bits 5:3): RLC RRC RL RR SLA SRA SLL SRL.
pub open spec fn shifted(kind: int, v: int, cin: int) -> int {
    if kind == 0 { (2 * v + v / 128) % 256 }
    else if kind == 1 { v / 2 + 128 * (v % 2) }
    else if kind == 2 { (2 * v + cin) % 256 }
    else if kind == 3 { v / 2 + 128 * cin }
    else if kind == 4 { (2 * v) % 256 }
    else if kind == 5 { v / 2 + 128 * (v / 128) }
    else if kind == 6 { (2 * v + 1) % 256 }
    else { v / 2 }
}

/// The bit shifted out by `kind`: bit 7 for the left moves (even kinds), bit 0 for the right.
pub open spec fn shifted_out(kind: int, v: int) -> bool {
    if kind % 2 == 0 { v >= 128 } else { v % 2 == 1 }
}

/// Bit `k` of `v`.
pub open spec fn bit_of(v: int, k: int) -> int {
    (v / pow2_of(k)) % 2
}

proof fn lemma_bit_test_mask(v: u8, k: u8) by (bit_vector)
    requires
        k < 8,
    ensures
        (v & (1u8 << k) == 0) == ((v >> k) & 1 == 0),
{
}

#[verifier::spinoff_prover]
#[verifier::rlimit(100)]
proof fn lemma_rot_matches(c: Cpu, kind: int, v: u8)
    requires
        0 <= kind < 8,
    ensures
        crate::cpu::alu::rot_spec(c, kind, v).1 as int == shifted(kind, v as int, (c.f % 2) as int),
        (crate::cpu::alu::rot_spec(c, kind, v).0.f % 2 == 1) == shifted_out(kind, v as int),
        crate::cpu::alu::rot_spec(c, kind, v).0 == (Cpu { f: crate::cpu::alu::rot_spec(c, kind, v).0.f, ..c }),
{
    broadcast use crate::flags::lemma_unpack_pack;
    lemma_flag_bits(c.f);
    lemma_flag_bits(crate::cpu::alu::rot_spec(c, kind, v).0.f);
    let cin = crate::flags::b2i(crate::cpu::flags_of(c).c);
    assert(cin == c.f % 2);
    assert(crate::cpu::alu::rot_spec(c, kind, v).1 == crate::cpu::alu::rot_result(kind, v, cin));
    assert((v % 128) * 2 == (2 * v) % 256);
}

/// The CB shifts and rotations (CB 00-3F): with `r` = bits 2:0 (a register, or the byte at
/// HL for 6) and `v` its value, RLC RRC RL RR SLA SRA SLL SRL (bits 5:3) store the moved
/// value in `r` and the bit moved out in the carry flag; RL and RR move bit 0 of F in.
#[verifier::spinoff_prover]
#[verifier::rlimit(100)]
pub proof fn lemma_step_cb_shift(c: Cpu, m: BusState)
    requires
        !c.halted,
        m.wf(),
        m.read(c.pc) == 0xCB,
        code_byte(c, m, 1) < 0x40,
    ensures
        ({
            let op = code_byte(c, m, 1);
            let r = op % 8;
            let k = (op / 8) % 8;
            let v = operand(c, m, r);
            let res = shifted(k, v, (c.f % 2) as int);
            let (c2, m2, t) = step_spec(c, m);
            &&& r == 6 ==> m2 == m.write(hl_addr(c), res as u8)
            &&& r != 6 ==> m2 == m && named_reg(c2, r) == res
            &&& forall|j: int| 0 <= j < 8 && j != 6 && j != r ==> #[trigger] named_reg(c2, j) == named_reg(c, j)
            &&& (c2.f % 2 == 1) == shifted_out(k, v)
            &&& t == (if r == 6 { 15u32 } else { 8u32 })
            &&& c2.pc == (c.pc + 2) % 65536
        }),
{
    let c0 = after_fetch(c);
    lemma_cb_step(c0, m);
    let op = m.read(c0.pc);
    let r = (op % 8) as int;
    let c1 = fetched(c0);
    lemma_reg8_is_operand(c1, m, r);
    lemma_rot_matches(c1, (op / 8) as int, reg8(c1, m, r));
    reveal(pair);
}

/// BIT k,r (CB 40-7F): the zero flag is set exactly when bit `k` (bits 5:3) of `r` (bits 2:0,
/// the byte at HL for 6) is 0; no register and no memory changes.
#[verifier::spinoff_prover]
#[verifier::rlimit(100)]
pub proof fn lemma_step_cb_bit(c: Cpu, m: BusState)
    requires
        !c.halted,
        m.wf(),
        m.read(c.pc) == 0xCB,
        0x40 <= code_byte(c, m, 1) < 0x80,
    ensures
        ({
            let op = code_byte(c, m, 1);
            let r = op % 8;
            let k = (op / 8) % 8;
            let (c2, m2, t) = step_spec(c, m);
            &&& ((c2.f / 64) % 2 == 1) == (bit_of(operand(c, m, r), k) == 0)
            &&& m2 == m
            &&& forall|j: int| 0 <= j < 8 && j != 6 ==> #[trigger] named_reg(c2, j) == named_reg(c, j)
            &&& t == (if r == 6 { 12u32 } else { 8u32 })
            &&& c2.pc == (c.pc + 2) % 65536
        }),
{
    let c0 = after_fetch(c);
    lemma_cb_step(c0, m);
    let op = m.read(c0.pc);
    let r = (op % 8) as int;
    let k = ((op / 8) % 8) as u8;
    let c1 = fetched(c0);
    lemma_reg8_is_operand(c1, m, r);
    let v = reg8(c1, m, r);
    lemma_shift_bit(v, k);
    lemma_bit_test_mask(v, k);
    broadcast use crate::flags::lemma_unpack_pack;
    lemma_flag_bits(crate::cpu::alu::bit_test_spec(c1, k, v).f);
    reveal(pair);
}

/// RES k,r (CB 80-BF) and SET k,r (CB C0-FF): `r` (bits 2:0, the byte at HL for 6) gets its
/// value with bit `k` (bits 5:3) cleared or set; the flags and the other registers stay.
#[verifier::spinoff_prover]
#[verifier::rlimit(100)]
pub proof fn lemma_step_cb_res_set(c: Cpu, m: BusState)
    requires
        !c.halted,
        m.wf(),
        m.read(c.pc) == 0xCB,
        code_byte(c, m, 1) >= 0x80,
    ensures
        ({
            let op = code_byte(c, m, 1);
            let r = op % 8;
            let k = (op / 8) % 8;
            let v = operand(c, m, r);
            let res = if op < 0xC0 { v - bit_of(v, k) * pow2_of(k) } else { v + (1 - bit_of(v, k)) * pow2_of(k) };
            let (c2, m2, t) = step_spec(c, m);
            &&& r == 6 ==> m2 == m.write(hl_addr(c), res as u8)
            &&& r != 6 ==> m2 == m && named_reg(c2, r) == res
            &&& forall|j: int| 0 <= j < 8 && j != 6 && j != r ==> #[trigger] named_reg(c2, j) == named_reg(c, j)
            &&& c2.f == c.f
            &&& t == (if r == 6 { 15u32 } else { 8u32 })
            &&& c2.pc == (c.pc + 2) % 65536
        }),
{
    let c0 = after_fetch(c);
    lemma_cb_step(c0, m);
    let op = m.read(c0.pc);
    let r = (op % 8) as int;
    let k = ((op / 8) % 8) as u8;
    let c1 = fetched(c0);
    lemma_reg8_is_operand(c1, m, r);
    let v = reg8(c1, m, r);
    lemma_shift_bit(v, k);
    lemma_bit_mask(v, k);
    let row = (op / 8) as int;
    let b = bit_of(v as int, k as int);
    assert(b == 0 || b == 1);
    assert(((v >> k) & 1 == 1) == (b == 1)) by {
        assert((v >> k) & 1 <= 1) by (bit_vector);
    }
    if row < 24 {
        assert(row - 16 == k);
        assert(crate::cpu::isa::res_set(row, v) as int == v - b * pow2_of(k as int));
    } else {
        assert(row - 24 == k);
        assert(crate::cpu::isa::res_set(row, v) as int == v + (1 - b) * pow2_of(k as int));
    }
    reveal(pair);
}

/// The value of register pair `p` of the 16-bit loads and arithmetic (bits 5:4): BC, DE,
/// HL or SP.
pub open spec fn word_pair(c: Cpu, p: int) -> int {
    if p == 0 { c.b * 256 + c.c } else if p == 1 { c.d * 256 + c.e } else if p == 2 { c.h * 256 + c.l } else { c.sp as int }
}

proof fn lemma_x0_z1_step(c1: Cpu, m: BusState, op: u8)
    requires
        op < 0x40,
        op % 8 == 1,
    ensures
        ({
            let p = (op / 16) as int;
            &&& op % 16 == 1 ==> exec_main(c1, m, op) == (crate::cpu::set_reg16(crate::cpu::isa::fetched2(c1), p, m.read16(c1.pc)), m, 10u32)
            &&& op % 16 == 9 ==> exec_main(c1, m, op) == (crate::cpu::alu::add_hl16_spec(c1, crate::cpu::reg16(c1, p)), m, 11u32)
        }),
{
    lemma_decode_x0(c1, m, op);
}

/// LD rr,nn (01 11 21 31) loads BC, DE, HL or SP with the little-endian operand and leaves
/// the other pairs, A, the flags and memory alone.
#[verifier::spinoff_prover]
#[verifier::rlimit(100)]
pub proof fn lemma_step_ld_rr_nn(c: Cpu, m: BusState)
    requires
        !c.halted,
        m.read(c.pc) < 0x40,
        m.read(c.pc) % 16 == 1,
    ensures
        ({
            let op = m.read(c.pc);
            let p = (op / 16) as int;
            let (c2, m2, t) = step_spec(c, m);
            &&& word_pair(c2, p) == word_at(m, c.pc + 1)
            &&& forall|q: int| 0 <= q < 4 && q != p ==> #[trigger] word_pair(c2, q) == word_pair(c, q)
            &&& c2.pc == (c.pc + 3) % 65536 && t == 10 && c2.f == c.f && c2.a == c.a && m2 == m
        }),
{
    let c1 = after_fetch(c);
    let op = m.read(c.pc);
    lemma_x0_z1_step(c1, m, op);
    let w = m.read16(c1.pc);
    lemma_pair_word(c1.b, c1.c, w);
    lemma_pair_word(c1.d, c1.e, w);
    lemma_pair_word(c1.h, c1.l, w);
    reveal(pair);
}

/// ADD HL,rr (09 19 29 39) adds BC, DE, HL or SP to HL modulo 65536, with the carry flag
/// telling whether the sum reached 65536; A, BC, DE, SP and memory stay.
#[verifier::spinoff_prover]
#[verifier::rlimit(100)]
pub proof fn lemma_step_add_hl(c: Cpu, m: BusState)
    requires
        !c.halted,
        m.read(c.pc) < 0x40,
        m.read(c.pc) % 16 == 9,
    ensures
        ({
            let op = m.read(c.pc);
            let p = (op / 16) as int;
            let (c2, m2, t) = step_spec(c, m);
            &&& word_pair(c2, 2) == (word_pair(c, 2) + word_pair(c, p)) % 65536
            &&& (c2.f % 2 == 1) == (word_pair(c, 2) + word_pair(c, p) >= 65536)
            &&& word_pair(c2, 0) == word_pair(c, 0) && word_pair(c2, 1) == word_pair(c, 1) && c2.sp == c.sp
            &&& c2.pc == (c.pc + 1) % 65536 && t == 11 && c2.a == c.a && m2 == m
        }),
{
    let c1 = after_fetch(c);
    let op = m.read(c.pc);
    let p = (op / 16) as int;
    lemma_x0_z1_step(c1, m, op);
    let r = crate::cpu::alu::add_hl16_spec(c1, crate::cpu::reg16(c1, p));
    broadcast use crate::flags::lemma_unpack_pack;
    lemma_flag_bits(r.f);
    let w = crate::cpu::wrap16(crate::cpu::hl_of(c1) + crate::cpu::reg16(c1, p));
    lemma_pair_word(c1.h, c1.l, w);
    lemma_pair_word(c1.b, c1.c, w);
    lemma_pair_word(c1.d, c1.e, w);
}

proof fn lemma_x0_z2_step(c1: Cpu, m: BusState, op: u8)
    requires
        op < 0x40,
        op % 8 == 2,
    ensures
        ({
            let nn = m.read16(c1.pc);
            let c2 = crate::cpu::isa::fetched2(c1);
            &&& op == 0x02 ==> exec_main(c1, m, op) == (c1, m.write(crate::cpu::bc_of(c1), c1.a), 7u32)
            &&& op == 0x12 ==> exec_main(c1, m, op) == (c1, m.write(crate::cpu::de_of(c1), c1.a), 7u32)
            &&& op == 0x22 ==> exec_main(c1, m, op) == (c2, m.write16(nn, crate::cpu::hl_of(c2)), 16u32)
            &&& op == 0x32 ==> exec_main(c1, m, op) == (c2, m.write(nn, c1.a), 13u32)
            &&& op == 0x0A ==> exec_main(c1, m, op) == (Cpu { a: m.read(crate::cpu::bc_of(c1)), ..c1 }, m, 7u32)
            &&& op == 0x1A ==> exec_main(c1, m, op) == (Cpu { a: m.read(crate::cpu::de_of(c1)), ..c1 }, m, 7u32)
            &&& op == 0x2A ==> exec_main(c1, m, op) == (crate::cpu::with_hl(c2, m.read16(nn)), m, 16u32)
            &&& op == 0x3A ==> exec_main(c1, m, op) == (Cpu { a: m.read(nn), ..c2 }, m, 13u32)
        }),
{
    lemma_decode_x0(c1, m, op);
}

/// The accumulator and HL transfers: LD (BC),A (02), LD (DE),A (12) and LD (nn),A (32)
/// store A at BC, DE or the operand address; LD A,(BC) (0A), LD A,(DE) (1A) and LD A,(nn)
/// (3A) load A from there; LD (nn),HL (22) stores L at nn and H at nn + 1; LD HL,(nn) (2A)
/// loads HL from the word at nn. The flags stay.
#[verifier::spinoff_prover]
#[verifier::rlimit(100)]
pub proof fn lemma_step_indirect_loads(c: Cpu, m: BusState)
    requires
        !c.halted,
        m.wf(),
        m.read(c.pc) < 0x40,
        m.read(c.pc) % 8 == 2,
    ensures
        ({
            let op = m.read(c.pc);
            let (c2, m2, t) = step_spec(c, m);
            let bc = (c.b * 256 + c.c) as u16;
            let de = (c.d * 256 + c.e) as u16;
            let nn = word_at(m, c.pc + 1);
            &&& op == 0x02 ==> m2 == m.write(bc, c.a) && t == 7
            &&& op == 0x12 ==> m2 == m.write(de, c.a) && t == 7
            &&& op == 0x32 ==> m2 == m.write(nn as u16, c.a) && t == 13
            &&& op == 0x0A ==> c2.a == m.read(bc) && m2 == m && t == 7
            &&& op == 0x1A ==> c2.a == m.read(de) && m2 == m && t == 7
            &&& op == 0x3A ==> c2.a == m.read(nn as u16) && m2 == m && t == 13
            &&& op == 0x22 ==> t == 16 && (0x4000 <= nn < 0xFFFF ==> m2.read(nn as u16) == c.l && m2.read((nn + 1) as u16) == c.h)
            &&& op == 0x2A ==> c2.l == m.read(nn as u16) && c2.h == m.read(((nn + 1) % 65536) as u16) && m2 == m && t == 16
            &&& op != 0x0A && op != 0x1A && op != 0x3A ==> c2.a == c.a
            &&& c2.f == c.f
            &&& c2.pc == (if op % 16 == 2 && op >= 0x20 || op % 16 == 10 && op >= 0x20 { (c.pc + 3) % 65536 } else { (c.pc + 1) % 65536 })
        }),
{
    let c1 = after_fetch(c);
    let op = m.read(c.pc);
    lemma_x0_z2_step(c1, m, op);
    reveal(pair);
    reveal(hi_byte);
    reveal(lo_byte);
}

proof fn lemma_x0_z7_step(c1: Cpu, m: BusState, op: u8)
    requires
        op < 0x40,
        op % 8 == 7 || op == 0x08,
    ensures
        op % 8 == 7 ==> exec_main(c1, m, op) == (crate::cpu::isa::misc_a(c1, ((op / 8) % 8) as int), m, 4u32),
        op == 0x08 ==> exec_main(c1, m, op) == (crate::cpu::isa::ex_af(c1), m, 4u32),
{
    lemma_decode_x0(c1, m, op);
}

/// The accumulator rotations and flag operations: RLCA (07), RRCA (0F), RLA (17) and RRA
/// (1F) rotate A left or right, RLA and RRA through the carry, with the bit moved out in the
/// carry flag; CPL (2F) complements A; SCF (37) sets the carry; CCF (3F) inverts it;
/// EX AF,AF' (08) exchanges AF with AF'. Each takes 4 T-states.
#[verifier::spinoff_prover]
#[verifier::rlimit(100)]
pub proof fn lemma_step_accumulator_ops(c: Cpu, m: BusState)
    requires
        !c.halted,
        m.read(c.pc) == 0x07 || m.read(c.pc) == 0x0F || m.read(c.pc) == 0x17 || m.read(c.pc) == 0x1F
            || m.read(c.pc) == 0x2F || m.read(c.pc) == 0x37 || m.read(c.pc) == 0x3F || m.read(c.pc) == 0x08,
    ensures
        ({
            let op = m.read(c.pc);
            let a = c.a as int;
            let cin = (c.f % 2) as int;
            let (c2, m2, t) = step_spec(c, m);
            let carry = c2.f % 2 == 1;
            &&& op == 0x07 ==> c2.a == (2 * a + a / 128) % 256 && carry == (a >= 128)
            &&& op == 0x0F ==> c2.a == a / 2 + 128 * (a % 2) && carry == (a % 2 == 1)
            &&& op == 0x17 ==> c2.a == (2 * a + cin) % 256 && carry == (a >= 128)
            &&& op == 0x1F ==> c2.a == a / 2 + 128 * cin && carry == (a % 2 == 1)
            &&& op == 0x2F ==> c2.a == 255 - a && c2.f % 2 == c.f % 2
            &&& op == 0x37 ==> c2.a == c.a && carry
            &&& op == 0x3F ==> c2.a == c.a && carry == (cin == 0)
            &&& op == 0x08 ==> c2.a == c.a2 && c2.f == c.f2 && c2.a2 == c.a && c2.f2 == c.f
            &&& c2.b == c.b && c2.c == c.c && c2.h == c.h && c2.l == c.l
            &&& c2.pc == (c.pc + 1) % 65536 && m2 == m && t == 4
        }),
{
    let c1 = after_fetch(c);
    let op = m.read(c.pc);
    lemma_x0_z7_step(c1, m, op);
    broadcast use crate::flags::lemma_unpack_pack;
    lemma_flag_bits(c1.f);
    let r = crate::cpu::isa::misc_a(c1, ((op / 8) % 8) as int);
    lemma_flag_bits(r.f);
    assert((c1.a % 128) * 2 == (2 * c1.a) % 256);
    if op == 0x2F {
        let a = c1.a;
        assert(!a as int == 255 - a) by (bit_vector);
    }
}

proof fn lemma_x3_misc2_step(c1: Cpu, m: BusState, op: u8)
    requires
        op >= 0xC0,
        op % 8 == 6 || op == 0xD3 || op == 0xDB || op == 0xE3 || op == 0xF9 || op == 0xF3 || op == 0xFB,
    ensures
        ({
            let y = ((op / 8) % 8) as int;
            let port = crate::cpu::pair(c1.a, m.read(c1.pc));
            &&& op % 8 == 6 ==> exec_main(c1, m, op) == (alu_spec(fetched(c1), y, m.read(c1.pc)), m, 7u32)
            &&& op == 0xD3 ==> exec_main(c1, m, op) == (fetched(c1), m.port_out(port, c1.a, c1.t), 11u32)
            &&& op == 0xDB ==> exec_main(c1, m, op) == (Cpu { a: m.port_in(port), ..fetched(c1) }, m, 11u32)
            &&& op == 0xE3 ==> exec_main(c1, m, op) == (crate::cpu::with_hl(c1, m.read16(c1.sp)), m.write16(c1.sp, crate::cpu::hl_of(c1)), 19u32)
            &&& op == 0xF9 ==> exec_main(c1, m, op) == (Cpu { sp: crate::cpu::hl_of(c1), ..c1 }, m, 6u32)
            &&& op == 0xF3 ==> exec_main(c1, m, op) == (Cpu { iff1: false, iff2: false, ..c1 }, m, 4u32)
            &&& op == 0xFB ==> exec_main(c1, m, op) == (Cpu { ei_pending: true, ..c1 }, m, 4u32)
        }),
{
    lemma_decode_x3(c1, m, op);
}

/// ADD ADC SUB SBC AND XOR OR CP A,n (C6 CE .. FE): as the register forms, with the byte
/// after the opcode as the operand; 7 T-states.
#[verifier::spinoff_prover]
#[verifier::rlimit(100)]
pub proof fn lemma_step_alu_n(c: Cpu, m: BusState)
    requires
        !c.halted,
        m.read(c.pc) >= 0xC0,
        m.read(c.pc) % 8 == 6,
    ensures
        ({
            let op = m.read(c.pc);
            let y = ((op / 8) % 8) as int;
            let (c2, m2, t) = step_spec(c, m);
            &&& alu_effect(y, c.a as int, code_byte(c, m, 1), (c.f % 2) as int, c2.a as int, c2.f as int)
            &&& forall|j: int| 0 <= j < 6 ==> #[trigger] named_reg(c2, j) == named_reg(c, j)
            &&& c2.pc == (c.pc + 2) % 65536 && m2 == m && t == 7
        }),
{
    let c1 = after_fetch(c);
    let op = m.read(c.pc);
    lemma_x3_misc2_step(c1, m, op);
    lemma_alu_effect(fetched(c1), ((op / 8) % 8) as int, m.read(c1.pc));
}

/// OUT (n),A (D3) writes A to the port whose low byte is the operand and high byte is A
/// (logged at the step's start time); IN A,(n) (DB) reads A from that port; EX (SP),HL (E3)
/// exchanges HL with the word at SP (stated for a stack word in RAM); LD SP,HL (F9) copies
/// HL to SP; DI (F3) clears both interrupt flip-flops; EI (FB) sets them after the next
/// instruction.
#[verifier::spinoff_prover]
#[verifier::rlimit(100)]
pub proof fn lemma_step_io_and_stack_misc(c: Cpu, m: BusState)
    requires
        !c.halted,
        m.wf(),
        m.read(c.pc) == 0xD3 || m.read(c.pc) == 0xDB || m.read(c.pc) == 0xE3 || m.read(c.pc) == 0xF9
            || m.read(c.pc) == 0xF3 || m.read(c.pc) == 0xFB,
    ensures
        ({
            let op = m.read(c.pc);
            let port = (c.a * 256 + code_byte(c, m, 1)) as u16;
            let (c2, m2, t) = step_spec(c, m);
            &&& op == 0xD3 ==> m2 == m.port_out(port, c.a, c.t) && c2.a == c.a && c2.pc == (c.pc + 2) % 65536 && t == 11
            &&& op == 0xDB ==> c2.a == m.port_in(port) && m2 == m && c2.pc == (c.pc + 2) % 65536 && t == 11
            &&& op == 0xE3 && 0x4000 <= c.sp < 0xFFFF ==> c2.l == m.read(c.sp) && c2.h == m.read((c.sp + 1) as u16)
                && m2.read(c.sp) == c.l && m2.read((c.sp + 1) as u16) == c.h && c2.sp == c.sp && t == 19
            &&& op == 0xF9 ==> c2.sp == c.h * 256 + c.l && m2 == m && t == 6
            &&& op == 0xF3 ==> !c2.iff1 && !c2.iff2 && !c2.ei_pending && m2 == m && t == 4
            &&& op == 0xFB ==> c2.ei_pending && m2 == m && t == 4
            &&& c2.f == c.f
        }),
{
    let c1 = after_fetch(c);
    let op = m.read(c.pc);
    lemma_x3_misc2_step(c1, m, op);
    reveal(pair);
    reveal(hi_byte);
    reveal(lo_byte);
}

proof fn lemma_ed_step(c1: Cpu, m: BusState)
    ensures
        ({
            let op = m.read(c1.pc);
            let c2 = crate::cpu::isa::fetched_prefixed(c1);
            let y = ((op / 8) % 8) as int;
            let z = (op % 8) as int;
            &&& op / 64 == 1 ==> exec_main(c1, m, 0xED) == crate::cpu::isa::ed_x1(c2, m, y, z)
            &&& op / 64 == 2 && y >= 4 && z <= 1 ==> exec_main(c1, m, 0xED) == crate::cpu::isa::ed_block(c2, m, y, z)
        }),
{
    lemma_decode_x3(c1, m, 0xED);
}

/// LDI (ED A0), LDD (ED A8), LDIR (ED B0) and LDDR (ED B8) copy the byte at HL to DE, move
/// HL and DE one up (LDI, LDIR) or down (LDD, LDDR) and count BC down, all modulo 65536;
/// the repeating forms go back to their own first byte while BC is not yet 0 (21 T-states),
/// and otherwise move on (16 T-states).
#[verifier::spinoff_prover]
#[verifier::rlimit(100)]
pub proof fn lemma_step_block_copy(c: Cpu, m: BusState)
    requires
        !c.halted,
        m.read(c.pc) == 0xED,
        code_byte(c, m, 1) == 0xA0 || code_byte(c, m, 1) == 0xA8 || code_byte(c, m, 1) == 0xB0
            || code_byte(c, m, 1) == 0xB8,
    ensures
        ({
            let op = code_byte(c, m, 1);
            let dir: int = if op == 0xA0 || op == 0xB0 { 1 } else { -1 };
            let hl = word_pair(c, 2);
            let de = word_pair(c, 1);
            let bc2 = (word_pair(c, 0) + 65535) % 65536;
            let again = op >= 0xB0 && bc2 != 0;
            let (c2, m2, t) = step_spec(c, m);
            &&& m2 == m.write(de as u16, m.read(hl as u16))
            &&& word_pair(c2, 2) == (hl + dir + 65536) % 65536
            &&& word_pair(c2, 1) == (de + dir + 65536) % 65536
            &&& word_pair(c2, 0) == bc2
            &&& ((c2.f / 4) % 2 == 1) == (bc2 != 0)
            &&& c2.a == c.a && c2.f % 2 == c.f % 2
            &&& c2.pc == (if again { c.pc as int } else { (c.pc + 2) % 65536 })
            &&& t == (if again { 21u32 } else { 16u32 })
        }),
{
    let c1 = after_fetch(c);
    lemma_ed_step(c1, m);
    let cc = crate::cpu::isa::fetched_prefixed(c1);
    let op = m.read(c1.pc);
    let dir: int = if ((op / 8) % 8) % 2 == 0 { 1 } else { -1 };
    let (c3, m3) = crate::cpu::isa::ld_block(cc, m, dir);
    broadcast use crate::flags::lemma_unpack_pack;
    lemma_flag_bits(c1.f);
    lemma_flag_bits(c3.f);
    assert(unpack(c3.f).p == ((c3.f / 4) % 2 == 1)) by {
        reveal(unpack);
    }
    let w1 = crate::cpu::wrap16(crate::cpu::hl_of(cc) + dir);
    let w2 = crate::cpu::wrap16(crate::cpu::de_of(cc) + dir);
    let w3 = crate::cpu::wrap16(crate::cpu::bc_of(cc) - 1);
    lemma_pair_word(cc.h, cc.l, w1);
    lemma_pair_word(cc.d, cc.e, w2);
    lemma_pair_word(cc.b, cc.c, w3);
}

proof fn lemma_ed_misc_step(c1: Cpu, m: BusState)
    ensures
        ({
            let op = m.read(c1.pc);
            let cc = crate::cpu::isa::fetched_prefixed(c1);
            let in_a = |v: u8| crate::cpu::with_f(Cpu { a: v, ..cc }, crate::cpu::isa::in_flags(cc, v, cc.iff2));
            &&& op == 0x44 ==> exec_main(c1, m, 0xED) == (crate::cpu::alu::sub8_spec(Cpu { a: 0, ..cc }, cc.a, 0), m, 8u32)
            &&& op == 0x46 ==> exec_main(c1, m, 0xED) == (Cpu { im: 0, ..cc }, m, 8u32)
            &&& op == 0x56 ==> exec_main(c1, m, 0xED) == (Cpu { im: 1, ..cc }, m, 8u32)
            &&& op == 0x5E ==> exec_main(c1, m, 0xED) == (Cpu { im: 2, ..cc }, m, 8u32)
            &&& op == 0x47 ==> exec_main(c1, m, 0xED) == (Cpu { i: cc.a, ..cc }, m, 9u32)
            &&& op == 0x4F ==> exec_main(c1, m, 0xED) == (Cpu { r: cc.a, ..cc }, m, 9u32)
            &&& op == 0x57 ==> exec_main(c1, m, 0xED) == (in_a(cc.i), m, 9u32)
            &&& op == 0x5F ==> exec_main(c1, m, 0xED) == (in_a(cc.r), m, 9u32)
        }),
{
    lemma_ed_step(c1, m);
}

/// NEG (ED 44) sets A to 0 - A modulo 256, with the carry set exactly when A was not 0;
/// IM 0/1/2 (ED 46, 56, 5E) set the interrupt mode; LD I,A (ED 47) and LD R,A (ED 4F) copy
/// A; LD A,I (ED 57) and LD A,R (ED 5F) copy I or R into A, R having counted the prefix,
/// the opcode and one more refresh for the ED group.
#[verifier::spinoff_prover]
#[verifier::rlimit(100)]
pub proof fn lemma_step_ed_misc(c: Cpu, m: BusState)
    requires
        !c.halted,
        m.read(c.pc) == 0xED,
        code_byte(c, m, 1) == 0x44 || code_byte(c, m, 1) == 0x46 || code_byte(c, m, 1) == 0x56
            || code_byte(c, m, 1) == 0x5E || code_byte(c, m, 1) == 0x47 || code_byte(c, m, 1) == 0x4F
            || code_byte(c, m, 1) == 0x57 || code_byte(c, m, 1) == 0x5F,
    ensures
        ({
            let op = code_byte(c, m, 1);
            let (c2, m2, t) = step_spec(c, m);
            &&& op == 0x44 ==> c2.a == (256 - c.a) % 256 && (c2.f % 2 == 1) == (c.a != 0) && t == 8
            &&& op == 0x46 ==> c2.im == 0
            &&& op == 0x56 ==> c2.im == 1
            &&& op == 0x5E ==> c2.im == 2
            &&& op == 0x47 ==> c2.i == c.a && t == 9
            &&& op == 0x4F ==> c2.r == c.a && t == 9
            &&& op == 0x57 ==> c2.a == c.i && t == 9
            &&& op == 0x5F ==> c2.a as int == (c.r / 128) * 128 + (c.r % 128 + 3) % 128 && t == 9
            &&& m2 == m
            &&& c2.pc == (c.pc + 2) % 65536
        }),
{
    let c1 = after_fetch(c);
    lemma_ed_misc_step(c1, m);
    let cc = crate::cpu::isa::fetched_prefixed(c1);
    broadcast use crate::flags::lemma_unpack_pack;
    lemma_sub_effect(Cpu { a: 0, ..cc }, cc.a, 0);
    lemma_flag_bits(crate::cpu::alu::sub8_spec(Cpu { a: 0, ..cc }, cc.a, 0).f);
}

proof fn lemma_ed_x1_step(c1: Cpu, m: BusState)
    requires
        m.read(c1.pc) / 64 == 1,
    ensures
        exec_main(c1, m, 0xED) == crate::cpu::isa::ed_x1(
            crate::cpu::isa::fetched_prefixed(c1),
            m,
            ((m.read(c1.pc) / 8) % 8) as int,
            (m.read(c1.pc) % 8) as int,
        ),
{
    lemma_ed_step(c1, m);
}

proof fn lemma_ed_z2_step(c1: Cpu, m: BusState)
    requires
        m.read(c1.pc) / 64 == 1,
        m.read(c1.pc) % 8 == 2,
    ensures
        ({
            let op = m.read(c1.pc);
            let cc = crate::cpu::isa::fetched_prefixed(c1);
            let rr = crate::cpu::reg16(cc, (((op / 8) % 8) / 2) as int);
            exec_main(c1, m, 0xED) == (if ((op / 8) % 8) % 2 == 0 { crate::cpu::alu::sbc_hl16_spec(cc, rr) } else {
                crate::cpu::alu::adc_hl16_spec(cc, rr)
            }, m, 15u32)
        }),
{
    lemma_ed_x1_step(c1, m);
}

proof fn lemma_sbc16_effect(c: Cpu, rr: u16)
    ensures
        ({
            let hl = crate::cpu::hl_of(c) as int;
            let cin = (c.f % 2) as int;
            let s = crate::cpu::alu::sbc_hl16_spec(c, rr);
            &&& crate::cpu::hl_of(s) == (hl - rr - cin + 65536) % 65536
            &&& (s.f % 2 == 1) == (hl - rr - cin < 0)
            &&& ((s.f / 64) % 2 == 1) == (crate::cpu::hl_of(s) == 0)
            &&& s == (Cpu { h: s.h, l: s.l, f: s.f, ..c })
        }),
{
    broadcast use crate::flags::lemma_unpack_pack;
    lemma_flag_bits(c.f);
    let s = crate::cpu::alu::sbc_hl16_spec(c, rr);
    lemma_flag_bits(s.f);
    let hl = crate::cpu::hl_of(c);
    let cy = crate::flags::b2i(crate::cpu::flags_of(c).c);
    let w = crate::cpu::wrap16(hl - rr - cy);
    lemma_pair_word(hi_byte(w), lo_byte(w), w);
    assert(crate::cpu::hl_of(s) == pair(hi_byte(w), lo_byte(w)));
    lemma_word_split(w);
}

proof fn lemma_adc16_effect(c: Cpu, rr: u16)
    ensures
        ({
            let hl = crate::cpu::hl_of(c) as int;
            let cin = (c.f % 2) as int;
            let a = crate::cpu::alu::adc_hl16_spec(c, rr);
            &&& crate::cpu::hl_of(a) == (hl + rr + cin) % 65536
            &&& (a.f % 2 == 1) == (hl + rr + cin > 65535)
            &&& ((a.f / 64) % 2 == 1) == (crate::cpu::hl_of(a) == 0)
            &&& a == (Cpu { h: a.h, l: a.l, f: a.f, ..c })
        }),
{
    broadcast use crate::flags::lemma_unpack_pack;
    lemma_flag_bits(c.f);
    let a = crate::cpu::alu::adc_hl16_spec(c, rr);
    lemma_flag_bits(a.f);
    let hl = crate::cpu::hl_of(c);
    let cy = crate::flags::b2i(crate::cpu::flags_of(c).c);
    let w = crate::cpu::wrap16(hl + rr + cy);
    assert(crate::cpu::hl_of(a) == pair(hi_byte(w), lo_byte(w)));
    lemma_word_split(w);
}

proof fn lemma_word_at(m: BusState, a: int)
    requires
        0 <= a < 65536,
    ensures
        word_at(m, a) == m.read16(a as u16),
{
}

/// Splitting a word into bytes and joining them gives it back.
proof fn lemma_word_split(w: u16)
    ensures
        pair(hi_byte(w), lo_byte(w)) == w,
{
    reveal(pair);
    reveal(hi_byte);
    reveal(lo_byte);
}

/// SBC HL,rr (ED 42 52 62 72) and ADC HL,rr (ED 4A 5A 6A 7A): HL becomes HL - rr - carry or
/// HL + rr + carry modulo 65536 (rr = BC, DE, HL, SP by bits 5:4, carry = bit 0 of F), with
/// the carry flag set on a borrow or a sum past 65535 and the zero flag telling whether the
/// result is 0; 15 T-states.
#[verifier::spinoff_prover]
#[verifier::rlimit(100)]
pub proof fn lemma_step_adc_sbc_hl(c: Cpu, m: BusState)
    requires
        !c.halted,
        m.read(c.pc) == 0xED,
        code_byte(c, m, 1) / 64 == 1,
        code_byte(c, m, 1) % 8 == 2,
    ensures
        ({
            let op = code_byte(c, m, 1);
            let p = (op / 16) % 4;
            let hl = word_pair(c, 2);
            let rr = word_pair(c, p);
            let cin = (c.f % 2) as int;
            let exact = if (op / 8) % 2 == 0 { hl - rr - cin } else { hl + rr + cin };
            let (c2, m2, t) = step_spec(c, m);
            &&& word_pair(c2, 2) == (exact + 65536) % 65536
            &&& (c2.f % 2 == 1) == (exact < 0 || exact > 65535)
            &&& ((c2.f / 64) % 2 == 1) == (word_pair(c2, 2) == 0)
            &&& word_pair(c2, 0) == word_pair(c, 0) && word_pair(c2, 1) == word_pair(c, 1) && c2.sp == c.sp && c2.a == c.a
            &&& m2 == m && t == 15 && c2.pc == (c.pc + 2) % 65536
        }),
{
    let c1 = after_fetch(c);
    lemma_ed_z2_step(c1, m);
    let cc = crate::cpu::isa::fetched_prefixed(c1);
    let op = m.read(c1.pc);
    let p = (((op / 8) % 8) / 2) as int;
    let rr = crate::cpu::reg16(cc, p);
    lemma_pair_word(cc.h, cc.l, 0);
    lemma_pair_word(cc.b, cc.c, 0);
    lemma_pair_word(cc.d, cc.e, 0);
    assert(rr == word_pair(c, (op / 16) as int % 4));
    assert(crate::cpu::hl_of(cc) == word_pair(c, 2));
    if ((op / 8) % 8) % 2 == 0 {
        lemma_sbc16_effect(cc, rr);
        let rs = crate::cpu::alu::sbc_hl16_spec(cc, rr);
        lemma_pair_word(rs.h, rs.l, 0);
    } else {
        lemma_adc16_effect(cc, rr);
        let ra = crate::cpu::alu::adc_hl16_spec(cc, rr);
        lemma_pair_word(ra.h, ra.l, 0);
    }
    lemma_pair_word(cc.h, cc.l, 0);
    lemma_pair_word(cc.b, cc.c, 0);
    lemma_pair_word(cc.d, cc.e, 0);
}

proof fn lemma_ed_io_step(c1: Cpu, m: BusState)
    requires
        m.read(c1.pc) / 64 == 1,
        m.read(c1.pc) % 8 <= 1,
    ensures
        ({
            let op = m.read(c1.pc);
            let y = ((op / 8) % 8) as int;
            let cc = crate::cpu::isa::fetched_prefixed(c1);
            let v = m.port_in(crate::cpu::bc_of(cc));
            &&& op % 8 == 0 ==> exec_main(c1, m, 0xED) == (crate::cpu::with_f(crate::cpu::set_reg8_cpu(cc, y, v), crate::cpu::isa::in_flags(cc, v, crate::cpu::alu::even_parity(v))), m, 12u32)
            &&& op % 8 == 1 ==> exec_main(c1, m, 0xED) == (cc, m.port_out(crate::cpu::bc_of(cc), if y == 6 { 0 } else { reg8(cc, m, y) }, cc.t), 12u32)
        }),
{
    lemma_ed_x1_step(c1, m);
}

/// IN r,(C) (ED 40 48 .. 78) reads register `y` (bits 5:3; 6 only sets the flags) from port
/// BC, the zero flag telling whether the byte read is 0; OUT (C),r (ED 41 49 .. 79) writes
/// register `y` (0 for 6) to port BC, logged at the step's start time. 12 T-states.
#[verifier::spinoff_prover]
#[verifier::rlimit(100)]
pub proof fn lemma_step_in_out_c(c: Cpu, m: BusState)
    requires
        !c.halted,
        m.wf(),
        m.read(c.pc) == 0xED,
        code_byte(c, m, 1) / 64 == 1,
        code_byte(c, m, 1) % 8 <= 1,
    ensures
        ({
            let op = code_byte(c, m, 1);
            let y = (op / 8) % 8;
            let bc = (c.b * 256 + c.c) as u16;
            let (c2, m2, t) = step_spec(c, m);
            &&& op % 8 == 0 ==> m2 == m && (y != 6 ==> named_reg(c2, y) == m.port_in(bc))
                && ((c2.f / 64) % 2 == 1) == (m.port_in(bc) == 0) && c2.f % 2 == c.f % 2
            &&& op % 8 == 1 ==> m2 == m.port_out(bc, if y == 6 { 0u8 } else { named_reg(c, y) }, c.t)
                && (forall|j: int| 0 <= j < 8 && j != 6 ==> #[trigger] named_reg(c2, j) == named_reg(c, j))
            &&& t == 12 && c2.pc == (c.pc + 2) % 65536
        }),
{
    let c1 = after_fetch(c);
    lemma_ed_io_step(c1, m);
    let cc = crate::cpu::isa::fetched_prefixed(c1);
    let op = m.read(c1.pc);
    let y = ((op / 8) % 8) as int;
    let v = m.port_in(crate::cpu::bc_of(cc));
    broadcast use crate::flags::lemma_unpack_pack;
    lemma_flag_bits(cc.f);
    lemma_flag_bits(crate::cpu::with_f(crate::cpu::set_reg8_cpu(cc, y, v), crate::cpu::isa::in_flags(cc, v, crate::cpu::alu::even_parity(v))).f);
    lemma_reg8_is_operand(cc, m, y);
    reveal(pair);
}

proof fn lemma_ed_mem_step(c1: Cpu, m: BusState)
    requires
        m.read(c1.pc) / 64 == 1,
        m.read(c1.pc) % 8 == 3 || m.read(c1.pc) % 8 == 5,
    ensures
        ({
            let op = m.read(c1.pc);
            let y = ((op / 8) % 8) as int;
            let cc = crate::cpu::isa::fetched_prefixed(c1);
            let nn = m.read16(cc.pc);
            let c2 = crate::cpu::isa::fetched2(cc);
            &&& op % 8 == 3 && y % 2 == 0 ==> exec_main(c1, m, 0xED) == (c2, m.write16(nn, crate::cpu::reg16(c2, y / 2)), 20u32)
            &&& op % 8 == 3 && y % 2 == 1 ==> exec_main(c1, m, 0xED) == (crate::cpu::set_reg16(c2, y / 2, m.read16(nn)), m, 20u32)
            &&& op % 8 == 5 ==> exec_main(c1, m, 0xED) == (Cpu { iff1: cc.iff2, ..crate::cpu::isa::ret(cc, m) }, m, 14u32)
        }),
{
    lemma_ed_x1_step(c1, m);
}

/// LD (nn),rr (ED 43 53 63 73) stores BC, DE, HL or SP as the word at nn (stated for nn and
/// nn + 1 in RAM); LD rr,(nn) (ED 4B 5B 6B 7B) loads the pair from the word at nn; RETN and
/// RETI (ED 45 4D 55 ..) pop PC and copy IFF2 into IFF1 (a pending EI has set IFF2 first).
#[verifier::spinoff_prover]
#[verifier::rlimit(100)]
pub proof fn lemma_step_ed_memory(c: Cpu, m: BusState)
    requires
        !c.halted,
        m.wf(),
        m.read(c.pc) == 0xED,
        code_byte(c, m, 1) / 64 == 1,
        code_byte(c, m, 1) % 8 == 3 || code_byte(c, m, 1) % 8 == 5,
    ensures
        ({
            let op = code_byte(c, m, 1);
            let y = (op / 8) % 8;
            let p = y / 2;
            let nn = word_at(m, c.pc + 2);
            let (c2, m2, t) = step_spec(c, m);
            &&& op % 8 == 3 && y % 2 == 0 && 0x4000 <= nn < 0xFFFF ==> word_at(m2, nn) == word_pair(c, p)
            &&& op % 8 == 3 && y % 2 == 1 ==> word_pair(c2, p) == word_at(m, nn) && m2 == m
            &&& op % 8 == 3 ==> t == 20 && c2.pc == (c.pc + 4) % 65536
            &&& op % 8 == 5 ==> c2.pc == word_at(m, c.sp as int) && c2.sp == (c.sp + 2) % 65536 && c2.iff1 == (c.iff2 || c.ei_pending)
                && m2 == m && t == 14
        }),
{
    let c1 = after_fetch(c);
    lemma_ed_mem_step(c1, m);
    let cc = crate::cpu::isa::fetched_prefixed(c1);
    let w = m.read16(m.read16(cc.pc));
    lemma_pair_word(cc.b, cc.c, w);
    lemma_pair_word(cc.d, cc.e, w);
    lemma_pair_word(cc.h, cc.l, w);
    let nn = m.read16(cc.pc);
    let op = m.read(c1.pc);
    let c2 = crate::cpu::isa::fetched2(cc);
    lemma_word_at(m, cc.pc as int);
    lemma_word_at(m, nn as int);
    if 0x4000 <= nn < 0xFFFF {
        crate::bus::lemma_read16_after_write16(m, nn, crate::cpu::reg16(c2, (((op / 8) % 8) / 2) as int));
    }
    reveal(pair);
    reveal(hi_byte);
    reveal(lo_byte);
}

#[verifier::spinoff_prover]
#[verifier::rlimit(100)]
proof fn lemma_dd_step(c1: Cpu, m: BusState)
    ensures
        ({
            let op = m.read(c1.pc);
            let cp = crate::cpu::isa::fetched_prefixed(c1);
            let y = ((op / 8) % 8) as int;
            let z = (op % 8) as int;
            let a = crate::cpu::isa::idx_addr(cp, m, false);
            &&& op / 64 == 1 && z == 6 && y != 6 ==> exec_main(c1, m, 0xDD) == (crate::cpu::set_reg8_cpu(fetched(cp), y, m.read(a)), m, 19u32)
            &&& op / 64 == 1 && y == 6 && z != 6 ==> exec_main(c1, m, 0xDD) == (fetched(cp), m.write(a, reg8(cp, m, z)), 19u32)
            &&& op / 64 == 2 && z == 6 ==> exec_main(c1, m, 0xDD) == (alu_spec(fetched(cp), y, m.read(a)), m, 19u32)
            &&& op == 0x36 ==> exec_main(c1, m, 0xDD) == (crate::cpu::isa::fetched2(cp), m.write(a, m.read(fetched(cp).pc)), 19u32)
            &&& op == 0x21 ==> exec_main(c1, m, 0xDD) == (Cpu { ix: m.read16(cp.pc), ..crate::cpu::isa::fetched2(cp) }, m, 14u32)
            &&& op == 0xE9 ==> exec_main(c1, m, 0xDD) == (Cpu { pc: cp.ix, ..cp }, m, 8u32)
        }),
{
    lemma_decode_x3(c1, m, 0xDD);
}

/// The address IX + d for the signed displacement byte `k` places after PC.
pub open spec fn ix_plus_d(c: Cpu, m: BusState, k: int) -> u16 {
    let d = code_byte(c, m, k);
    ((c.ix + (if d < 128 { d } else { d - 256 }) + 65536) % 65536) as u16
}

/// The indexed loads with IX (DD prefix; FD does the same with IY, `lemma_fd_mirrors_dd`),
/// with d the signed byte after the opcode: LD r,(IX+d) (DD 46 4E .. 7E) loads register r
/// (bits 5:3) from IX + d; LD (IX+d),r (DD 70-75, 77) stores register r (bits 2:0) there;
/// LD (IX+d),n (DD 36) stores the byte after d there. 19 T-states.
#[verifier::spinoff_prover]
#[verifier::rlimit(100)]
pub proof fn lemma_step_indexed_loads(c: Cpu, m: BusState)
    requires
        !c.halted,
        m.read(c.pc) == 0xDD,
        ({
            let op = code_byte(c, m, 1);
            (op / 64 == 1 && op % 8 == 6 && op != 0x76) || (0x70 <= op < 0x78 && op != 0x76) || op == 0x36
        }),
    ensures
        ({
            let op = code_byte(c, m, 1);
            let y = (op / 8) % 8;
            let z = op % 8;
            let a = ix_plus_d(c, m, 2);
            let (c2, m2, t) = step_spec(c, m);
            &&& op / 64 == 1 && z == 6 ==> named_reg(c2, y) == m.read(a) && m2 == m
                && (forall|j: int| 0 <= j < 8 && j != 6 && j != y ==> #[trigger] named_reg(c2, j) == named_reg(c, j))
            &&& 0x70 <= op < 0x78 ==> m2 == m.write(a, named_reg(c, z))
                && (forall|j: int| 0 <= j < 8 && j != 6 ==> #[trigger] named_reg(c2, j) == named_reg(c, j))
            &&& op / 64 == 1 ==> c2.pc == (c.pc + 3) % 65536
            &&& op == 0x36 ==> m2 == m.write(a, code_byte(c, m, 3) as u8) && c2.pc == (c.pc + 4) % 65536
            &&& c2.ix == c.ix && c2.iy == c.iy && c2.f == c.f && t == 19
        }),
{
    let c1 = after_fetch(c);
    lemma_dd_step(c1, m);
    let cp = crate::cpu::isa::fetched_prefixed(c1);
    let op = m.read(c1.pc);
    lemma_reg8_is_operand(cp, m, (op % 8) as int);
}

/// The ALU operations on IX + d (DD 86 8E .. BE; FD with IY) combine A with the byte at
/// IX + d, d being the signed byte after the opcode, as the register forms do; LD IX,nn
/// (DD 21) loads IX with the operand; JP (IX) (DD E9) jumps to IX.
#[verifier::spinoff_prover]
#[verifier::rlimit(100)]
pub proof fn lemma_step_indexed_other(c: Cpu, m: BusState)
    requires
        !c.halted,
        m.read(c.pc) == 0xDD,
        ({
            let op = code_byte(c, m, 1);
            (op / 64 == 2 && op % 8 == 6) || op == 0x21 || op == 0xE9
        }),
    ensures
        ({
            let op = code_byte(c, m, 1);
            let y = (op / 8) % 8;
            let a = ix_plus_d(c, m, 2);
            let (c2, m2, t) = step_spec(c, m);
            &&& op / 64 == 2 ==> alu_effect(y, c.a as int, m.read(a) as int, (c.f % 2) as int, c2.a as int, c2.f as int)
                && c2.pc == (c.pc + 3) % 65536 && c2.ix == c.ix && t == 19
            &&& op == 0x21 ==> c2.ix == word_at(m, c.pc + 2) && c2.pc == (c.pc + 4) % 65536 && t == 14
            &&& op == 0xE9 ==> c2.pc == c.ix && c2.ix == c.ix && t == 8
            &&& m2 == m && c2.iy == c.iy
        }),
{
    let c1 = after_fetch(c);
    lemma_dd_step(c1, m);
    let cp = crate::cpu::isa::fetched_prefixed(c1);
    let op = m.read(c1.pc);
    let a = crate::cpu::isa::idx_addr(cp, m, false);
    lemma_alu_effect(fetched(cp), ((op / 8) % 8) as int, m.read(a));
}

/// A maskable interrupt taken with IFF1 set pushes PC (the return address) below SP and
/// jumps to 0x0038 in modes 0 and 1 (13 T-states), or in mode 2 to the word at
/// I * 256 + 0xFF (19 T-states); it clears both flip-flops and leaves HALT. With IFF1
/// clear it does nothing.
pub proof fn lemma_interrupt_modes(c: Cpu, m: BusState)
    requires
        m.wf(),
        stack_in_ram(c.sp),
    ensures
        ({
            let (c2, m2, t) = interrupt_spec(c, m);
            &&& !c.iff1 ==> c2 == c && m2 == m && t == 0
            &&& c.iff1 && c.im <= 2 ==> c2.sp == (c.sp + 65534) % 65536 && word_at(m2, c2.sp as int) == c.pc
                && !c2.iff1 && !c2.iff2 && !c2.halted
            &&& c.iff1 && c.im <= 1 ==> c2.pc == 0x0038 && t == 13
            &&& c.iff1 && c.im == 2 ==> c2.pc == word_at(m, c.i * 256 + 0xFF) && t == 19
        }),
{
    crate::cpu::laws::lemma_interrupt_accepted(c, m);
    reveal(pair);
}

#[verifier::spinoff_prover]
#[verifier::rlimit(100)]
proof fn lemma_ddcb_step(c1: Cpu, m: BusState)
    requires
        m.read(c1.pc) == 0xCB,
    ensures
        exec_main(c1, m, 0xDD) == crate::cpu::isa::exec_index_cb(crate::cpu::isa::fetched_prefixed(c1), m, false),
{
    lemma_decode_x3(c1, m, 0xDD);
}

/// DD CB d op (FD CB d op with IY), op 00-3F: the byte v at IX + d is shifted or rotated
/// as the CB forms do (`shifted`, by bits 5:3) and stored back at IX + d, and also in
/// register r = bits 2:0 when r is not 6; the bit moved out goes to the carry flag.
#[verifier::spinoff_prover]
#[verifier::rlimit(100)]
pub proof fn lemma_step_indexed_shift(c: Cpu, m: BusState)
    requires
        !c.halted,
        m.read(c.pc) == 0xDD,
        code_byte(c, m, 1) == 0xCB,
        code_byte(c, m, 3) < 0x40,
    ensures
        ({
            let op = code_byte(c, m, 3);
            let r = op % 8;
            let k = (op / 8) % 8;
            let a = ix_plus_d(c, m, 2);
            let v = m.read(a) as int;
            let res = shifted(k, v, (c.f % 2) as int);
            let (c2, m2, t) = step_spec(c, m);
            &&& m2 == m.write(a, res as u8) && t == 23
            &&& r != 6 ==> named_reg(c2, r) == res
            &&& (c2.f % 2 == 1) == shifted_out(k, v)
            &&& c2.pc == (c.pc + 4) % 65536 && c2.ix == c.ix
        }),
{
    let c1 = after_fetch(c);
    lemma_ddcb_step(c1, m);
    let cp = crate::cpu::isa::fetched_prefixed(c1);
    let a = crate::cpu::isa::idx_addr(cp, m, false);
    let op = m.read(fetched(cp).pc);
    let k = ((op / 8) % 8) as u8;
    let v = m.read(a);
    let c2 = crate::cpu::isa::fetched2(cp);
    let row = (op / 8) as int;
    lemma_shift_bit(v, k);
    lemma_rot_matches(c2, row, v);
}

/// DD CB d op (FD CB d op with IY), op 40-7F (BIT k): the zero flag is set exactly when bit
/// `k` (bits 5:3) of the byte at IX + d is 0; memory stays.
#[verifier::spinoff_prover]
#[verifier::rlimit(100)]
pub proof fn lemma_step_indexed_bit(c: Cpu, m: BusState)
    requires
        !c.halted,
        m.read(c.pc) == 0xDD,
        code_byte(c, m, 1) == 0xCB,
        0x40 <= code_byte(c, m, 3) < 0x80,
    ensures
        ({
            let op = code_byte(c, m, 3);
            let k = (op / 8) % 8;
            let v = m.read(ix_plus_d(c, m, 2)) as int;
            let (c2, m2, t) = step_spec(c, m);
            &&& ((c2.f / 64) % 2 == 1) == (bit_of(v, k) == 0)
            &&& m2 == m && t == 20
            &&& forall|j: int| 0 <= j < 8 && j != 6 ==> #[trigger] named_reg(c2, j) == named_reg(c, j)
            &&& c2.pc == (c.pc + 4) % 65536 && c2.ix == c.ix
        }),
{
    let c1 = after_fetch(c);
    lemma_ddcb_step(c1, m);
    let cp = crate::cpu::isa::fetched_prefixed(c1);
    let a = crate::cpu::isa::idx_addr(cp, m, false);
    let op = m.read(fetched(cp).pc);
    let k = ((op / 8) % 8) as u8;
    let v = m.read(a);
    let c2 = crate::cpu::isa::fetched2(cp);
    let row = (op / 8) as int;
    lemma_shift_bit(v, k);
    lemma_bit_test_mask(v, k);
    broadcast use crate::flags::lemma_unpack_pack;
    lemma_flag_bits(crate::cpu::alu::bit_test_spec(c2, k, v).f);
}

/// DD CB d op (FD CB d op with IY), op 80-BF (RES k) and C0-FF (SET k): the byte at IX + d
/// is stored back with bit `k` (bits 5:3) cleared or set, and also in register r = bits
/// 2:0 when r is not 6; the flags stay.
#[verifier::spinoff_prover]
#[verifier::rlimit(100)]
pub proof fn lemma_step_indexed_res_set(c: Cpu, m: BusState)
    requires
        !c.halted,
        m.read(c.pc) == 0xDD,
        code_byte(c, m, 1) == 0xCB,
        code_byte(c, m, 3) >= 0x80,
    ensures
        ({
            let op = code_byte(c, m, 3);
            let r = op % 8;
            let k = (op / 8) % 8;
            let a = ix_plus_d(c, m, 2);
            let v = m.read(a) as int;
            let res = if op < 0xC0 { v - bit_of(v, k) * pow2_of(k) } else { v + (1 - bit_of(v, k)) * pow2_of(k) };
            let (c2, m2, t) = step_spec(c, m);
            &&& m2 == m.write(a, res as u8) && t == 23
            &&& r != 6 ==> named_reg(c2, r) == res
            &&& c2.f == c.f
            &&& c2.pc == (c.pc + 4) % 65536 && c2.ix == c.ix
        }),
{
    let c1 = after_fetch(c);
    lemma_ddcb_step(c1, m);
    let cp = crate::cpu::isa::fetched_prefixed(c1);
    let a = crate::cpu::isa::idx_addr(cp, m, false);
    let op = m.read(fetched(cp).pc);
    let k = ((op / 8) % 8) as u8;
    let v = m.read(a);
    let c2 = crate::cpu::isa::fetched2(cp);
    let row = (op / 8) as int;
    lemma_shift_bit(v, k);
    lemma_bit_mask(v, k);
    let b = bit_of(v as int, k as int);
    assert(((v >> k) & 1 == 1) == (b == 1)) by {
        assert((v >> k) & 1 <= 1) by (bit_vector);
    }
    if row < 24 {
        assert(crate::cpu::isa::res_set(row, v) as int == v - b * pow2_of(k as int));
    } else {
        assert(crate::cpu::isa::res_set(row, v) as int == v + (1 - b) * pow2_of(k as int));
    }
}

} // verus!
