//! Laws of the processor model: register pairs, the stack, exchanges, arithmetic,
//! HALT, EI and interrupts.
use vstd::prelude::*;
use crate::bus::BusState;
use crate::cpu::{
    Cpu, pair, hi_byte, lo_byte, wrap16, af_of, bc_of, de_of, hl_of, with_af, with_bc, with_de, with_hl, flags_of,
    push, popped, stack_top, fetched,
};
use crate::cpu::alu::{alu_spec, and8_spec, or8_spec, xor8_spec, add8_spec, result_flags, sub8_spec, cp8_spec, inc8_spec, dec8_spec, rot_spec, add_hl16_spec, daa_spec, daa_result};
use crate::cpu::isa::{
    ex_af, exx, step_spec, interrupt_spec, exec_main, main_x0, main_x3, exec_cb, exec_index, exec_index_cb, idx_other,
    idx_x1, idx_x2, exec_ed, ed_x1, ed_x1_z7, ed_block, fetched_prefixed, idx_half, idx_addr,
};
use crate::flags::{b2i, lemma_unpack_pack};

verus! {

/// Splitting a word into its bytes and joining them again gives the word back, and the
/// other way round.
pub proof fn lemma_pair_bytes(v: u16, hi: u8, lo: u8)
    ensures
        pair(hi_byte(v), lo_byte(v)) == v,
        hi_byte(pair(hi, lo)) == hi,
        lo_byte(pair(hi, lo)) == lo,
{
    reveal(pair);
    reveal(hi_byte);
    reveal(lo_byte);
}

/// Setting a register pair and reading it back gives the value set.
pub proof fn lemma_set_then_get_pair(c: Cpu, v: u16)
    ensures
        af_of(with_af(c, v)) == v,
        bc_of(with_bc(c, v)) == v,
        de_of(with_de(c, v)) == v,
        hl_of(with_hl(c, v)) == v,
{
    lemma_pair_bytes(v, 0, 0);
}

/// A word pushed on the stack is the word on top of it, and popping it restores SP,
/// when both stack bytes lie in RAM (SP = 0 wraps to 0xFFFE/0xFFFF): the high byte goes
/// to SP - 1, the low byte to SP - 2, all other memory and the other registers stay.
pub proof fn lemma_push_then_pop(c: Cpu, m: BusState, v: u16)
    requires
        m.wf(),
        c.sp == 0 || c.sp >= 0x4002,
    ensures
        stack_top(push(c, m, v).0, push(c, m, v).1) == v,
        popped(push(c, m, v).0).sp == c.sp,
        popped(push(c, m, v).0) == c,
        push(c, m, v).1.read(wrap16(c.sp - 1)) == hi_byte(v),
        push(c, m, v).1.read(wrap16(c.sp - 2)) == lo_byte(v),
        forall|a: u16| a != wrap16(c.sp - 1) && a != wrap16(c.sp - 2) ==> #[trigger] push(c, m, v).1.read(a) == m.read(a),
        push(c, m, v).1.wf(),
{
    reveal(pair);
    reveal(hi_byte);
    reveal(lo_byte);
}

/// EX AF,AF' and EXX undo themselves.
pub proof fn lemma_exchanges_undo(c: Cpu)
    ensures
        ex_af(ex_af(c)) == c,
        exx(exx(c)) == c,
{
}

/// ADD/ADC: A plus 256 times the carry out is the exact sum; Z tells whether A is 0,
/// N is clear.
pub proof fn lemma_add8_sum(c: Cpu, v: u8, carry: u8)
    requires
        carry <= 1,
    ensures
        add8_spec(c, v, carry).a + 256 * b2i(flags_of(add8_spec(c, v, carry)).c) == c.a + v + carry,
        flags_of(add8_spec(c, v, carry)).z == (add8_spec(c, v, carry).a == 0),
        !flags_of(add8_spec(c, v, carry)).n,
{
    broadcast use lemma_unpack_pack;

    lemma_mod_256(c.a + v + carry);
}

/// SUB/SBC: A minus 256 times the borrow out is the exact difference; Z tells whether A is 0,
/// N is set.
pub proof fn lemma_sub8_difference(c: Cpu, v: u8, borrow: u8)
    requires
        borrow <= 1,
    ensures
        sub8_spec(c, v, borrow).a - 256 * b2i(flags_of(sub8_spec(c, v, borrow)).c) == c.a - v - borrow,
        flags_of(sub8_spec(c, v, borrow)).z == (sub8_spec(c, v, borrow).a == 0),
        flags_of(sub8_spec(c, v, borrow)).n,
{
    broadcast use lemma_unpack_pack;
}

/// CP leaves A alone and sets S, Z, H, P/V, N and C as SUB does.
pub proof fn lemma_cp_is_sub_without_store(c: Cpu, v: u8)
    ensures
        cp8_spec(c, v).a == c.a,
        flags_of(cp8_spec(c, v)).s == flags_of(sub8_spec(c, v, 0)).s,
        flags_of(cp8_spec(c, v)).z == flags_of(sub8_spec(c, v, 0)).z,
        flags_of(cp8_spec(c, v)).h == flags_of(sub8_spec(c, v, 0)).h,
        flags_of(cp8_spec(c, v)).p == flags_of(sub8_spec(c, v, 0)).p,
        flags_of(cp8_spec(c, v)).n == flags_of(sub8_spec(c, v, 0)).n,
        flags_of(cp8_spec(c, v)).c == flags_of(sub8_spec(c, v, 0)).c,
        flags_of(cp8_spec(c, v)).z == (c.a == v),
        flags_of(cp8_spec(c, v)).c == (c.a < v),
{
    broadcast use lemma_unpack_pack;
}

/// DEC undoes INC, and both leave the carry flag alone.
pub proof fn lemma_inc_then_dec(c: Cpu, v: u8)
    ensures
        dec8_spec(inc8_spec(c, v).0, inc8_spec(c, v).1).1 == v,
        flags_of(inc8_spec(c, v).0).c == flags_of(c).c,
        flags_of(dec8_spec(c, v).0).c == flags_of(c).c,
{
    broadcast use lemma_unpack_pack;
}

/// RRC undoes RLC; RR undoes RL (the carry RL shifted out is shifted back in).
pub proof fn lemma_rotate_undo(c: Cpu, v: u8)
    ensures
        rot_spec(rot_spec(c, 0, v).0, 1, rot_spec(c, 0, v).1).1 == v,
        rot_spec(rot_spec(c, 2, v).0, 3, rot_spec(c, 2, v).1).1 == v,
        flags_of(rot_spec(rot_spec(c, 2, v).0, 3, rot_spec(c, 2, v).1).0).c == flags_of(c).c,
{
    broadcast use lemma_unpack_pack;
}

/// ADD HL,rr: HL plus 65536 times the carry out is the exact sum.
pub proof fn lemma_add_hl_sum(c: Cpu, rr: u16)
    ensures
        hl_of(add_hl16_spec(c, rr)) + 65536 * b2i(flags_of(add_hl16_spec(c, rr)).c) == hl_of(c) + rr,
{
    broadcast use lemma_unpack_pack;
    lemma_set_then_get_pair(c, wrap16(hl_of(c) + rr));
}

/// A halted processor idles: a step changes nothing but T, which advances by 4.
pub proof fn lemma_halted_idles(c: Cpu, m: BusState)
    requires
        c.halted,
        !c.ei_pending,
    ensures
        step_spec(c, m) == (Cpu { t: ((c.t + 4) % 0x1_0000_0000) as u32, ..c }, m, 4u32),
{
}

/// HALT stops the processor with PC past the HALT, interrupts unchanged.
pub proof fn lemma_halt_then_interrupt(c: Cpu, m: BusState)
    requires
        !c.halted,
        !c.ei_pending,
        m.read(c.pc) == 0x76,
    ensures
        step_spec(c, m).0.halted,
        step_spec(c, m).0.pc == wrap16(c.pc + 1),
        step_spec(c, m).0.iff1 == c.iff1,
{
    reveal(exec_main);
}

/// An interrupt is accepted exactly when IFF1 is set and the mode is 0, 1 or 2; an accepted
/// interrupt disables interrupts, leaves HALT, pushes PC as the return address and jumps to
/// 0x0038 in modes 0 and 1.
pub proof fn lemma_interrupt_accepted(c: Cpu, m: BusState)
    ensures
        (interrupt_spec(c, m).2 > 0) == (c.iff1 && c.im <= 2),
        interrupt_spec(c, m).2 > 0 ==> !interrupt_spec(c, m).0.iff1 && !interrupt_spec(c, m).0.iff2
            && !interrupt_spec(c, m).0.halted,
        interrupt_spec(c, m).2 > 0 ==> interrupt_spec(c, m).0.sp == wrap16(c.sp - 2),
        interrupt_spec(c, m).2 > 0 && c.im <= 1 ==> interrupt_spec(c, m).0.pc == 0x0038,
        interrupt_spec(c, m).2 > 0 && m.wf() && (c.sp == 0 || c.sp >= 0x4002) ==> stack_top(
            interrupt_spec(c, m).0,
            interrupt_spec(c, m).1,
        ) == c.pc,
        !c.iff1 ==> interrupt_spec(c, m) == (c, m, 0u32),
{
    let c2 = Cpu { halted: false, iff1: false, iff2: false, r: crate::cpu::next_r(c.r), ..c };
    if c.iff1 && c.im <= 2 && m.wf() && (c.sp == 0 || c.sp >= 0x4002) {
        lemma_push_then_pop(c2, m, c2.pc);
    }
}

/// An interrupt taken while halted on a HALT at address h returns to h + 1, the
/// instruction after the HALT (stack in RAM, interrupt mode 0 or 1).
pub proof fn lemma_interrupt_returns_after_halt(c: Cpu, m: BusState)
    requires
        m.wf(),
        !c.halted,
        !c.ei_pending,
        c.iff1,
        c.im <= 1,
        m.read(c.pc) == 0x76,
        c.sp == 0 || c.sp >= 0x4002,
    ensures
        ({
            let (ch, mh, _) = step_spec(c, m);
            let (ci, mi, cycles) = interrupt_spec(ch, mh);
            &&& ch.halted
            &&& cycles == 13
            &&& !ci.halted
            &&& ci.pc == 0x0038
            &&& stack_top(ci, mi) == wrap16(c.pc + 1)
        }),
{
    lemma_halt_then_interrupt(c, m);
    reveal(exec_main);
    let (ch, mh, _) = step_spec(c, m);
    assert(mh == m);
    assert(ch.sp == c.sp);
    lemma_interrupt_accepted(ch, mh);
}

/// Whether `c` has both interrupt flip-flops set.
pub open spec fn ints_on(c: Cpu) -> bool {
    c.iff1 && c.iff2
}

proof fn lemma_index_keeps_ints(c: Cpu, m: BusState, iy: bool)
    requires
        ints_on(c),
    ensures
        ints_on(exec_index(c, m, iy).0),
{
    let op = m.read(c.pc);
    let c1 = fetched_prefixed(c);
    let y = ((op / 8) % 8) as int;
    let z = (op % 8) as int;
    assert(ints_on(idx_x1(c1, m, iy, y, z).0));
    assert(ints_on(idx_x2(c1, m, iy, y, z).0));
    assert(ints_on(exec_index_cb(c1, m, iy).0));
    assert(ints_on(idx_other(c1, m, iy, op).0));
}

proof fn lemma_ed_keeps_ints(c: Cpu, m: BusState)
    requires
        ints_on(c),
    ensures
        ints_on(exec_ed(c, m).0),
{
    let op = m.read(c.pc);
    let c1 = fetched_prefixed(c);
    let y = ((op / 8) % 8) as int;
    let z = (op % 8) as int;
    assert(ints_on(ed_x1_z7(c1, m, y).0));
    assert(ints_on(ed_x1(c1, m, y, z).0));
    assert(ints_on(ed_block(c1, m, y, z).0));
}

#[verifier::rlimit(40)]
proof fn lemma_x3_keeps_ints(c: Cpu, m: BusState, y: int, z: int)
    requires
        ints_on(c),
        !(y == 6 && z == 3),
    ensures
        ints_on(main_x3(c, m, y, z).0),
{
    if z == 3 && y == 1 {
        assert(ints_on(exec_cb(c, m).0));
    } else if z == 5 && y % 2 == 1 {
        lemma_ed_keeps_ints(c, m);
        lemma_index_keeps_ints(c, m, false);
        lemma_index_keeps_ints(c, m, true);
    }
}

/// No instruction but DI (0xF3) clears the interrupt flip-flops once both are set.
pub proof fn lemma_only_di_disables(c: Cpu, m: BusState, op: u8)
    requires
        ints_on(c),
        op != 0xF3,
    ensures
        ints_on(exec_main(c, m, op).0),
{
    reveal(exec_main);
    let y = ((op / 8) % 8) as int;
    let z = (op % 8) as int;
    assert(ints_on(main_x0(c, m, y, z).0));
    if op / 64 == 3 {
        lemma_x3_keeps_ints(c, m, y, z);
    }
}

/// EI takes effect after the next instruction: right after EI no interrupt is accepted
/// (when IFF1 was clear before it), and once the following instruction has run they are on,
/// unless that instruction is DI.
pub proof fn lemma_ei_delay(c: Cpu, m: BusState)
    requires
        !c.halted,
        !c.ei_pending,
        m.read(c.pc) == 0xFB,
    ensures
        step_spec(c, m).0.ei_pending,
        step_spec(c, m).0.iff1 == c.iff1,
        step_spec(c, m).0.iff2 == c.iff2,
        step_spec(c, m).1 == m,
        step_spec(c, m).2 == 4,
        !c.iff1 ==> interrupt_spec(step_spec(c, m).0, step_spec(c, m).1).2 == 0,
        m.read(step_spec(c, m).0.pc) != 0xF3 ==> ints_on(
            step_spec(step_spec(c, m).0, step_spec(c, m).1).0,
        ),
{
    reveal(exec_main);
    let c2 = step_spec(c, m).0;
    let c3 = Cpu { ei_pending: false, iff1: true, iff2: true, ..c2 };
    assert(!c2.halted);
    if m.read(c2.pc) != 0xF3 {
        lemma_only_di_disables(fetched(c3), m, m.read(c3.pc));
    }
}

/// Whether `v` holds two decimal digits (packed BCD).
pub open spec fn is_bcd(v: u8) -> bool {
    v % 16 <= 9 && v / 16 <= 9
}

/// The number 0..=99 that the BCD byte `v` holds.
pub open spec fn bcd_value(v: u8) -> int {
    (v / 16) * 10 + v % 16
}

/// ADD or ADC of two BCD bytes followed by DAA gives the BCD of the decimal sum modulo 100,
/// with carry set exactly when the sum reaches 100.
pub proof fn lemma_daa_after_add(c: Cpu, v: u8, carry: u8)
    requires
        is_bcd(c.a),
        is_bcd(v),
        carry <= 1,
    ensures
        is_bcd(daa_spec(add8_spec(c, v, carry)).a),
        bcd_value(daa_spec(add8_spec(c, v, carry)).a) == (bcd_value(c.a) + bcd_value(v) + carry) % 100,
        flags_of(daa_spec(add8_spec(c, v, carry))).c == (bcd_value(c.a) + bcd_value(v) + carry >= 100),
{
    let c1 = add8_spec(c, v, carry);
    let sum: int = c.a + v + carry;
    let (ah, al, bh, bl) = (c.a / 16, c.a % 16, v / 16, v % 16);
    lemma_add8_flag_facts(c, v, carry);
    lemma_daa_unfold(sum, c1.a, flags_of(c1).c, flags_of(c1).h);
    assert(sum == 16 * ah + al + 16 * bh + bl + carry);
    lemma_daa_add_digits(ah, al, bh, bl, carry);
    assert(flags_of(daa_spec(c1)).c == (flags_of(c1).c || c1.a > 0x99)) by {
        broadcast use lemma_unpack_pack;
    }
}

proof fn lemma_mod_256(x: int) by (nonlinear_arith)
    requires
        0 <= x < 512,
    ensures
        x % 256 == (if x >= 256 { x - 256 } else { x }),
{
}

proof fn lemma_add8_flag_facts(c: Cpu, v: u8, carry: u8)
    requires
        carry <= 1,
    ensures
        add8_spec(c, v, carry).a == (c.a + v + carry) % 256,
        flags_of(add8_spec(c, v, carry)).c == (c.a + v + carry > 255),
        flags_of(add8_spec(c, v, carry)).h == (c.a % 16 + v % 16 + carry > 15),
        !flags_of(add8_spec(c, v, carry)).n,
{
    broadcast use lemma_unpack_pack;

    lemma_mod_256(c.a + v + carry);
}

/// DAA after an addition, written over the exact sum `sum` (0..512) whose low byte is `a0`.
proof fn lemma_daa_unfold(sum: int, a0: u8, fc: bool, fh: bool)
    requires
        0 <= sum < 512,
        a0 == sum % 256,
        fc == (sum > 255),
    ensures
        ({
            let up = sum > 255 || (sum % 256) > 0x99;
            let a1 = if up { (sum + 0x60) % 256 } else { sum % 256 };
            daa_result(a0, fc, fh, false) == (if fh || a1 % 16 > 9 { (a1 + 6) % 256 } else { a1 })
        }),
{
    lemma_mod_256(sum);
    lemma_mod_256(a0 + 0x60);
    let up = sum > 255 || (sum % 256) > 0x99;
    assert(up ==> (a0 + 0x60) % 256 == (sum + 0x60) % 256) by (nonlinear_arith)
        requires
            a0 == sum % 256,
            0 <= sum < 512;
    let a1 = if up { (sum + 0x60) % 256 } else { sum % 256 };
    lemma_mod_256(a1 + 6);
}

/// The digit arithmetic behind `lemma_daa_after_add`, checked over all digit values.
proof fn lemma_daa_add_digits(ah: u8, al: u8, bh: u8, bl: u8, cin: u8) by (bit_vector)
    requires
        ah <= 9,
        al <= 9,
        bh <= 9,
        bl <= 9,
        cin <= 1,
    ensures
        ({
            let sum = 16 * ah + al + 16 * bh + bl + cin;
            let up = sum > 255 || (sum % 256) > 0x99;
            let a1 = if up { (sum + 0x60) % 256 } else { sum % 256 };
            let r = if al + bl + cin > 15 || a1 % 16 > 9 { (a1 + 6) % 256 } else { a1 };
            let total = 10 * ah + al + 10 * bh + bl + cin;
            &&& r % 16 <= 9
            &&& r / 16 <= 9
            &&& (r / 16) * 10 + r % 16 == total % 100
            &&& up == (total >= 100)
        }),
{
}

/// SUB or SBC of two BCD bytes followed by DAA gives the BCD of the decimal difference
/// modulo 100, with carry (borrow) set exactly when the difference is negative.
pub proof fn lemma_daa_after_sub(c: Cpu, v: u8, borrow: u8)
    requires
        is_bcd(c.a),
        is_bcd(v),
        borrow <= 1,
    ensures
        is_bcd(daa_spec(sub8_spec(c, v, borrow)).a),
        bcd_value(daa_spec(sub8_spec(c, v, borrow)).a) == (bcd_value(c.a) - bcd_value(v) - borrow) % 100,
        flags_of(daa_spec(sub8_spec(c, v, borrow))).c == (bcd_value(c.a) - bcd_value(v) - borrow < 0),
{
    let c1 = sub8_spec(c, v, borrow);
    let diff: int = c.a - v - borrow;
    let (ah, al, bh, bl) = (c.a / 16, c.a % 16, v / 16, v % 16);
    lemma_sub8_flag_facts(c, v, borrow);
    lemma_daa_unfold_sub(diff, c1.a, flags_of(c1).c, flags_of(c1).h);
    assert(diff == 16 * ah + al - 16 * bh - bl - borrow);
    lemma_daa_sub_digits(ah, al, bh, bl, borrow);
    let total: int = bcd_value(c.a) - bcd_value(v) - borrow;
    assert(total == 10 * ah + al - 10 * bh - bl - borrow);
    assert((total + 100) % 100 == total % 100) by (nonlinear_arith)
        requires
            -100 <= total < 100;
    assert(flags_of(daa_spec(c1)).c == flags_of(c1).c) by {
        broadcast use lemma_unpack_pack;
    }
}

proof fn lemma_sub8_flag_facts(c: Cpu, v: u8, borrow: u8)
    requires
        borrow <= 1,
    ensures
        sub8_spec(c, v, borrow).a == (c.a - v - borrow + 256) % 256,
        flags_of(sub8_spec(c, v, borrow)).c == (c.a - v - borrow < 0),
        flags_of(sub8_spec(c, v, borrow)).h == (c.a % 16 < v % 16 + borrow),
        flags_of(sub8_spec(c, v, borrow)).n,
{
    broadcast use lemma_unpack_pack;

    lemma_mod_256(c.a - v - borrow + 256);
}

/// DAA after a subtraction, written over the exact difference `diff` (-256..256) whose low
/// byte is `a0`.
proof fn lemma_daa_unfold_sub(diff: int, a0: u8, fc: bool, fh: bool)
    requires
        -256 <= diff < 256,
        a0 == (diff + 256) % 256,
        fc == (diff < 0),
    ensures
        ({
            let a1 = if diff < 0 { (diff + 256 + 256 - 0x60) % 256 } else { (diff + 256) % 256 };
            daa_result(a0, fc, fh, true) == (if fh { (a1 + 256 - 6) % 256 } else { a1 })
        }),
{
    lemma_mod_256(diff + 256);
    lemma_mod_256(a0 + 256 - 0x60);
    assert(diff < 0 ==> (a0 + 256 - 0x60) % 256 == (diff + 256 + 256 - 0x60) % 256) by (nonlinear_arith)
        requires
            a0 == (diff + 256) % 256,
            -256 <= diff < 256;
    let a1 = if diff < 0 { (diff + 256 + 256 - 0x60) % 256 } else { (diff + 256) % 256 };
    lemma_mod_256(a1 + 256 - 6);
}

/// The digit arithmetic behind `lemma_daa_after_sub`, checked over all digit values.
proof fn lemma_daa_sub_digits(ah: u8, al: u8, bh: u8, bl: u8, cin: u8) by (bit_vector)
    requires
        ah <= 9,
        al <= 9,
        bh <= 9,
        bl <= 9,
        cin <= 1,
    ensures
        ({
            let neg = 16 * ah + al < 16 * bh + bl + cin;
            let a1 = if neg { (16 * ah + al + 256 - 16 * bh - bl - cin + 256 - 0x60) % 256 } else {
                (16 * ah + al + 256 - 16 * bh - bl - cin) % 256
            };
            let r = if al < bl + cin { (a1 + 256 - 6) % 256 } else { a1 };
            &&& r % 16 <= 9
            &&& r / 16 <= 9
            &&& (r / 16) * 10 + r % 16 == (10 * ah + al + 100 - 10 * bh - bl - cin) % 100
            &&& neg == (10 * ah + al < 10 * bh + bl + cin)
        }),
{
}

/// The processor with IX and IY exchanged.
pub open spec fn swap_index(c: Cpu) -> Cpu {
    Cpu { ix: c.iy, iy: c.ix, ..c }
}

proof fn lemma_mirror_alu(c: Cpu, op: int, v: u8)
    ensures
        alu_spec(swap_index(c), op, v) == swap_index(alu_spec(c, op, v)),
        inc8_spec(swap_index(c), v) == (swap_index(inc8_spec(c, v).0), inc8_spec(c, v).1),
        dec8_spec(swap_index(c), v) == (swap_index(dec8_spec(c, v).0), dec8_spec(c, v).1),
{
    let d = swap_index(c);
    assert(d.a == c.a && d.f == c.f);
    let cy = b2i(flags_of(c).c) as u8;
    if op == 0 || op == 1 {
        let k: u8 = if op == 0 { 0 } else { cy };
        assert(add8_spec(d, v, k) == swap_index(add8_spec(c, v, k)));
    } else if op == 2 || op == 3 {
        let k: u8 = if op == 2 { 0 } else { cy };
        assert(sub8_spec(d, v, k) == swap_index(sub8_spec(c, v, k)));
    } else if op == 4 {
        assert(and8_spec(d, v) == swap_index(and8_spec(c, v)));
    } else if op == 5 {
        assert(xor8_spec(d, v) == swap_index(xor8_spec(c, v)));
    } else if op == 6 {
        assert(or8_spec(d, v) == swap_index(or8_spec(c, v)));
    } else {
        assert(cp8_spec(d, v) == swap_index(cp8_spec(c, v)));
    }
}

proof fn lemma_mirror_x1(c1: Cpu, m: BusState, y: int, z: int)
    ensures
        idx_x1(c1, m, true, y, z).0 == swap_index(idx_x1(swap_index(c1), m, false, y, z).0),
        idx_x1(c1, m, true, y, z).1 == idx_x1(swap_index(c1), m, false, y, z).1,
        idx_x1(c1, m, true, y, z).2 == idx_x1(swap_index(c1), m, false, y, z).2,
{
}

proof fn lemma_mirror_x2(c1: Cpu, m: BusState, y: int, z: int)
    ensures
        idx_x2(c1, m, true, y, z).0 == swap_index(idx_x2(swap_index(c1), m, false, y, z).0),
        idx_x2(c1, m, true, y, z).1 == idx_x2(swap_index(c1), m, false, y, z).1,
        idx_x2(c1, m, true, y, z).2 == idx_x2(swap_index(c1), m, false, y, z).2,
{
    lemma_mirror_alu(c1, y, idx_half(c1, true, z));
    lemma_mirror_alu(fetched(c1), y, m.read(idx_addr(c1, m, true)));
    assert(fetched(swap_index(c1)) == swap_index(fetched(c1)));
}

proof fn lemma_mirror_cb(c1: Cpu, m: BusState)
    ensures
        exec_index_cb(c1, m, true).0 == swap_index(exec_index_cb(swap_index(c1), m, false).0),
        exec_index_cb(c1, m, true).1 == exec_index_cb(swap_index(c1), m, false).1,
        exec_index_cb(c1, m, true).2 == exec_index_cb(swap_index(c1), m, false).2,
{
}

proof fn lemma_mirror_other(c1: Cpu, m: BusState, op: u8)
    ensures
        idx_other(c1, m, true, op).0 == swap_index(idx_other(swap_index(c1), m, false, op).0),
        idx_other(c1, m, true, op).1 == idx_other(swap_index(c1), m, false, op).1,
        idx_other(c1, m, true, op).2 == idx_other(swap_index(c1), m, false, op).2,
{
    if op == 0xCB {
        lemma_mirror_cb(c1, m);
    } else if op == 0x34 || op == 0x35 {
        let a = idx_addr(c1, m, true);
        lemma_mirror_alu(fetched(c1), 0, m.read(a));
        assert(fetched(swap_index(c1)) == swap_index(fetched(c1)));
    } else if op == 0x24 || op == 0x25 || op == 0x2C || op == 0x2D {
        let half = if op < 0x28 { 4int } else { 5int };
        lemma_mirror_alu(c1, 0, idx_half(c1, true, half));
    }
}

/// An FD-prefixed (IY) instruction does what the DD-prefixed (IX) instruction with the same
/// bytes does with IX and IY exchanged: same memory, same T-states, and a processor that
/// differs only in IX and IY being exchanged.
pub proof fn lemma_fd_mirrors_dd(c: Cpu, m: BusState)
    ensures
        exec_index(c, m, true).0 == swap_index(exec_index(swap_index(c), m, false).0),
        exec_index(c, m, true).1 == exec_index(swap_index(c), m, false).1,
        exec_index(c, m, true).2 == exec_index(swap_index(c), m, false).2,
{
    let op = m.read(c.pc);
    let c1 = fetched_prefixed(c);
    assert(fetched_prefixed(swap_index(c)) == swap_index(c1));
    let y = ((op / 8) % 8) as int;
    let z = (op % 8) as int;
    lemma_mirror_x1(c1, m, y, z);
    lemma_mirror_x2(c1, m, y, z);
    lemma_mirror_other(c1, m, op);
}

} // verus!
