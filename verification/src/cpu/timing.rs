//! Timing laws: how many T-states an instruction takes, that only `step`
//! moves the frame counter `t`, and that a beeper transition is logged with the
//! time at which its instruction began.
use vstd::prelude::*;
use crate::bus::BusState;
use crate::cpu::Cpu;
use crate::cpu::isa::{
    exec_main, main_x0, main_x3, exec_cb, exec_index, exec_index_cb, idx_other, idx_x1, idx_x2, exec_ed, ed_x1,
    ed_x1_z7, ed_block, step_spec, interrupt_spec,
};

verus! {

proof fn lemma_cb_timing(c: Cpu, m: BusState)
    ensures
        exec_cb(c, m).0.t == c.t,
        8 <= exec_cb(c, m).2 <= 15,
{
}

proof fn lemma_index_timing(c: Cpu, m: BusState, iy: bool)
    ensures
        exec_index(c, m, iy).0.t == c.t,
        8 <= exec_index(c, m, iy).2 <= 23,
{
    let op = m.read(c.pc);
    let c1 = crate::cpu::isa::fetched_prefixed(c);
    let y = ((op / 8) % 8) as int;
    let z = (op % 8) as int;
    assert(idx_x1(c1, m, iy, y, z).0.t == c.t && 8 <= idx_x1(c1, m, iy, y, z).2 <= 19);
    assert(idx_x2(c1, m, iy, y, z).0.t == c.t && 8 <= idx_x2(c1, m, iy, y, z).2 <= 19);
    assert(exec_index_cb(c1, m, iy).0.t == c.t && 20 <= exec_index_cb(c1, m, iy).2 <= 23);
    assert(idx_other(c1, m, iy, op).0.t == c.t && 8 <= idx_other(c1, m, iy, op).2 <= 23);
}

proof fn lemma_ed_timing(c: Cpu, m: BusState)
    ensures
        exec_ed(c, m).0.t == c.t,
        8 <= exec_ed(c, m).2 <= 21,
{
    let op = m.read(c.pc);
    let c1 = crate::cpu::isa::fetched_prefixed(c);
    let y = ((op / 8) % 8) as int;
    let z = (op % 8) as int;
    assert(ed_x1_z7(c1, m, y).0.t == c.t && 8 <= ed_x1_z7(c1, m, y).2 <= 18);
    assert(ed_x1(c1, m, y, z).0.t == c.t && 8 <= ed_x1(c1, m, y, z).2 <= 20);
    assert(ed_block(c1, m, y, z).0.t == c.t && 16 <= ed_block(c1, m, y, z).2 <= 21);
}

proof fn lemma_x0_timing(c: Cpu, m: BusState, y: int, z: int)
    ensures
        main_x0(c, m, y, z).0.t == c.t,
        4 <= main_x0(c, m, y, z).2 <= 16,
{
}

proof fn lemma_x3_timing(c: Cpu, m: BusState, y: int, z: int)
    ensures
        main_x3(c, m, y, z).0.t == c.t,
        4 <= main_x3(c, m, y, z).2 <= 23,
{
    if z == 3 && y == 1 {
        lemma_cb_timing(c, m);
    } else if z == 5 && y % 2 == 1 {
        lemma_ed_timing(c, m);
        lemma_index_timing(c, m, false);
        lemma_index_timing(c, m, true);
    }
}

/// Every unprefixed or prefixed instruction takes between 4 and 23 T-states and
/// leaves the frame counter `t` alone.
pub proof fn lemma_main_timing(c: Cpu, m: BusState, op: u8)
    ensures
        exec_main(c, m, op).0.t == c.t,
        4 <= exec_main(c, m, op).2 <= 23,
{
    reveal(exec_main);
    let y = ((op / 8) % 8) as int;
    let z = (op % 8) as int;
    lemma_x0_timing(c, m, y, z);
    lemma_x3_timing(c, m, y, z);
}

/// A step takes between 4 and 23 T-states and advances `t` by exactly that many.
pub proof fn lemma_step_timing(c: Cpu, m: BusState)
    ensures
        4 <= step_spec(c, m).2 <= 23,
        step_spec(c, m).0.t == (c.t + step_spec(c, m).2) % 0x1_0000_0000,
{
    let c1 = if c.ei_pending { Cpu { ei_pending: false, iff1: true, iff2: true, ..c } } else { c };
    lemma_main_timing(crate::cpu::fetched(c1), m, m.read(c1.pc));
}

/// Servicing an interrupt takes 0, 13 or 19 T-states and leaves `t` alone.
pub proof fn lemma_interrupt_timing(c: Cpu, m: BusState)
    ensures
        interrupt_spec(c, m).0.t == c.t,
        interrupt_spec(c, m).2 == 0 || interrupt_spec(c, m).2 == 13 || interrupt_spec(c, m).2 == 19,
        interrupt_spec(c, m).2 == 0 ==> interrupt_spec(c, m).1 == m,
{
}

/// The beeper log after an instruction that began at time `t`: unchanged, or one
/// transition more, logged at `t`.
pub open spec fn logged_at(before: Seq<(u32, bool)>, after: Seq<(u32, bool)>, t: u32) -> bool {
    after == before || after == before.push((t, after.last().1))
}

proof fn lemma_cb_log(c: Cpu, m: BusState)
    ensures
        exec_cb(c, m).1.beeper_log == m.beeper_log,
{
}

proof fn lemma_index_log(c: Cpu, m: BusState, iy: bool)
    ensures
        exec_index(c, m, iy).1.beeper_log == m.beeper_log,
{
    let op = m.read(c.pc);
    let c1 = crate::cpu::isa::fetched_prefixed(c);
    let y = ((op / 8) % 8) as int;
    let z = (op % 8) as int;
    assert(idx_x1(c1, m, iy, y, z).1.beeper_log == m.beeper_log);
    assert(idx_x2(c1, m, iy, y, z).1.beeper_log == m.beeper_log);
    assert(exec_index_cb(c1, m, iy).1.beeper_log == m.beeper_log);
    assert(idx_other(c1, m, iy, op).1.beeper_log == m.beeper_log);
}

proof fn lemma_ed_log(c: Cpu, m: BusState)
    ensures
        logged_at(m.beeper_log, exec_ed(c, m).1.beeper_log, c.t),
{
    let op = m.read(c.pc);
    let c1 = crate::cpu::isa::fetched_prefixed(c);
    let y = ((op / 8) % 8) as int;
    let z = (op % 8) as int;
    assert(ed_x1_z7(c1, m, y).1.beeper_log == m.beeper_log);
    assert(logged_at(m.beeper_log, ed_x1(c1, m, y, z).1.beeper_log, c.t));
    assert(ed_block(c1, m, y, z).1.beeper_log == m.beeper_log);
}

proof fn lemma_x3_log(c: Cpu, m: BusState, y: int, z: int)
    ensures
        logged_at(m.beeper_log, main_x3(c, m, y, z).1.beeper_log, c.t),
{
    if z == 3 && y == 1 {
        lemma_cb_log(c, m);
    } else if z == 5 && y % 2 == 1 {
        lemma_ed_log(c, m);
        lemma_index_log(c, m, false);
        lemma_index_log(c, m, true);
    }
}

/// An instruction that begins at time `c.t` logs at most one beeper transition, at `c.t`.
pub proof fn lemma_main_log(c: Cpu, m: BusState, op: u8)
    ensures
        logged_at(m.beeper_log, exec_main(c, m, op).1.beeper_log, c.t),
{
    reveal(exec_main);
    let y = ((op / 8) % 8) as int;
    let z = (op % 8) as int;
    assert(main_x0(c, m, y, z).1.beeper_log == m.beeper_log);
    lemma_x3_log(c, m, y, z);
}

/// A step logs at most one beeper transition, at the time the step began; servicing
/// an interrupt logs none.
pub proof fn lemma_step_log(c: Cpu, m: BusState)
    ensures
        logged_at(m.beeper_log, step_spec(c, m).1.beeper_log, c.t),
        interrupt_spec(c, m).1.beeper_log == m.beeper_log,
{
    let c1 = if c.ei_pending { Cpu { ei_pending: false, iff1: true, iff2: true, ..c } } else { c };
    lemma_main_log(crate::cpu::fetched(c1), m, m.read(c1.pc));
}

} // verus!
