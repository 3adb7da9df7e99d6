//! The ZX Spectrum 48K machine: CPU, bus, display and beeper audio, run one
//! video frame at a time.
use vstd::prelude::*;
use vstd::string::StringSliceAdditionalSpecFns;
use crate::bus::{Bus, BusState, ROM_SIZE, RAM_SIZE};
use crate::cpu::{Cpu, power_on, pair, wrap16};
use crate::cpu::isa::{step_spec, interrupt_spec};
use crate::cpu::timing::{lemma_step_timing, lemma_interrupt_timing, lemma_step_log};
use crate::display::{Display, FB_LEN, SCREEN_W, SCREEN_H, shows, flash_phase_of};
use crate::keyboard::{ZxKey, map_key, key_for_code, key_pressed, press_rows, release_rows, bytes_eq, lemma_release_undoes_press, lemma_press_release_other, lemma_press_effect};

verus! {

broadcast use crate::bus::lemma_bus_view;

/// ZX Spectrum 48K: T-states per frame at 3.5 MHz / 50 Hz.
pub const T_PER_FRAME: u32 = 69888;
/// Beeper audio: 3.5 MHz CPU clock.
pub const CPU_HZ: u32 = 3_500_000;
/// Beeper audio: 44100 Hz output.
pub const SAMPLE_RATE: u32 = 44_100;
/// Audio samples in one 50 Hz frame.
pub const SAMPLES_PER_FRAME: u32 = 882;
/// Length of a 48 K .SNA snapshot: 27 header bytes and 48 KB of RAM.
pub const SNA_LEN: usize = 49179;

/// One video frame from the state (`c`, `m`): the 50 Hz interrupt is serviced at T=0
/// (when it is taken, its T-states are counted), then instructions run until T reaches
/// `T_PER_FRAME`.
pub open spec fn frame_run(c: Cpu, m: BusState) -> (Cpu, BusState)
    decreases T_PER_FRAME + 23 - c.t,
{
    if c.t >= T_PER_FRAME {
        (c, m)
    } else if c.t == 0 && interrupt_spec(c, m).2 > 0 {
        let (ci, mi, irq) = interrupt_spec(c, m);
        proof {
            lemma_interrupt_timing(c, m);
        }
        frame_run(Cpu { t: (ci.t + irq) as u32, ..ci }, mi)
    } else {
        let (ci, mi) = if c.t == 0 { (interrupt_spec(c, m).0, interrupt_spec(c, m).1) } else { (c, m) };
        proof {
            lemma_interrupt_timing(c, m);
            lemma_step_timing(ci, mi);
        }
        let (c2, m2, _) = step_spec(ci, mi);
        frame_run(c2, m2)
    }
}

/// The T-state within the frame that audio sample `s` stands for.
pub open spec fn sample_time(s: int) -> int {
    s * 3_500_000 / 44_100
}

/// From log position `p`, the position past every entry taken at or before time `tp`
/// (entries are taken in order, stopping at the first later one).
pub open spec fn advance(log: Seq<(u32, bool)>, p: int, tp: int) -> int
    decreases log.len() - p,
{
    if 0 <= p < log.len() && log[p].0 <= tp { advance(log, p + 1, tp) } else { p }
}

/// The number of beeper log entries taken once sample `s` is produced.
pub open spec fn consumed(log: Seq<(u32, bool)>, s: int) -> int
    decreases s + 1,
{
    if s < 0 { 0 } else { advance(log, consumed(log, s - 1), sample_time(s)) }
}

/// The beeper level of audio sample `s`: the level of the last log entry taken, or the
/// level `init` when none has been.
pub open spec fn level_at(log: Seq<(u32, bool)>, init: bool, s: int) -> bool {
    let p = consumed(log, s);
    if p > 0 { log[p - 1].1 } else { init }
}

/// The square-wave samples of one frame (true = high) from its beeper log, starting at
/// the level `init` the beeper had when the frame began.
pub open spec fn frame_levels(log: Seq<(u32, bool)>, init: bool) -> Seq<bool> {
    Seq::new(SAMPLES_PER_FRAME as nat, |s: int| level_at(log, init, s))
}

/// The Spectrum keys that a JS key code (given by its bytes) stands for: the cursor
/// keys are CAPS SHIFT with 5, 6, 7 or 8; other codes map through `key_for_code`.
pub open spec fn keys_for(code: Seq<u8>) -> Seq<ZxKey> {
    if code == seq![65u8, 114u8, 114u8, 111u8, 119u8, 76u8, 101u8, 102u8, 116u8] /* "ArrowLeft" */ {
        seq![ZxKey::CapsShift, ZxKey::K5]
    } else if code == seq![65u8, 114u8, 114u8, 111u8, 119u8, 68u8, 111u8, 119u8, 110u8] /* "ArrowDown" */ {
        seq![ZxKey::CapsShift, ZxKey::K6]
    } else if code == seq![65u8, 114u8, 114u8, 111u8, 119u8, 85u8, 112u8] /* "ArrowUp" */ {
        seq![ZxKey::CapsShift, ZxKey::K7]
    } else if code == seq![65u8, 114u8, 114u8, 111u8, 119u8, 82u8, 105u8, 103u8, 104u8, 116u8] /* "ArrowRight" */ {
        seq![ZxKey::CapsShift, ZxKey::K8]
    } else {
        match key_for_code(code) {
            Some(k) => seq![k],
            None => Seq::empty(),
        }
    }
}

/// The keyboard rows after pressing each of `ks` in turn.
pub open spec fn press_all(rows: Seq<u8>, ks: Seq<ZxKey>) -> Seq<u8>
    decreases ks.len(),
{
    if ks.len() == 0 { rows } else { press_all(press_rows(rows, ks[0]), ks.drop_first()) }
}

/// The keyboard rows after releasing each of `ks` in turn.
pub open spec fn release_all(rows: Seq<u8>, ks: Seq<ZxKey>) -> Seq<u8>
    decreases ks.len(),
{
    if ks.len() == 0 { rows } else { release_all(release_rows(rows, ks[0]), ks.drop_first()) }
}

/// The registers a .SNA header sets: I, the alternate set, HL DE BC, IY, IX, the interrupt
/// flip-flops (both from bit 2 of byte 19), R, AF, SP and the interrupt mode.
pub open spec fn sna_registers(c: Cpu, d: Seq<u8>) -> Cpu {
    Cpu {
        i: d[0],
        l2: d[1],
        h2: d[2],
        e2: d[3],
        d2: d[4],
        c2: d[5],
        b2: d[6],
        f2: d[7],
        a2: d[8],
        l: d[9],
        h: d[10],
        e: d[11],
        d: d[12],
        c: d[13],
        b: d[14],
        iy: pair(d[16], d[15]),
        ix: pair(d[18], d[17]),
        iff1: (d[19] / 4) % 2 == 1,
        iff2: (d[19] / 4) % 2 == 1,
        r: d[20],
        f: d[21],
        a: d[22],
        sp: pair(d[24], d[23]),
        im: d[25] % 4,
        ..c
    }
}

/// The bus after loading snapshot `d`: RAM from the 48 KB after the header, border from byte 26.
pub open spec fn sna_bus(m: BusState, d: Seq<u8>) -> BusState {
    BusState { ram: d.subrange(27, 27 + 49152int), border_color: d[26] % 8, ..m }
}

/// The processor after loading snapshot `d`: the header registers, then PC popped off the
/// stack in the loaded memory `m`, not halted, T = 0.
pub open spec fn sna_cpu(c: Cpu, m: BusState, d: Seq<u8>) -> Cpu {
    let h = sna_registers(c, d);
    Cpu { pc: m.read16(h.sp), sp: wrap16(h.sp + 2), halted: false, t: 0, ..h }
}

pub struct ZxSpectrum {
    cpu: Cpu,
    bus: Bus,
    display: Display,
    /// Beeper levels of the samples produced since the audio was last taken (true = high).
    audio: Vec<bool>,
}

impl ZxSpectrum {
    pub closed spec fn wf(&self) -> bool {
        &&& self.bus.wf()
        &&& self.display.framebuffer@.len() == FB_LEN
    }

    /// The processor state.
    pub closed spec fn cpu_state(&self) -> Cpu {
        self.cpu
    }

    /// The bus state: memory, keyboard, border and beeper.
    pub closed spec fn bus_state(&self) -> BusState {
        self.bus@
    }

    /// The RGBA framebuffer.
    pub closed spec fn framebuffer(&self) -> Seq<u8> {
        self.display.framebuffer@
    }

    /// The number of frames rendered.
    pub closed spec fn frames(&self) -> u32 {
        self.display.frame_counter
    }

    /// The audio samples produced and not yet taken.
    pub closed spec fn audio(&self) -> Seq<bool> {
        self.audio@
    }

    pub fn new() -> (z: Self)
        ensures
            z.wf(),
            z.cpu_state() == power_on(),
            z.bus_state().rom == Seq::new(ROM_SIZE as nat, |i: int| 0xFFu8),
            z.bus_state().ram == Seq::new(RAM_SIZE as nat, |i: int| 0u8),
            z.bus_state().keys == Seq::new(8, |i: int| 0u8),
            z.bus_state().border_color == 7,
            !z.bus_state().beeper,
            z.bus_state().beeper_log == Seq::<(u32, bool)>::empty(),
            z.framebuffer() == Seq::new(FB_LEN as nat, |i: int| 0xFFu8),
            z.frames() == 0,
            z.audio() == Seq::<bool>::empty(),
    {
        ZxSpectrum { cpu: Cpu::new(), bus: Bus::new(), display: Display::new(), audio: Vec::new() }
    }

    /// Load the 16 KB Spectrum ROM image (a shorter image is padded with 0xFF) and reset:
    /// power-on registers, white border, beeper low.
    pub fn load_rom(&mut self, data: &[u8])
        requires
            old(self).wf(),
        ensures
            final(self).wf(),
            final(self).cpu_state() == power_on(),
            final(self).bus_state() == (BusState {
                rom: Seq::new(ROM_SIZE as nat, |i: int| if i < data@.len() { data@[i] } else { 0xFFu8 }),
                border_color: 7,
                beeper: false,
                ..old(self).bus_state()
            }),
            final(self).framebuffer() == old(self).framebuffer(),
            final(self).frames() == old(self).frames(),
            final(self).audio() == old(self).audio(),
    {
        self.bus.load_rom(data);
        self.reset();
    }

    /// Load a 48 K .SNA snapshot (49179 bytes). Does NOT require a ROM: the entire
    /// machine state is in the file. Returns false, changing nothing, when `data` is too short.
    pub fn load_sna(&mut self, data: &[u8]) -> (ok: bool)
        requires
            old(self).wf(),
        ensures
            final(self).wf(),
            ok == (data@.len() >= SNA_LEN),
            !ok ==> *final(self) == *old(self),
            ok ==> final(self).bus_state() == sna_bus(old(self).bus_state(), data@),
            ok ==> final(self).cpu_state() == sna_cpu(old(self).cpu_state(), final(self).bus_state(), data@),
            final(self).framebuffer() == old(self).framebuffer(),
            final(self).frames() == old(self).frames(),
            final(self).audio() == old(self).audio(),
    {
        if data.len() < 27 + 49152 {
            return false;
        }
        self.cpu.i = data[0];
        self.cpu.l2 = data[1];
        self.cpu.h2 = data[2];
        self.cpu.e2 = data[3];
        self.cpu.d2 = data[4];
        self.cpu.c2 = data[5];
        self.cpu.b2 = data[6];
        self.cpu.f2 = data[7];
        self.cpu.a2 = data[8];
        self.cpu.l = data[9];
        self.cpu.h = data[10];
        self.cpu.e = data[11];
        self.cpu.d = data[12];
        self.cpu.c = data[13];
        self.cpu.b = data[14];
        self.cpu.iy = u16_from_le(data[15], data[16]);
        self.cpu.ix = u16_from_le(data[17], data[18]);
        self.cpu.iff2 = (data[19] / 4) % 2 == 1;
        self.cpu.iff1 = self.cpu.iff2;
        self.cpu.r = data[20];
        self.cpu.f = data[21];
        self.cpu.a = data[22];
        self.cpu.sp = u16_from_le(data[23], data[24]);
        self.cpu.im = data[25] % 4;
        self.bus.border_color = data[26] % 8;
        let ghost regs = self.cpu;

        // Load RAM (0x4000–0xFFFF)
        let mut i: usize = 0;
        while i < 49152
            invariant
                data@.len() >= SNA_LEN,
                i <= 49152,
                self.bus.wf(),
                self.bus@ == (BusState { ram: self.bus@.ram, ..sna_bus(old(self).bus@, data@) }),
                forall|j: int| 0 <= j < i ==> self.bus@.ram[j] == data@[27 + j],
                self.cpu == regs,
                self.display == old(self).display,
                self.audio@ == old(self).audio@,
            decreases 49152 - i,
        {
            self.bus.write(0x4000 + i as u16, data[27 + i]);
            i += 1;
        }
        assert(self.bus@.ram =~= data@.subrange(27, 27 + 49152int));

        // PC is on the stack in SNA format: pop it
        let sp = self.cpu.sp;
        let pc_lo = self.bus.read(sp);
        let pc_hi = self.bus.read(sp.wrapping_add(1));
        self.cpu.pc = pc_hi as u16 * 256 + pc_lo as u16;
        self.cpu.sp = sp.wrapping_add(2);

        self.cpu.halted = false;
        self.cpu.t = 0;
        true
    }

    /// Run one video frame (69888 T-states). Fires the 50 Hz maskable interrupt at its start,
    /// then renders the display and produces the frame's audio samples: the beeper's
    /// transitions in the frame as a square wave that starts at its level at the frame's start.
    pub fn step_frame(&mut self)
        requires
            old(self).wf(),
            old(self).frames() < u32::MAX,
        ensures
            final(self).wf(),
            (final(self).cpu_state(), final(self).bus_state()) == frame_run(
                Cpu { t: 0, ..old(self).cpu_state() },
                BusState { beeper_log: Seq::empty(), ..old(self).bus_state() },
            ),
            final(self).frames() == old(self).frames() + 1,
            shows(final(self).framebuffer(), final(self).bus_state(), flash_phase_of(final(self).frames())),
            final(self).audio() == old(self).audio() + frame_levels(
                final(self).bus_state().beeper_log,
                old(self).bus_state().beeper,
            ),
    {
        self.bus.clear_beeper_log();
        self.cpu.t = 0;
        let start_level = self.bus.beeper;
        let ghost start = (self.cpu, self.bus@);

        while self.cpu.t < T_PER_FRAME
            invariant
                self.bus.wf(),
                frame_run(self.cpu, self.bus@) == frame_run(start.0, start.1),
                self.display == old(self).display,
                self.audio@ == old(self).audio@,
            decreases T_PER_FRAME + 23 - self.cpu.t,
        {
            proof {
                lemma_interrupt_timing(self.cpu, self.bus@);
            }
            // Fire the 50 Hz interrupt at T=0 of each frame
            if self.cpu.t == 0 {
                let irq_cycles = self.cpu.interrupt(&mut self.bus);
                if irq_cycles > 0 {
                    self.cpu.t = self.cpu.t + irq_cycles;
                    continue;
                }
            }
            proof {
                lemma_step_timing(self.cpu, self.bus@);
            }
            // t is updated inside step()
            let _cycles = self.cpu.step(&mut self.bus);
        }

        self.display.render(&self.bus);
        self.generate_audio(start_level);
    }

    /// The 320×240 RGBA framebuffer.
    pub fn get_framebuffer(&self) -> (fb: Vec<u8>)
        requires
            self.wf(),
        ensures
            fb@ == self.framebuffer(),
    {
        let fb = self.display.framebuffer.clone();
        assert(fb@ =~= self.display.framebuffer@);
        fb
    }

    /// Take the audio samples produced since the last call (true = high level).
    pub fn take_audio_levels(&mut self) -> (levels: Vec<bool>)
        requires
            old(self).wf(),
        ensures
            final(self).wf(),
            levels@ == old(self).audio(),
            final(self).audio() == Seq::<bool>::empty(),
            final(self).cpu_state() == old(self).cpu_state(),
            final(self).bus_state() == old(self).bus_state(),
            final(self).framebuffer() == old(self).framebuffer(),
            final(self).frames() == old(self).frames(),
    {
        let mut levels: Vec<bool> = Vec::new();
        std::mem::swap(&mut levels, &mut self.audio);
        levels
    }

    /// The number of frames rendered.
    pub fn frame_count(&self) -> (n: u32)
        ensures
            n == self.frames(),
    {
        self.display.frame_counter
    }

    /// Key press. Pass the JS key code string; the cursor keys press CAPS SHIFT and 5/6/7/8.
    pub fn key_down(&mut self, key: &str)
        requires
            old(self).wf(),
        ensures
            final(self).wf(),
            final(self).bus_state() == (BusState {
                keys: press_all(old(self).bus_state().keys, keys_for(key.spec_bytes())),
                ..old(self).bus_state()
            }),
            final(self).cpu_state() == old(self).cpu_state(),
            final(self).framebuffer() == old(self).framebuffer(),
            final(self).frames() == old(self).frames(),
            final(self).audio() == old(self).audio(),
    {
        let s = key.as_bytes();
        proof {
            self.bus.keyboard.lemma_rows_len();
        }
        // Cursor keys: map to CAPS SHIFT + 5/6/7/8
        if let Some(k) = arrow_digit(s) {
            self.bus.keyboard.press(ZxKey::CapsShift);
            self.bus.keyboard.press(k);
            proof {
                reveal_with_fuel(press_all, 3);
            }
        } else if let Some(k) = map_key(key) {
            self.bus.keyboard.press(k);
            proof {
                reveal_with_fuel(press_all, 2);
            }
        } else {
            proof {
                assert(self.bus@.keys == press_all(old(self).bus@.keys, keys_for(key.spec_bytes())));
            }
        }
    }

    /// Key release. Pass the JS key code string; the cursor keys release CAPS SHIFT and 5/6/7/8.
    pub fn key_up(&mut self, key: &str)
        requires
            old(self).wf(),
        ensures
            final(self).wf(),
            final(self).bus_state() == (BusState {
                keys: release_all(old(self).bus_state().keys, keys_for(key.spec_bytes())),
                ..old(self).bus_state()
            }),
            final(self).cpu_state() == old(self).cpu_state(),
            final(self).framebuffer() == old(self).framebuffer(),
            final(self).frames() == old(self).frames(),
            final(self).audio() == old(self).audio(),
    {
        let s = key.as_bytes();
        proof {
            self.bus.keyboard.lemma_rows_len();
        }
        if let Some(k) = arrow_digit(s) {
            self.bus.keyboard.release(ZxKey::CapsShift);
            self.bus.keyboard.release(k);
            proof {
                reveal_with_fuel(release_all, 3);
            }
        } else if let Some(k) = map_key(key) {
            self.bus.keyboard.release(k);
            proof {
                reveal_with_fuel(release_all, 2);
            }
        } else {
            proof {
                assert(self.bus@.keys == release_all(old(self).bus@.keys, keys_for(key.spec_bytes())));
            }
        }
    }

    pub fn screen_width() -> (w: u32)
        ensures
            w == 320,
    {
        SCREEN_W as u32
    }

    pub fn screen_height() -> (h: u32)
        ensures
            h == 240,
    {
        SCREEN_H as u32
    }

    /// Power-on registers, white border, beeper low.
    fn reset(&mut self)
        requires
            old(self).wf(),
        ensures
            final(self).wf(),
            final(self).cpu == power_on(),
            final(self).bus@ == (BusState { border_color: 7, beeper: false, ..old(self).bus@ }),
            final(self).display == old(self).display,
            final(self).audio@ == old(self).audio@,
    {
        self.cpu = Cpu::new();
        self.cpu.t = 0;
        self.bus.border_color = 7;
        self.bus.beeper = false;
    }

    /// Convert the frame's beeper transition log into square-wave samples, starting from
    /// the level `start_level` the beeper had when the frame began.
    fn generate_audio(&mut self, start_level: bool)
        requires
            old(self).bus.wf(),
        ensures
            final(self).cpu == old(self).cpu,
            final(self).bus == old(self).bus,
            final(self).display == old(self).display,
            final(self).audio@ == old(self).audio@ + frame_levels(old(self).bus@.beeper_log, start_level),
    {
        // Number of samples for one frame
        let samples_per_frame = SAMPLE_RATE / 50;  // 882
        let ghost log = self.bus.beeper_log@;
        let ghost init = start_level;

        let mut level = start_level;
        let mut next: usize = 0;  // the first log entry not yet taken

        let mut s: u32 = 0;
        while s < samples_per_frame
            invariant
                samples_per_frame == SAMPLES_PER_FRAME,
                s <= samples_per_frame,
                log == self.bus.beeper_log@,
                init == start_level,
                self.cpu == old(self).cpu,
                self.bus == old(self).bus,
                self.display == old(self).display,
                next == consumed(log, s - 1),
                next <= log.len(),
                level == (if next > 0 { log[next - 1].1 } else { init }),
                self.audio@ == old(self).audio@ + Seq::new(s as nat, |k: int| level_at(log, init, k)),
            decreases samples_per_frame - s,
        {
            // T-cycle position corresponding to this sample
            let t_pos = (s as u64 * CPU_HZ as u64 / SAMPLE_RATE as u64) as u32;
            let ghost start = next;

            // Advance past any transitions that occurred before this sample
            while next < self.bus.beeper_log.len() && self.bus.beeper_log[next].0 <= t_pos
                invariant
                    log == self.bus.beeper_log@,
                    start <= next <= log.len(),
                    t_pos == sample_time(s as int),
                    advance(log, next as int, t_pos as int) == advance(log, start as int, t_pos as int),
                    level == (if next > 0 { log[next - 1].1 } else { init }),
                decreases log.len() - next,
            {
                level = self.bus.beeper_log[next].1;
                next += 1;
            }
            assert(next == consumed(log, s as int));
            self.audio.push(level);
            assert(self.audio@ =~= old(self).audio@ + Seq::new((s + 1) as nat, |k: int| level_at(log, init, k)));
            s += 1;
        }
        assert(Seq::new(s as nat, |k: int| level_at(log, init, k)) =~= frame_levels(log, init));
    }
}

/// The 16-bit word stored little-endian as `lo`, `hi`.
fn u16_from_le(lo: u8, hi: u8) -> (v: u16)
    ensures
        v == pair(hi, lo),
{
    proof {
        reveal(pair);
    }
    hi as u16 * 256 + lo as u16
}

/// For a cursor key code, the digit key that CAPS SHIFT chords with it: "ArrowLeft" 5,
/// "ArrowDown" 6, "ArrowUp" 7, "ArrowRight" 8.
fn arrow_digit(s: &[u8]) -> (k: Option<ZxKey>)
    ensures
        k == (if keys_for(s@).len() == 2 { Some(keys_for(s@)[1]) } else { None::<ZxKey> }),
        k is Some ==> keys_for(s@) == seq![ZxKey::CapsShift, k->0],
        k is None ==> keys_for(s@) == (match key_for_code(s@) {
            Some(k) => seq![k],
            None => Seq::<ZxKey>::empty(),
        }),
{
    if bytes_eq(s, &[65u8, 114u8, 114u8, 111u8, 119u8, 76u8, 101u8, 102u8, 116u8] /* "ArrowLeft" */) {
        Some(ZxKey::K5)
    } else if bytes_eq(s, &[65u8, 114u8, 114u8, 111u8, 119u8, 68u8, 111u8, 119u8, 110u8] /* "ArrowDown" */) {
        Some(ZxKey::K6)
    } else if bytes_eq(s, &[65u8, 114u8, 114u8, 111u8, 119u8, 85u8, 112u8] /* "ArrowUp" */) {
        Some(ZxKey::K7)
    } else if bytes_eq(s, &[65u8, 114u8, 114u8, 111u8, 119u8, 82u8, 105u8, 103u8, 104u8, 116u8] /* "ArrowRight" */) {
        Some(ZxKey::K8)
    } else {
        None
    }
}

/// Releasing the keys a code names after pressing them restores the keyboard, when none
/// of them was down before.
pub proof fn lemma_key_up_undoes_key_down(rows: Seq<u8>, code: Seq<u8>)
    requires
        rows.len() == 8,
        forall|i: int| 0 <= i < keys_for(code).len() ==> !key_pressed(rows, #[trigger] keys_for(code)[i]),
    ensures
        release_all(press_all(rows, keys_for(code)), keys_for(code)) == rows,
{
    let ks = keys_for(code);
    reveal_with_fuel(press_all, 3);
    reveal_with_fuel(release_all, 3);
    if ks.len() == 1 {
        assert(!key_pressed(rows, ks[0]));
        lemma_release_undoes_press(rows, ks[0]);
        assert(ks.drop_first() =~= Seq::<ZxKey>::empty());
    } else if ks.len() == 2 {
        let k0 = ks[0];
        let k1 = ks[1];
        assert(!key_pressed(rows, k0));
        assert(!key_pressed(rows, k1));
        assert(k0 != k1);
        assert(ks.drop_first() =~= seq![k1]);
        assert(ks.drop_first().drop_first() =~= Seq::<ZxKey>::empty());
        // releasing k0 commutes with the press of k1, and each release undoes its press
        lemma_press_release_other(press_rows(rows, k0), k1, k0);
        lemma_release_undoes_press(rows, k0);
        lemma_release_undoes_press(rows, k1);
    }
}

/// A frame always runs to its end: afterwards T is at least `T_PER_FRAME`.
pub proof fn lemma_frame_runs_to_end(c: Cpu, m: BusState)
    ensures
        frame_run(c, m).0.t >= T_PER_FRAME,
    decreases T_PER_FRAME + 23 - c.t,
{
    if c.t < T_PER_FRAME {
        lemma_interrupt_timing(c, m);
        if c.t == 0 && interrupt_spec(c, m).2 > 0 {
            let (ci, mi, irq) = interrupt_spec(c, m);
            lemma_frame_runs_to_end(Cpu { t: (ci.t + irq) as u32, ..ci }, mi);
        } else {
            let (ci, mi) = if c.t == 0 { (interrupt_spec(c, m).0, interrupt_spec(c, m).1) } else { (c, m) };
            lemma_step_timing(ci, mi);
            let (c2, m2, _) = step_spec(ci, mi);
            lemma_frame_runs_to_end(c2, m2);
        }
    }
}

/// Each frame produces exactly `SAMPLES_PER_FRAME` samples; with no beeper transition in
/// the frame they all have the level the frame began with.
pub proof fn lemma_frame_levels(log: Seq<(u32, bool)>, init: bool)
    ensures
        frame_levels(log, init).len() == SAMPLES_PER_FRAME,
        log.len() == 0 ==> forall|s: int| 0 <= s < SAMPLES_PER_FRAME ==> #[trigger] frame_levels(log, init)[s] == init,
{
    if log.len() == 0 {
        assert forall|s: int| 0 <= s < SAMPLES_PER_FRAME implies #[trigger] frame_levels(log, init)[s] == init by {
            lemma_consumed_empty(log, s);
        }
    }
}

proof fn lemma_consumed_empty(log: Seq<(u32, bool)>, s: int)
    requires
        log.len() == 0,
    ensures
        consumed(log, s) == 0,
    decreases s + 1,
{
    if s >= 0 {
        lemma_consumed_empty(log, s - 1);
    }
}

/// Loading a snapshot does not need a ROM: machines that differ in ROM end with the same
/// registers and RAM, when the snapshot's stack pointer lies in RAM (its return address is
/// read from there).
pub proof fn lemma_sna_needs_no_rom(c: Cpu, m1: BusState, m2: BusState, d: Seq<u8>)
    requires
        d.len() >= SNA_LEN,
        m1.wf(),
        m2.wf(),
        0x4000 <= pair(d[24], d[23]) < 0xFFFF,
    ensures
        sna_bus(m1, d).ram == sna_bus(m2, d).ram,
        sna_cpu(c, sna_bus(m1, d), d) == sna_cpu(c, sna_bus(m2, d), d),
{
}

/// Whether the beeper log's times never decrease.
pub open spec fn log_sorted(log: Seq<(u32, bool)>) -> bool {
    forall|i: int, j: int| 0 <= i <= j < log.len() ==> log[i].0 <= log[j].0
}

proof fn lemma_advance(log: Seq<(u32, bool)>, p: int, tp: int)
    requires
        log_sorted(log),
        0 <= p <= log.len(),
        forall|i: int| 0 <= i < p ==> log[i].0 <= tp,
    ensures
        p <= advance(log, p, tp) <= log.len(),
        forall|i: int| 0 <= i < advance(log, p, tp) ==> log[i].0 <= tp,
        forall|i: int| advance(log, p, tp) <= i < log.len() ==> log[i].0 > tp,
    decreases log.len() - p,
{
    if p < log.len() && log[p].0 <= tp {
        lemma_advance(log, p + 1, tp);
    }
}

/// With a time-ordered beeper log, audio sample `s` takes the level of the last transition
/// at or before the sample's time, or the level `init` when there is none.
pub proof fn lemma_sample_level(log: Seq<(u32, bool)>, init: bool, s: int)
    requires
        log_sorted(log),
        0 <= s,
    ensures
        0 <= consumed(log, s) <= log.len(),
        forall|i: int| 0 <= i < consumed(log, s) ==> log[i].0 <= sample_time(s),
        forall|i: int| consumed(log, s) <= i < log.len() ==> log[i].0 > sample_time(s),
        level_at(log, init, s) == (if consumed(log, s) > 0 { log[consumed(log, s) - 1].1 } else { init }),
    decreases s,
{
    if s > 0 {
        lemma_sample_level(log, init, s - 1);
        assert(sample_time(s - 1) <= sample_time(s)) by (nonlinear_arith)
            requires
                s > 0;
    }
    lemma_advance(log, consumed(log, s - 1), sample_time(s));
}

proof fn lemma_frame_log(c: Cpu, m: BusState)
    requires
        log_sorted(m.beeper_log),
        forall|i: int| 0 <= i < m.beeper_log.len() ==> m.beeper_log[i].0 <= c.t && m.beeper_log[i].0 < T_PER_FRAME,
    ensures
        log_sorted(frame_run(c, m).1.beeper_log),
        forall|i: int| 0 <= i < frame_run(c, m).1.beeper_log.len() ==> frame_run(c, m).1.beeper_log[i].0 < T_PER_FRAME,
    decreases T_PER_FRAME + 23 - c.t,
{
    lemma_interrupt_timing(c, m);
    lemma_step_log(c, m);
    if c.t >= T_PER_FRAME {
    } else if c.t == 0 && interrupt_spec(c, m).2 > 0 {
        let (ci, mi, irq) = interrupt_spec(c, m);
        lemma_frame_log(Cpu { t: (ci.t + irq) as u32, ..ci }, mi);
    } else {
        let (ci, mi) = if c.t == 0 { (interrupt_spec(c, m).0, interrupt_spec(c, m).1) } else { (c, m) };
        lemma_step_timing(ci, mi);
        lemma_step_log(ci, mi);
        let (c2, m2, _) = step_spec(ci, mi);
        lemma_frame_log(c2, m2);
    }
}

/// The beeper transitions of a frame are logged in time order, each at a time within
/// the frame, so each audio sample of the frame takes the level of the last transition
/// at or before its time (`lemma_sample_level`).
pub proof fn lemma_frame_log_sorted(c: Cpu, m: BusState)
    ensures
        log_sorted(frame_run(Cpu { t: 0, ..c }, BusState { beeper_log: Seq::empty(), ..m }).1.beeper_log),
        forall|i: int|
            0 <= i < frame_run(Cpu { t: 0, ..c }, BusState { beeper_log: Seq::empty(), ..m }).1.beeper_log.len()
                ==> frame_run(Cpu { t: 0, ..c }, BusState { beeper_log: Seq::empty(), ..m }).1.beeper_log[i].0 < T_PER_FRAME,
{
    lemma_frame_log(Cpu { t: 0, ..c }, BusState { beeper_log: Seq::empty(), ..m });
}

/// After a snapshot is loaded, each register holds its header bytes: I (0), HL' DE' BC' AF'
/// (1-8, low byte first), HL DE BC (9-14), IY (15-16) and IX (17-18) low byte first, both
/// interrupt flip-flops from bit 2 of byte 19, R (20), F (21), A (22), the interrupt mode
/// from byte 25; PC is the word on top of the header's stack (23-24) and SP is two above it.
pub proof fn lemma_sna_header(c: Cpu, m: BusState, d: Seq<u8>)
    requires
        d.len() >= SNA_LEN,
    ensures
        ({
            let r = sna_cpu(c, m, d);
            let sp = d[23] + 256 * d[24];
            &&& r.i == d[0]
            &&& r.l2 == d[1] && r.h2 == d[2] && r.e2 == d[3] && r.d2 == d[4]
            &&& r.c2 == d[5] && r.b2 == d[6] && r.f2 == d[7] && r.a2 == d[8]
            &&& r.l == d[9] && r.h == d[10] && r.e == d[11] && r.d == d[12] && r.c == d[13] && r.b == d[14]
            &&& r.iy == d[15] + 256 * d[16]
            &&& r.ix == d[17] + 256 * d[18]
            &&& r.iff1 == ((d[19] / 4) % 2 == 1) && r.iff2 == r.iff1
            &&& r.r == d[20]
            &&& r.f == d[21]
            &&& r.a == d[22]
            &&& r.im == d[25] % 4
            &&& r.pc == m.read((sp % 65536) as u16) + 256 * m.read(((sp + 1) % 65536) as u16)
            &&& r.sp == (sp + 2) % 65536
            &&& !r.halted && r.t == 0
        }),
{
    reveal(crate::cpu::pair);
}

/// The cursor keys chord CAPS SHIFT with a digit: "ArrowLeft" holds CAPS SHIFT and 5,
/// "ArrowDown" CAPS SHIFT and 6, "ArrowUp" CAPS SHIFT and 7, "ArrowRight" CAPS SHIFT and 8;
/// the keys already held stay held, and no other key goes down.
pub proof fn lemma_cursor_keys(rows: Seq<u8>, code: Seq<u8>, k: ZxKey)
    requires
        rows.len() == 8,
    ensures
        ({
            let left = seq![65u8, 114u8, 114u8, 111u8, 119u8, 76u8, 101u8, 102u8, 116u8];
            let down = seq![65u8, 114u8, 114u8, 111u8, 119u8, 68u8, 111u8, 119u8, 110u8];
            let up = seq![65u8, 114u8, 114u8, 111u8, 119u8, 85u8, 112u8];
            let right = seq![65u8, 114u8, 114u8, 111u8, 119u8, 82u8, 105u8, 103u8, 104u8, 116u8];
            let digit = if code == left { ZxKey::K5 } else if code == down { ZxKey::K6 } else if code == up {
                ZxKey::K7
            } else { ZxKey::K8 };
            (code == left || code == down || code == up || code == right) ==> (key_pressed(
                press_all(rows, keys_for(code)),
                k,
            ) <==> (key_pressed(rows, k) || k == ZxKey::CapsShift || k == digit))
        }),
{
    let left = seq![65u8, 114u8, 114u8, 111u8, 119u8, 76u8, 101u8, 102u8, 116u8];
    let down = seq![65u8, 114u8, 114u8, 111u8, 119u8, 68u8, 111u8, 119u8, 110u8];
    let up = seq![65u8, 114u8, 114u8, 111u8, 119u8, 85u8, 112u8];
    let right = seq![65u8, 114u8, 114u8, 111u8, 119u8, 82u8, 105u8, 103u8, 104u8, 116u8];
    if code == left || code == down || code == up || code == right {
        let ks = keys_for(code);
        let d = ks[1];
        reveal_with_fuel(press_all, 3);
        let r1 = press_rows(rows, ZxKey::CapsShift);
        lemma_press_effect(rows, ZxKey::CapsShift, k);
        lemma_press_effect(r1, d, k);
    }
}

/// A key code other than the four cursor keys ("ArrowLeft", "ArrowDown", "ArrowUp",
/// "ArrowRight") presses the one key it names, if any, and nothing otherwise; the keys
/// already held stay held.
pub proof fn lemma_named_key_down(rows: Seq<u8>, code: Seq<u8>, k: ZxKey)
    requires
        rows.len() == 8,
        code != seq![65u8, 114u8, 114u8, 111u8, 119u8, 76u8, 101u8, 102u8, 116u8],
        code != seq![65u8, 114u8, 114u8, 111u8, 119u8, 68u8, 111u8, 119u8, 110u8],
        code != seq![65u8, 114u8, 114u8, 111u8, 119u8, 85u8, 112u8],
        code != seq![65u8, 114u8, 114u8, 111u8, 119u8, 82u8, 105u8, 103u8, 104u8, 116u8],
    ensures
        key_pressed(press_all(rows, keys_for(code)), k) <==> (key_pressed(rows, k) || key_for_code(code) == Some(k)),
{
    reveal_with_fuel(press_all, 2);
    match key_for_code(code) {
        Some(j) => {
            lemma_press_effect(rows, j, k);
        },
        None => {},
    }
}

} // verus!
