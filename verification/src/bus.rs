//! ZX Spectrum 48K memory bus and I/O.
//!
//! Memory map:
//!   0x0000–0x3FFF  ROM (16 KB, read-only)
//!   0x4000–0x7FFF  Video RAM + attributes (16 KB)
//!   0x8000–0xFFFF  RAM (32 KB)
//!
//! I/O (port 0xFE, selected when A0=0):
//!   Write: bits 2:0 = border colour, bit 3 = MIC, bit 4 = EAR/beeper
//!   Read:  bits 4:0 = keyboard half-row, bit 6 = EAR input
use vstd::prelude::*;
use crate::keyboard::{Keyboard, read_value};

verus! {

/// Size of the ROM (16 KB).
pub const ROM_SIZE: usize = 0x4000;
/// Size of the RAM (48 KB, 0x4000–0xFFFF).
pub const RAM_SIZE: usize = 0xC000;

/// The abstract state of the bus: ROM and RAM contents, keyboard rows,
/// border colour, beeper level and the beeper's transitions in this frame.
pub struct BusState {
    pub rom: Seq<u8>,
    pub ram: Seq<u8>,
    pub keys: Seq<u8>,
    pub border_color: u8,
    pub beeper: bool,
    pub beeper_log: Seq<(u32, bool)>,
}

/// `addr + k`, wrapping around the 16-bit address space.
pub open spec fn addr_add(addr: u16, k: int) -> u16 {
    ((addr as int + k) % 0x10000) as u16
}

impl BusState {
    pub open spec fn wf(self) -> bool {
        &&& self.rom.len() == ROM_SIZE
        &&& self.ram.len() == RAM_SIZE
        &&& self.keys.len() == 8
    }

    /// The byte at `addr`: ROM below 0x4000, RAM from 0x4000.
    pub open spec fn read(self, addr: u16) -> u8 {
        if addr < 0x4000 {
            self.rom[addr as int]
        } else {
            self.ram[addr - 0x4000]
        }
    }

    /// Writing `val` at `addr`: RAM changes, a write to ROM changes nothing.
    pub open spec fn write(self, addr: u16, val: u8) -> BusState {
        if addr >= 0x4000 {
            BusState { ram: self.ram.update(addr - 0x4000, val), ..self }
        } else {
            self
        }
    }

    /// Little-endian 16-bit read.
    pub open spec fn read16(self, addr: u16) -> u16 {
        (self.read(addr) + 256 * self.read(addr_add(addr, 1))) as u16
    }

    /// Little-endian 16-bit write: low byte at `addr`, high byte at `addr + 1`.
    pub open spec fn write16(self, addr: u16, val: u16) -> BusState {
        self.write(addr, (val % 256) as u8).write(addr_add(addr, 1), (val / 256) as u8)
    }

    /// I/O read: the ULA answers an even port with the keyboard rows selected by
    /// the high byte, bits 5 and 7 high and the EAR input (bit 6) held high; any odd
    /// port reads 0xFF.
    pub open spec fn port_in(self, port: u16) -> u8 {
        if port % 2 == 0 {
            (0xE0 + read_value(self.keys, (port / 256) as u8)) as u8
        } else {
            0xFF
        }
    }

    /// I/O write: an even port sets the border colour (bits 2:0) and the beeper
    /// (bit 4); a change of the beeper level is logged with the time `t_cycle`.
    pub open spec fn port_out(self, port: u16, val: u8, t_cycle: u32) -> BusState {
        if port % 2 == 0 {
            let new_beeper = (val / 16) % 2 == 1;
            if new_beeper != self.beeper {
                BusState {
                    border_color: val % 8,
                    beeper: new_beeper,
                    beeper_log: self.beeper_log.push((t_cycle, new_beeper)),
                    ..self
                }
            } else {
                BusState { border_color: val % 8, ..self }
            }
        } else {
            self
        }
    }
}

pub struct Bus {
    pub(crate) rom: Vec<u8>,
    pub(crate) ram: Vec<u8>,
    pub keyboard: Keyboard,
    pub border_color: u8,
    /// Beeper: 1-bit audio output driven by OUT 0xFE bit 4.
    pub beeper: bool,
    /// Sequence of (t_cycle_within_frame, new_state) transitions for audio.
    pub beeper_log: Vec<(u32, bool)>,
}

impl View for Bus {
    type V = BusState;

    closed spec fn view(&self) -> BusState {
        BusState {
            rom: self.rom@,
            ram: self.ram@,
            keys: self.keyboard@,
            border_color: self.border_color,
            beeper: self.beeper,
            beeper_log: self.beeper_log@,
        }
    }
}

/// The bus's abstract state is made of its fields: memory, keyboard rows, border,
/// beeper and beeper log.
pub(crate) broadcast proof fn lemma_bus_view(b: &Bus)
    ensures
        #[trigger] b@ == (BusState {
            rom: b.rom@,
            ram: b.ram@,
            keys: b.keyboard@,
            border_color: b.border_color,
            beeper: b.beeper,
            beeper_log: b.beeper_log@,
        }),
{
}

impl Bus {
    pub open spec fn wf(&self) -> bool {
        self@.wf()
    }

    /// A bus with an unloaded ROM (all 0xFF), cleared RAM, no key pressed,
    /// a white border, the beeper low and an empty beeper log.
    pub fn new() -> (b: Self)
        ensures
            b.wf(),
            b@.rom == Seq::new(ROM_SIZE as nat, |i: int| 0xFFu8),
            b@.ram == Seq::new(RAM_SIZE as nat, |i: int| 0u8),
            b@.keys == Seq::new(8, |i: int| 0u8),
            b@.border_color == 7,
            !b@.beeper,
            b@.beeper_log == Seq::<(u32, bool)>::empty(),
    {
        let b = Bus {
            rom: vec![0xFF; ROM_SIZE],
            ram: vec![0u8; RAM_SIZE],
            keyboard: Keyboard::new(),
            border_color: 7,
            beeper: false,
            beeper_log: Vec::new(),
        };
        assert(b@.rom =~= Seq::new(ROM_SIZE as nat, |i: int| 0xFFu8));
        assert(b@.ram =~= Seq::new(RAM_SIZE as nat, |i: int| 0u8));
        b
    }

    /// Copy a ROM image: its first 16 KB replace the ROM, a shorter image is padded with 0xFF.
    pub fn load_rom(&mut self, data: &[u8])
        requires
            old(self).wf(),
        ensures
            final(self).wf(),
            final(self)@ == (BusState {
                rom: Seq::new(ROM_SIZE as nat, |i: int| if i < data@.len() { data@[i] } else { 0xFFu8 }),
                ..old(self)@
            }),
    {
        let len = if data.len() < ROM_SIZE { data.len() } else { ROM_SIZE };
        let mut i: usize = 0;
        while i < ROM_SIZE
            invariant
                len <= ROM_SIZE,
                len <= data@.len(),
                len == data@.len() || len == ROM_SIZE,
                i <= ROM_SIZE,
                self.rom@.len() == ROM_SIZE,
                self.ram@ == old(self).ram@,
                self.keyboard == old(self).keyboard,
                self.border_color == old(self).border_color,
                self.beeper == old(self).beeper,
                self.beeper_log@ == old(self).beeper_log@,
                forall|j: int| 0 <= j < i ==> self.rom@[j] == (if j < data@.len() { data@[j] } else { 0xFFu8 }),
            decreases ROM_SIZE - i,
        {
            // Copy the image, then pad with 0xFF if it is shorter
            let v = if i < len { data[i] } else { 0xFF };
            self.rom[i] = v;
            i += 1;
        }
        assert(self.rom@ =~= Seq::new(ROM_SIZE as nat, |i: int| if i < data@.len() { data@[i] } else { 0xFFu8 }));
    }

    pub fn read(&self, addr: u16) -> (r: u8)
        requires
            self.wf(),
        ensures
            r == self@.read(addr),
    {
        if addr < 0x4000 {
            self.rom[addr as usize]
        } else {
            self.ram[(addr - 0x4000) as usize]
        }
    }

    /// Writes to ROM are silently ignored.
    pub fn write(&mut self, addr: u16, val: u8)
        requires
            old(self).wf(),
        ensures
            final(self).wf(),
            final(self)@ == old(self)@.write(addr, val),
    {
        if addr >= 0x4000 {
            self.ram[(addr - 0x4000) as usize] = val;
        }
    }

    pub fn read16(&self, addr: u16) -> (r: u16)
        requires
            self.wf(),
        ensures
            r == self@.read16(addr),
    {
        self.read(addr) as u16 + 256 * (self.read(addr.wrapping_add(1)) as u16)
    }

    pub fn write16(&mut self, addr: u16, val: u16)
        requires
            old(self).wf(),
        ensures
            final(self).wf(),
            final(self)@ == old(self)@.write16(addr, val),
    {
        self.write(addr, (val % 256) as u8);
        self.write(addr.wrapping_add(1), (val / 256) as u8);
    }

    /// I/O read. The Spectrum uses A0=0 to select the ULA (port 0xFE family);
    /// the upper byte selects keyboard rows.
    pub fn port_in(&self, port: u16) -> (r: u8)
        requires
            self.wf(),
        ensures
            r == self@.port_in(port),
    {
        if port % 2 == 0 {
            // ULA port: keyboard + EAR bit
            let port_hi = (port / 256) as u8;
            let keys = self.keyboard.read(port_hi);
            // Bit 6 = EAR (tape input), held high here; bits 5,7 = 1
            0xE0 + keys
        } else {
            0xFF
        }
    }

    /// I/O write. Port 0xFE: border colour (bits 2:0), MIC (bit 3), EAR/beeper (bit 4).
    pub fn port_out(&mut self, port: u16, val: u8, t_cycle: u32)
        requires
            old(self).wf(),
        ensures
            final(self).wf(),
            final(self)@ == old(self)@.port_out(port, val, t_cycle),
    {
        if port % 2 == 0 {
            self.border_color = val % 8;
            let new_beeper = (val / 16) % 2 == 1;
            if new_beeper != self.beeper {
                self.beeper = new_beeper;
                self.beeper_log.push((t_cycle, new_beeper));
            }
        }
    }

    /// Clear the per-frame beeper log (called at the start of each frame).
    pub fn clear_beeper_log(&mut self)
        requires
            old(self).wf(),
        ensures
            final(self).wf(),
            final(self)@ == (BusState { beeper_log: Seq::empty(), ..old(self)@ }),
    {
        self.beeper_log.clear();
    }

    /// Direct RAM read used by the display: RAM from 0x4000, 0xFF below it.
    pub fn vram_byte(&self, addr: u16) -> (r: u8)
        requires
            self.wf(),
        ensures
            r == (if addr >= 0x4000 { self@.ram[addr - 0x4000] } else { 0xFFu8 }),
    {
        if addr >= 0x4000 {
            self.ram[(addr - 0x4000) as usize]
        } else {
            0xFF
        }
    }
}

/// Writes to ROM are silently ignored: they leave the whole bus state unchanged.
pub proof fn lemma_rom_write_ignored(m: BusState, addr: u16, val: u8)
    requires
        addr < 0x4000,
    ensures
        m.write(addr, val) == m,
{
}

/// A read gives back what the last write to that RAM address wrote, and a write leaves
/// every other address as it was.
pub proof fn lemma_read_after_write(m: BusState, addr: u16, val: u8, other: u16)
    requires
        m.wf(),
    ensures
        addr >= 0x4000 ==> m.write(addr, val).read(addr) == val,
        other != addr ==> m.write(addr, val).read(other) == m.read(other),
        m.write(addr, val).wf(),
{
}

/// A 16-bit write followed by a 16-bit read at the same address gives the word back,
/// when both bytes lie in RAM (the word at 0xFFFF wraps into ROM at 0x0000).
pub proof fn lemma_read16_after_write16(m: BusState, addr: u16, val: u16)
    requires
        m.wf(),
        0x4000 <= addr < 0xFFFF,
    ensures
        m.write16(addr, val).read16(addr) == val,
{
}

/// With no key pressed every port reads 0xFF: an odd port is not the ULA, and an even
/// port has bits 5 and 7 high, the EAR input (bit 6) high and no key down in bits 4:0.
pub proof fn lemma_port_in_idle(m: BusState, port: u16)
    requires
        m.wf(),
        forall|i: int| 0 <= i < 8 ==> m.keys[i] == 0,
    ensures
        m.port_in(port) == 0xFF,
{
    if port % 2 == 0 {
        crate::keyboard::lemma_no_keys_read(m.keys, (port / 256) as u8);
    }
}

/// An output to an even port sets the border to bits 2:0 of the value and the beeper to
/// bit 4, and logs exactly one transition when the beeper level changes, none otherwise;
/// memory and keyboard are untouched. An odd port changes nothing.
pub proof fn lemma_port_out(m: BusState, port: u16, val: u8, t: u32)
    ensures
        port % 2 == 1 ==> m.port_out(port, val, t) == m,
        port % 2 == 0 ==> m.port_out(port, val, t).border_color == val % 8,
        port % 2 == 0 ==> m.port_out(port, val, t).beeper == ((val / 16) % 2 == 1),
        port % 2 == 0 && m.beeper != ((val / 16) % 2 == 1) ==> m.port_out(port, val, t).beeper_log == m.beeper_log.push(
            (t, (val / 16) % 2 == 1),
        ),
        port % 2 == 0 && m.beeper == ((val / 16) % 2 == 1) ==> m.port_out(port, val, t).beeper_log == m.beeper_log,
        m.port_out(port, val, t).rom == m.rom,
        m.port_out(port, val, t).ram == m.ram,
        m.port_out(port, val, t).keys == m.keys,
{
}

/// Writing the same value to the ULA port twice logs at most one beeper transition.
pub proof fn lemma_port_out_repeat(m: BusState, port: u16, val: u8, t1: u32, t2: u32)
    requires
        port % 2 == 0,
    ensures
        m.port_out(port, val, t1).port_out(port, val, t2) == m.port_out(port, val, t1),
{
}

} // verus!
