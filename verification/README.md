# zx_wasm

A ZX Spectrum 48K emulator core (Z80 CPU, memory bus and ULA ports, keyboard matrix,
display renderer and beeper audio) with its behaviour specified and proved in Verus.

Layout:

- `src/flags.rs`: the Z80 flag register as eight named flags.
- `src/keyboard.rs`: the 8×5 key matrix, reads through port 0xFE, key-code mapping.
- `src/bus.rs`: ROM/RAM memory map and the ULA I/O port.
- `src/cpu.rs`, `src/cpu/`: registers, fetch and stack; `alu.rs` arithmetic and flags;
  `isa.rs` the instruction set as a specification; `exec_*.rs` the interpreter proved
  against it; `timing.rs` and `laws.rs` proved properties of the instruction set.
- `src/display.rs`: the 320×240 RGBA renderer of the bitmap and attribute memory.
- `src/machine.rs`: the whole machine, run a video frame at a time, with .SNA loading
  and beeper sampling.
- `app/`: the wasm-bindgen bindings for the browser, including the conversion of beeper
  levels into PCM samples.
- `tests/`: scenario tests of every module.
