# oxiboy_core

A Game Boy (DMG) emulator core whose behaviour is stated as contracts and
proved with Verus.

## Layout

- `src/cpu.rs`, `src/cpu_spec.rs`, `src/cpu_laws.rs` — the SM83 CPU. `cpu_spec.rs` gives the
  instruction set as a decoder over the opcode fields (x, y, z), the ALU and
  flag semantics, interrupt dispatch and one CPU step; `cpu.rs` holds the
  executable opcode table, proved equal to it; `cpu_laws.rs` relates
  instructions to each other.
- `src/bus.rs` — the memory map: every read and write as a function of a
  model of the bus (`BusView`), with OAM DMA.
- `src/cartridge.rs` — header parsing and the MBC1/MBC3/MBC5 bank
  controllers.
- `src/ppu.rs` — the PPU mode state machine and the scanline renderer
  (background, window, sprites) over a model with sequences for VRAM, OAM
  and the framebuffer.
- `src/timer.rs`, `src/joypad.rs` — DIV/TIMA and the joypad register.
- `src/gb.rs` — the machine and its frame loop.
- `src/keys.rs` — keyboard key names to joypad buttons.
- `app/` — WebAssembly bindings (`wasm-bindgen`) around `GameBoy`.
- `tests/` — executable tests of the library.

Laws proved about the whole: bus reads give back what was written to memory,
echo RAM mirrors WRAM, ROM bank 0 never moves, POP gives back what PUSH
stored, CALL followed by RET returns to the instruction after the call, RRC
undoes RLC, CP sets the flags of SUB without storing, DAA after a BCD ADD or
SUB gives the BCD sum or difference, the low nibble of F stays clear through
every instruction, interrupts are served lowest number first, each step
takes 4 to 24 cycles, splitting a timer step changes neither TIMA nor DIV,
each PPU step keeps mode and LY consistent and moves the mode at most one
place, and a frame reports ready exactly when the PPU entered VBlank during
it; from the frame invariant, which the power-on state satisfies, every
frame runs without overflow.
