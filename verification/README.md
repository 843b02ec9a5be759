# rgb_core

A Game Boy (DMG) emulator core written in Verus: every function of the
library carries a contract over a mathematical model of the machine, and
Verus proves that the code meets it.

## Layout

- `src/` — the verified library
  - `cartridge.rs` — ROM images, header parsing and validation, checksum
  - `mmu.rs` — memory map with MBC1/MBC3/MBC5 banking
  - `memory.rs` — the `Memory` trait and a flat 64 KiB memory
  - `ppu.rs` — scanline timing, STAT/LY/LYC, background, window and
    sprite rendering
  - `system.rs` — the `GameBoy`: registers, bus, timers, stepping and
    running
  - `instructions.rs` — the CPU: instructions, interrupts, fetch/execute
  - `joypad.rs` — the P1 register
  - `context.rs` — a bare register file
  - `text.rs` — title decoding and number rendering
  - `io.rs` — I/O register addresses
- `tests/` — tests of the library
- `app/` — command-line and browser front ends (file loading, printing,
  canvas drawing, WebAssembly bindings)

## Properties proved

Besides the contract of each function, the library states as proof
functions the properties that relate several operations, among them:
reads give back writes (MMU RAM and its mirrors, the bus), push/pop and
call/ret round trips, interrupt priority and the saved return address,
scanline and frame periods of the PPU, composition of PPU steps, STAT
reporting the mode, DAA giving the decimal sum of two BCD bytes, the low
nibble of F staying clear, the post-boot I/O values, a stored header
checksum validating the header, joypad press/release, and how a batched
run alternates full batches of steps with calls of its callback (how many
steps ran, how many times the callback was called, and where it stopped).
