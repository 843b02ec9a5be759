//! A Game Boy (DMG) emulator core: cartridge parsing, memory bus, CPU,
//! picture processing unit, timers and joypad.
pub mod io;
pub mod memory;
pub mod ppu;
pub mod text;
pub mod cartridge;
pub mod mmu;
pub mod system;
pub mod instructions;
pub mod joypad;
pub mod context;
