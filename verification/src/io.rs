//! Addresses of the memory-mapped I/O registers.
use vstd::prelude::*;

verus! {

/// Joypad.
pub const P1: u16 = 0xFF00;
/// Serial transfer data.
pub const SB: u16 = 0xFF01;
/// Serial transfer control.
pub const SC: u16 = 0xFF02;
/// Divider register.
pub const DIV: u16 = 0xFF04;
/// Timer counter.
pub const TIMA: u16 = 0xFF05;
/// Timer modulo.
pub const TMA: u16 = 0xFF06;
/// Timer control.
pub const TAC: u16 = 0xFF07;
/// Interrupt flags.
pub const IF: u16 = 0xFF0F;

/// Channel 1 sweep.
pub const NR_10: u16 = 0xFF10;
/// Channel 1 length timer and duty cycle.
pub const NR_11: u16 = 0xFF11;
/// Channel 1 volume and envelope.
pub const NR_12: u16 = 0xFF12;
/// Channel 1 period high and control.
pub const NR_14: u16 = 0xFF14;
/// Channel 2 length timer and duty cycle.
pub const NR_21: u16 = 0xFF16;
/// Channel 2 volume and envelope.
pub const NR_22: u16 = 0xFF17;
/// Channel 2 period high and control.
pub const NR_24: u16 = 0xFF19;
/// Channel 3 DAC enable.
pub const NR_30: u16 = 0xFF1A;
/// Channel 3 length timer.
pub const NR_31: u16 = 0xFF1B;
/// Channel 3 output level.
pub const NR_32: u16 = 0xFF1C;
/// Channel 3 period high and control.
pub const NR_34: u16 = 0xFF1E;
/// Channel 4 length timer.
pub const NR_41: u16 = 0xFF20;
/// Channel 4 volume and envelope.
pub const NR_42: u16 = 0xFF21;
/// Channel 4 frequency and randomness.
pub const NR_43: u16 = 0xFF22;
/// Channel 4 control.
pub const NR_44: u16 = 0xFF23;
/// Master volume and VIN panning.
pub const NR_50: u16 = 0xFF24;
/// Sound panning.
pub const NR_51: u16 = 0xFF25;
/// Sound on/off.
pub const NR_52: u16 = 0xFF26;

/// LCD control.
pub const LCDC: u16 = 0xFF40;
/// LCD status.
pub const STAT: u16 = 0xFF41;
/// Scroll Y.
pub const SCY: u16 = 0xFF42;
/// Scroll X.
pub const SCX: u16 = 0xFF43;
/// LCD Y coordinate (read-only).
pub const LY: u16 = 0xFF44;
/// LY compare.
pub const LYC: u16 = 0xFF45;
/// Background palette.
pub const BGP: u16 = 0xFF47;
/// Object palette 0.
pub const OBP0: u16 = 0xFF48;
/// Object palette 1.
pub const OBP1: u16 = 0xFF49;
/// Window Y position.
pub const WY: u16 = 0xFF4A;
/// Window X position.
pub const WX: u16 = 0xFF4B;

/// Interrupt enable.
pub const IE: u16 = 0xFFFF;

} // verus!
