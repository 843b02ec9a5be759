//! The Game Boy: CPU registers and state, timers, PPU and memory.
//!
//! Memory is generic over [`Memory`]: the banked [`Mmu`] for cartridges,
//! [`FlatMemory`] for tests.  The CPU sees memory through the bus
//! ([`GameBoy::read`], [`GameBoy::write`]), which routes the LCD registers to
//! the PPU and blocks VRAM and OAM while the PPU uses them.
use vstd::prelude::*;
use crate::cartridge::{Cartridge, CartridgeType, header_error, header_checksum, compute_header_checksum};
use crate::io::{LCDC, STAT, SCY, SCX, LY, LYC, BGP, OBP0, OBP1, WY, WX, DIV, TIMA, TMA, TAC, IF, IE, P1};
use crate::memory::{FlatMemory, Memory};
use crate::mmu::Mmu;
use crate::ppu::{Mode, Ppu, PpuModel, scanned_sprites, lemma_render_defined_same, lemma_stat_bits};
use crate::mmu::{MmuModel, is_internal_ram, law_ram_write_read, law_model_holds_cartridge};
use crate::instructions::{execute, execute_result, execute_defined, lemma_execute_counters};
use crate::io::{
    NR_10, NR_11, NR_12, NR_14, NR_21, NR_22, NR_24, NR_30, NR_31, NR_32, NR_34, NR_41, NR_42, NR_43,
    NR_44, NR_50, NR_51, NR_52,
};

verus! {

/// Game Boy emulator: CPU registers and state, timers, PPU and memory.
pub struct GameBoy<M: Memory = Mmu> {
    pub a: u8,
    pub f: u8,
    pub h: u8,
    pub l: u8,
    pub b: u8,
    pub c: u8,
    pub d: u8,
    pub e: u8,
    pub pc: u16,
    pub sp: u16,
    /// Interrupt master enable.
    pub ime: bool,
    /// The CPU is halted.
    pub halt: bool,
    /// HALT bug triggered.
    pub halt_bug: bool,
    /// EI takes effect after the next instruction.
    pub ei_delay: bool,
    /// DI takes effect after the next instruction.
    pub di_delay: bool,
    /// Total CPU cycles executed.
    pub cycles: u64,
    /// Last executed opcode.
    pub last_opcode: u8,
    /// Internal counter of the DIV register (one per cycle).
    pub div_counter: u64,
    /// Internal counter of the TIMA register.
    pub tima_counter: u64,
    pub ppu: Ppu,
    pub mmu: M,
}

/// The abstract state of a Game Boy whose memory has model `Mo`.
pub struct GbModel<Mo> {
    pub a: u8,
    pub f: u8,
    pub h: u8,
    pub l: u8,
    pub b: u8,
    pub c: u8,
    pub d: u8,
    pub e: u8,
    pub pc: u16,
    pub sp: u16,
    pub ime: bool,
    pub halt: bool,
    pub halt_bug: bool,
    pub ei_delay: bool,
    pub di_delay: bool,
    pub cycles: u64,
    pub last_opcode: u8,
    pub div_counter: u64,
    pub tima_counter: u64,
    pub ppu: PpuModel,
    pub mem: Mo,
}

impl<M: Memory> View for GameBoy<M> {
    type V = GbModel<M::Model>;

    open spec fn view(&self) -> GbModel<M::Model> {
        GbModel {
            a: self.a,
            f: self.f,
            h: self.h,
            l: self.l,
            b: self.b,
            c: self.c,
            d: self.d,
            e: self.e,
            pc: self.pc,
            sp: self.sp,
            ime: self.ime,
            halt: self.halt,
            halt_bug: self.halt_bug,
            ei_delay: self.ei_delay,
            di_delay: self.di_delay,
            cycles: self.cycles,
            last_opcode: self.last_opcode,
            div_counter: self.div_counter,
            tima_counter: self.tima_counter,
            ppu: self.ppu@,
            mem: self.mmu.model(),
        }
    }
}

// ---------------------------------------------------------------------------
// Bytes, words and flags
// ---------------------------------------------------------------------------
/// The 16-bit value with high byte `hi` and low byte `lo`.
pub open spec fn word(hi: u8, lo: u8) -> u16 {
    (hi * 256 + lo) as u16
}

pub open spec fn hi_byte(v: u16) -> u8 {
    (v / 256) as u8
}

pub open spec fn lo_byte(v: u16) -> u8 {
    (v % 256) as u8
}

/// `x + y` modulo 2^8.
pub open spec fn add8(x: int, y: int) -> u8 {
    ((x + y) % 256) as u8
}

/// `x + y` modulo 2^16.
pub open spec fn add16(x: int, y: int) -> u16 {
    ((x + y) % 65536) as u16
}

pub proof fn lemma_word(hi: u8, lo: u8)
    ensures
        ((hi as u16) << 8) | (lo as u16) == word(hi, lo),
        hi_byte(word(hi, lo)) == hi,
        lo_byte(word(hi, lo)) == lo,
{
    assert(((hi as u16) << 8) | (lo as u16) == (hi as u16) * 256 + (lo as u16)) by (bit_vector);
}

pub proof fn lemma_split_word(v: u16)
    ensures
        (v >> 8) as u8 == hi_byte(v),
        (v & 0xFF) as u8 == lo_byte(v),
        v as u8 == lo_byte(v),
        word(hi_byte(v), lo_byte(v)) == v,
{
    assert((v >> 8) == v / 256) by (bit_vector);
    assert((v & 0xFF) == v % 256) by (bit_vector);
    assert(v as u8 == v % 256) by (bit_vector);
}

pub const FLAG_Z: u8 = 0x80;

pub const FLAG_N: u8 = 0x40;

pub const FLAG_H: u8 = 0x20;

pub const FLAG_C: u8 = 0x10;

/// Zero flag of `f`.
pub open spec fn fz(f: u8) -> bool {
    f & 0x80 != 0
}

/// Subtract flag of `f`.
pub open spec fn fn_(f: u8) -> bool {
    f & 0x40 != 0
}

/// Half-carry flag of `f`.
pub open spec fn fh(f: u8) -> bool {
    f & 0x20 != 0
}

/// Carry flag of `f`.
pub open spec fn fc(f: u8) -> bool {
    f & 0x10 != 0
}

/// `f` with the bits of `mask` set when `v` holds, cleared otherwise.
pub open spec fn with_flag(f: u8, mask: u8, v: bool) -> u8 {
    if v {
        f | mask
    } else {
        f & !mask
    }
}

/// `f` with Z, N, H and C set to `z`, `n`, `h` and `c`.
pub open spec fn set_flags(f: u8, z: bool, n: bool, h: bool, c: bool) -> u8 {
    with_flag(with_flag(with_flag(with_flag(f, 0x80, z), 0x40, n), 0x20, h), 0x10, c)
}

/// Setting one flag sets it and keeps the others.
pub proof fn lemma_with_flag(f: u8, v: bool)
    ensures
        fz(with_flag(f, 0x80, v)) == v,
        fn_(with_flag(f, 0x80, v)) == fn_(f),
        fh(with_flag(f, 0x80, v)) == fh(f),
        fc(with_flag(f, 0x80, v)) == fc(f),
        fz(with_flag(f, 0x40, v)) == fz(f),
        fn_(with_flag(f, 0x40, v)) == v,
        fh(with_flag(f, 0x40, v)) == fh(f),
        fc(with_flag(f, 0x40, v)) == fc(f),
        fz(with_flag(f, 0x20, v)) == fz(f),
        fn_(with_flag(f, 0x20, v)) == fn_(f),
        fh(with_flag(f, 0x20, v)) == v,
        fc(with_flag(f, 0x20, v)) == fc(f),
        fz(with_flag(f, 0x10, v)) == fz(f),
        fn_(with_flag(f, 0x10, v)) == fn_(f),
        fh(with_flag(f, 0x10, v)) == fh(f),
        fc(with_flag(f, 0x10, v)) == v,
{
    assert(
        fz(with_flag(f, 0x80, v)) == v
            && fn_(with_flag(f, 0x80, v)) == fn_(f)
            && fh(with_flag(f, 0x80, v)) == fh(f)
            && fc(with_flag(f, 0x80, v)) == fc(f)
    ) by (bit_vector);
    assert(
        fz(with_flag(f, 0x40, v)) == fz(f)
            && fn_(with_flag(f, 0x40, v)) == v
            && fh(with_flag(f, 0x40, v)) == fh(f)
            && fc(with_flag(f, 0x40, v)) == fc(f)
    ) by (bit_vector);
    assert(
        fz(with_flag(f, 0x20, v)) == fz(f)
            && fn_(with_flag(f, 0x20, v)) == fn_(f)
            && fh(with_flag(f, 0x20, v)) == v
            && fc(with_flag(f, 0x20, v)) == fc(f)
    ) by (bit_vector);
    assert(
        fz(with_flag(f, 0x10, v)) == fz(f)
            && fn_(with_flag(f, 0x10, v)) == fn_(f)
            && fh(with_flag(f, 0x10, v)) == fh(f)
            && fc(with_flag(f, 0x10, v)) == v
    ) by (bit_vector);
}

// ---------------------------------------------------------------------------
// The bus
// ---------------------------------------------------------------------------
/// Well-formedness of a Game Boy state.
pub open spec fn gb_wf<M: Memory>(s: GbModel<M::Model>) -> bool {
    s.ppu.wf() && M::model_inv(s.mem)
}

/// VRAM is blocked while the PPU transfers pixels.
pub open spec fn vram_blocked(p: PpuModel) -> bool {
    p.lcd_enabled() && p.mode == Mode::PixelTransfer
}

/// OAM is blocked during the OAM search and the pixel transfer.
pub open spec fn oam_blocked(p: PpuModel) -> bool {
    p.lcd_enabled() && (p.mode == Mode::OamSearch || p.mode == Mode::PixelTransfer)
}

/// Whether `addr` is an LCD register served by the PPU.
pub open spec fn is_ppu_register(addr: u16) -> bool {
    addr == LCDC || addr == STAT || addr == SCY || addr == SCX || addr == LY || addr == LYC
        || addr == BGP || addr == OBP0 || addr == OBP1 || addr == WY || addr == WX
}

/// Whether `addr` is an LCD register served by the PPU.
pub fn ppu_register(addr: u16) -> (r: bool)
    ensures
        r == is_ppu_register(addr),
{
    addr == LCDC || addr == STAT || addr == SCY || addr == SCX || addr == LY || addr == LYC
        || addr == BGP || addr == OBP0 || addr == OBP1 || addr == WY || addr == WX
}

/// The byte the CPU reads at `addr`, given the PPU and the memory.
#[verifier::opaque]
pub open spec fn mem_read<M: Memory>(p: PpuModel, mem: M::Model, addr: u16) -> u8 {
    if addr == LCDC {
        p.lcdc
    } else if addr == STAT {
        p.stat | 0x80
    } else if addr == SCY {
        p.scy
    } else if addr == SCX {
        p.scx
    } else if addr == LY {
        p.ly
    } else if addr == LYC {
        p.lyc
    } else if addr == BGP {
        p.bgp
    } else if addr == OBP0 {
        p.obp0
    } else if addr == OBP1 {
        p.obp1
    } else if addr == WY {
        p.wy
    } else if addr == WX {
        p.wx
    } else if 0x8000 <= addr <= 0x9FFF && vram_blocked(p) {
        0xFF
    } else if 0xFE00 <= addr <= 0xFE9F && oam_blocked(p) {
        0xFF
    } else {
        M::model_read(mem, addr)
    }
}

/// The PPU after the CPU writes `value` at `addr`: the LCD registers are the
/// PPU's; LY is read-only.
#[verifier::opaque]
pub open spec fn ppu_after_write(p: PpuModel, addr: u16, value: u8) -> PpuModel {
    if addr == LCDC {
        p.write_lcdc(value)
    } else if addr == STAT {
        p.write_stat(value)
    } else if addr == SCY {
        PpuModel { scy: value, ..p }
    } else if addr == SCX {
        PpuModel { scx: value, ..p }
    } else if addr == LYC {
        p.write_lyc(value)
    } else if addr == BGP {
        PpuModel { bgp: value, ..p }
    } else if addr == OBP0 {
        PpuModel { obp0: value, ..p }
    } else if addr == OBP1 {
        PpuModel { obp1: value, ..p }
    } else if addr == WY {
        PpuModel { wy: value, ..p }
    } else if addr == WX {
        PpuModel { wx: value, ..p }
    } else {
        p
    }
}

/// The memory after the CPU writes `value` at `addr`: any write to DIV
/// clears it; writes to VRAM and OAM are dropped while they are blocked.
#[verifier::opaque]
pub open spec fn mem_after_write<M: Memory>(p: PpuModel, mem: M::Model, addr: u16, value: u8) -> M::Model {
    if is_ppu_register(addr) {
        mem
    } else if addr == DIV {
        M::model_write(mem, DIV, 0)
    } else if 0x8000 <= addr <= 0x9FFF && vram_blocked(p) {
        mem
    } else if 0xFE00 <= addr <= 0xFE9F && oam_blocked(p) {
        mem
    } else {
        M::model_write(mem, addr, value)
    }
}

/// The byte the CPU reads at `addr`.
pub open spec fn bus_read<M: Memory>(s: GbModel<M::Model>, addr: u16) -> u8 {
    mem_read::<M>(s.ppu, s.mem, addr)
}

/// The state after the CPU writes `value` at `addr`; a write to DIV also
/// resets the divider counter.
pub open spec fn bus_write<M: Memory>(s: GbModel<M::Model>, addr: u16, value: u8) -> GbModel<M::Model> {
    GbModel {
        ppu: ppu_after_write(s.ppu, addr, value),
        mem: mem_after_write::<M>(s.ppu, s.mem, addr, value),
        div_counter: if addr == DIV {
            0
        } else {
            s.div_counter
        },
        ..s
    }
}

/// A write at `addr` is defined: only writes to the ROM area can fault.
pub open spec fn bus_write_defined<M: Memory>(s: GbModel<M::Model>, addr: u16) -> bool {
    addr >= 0x8000 || M::model_write_defined(s.mem, addr)
}

/// I/O registers other than the LCD registers are plain memory for reads.
pub proof fn lemma_plain_read<M: Memory>(s: GbModel<M::Model>, addr: u16)
    requires
        addr >= 0xFF00,
        !is_ppu_register(addr),
    ensures
        bus_read::<M>(s, addr) == M::model_read(s.mem, addr),
{
    reveal(mem_read);
}

/// I/O registers other than the LCD registers and DIV are plain memory for
/// writes.
pub proof fn lemma_plain_write<M: Memory>(s: GbModel<M::Model>, addr: u16, value: u8)
    requires
        addr >= 0xFF00,
        !is_ppu_register(addr),
        addr != DIV,
    ensures
        bus_write::<M>(s, addr, value) == (GbModel { mem: M::model_write(s.mem, addr, value), ..s }),
{
    reveal(ppu_after_write);
    reveal(mem_after_write);
}

pub proof fn lemma_bus_write_wf<M: Memory>(s: GbModel<M::Model>, addr: u16, value: u8)
    requires
        gb_wf::<M>(s),
        bus_write_defined::<M>(s, addr),
    ensures
        gb_wf::<M>(bus_write::<M>(s, addr, value)),
{
    lemma_stat_bits();
    reveal(ppu_after_write);
    reveal(mem_after_write);
    if addr >= 0x8000 {
        M::lemma_high_writes_defined(s.mem, addr);
    }
    M::lemma_high_writes_defined(s.mem, DIV);
    M::lemma_write_keeps_inv(s.mem, addr, value);
    M::lemma_write_keeps_inv(s.mem, DIV, 0);
}

/// The register pairs read back what was written to them, except that the
/// low four bits of F always read 0.
pub proof fn law_register_pairs<Mo>(s: GbModel<Mo>, v: u16)
    ensures
        s.with_bc(v).bc() == v,
        s.with_de(v).de() == v,
        s.with_hl(v).hl() == v,
        s.with_af(v).af() == v & 0xFFF0,
{
    lemma_split_word(v);
    assert(((v >> 8) as u8 as u16) << 8 | ((v as u8) & 0xF0) as u16 == v & 0xFFF0) by (bit_vector);
    lemma_word(hi_byte(v), lo_byte(v) & 0xF0);
}

/// Whether the CPU sees memory itself at `addr`: not an LCD register, not
/// DIV, and not VRAM or OAM while the PPU holds them.
pub open spec fn is_plain_address(p: PpuModel, addr: u16) -> bool {
    &&& !is_ppu_register(addr)
    &&& addr != DIV
    &&& !(0x8000 <= addr <= 0x9FFF && vram_blocked(p))
    &&& !(0xFE00 <= addr <= 0xFE9F && oam_blocked(p))
}

/// At a plain address the bus is transparent: a write reaches the memory
/// and leaves the rest of the system as it was, and a read gives what the
/// memory holds.
pub proof fn law_bus_transparent<M: Memory>(s: GbModel<M::Model>, addr: u16, value: u8)
    requires
        is_plain_address(s.ppu, addr),
    ensures
        bus_write::<M>(s, addr, value) == (GbModel { mem: M::model_write(s.mem, addr, value), ..s }),
        bus_read::<M>(s, addr) == M::model_read(s.mem, addr),
{
    reveal(mem_read);
    reveal(ppu_after_write);
    reveal(mem_after_write);
}

/// Writing DIV clears it whatever the value written, and restarts the
/// divider.
pub proof fn law_div_write_clears<M: Memory>(s: GbModel<M::Model>, value: u8)
    ensures
        bus_write::<M>(s, DIV, value) == (GbModel { mem: M::model_write(s.mem, DIV, 0), div_counter: 0, ..s }),
{
    reveal(ppu_after_write);
    reveal(mem_after_write);
}

/// LY is read-only: a write to it changes nothing.
pub proof fn law_ly_read_only<M: Memory>(s: GbModel<M::Model>, value: u8)
    ensures
        bus_write::<M>(s, LY, value) == s,
{
    reveal(ppu_after_write);
    reveal(mem_after_write);
}

/// With flat memory, a plain address reads back the byte written to it.
pub proof fn law_flat_byte_roundtrip(s: GbModel<Seq<u8>>, addr: u16, value: u8)
    requires
        gb_wf::<FlatMemory>(s),
        is_plain_address(s.ppu, addr),
    ensures
        bus_read::<FlatMemory>(bus_write::<FlatMemory>(s, addr, value), addr) == value,
{
    law_bus_transparent::<FlatMemory>(s, addr, value);
    law_bus_transparent::<FlatMemory>(bus_write::<FlatMemory>(s, addr, value), addr, 0);
}

/// With flat memory, a word written at two plain addresses reads back.
pub proof fn law_flat_word_roundtrip(s: GbModel<Seq<u8>>, addr: u16, data: u16)
    requires
        gb_wf::<FlatMemory>(s),
        addr < 0xFFFF,
        is_plain_address(s.ppu, addr),
        is_plain_address(s.ppu, (addr + 1) as u16),
    ensures
        bus_read_word::<FlatMemory>(bus_write_word::<FlatMemory>(s, addr, data), addr) == data,
{
    let s1 = bus_write::<FlatMemory>(s, addr, lo_byte(data));
    law_bus_transparent::<FlatMemory>(s, addr, lo_byte(data));
    let s2 = bus_write::<FlatMemory>(s1, (addr + 1) as u16, hi_byte(data));
    law_bus_transparent::<FlatMemory>(s1, (addr + 1) as u16, hi_byte(data));
    law_bus_transparent::<FlatMemory>(s2, addr, 0);
    law_bus_transparent::<FlatMemory>(s2, (addr + 1) as u16, 0);
    lemma_split_word(data);
}

/// With the MMU, internal RAM at a plain address reads back through the bus
/// what the CPU wrote there.
pub proof fn law_ram_roundtrip(s: GbModel<MmuModel>, addr: u16, value: u8)
    requires
        gb_wf::<Mmu>(s),
        is_plain_address(s.ppu, addr),
        is_internal_ram(addr),
    ensures
        bus_read::<Mmu>(bus_write::<Mmu>(s, addr, value), addr) == value,
{
    law_bus_transparent::<Mmu>(s, addr, value);
    law_bus_transparent::<Mmu>(bus_write::<Mmu>(s, addr, value), addr, 0);
    law_ram_write_read(s.mem, addr, addr, value);
}

/// The little-endian word at `addr`.
pub open spec fn bus_read_word<M: Memory>(s: GbModel<M::Model>, addr: u16) -> u16 {
    word(bus_read::<M>(s, (addr + 1) as u16), bus_read::<M>(s, addr))
}

/// Writing the little-endian word `data` at `addr`: low byte first.
pub open spec fn bus_write_word<M: Memory>(s: GbModel<M::Model>, addr: u16, data: u16) -> GbModel<M::Model> {
    bus_write::<M>(bus_write::<M>(s, addr, lo_byte(data)), (addr + 1) as u16, hi_byte(data))
}

pub open spec fn bus_write_word_defined<M: Memory>(s: GbModel<M::Model>, addr: u16, data: u16) -> bool {
    &&& bus_write_defined::<M>(s, addr)
    &&& bus_write_defined::<M>(bus_write::<M>(s, addr, lo_byte(data)), (addr + 1) as u16)
}

impl<Mo> GbModel<Mo> {
    pub open spec fn af(self) -> u16 {
        word(self.a, self.f)
    }

    pub open spec fn bc(self) -> u16 {
        word(self.b, self.c)
    }

    pub open spec fn de(self) -> u16 {
        word(self.d, self.e)
    }

    pub open spec fn hl(self) -> u16 {
        word(self.h, self.l)
    }

    pub open spec fn with_af(self, v: u16) -> GbModel<Mo> {
        GbModel { a: hi_byte(v), f: lo_byte(v) & 0xF0, ..self }
    }

    pub open spec fn with_bc(self, v: u16) -> GbModel<Mo> {
        GbModel { b: hi_byte(v), c: lo_byte(v), ..self }
    }

    pub open spec fn with_de(self, v: u16) -> GbModel<Mo> {
        GbModel { d: hi_byte(v), e: lo_byte(v), ..self }
    }

    pub open spec fn with_hl(self, v: u16) -> GbModel<Mo> {
        GbModel { h: hi_byte(v), l: lo_byte(v), ..self }
    }

    pub open spec fn with_f(self, f: u8) -> GbModel<Mo> {
        GbModel { f: f, ..self }
    }

    pub open spec fn with_pc(self, pc: int) -> GbModel<Mo> {
        GbModel { pc: pc as u16, ..self }
    }

    pub open spec fn with_sp(self, sp: int) -> GbModel<Mo> {
        GbModel { sp: sp as u16, ..self }
    }

    /// The state after `n` more cycles were counted.
    pub open spec fn tick(self, n: int) -> GbModel<Mo> {
        GbModel { cycles: (self.cycles + n) as u64, ..self }
    }
}

// ---------------------------------------------------------------------------
// Timers
// ---------------------------------------------------------------------------
/// CPU cycles per TIMA increment for the clock selected by TAC bits 0-1.
pub open spec fn timer_period(tac: u8) -> int {
    let sel = tac & 0x03;
    if sel == 0 {
        1024
    } else if sel == 1 {
        16
    } else if sel == 2 {
        64
    } else {
        256
    }
}

/// DIV advances by one every 256 cycles; its counter keeps the remainder.
pub open spec fn div_updated<M: Memory>(s: GbModel<M::Model>, cycles: u64) -> GbModel<M::Model> {
    let counter = s.div_counter + cycles;
    if counter >= 256 {
        GbModel {
            div_counter: (counter % 256) as u64,
            mem: M::model_write(s.mem, DIV, add8(bus_read::<M>(s, DIV) as int, counter / 256)),
            ..s
        }
    } else {
        GbModel { div_counter: counter as u64, ..s }
    }
}

/// Whether TAC enables TIMA.
pub open spec fn timer_enabled(tac: u8) -> bool {
    tac & 0x04 != 0
}

/// The state after the timers saw `cycles` cycles: DIV advances; when TAC
/// enables it, TIMA advances at the selected rate and, when it overflows, is
/// reloaded from TMA and requests the timer interrupt (IF bit 2).
pub open spec fn timers_updated<M: Memory>(s: GbModel<M::Model>, cycles: u64) -> GbModel<M::Model> {
    let s1 = div_updated::<M>(s, cycles);
    let tac = bus_read::<M>(s1, TAC);
    if !timer_enabled(tac) {
        s1
    } else {
        let period = timer_period(tac);
        let counter = s1.tima_counter + cycles;
        if counter >= period {
            let increments = counter / period;
            let s2 = GbModel { tima_counter: (counter % period) as u64, ..s1 };
            let tima = bus_read::<M>(s2, TIMA);
            let tma = bus_read::<M>(s2, TMA);
            if tima + increments > 0xFF {
                let s3 = bus_write::<M>(s2, TIMA, tma);
                bus_write::<M>(s3, IF, bus_read::<M>(s3, IF) | 0x04)
            } else {
                bus_write::<M>(s2, TIMA, add8(tima as int, increments))
            }
        } else {
            GbModel { tima_counter: counter as u64, ..s1 }
        }
    }
}

/// The timer counters do not overflow.
pub open spec fn timers_defined<M: Memory>(s: GbModel<M::Model>, cycles: u64) -> bool {
    let s1 = div_updated::<M>(s, cycles);
    &&& s.div_counter + cycles <= u64::MAX
    &&& timer_enabled(bus_read::<M>(s1, TAC)) ==> s1.tima_counter + cycles <= u64::MAX
}

/// DIV counts CPU cycles at 16384 Hz: after `cycles` cycles it has gained
/// one for every 256 cycles (its counter included), modulo 256, and the
/// counter keeps the rest.
pub proof fn law_div_rate(s: GbModel<Seq<u8>>, cycles: u64)
    requires
        gb_wf::<FlatMemory>(s),
        timers_defined::<FlatMemory>(s, cycles),
    ensures
        ({
            let t = timers_updated::<FlatMemory>(s, cycles);
            let n = s.div_counter + cycles;
            &&& bus_read::<FlatMemory>(t, DIV) as int == (bus_read::<FlatMemory>(s, DIV) + n / 256) % 256
            &&& t.div_counter == n % 256
        }),
{
    reveal(mem_read);
    reveal(mem_after_write);
    reveal(ppu_after_write);
    let n = s.div_counter + cycles;
    if n < 256 {
        assert(n / 256 == 0 && n % 256 == n);
    }
    let s1 = div_updated::<FlatMemory>(s, cycles);
    assert(bus_read::<FlatMemory>(s1, DIV) as int == (bus_read::<FlatMemory>(s, DIV) + n / 256) % 256);
}

/// TIMA counts CPU cycles at the rate TAC selects. With TAC bit 2 set it
/// advances once per 1024, 16, 64 or 256 cycles for clock select 0, 1, 2 or
/// 3 (4096, 262144, 65536 and 16384 Hz of the 4194304 Hz clock), carrying
/// the rest in its counter: while it does not overflow it gains exactly the
/// number of whole periods that elapsed; when it overflows it is reloaded
/// from TMA and the timer interrupt (IF bit 2) is requested. With TAC bit 2
/// clear it and its counter stay as they were.
pub proof fn law_tima_rate(s: GbModel<Seq<u8>>, cycles: u64)
    requires
        gb_wf::<FlatMemory>(s),
        timers_defined::<FlatMemory>(s, cycles),
    ensures
        ({
            let t = timers_updated::<FlatMemory>(s, cycles);
            let tac = bus_read::<FlatMemory>(s, TAC);
            let tima = bus_read::<FlatMemory>(s, TIMA);
            let n = s.tima_counter + cycles;
            let period: int = if tac & 3 == 0 {
                1024
            } else if tac & 3 == 1 {
                16
            } else if tac & 3 == 2 {
                64
            } else {
                256
            };
            &&& tac & 0x04 == 0 ==> bus_read::<FlatMemory>(t, TIMA) == tima && t.tima_counter
                == s.tima_counter
            &&& tac & 0x04 != 0 && tima + n / period <= 0xFF ==> bus_read::<FlatMemory>(t, TIMA)
                == tima + n / period && t.tima_counter == n % period
            &&& tac & 0x04 != 0 && tima + n / period > 0xFF ==> bus_read::<FlatMemory>(t, TIMA)
                == bus_read::<FlatMemory>(s, TMA) && bus_read::<FlatMemory>(t, IF) & 0x04 != 0
        }),
{
    reveal(mem_read);
    reveal(mem_after_write);
    reveal(ppu_after_write);
    let tac = bus_read::<FlatMemory>(s, TAC);
    let x = bus_read::<FlatMemory>(s, IF);
    assert(tac & 0x04 == 0 <==> !timer_enabled(tac));
    assert((tac & 3 == 0 || tac & 3 == 1 || tac & 3 == 2 || tac & 3 == 3) && (x | 0x04) & 0x04 != 0)
        by (bit_vector);
    let s1 = div_updated::<FlatMemory>(s, cycles);
    assert(bus_read::<FlatMemory>(s1, TAC) == tac);
    assert(bus_read::<FlatMemory>(s1, TIMA) == bus_read::<FlatMemory>(s, TIMA));
    assert(bus_read::<FlatMemory>(s1, TMA) == bus_read::<FlatMemory>(s, TMA));
    assert(bus_read::<FlatMemory>(s1, IF) == x);
    let n = s.tima_counter + cycles;
    let period = timer_period(tac);
    if n < period {
        assert(n / period == 0 && n % period == n) by (nonlinear_arith)
            requires
                0 <= n < period,
        ;
    }
}

/// Update the timers after `cycles` CPU cycles.
///
/// - DIV (0xFF04) increments every 256 cycles (16384 Hz).
/// - TIMA (0xFF05) increments at the rate TAC selects, when TAC bit 2 is set.
/// - TMA (0xFF06) is loaded into TIMA when it overflows.
/// - TAC (0xFF07): bit 2 enables, bits 0-1 select 1024, 16, 64 or 256 cycles.
pub fn update_timers<M: Memory>(state: &mut GameBoy<M>, cycles: u64)
    requires
        old(state).wf(),
        timers_defined::<M>(old(state)@, cycles),
    ensures
        final(state)@ == timers_updated::<M>(old(state)@, cycles),
        final(state).wf(),
{
    update_div(state, cycles);
    update_tima(state, cycles);
}

fn update_div<M: Memory>(state: &mut GameBoy<M>, cycles: u64)
    requires
        old(state).wf(),
        old(state).div_counter + cycles <= u64::MAX,
    ensures
        final(state)@ == div_updated::<M>(old(state)@, cycles),
        final(state).wf(),
{
    proof {
        M::lemma_high_writes_defined(state.mmu.model(), DIV);
        M::lemma_write_keeps_inv(
            state.mmu.model(),
            DIV,
            add8(bus_read::<M>(state@, DIV) as int, (state.div_counter + cycles) / 256),
        );
    }
    state.div_counter = state.div_counter + cycles;
    if state.div_counter >= 256 {
        let div_increments = state.div_counter / 256;
        state.div_counter = state.div_counter % 256;
        let current_div = state.read(DIV);
        proof {
            lemma_plain_read::<M>(state@, DIV);
            lemma_plain_read::<M>(old(state)@, DIV);
            assert((div_increments as u8) == div_increments % 256) by (bit_vector);
            assert(current_div.wrapping_add(div_increments as u8) == add8(
                current_div as int,
                div_increments as int,
            )) by (nonlinear_arith)
                requires
                    (div_increments as u8) as int == div_increments % 256,
            {
            }
        }
        state.mmu.write(DIV, current_div.wrapping_add(div_increments as u8));
    }
}

fn update_tima<M: Memory>(state: &mut GameBoy<M>, cycles: u64)
    requires
        old(state).wf(),
        timer_enabled(bus_read::<M>(old(state)@, TAC)) ==> old(state).tima_counter + cycles
            <= u64::MAX,
    ensures
        final(state)@ == ({
            let s1 = old(state)@;
            let tac = bus_read::<M>(s1, TAC);
            if !timer_enabled(tac) {
                s1
            } else {
                let period = timer_period(tac);
                let counter = s1.tima_counter + cycles;
                if counter >= period {
                    let increments = counter / period;
                    let s2 = GbModel { tima_counter: (counter % period) as u64, ..s1 };
                    let tima = bus_read::<M>(s2, TIMA);
                    let tma = bus_read::<M>(s2, TMA);
                    if tima + increments > 0xFF {
                        let s3 = bus_write::<M>(s2, TIMA, tma);
                        bus_write::<M>(s3, IF, bus_read::<M>(s3, IF) | 0x04)
                    } else {
                        bus_write::<M>(s2, TIMA, add8(tima as int, increments))
                    }
                } else {
                    GbModel { tima_counter: counter as u64, ..s1 }
                }
            }
        }),
        final(state).wf(),
{
    proof {
        let s = state@;
        lemma_plain_read::<M>(s, TAC);
    }
    let tac = state.read(TAC);
    let timer_enabled = (tac & 0x04) != 0;
    if timer_enabled {
        let clock_select = tac & 0x03;
        let cycles_per_increment: u64 = if clock_select == 0 {
            1024
        } else if clock_select == 1 {
            16
        } else if clock_select == 2 {
            64
        } else {
            256
        };
        state.tima_counter = state.tima_counter + cycles;
        if state.tima_counter >= cycles_per_increment {
            let increments = state.tima_counter / cycles_per_increment;
            state.tima_counter = state.tima_counter % cycles_per_increment;
            let tima = state.read(TIMA);
            let tma = state.read(TMA);
            let will_overflow = (tima as u64 + increments) > 0xFF;
            if will_overflow {
                state.write(TIMA, tma);
                let if_flags = state.read(IF);
                state.write(IF, if_flags | 0x04);
            } else {
                proof {
                    assert((increments as u8) == increments % 256) by (bit_vector);
                }
                state.write(TIMA, tima.wrapping_add(increments as u8));
            }
        }
    }
}

impl<M: Memory> GameBoy<M> {
    /// Well-formedness: the PPU timing and the memory invariant hold.
    pub open spec fn wf(&self) -> bool {
        gb_wf::<M>(self@)
    }

    /// Create a Game Boy with the given memory, CPU registers at their
    /// post-boot values.
    pub fn with_memory(memory: M) -> (r: Self)
        requires
            M::model_inv(memory.model()),
        ensures
            r.wf(),
            r@ == post_boot_cpu::<M::Model>(r@.ppu, memory.model()),
            r.ppu@ == Ppu::new_model(),
    {
        let ppu = Ppu::new();
        GameBoy {
            a: 0x01,
            f: 0xB0,
            b: 0x00,
            c: 0x13,
            d: 0x00,
            e: 0xD8,
            h: 0x01,
            l: 0x4D,
            sp: 0xFFFE,
            pc: 0x0100,
            ime: false,
            halt: false,
            halt_bug: false,
            ei_delay: false,
            di_delay: false,
            cycles: 0,
            last_opcode: 0,
            div_counter: 0,
            tima_counter: 0,
            ppu,
            mmu: memory,
        }
    }

    /// Read a byte from memory.
    pub fn read(&self, addr: u16) -> (r: u8)
        requires
            self.wf(),
        ensures
            r == bus_read::<M>(self@, addr),
    {
        proof {
            reveal(mem_read);
        }
        if addr == LCDC {
            return self.ppu.read_lcdc();
        }
        if addr == STAT {
            return self.ppu.read_stat();
        }
        if addr == SCY {
            return self.ppu.read_scy();
        }
        if addr == SCX {
            return self.ppu.read_scx();
        }
        if addr == LY {
            return self.ppu.read_ly();
        }
        if addr == LYC {
            return self.ppu.read_lyc();
        }
        if addr == BGP {
            return self.ppu.read_bgp();
        }
        if addr == OBP0 {
            return self.ppu.read_obp0();
        }
        if addr == OBP1 {
            return self.ppu.read_obp1();
        }
        if addr == WY {
            return self.ppu.read_wy();
        }
        if addr == WX {
            return self.ppu.read_wx();
        }
        if 0x8000 <= addr && addr <= 0x9FFF {
            if self.ppu.is_lcd_enabled() && self.ppu.mode() == Mode::PixelTransfer {
                return 0xFF;
            }
        }
        if 0xFE00 <= addr && addr <= 0xFE9F {
            if self.ppu.is_lcd_enabled() {
                let mode = self.ppu.mode();
                if mode == Mode::OamSearch || mode == Mode::PixelTransfer {
                    return 0xFF;
                }
            }
        }
        self.mmu.read(addr)
    }

    /// Write a byte to memory.
    pub fn write(&mut self, addr: u16, value: u8)
        requires
            old(self).wf(),
            bus_write_defined::<M>(old(self)@, addr),
        ensures
            final(self)@ == bus_write::<M>(old(self)@, addr, value),
            final(self).wf(),
    {
        proof {
            reveal(ppu_after_write);
            reveal(mem_after_write);
            lemma_bus_write_wf::<M>(self@, addr, value);
            M::lemma_high_writes_defined(self.mmu.model(), DIV);
            if addr >= 0x8000 {
                M::lemma_high_writes_defined(self.mmu.model(), addr);
            }
        }
        if ppu_register(addr) {
            self.write_ppu_register(addr, value);
            return;
        }
        if addr == DIV {
            self.mmu.write(addr, 0x00);
            self.div_counter = 0;
            return;
        }
        if 0x8000 <= addr && addr <= 0x9FFF {
            if self.ppu.is_lcd_enabled() && self.ppu.mode() == Mode::PixelTransfer {
                return;
            }
        }
        if 0xFE00 <= addr && addr <= 0xFE9F {
            if self.ppu.is_lcd_enabled() {
                let mode = self.ppu.mode();
                if mode == Mode::OamSearch || mode == Mode::PixelTransfer {
                    return;
                }
            }
        }
        self.mmu.write(addr, value)
    }

    /// Writes to the LCD registers go to the PPU; LY is read-only.
    fn write_ppu_register(&mut self, addr: u16, value: u8)
        requires
            old(self).wf(),
            is_ppu_register(addr),
        ensures
            final(self)@ == bus_write::<M>(old(self)@, addr, value),
    {
        proof {
            reveal(ppu_after_write);
            reveal(mem_after_write);
        }
        if addr == LCDC {
            self.ppu.write_lcdc(value);
        } else if addr == STAT {
            self.ppu.write_stat(value);
        } else if addr == SCY {
            self.ppu.write_scy(value);
        } else if addr == SCX {
            self.ppu.write_scx(value);
        } else if addr == LYC {
            self.ppu.write_lyc(value);
        } else if addr == BGP {
            self.ppu.write_bgp(value);
        } else if addr == OBP0 {
            self.ppu.write_obp0(value);
        } else if addr == OBP1 {
            self.ppu.write_obp1(value);
        } else if addr == WY {
            self.ppu.write_wy(value);
        } else if addr == WX {
            self.ppu.write_wx(value);
        }
    }

    /// Read a little-endian 16-bit word.
    pub fn read_word(&self, addr: u16) -> (r: u16)
        requires
            self.wf(),
            addr < 0xFFFF,
        ensures
            r == bus_read_word::<M>(self@, addr),
    {
        let low = self.read(addr);
        let high = self.read(addr + 1);
        proof {
            lemma_word(high, low);
        }
        ((high as u16) << 8) | (low as u16)
    }

    /// Write a little-endian 16-bit word, low byte first.
    pub fn write_word(&mut self, addr: u16, data: u16)
        requires
            old(self).wf(),
            addr < 0xFFFF,
            bus_write_word_defined::<M>(old(self)@, addr, data),
        ensures
            final(self)@ == bus_write_word::<M>(old(self)@, addr, data),
            final(self).wf(),
    {
        proof {
            lemma_split_word(data);
        }
        let high = (data >> 8) as u8;
        let low = (data & 0xFF) as u8;
        self.write(addr, low);
        self.write(addr + 1, high);
    }

    pub fn af(&self) -> (r: u16)
        ensures
            r == self@.af(),
    {
        proof {
            lemma_word(self.a, self.f);
        }
        ((self.a as u16) << 8) | (self.f as u16)
    }

    pub fn bc(&self) -> (r: u16)
        ensures
            r == self@.bc(),
    {
        proof {
            lemma_word(self.b, self.c);
        }
        ((self.b as u16) << 8) | (self.c as u16)
    }

    pub fn de(&self) -> (r: u16)
        ensures
            r == self@.de(),
    {
        proof {
            lemma_word(self.d, self.e);
        }
        ((self.d as u16) << 8) | (self.e as u16)
    }

    pub fn hl(&self) -> (r: u16)
        ensures
            r == self@.hl(),
    {
        proof {
            lemma_word(self.h, self.l);
        }
        ((self.h as u16) << 8) | (self.l as u16)
    }

    pub fn sp(&self) -> (r: u16)
        ensures
            r == self.sp,
    {
        self.sp
    }

    pub fn pc(&self) -> (r: u16)
        ensures
            r == self.pc,
    {
        self.pc
    }

    /// Set AF; the low four bits of F always read 0.
    pub fn set_af(&mut self, value: u16)
        ensures
            final(self)@ == old(self)@.with_af(value),
    {
        proof {
            lemma_split_word(value);
            assert((value & 0xF0) as u8 == ((value & 0xFF) as u8) & 0xF0) by (bit_vector);
        }
        self.a = (value >> 8) as u8;
        self.f = (value & 0xF0) as u8;
    }

    pub fn set_bc(&mut self, value: u16)
        ensures
            final(self)@ == old(self)@.with_bc(value),
    {
        proof {
            lemma_split_word(value);
        }
        self.b = (value >> 8) as u8;
        self.c = (value & 0xFF) as u8;
    }

    pub fn set_de(&mut self, value: u16)
        ensures
            final(self)@ == old(self)@.with_de(value),
    {
        proof {
            lemma_split_word(value);
        }
        self.d = (value >> 8) as u8;
        self.e = (value & 0xFF) as u8;
    }

    pub fn set_hl(&mut self, value: u16)
        ensures
            final(self)@ == old(self)@.with_hl(value),
    {
        proof {
            lemma_split_word(value);
        }
        self.h = (value >> 8) as u8;
        self.l = (value & 0xFF) as u8;
    }

    pub fn set_sp(&mut self, value: u16)
        ensures
            final(self)@ == old(self)@.with_sp(value as int),
    {
        self.sp = value;
    }

    pub fn set_pc(&mut self, value: u16)
        ensures
            final(self)@ == old(self)@.with_pc(value as int),
    {
        self.pc = value;
    }

    pub fn flag_z(&self) -> (r: bool)
        ensures
            r == fz(self.f),
    {
        self.f & FLAG_Z != 0
    }

    pub fn set_flag_z(&mut self, value: bool)
        ensures
            final(self)@ == old(self)@.with_f(with_flag(old(self).f, 0x80, value)),
    {
        if value {
            self.f = self.f | FLAG_Z;
        } else {
            self.f = self.f & !FLAG_Z;
        }
    }

    pub fn flag_n(&self) -> (r: bool)
        ensures
            r == fn_(self.f),
    {
        self.f & FLAG_N != 0
    }

    pub fn set_flag_n(&mut self, value: bool)
        ensures
            final(self)@ == old(self)@.with_f(with_flag(old(self).f, 0x40, value)),
    {
        if value {
            self.f = self.f | FLAG_N;
        } else {
            self.f = self.f & !FLAG_N;
        }
    }

    pub fn flag_h(&self) -> (r: bool)
        ensures
            r == fh(self.f),
    {
        self.f & FLAG_H != 0
    }

    pub fn set_flag_h(&mut self, value: bool)
        ensures
            final(self)@ == old(self)@.with_f(with_flag(old(self).f, 0x20, value)),
    {
        if value {
            self.f = self.f | FLAG_H;
        } else {
            self.f = self.f & !FLAG_H;
        }
    }

    pub fn flag_c(&self) -> (r: bool)
        ensures
            r == fc(self.f),
    {
        self.f & FLAG_C != 0
    }

    pub fn set_flag_c(&mut self, value: bool)
        ensures
            final(self)@ == old(self)@.with_f(with_flag(old(self).f, 0x10, value)),
    {
        if value {
            self.f = self.f | FLAG_C;
        } else {
            self.f = self.f & !FLAG_C;
        }
    }

    /// Set the four flags at once.
    pub fn set_flags(&mut self, z: bool, n: bool, h: bool, c: bool)
        ensures
            final(self)@ == old(self)@.with_f(set_flags(old(self).f, z, n, h, c)),
    {
        self.set_flag_z(z);
        self.set_flag_n(n);
        self.set_flag_h(h);
        self.set_flag_c(c);
    }
}

/// The CPU registers after the boot ROM, with the given PPU and memory.
pub open spec fn post_boot_cpu<Mo>(ppu: PpuModel, mem: Mo) -> GbModel<Mo> {
    GbModel {
        a: 0x01,
        f: 0xB0,
        b: 0x00,
        c: 0x13,
        d: 0x00,
        e: 0xD8,
        h: 0x01,
        l: 0x4D,
        sp: 0xFFFE,
        pc: 0x0100,
        ime: false,
        halt: false,
        halt_bug: false,
        ei_delay: false,
        di_delay: false,
        cycles: 0,
        last_opcode: 0,
        div_counter: 0,
        tima_counter: 0,
        ppu: ppu,
        mem: mem,
    }
}


// ---------------------------------------------------------------------------
// Stepping
// ---------------------------------------------------------------------------
/// One step of the system: the CPU executes an instruction (or services an
/// interrupt), then the timers and the PPU advance by the cycles it took.
/// `None` where the step is undefined.
pub open spec fn step_result<M: Memory>(s: GbModel<M::Model>) -> Option<GbModel<M::Model>> {
    match execute_result::<M>(s) {
        Some(s1) => {
            let consumed = (s1.cycles - s.cycles) as u64;
            if timers_defined::<M>(s1, consumed) {
                let s2 = timers_updated::<M>(s1, consumed);
                Some(GbModel { ppu: s2.ppu.stepped(consumed as nat), ..s2 })
            } else {
                None
            }
        },
        None => None,
    }
}

/// The state after `n` steps, or `None` when one of them is undefined.
pub open spec fn steps_result<M: Memory>(s: GbModel<M::Model>, n: nat) -> Option<GbModel<M::Model>>
    decreases n,
{
    if n == 0 {
        Some(s)
    } else {
        match steps_result::<M>(s, (n - 1) as nat) {
            Some(t) => step_result::<M>(t),
            None => None,
        }
    }
}

/// The PPU after the rendering requests it raised were served: the OAM scan,
/// then the rendering of the current line.
pub open spec fn ppu_rendering(p: PpuModel, vram: Seq<u8>, oam: Seq<u8>) -> PpuModel {
    let p1 = if p.should_scan_oam {
        PpuModel {
            should_scan_oam: false,
            sprites: scanned_sprites(oam, p.ly as int, p.sprite_height() as int),
            ..p
        }
    } else {
        p
    };
    if p1.should_render_scanline {
        PpuModel { should_render_scanline: false, ..p1 }.rendered(vram, oam)
    } else {
        p1
    }
}

/// Serving the rendering requests is defined.
pub open spec fn ppu_rendering_defined(p: PpuModel, oam: Seq<u8>) -> bool {
    let p1 = if p.should_scan_oam {
        PpuModel {
            should_scan_oam: false,
            sprites: scanned_sprites(oam, p.ly as int, p.sprite_height() as int),
            ..p
        }
    } else {
        p
    };
    p1.should_render_scanline ==> PpuModel { should_render_scanline: false, ..p1 }.render_defined(oam)
}

/// The interrupt requests of the PPU moved to IF: V-Blank to bit 0, STAT to
/// bit 1.
pub open spec fn ppu_interrupts(s: GbModel<MmuModel>) -> GbModel<MmuModel> {
    let flags = s.mem.read(IF) | (if s.ppu.vblank_interrupt {
        0x01u8
    } else {
        0u8
    }) | (if s.ppu.stat_interrupt {
        0x02u8
    } else {
        0u8
    });
    GbModel {
        ppu: PpuModel { vblank_interrupt: false, stat_interrupt: false, ..s.ppu },
        mem: s.mem.write(IF, flags),
        ..s
    }
}

/// One step with rendering: a step, then the PPU's rendering requests and
/// interrupt requests are served.
pub open spec fn step_with_ppu_result(s: GbModel<MmuModel>) -> Option<GbModel<MmuModel>> {
    match step_result::<Mmu>(s) {
        Some(s1) => if ppu_rendering_defined(s1.ppu, s1.mem.oam) {
            Some(
                ppu_interrupts(
                    GbModel { ppu: ppu_rendering(s1.ppu, s1.mem.vram, s1.mem.oam), ..s1 },
                ),
            )
        } else {
            None
        },
        None => None,
    }
}

/// The I/O register values after the boot ROM.
pub open spec fn post_boot_io() -> Seq<(u16, u8)> {
    seq![
        (P1, 0xFFu8),
        (DIV, 0xAFu8),
        (TIMA, 0x00u8),
        (TMA, 0x00u8),
        (TAC, 0x00u8),
        (NR_10, 0x80u8),
        (NR_11, 0xBFu8),
        (NR_12, 0xF3u8),
        (NR_14, 0xBFu8),
        (NR_21, 0x3Fu8),
        (NR_22, 0x00u8),
        (NR_24, 0xBFu8),
        (NR_30, 0x7Fu8),
        (NR_31, 0xFFu8),
        (NR_32, 0x9Fu8),
        (NR_34, 0xBFu8),
        (NR_41, 0xFFu8),
        (NR_42, 0x00u8),
        (NR_43, 0x00u8),
        (NR_44, 0xBFu8),
        (NR_50, 0x77u8),
        (NR_51, 0xF3u8),
        (NR_52, 0xF1u8),
        (LCDC, 0x91u8),
        (SCY, 0x00u8),
        (SCX, 0x00u8),
        (LYC, 0x00u8),
        (BGP, 0xFCu8),
        (OBP0, 0xFFu8),
        (OBP1, 0xFFu8),
        (WY, 0x00u8),
        (WX, 0x00u8),
        (IE, 0x00u8),
    ]
}

/// One register set after boot: DIV is stored directly in memory (a CPU
/// write to DIV would clear it); every other register is written by the
/// CPU.
pub open spec fn boot_write<M: Memory>(s: GbModel<M::Model>, addr: u16, value: u8) -> GbModel<M::Model> {
    if addr == DIV {
        GbModel { mem: M::model_write(s.mem, DIV, value), ..s }
    } else {
        bus_write::<M>(s, addr, value)
    }
}

/// The state after each (address, value) pair of `w` is set in order.
pub open spec fn apply_writes<M: Memory>(s: GbModel<M::Model>, w: Seq<(u16, u8)>) -> GbModel<M::Model>
    decreases w.len(),
{
    if w.len() == 0 {
        s
    } else {
        boot_write::<M>(apply_writes::<M>(s, w.drop_last()), w.last().0, w.last().1)
    }
}

/// Whether `addr` is an I/O register that reads back what is set there:
/// at 0xFF00 or above, not STAT and not LY.
pub open spec fn is_boot_address(addr: u16) -> bool {
    addr >= 0xFF00 && addr != STAT && addr != LY
}

/// Each address of `w` is a boot address, and the addresses increase.
pub open spec fn boot_table_ok(w: Seq<(u16, u8)>) -> bool {
    &&& forall|j: int| 0 <= j < w.len() ==> is_boot_address(#[trigger] w[j].0)
    &&& forall|j: int| 0 <= j < w.len() - 1 ==> #[trigger] w[j].0 < w[j + 1].0
}

/// In a table with increasing boot addresses, earlier addresses are
/// smaller.
proof fn lemma_boot_table(w: Seq<(u16, u8)>, j: int, k: int)
    requires
        boot_table_ok(w),
        0 <= j < k < w.len(),
    ensures
        w[j].0 < w[k].0,
    decreases k - j,
{
    if j + 1 < k {
        lemma_boot_table(w, j + 1, k);
    }
    assert(w[j].0 < w[j + 1].0);
}

/// Setting entry `i` of the post-boot table keeps the entries before it
/// and makes it read back; the cartridge stays.
proof fn lemma_boot_step(before: GbModel<MmuModel>, i: int)
    requires
        gb_wf::<Mmu>(before),
        0 <= i < 33,
        boot_table_ok(post_boot_io()),
        forall|j: int|
            0 <= j < i ==> bus_read::<Mmu>(before, #[trigger] post_boot_io()[j].0)
                == post_boot_io()[j].1,
    ensures
        ({
            let after = boot_write::<Mmu>(before, post_boot_io()[i].0, post_boot_io()[i].1);
            &&& forall|j: int|
                0 <= j < i + 1 ==> bus_read::<Mmu>(after, #[trigger] post_boot_io()[j].0)
                    == post_boot_io()[j].1
            &&& after.mem.header == before.mem.header
            &&& after.mem.rom == before.mem.rom
        }),
{
    let w = post_boot_io();
    let addr = w[i].0;
    let value = w[i].1;
    let after = boot_write::<Mmu>(before, addr, value);
    assert(is_boot_address(addr));
    lemma_boot_write(before, addr, value, addr);
    assert forall|j: int| 0 <= j < i + 1 implies bus_read::<Mmu>(after, #[trigger] w[j].0)
        == w[j].1 by {
        if j < i {
            lemma_boot_table(w, j, i);
            assert(is_boot_address(w[j].0));
            lemma_boot_write(before, addr, value, w[j].0);
        }
    }
    reveal(mem_after_write);
}

/// The post-boot table lists boot addresses in increasing order.
proof fn lemma_post_boot_table()
    ensures
        boot_table_ok(post_boot_io()),
{
    let w = post_boot_io();
    assert forall|j: int| 0 <= j < w.len() implies is_boot_address(#[trigger] w[j].0) by {
        if j == 0 {} else if j == 1 {} else if j == 2 {} else if j == 3 {} else if j == 4 {} else if j == 5 {} else if j == 6 {} else if j == 7 {} else if j == 8 {} else if j == 9 {} else if j == 10 {} else if j == 11 {} else if j == 12 {} else if j == 13 {} else if j == 14 {} else if j == 15 {} else if j == 16 {} else if j == 17 {} else if j == 18 {} else if j == 19 {} else if j == 20 {} else if j == 21 {} else if j == 22 {} else if j == 23 {} else if j == 24 {} else if j == 25 {} else if j == 26 {} else if j == 27 {} else if j == 28 {} else if j == 29 {} else if j == 30 {} else if j == 31 {} else if j == 32 {}
    }
    assert forall|j: int| 0 <= j < w.len() - 1 implies #[trigger] w[j].0 < w[j + 1].0 by {
        if j == 0 {} else if j == 1 {} else if j == 2 {} else if j == 3 {} else if j == 4 {} else if j == 5 {} else if j == 6 {} else if j == 7 {} else if j == 8 {} else if j == 9 {} else if j == 10 {} else if j == 11 {} else if j == 12 {} else if j == 13 {} else if j == 14 {} else if j == 15 {} else if j == 16 {} else if j == 17 {} else if j == 18 {} else if j == 19 {} else if j == 20 {} else if j == 21 {} else if j == 22 {} else if j == 23 {} else if j == 24 {} else if j == 25 {} else if j == 26 {} else if j == 27 {} else if j == 28 {} else if j == 29 {} else if j == 30 {} else if j == 31 {}
    }
}

/// Setting a boot register makes it read the value set, and leaves the
/// other boot registers as they read.
proof fn lemma_boot_write(s: GbModel<MmuModel>, addr: u16, value: u8, other: u16)
    requires
        gb_wf::<Mmu>(s),
        is_boot_address(addr),
        is_boot_address(other),
    ensures
        bus_read::<Mmu>(boot_write::<Mmu>(s, addr, value), addr) == value,
        other != addr ==> bus_read::<Mmu>(boot_write::<Mmu>(s, addr, value), other) == bus_read::<
            Mmu,
        >(s, other),
{
    reveal(mem_read);
    reveal(ppu_after_write);
    reveal(mem_after_write);
    law_ram_write_read(s.mem, addr, addr, value);
    law_ram_write_read(s.mem, addr, other, value);
    law_ram_write_read(s.mem, DIV, other, 0);
}

impl GameBoy<Mmu> {
    /// Create a Game Boy for `cartridge`, with registers and I/O registers
    /// at their post-boot values.
    pub fn with_cartridge(cartridge: Cartridge) -> (r: Self)
        ensures
            r.wf(),
            r@ == apply_writes::<Mmu>(
                post_boot_cpu::<MmuModel>(Ppu::new_model(), Mmu::new_model(cartridge)),
                post_boot_io(),
            ),
            forall|j: int|
                0 <= j < 33 ==> bus_read::<Mmu>(r@, #[trigger] post_boot_io()[j].0)
                    == post_boot_io()[j].1,
            r.mmu.cartridge_value().header == cartridge.header,
            r.mmu.cartridge_value().rom@ == cartridge.rom@,
    {
        let mut gb = GameBoy::with_memory(Mmu::new(cartridge));
        gb.init_io_registers();
        proof {
            law_model_holds_cartridge(&gb.mmu);
        }
        gb
    }

    /// Initialize the I/O registers to their post-boot values.
    fn init_io_registers(&mut self)
        requires
            old(self).wf(),
        ensures
            final(self).wf(),
            final(self)@ == apply_writes::<Mmu>(old(self)@, post_boot_io()),
            forall|j: int|
                0 <= j < 33 ==> bus_read::<Mmu>(final(self)@, #[trigger] post_boot_io()[j].0)
                    == post_boot_io()[j].1,
            final(self)@.mem.header == old(self)@.mem.header,
            final(self)@.mem.rom == old(self)@.mem.rom,
    {
        let table: [(u16, u8); 33] = [
            (P1, 0xFF),
            (DIV, 0xAF),
            (TIMA, 0x00),
            (TMA, 0x00),
            (TAC, 0x00),
            (NR_10, 0x80),
            (NR_11, 0xBF),
            (NR_12, 0xF3),
            (NR_14, 0xBF),
            (NR_21, 0x3F),
            (NR_22, 0x00),
            (NR_24, 0xBF),
            (NR_30, 0x7F),
            (NR_31, 0xFF),
            (NR_32, 0x9F),
            (NR_34, 0xBF),
            (NR_41, 0xFF),
            (NR_42, 0x00),
            (NR_43, 0x00),
            (NR_44, 0xBF),
            (NR_50, 0x77),
            (NR_51, 0xF3),
            (NR_52, 0xF1),
            (LCDC, 0x91),
            (SCY, 0x00),
            (SCX, 0x00),
            (LYC, 0x00),
            (BGP, 0xFC),
            (OBP0, 0xFF),
            (OBP1, 0xFF),
            (WY, 0x00),
            (WX, 0x00),
            (IE, 0x00),
        ];
        assert(table@ =~= post_boot_io());
        proof {
            lemma_post_boot_table();
        }
        let ghost s0 = self@;
        let mut i: usize = 0;
        while i < 33
            invariant
                i <= 33,
                table@ == post_boot_io(),
                self.wf(),
                self@ == apply_writes::<Mmu>(s0, post_boot_io().take(i as int)),
                boot_table_ok(post_boot_io()),
                self@.mem.header == s0.mem.header,
                self@.mem.rom == s0.mem.rom,
                forall|j: int|
                    0 <= j < i ==> bus_read::<Mmu>(self@, #[trigger] post_boot_io()[j].0)
                        == post_boot_io()[j].1,
            decreases 33 - i,
        {
            let (addr, value) = table[i];
            let ghost before = self@;
            assert(is_boot_address(post_boot_io()[i as int].0));
            if addr == DIV {
                proof {
                    Mmu::lemma_high_writes_defined(self.mmu.model(), DIV);
                }
                self.mmu.write(DIV, value);
            } else {
                assert(addr >= 0x8000);
                self.write(addr, value);
            }
            assert(self@ == boot_write::<Mmu>(before, addr, value));
            proof {
                lemma_boot_step(before, i as int);
            }
            assert(post_boot_io().take(i + 1).drop_last() =~= post_boot_io().take(i as int));
            i = i + 1;
        }
        assert(post_boot_io().take(33) =~= post_boot_io());
    }

    /// Serve the PPU's requests for an OAM scan and for rendering a line.
    fn handle_ppu_rendering(&mut self)
        requires
            old(self).wf(),
            ppu_rendering_defined(old(self)@.ppu, old(self)@.mem.oam),
        ensures
            final(self).wf(),
            final(self)@ == (GbModel {
                ppu: ppu_rendering(old(self)@.ppu, old(self)@.mem.vram, old(self)@.mem.oam),
                ..old(self)@
            }),
    {
        if self.ppu.scan_requested() {
            self.ppu.clear_scan_request();
            self.ppu.scan_oam(self.mmu.oam());
        }
        if self.ppu.render_requested() {
            self.ppu.clear_render_request();
            self.ppu.render_scanline(self.mmu.vram(), self.mmu.oam());
        }
    }

    /// Move the PPU's interrupt requests into IF.
    fn handle_ppu_interrupts(&mut self)
        requires
            old(self).wf(),
        ensures
            final(self).wf(),
            final(self)@ == ppu_interrupts(old(self)@),
    {
        let mut if_flags = self.mmu.read(IF);
        if self.ppu.vblank_requested() {
            self.ppu.clear_vblank_request();
            if_flags = if_flags | 0x01;
        }
        if self.ppu.stat_requested() {
            self.ppu.clear_stat_request();
            if_flags = if_flags | 0x02;
        }
        proof {
            let x = self.mmu@.read(IF);
            assert(x | 0u8 == x && (x | 0u8) | 0u8 == x) by (bit_vector);
            assert((x | 0u8) | 0x02u8 == x | 0x02u8) by (bit_vector);
            assert((x | 0x01u8) | 0u8 == x | 0x01u8) by (bit_vector);
        }
        self.mmu.write(IF, if_flags);
    }

    /// Step like [`GameBoy::step_with_ppu`] when that step is defined and
    /// the timer counters are at most `u64::MAX - 24`; returns whether it
    /// did. When the CPU step itself is not defined the state is left as it
    /// was; when only the rendering that it requests is not, the CPU step
    /// has run and nothing was rendered.
    pub fn try_step_with_ppu(&mut self) -> (r: bool)
        requires
            old(self).wf(),
        ensures
            final(self).wf(),
            r ==> step_with_ppu_result(old(self)@) == Some(final(self)@),
            r <== step_with_ppu_result(old(self)@) is Some && old(self).div_counter <= u64::MAX - 24
                && old(self).tima_counter <= u64::MAX - 24,
            !r && !(step_result::<Mmu>(old(self)@) is Some && old(self).div_counter <= u64::MAX - 24
                && old(self).tima_counter <= u64::MAX - 24) ==> *final(self) == *old(self),
            !r && step_result::<Mmu>(old(self)@) is Some && old(self).div_counter <= u64::MAX - 24
                && old(self).tima_counter <= u64::MAX - 24 ==> final(self)@ == step_result::<Mmu>(
                old(self)@,
            ).unwrap(),
    {
        if !self.step_defined() {
            return false;
        }
        self.step();
        let ghost p = self@.ppu;
        let ghost oam = self@.mem.oam;
        if self.ppu.render_requested() {
            let rescan = self.ppu.scan_requested();
            let ok = self.ppu.can_render(self.mmu.oam(), rescan);
            proof {
                let p1 = if p.should_scan_oam {
                    PpuModel {
                        should_scan_oam: false,
                        sprites: scanned_sprites(oam, p.ly as int, p.sprite_height() as int),
                        ..p
                    }
                } else {
                    p
                };
                let q = if rescan {
                    PpuModel {
                        sprites: scanned_sprites(oam, p.ly as int, p.sprite_height() as int),
                        ..p
                    }
                } else {
                    p
                };
                lemma_render_defined_same(PpuModel { should_render_scanline: false, ..p1 }, q, oam);
            }
            if !ok {
                return false;
            }
        }
        self.handle_ppu_rendering();
        self.handle_ppu_interrupts();
        true
    }

    /// Step by one CPU instruction and update the PPU, the timers, the
    /// rendering and the interrupt requests.
    pub fn step_with_ppu(&mut self)
        requires
            old(self).wf(),
            step_with_ppu_result(old(self)@) is Some,
        ensures
            final(self).wf(),
            final(self)@ == step_with_ppu_result(old(self)@).unwrap(),
    {
        self.step();
        self.handle_ppu_rendering();
        self.handle_ppu_interrupts();
    }
}

impl<M: Memory> GameBoy<M> {
    /// Whether [`GameBoy::step`] may be called: the next CPU step (interrupt
    /// service, halt or instruction) is defined, and the timer counters are
    /// at most `u64::MAX - 24`, so that the cycles of the step cannot
    /// overflow them.
    pub fn step_defined(&self) -> (r: bool)
        requires
            self.wf(),
        ensures
            r == (execute_result::<M>(self@) is Some && self.div_counter <= u64::MAX - 24
                && self.tima_counter <= u64::MAX - 24),
            r ==> step_result::<M>(self@) is Some,
    {
        let ok = execute_defined(self);
        proof {
            if ok {
                lemma_execute_counters::<M>(self@);
            }
        }
        ok && self.div_counter <= u64::MAX - 24 && self.tima_counter <= u64::MAX - 24
    }
}

impl<M: Memory> GameBoy<M> {
    /// Step by one CPU instruction: execute it, then advance the timers and
    /// the PPU by the cycles it took.
    pub fn step(&mut self)
        requires
            old(self).wf(),
            step_result::<M>(old(self)@) is Some,
        ensures
            final(self).wf(),
            final(self)@ == step_result::<M>(old(self)@).unwrap(),
            final(self).mmu.model() == step_result::<M>(old(self)@).unwrap().mem,
    {
        let cycles_before = self.cycles;
        execute(self);
        let cycles_consumed = self.cycles - cycles_before;
        update_timers(self, cycles_consumed);
        self.ppu.step(cycles_consumed);
    }
}


impl<M: Memory> GameBoy<M> {
    /// Run `max_instructions` steps (at least one) and return how many ran.
    pub fn run_simple(&mut self, max_instructions: u64) -> (r: u64)
        requires
            old(self).wf(),
            max_instructions > 0,
            steps_result::<M>(old(self)@, max_instructions as nat) is Some,
        ensures
            r == max_instructions,
            final(self).wf(),
            final(self)@ == steps_result::<M>(old(self)@, max_instructions as nat).unwrap(),
    {
        let ghost s0 = self@;
        let mut total_executed: u64 = 0;
        while total_executed < max_instructions
            invariant
                total_executed <= max_instructions,
                self.wf(),
                steps_result::<M>(s0, total_executed as nat) == Some(self@),
                steps_result::<M>(s0, max_instructions as nat) is Some,
            decreases max_instructions - total_executed,
        {
            proof {
                lemma_steps_prefix::<M>(s0, (total_executed + 1) as nat, max_instructions as nat);
            }
            self.step();
            total_executed = total_executed + 1;
        }
        total_executed
    }
}

/// The number of steps after which [`GameBoy::run`] stops on its own: the
/// limit (at least one step runs), or the largest count a `u64` holds.
pub open spec fn run_cap(max_instructions: Option<u64>) -> u64 {
    match max_instructions {
        Some(m) => if m == 0 {
            1
        } else {
            m
        },
        None => u64::MAX,
    }
}

/// The next step may be taken: what [`GameBoy::step_defined`] answers.
pub open spec fn step_ready<M: Memory>(g: GameBoy<M>) -> bool {
    &&& execute_result::<M>(g@) is Some
    &&& g.div_counter <= u64::MAX - 24
    &&& g.tima_counter <= u64::MAX - 24
}

/// `n` steps lead from `from` to `to`.
pub open spec fn steps_lead<M: Memory>(from: GameBoy<M>, n: nat, to: GameBoy<M>) -> bool {
    steps_result::<M>(from@, n) == Some(to@)
}

/// The steps of a run of [`GameBoy::run`] from `start`, cut into
/// `mid.len()` batches: batch `j` starts in `pre[j]` and runs to `mid[j]`.
/// Every batch but the last is full (`batch` steps); the last ran `last`
/// steps.
pub open spec fn run_batches<M: Memory>(
    start: GameBoy<M>,
    batch: nat,
    pre: Seq<GameBoy<M>>,
    mid: Seq<GameBoy<M>>,
    last: nat,
) -> bool {
    let k = mid.len() as int;
    &&& k >= 1
    &&& pre.len() == k
    &&& pre[0] == start
    &&& last <= batch
    &&& forall|j: int| 0 <= j < k - 1 ==> steps_lead::<M>(pre[j], batch, #[trigger] mid[j])
    &&& steps_lead::<M>(pre[k - 1], last, mid[k - 1])
}

/// A run of [`GameBoy::run`] from `start` that executed `count` steps and
/// ended in `end`. `answers(before, after, go_on)` says that a call of the
/// callback on `before` may leave `after` and answer `go_on`.
///
/// The steps are cut into batches as [`run_batches`] says. Each full batch
/// but the last is followed by a call of the callback that answered `true`
/// and led to the start of the next batch. The run ended in one of three
/// ways: the step limit `cap` was reached; the next step was not defined (in
/// the middle of a batch); or the last batch was full and the callback,
/// called on its end, answered `false`.
pub open spec fn run_trace<M: Memory>(
    start: GameBoy<M>,
    batch: nat,
    cap: nat,
    pre: Seq<GameBoy<M>>,
    mid: Seq<GameBoy<M>>,
    last: nat,
    count: nat,
    end: GameBoy<M>,
    answers: spec_fn(GameBoy<M>, GameBoy<M>, bool) -> bool,
) -> bool {
    let k = mid.len() as int;
    &&& run_batches::<M>(start, batch, pre, mid, last)
    &&& count == (k - 1) * batch + last
    &&& forall|j: int| 0 <= j < k - 1 ==> answers(#[trigger] mid[j], pre[j + 1], true)
    &&& {
        ||| count == cap && last > 0 && end == mid[k - 1]
        ||| count < cap && last < batch && !step_ready::<M>(mid[k - 1]) && end == mid[k - 1]
        ||| count < cap && last == batch && answers(mid[k - 1], end, false)
    }
}

impl<M: Memory> GameBoy<M> {
    /// Run instructions in batches of `batch_size`, calling `callback` after
    /// each batch; stop when it returns `false` or when `max_instructions`
    /// (if given; at least one) instructions have run. Returns how many
    /// instructions ran.
    ///
    /// Each step is checked first: where the next step is not defined, the
    /// run stops there and returns the count so far. The callback must keep
    /// the system well-formed; with a batch size of zero it must stop the run.
    pub fn run<F: FnMut(&mut Self) -> bool>(
        &mut self,
        max_instructions: Option<u64>,
        batch_size: u64,
        callback: F,
    ) -> (r: u64)
        requires
            old(self).wf(),
            batch_size > 0 || forall|g: &mut Self, go_on: bool|
                call_ensures(callback, (g,), go_on) ==> !go_on,
            forall|g: &mut Self| g.wf() ==> call_requires(callback, (g,)),
            forall|g: &mut Self, go_on: bool|
                g.wf() && call_ensures(callback, (g,), go_on) ==> final(g).wf(),
        ensures
            final(self).wf(),
            r <= run_cap(max_instructions),
            exists|pre: Seq<Self>, mid: Seq<Self>, last: nat|
                #![trigger run_batches::<M>(*old(self), batch_size as nat, pre, mid, last)]
                run_trace::<M>(
                    *old(self),
                    batch_size as nat,
                    run_cap(max_instructions) as nat,
                    pre,
                    mid,
                    last,
                    r as nat,
                    *final(self),
                    |before: Self, after: Self, go_on: bool|
                        exists|g: &mut Self|
                            *g == before && *final(g) == after && call_ensures(
                                callback,
                                (g,),
                                go_on,
                            ),
                ),
    {
        let cap: u64 = match max_instructions {
            Some(m) => if m == 0 {
                1
            } else {
                m
            },
            None => u64::MAX,
        };
        let mut ask = callback;
        let ghost s0 = *self;
        let ghost mut pre: Seq<Self> = seq![*self];
        let ghost mut mid: Seq<Self> = Seq::empty();
        let mut total_executed: u64 = 0;
        loop
            invariant
                self.wf(),
                batch_size > 0 || forall|g: &mut Self, go_on: bool|
                    call_ensures(callback, (g,), go_on) ==> !go_on,
                cap == run_cap(max_instructions),
                total_executed < cap,
                s0 == *old(self),
                pre.len() == mid.len() + 1,
                pre[0] == s0,
                pre.last() == *self,
                total_executed == mid.len() * batch_size,
                forall|j: int|
                    0 <= j < mid.len() ==> steps_lead::<M>(pre[j], batch_size as nat, #[trigger] mid[j])
                        && exists|g: &mut Self|
                        *g == mid[j] && *final(g) == pre[j + 1] && call_ensures(callback, (g,), true),
                ask == callback,
                forall|g: &mut Self| g.wf() ==> call_requires(callback, (g,)),
                forall|g: &mut Self, go_on: bool|
                    g.wf() && call_ensures(callback, (g,), go_on) ==> final(g).wf(),
            decreases u64::MAX - total_executed,
        {
            let ghost start = total_executed;
            let mut i: u64 = 0;
            while i < batch_size
                invariant
                    self.wf(),
                    cap == run_cap(max_instructions),
                    i <= batch_size,
                    start == mid.len() * batch_size,
                    total_executed == start + i,
                    total_executed < cap,
                    s0 == *old(self),
                    pre.len() == mid.len() + 1,
                    pre[0] == s0,
                    steps_lead::<M>(pre.last(), i as nat, *self),
                    forall|j: int|
                        0 <= j < mid.len() ==> steps_lead::<M>(pre[j], batch_size as nat, #[trigger] mid[j])
                            && exists|g: &mut Self|
                            *g == mid[j] && *final(g) == pre[j + 1] && call_ensures(callback, (g,), true),
                    batch_size > 0 || forall|g: &mut Self, go_on: bool|
                        call_ensures(callback, (g,), go_on) ==> !go_on,
                    ask == callback,
                    forall|g: &mut Self| g.wf() ==> call_requires(callback, (g,)),
                    forall|g: &mut Self, go_on: bool|
                        g.wf() && call_ensures(callback, (g,), go_on) ==> final(g).wf(),
                decreases batch_size - i,
            {
                if !self.step_defined() {
                    proof {
                        let ghost mid2 = mid.push(*self);
                        assert(run_trace::<M>(
                            s0, batch_size as nat, cap as nat, pre, mid2, i as nat,
                            total_executed as nat, *self,
                            |before: Self, after: Self, go_on: bool|
                                exists|g: &mut Self|
                                    *g == before && *final(g) == after && call_ensures(
                                        callback,
                                        (g,),
                                        go_on,
                                    ),
                        ));
                    }
                    return total_executed;
                }
                self.step();
                total_executed = total_executed + 1;
                i = i + 1;
                if total_executed >= cap {
                    proof {
                        let ghost mid2 = mid.push(*self);
                        assert(run_trace::<M>(
                            s0, batch_size as nat, cap as nat, pre, mid2, i as nat,
                            total_executed as nat, *self,
                            |before: Self, after: Self, go_on: bool|
                                exists|g: &mut Self|
                                    *g == before && *final(g) == after && call_ensures(
                                        callback,
                                        (g,),
                                        go_on,
                                    ),
                        ));
                    }
                    return total_executed;
                }
            }
            let ghost before = *self;
            let go_on = ask(self);
            if !go_on {
                proof {
                    let ghost mid2 = mid.push(before);
                    assert(run_trace::<M>(
                        s0, batch_size as nat, cap as nat, pre, mid2, batch_size as nat,
                        total_executed as nat, *self,
                        |before: Self, after: Self, go_on: bool|
                            exists|g: &mut Self|
                                *g == before && *final(g) == after && call_ensures(
                                    callback,
                                    (g,),
                                    go_on,
                                ),
                    ));
                }
                return total_executed;
            }
            proof {
                assert(batch_size > 0);
                assert((mid.len() + 1) * batch_size == mid.len() * batch_size + batch_size)
                    by (nonlinear_arith);
                mid = mid.push(before);
                pre = pre.push(*self);
            }
        }
    }
}

/// A run whose callback never answers `false` stops only at the step limit
/// or where the next step is not defined. After `m` steps it has called the
/// callback once after each full batch: `(m - 1) / batch` times when it
/// reached the limit `m`, `m / batch` times when a step was not defined.
pub proof fn law_run_never_stopped<M: Memory>(
    start: GameBoy<M>,
    batch: nat,
    cap: nat,
    pre: Seq<GameBoy<M>>,
    mid: Seq<GameBoy<M>>,
    last: nat,
    count: nat,
    end: GameBoy<M>,
    answers: spec_fn(GameBoy<M>, GameBoy<M>, bool) -> bool,
)
    requires
        run_trace::<M>(start, batch, cap, pre, mid, last, count, end, answers),
        forall|a: GameBoy<M>, b: GameBoy<M>| !#[trigger] answers(a, b, false),
    ensures
        count == cap || (count < cap && !step_ready::<M>(end)),
        count == cap ==> mid.len() - 1 == (count - 1) / (batch as int),
        count < cap ==> mid.len() - 1 == (count as int) / (batch as int),
{
    let k = mid.len() as int;
    if count < cap {
        assert(last < batch);
        assert((count as int) / (batch as int) == k - 1) by (nonlinear_arith)
            requires
                count == (k - 1) * batch + last,
                last < batch,
                k >= 1,
        ;
    } else {
        assert(count - 1 == (k - 1) * batch + (last - 1));
        assert((count - 1) / (batch as int) == k - 1) by (nonlinear_arith)
            requires
                count - 1 == (k - 1) * batch + (last - 1),
                0 <= last - 1 < batch,
                k >= 1,
        ;
    }
}

/// A run whose callback never answers `true` ends with its first batch: it
/// ran at most `batch` steps, all from `start`, and called the callback at
/// most once, on the end of a full first batch that the step limit did not
/// cut.
pub proof fn law_run_stopped_at_once<M: Memory>(
    start: GameBoy<M>,
    batch: nat,
    cap: nat,
    pre: Seq<GameBoy<M>>,
    mid: Seq<GameBoy<M>>,
    last: nat,
    count: nat,
    end: GameBoy<M>,
    answers: spec_fn(GameBoy<M>, GameBoy<M>, bool) -> bool,
)
    requires
        run_trace::<M>(start, batch, cap, pre, mid, last, count, end, answers),
        forall|a: GameBoy<M>, b: GameBoy<M>| !#[trigger] answers(a, b, true),
    ensures
        mid.len() == 1,
        count == last <= batch,
        steps_lead::<M>(start, count, mid[0]),
        count < cap && count == batch ==> answers(mid[0], end, false),
        count < batch || count == cap ==> end == mid[0],
{
    if mid.len() > 1 {
        assert(answers(mid[0], pre[1], true));
    }
    let k = mid.len() as int;
    assert(k == 1);
    assert((k - 1) * batch == 0) by (nonlinear_arith)
        requires
            k == 1,
    ;
    assert(pre[0] == start);
}

/// Running `a` steps and then `b` steps is running `a + b` steps (and is
/// undefined exactly when that is).
pub proof fn law_steps_compose<M: Memory>(s: GbModel<M::Model>, a: nat, b: nat)
    ensures
        steps_result::<M>(s, a + b) == match steps_result::<M>(s, a) {
            Some(t) => steps_result::<M>(t, b),
            None => None,
        },
    decreases b,
{
    if b > 0 {
        law_steps_compose::<M>(s, a, (b - 1) as nat);
        assert((a + b - 1) as nat == a + (b - 1) as nat);
        if steps_result::<M>(s, a) is None {
            lemma_steps_none_after::<M>(s, a, a + b);
        }
    }
}

/// Once a run is undefined, every longer run is.
proof fn lemma_steps_none_after<M: Memory>(s: GbModel<M::Model>, a: nat, n: nat)
    requires
        a <= n,
        steps_result::<M>(s, a) is None,
    ensures
        steps_result::<M>(s, n) is None,
    decreases n,
{
    if a < n {
        lemma_steps_none_after::<M>(s, a, (n - 1) as nat);
    }
}

/// A defined run of `n` steps has defined prefixes.
pub proof fn lemma_steps_prefix<M: Memory>(s: GbModel<M::Model>, m: nat, n: nat)
    requires
        m <= n,
        steps_result::<M>(s, n) is Some,
    ensures
        steps_result::<M>(s, m) is Some,
    decreases n,
{
    if m < n {
        lemma_steps_prefix::<M>(s, m, (n - 1) as nat);
    }
}

/// The ROM of the placeholder cartridge before its checksum: 64 KiB of
/// zeros announcing ROM ONLY, 64 KiB of ROM and no RAM.
pub open spec fn placeholder_rom_base() -> Seq<u8> {
    Seq::new(0x10000, |i: int| if i == 0x148 { 1u8 } else { 0u8 })
}

/// The ROM of the placeholder cartridge, with its header checksum.
pub open spec fn placeholder_rom() -> Seq<u8> {
    placeholder_rom_base().update(0x14D, header_checksum(placeholder_rom_base()))
}

impl Default for GameBoy<Mmu> {
    /// A Game Boy with a placeholder ROM ONLY cartridge of 64 KiB of zeros.
    fn default() -> (r: Self)
        ensures
            r.wf(),
            r.mmu.cartridge_value().rom@ == placeholder_rom(),
            r.mmu.cartridge_value().header.describes(placeholder_rom()),
            r@ == apply_writes::<Mmu>(
                post_boot_cpu::<MmuModel>(Ppu::new_model(), Mmu::new_model(r.mmu.cartridge_value())),
                post_boot_io(),
            ),
    {
        let mut rom = vec![0u8; 64 * 1024];
        rom.set(0x0147, 0x00);
        rom.set(0x0148, 0x01);
        rom.set(0x0149, 0x00);
        assert(rom@ =~= placeholder_rom_base());
        let checksum = compute_header_checksum(rom.as_slice());
        rom.set(0x014D, checksum);
        assert(rom@ =~= placeholder_rom());
        assert(placeholder_rom().subrange(0x134, 0x14D) =~= placeholder_rom_base().subrange(0x134, 0x14D));
        assert(header_checksum(placeholder_rom()) == placeholder_rom()[0x14D]);
        assert(crate::cartridge::rom_size_of_code(1) is Some) by {
            reveal_with_fuel(crate::cartridge::pow2_nat, 2);
        }
        assert(header_error(rom@) is None);
        let cartridge = Cartridge::from_bytes(rom).expect("Failed to create dummy cartridge");
        GameBoy::with_cartridge(cartridge)
    }
}

impl Default for GameBoy<FlatMemory> {
    /// A Game Boy with zeroed flat memory.
    fn default() -> (r: Self)
        ensures
            r.wf(),
            r@ == post_boot_cpu::<Seq<u8>>(Ppu::new_model(), Seq::new(0x10000, |i: int| 0u8)),
    {
        GameBoy::with_memory(FlatMemory::new())
    }
}

impl GameBoy<FlatMemory> {
    /// A Game Boy with zeroed flat memory, for testing.
    pub fn new() -> (r: Self)
        ensures
            r.wf(),
            r@ == post_boot_cpu::<Seq<u8>>(Ppu::new_model(), Seq::new(0x10000, |i: int| 0u8)),
    {
        Self::default()
    }
}

} // verus!
