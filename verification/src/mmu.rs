//! Memory Management Unit: the Game Boy memory map with ROM and RAM banking
//! (MBC1, MBC3, MBC5), video RAM, work RAM, high RAM, sprite attribute
//! memory and the I/O register page.
//!
//! ```text
//! 0x0000-0x3FFF : ROM bank 0 (16 KiB), fixed
//! 0x4000-0x7FFF : ROM bank 1-N (16 KiB), switchable
//! 0x8000-0x9FFF : VRAM (8 KiB)
//! 0xA000-0xBFFF : external RAM (8 KiB), switchable
//! 0xC000-0xDFFF : work RAM (8 KiB)
//! 0xE000-0xFDFF : echo RAM (mirror of 0xC000-0xDDFF)
//! 0xFE00-0xFE9F : OAM, sprite attribute table
//! 0xFEA0-0xFEFF : prohibited
//! 0xFF00-0xFF7F : I/O registers
//! 0xFF80-0xFFFE : high RAM (127 bytes)
//! 0xFFFF        : interrupt enable register
//! ```
use vstd::prelude::*;
use crate::cartridge::{Cartridge, CartridgeHeader, CartridgeType};
use crate::memory::Memory;

verus! {

pub struct Mmu {
    /// Cartridge (contains ROM).
    pub cartridge: Cartridge,
    /// Current ROM bank (for 0x4000-0x7FFF).
    rom_bank: usize,
    /// Current RAM bank (for 0xA000-0xBFFF).
    ram_bank: usize,
    /// External RAM enabled flag.
    ram_enabled: bool,
    /// External RAM (if the cartridge has RAM).
    external_ram: Vec<u8>,
    vram: [u8; 0x2000],
    wram: [u8; 0x2000],
    hram: [u8; 0x7F],
    oam: [u8; 0xA0],
    io: [u8; 0x80],
    /// Interrupt enable register (0xFFFF).
    ie: u8,
    /// MBC1 banking mode (0 = ROM banking, 1 = RAM banking).
    mbc1_mode: u8,
    /// MBC1 upper bank bits.
    mbc1_upper_bits: u8,
}

/// The abstract state of the MMU.
pub struct MmuModel {
    pub header: CartridgeHeader,
    pub cartridge_type: CartridgeType,
    pub rom: Seq<u8>,
    pub rom_bank: usize,
    pub ram_bank: usize,
    pub ram_enabled: bool,
    pub external_ram: Seq<u8>,
    pub vram: Seq<u8>,
    pub wram: Seq<u8>,
    pub hram: Seq<u8>,
    pub oam: Seq<u8>,
    pub io: Seq<u8>,
    pub ie: u8,
    pub mbc1_mode: u8,
    pub mbc1_upper_bits: u8,
}

impl View for Mmu {
    type V = MmuModel;

    closed spec fn view(&self) -> MmuModel {
        MmuModel {
            header: self.cartridge.header,
            cartridge_type: self.cartridge.header.cartridge_type,
            rom: self.cartridge.rom@,
            rom_bank: self.rom_bank,
            ram_bank: self.ram_bank,
            ram_enabled: self.ram_enabled,
            external_ram: self.external_ram@,
            vram: self.vram@,
            wram: self.wram@,
            hram: self.hram@,
            oam: self.oam@,
            io: self.io@,
            ie: self.ie,
            mbc1_mode: self.mbc1_mode,
            mbc1_upper_bits: self.mbc1_upper_bits,
        }
    }
}

pub open spec fn is_mbc1(t: CartridgeType) -> bool {
    t == CartridgeType::Mbc1 || t == CartridgeType::Mbc1Ram
}

pub open spec fn is_mbc3(t: CartridgeType) -> bool {
    t == CartridgeType::Mbc3 || t == CartridgeType::Mbc3Ram
}

pub open spec fn is_mbc5(t: CartridgeType) -> bool {
    t == CartridgeType::Mbc5 || t == CartridgeType::Mbc5Ram
}

impl MmuModel {
    /// Bank registers stay within the ranges the controllers can select, and
    /// the memories have their sizes.
    pub open spec fn wf(self) -> bool {
        &&& self.rom_bank < 512
        &&& self.ram_bank < 16
        &&& self.mbc1_upper_bits < 4
        &&& self.vram.len() == 0x2000
        &&& self.wram.len() == 0x2000
        &&& self.hram.len() == 0x7F
        &&& self.oam.len() == 0xA0
        &&& self.io.len() == 0x80
    }

    /// Number of 16 KiB ROM banks.
    pub open spec fn rom_banks(self) -> int {
        self.rom.len() as int / 0x4000
    }

    /// Whether external RAM answers accesses.
    pub open spec fn ram_active(self) -> bool {
        self.ram_enabled && self.external_ram.len() > 0
    }

    /// Offset into external RAM of `addr` (0xA000-0xBFFF) in the current bank.
    pub open spec fn ram_offset(self, addr: u16) -> int {
        self.ram_bank * 0x2000 + (addr - 0xA000)
    }

    /// The byte at `addr`.
    pub open spec fn read(self, addr: u16) -> u8 {
        if addr <= 0x3FFF {
            if (addr as int) < self.rom.len() {
                self.rom[addr as int]
            } else {
                0xFF
            }
        } else if addr <= 0x7FFF {
            let offset = self.rom_bank * 0x4000 + (addr - 0x4000);
            if offset < self.rom.len() {
                self.rom[offset]
            } else {
                0xFF
            }
        } else if addr <= 0x9FFF {
            self.vram[addr - 0x8000]
        } else if addr <= 0xBFFF {
            if self.ram_active() && self.ram_offset(addr) < self.external_ram.len() {
                self.external_ram[self.ram_offset(addr)]
            } else {
                0xFF
            }
        } else if addr <= 0xDFFF {
            self.wram[addr - 0xC000]
        } else if addr <= 0xFDFF {
            self.wram[addr - 0xE000]
        } else if addr <= 0xFE9F {
            self.oam[addr - 0xFE00]
        } else if addr <= 0xFEFF {
            0xFF
        } else if addr <= 0xFF7F {
            self.io[addr - 0xFF00]
        } else if addr <= 0xFFFE {
            self.hram[addr - 0xFF80]
        } else {
            self.ie
        }
    }

    /// ROM bank selection reduced modulo the number of banks.
    pub open spec fn wrap_bank(self, bank: int) -> usize {
        (bank % self.rom_banks()) as usize
    }

    /// MBC1 control register write.
    pub open spec fn mbc1_write(self, addr: u16, value: u8) -> MmuModel {
        if addr <= 0x1FFF {
            MmuModel { ram_enabled: value & 0x0F == 0x0A, ..self }
        } else if addr <= 0x3FFF {
            let low = (value & 0x1F) as int;
            let bank = if low == 0 {
                1
            } else {
                low
            };
            let bank = if self.mbc1_mode == 0 {
                (bank as usize | ((self.mbc1_upper_bits as usize) << 5)) as int
            } else {
                bank
            };
            MmuModel { rom_bank: self.wrap_bank(bank), ..self }
        } else if addr <= 0x5FFF {
            let upper = value & 0x03;
            if self.mbc1_mode == 0 {
                let bank = ((self.rom_bank & 0x1F) | ((upper as usize) << 5)) as int;
                let bank = if bank == 0 {
                    1
                } else {
                    bank
                };
                MmuModel { mbc1_upper_bits: upper, rom_bank: self.wrap_bank(bank), ..self }
            } else {
                MmuModel { mbc1_upper_bits: upper, ram_bank: (upper & 0x03) as usize, ..self }
            }
        } else {
            let mode = value & 0x01;
            if mode == 0 {
                MmuModel { mbc1_mode: mode, ram_bank: 0, ..self }
            } else {
                let bank = self.rom_bank & 0x1F;
                MmuModel {
                    mbc1_mode: mode,
                    rom_bank: if bank == 0 {
                        1
                    } else {
                        bank
                    },
                    ..self
                }
            }
        }
    }

    /// MBC3 control register write (the real-time clock is not emulated).
    pub open spec fn mbc3_write(self, addr: u16, value: u8) -> MmuModel {
        if addr <= 0x1FFF {
            MmuModel { ram_enabled: value & 0x0F == 0x0A, ..self }
        } else if addr <= 0x3FFF {
            let low = (value & 0x7F) as int;
            let bank = if low == 0 {
                1
            } else {
                low
            };
            MmuModel { rom_bank: self.wrap_bank(bank), ..self }
        } else if addr <= 0x5FFF {
            if value <= 0x03 {
                MmuModel { ram_bank: (value & 0x03) as usize, ..self }
            } else {
                self
            }
        } else {
            self
        }
    }

    /// MBC5 control register write.
    pub open spec fn mbc5_write(self, addr: u16, value: u8) -> MmuModel {
        if addr <= 0x1FFF {
            MmuModel { ram_enabled: value & 0x0F == 0x0A, ..self }
        } else if addr <= 0x2FFF {
            let bank = ((((self.rom_bank >> 8) & 0x01) << 8) | value as usize) as int;
            MmuModel {
                rom_bank: if bank >= self.rom_banks() {
                    self.wrap_bank(bank)
                } else {
                    bank as usize
                },
                ..self
            }
        } else if addr <= 0x3FFF {
            let bank = ((((value as usize) & 0x01) << 8) | (self.rom_bank & 0xFF)) as int;
            MmuModel {
                rom_bank: if bank >= self.rom_banks() {
                    self.wrap_bank(bank)
                } else {
                    bank as usize
                },
                ..self
            }
        } else if addr <= 0x5FFF {
            MmuModel { ram_bank: (value & 0x0F) as usize, ..self }
        } else {
            self
        }
    }

    /// A write to the ROM area: it goes to the memory bank controller.
    pub open spec fn mbc_write(self, addr: u16, value: u8) -> MmuModel {
        if is_mbc1(self.cartridge_type) {
            self.mbc1_write(addr, value)
        } else if is_mbc3(self.cartridge_type) {
            self.mbc3_write(addr, value)
        } else if is_mbc5(self.cartridge_type) {
            self.mbc5_write(addr, value)
        } else {
            self
        }
    }

    /// The state after writing `value` at `addr`.
    pub open spec fn write(self, addr: u16, value: u8) -> MmuModel {
        if addr <= 0x7FFF {
            self.mbc_write(addr, value)
        } else if addr <= 0x9FFF {
            MmuModel { vram: self.vram.update(addr - 0x8000, value), ..self }
        } else if addr <= 0xBFFF {
            if self.ram_active() && self.ram_offset(addr) < self.external_ram.len() {
                MmuModel {
                    external_ram: self.external_ram.update(self.ram_offset(addr), value),
                    ..self
                }
            } else {
                self
            }
        } else if addr <= 0xDFFF {
            MmuModel { wram: self.wram.update(addr - 0xC000, value), ..self }
        } else if addr <= 0xFDFF {
            MmuModel { wram: self.wram.update(addr - 0xE000, value), ..self }
        } else if addr <= 0xFE9F {
            MmuModel { oam: self.oam.update(addr - 0xFE00, value), ..self }
        } else if addr <= 0xFEFF {
            self
        } else if addr <= 0xFF7F {
            MmuModel { io: self.io.update(addr - 0xFF00, value), ..self }
        } else if addr <= 0xFFFE {
            MmuModel { hram: self.hram.update(addr - 0xFF80, value), ..self }
        } else {
            MmuModel { ie: value, ..self }
        }
    }

    /// A write selects a ROM bank modulo the number of banks, which is
    /// undefined when the ROM is smaller than one bank.
    pub open spec fn write_defined(self, addr: u16) -> bool {
        self.rom_banks() > 0 || !({
            ||| is_mbc1(self.cartridge_type) && 0x2000 <= addr <= 0x3FFF
            ||| is_mbc1(self.cartridge_type) && 0x4000 <= addr <= 0x5FFF && self.mbc1_mode == 0
            ||| is_mbc3(self.cartridge_type) && 0x2000 <= addr <= 0x3FFF
            ||| is_mbc5(self.cartridge_type) && 0x2000 <= addr <= 0x3FFF
        })
    }
}

proof fn lemma_bank_bits(b: usize, v: u8)
    ensures
        (b & 0x1F) | ((((v & 0x03) as usize)) << 5) < 128,
        ((((b >> 8) & 0x01) << 8) | v as usize) < 512,
        (((v as usize) & 0x01) << 8) | (b & 0xFF) < 512,
        b & 0x1F < 32,
        (v & 0x1F) as usize | ((v & 0x03) as usize) << 5 < 128,
        v < 4 ==> 1usize | (v as usize) << 5 < 128,
        v < 4 ==> (b & 0x1F) | (v as usize) << 5 < 128,
        v < 4 && b < 32 ==> b | (v as usize) << 5 < 128,
{
    assert((v < 4 ==> 1usize | (v as usize) << 5 < 128) && (v < 4 ==> (b & 0x1F) | (v as usize) << 5
        < 128) && (v < 4 && b < 32 ==> b | (v as usize) << 5 < 128) && (b & 0x1F) | ((((v & 0x03)
        as usize)) << 5) < 128 && ((((b >> 8) & 0x01) << 8) | v as usize) < 512 && (((v as usize)
        & 0x01) << 8) | (b & 0xFF) < 512 && b & 0x1F < 32 && (v & 0x1F) as usize | ((v & 0x03)
        as usize) << 5 < 128) by (bit_vector);
}

pub proof fn lemma_write_wf(m: MmuModel, addr: u16, value: u8)
    requires
        m.wf(),
        m.write_defined(addr),
    ensures
        m.write(addr, value).wf(),
{
    let u = m.mbc1_upper_bits;
    lemma_bank_bits(m.rom_bank, value);
    lemma_bank_bits(m.rom_bank, u);
    assert(value & 0x7F < 128 && value & 0x0F < 16 && value & 0x03 < 4 && (value & 0x03) & 0x03 < 4
        && u & 0x03 < 4 && value & 0x1F < 32 && value & 0x01 < 2) by (bit_vector);
    assert forall|bank: int, n: int| 0 <= bank < 512 && n > 0 implies #[trigger] (bank % n) < 512 by {
        assert(bank % n <= bank) by (nonlinear_arith)
            requires
                0 <= bank,
                n > 0,
        ;
    }
    let low = (value & 0x1F) as usize;
    lemma_bank_bits(low, u);
}

/// Whether `addr` is RAM inside the console: VRAM, work RAM and its echo,
/// OAM, the I/O page, high RAM and the interrupt enable register.
pub open spec fn is_internal_ram(addr: u16) -> bool {
    0x8000 <= addr <= 0x9FFF || 0xC000 <= addr <= 0xFE9F || addr >= 0xFF00
}

/// The storage cell behind an internal RAM address: echo RAM is work RAM
/// 0x2000 lower; every other address is a cell of its own (the interrupt
/// enable register at 0xFFFF among them).
pub open spec fn ram_cell(addr: u16) -> int {
    if 0xE000 <= addr <= 0xFDFF {
        addr - 0x2000
    } else {
        addr as int
    }
}

/// Internal RAM reads back what was written, also through its mirror:
/// after a write at `addr`, every address of the same cell reads `value`,
/// and every address of another cell (ROM and cartridge RAM included) reads
/// what it read before.
pub proof fn law_ram_write_read(m: MmuModel, addr: u16, other: u16, value: u8)
    requires
        m.wf(),
        is_internal_ram(addr),
    ensures
        is_internal_ram(other) && ram_cell(other) == ram_cell(addr) ==> m.write(addr, value).read(
            other,
        ) == value,
        !(is_internal_ram(other) && ram_cell(other) == ram_cell(addr)) ==> m.write(addr, value).read(
            other,
        ) == m.read(other),
{
}

/// The MMU's state holds the ROM and the header of the cartridge it holds.
pub proof fn law_model_holds_cartridge(mmu: &Mmu)
    ensures
        mmu@.rom == mmu.cartridge_value().rom@,
        mmu@.header == mmu.cartridge_value().header,
        mmu@.cartridge_type == mmu.cartridge_value().header.cartridge_type,
{
}

/// Cartridge RAM, once enabled, reads back what was written in the current
/// bank; while it is disabled (or absent) it reads 0xFF and ignores writes.
pub proof fn law_cartridge_ram(m: MmuModel, addr: u16, value: u8)
    requires
        m.wf(),
        0xA000 <= addr <= 0xBFFF,
    ensures
        m.ram_active() && m.ram_offset(addr) < m.external_ram.len() ==> m.write(addr, value).read(
            addr,
        ) == value,
        !m.ram_active() ==> m.read(addr) == 0xFF && m.write(addr, value) == m,
{
}

/// Echo RAM (0xE000-0xFDFF) mirrors work RAM 0x2000 lower.
pub proof fn law_echo_mirror(m: MmuModel, addr: u16)
    requires
        0xE000 <= addr <= 0xFDFF,
    ensures
        m.read(addr) == m.read((addr - 0x2000) as u16),
{
}

/// The prohibited area (0xFEA0-0xFEFF) reads 0xFF and ignores writes.
pub proof fn law_prohibited_area(m: MmuModel, addr: u16, value: u8)
    requires
        0xFEA0 <= addr <= 0xFEFF,
    ensures
        m.read(addr) == 0xFF,
        m.write(addr, value) == m,
{
}

/// MBC3 ROM banking: after a write of `value` to 0x2000-0x3FFF, the window
/// 0x4000-0x7FFF shows ROM bank `value` (seven bits: 1-127) taken modulo the
/// number of banks, bank 0 selecting bank 1; the top bit of `value` is
/// ignored.
pub proof fn law_mbc3_rom_bank(m: MmuModel, addr: u16, value: u8, k: u16)
    requires
        m.wf(),
        is_mbc3(m.cartridge_type),
        0x2000 <= addr <= 0x3FFF,
        m.rom_banks() >= 1,
        k < 0x4000,
    ensures
        1 <= value <= 0x7F ==> m.write(addr, value).read((0x4000 + k) as u16) == m.rom[((value as int)
            % m.rom_banks()) * 0x4000 + k],
        value == 0 ==> m.write(addr, value).read((0x4000 + k) as u16) == m.rom[(1int % m.rom_banks())
            * 0x4000 + k],
        value >= 0x80 ==> m.write(addr, value) == m.write(addr, (value - 0x80) as u8),
{
    let banks = m.rom_banks();
    assert((value <= 0x7F ==> value & 0x7F == value) && (value >= 0x80 ==> value & 0x7F == ((value
        - 0x80) as u8) & 0x7F)) by (bit_vector);
    assert(forall|b: int| 0 <= b < banks ==> #[trigger] (b * 0x4000) + k < m.rom.len()) by {
        assert forall|b: int| 0 <= b < banks implies #[trigger] (b * 0x4000) + k < m.rom.len() by {
            assert(b * 0x4000 + k < m.rom.len()) by (nonlinear_arith)
                requires
                    0 <= b < banks,
                    banks == m.rom.len() as int / 0x4000,
                    k < 0x4000,
            ;
        }
    }
    if 1 <= value <= 0x7F {
        let b = (value as int) % banks;
        assert(0 <= b < banks);
        assert(b * 0x4000 + k < m.rom.len());
        assert(b <= value) by (nonlinear_arith)
            requires
                b == (value as int) % banks,
                banks >= 1,
                value >= 1,
        ;
        assert(!is_mbc1(m.cartridge_type));
        let m2 = m.write(addr, value);
        assert(m2 == m.mbc3_write(addr, value));
        assert(m2.rom_bank == b);
        assert(m2.rom == m.rom);
        let a = (0x4000 + k) as u16;
        assert(a == 0x4000 + k);
        assert(m2.read(a) == m.rom[b * 0x4000 + k]);
    }
    if value == 0 {
        let b = 1int % banks;
        assert(0 <= b < banks);
        assert(b * 0x4000 + k < m.rom.len());
        assert(b <= 1) by (nonlinear_arith)
            requires
                b == 1int % banks,
                banks >= 1,
        ;
        assert(!is_mbc1(m.cartridge_type));
        let m2 = m.write(addr, value);
        assert(m2 == m.mbc3_write(addr, value));
        assert(m2.rom_bank == b);
        assert(m2.rom == m.rom);
        let a = (0x4000 + k) as u16;
        assert(a == 0x4000 + k);
        assert(m2.read(a) == m.rom[b * 0x4000 + k]);
    }
}

/// MBC1 ROM banking in mode 0: after a write of `value` to 0x2000-0x3FFF,
/// the window 0x4000-0x7FFF shows ROM bank `value + 32 * upper` (`upper`
/// being the two bits last written to 0x4000-0x5FFF) taken modulo the number
/// of banks, a zero `value` counting as 1; only the low five bits of `value`
/// count.
pub proof fn law_mbc1_rom_bank(m: MmuModel, addr: u16, value: u8, k: u16)
    requires
        m.wf(),
        is_mbc1(m.cartridge_type),
        m.mbc1_mode == 0,
        0x2000 <= addr <= 0x3FFF,
        m.rom_banks() >= 1,
        k < 0x4000,
    ensures
        1 <= value <= 0x1F ==> m.write(addr, value).read((0x4000 + k) as u16) == m.rom[((value
            + 32 * m.mbc1_upper_bits) % m.rom_banks()) * 0x4000 + k],
        value == 0 ==> m.write(addr, value).read((0x4000 + k) as u16) == m.rom[((1
            + 32 * m.mbc1_upper_bits) % m.rom_banks()) * 0x4000 + k],
        value >= 0x20 ==> m.write(addr, value) == m.write(addr, value % 32),
{
    let banks = m.rom_banks();
    let u = m.mbc1_upper_bits;
    assert((value >= 0x20 ==> value & 0x1F == (value % 32) & 0x1F) && (value <= 0x1F ==> value & 0x1F
        == value)) by (bit_vector);
    if value <= 0x1F {
        let low: u8 = if value == 0 {
            1
        } else {
            value
        };
        assert(((low as usize) | ((u as usize) << 5)) == low + 32 * u) by (bit_vector)
            requires
                low <= 0x1F,
                u < 4,
        ;
        let bank = low + 32 * u;
        let b = bank % banks;
        assert(0 <= b <= bank) by (nonlinear_arith)
            requires
                b == bank % banks,
                banks >= 1,
                bank >= 0,
        ;
        assert(b * 0x4000 + k < m.rom.len()) by (nonlinear_arith)
            requires
                0 <= b < banks,
                banks == m.rom.len() as int / 0x4000,
                k < 0x4000,
        ;
        let m2 = m.write(addr, value);
        assert(m2 == m.mbc1_write(addr, value));
        assert(m2.rom_bank == b);
        let a = (0x4000 + k) as u16;
        assert(a == 0x4000 + k);
        assert(m2.read(a) == m.rom[b * 0x4000 + k]);
    }
}

/// MBC5 ROM banking: a write of `value` to 0x2000-0x2FFF sets the low eight
/// bits of the ROM bank and a write to 0x3000-0x3FFF sets bit 8 from bit 0
/// of `value`; the window 0x4000-0x7FFF then shows that bank modulo the
/// number of banks (bank 0 included).
pub proof fn law_mbc5_rom_bank(m: MmuModel, addr: u16, value: u8, k: u16)
    requires
        m.wf(),
        is_mbc5(m.cartridge_type),
        m.rom_banks() >= 1,
        k < 0x4000,
    ensures
        0x2000 <= addr <= 0x2FFF && m.rom_bank < 256 ==> m.write(addr, value).read(
            (0x4000 + k) as u16,
        ) == m.rom[((value as int) % m.rom_banks()) * 0x4000 + k],
        0x3000 <= addr <= 0x3FFF ==> m.write(addr, value).rom_bank == (256 * (value % 2) + m.rom_bank
            % 256) % m.rom_banks(),
{
    let banks = m.rom_banks();
    let old_bank = m.rom_bank;
    if 0x2000 <= addr <= 0x2FFF && old_bank < 256 {
        assert((((old_bank >> 8) & 0x01) << 8) | value as usize == value) by (bit_vector)
            requires
                old_bank < 256,
        ;
        let bank = value as int;
        let b = bank % banks;
        assert(0 <= b <= bank) by (nonlinear_arith)
            requires
                b == bank % banks,
                banks >= 1,
                bank >= 0,
        ;
        assert(bank < banks ==> b == bank) by (nonlinear_arith)
            requires
                b == bank % banks,
                bank >= 0,
        ;
        assert(b * 0x4000 + k < m.rom.len()) by (nonlinear_arith)
            requires
                0 <= b < banks,
                banks == m.rom.len() as int / 0x4000,
                k < 0x4000,
        ;
        let m2 = m.write(addr, value);
        assert(m2 == m.mbc5_write(addr, value));
        assert(m2.rom_bank == b);
        let a = (0x4000 + k) as u16;
        assert(a == 0x4000 + k);
        assert(m2.read(a) == m.rom[b * 0x4000 + k]);
    }
    if 0x3000 <= addr <= 0x3FFF {
        assert(((((value as usize) & 0x01) << 8) | (old_bank & 0xFF)) == 256 * (value % 2) + old_bank
            % 256) by (bit_vector);
        let bank = 256 * (value % 2) + old_bank % 256;
        let b = bank % banks;
        assert(bank < banks ==> b == bank) by (nonlinear_arith)
            requires
                b == bank % banks,
                bank >= 0,
        ;
        assert(b <= bank) by (nonlinear_arith)
            requires
                b == bank % banks,
                banks >= 1,
                bank >= 0,
        ;
        assert(m.write(addr, value) == m.mbc5_write(addr, value));
    }
}

/// Cartridge RAM control: on MBC1, MBC3 and MBC5 a write to 0x0000-0x1FFF
/// enables the RAM exactly when the low nibble of the value is 0xA, and
/// changes nothing else. On MBC3 a write of 0-3 to 0x4000-0x5FFF selects
/// that RAM bank, and a larger value (a clock register, not emulated)
/// changes nothing.
pub proof fn law_ram_control(m: MmuModel, addr: u16, value: u8)
    requires
        is_mbc1(m.cartridge_type) || is_mbc3(m.cartridge_type) || is_mbc5(m.cartridge_type),
    ensures
        addr <= 0x1FFF ==> m.write(addr, value) == (MmuModel {
            ram_enabled: value % 16 == 10,
            ..m
        }),
        is_mbc3(m.cartridge_type) && 0x4000 <= addr <= 0x5FFF && value <= 3 ==> m.write(addr, value)
            == (MmuModel { ram_bank: value as usize, ..m }),
        is_mbc3(m.cartridge_type) && 0x4000 <= addr <= 0x5FFF && value > 3 ==> m.write(addr, value)
            == m,
{
    assert(value & 0x0F == value % 16 && (value <= 3 ==> value & 0x03 == value)) by (bit_vector);
}

/// No write changes the ROM, so ROM bank 0 (0x0000-0x3FFF) always reads
/// the same.
pub proof fn law_rom_bank0_fixed(m: MmuModel, addr: u16, rom_addr: u16, value: u8)
    requires
        rom_addr <= 0x3FFF,
    ensures
        m.write(addr, value).rom == m.rom,
        m.write(addr, value).read(rom_addr) == m.read(rom_addr),
{
}

impl Mmu {
    /// The cartridge held by the MMU.
    pub closed spec fn cartridge_value(&self) -> Cartridge {
        self.cartridge
    }

    /// The cartridge held by the MMU.
    pub fn cartridge(&self) -> (c: &Cartridge)
        ensures
            *c == self.cartridge_value(),
    {
        &self.cartridge
    }

    /// The state of a new MMU for `cartridge`: ROM bank 1 selected, all RAM
    /// zeroed.
    pub open spec fn new_model(cartridge: Cartridge) -> MmuModel {
        MmuModel {
            header: cartridge.header,
            cartridge_type: cartridge.header.cartridge_type,
            rom: cartridge.rom@,
            rom_bank: 1,
            ram_bank: 0,
            ram_enabled: false,
            external_ram: Seq::new(cartridge.header.ram_size as nat, |i: int| 0u8),
            vram: Seq::new(0x2000, |i: int| 0u8),
            wram: Seq::new(0x2000, |i: int| 0u8),
            hram: Seq::new(0x7F, |i: int| 0u8),
            oam: Seq::new(0xA0, |i: int| 0u8),
            io: Seq::new(0x80, |i: int| 0u8),
            ie: 0,
            mbc1_mode: 0,
            mbc1_upper_bits: 0,
        }
    }

    /// Create an MMU for `cartridge`.
    pub fn new(cartridge: Cartridge) -> (r: Self)
        ensures
            r@ == Self::new_model(cartridge),
            r@.wf(),
            r.cartridge_value() == cartridge,
    {
        let ram_size = cartridge.header.ram_size;
        let external_ram = vec![0u8; ram_size];
        let r = Mmu {
            cartridge,
            rom_bank: 1,
            ram_bank: 0,
            ram_enabled: false,
            external_ram,
            vram: [0u8; 0x2000],
            wram: [0u8; 0x2000],
            hram: [0u8; 0x7F],
            oam: [0u8; 0xA0],
            io: [0u8; 0x80],
            ie: 0,
            mbc1_mode: 0,
            mbc1_upper_bits: 0,
        };
        assert(r@.external_ram =~= Seq::new(ram_size as nat, |i: int| 0u8));
        assert(r@.vram =~= Seq::new(0x2000, |i: int| 0u8));
        assert(r@.wram =~= Seq::new(0x2000, |i: int| 0u8));
        assert(r@.hram =~= Seq::new(0x7F, |i: int| 0u8));
        assert(r@.oam =~= Seq::new(0xA0, |i: int| 0u8));
        assert(r@.io =~= Seq::new(0x80, |i: int| 0u8));
        r
    }

    /// Read a byte from memory.
    pub fn read(&self, addr: u16) -> (r: u8)
        requires
            self@.wf(),
        ensures
            r == self@.read(addr),
    {
        if addr <= 0x3FFF {
            self.cartridge.read(addr)
        } else if addr <= 0x7FFF {
            let offset = (self.rom_bank * 0x4000) + (addr as usize - 0x4000);
            if offset < self.cartridge.rom.len() {
                self.cartridge.rom[offset]
            } else {
                0xFF
            }
        } else if addr <= 0x9FFF {
            self.vram[(addr - 0x8000) as usize]
        } else if addr <= 0xBFFF {
            if self.ram_enabled && self.external_ram.len() > 0 {
                let offset = (self.ram_bank * 0x2000) + (addr as usize - 0xA000);
                if offset < self.external_ram.len() {
                    self.external_ram[offset]
                } else {
                    0xFF
                }
            } else {
                0xFF
            }
        } else if addr <= 0xDFFF {
            self.wram[(addr - 0xC000) as usize]
        } else if addr <= 0xFDFF {
            self.wram[(addr - 0xE000) as usize]
        } else if addr <= 0xFE9F {
            self.oam[(addr - 0xFE00) as usize]
        } else if addr <= 0xFEFF {
            0xFF
        } else if addr <= 0xFF7F {
            self.io[(addr - 0xFF00) as usize]
        } else if addr <= 0xFFFE {
            self.hram[(addr - 0xFF80) as usize]
        } else {
            self.ie
        }
    }

    /// Write a byte to memory.
    pub fn write(&mut self, addr: u16, value: u8)
        requires
            old(self)@.wf(),
            old(self)@.write_defined(addr),
        ensures
            final(self)@ == old(self)@.write(addr, value),
            final(self)@.wf(),
            final(self).cartridge_value() == old(self).cartridge_value(),
    {
        proof {
            lemma_write_wf(self@, addr, value);
        }
        if addr <= 0x7FFF {
            self.mbc_write(addr, value);
        } else if addr <= 0x9FFF {
            self.vram[(addr - 0x8000) as usize] = value;
        } else if addr <= 0xBFFF {
            if self.ram_enabled && self.external_ram.len() > 0 {
                let offset = (self.ram_bank * 0x2000) + (addr as usize - 0xA000);
                if offset < self.external_ram.len() {
                    self.external_ram.set(offset, value);
                }
            }
        } else if addr <= 0xDFFF {
            self.wram[(addr - 0xC000) as usize] = value;
        } else if addr <= 0xFDFF {
            self.wram[(addr - 0xE000) as usize] = value;
        } else if addr <= 0xFE9F {
            self.oam[(addr - 0xFE00) as usize] = value;
        } else if addr <= 0xFEFF {
        } else if addr <= 0xFF7F {
            self.io[(addr - 0xFF00) as usize] = value;
        } else if addr <= 0xFFFE {
            self.hram[(addr - 0xFF80) as usize] = value;
        } else {
            self.ie = value;
        }
    }

    /// Writes to the ROM area go to the memory bank controller.
    fn mbc_write(&mut self, addr: u16, value: u8)
        requires
            addr <= 0x7FFF,
            old(self)@.wf(),
            old(self)@.write_defined(addr),
        ensures
            final(self)@ == old(self)@.mbc_write(addr, value),
            final(self).cartridge_value() == old(self).cartridge_value(),
    {
        match self.cartridge.header.cartridge_type {
            CartridgeType::Mbc1 | CartridgeType::Mbc1Ram => {
                self.mbc1_write(addr, value);
            },
            CartridgeType::Mbc3 | CartridgeType::Mbc3Ram => {
                self.mbc3_write(addr, value);
            },
            CartridgeType::Mbc5 | CartridgeType::Mbc5Ram => {
                self.mbc5_write(addr, value);
            },
            _ => {},
        }
    }

    fn mbc1_write(&mut self, addr: u16, value: u8)
        requires
            addr <= 0x7FFF,
            is_mbc1(old(self)@.cartridge_type),
            old(self)@.wf(),
            old(self)@.write_defined(addr),
        ensures
            final(self)@ == old(self)@.mbc1_write(addr, value),
            final(self).cartridge_value() == old(self).cartridge_value(),
    {
        proof {
            lemma_bank_bits(self.rom_bank, value);
            lemma_bank_bits(self.rom_bank, self.mbc1_upper_bits);
        }
        if addr <= 0x1FFF {
            self.ram_enabled = (value & 0x0F) == 0x0A;
        } else if addr <= 0x3FFF {
            let mut bank = (value & 0x1F) as usize;
            if bank == 0 {
                bank = 1;
            }
            if self.mbc1_mode == 0 {
                bank = bank | ((self.mbc1_upper_bits as usize) << 5);
            }
            let max_banks = self.cartridge.rom.len() / 0x4000;
            self.rom_bank = bank % max_banks;
        } else if addr <= 0x5FFF {
            self.mbc1_upper_bits = value & 0x03;
            if self.mbc1_mode == 0 {
                let lower_bits = self.rom_bank & 0x1F;
                let mut bank = lower_bits | ((self.mbc1_upper_bits as usize) << 5);
                if bank == 0 {
                    bank = 1;
                }
                let max_banks = self.cartridge.rom.len() / 0x4000;
                self.rom_bank = bank % max_banks;
            } else {
                self.ram_bank = (self.mbc1_upper_bits & 0x03) as usize;
            }
        } else {
            self.mbc1_mode = value & 0x01;
            if self.mbc1_mode == 0 {
                self.ram_bank = 0;
            } else {
                self.rom_bank = self.rom_bank & 0x1F;
                if self.rom_bank == 0 {
                    self.rom_bank = 1;
                }
            }
        }
    }

    fn mbc3_write(&mut self, addr: u16, value: u8)
        requires
            addr <= 0x7FFF,
            is_mbc3(old(self)@.cartridge_type),
            old(self)@.wf(),
            old(self)@.write_defined(addr),
        ensures
            final(self)@ == old(self)@.mbc3_write(addr, value),
            final(self).cartridge_value() == old(self).cartridge_value(),
    {
        if addr <= 0x1FFF {
            self.ram_enabled = (value & 0x0F) == 0x0A;
        } else if addr <= 0x3FFF {
            let mut bank = (value & 0x7F) as usize;
            if bank == 0 {
                bank = 1;
            }
            let max_banks = self.cartridge.rom.len() / 0x4000;
            self.rom_bank = bank % max_banks;
        } else if addr <= 0x5FFF {
            if value <= 0x03 {
                self.ram_bank = (value & 0x03) as usize;
            }
        }
    }

    fn mbc5_write(&mut self, addr: u16, value: u8)
        requires
            addr <= 0x7FFF,
            is_mbc5(old(self)@.cartridge_type),
            old(self)@.wf(),
            old(self)@.write_defined(addr),
        ensures
            final(self)@ == old(self)@.mbc5_write(addr, value),
            final(self).cartridge_value() == old(self).cartridge_value(),
    {
        proof {
            lemma_bank_bits(self.rom_bank, value);
        }
        if addr <= 0x1FFF {
            self.ram_enabled = (value & 0x0F) == 0x0A;
        } else if addr <= 0x2FFF {
            let lower = value as usize;
            let upper = (self.rom_bank >> 8) & 0x01;
            self.rom_bank = (upper << 8) | lower;
            let max_banks = self.cartridge.rom.len() / 0x4000;
            if self.rom_bank >= max_banks {
                self.rom_bank = self.rom_bank % max_banks;
            }
        } else if addr <= 0x3FFF {
            let lower = self.rom_bank & 0xFF;
            let upper = (value as usize) & 0x01;
            self.rom_bank = (upper << 8) | lower;
            let max_banks = self.cartridge.rom.len() / 0x4000;
            if self.rom_bank >= max_banks {
                self.rom_bank = self.rom_bank % max_banks;
            }
        } else if addr <= 0x5FFF {
            self.ram_bank = (value & 0x0F) as usize;
        }
    }

    /// Video RAM, for rendering.
    pub fn vram(&self) -> (r: &[u8])
        ensures
            r@ == self@.vram,
    {
        self.vram.as_slice()
    }

    /// Sprite attribute memory, for rendering.
    pub fn oam(&self) -> (r: &[u8])
        ensures
            r@ == self@.oam,
    {
        self.oam.as_slice()
    }
}

impl Mmu {
    /// Whether a write at `addr` is defined with MBC1 banking mode `mode`.
    fn write_defined_in_mode(&self, mode: u8, addr: u16) -> (r: bool)
        ensures
            r == (MmuModel { mbc1_mode: mode, ..self@ }).write_defined(addr),
    {
        let t = self.cartridge.header.cartridge_type;
        let is_mbc1 = t == CartridgeType::Mbc1 || t == CartridgeType::Mbc1Ram;
        let is_mbc3 = t == CartridgeType::Mbc3 || t == CartridgeType::Mbc3Ram;
        let is_mbc5 = t == CartridgeType::Mbc5 || t == CartridgeType::Mbc5Ram;
        let bank_select = 0x2000 <= addr && addr <= 0x3FFF;
        let faulting = (is_mbc1 && bank_select) || (is_mbc1 && 0x4000 <= addr && addr <= 0x5FFF
            && mode == 0) || (is_mbc3 && bank_select) || (is_mbc5 && bank_select);
        self.cartridge.rom.len() >= 0x4000 || !faulting
    }
}

impl Memory for Mmu {
    type Model = MmuModel;

    open spec fn model(&self) -> MmuModel {
        self@
    }

    open spec fn model_inv(m: MmuModel) -> bool {
        m.wf()
    }

    open spec fn model_read(m: MmuModel, addr: u16) -> u8 {
        m.read(addr)
    }

    open spec fn model_write(m: MmuModel, addr: u16, value: u8) -> MmuModel {
        m.write(addr, value)
    }

    open spec fn model_write_defined(m: MmuModel, addr: u16) -> bool {
        m.write_defined(addr)
    }

    proof fn lemma_write_keeps_inv(m: MmuModel, addr: u16, value: u8) {
        lemma_write_wf(m, addr, value);
    }

    proof fn lemma_high_writes_defined(m: MmuModel, addr: u16) {
    }

    proof fn lemma_high_write_keeps_defined(m: MmuModel, first: u16, value: u8, addr: u16) {
    }

    proof fn lemma_high_write_keeps_defined_after(
        m: MmuModel,
        first: u16,
        value: u8,
        second: u16,
        value2: u8,
        addr: u16,
    ) {
    }

    fn write_defined(&self, addr: u16) -> (r: bool) {
        self.write_defined_in_mode(self.mbc1_mode, addr)
    }

    fn write_defined_after(&self, first: u16, value: u8, addr: u16) -> (r: bool) {
        let t = self.cartridge.header.cartridge_type;
        let is_mbc1 = t == CartridgeType::Mbc1 || t == CartridgeType::Mbc1Ram;
        let mode = if is_mbc1 && 0x6000 <= first && first <= 0x7FFF {
            value & 0x01
        } else {
            self.mbc1_mode
        };
        self.write_defined_in_mode(mode, addr)
    }

    fn read(&self, addr: u16) -> (r: u8) {
        Mmu::read(self, addr)
    }

    fn write(&mut self, addr: u16, value: u8) {
        Mmu::write(self, addr, value)
    }
}

} // verus!
