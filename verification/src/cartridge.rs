//! Game Boy cartridges: ROM images and their headers.
//!
//! Supports the first Game Boy (DMG) only, and the most common cartridge types:
//! ROM ONLY, MBC1, MBC3 and MBC5.  The Nintendo logo is not verified and no
//! boot ROM is used: the system state starts at its post-boot values.
use vstd::prelude::*;
use crate::text::{
    decode_utf8_lossy, chars_of, string_from_chars, trim_title, utf8_lossy, trim_end_nul,
    trim_white, decimal, hex2, decimal_string, hex2_string,
};

verus! {

/// Cartridge type, naming the Memory Bank Controller (MBC).
#[derive(Debug, Clone, Copy, PartialEq, Eq, Structural)]
pub enum CartridgeType {
    RomOnly,
    Mbc1,
    Mbc1Ram,
    Mbc3,
    Mbc3Ram,
    Mbc5,
    Mbc5Ram,
    Unsupported(u8),
}

impl CartridgeType {
    /// The type that header byte 0x0147 announces; the battery-backed
    /// variants count as their RAM variants.
    pub open spec fn spec_from_byte(byte: u8) -> CartridgeType {
        if byte == 0x00 {
            CartridgeType::RomOnly
        } else if byte == 0x01 {
            CartridgeType::Mbc1
        } else if byte == 0x02 || byte == 0x03 {
            CartridgeType::Mbc1Ram
        } else if byte == 0x11 {
            CartridgeType::Mbc3
        } else if byte == 0x12 || byte == 0x13 {
            CartridgeType::Mbc3Ram
        } else if byte == 0x19 {
            CartridgeType::Mbc5
        } else if byte == 0x1A || byte == 0x1B {
            CartridgeType::Mbc5Ram
        } else {
            CartridgeType::Unsupported(byte)
        }
    }

    /// Parse the cartridge type from the byte at 0x0147.
    pub fn from_byte(byte: u8) -> (r: Self)
        ensures
            r == Self::spec_from_byte(byte),
    {
        match byte {
            0x00 => CartridgeType::RomOnly,
            0x01 => CartridgeType::Mbc1,
            0x02 => CartridgeType::Mbc1Ram,
            0x03 => CartridgeType::Mbc1Ram,
            0x11 => CartridgeType::Mbc3,
            0x12 => CartridgeType::Mbc3Ram,
            0x13 => CartridgeType::Mbc3Ram,
            0x19 => CartridgeType::Mbc5,
            0x1A => CartridgeType::Mbc5Ram,
            0x1B => CartridgeType::Mbc5Ram,
            _ => CartridgeType::Unsupported(byte),
        }
    }

    pub open spec fn spec_has_ram(self) -> bool {
        self == CartridgeType::Mbc1Ram || self == CartridgeType::Mbc3Ram || self
            == CartridgeType::Mbc5Ram
    }

    /// Whether this cartridge type includes RAM.
    pub fn has_ram(&self) -> (r: bool)
        ensures
            r == self.spec_has_ram(),
    {
        match self {
            CartridgeType::Mbc1Ram | CartridgeType::Mbc3Ram | CartridgeType::Mbc5Ram => true,
            _ => false,
        }
    }

    /// The name under which this type is displayed.
    pub open spec fn spec_name(self) -> Seq<char> {
        match self {
            CartridgeType::RomOnly => "ROM ONLY"@,
            CartridgeType::Mbc1 => "MBC1"@,
            CartridgeType::Mbc1Ram => "MBC1+RAM"@,
            CartridgeType::Mbc3 => "MBC3"@,
            CartridgeType::Mbc3Ram => "MBC3+RAM"@,
            CartridgeType::Mbc5 => "MBC5"@,
            CartridgeType::Mbc5Ram => "MBC5+RAM"@,
            CartridgeType::Unsupported(byte) => "UNSUPPORTED (0x"@ + hex2(byte) + ")"@,
        }
    }

    /// The name under which this type is displayed, such as `MBC1+RAM`.
    pub fn name(&self) -> (s: String)
        ensures
            s@ == self.spec_name(),
    {
        match self {
            CartridgeType::RomOnly => String::from_str("ROM ONLY"),
            CartridgeType::Mbc1 => String::from_str("MBC1"),
            CartridgeType::Mbc1Ram => String::from_str("MBC1+RAM"),
            CartridgeType::Mbc3 => String::from_str("MBC3"),
            CartridgeType::Mbc3Ram => String::from_str("MBC3+RAM"),
            CartridgeType::Mbc5 => String::from_str("MBC5"),
            CartridgeType::Mbc5Ram => String::from_str("MBC5+RAM"),
            CartridgeType::Unsupported(byte) => unsupported_name(*byte),
        }
    }
}

/// The name of an unsupported cartridge type: `UNSUPPORTED (0xNN)`.
fn unsupported_name(byte: u8) -> (s: String)
    ensures
        s@ == "UNSUPPORTED (0x"@ + hex2(byte) + ")"@,
{
    let mut s = String::from_str("UNSUPPORTED (0x");
    let hex = hex2_string(byte);
    s.append(hex.as_str());
    s.append(")");
    s
}

/// ROM size announced by header code `code` (byte 0x0148): 32 KiB times
/// `2^code`, for codes 0 to 8.
pub open spec fn rom_size_of_code(code: u8) -> Option<usize> {
    if code <= 8 {
        Some((0x8000 * pow2_nat(code as nat)) as usize)
    } else {
        None
    }
}

pub open spec fn pow2_nat(n: nat) -> nat
    decreases n,
{
    if n == 0 {
        1
    } else {
        2 * pow2_nat((n - 1) as nat)
    }
}

/// RAM size announced by header code `code` (byte 0x0149).
pub open spec fn ram_size_of_code(code: u8) -> Option<usize> {
    if code == 0 {
        Some(0)
    } else if code == 1 {
        Some((2 * 1024) as usize)
    } else if code == 2 {
        Some((8 * 1024) as usize)
    } else if code == 3 {
        Some((32 * 1024) as usize)
    } else if code == 4 {
        Some((128 * 1024) as usize)
    } else if code == 5 {
        Some((64 * 1024) as usize)
    } else {
        None
    }
}

/// Sum of the bytes of `s`.
pub open spec fn byte_sum(s: Seq<u8>) -> int
    decreases s.len(),
{
    if s.len() == 0 {
        0
    } else {
        byte_sum(s.drop_last()) + s.last()
    }
}

/// The header checksum of `rom`: for each byte of 0x0134-0x014C, subtract
/// the byte and 1, modulo 256.
pub open spec fn header_checksum(rom: Seq<u8>) -> u8 {
    ((-(byte_sum(rom.subrange(0x134, 0x14D)) + 25)) % 256) as u8
}

/// The title stored at 0x0134-0x0143: decoded, without trailing NULs and
/// without surrounding white space.
pub open spec fn header_title(rom: Seq<u8>) -> Seq<char> {
    trim_white(trim_end_nul(utf8_lossy(rom.subrange(0x134, 0x144))))
}

/// Why a ROM image has no valid header.
#[derive(Debug, Clone, Copy, PartialEq, Eq, Structural)]
pub enum HeaderError {
    /// The image is shorter than the header (0x0150 bytes); holds its length.
    TooSmall(usize),
    /// Unknown ROM size code.
    UnknownRomSize(u8),
    /// Unknown RAM size code.
    UnknownRamSize(u8),
    /// The computed checksum differs from the stored one.
    ChecksumMismatch { calculated: u8, expected: u8 },
}

/// The first problem found in the header of `rom`, if any.
pub open spec fn header_error(rom: Seq<u8>) -> Option<HeaderError> {
    if rom.len() < 0x150 {
        Some(HeaderError::TooSmall(rom.len() as usize))
    } else if rom_size_of_code(rom[0x148]) is None {
        Some(HeaderError::UnknownRomSize(rom[0x148]))
    } else if ram_size_of_code(rom[0x149]) is None {
        Some(HeaderError::UnknownRamSize(rom[0x149]))
    } else if header_checksum(rom) != rom[0x14D] {
        Some(HeaderError::ChecksumMismatch { calculated: header_checksum(rom), expected: rom[0x14D] })
    } else {
        None
    }
}

impl HeaderError {
    /// The message that describes this error.
    pub open spec fn spec_message(self) -> Seq<char> {
        match self {
            HeaderError::TooSmall(len) => "ROM too small: "@ + decimal(len as nat)
                + " bytes (minimum 0x0150 required)"@,
            HeaderError::UnknownRomSize(code) => "Unknown ROM size code: 0x"@ + hex2(code),
            HeaderError::UnknownRamSize(code) => "Unknown RAM size code: 0x"@ + hex2(code),
            HeaderError::ChecksumMismatch { calculated, expected } =>
                "Header checksum mismatch: calculated 0x"@ + hex2(calculated) + ", expected 0x"@
                + hex2(expected),
        }
    }

    /// The message that describes this error.
    pub fn message(&self) -> (s: String)
        ensures
            s@ == self.spec_message(),
    {
        match self {
            HeaderError::TooSmall(len) => too_small_message(*len),
            HeaderError::UnknownRomSize(code) => unknown_rom_size_message(*code),
            HeaderError::UnknownRamSize(code) => unknown_ram_size_message(*code),
            HeaderError::ChecksumMismatch { calculated, expected } => checksum_message(
                *calculated,
                *expected,
            ),
        }
    }
}

/// `ROM too small: N bytes (minimum 0x0150 required)`.
fn too_small_message(len: usize) -> (s: String)
    ensures
        s@ == "ROM too small: "@ + decimal(len as nat) + " bytes (minimum 0x0150 required)"@,
{
    let mut s = String::from_str("ROM too small: ");
    let digits = decimal_string(len as u64);
    s.append(digits.as_str());
    s.append(" bytes (minimum 0x0150 required)");
    s
}

/// `Unknown ROM size code: 0xNN`.
fn unknown_rom_size_message(code: u8) -> (s: String)
    ensures
        s@ == "Unknown ROM size code: 0x"@ + hex2(code),
{
    let mut s = String::from_str("Unknown ROM size code: 0x");
    let hex = hex2_string(code);
    s.append(hex.as_str());
    s
}

/// `Unknown RAM size code: 0xNN`.
fn unknown_ram_size_message(code: u8) -> (s: String)
    ensures
        s@ == "Unknown RAM size code: 0x"@ + hex2(code),
{
    let mut s = String::from_str("Unknown RAM size code: 0x");
    let hex = hex2_string(code);
    s.append(hex.as_str());
    s
}

/// `Header checksum mismatch: calculated 0xNN, expected 0xNN`.
fn checksum_message(calculated: u8, expected: u8) -> (s: String)
    ensures
        s@ == "Header checksum mismatch: calculated 0x"@ + hex2(calculated) + ", expected 0x"@
            + hex2(expected),
{
    let mut s = String::from_str("Header checksum mismatch: calculated 0x");
    let first = hex2_string(calculated);
    s.append(first.as_str());
    s.append(", expected 0x");
    let second = hex2_string(expected);
    s.append(second.as_str());
    s
}

/// Game Boy cartridge header information.
#[derive(Debug, Clone)]
pub struct CartridgeHeader {
    /// Game title (0x0134-0x0143).
    pub title: String,
    /// Cartridge type (0x0147).
    pub cartridge_type: CartridgeType,
    /// ROM size in bytes (0x0148).
    pub rom_size: usize,
    /// RAM size in bytes (0x0149).
    pub ram_size: usize,
    /// ROM version (0x014C).
    pub rom_version: u8,
    /// Header checksum (0x014D).
    pub header_checksum: u8,
}

impl CartridgeHeader {
    /// `self` holds the header of `rom`, which has no header error.
    pub open spec fn describes(self, rom: Seq<u8>) -> bool {
        &&& self.title@ == header_title(rom)
        &&& self.cartridge_type == CartridgeType::spec_from_byte(rom[0x147])
        &&& self.rom_size == rom_size_of_code(rom[0x148]).unwrap()
        &&& self.ram_size == ram_size_of_code(rom[0x149]).unwrap()
        &&& self.rom_version == rom[0x14C]
        &&& self.header_checksum == rom[0x14D]
    }

    /// Parse the cartridge header from ROM data, reporting the first problem
    /// found: a short image, an unknown ROM or RAM size code, or a checksum
    /// mismatch.
    pub fn parse_checked(rom: &[u8]) -> (r: Result<Self, HeaderError>)
        ensures
            r is Ok <==> header_error(rom@) is None,
            r matches Ok(h) ==> h.describes(rom@),
            r matches Err(e) ==> header_error(rom@) == Some(e),
    {
        if rom.len() < 0x0150 {
            return Err(HeaderError::TooSmall(rom.len()));
        }
        let title = header_title_of(rom);
        let cartridge_type = CartridgeType::from_byte(rom[0x0147]);
        let rom_size_code = rom[0x0148];
        let rom_size = match rom_size_for_code(rom_size_code) {
            Some(size) => size,
            None => {
                return Err(HeaderError::UnknownRomSize(rom_size_code));
            },
        };
        let ram_size_code = rom[0x0149];
        let ram_size = match ram_size_for_code(ram_size_code) {
            Some(size) => size,
            None => {
                return Err(HeaderError::UnknownRamSize(ram_size_code));
            },
        };
        let rom_version = rom[0x014C];
        let header_checksum = rom[0x014D];
        let checksum = compute_header_checksum(rom);
        if checksum != header_checksum {
            return Err(
                HeaderError::ChecksumMismatch { calculated: checksum, expected: header_checksum },
            );
        }
        Ok(CartridgeHeader { title, cartridge_type, rom_size, ram_size, rom_version, header_checksum })
    }

    /// Parse the cartridge header from ROM data (at least 0x0150 bytes); the
    /// error is the message of the first problem found.
    pub fn parse(rom: &[u8]) -> (r: Result<Self, String>)
        ensures
            r is Ok <==> header_error(rom@) is None,
            r matches Ok(h) ==> h.describes(rom@),
            r matches Err(msg) ==> msg@ == header_error(rom@).unwrap().spec_message(),
    {
        match Self::parse_checked(rom) {
            Ok(h) => Ok(h),
            Err(e) => Err(e.message()),
        }
    }

    /// The information block shown for a cartridge.
    pub open spec fn spec_describe(self) -> Seq<char> {
        "=== Cartridge Information ===\nTitle: "@ + self.title@ + "\nCartridge Type: "@
            + self.cartridge_type.spec_name() + "\nROM Size: "@ + decimal(
            (self.rom_size / 1024) as nat,
        ) + " KiB\nRAM Size: "@ + decimal((self.ram_size / 1024) as nat) + " KiB\nVersion: "@
            + decimal(self.rom_version as nat) + "\n"@
    }

    /// The information block shown for a cartridge: title, type, ROM and
    /// RAM sizes in KiB and version, one per line under a heading.
    pub fn describe(&self) -> (s: String)
        ensures
            s@ == self.spec_describe(),
    {
        let mut s = String::from_str("=== Cartridge Information ===\nTitle: ");
        s.append(self.title.as_str());
        s.append("\nCartridge Type: ");
        let name = self.cartridge_type.name();
        s.append(name.as_str());
        s.append("\nROM Size: ");
        let rom_kib = decimal_string((self.rom_size / 1024) as u64);
        s.append(rom_kib.as_str());
        s.append(" KiB\nRAM Size: ");
        let ram_kib = decimal_string((self.ram_size / 1024) as u64);
        s.append(ram_kib.as_str());
        s.append(" KiB\nVersion: ");
        let version = decimal_string(self.rom_version as u64);
        s.append(version.as_str());
        s.append("\n");
        s
    }
}

/// The title of the header of `rom`.
fn header_title_of(rom: &[u8]) -> (s: String)
    requires
        rom@.len() >= 0x150,
    ensures
        s@ == header_title(rom@),
{
    let mut bytes: Vec<u8> = Vec::new();
    let mut i: usize = 0x0134;
    while i <= 0x0143
        invariant
            0x134 <= i <= 0x144,
            rom@.len() >= 0x150,
            bytes@ == rom@.subrange(0x134, i as int),
        decreases 0x144 - i,
    {
        bytes.push(rom[i]);
        assert(bytes@ =~= rom@.subrange(0x134, i + 1));
        i = i + 1;
    }
    let decoded = decode_utf8_lossy(bytes.as_slice());
    let chars = chars_of(decoded.as_str());
    let trimmed = trim_title(&chars);
    string_from_chars(trimmed)
}

fn rom_size_for_code(code: u8) -> (r: Option<usize>)
    ensures
        r == rom_size_of_code(code),
{
    proof {
        reveal_with_fuel(pow2_nat, 9);
    }
    match code {
        0x00 => Some(32 * 1024),
        0x01 => Some(64 * 1024),
        0x02 => Some(128 * 1024),
        0x03 => Some(256 * 1024),
        0x04 => Some(512 * 1024),
        0x05 => Some(1024 * 1024),
        0x06 => Some(2 * 1024 * 1024),
        0x07 => Some(4 * 1024 * 1024),
        0x08 => Some(8 * 1024 * 1024),
        _ => None,
    }
}

fn ram_size_for_code(code: u8) -> (r: Option<usize>)
    ensures
        r == ram_size_of_code(code),
{
    match code {
        0x00 => Some(0),
        0x01 => Some(2 * 1024),
        0x02 => Some(8 * 1024),
        0x03 => Some(32 * 1024),
        0x04 => Some(128 * 1024),
        0x05 => Some(64 * 1024),
        _ => None,
    }
}

proof fn lemma_byte_sum_push(s: Seq<u8>, b: u8)
    ensures
        byte_sum(s.push(b)) == byte_sum(s) + b,
{
    assert(s.push(b).drop_last() =~= s);
}

/// The checksum of the header bytes 0x0134-0x014C.
pub fn compute_header_checksum(rom: &[u8]) -> (r: u8)
    requires
        rom@.len() >= 0x14D,
    ensures
        r == header_checksum(rom@),
{
    let mut checksum: u8 = 0;
    let mut i: usize = 0x0134;
    while i <= 0x014C
        invariant
            0x134 <= i <= 0x14D,
            rom@.len() >= 0x14D,
            checksum as int == (-(byte_sum(rom@.subrange(0x134, i as int)) + (i - 0x134))) % 256,
        decreases 0x14D - i,
    {
        let byte = rom[i];
        proof {
            lemma_byte_sum_push(rom@.subrange(0x134, i as int), byte);
            assert(rom@.subrange(0x134, i as int).push(byte) =~= rom@.subrange(0x134, i + 1));
            let s = byte_sum(rom@.subrange(0x134, i as int));
            let k = i - 0x134;
            let c = checksum as int;
            assert(((c - byte) % 256 - 1) % 256 == (-(s + byte) - (k + 1)) % 256) by (nonlinear_arith)
                requires
                    c == (-s - k) % 256,
            ;
        }
        checksum = checksum.wrapping_sub(byte).wrapping_sub(1);
        i = i + 1;
    }
    checksum
}

/// The checksum covers 0x0134-0x014C only: storing it at 0x014D makes the
/// header of an image of at least 0x0150 bytes with known size codes valid.
pub proof fn law_stored_checksum_valid(rom: Seq<u8>)
    requires
        rom.len() >= 0x150,
        rom_size_of_code(rom[0x148]) is Some,
        ram_size_of_code(rom[0x149]) is Some,
    ensures
        header_error(rom.update(0x14D, header_checksum(rom))) is None,
{
    let r = rom.update(0x14D, header_checksum(rom));
    assert(r.subrange(0x134, 0x14D) =~= rom.subrange(0x134, 0x14D));
}

/// A loaded Game Boy cartridge.
#[derive(Debug, Clone)]
pub struct Cartridge {
    /// Cartridge header information.
    pub header: CartridgeHeader,
    /// ROM data.
    pub rom: Vec<u8>,
}

#[verifier::external_type_specification]
#[verifier::external_body]
pub struct ExIoError(std::io::Error);

/// An error of kind `InvalidData` carrying `message`.
///
/// Calls `std::io::Error::new`; nothing is claimed of the error value.
#[verifier::external_body]
fn invalid_data_error(message: String) -> std::io::Error {
    std::io::Error::new(std::io::ErrorKind::InvalidData, message)
}

impl Cartridge {
    /// Create a cartridge from ROM bytes; fails with an `InvalidData` error
    /// carrying the header problem when the header is not valid.
    pub fn from_bytes(rom: Vec<u8>) -> (r: std::io::Result<Self>)
        ensures
            r is Ok <==> header_error(rom@) is None,
            r matches Ok(c) ==> c.rom@ == rom@ && c.header.describes(rom@),
    {
        match CartridgeHeader::parse(rom.as_slice()) {
            Ok(header) => Ok(Cartridge { header, rom }),
            Err(e) => Err(invalid_data_error(e)),
        }
    }

    /// The byte of the ROM at `addr`, or 0xFF beyond its end.
    pub open spec fn spec_read(self, addr: u16) -> u8 {
        if (addr as int) < self.rom@.len() {
            self.rom@[addr as int]
        } else {
            0xFF
        }
    }

    /// Read a byte from ROM at `addr`; 0xFF if the address is out of bounds.
    pub fn read(&self, addr: u16) -> (r: u8)
        ensures
            r == self.spec_read(addr),
    {
        let addr = addr as usize;
        if addr < self.rom.len() {
            self.rom[addr]
        } else {
            0xFF
        }
    }
}

} // verus!
