//! Cartridge header and ROM tests.
use rgb_core::cartridge::{Cartridge, CartridgeHeader, CartridgeType};

#[test]
fn test_cartridge_type_from_byte() {
    assert_eq!(CartridgeType::from_byte(0x00), CartridgeType::RomOnly);
    assert_eq!(CartridgeType::from_byte(0x01), CartridgeType::Mbc1);
    assert_eq!(CartridgeType::from_byte(0x02), CartridgeType::Mbc1Ram);
    assert_eq!(CartridgeType::from_byte(0x03), CartridgeType::Mbc1Ram); // Battery treated as RAM
    assert_eq!(CartridgeType::from_byte(0x11), CartridgeType::Mbc3);
    assert_eq!(CartridgeType::from_byte(0x13), CartridgeType::Mbc3Ram);
    assert_eq!(CartridgeType::from_byte(0x19), CartridgeType::Mbc5);
    assert_eq!(CartridgeType::from_byte(0x1B), CartridgeType::Mbc5Ram);

    if let CartridgeType::Unsupported(0xFD) = CartridgeType::from_byte(0xFD) {
        // Correct - TAMA5 is unsupported
    } else {
        panic!("Expected Unsupported variant");
    }
}

#[test]
fn test_cartridge_type_has_ram() {
    assert!(!CartridgeType::RomOnly.has_ram());
    assert!(!CartridgeType::Mbc1.has_ram());
    assert!(CartridgeType::Mbc1Ram.has_ram());
    assert!(!CartridgeType::Mbc3.has_ram());
    assert!(CartridgeType::Mbc3Ram.has_ram());
    assert!(!CartridgeType::Mbc5.has_ram());
    assert!(CartridgeType::Mbc5Ram.has_ram());
}

#[test]
fn test_parse_header_too_small() {
    let rom = vec![0; 0x100];
    let result = CartridgeHeader::parse(&rom);
    assert!(result.is_err());
    assert!(result.unwrap_err().contains("too small"));
}

#[test]
fn test_parse_header_checksum_mismatch() {
    let mut rom = vec![0; 0x0150];
    rom[0x0147] = 0x00; // ROM ONLY
    rom[0x0148] = 0x00; // 32 KiB
    rom[0x0149] = 0x00; // No RAM
    rom[0x014D] = 0xFF; // Invalid checksum

    let result = CartridgeHeader::parse(&rom);
    assert!(result.is_err());
    assert!(result.unwrap_err().contains("checksum mismatch"));
}

#[test]
fn test_parse_header_valid() {
    let mut rom = vec![0; 0x8000]; // 32 KiB ROM

    // Set title
    rom[0x0134..0x013C].copy_from_slice(b"TESTGAME");

    // Set cartridge type (MBC1+RAM)
    rom[0x0147] = 0x02;

    // Set ROM size (32 KiB)
    rom[0x0148] = 0x00;

    // Set RAM size (8 KiB)
    rom[0x0149] = 0x02;

    // Calculate and set header checksum
    let mut checksum: u8 = 0;
    for &byte in &rom[0x0134..=0x014C] {
        checksum = checksum.wrapping_sub(byte).wrapping_sub(1);
    }
    rom[0x014D] = checksum;

    let header = CartridgeHeader::parse(&rom).unwrap();

    assert_eq!(header.title, "TESTGAME");
    assert_eq!(header.cartridge_type, CartridgeType::Mbc1Ram);
    assert_eq!(header.rom_size, 32 * 1024);
    assert_eq!(header.ram_size, 8 * 1024);
}

#[test]
fn test_parse_header_checksum_fail() {
    let mut rom = vec![0; 0x8000];
    rom[0x0147] = 0x00;
    rom[0x0148] = 0x00;
    rom[0x0149] = 0x00;
    rom[0x014D] = 0xFF; // Wrong checksum

    let result = CartridgeHeader::parse(&rom);
    assert!(result.is_err());
    assert!(result.unwrap_err().contains("checksum mismatch"));
}

#[test]
fn test_cartridge_read() {
    let mut rom = vec![0; 0x8000];
    rom[0x0147] = 0x00; // ROM ONLY
    rom[0x0148] = 0x00; // 32 KiB
    rom[0x0149] = 0x00; // No RAM

    // Calculate checksum
    let mut checksum: u8 = 0;
    for &byte in &rom[0x0134..=0x014C] {
        checksum = checksum.wrapping_sub(byte).wrapping_sub(1);
    }
    rom[0x014D] = checksum;

    // Set some test data
    rom[0x0100] = 0xAB;
    rom[0x1000] = 0xCD;

    let cartridge = Cartridge::from_bytes(rom).unwrap();

    assert_eq!(cartridge.read(0x0100), 0xAB);
    assert_eq!(cartridge.read(0x1000), 0xCD);
    assert_eq!(cartridge.read(0xFFFF), 0xFF); // Out of bounds
}

#[test]
fn test_rom_size_calculations() {
    let sizes = vec![
        (0x00, 32 * 1024),
        (0x01, 64 * 1024),
        (0x02, 128 * 1024),
        (0x03, 256 * 1024),
        (0x04, 512 * 1024),
        (0x05, 1024 * 1024),
        (0x06, 2 * 1024 * 1024),
        (0x07, 4 * 1024 * 1024),
    ];

    for (code, expected_size) in sizes {
        let mut rom = vec![0; expected_size];
        rom[0x0147] = 0x00;
        rom[0x0148] = code;
        rom[0x0149] = 0x00;

        let mut checksum: u8 = 0;
        for &byte in &rom[0x0134..=0x014C] {
            checksum = checksum.wrapping_sub(byte).wrapping_sub(1);
        }
        rom[0x014D] = checksum;

        let header = CartridgeHeader::parse(&rom).unwrap();
        assert_eq!(header.rom_size, expected_size);
    }
}

#[test]
fn test_ram_size_calculations() {
    let sizes = vec![
        (0x00, 0),
        (0x01, 2 * 1024),
        (0x02, 8 * 1024),
        (0x03, 32 * 1024),
        (0x04, 128 * 1024),
        (0x05, 64 * 1024),
    ];

    for (code, expected_size) in sizes {
        let mut rom = vec![0; 0x8000];
        rom[0x0147] = 0x00;
        rom[0x0148] = 0x00;
        rom[0x0149] = code;

        let mut checksum: u8 = 0;
        for &byte in &rom[0x0134..=0x014C] {
            checksum = checksum.wrapping_sub(byte).wrapping_sub(1);
        }
        rom[0x014D] = checksum;

        let header = CartridgeHeader::parse(&rom).unwrap();
        assert_eq!(header.ram_size, expected_size);
    }
}
