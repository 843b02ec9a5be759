//! Memory map tests.
use rgb_core::cartridge::Cartridge;
use rgb_core::mmu::Mmu;

/// Helper to create a test cartridge with ROM ONLY
fn create_test_cartridge(rom_size: usize) -> Cartridge {
    let mut rom = vec![0; rom_size];
    rom[0x0147] = 0x00; // ROM ONLY
    rom[0x0148] = if rom_size == 32 * 1024 {
        0x00
    } else if rom_size == 64 * 1024 {
        0x01
    } else if rom_size == 128 * 1024 {
        0x02
    } else {
        0x00
    };
    rom[0x0149] = 0x00; // No RAM

    // Calculate header checksum
    let mut checksum: u8 = 0;
    for &byte in &rom[0x0134..=0x014C] {
        checksum = checksum.wrapping_sub(byte).wrapping_sub(1);
    }
    rom[0x014D] = checksum;

    Cartridge::from_bytes(rom).unwrap()
}

#[test]
fn test_mmu_rom_bank_0() {
    let cart = create_test_cartridge(32 * 1024);
    let mmu = Mmu::new(cart);

    // Read from ROM bank 0
    assert_eq!(mmu.read(0x0000), 0x00);
    assert_eq!(mmu.read(0x3FFF), 0x00);
}

#[test]
fn test_mmu_wram_read_write() {
    let cart = create_test_cartridge(32 * 1024);
    let mut mmu = Mmu::new(cart);

    // Write to WRAM
    mmu.write(0xC000, 0xAB);
    mmu.write(0xDFFF, 0xCD);

    // Read back
    assert_eq!(mmu.read(0xC000), 0xAB);
    assert_eq!(mmu.read(0xDFFF), 0xCD);
}

#[test]
fn test_mmu_echo_ram() {
    let cart = create_test_cartridge(32 * 1024);
    let mut mmu = Mmu::new(cart);

    // Write to WRAM
    mmu.write(0xC100, 0x42);

    // Read from echo RAM (should mirror WRAM)
    assert_eq!(mmu.read(0xE100), 0x42);

    // Write to echo RAM
    mmu.write(0xE200, 0x99);

    // Should be visible in WRAM
    assert_eq!(mmu.read(0xC200), 0x99);
}

#[test]
fn test_mmu_hram() {
    let cart = create_test_cartridge(32 * 1024);
    let mut mmu = Mmu::new(cart);

    mmu.write(0xFF80, 0x11);
    mmu.write(0xFFFE, 0x22);

    assert_eq!(mmu.read(0xFF80), 0x11);
    assert_eq!(mmu.read(0xFFFE), 0x22);
}

#[test]
fn test_mmu_prohibited_area() {
    let cart = create_test_cartridge(32 * 1024);
    let mut mmu = Mmu::new(cart);

    // Writes to prohibited area should be ignored
    mmu.write(0xFEA0, 0xFF);

    // Reads should return 0xFF
    assert_eq!(mmu.read(0xFEA0), 0xFF);
    assert_eq!(mmu.read(0xFEFF), 0xFF);
}

#[test]
fn test_mmu_interrupt_enable() {
    let cart = create_test_cartridge(32 * 1024);
    let mut mmu = Mmu::new(cart);

    mmu.write(0xFFFF, 0x1F);
    assert_eq!(mmu.read(0xFFFF), 0x1F);
}
