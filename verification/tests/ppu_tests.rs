//! PPU timing tests.
use rgb_core::ppu::{Mode, Ppu};

#[test]
fn test_ppu_ly_increment() {
    let mut ppu = Ppu::new();
    assert_eq!(ppu.read_ly(), 0);

    // Step by one scanline (456 cycles)
    ppu.step(456);
    assert_eq!(ppu.read_ly(), 1);

    // Step by another scanline
    ppu.step(456);
    assert_eq!(ppu.read_ly(), 2);
}

#[test]
fn test_ppu_ly_wraps_at_154() {
    let mut ppu = Ppu::new();

    // Step through all 154 lines
    ppu.step(456 * 154);
    assert_eq!(ppu.read_ly(), 0);
}

#[test]
fn test_vblank_detection() {
    let mut ppu = Ppu::new();
    assert!(!ppu.is_vblank());

    // Go to line 143 (last visible line)
    ppu.step(456 * 143);
    assert!(!ppu.is_vblank());

    // Go to line 144 (first V-Blank line)
    ppu.step(456);
    assert!(ppu.is_vblank());
    assert_eq!(ppu.read_ly(), 144);

    // Go to line 153 (last V-Blank line)
    ppu.step(456 * 9);
    assert!(ppu.is_vblank());
    assert_eq!(ppu.read_ly(), 153);

    // Wrap back to line 0
    ppu.step(456);
    assert!(!ppu.is_vblank());
    assert_eq!(ppu.read_ly(), 0);
}

#[test]
fn test_partial_cycles() {
    let mut ppu = Ppu::new();

    // Step by less than a scanline
    ppu.step(100);
    assert_eq!(ppu.read_ly(), 0);

    // Add enough to complete the scanline
    ppu.step(356);
    assert_eq!(ppu.read_ly(), 1);
}

#[test]
fn test_mode_transitions() {
    let mut ppu = Ppu::new();
    assert_eq!(ppu.mode(), Mode::HBlank);

    ppu.step(204);
    assert_eq!(ppu.read_ly(), 1);
    assert_eq!(ppu.mode(), Mode::OamSearch);

    ppu.step(80);
    assert_eq!(ppu.mode(), Mode::PixelTransfer);

    ppu.step(172);
    assert_eq!(ppu.mode(), Mode::HBlank);

    ppu.step(204);
    assert_eq!(ppu.read_ly(), 2);
    assert_eq!(ppu.mode(), Mode::OamSearch);
}

#[test]
fn test_vblank_interrupt() {
    let mut ppu = Ppu::new();
    assert!(!ppu.vblank_interrupt);

    // Go to line 144 (VBlank start)
    ppu.step(456 * 144);
    assert_eq!(ppu.read_ly(), 144);
    assert_eq!(ppu.mode(), Mode::VBlank);
    assert!(ppu.vblank_interrupt);
}

#[test]
fn test_stat_register() {
    let mut ppu = Ppu::new();

    assert_eq!(ppu.read_stat() & 0x03, Mode::HBlank as u8);

    ppu.step(204);
    assert_eq!(ppu.read_stat() & 0x03, Mode::OamSearch as u8);

    ppu.step(80);
    assert_eq!(ppu.read_stat() & 0x03, Mode::PixelTransfer as u8);

    ppu.step(172);
    assert_eq!(ppu.read_stat() & 0x03, Mode::HBlank as u8);
}

#[test]
fn test_lyc_comparison() {
    let mut ppu = Ppu::new();
    ppu.write_lyc(5);

    // LYC flag should be clear when LY != LYC
    assert_eq!(ppu.read_stat() & 0x04, 0);

    // Go to line 5
    ppu.step(456 * 5);
    assert_eq!(ppu.read_ly(), 5);

    // LYC flag should be set when LY == LYC
    assert_eq!(ppu.read_stat() & 0x04, 0x04);
}
