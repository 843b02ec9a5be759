//! Tests of the library's own properties: round trips, periods, errors and
//! messages.
use rgb_core::cartridge::{compute_header_checksum, Cartridge, CartridgeHeader, CartridgeType, HeaderError};
use rgb_core::context::SystemState;
use rgb_core::instructions::{
    add_a, call, daa, execute, next_opcode, opcode_implemented, pop_16bit, push_16bit, ret, service_interrupts,
};
use rgb_core::io::{DIV, IE, IF, LY, SCX, TAC};
use rgb_core::joypad::{Button, Joypad};
use rgb_core::memory::FlatMemory;
use rgb_core::mmu::Mmu;
use rgb_core::ppu::{framebuffer_rgba, Mode, Ppu};
use rgb_core::system::{update_timers, GameBoy};

type State = GameBoy<FlatMemory>;

/// A ROM image of `size` bytes with the given header codes and a valid
/// checksum.
fn rom_image(size: usize, kind: u8, rom_code: u8, ram_code: u8) -> Vec<u8> {
    let mut rom = vec![0u8; size];
    rom[0x0147] = kind;
    rom[0x0148] = rom_code;
    rom[0x0149] = ram_code;
    rom[0x014D] = compute_header_checksum(&rom);
    rom
}

#[test]
fn test_push_then_pop_gives_value_back() {
    let mut state = State::new();
    state.sp = 0xD000;
    push_16bit(0xBEEF, &mut state);
    assert_eq!(state.sp, 0xCFFE);
    assert_eq!(state.read(0xCFFF), 0xBE);
    assert_eq!(state.read(0xCFFE), 0xEF);
    assert_eq!(pop_16bit(&mut state), 0xBEEF);
    assert_eq!(state.sp, 0xD000);
}

#[test]
fn test_call_then_ret_returns_after_operand() {
    let mut state = State::new();
    state.sp = 0xD000;
    state.pc = 0x0200;
    state.write(0x0200, 0x34);
    state.write(0x0201, 0x12);
    call(&mut state);
    assert_eq!(state.pc, 0x1234);
    assert_eq!(state.sp, 0xCFFE);
    ret(&mut state);
    assert_eq!(state.pc, 0x0202);
    assert_eq!(state.sp, 0xD000);
}

#[test]
fn test_service_then_ret_resumes_interrupted_code() {
    let mut state = State::new();
    state.sp = 0xD000;
    state.pc = 0x1234;
    state.ime = true;
    state.write(IE, 0x05);
    state.write(IF, 0x04);
    assert!(service_interrupts(&mut state));
    assert_eq!(state.pc, 0x0050);
    assert!(!state.ime);
    assert_eq!(state.read(IF), 0x00);
    assert_eq!(state.cycles, 20);
    ret(&mut state);
    assert_eq!(state.pc, 0x1234);
    assert_eq!(state.sp, 0xD000);
}

#[test]
fn test_execute_small_program() {
    let mut state = State::new();
    // LD A,0x05 ; ADC A,0x03 (carry set after boot) ; JP 0x0200
    let program = [0x3E, 0x05, 0xCE, 0x03, 0xC3, 0x00, 0x02];
    for (i, byte) in program.iter().enumerate() {
        state.write(0x0100 + i as u16, *byte);
    }
    execute(&mut state);
    execute(&mut state);
    execute(&mut state);
    assert_eq!(state.a, 0x09);
    assert_eq!(state.pc, 0x0200);
    assert_eq!(state.cycles, 32);
    assert!(!state.flag_z());
    assert!(!state.flag_c());
}

#[test]
fn test_run_counts_instructions() {
    let mut gb = State::new();
    assert_eq!(gb.run(Some(5), 2, |_| true), 5);
    assert_eq!(gb.pc, 0x0105);
    assert_eq!(gb.run(None, 3, |_| false), 3);
    assert_eq!(gb.pc, 0x0108);
    assert_eq!(gb.run(Some(0), 4, |_| true), 1);
    assert_eq!(gb.pc, 0x0109);
    let mut batches = 0;
    let n = gb.run(None, 4, |_| {
        batches += 1;
        batches < 3
    });
    assert_eq!(n, 12);
    assert_eq!(gb.run_simple(10), 10);
    assert_eq!(gb.pc, 0x0109 + 12 + 10);
}

#[test]
fn test_bus_div_write_clears() {
    let mut gb = State::new();
    update_timers(&mut gb, 1000);
    assert_eq!(gb.read(DIV), 3);
    update_timers(&mut gb, 24);
    assert_eq!(gb.read(DIV), 4);
    gb.write(DIV, 0x77);
    assert_eq!(gb.read(DIV), 0);
    assert_eq!(gb.div_counter, 0);
}

#[test]
fn test_bus_ly_is_read_only() {
    let mut gb = State::new();
    gb.ppu.step(456 * 3);
    assert_eq!(gb.read(LY), 3);
    gb.write(LY, 0x42);
    assert_eq!(gb.read(LY), 3);
}

#[test]
fn test_bus_lcd_register_roundtrip() {
    let mut gb = State::new();
    gb.write(SCX, 0x5A);
    assert_eq!(gb.read(SCX), 0x5A);
    assert_eq!(gb.ppu.read_scx(), 0x5A);
}

#[test]
fn test_bus_vram_and_oam_blocked_during_transfer() {
    let mut gb = State::new();
    gb.write(0x8000, 0x11);
    gb.write(0xFE00, 0x22);
    // Line 1, pixel transfer.
    gb.ppu.step(204 + 80);
    assert_eq!(gb.ppu.mode(), Mode::PixelTransfer);
    assert_eq!(gb.read(0x8000), 0xFF);
    assert_eq!(gb.read(0xFE00), 0xFF);
    gb.write(0x8000, 0x33);
    gb.ppu.step(172);
    assert_eq!(gb.ppu.mode(), Mode::HBlank);
    assert_eq!(gb.read(0x8000), 0x11);
    assert_eq!(gb.read(0xFE00), 0x22);
}

#[test]
fn test_flat_word_roundtrip_other_addresses() {
    let mut gb = State::new();
    gb.write_word(0xC123, 0xA55A);
    assert_eq!(gb.read_word(0xC123), 0xA55A);
    assert_eq!(gb.read(0xC123), 0x5A);
    assert_eq!(gb.read(0xC124), 0xA5);
}

#[test]
fn test_update_timers_tima_slow_clock() {
    let mut gb = State::new();
    gb.write(TAC, 0x07); // enabled, 256 cycles per increment
    update_timers(&mut gb, 255);
    assert_eq!(gb.read(0xFF05), 0);
    update_timers(&mut gb, 1);
    assert_eq!(gb.read(0xFF05), 1);
}

#[test]
fn test_mmu_ie_independent_of_ff7f() {
    let cart = Cartridge::from_bytes(rom_image(0x8000, 0x00, 0x00, 0x00)).unwrap();
    let mut mmu = Mmu::new(cart);
    mmu.write(0xFFFF, 0x1F);
    assert_eq!(mmu.read(0xFF7F), 0x00);
    mmu.write(0xFF7F, 0x03);
    assert_eq!(mmu.read(0xFFFF), 0x1F);
    assert_eq!(mmu.read(0xFF7F), 0x03);
}

#[test]
fn test_mmu_rom_unchanged_by_writes() {
    let mut rom = rom_image(0x8000, 0x00, 0x00, 0x00);
    rom[0x0100] = 0xAB;
    rom[0x5000] = 0xCD;
    let mut mmu = Mmu::new(Cartridge::from_bytes(rom).unwrap());
    mmu.write(0x0100, 0x55);
    mmu.write(0x2000, 0x02);
    mmu.write(0x5000, 0x66);
    assert_eq!(mmu.read(0x0100), 0xAB);
    assert_eq!(mmu.read(0x5000), 0xCD);
}

#[test]
fn test_mmu_mbc1_rom_banking() {
    let mut rom = rom_image(0x20000, 0x01, 0x02, 0x00);
    for bank in 0..8usize {
        rom[bank * 0x4000 + 0x100] = bank as u8 + 0x10;
    }
    rom[0x014D] = compute_header_checksum(&rom);
    let mut mmu = Mmu::new(Cartridge::from_bytes(rom).unwrap());
    assert_eq!(mmu.read(0x4100), 0x11);
    mmu.write(0x2000, 0x05);
    assert_eq!(mmu.read(0x4100), 0x15);
    mmu.write(0x2000, 0x00);
    assert_eq!(mmu.read(0x4100), 0x11);
    // 9 wraps to 1 on an 8-bank ROM.
    mmu.write(0x2000, 0x09);
    assert_eq!(mmu.read(0x4100), 0x11);
    assert_eq!(mmu.read(0x0100), 0x10);
}

#[test]
fn test_mmu_external_ram_needs_enable() {
    let cart = Cartridge::from_bytes(rom_image(0x8000, 0x02, 0x00, 0x02)).unwrap();
    let mut mmu = Mmu::new(cart);
    mmu.write(0xA000, 0x42);
    assert_eq!(mmu.read(0xA000), 0xFF);
    mmu.write(0x0000, 0x0A);
    mmu.write(0xA000, 0x42);
    assert_eq!(mmu.read(0xA000), 0x42);
    mmu.write(0x0000, 0x00);
    assert_eq!(mmu.read(0xA000), 0xFF);
}

#[test]
fn test_ppu_line_period_from_mid_line() {
    let mut ppu = Ppu::new();
    ppu.step(300);
    let ly = ppu.read_ly();
    let mode = ppu.mode();
    ppu.step(456);
    assert_eq!(ppu.read_ly(), ly + 1);
    assert_eq!(ppu.mode(), mode);
}

#[test]
fn test_ppu_frame_period() {
    let mut ppu = Ppu::new();
    ppu.step(5000);
    let ly = ppu.read_ly();
    let stat = ppu.read_stat();
    ppu.step(70224);
    assert_eq!(ppu.read_ly(), ly);
    assert_eq!(ppu.read_stat(), stat);
}

#[test]
fn test_ppu_steps_compose() {
    let mut one = Ppu::new();
    let mut two = Ppu::new();
    one.step(12345);
    two.step(345);
    two.step(12000);
    assert_eq!(one.read_ly(), two.read_ly());
    assert_eq!(one.read_stat(), two.read_stat());
    assert_eq!(one.mode(), two.mode());
}

#[test]
fn test_ppu_lcd_off_stops_timing() {
    let mut ppu = Ppu::new();
    ppu.step(456 * 3);
    ppu.write_lcdc(0x11);
    assert_eq!(ppu.read_ly(), 0);
    assert!(!ppu.is_lcd_enabled());
    ppu.step(1000);
    assert_eq!(ppu.read_ly(), 0);
}

#[test]
fn test_ppu_renders_background_tile_row() {
    let mut ppu = Ppu::new();
    let mut vram = vec![0u8; 0x2000];
    let oam = vec![0u8; 0xA0];
    // Tile 0, row 1: low bits set, high bits clear (color 1).
    vram[2] = 0xFF;
    vram[3] = 0x00;
    ppu.step(456);
    assert_eq!(ppu.read_ly(), 1);
    assert!(ppu.render_requested());
    ppu.render_scanline(&vram, &oam);
    // BGP 0xFC maps color 1 to shade 3; row 0 of the frame was not drawn.
    let fb = ppu.framebuffer();
    assert_eq!(fb[1][0], 3);
    assert_eq!(fb[1][159], 3);
    assert_eq!(fb[0][0], 0);
}

#[test]
fn test_checksum_stored_makes_header_valid() {
    let mut rom = vec![0u8; 0x8000];
    for (i, byte) in b"CHECKSUMTEST".iter().enumerate() {
        rom[0x0134 + i] = *byte;
    }
    rom[0x014C] = 0x03;
    rom[0x014D] = compute_header_checksum(&rom);
    let header = CartridgeHeader::parse(&rom).unwrap();
    assert_eq!(header.title, "CHECKSUMTEST");
    assert_eq!(header.rom_version, 0x03);
    assert_eq!(header.header_checksum, rom[0x014D]);
}

#[test]
fn test_header_error_too_small() {
    let rom = vec![0u8; 0x100];
    let err = CartridgeHeader::parse_checked(&rom).unwrap_err();
    assert_eq!(err, HeaderError::TooSmall(0x100));
    assert_eq!(err.message(), "ROM too small: 256 bytes (minimum 0x0150 required)");
}

#[test]
fn test_header_error_unknown_rom_size() {
    let mut rom = vec![0u8; 0x8000];
    rom[0x0148] = 0x09;
    let err = CartridgeHeader::parse_checked(&rom).unwrap_err();
    assert_eq!(err, HeaderError::UnknownRomSize(0x09));
    assert_eq!(err.message(), "Unknown ROM size code: 0x09");
}

#[test]
fn test_header_error_unknown_ram_size() {
    let mut rom = vec![0u8; 0x8000];
    rom[0x0149] = 0x2A;
    let err = CartridgeHeader::parse_checked(&rom).unwrap_err();
    assert_eq!(err, HeaderError::UnknownRamSize(0x2A));
    assert_eq!(err.message(), "Unknown RAM size code: 0x2A");
}

#[test]
fn test_header_error_checksum_mismatch_message() {
    let mut rom = vec![0u8; 0x8000];
    rom[0x014D] = 0xFF;
    let err = CartridgeHeader::parse_checked(&rom).unwrap_err();
    assert_eq!(err, HeaderError::ChecksumMismatch { calculated: 0xE7, expected: 0xFF });
    assert_eq!(
        CartridgeHeader::parse(&rom).unwrap_err(),
        "Header checksum mismatch: calculated 0xE7, expected 0xFF"
    );
}

#[test]
fn test_from_bytes_error_is_invalid_data() {
    let err = Cartridge::from_bytes(vec![0u8; 16]).unwrap_err();
    assert_eq!(err.kind(), std::io::ErrorKind::InvalidData);
    assert_eq!(err.to_string(), "ROM too small: 16 bytes (minimum 0x0150 required)");
}

#[test]
fn test_header_title_is_trimmed() {
    let mut rom = vec![0u8; 0x8000];
    for (i, byte) in b"  ZELDA ".iter().enumerate() {
        rom[0x0134 + i] = *byte;
    }
    rom[0x014D] = compute_header_checksum(&rom);
    let header = CartridgeHeader::parse(&rom).unwrap();
    assert_eq!(header.title, "ZELDA");
}

#[test]
fn test_header_title_invalid_utf8_replaced() {
    let mut rom = vec![0u8; 0x8000];
    rom[0x0134] = b'A';
    rom[0x0135] = 0xFF;
    rom[0x0136] = b'B';
    rom[0x014D] = compute_header_checksum(&rom);
    let header = CartridgeHeader::parse(&rom).unwrap();
    assert_eq!(header.title, "A\u{FFFD}B");
}

#[test]
fn test_cartridge_type_names() {
    assert_eq!(CartridgeType::RomOnly.name(), "ROM ONLY");
    assert_eq!(CartridgeType::Mbc1Ram.name(), "MBC1+RAM");
    assert_eq!(CartridgeType::Mbc5.name(), "MBC5");
    assert_eq!(CartridgeType::Unsupported(0xFD).name(), "UNSUPPORTED (0xFD)");
    assert_eq!(CartridgeType::from_byte(0x12), CartridgeType::Mbc3Ram);
    assert_eq!(CartridgeType::from_byte(0x1A), CartridgeType::Mbc5Ram);
}

#[test]
fn test_joypad_reads_selected_groups() {
    let mut pad = Joypad::new();
    assert_eq!(pad.read(), 0xCF);
    pad.press(Button::Down);
    assert_eq!(pad.read(), 0xC7);
    pad.write(0x20); // directions only
    assert_eq!(pad.read(), 0xE7);
    pad.press(Button::A);
    assert_eq!(pad.read(), 0xE7);
    pad.write(0x10); // actions only
    assert_eq!(pad.read(), 0xDE);
    pad.write(0x30); // nothing selected
    assert_eq!(pad.read(), 0xFF);
    pad.release(Button::Down);
    pad.write(0x00);
    assert_eq!(pad.read(), 0xCE);
    pad.release(Button::A);
    assert_eq!(pad.read(), 0xCF);
}

#[test]
fn test_button_from_index() {
    assert_eq!(Button::from_index(0), Some(Button::Right));
    assert_eq!(Button::from_index(4), Some(Button::A));
    assert_eq!(Button::from_index(7), Some(Button::Start));
    assert_eq!(Button::from_index(8), None);
}

#[test]
fn test_system_state_af_keeps_all_flag_bits() {
    let mut state = SystemState::new();
    state.set_af(0x12FF);
    assert_eq!(state.af(), 0x12FF);
    assert_eq!(state.f, 0xFF);
}

#[test]
fn test_gameboy_af_masks_flag_low_bits() {
    let mut gb = State::new();
    gb.set_af(0x12FF);
    assert_eq!(gb.af(), 0x12F0);
}

#[test]
fn test_with_cartridge_post_boot_state() {
    let cart = Cartridge::from_bytes(rom_image(0x8000, 0x00, 0x00, 0x00)).unwrap();
    let gb = GameBoy::with_cartridge(cart);
    assert_eq!(gb.af(), 0x01B0);
    assert_eq!(gb.pc(), 0x0100);
    assert_eq!(gb.read(0xFF40), 0x91);
    assert_eq!(gb.read(0xFF47), 0xFC);
    assert_eq!(gb.read(0xFF26), 0xF1);
    assert_eq!(gb.read(IE), 0x00);
    assert_eq!(gb.read(DIV), 0xAF);
    assert_eq!(gb.read(0xFF00), 0xFF);
    assert_eq!(gb.read(TAC), 0x00);
    assert_eq!(gb.read(0xFF48), 0xFF);
    assert_eq!(gb.mmu.cartridge().header.cartridge_type, CartridgeType::RomOnly);
}

#[test]
fn test_default_gameboy_has_placeholder_cartridge() {
    let gb: GameBoy<Mmu> = GameBoy::default();
    assert_eq!(gb.mmu.cartridge.header.cartridge_type, CartridgeType::RomOnly);
    assert_eq!(gb.mmu.cartridge.header.rom_size, 64 * 1024);
    assert_eq!(gb.mmu.cartridge.rom.len(), 64 * 1024);
    assert_eq!(gb.sp(), 0xFFFE);
}

#[test]
fn test_header_describe() {
    let mut rom = vec![0u8; 0x8000];
    rom[0x0134..0x013C].copy_from_slice(b"TESTGAME");
    rom[0x0147] = 0x02;
    rom[0x0149] = 0x02;
    rom[0x014C] = 0x01;
    rom[0x014D] = compute_header_checksum(&rom);
    let header = CartridgeHeader::parse(&rom).unwrap();
    assert_eq!(
        header.describe(),
        "=== Cartridge Information ===\nTitle: TESTGAME\nCartridge Type: MBC1+RAM\nROM Size: 32 KiB\nRAM Size: 8 KiB\nVersion: 1\n"
    );
}

#[test]
fn test_next_opcode_and_implemented_set() {
    let mut gb = State::new();
    gb.write(0x0100, 0xE0);
    assert_eq!(next_opcode(&gb), Some(0xE0));
    assert!(!opcode_implemented(0xE0));
    assert!(!opcode_implemented(0x08));
    assert!(opcode_implemented(0x00));
    assert!(opcode_implemented(0xCF));
    gb.halt = true;
    assert_eq!(next_opcode(&gb), None);
    gb.halt = false;
    gb.ime = true;
    gb.write(IE, 0x01);
    gb.write(IF, 0x01);
    assert_eq!(next_opcode(&gb), None);
}

#[test]
fn test_flag_low_bits_stay_clear() {
    let mut state = State::new();
    // SUB/ADD/INC/DAA/RLCA/CCF through a short program.
    let program = [0x3E, 0x9A, 0xCE, 0x77, 0x27, 0x07, 0x3F, 0x3C, 0x90];
    for (i, byte) in program.iter().enumerate() {
        state.write(0x0100 + i as u16, *byte);
    }
    for _ in 0..7 {
        execute(&mut state);
        assert_eq!(state.f & 0x0F, 0);
    }
    assert_eq!(state.pc, 0x0109);
}

#[test]
fn test_step_defined_checks_next_instruction() {
    let mut gb = State::new();
    assert!(gb.step_defined());
    gb.write(0x0100, 0x08);
    assert!(!gb.step_defined());
    gb.write(0x0100, 0xE0);
    assert!(!gb.step_defined());
    gb.write(0x0100, 0x00);
    gb.cycles = u64::MAX - 2;
    assert!(!gb.step_defined());
    gb.cycles = 0;
    gb.div_counter = u64::MAX;
    assert!(!gb.step_defined());
    gb.div_counter = 0;
    gb.pc = 0xFFFF;
    assert!(!gb.step_defined());
}

#[test]
fn test_try_step_with_ppu_runs_and_refuses() {
    let mut rom = rom_image(0x8000, 0x00, 0x00, 0x00);
    rom[0x0100] = 0x00; // NOP
    rom[0x0101] = 0xE0; // not executed by this CPU
    rom[0x014D] = compute_header_checksum(&rom);
    let mut gb = GameBoy::with_cartridge(Cartridge::from_bytes(rom).unwrap());
    assert!(gb.try_step_with_ppu());
    assert_eq!(gb.pc, 0x0101);
    assert_eq!(gb.cycles, 4);
    assert!(!gb.try_step_with_ppu());
    assert_eq!(gb.pc, 0x0101);
    assert_eq!(gb.cycles, 4);
}

#[test]
fn test_run_simple_composes() {
    let mut one = State::new();
    let mut two = State::new();
    // INC A ; INC B ; ... a stretch of one-byte instructions.
    for i in 0..16u16 {
        one.write(0x0100 + i, 0x3C);
        two.write(0x0100 + i, 0x3C);
    }
    assert_eq!(one.run_simple(7), 7);
    assert_eq!(two.run_simple(3), 3);
    assert_eq!(two.run_simple(4), 4);
    assert_eq!(one.a, two.a);
    assert_eq!(one.a, 0x08);
    assert_eq!(one.pc, two.pc);
    assert_eq!(one.cycles, two.cycles);
    assert_eq!(one.f, two.f);
}

#[test]
fn test_ppu_renders_flipped_tall_sprite() {
    let mut ppu = Ppu::new();
    ppu.write_lcdc(0x97); // LCD, background, 8x16 sprites on
    let mut vram = vec![0u8; 0x2000];
    let mut oam = vec![0u8; 0xA0];
    oam[0] = 8; // rows -8 to 7: line 1 is row 9
    oam[1] = 8; // left edge at x = 0
    oam[2] = 2; // tiles 2 and 3
    oam[3] = 0x40; // flipped vertically
    // Flipped, row 9 shows row 6 of the upper tile (tile 2).
    vram[2 * 16 + 12] = 0x80;
    ppu.step(204);
    assert_eq!(ppu.read_ly(), 1);
    assert!(ppu.scan_requested());
    ppu.clear_scan_request();
    ppu.scan_oam(&oam);
    ppu.step(252);
    assert!(ppu.render_requested());
    assert!(ppu.can_render(&oam, false));
    ppu.clear_render_request();
    ppu.render_scanline(&vram, &oam);
    let fb = ppu.framebuffer();
    assert_eq!(fb[1][0], 3);
    assert_eq!(fb[1][1], 0);
    // Switching to 8x8 sprites after the scan makes the flipped row
    // undrawable.
    ppu.write_lcdc(0x93);
    assert!(!ppu.can_render(&oam, false));
    assert!(ppu.can_render(&oam, true));
}

#[test]
fn test_run_zero_batch_asks_once() {
    let mut gb = State::new();
    let mut calls = 0;
    let n = gb.run(Some(10), 0, |_| {
        calls += 1;
        false
    });
    assert_eq!(n, 0);
    assert_eq!(calls, 1);
    assert_eq!(gb.pc, 0x0100);
}

#[test]
fn test_run_calls_back_after_each_full_batch() {
    let mut gb = State::new();
    let mut calls = 0;
    let n = gb.run(Some(10), 3, |g| {
        calls += 1;
        assert_eq!(g.pc, 0x0100 + 3 * calls);
        true
    });
    assert_eq!(n, 10);
    assert_eq!(calls, 3);
    assert_eq!(gb.pc, 0x010A);
}

#[test]
fn test_run_stops_where_next_step_is_undefined() {
    let mut gb = State::new();
    gb.write(0x0105, 0x08);
    let mut calls = 0;
    let n = gb.run(Some(20), 2, |_| {
        calls += 1;
        true
    });
    assert_eq!(n, 5);
    assert_eq!(calls, 2);
    assert_eq!(gb.pc, 0x0105);
    assert!(!gb.step_defined());
}

#[test]
fn test_run_stops_after_first_batch_when_told() {
    let mut gb = State::new();
    let mut calls = 0;
    let n = gb.run(Some(100), 7, |g| {
        calls += 1;
        assert_eq!(g.pc, 0x0107);
        false
    });
    assert_eq!(n, 7);
    assert_eq!(calls, 1);
    assert_eq!(gb.pc, 0x0107);
}

#[test]
fn test_run_limit_inside_batch_skips_callback() {
    let mut gb = State::new();
    let mut calls = 0;
    let n = gb.run(Some(9), 4, |_| {
        calls += 1;
        true
    });
    assert_eq!(n, 9);
    assert_eq!(calls, (9 - 1) / 4);
    assert_eq!(gb.pc, 0x0109);
}

#[test]
fn test_daa_decimal_addition() {
    let mut state = State::new();
    state.a = 0x45;
    add_a(0x38, &mut state);
    daa(&mut state);
    assert_eq!(state.a, 0x83);
    assert!(!state.flag_c());
    assert!(!state.flag_z());
    state.a = 0x99;
    add_a(0x01, &mut state);
    daa(&mut state);
    assert_eq!(state.a, 0x00);
    assert!(state.flag_c());
    assert!(state.flag_z());
    assert!(!state.flag_h());
    assert!(!state.flag_n());
}

#[test]
fn test_framebuffer_rgba_scaled() {
    let mut ppu = Ppu::new();
    let mut vram = vec![0u8; 0x2000];
    let oam = vec![0u8; 0xA0];
    vram[2] = 0xFF; // line 1 of tile 0: color 1, shade 3
    ppu.step(456);
    ppu.render_scanline(&vram, &oam);
    let rgba = framebuffer_rgba(ppu.framebuffer(), 2);
    assert_eq!(rgba.len(), 160 * 2 * 144 * 2 * 4);
    assert_eq!(&rgba[0..4], &[0x9B, 0xBC, 0x0F, 255]);
    // Screen line 1 is image rows 2 and 3; shade 3 is the darkest colour.
    let row2 = 2 * 320 * 4;
    assert_eq!(&rgba[row2..row2 + 4], &[0x0F, 0x38, 0x0F, 255]);
    let row3_last = (3 * 320 + 319) * 4;
    assert_eq!(&rgba[row3_last..row3_last + 4], &[0x0F, 0x38, 0x0F, 255]);
    assert_eq!(framebuffer_rgba(ppu.framebuffer(), 1).len(), 160 * 144 * 4);
}

#[test]
fn test_stat_reports_mode() {
    let mut ppu = Ppu::new();
    for _ in 0..200 {
        ppu.step(37);
        assert_eq!(ppu.read_stat() & 0x03, ppu.mode() as u8);
        assert_eq!(ppu.read_stat() & 0x80, 0x80);
        assert!(ppu.read_ly() <= 153);
    }
}
