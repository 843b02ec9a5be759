//! Game Boy bus, register and timer tests.
use rgb_core::memory::FlatMemory;
use rgb_core::io::{DIV, IF, TAC, TIMA, TMA};
use rgb_core::system::{update_timers, GameBoy};

#[test]
fn system_test_new_initializes_correct_values() {
    let state = GameBoy::<FlatMemory>::new();
    assert_eq!(state.af(), 0x01B0);
    assert_eq!(state.bc(), 0x0013);
    assert_eq!(state.de(), 0x00D8);
    assert_eq!(state.hl(), 0x014D);
    assert_eq!(state.sp(), 0xFFFE);
    assert_eq!(state.pc(), 0x0100);
}

#[test]
fn system_test_register_pairs_getter_setter() {
    let mut state = GameBoy::<FlatMemory>::new();

    state.set_af(0xABCD);
    assert_eq!(state.af(), 0xABC0); // Lower 4 bits of F are always 0

    state.set_bc(0x1234);
    assert_eq!(state.bc(), 0x1234);

    state.set_de(0x5678);
    assert_eq!(state.de(), 0x5678);

    state.set_hl(0x9ABC);
    assert_eq!(state.hl(), 0x9ABC);

    state.set_sp(0xFFFE);
    assert_eq!(state.sp(), 0xFFFE);

    state.set_pc(0x0100);
    assert_eq!(state.pc(), 0x0100);
}

#[test]
fn test_memory_read_write() {
    let mut state = GameBoy::<FlatMemory>::new();

    // Test writing and reading at various addresses
    state.write(0x0000, 0xAB);
    assert_eq!(state.read(0x0000), 0xAB);

    state.write(0x1234, 0xCD);
    assert_eq!(state.read(0x1234), 0xCD);

    state.write(0xFF00, 0x12);
    assert_eq!(state.read(0xFF00), 0x12);

    state.write(0xFFFF, 0x34);
    assert_eq!(state.read(0xFFFF), 0x34);
}

#[test]
fn test_read_word() {
    let mut state = GameBoy::<FlatMemory>::new();

    // Test reading a word (little-endian: low byte first, high byte second)
    state.write(0x1000, 0x34); // Low byte
    state.write(0x1001, 0x12); // High byte
    assert_eq!(state.read_word(0x1000), 0x1234);

    // Test at different address
    state.write(0x2000, 0xCD);
    state.write(0x2001, 0xAB);
    assert_eq!(state.read_word(0x2000), 0xABCD);

    // Test at boundary
    state.write(0xFFFE, 0xFF);
    state.write(0xFFFF, 0xFF);
    assert_eq!(state.read_word(0xFFFE), 0xFFFF);
}

#[test]
fn test_write_word() {
    let mut state = GameBoy::<FlatMemory>::new();

    // Test writing a word (little-endian: low byte first, high byte second)
    state.write_word(0x1000, 0x1234);
    assert_eq!(state.read(0x1000), 0x34); // Low byte
    assert_eq!(state.read(0x1001), 0x12); // High byte

    // Test at different address
    state.write_word(0x2000, 0xABCD);
    assert_eq!(state.read(0x2000), 0xCD); // Low byte
    assert_eq!(state.read(0x2001), 0xAB); // High byte

    // Test at boundary
    state.write_word(0xFFFE, 0xFFFF);
    assert_eq!(state.read(0xFFFE), 0xFF);
    assert_eq!(state.read(0xFFFF), 0xFF);
}

#[test]
fn test_read_write_word_roundtrip() {
    let mut state = GameBoy::<FlatMemory>::new();

    // Test that write_word and read_word are inverses
    state.write_word(0x3000, 0x5678);
    assert_eq!(state.read_word(0x3000), 0x5678);

    state.write_word(0x4000, 0x0000);
    assert_eq!(state.read_word(0x4000), 0x0000);

    state.write_word(0x5000, 0xFFFF);
    assert_eq!(state.read_word(0x5000), 0xFFFF);
}

#[test]
fn test_update_timers_div() {
    let mut state = GameBoy::<FlatMemory>::new();

    state.write(DIV, 0x00);

    // Run 256 cycles - should increment DIV by 1
    update_timers(&mut state, 256);
    assert_eq!(state.read(DIV), 0x01);

    // Run 512 more cycles - should increment DIV by 2
    update_timers(&mut state, 512);
    assert_eq!(state.read(DIV), 0x03);
}

#[test]
fn test_update_timers_tima_disabled() {
    let mut state = GameBoy::<FlatMemory>::new();

    state.write(TIMA, 0x00);
    state.write(TAC, 0x00); // Timer disabled

    // Run cycles - TIMA should not change when disabled
    update_timers(&mut state, 1024);
    assert_eq!(state.read(TIMA), 0x00);
}

#[test]
fn test_update_timers_tima_enabled() {
    let mut state = GameBoy::<FlatMemory>::new();

    state.write(TIMA, 0x00);
    state.write(TMA, 0x00);
    state.write(TAC, 0x04); // Timer enabled, 4096 Hz (1024 cycles per increment)

    // Run 1024 cycles - should increment TIMA by 1
    update_timers(&mut state, 1024);
    assert_eq!(state.read(TIMA), 0x01);

    // Run 2048 more cycles - should increment TIMA by 2
    update_timers(&mut state, 2048);
    assert_eq!(state.read(TIMA), 0x03);
}

#[test]
fn test_update_timers_overflow() {
    let mut state = GameBoy::<FlatMemory>::new();

    state.write(TIMA, 0xFF);
    state.write(TMA, 0x10);
    state.write(TAC, 0x04); // Timer enabled, 4096 Hz
    state.write(IF, 0x00);

    // Run 1024 cycles - should overflow and reload from TMA
    update_timers(&mut state, 1024);
    assert_eq!(state.read(TIMA), 0x10); // Reloaded from TMA

    // Check timer interrupt flag is set (bit 2)
    assert_eq!(state.read(IF) & 0x04, 0x04);
}

#[test]
fn test_update_timers_fast_clock() {
    let mut state = GameBoy::<FlatMemory>::new();

    state.write(TIMA, 0x00);
    state.write(TAC, 0x05); // Timer enabled, 262144 Hz (16 cycles per increment)

    // Run 64 cycles - should increment TIMA by 4
    update_timers(&mut state, 64);
    assert_eq!(state.read(TIMA), 0x04);
}
