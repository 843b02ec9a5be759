//! Register file tests.
use rgb_core::context::SystemState;

#[test]
fn context_test_new_initializes_correct_values() {
    let state = SystemState::new();
    assert_eq!(state.af(), 0x01B0);
    assert_eq!(state.bc(), 0x0013);
    assert_eq!(state.de(), 0x00D8);
    assert_eq!(state.hl(), 0x014D);
    assert_eq!(state.sp(), 0xFFFE);
    assert_eq!(state.pc(), 0x0100);
}

#[test]
fn context_test_register_pairs_getter_setter() {
    let mut state = SystemState::new();

    state.set_af(0xABCD);
    assert_eq!(state.af(), 0xABCD);

    state.set_bc(0x1234);
    assert_eq!(state.bc(), 0x1234);

    state.set_de(0x5678);
    assert_eq!(state.de(), 0x5678);

    state.set_hl(0x9ABC);
    assert_eq!(state.hl(), 0x9ABC);

    state.set_sp(0xFFFE);
    assert_eq!(state.sp(), 0xFFFE);

    state.set_pc(0x0100);
    assert_eq!(state.pc(), 0x0100);
}
