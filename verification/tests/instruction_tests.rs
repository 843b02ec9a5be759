//! CPU instruction tests.
use rgb_core::instructions::{adc_a, add_a, add_hl_bc, add_hl_de, add_hl_hl, add_hl_sp, and_a, call, call_nz, cp_a, daa, dec_a, dec_b, dec_bc, dec_c, dec_d, dec_de, dec_e, dec_h, dec_hl, dec_l, dec_sp, has_pending_interrupt, inc_a, inc_b, inc_bc, inc_c, inc_d, inc_de, inc_e, inc_h, inc_hl, inc_l, inc_sp, jp, jp_nz, jr, jr_nz, or_a, pop_bc, push_16bit, ret, ret_nz, rl_a, rl_b, rl_c, rl_d, rl_e, rl_h, rl_l, rla, rlc_a, rlc_b, rlc_c, rlc_d, rlc_e, rlc_h, rlc_l, rlca, rr_a, rr_b, rr_c, rr_d, rr_e, rr_h, rr_l, rra, rrc_a, rrc_b, rrc_c, rrc_d, rrc_e, rrc_h, rrc_l, rrca, rst_08, sbc_a, service_interrupts, sub_a, xor_a};
use rgb_core::memory::FlatMemory;
use rgb_core::system::GameBoy;
use rgb_core::io::{IE, IF};

type State = GameBoy<FlatMemory>;

// Tests for ADD A,r
#[test]
fn test_add_a_normal() {
    let mut state = State::new();
    state.a = 0x3A;

    add_a(0x05, &mut state);

    assert_eq!(state.a, 0x3F);
    assert!(!state.flag_z());
    assert!(!state.flag_n());
    assert!(!state.flag_h());
    assert!(!state.flag_c());
}

#[test]
fn test_add_a_zero_result() {
    let mut state = State::new();
    state.a = 0x00;

    add_a(0x00, &mut state);

    assert_eq!(state.a, 0x00);
    assert!(state.flag_z()); // Result is zero
    assert!(!state.flag_n());
    assert!(!state.flag_h());
    assert!(!state.flag_c());
}

#[test]
fn test_add_a_carry() {
    let mut state = State::new();
    state.a = 0xFF;

    add_a(0x02, &mut state);

    assert_eq!(state.a, 0x01);
    assert!(!state.flag_z());
    assert!(!state.flag_n());
    assert!(state.flag_h()); // Carry from bit 3
    assert!(state.flag_c()); // Carry from bit 7
}

#[test]
fn test_add_a_half_carry() {
    let mut state = State::new();
    state.a = 0x0F;

    add_a(0x01, &mut state);

    assert_eq!(state.a, 0x10);
    assert!(!state.flag_z());
    assert!(!state.flag_n());
    assert!(state.flag_h()); // Half carry from bit 3
    assert!(!state.flag_c());
}

#[test]
fn test_add_a_overflow_to_zero() {
    let mut state = State::new();
    state.a = 0xFF;

    add_a(0x01, &mut state);

    assert_eq!(state.a, 0x00);
    assert!(state.flag_z()); // Result is zero
    assert!(!state.flag_n());
    assert!(state.flag_h()); // Half carry
    assert!(state.flag_c()); // Carry
}

#[test]
fn test_add_a_both_carries() {
    let mut state = State::new();
    state.a = 0xFF;

    add_a(0xFF, &mut state);

    assert_eq!(state.a, 0xFE);
    assert!(!state.flag_z());
    assert!(!state.flag_n());
    assert!(state.flag_h()); // Half carry
    assert!(state.flag_c()); // Carry
}

#[test]
fn test_add_a_no_half_carry_boundary() {
    let mut state = State::new();
    state.a = 0x0E;

    add_a(0x01, &mut state);

    assert_eq!(state.a, 0x0F);
    assert!(!state.flag_z());
    assert!(!state.flag_n());
    assert!(!state.flag_h()); // No half carry
    assert!(!state.flag_c());
}

// Tests for ADC A,r
#[test]
fn test_adc_a_normal_no_carry() {
    let mut state = State::new();
    state.a = 0x3A;
    state.set_flag_c(false);

    adc_a(0x05, &mut state);

    assert_eq!(state.a, 0x3F);
    assert!(!state.flag_z());
    assert!(!state.flag_n());
    assert!(!state.flag_h());
    assert!(!state.flag_c());
}

#[test]
fn test_adc_a_with_carry_flag() {
    let mut state = State::new();
    state.a = 0x3A;
    state.set_flag_c(true);

    adc_a(0x05, &mut state);

    assert_eq!(state.a, 0x40); // 0x3A + 0x05 + 1 = 0x40
    assert!(!state.flag_z());
    assert!(!state.flag_n());
    assert!(state.flag_h()); // 0xA + 0x5 + 1 = 0x10 > 0xF (half carry)
    assert!(!state.flag_c());
}

#[test]
fn test_adc_a_carry_flag_causes_overflow() {
    let mut state = State::new();
    state.a = 0xFF;
    state.set_flag_c(true);

    adc_a(0x00, &mut state);

    assert_eq!(state.a, 0x00); // 0xFF + 0 + 1 = 0x00 (overflow)
    assert!(state.flag_z());
    assert!(!state.flag_n());
    assert!(state.flag_h()); // Half carry
    assert!(state.flag_c()); // Carry
}

#[test]
fn test_adc_a_half_carry_with_carry_flag() {
    let mut state = State::new();
    state.a = 0x0E;
    state.set_flag_c(true);

    adc_a(0x00, &mut state);

    assert_eq!(state.a, 0x0F); // 0x0E + 0 + 1 = 0x0F
    assert!(!state.flag_z());
    assert!(!state.flag_n());
    assert!(!state.flag_h()); // No half carry
    assert!(!state.flag_c());
}

#[test]
fn test_adc_a_half_carry_from_value_and_carry() {
    let mut state = State::new();
    state.a = 0x0E;
    state.set_flag_c(true);

    adc_a(0x01, &mut state);

    assert_eq!(state.a, 0x10); // 0x0E + 0x01 + 1 = 0x10
    assert!(!state.flag_z());
    assert!(!state.flag_n());
    assert!(state.flag_h()); // Half carry
    assert!(!state.flag_c());
}

#[test]
fn test_adc_a_overflow_with_carry() {
    let mut state = State::new();
    state.a = 0xFE;
    state.set_flag_c(true);

    adc_a(0x01, &mut state);

    assert_eq!(state.a, 0x00); // 0xFE + 0x01 + 1 = 0x00
    assert!(state.flag_z());
    assert!(!state.flag_n());
    assert!(state.flag_h()); // Half carry
    assert!(state.flag_c()); // Carry
}

#[test]
fn test_adc_a_both_carries_with_carry_flag() {
    let mut state = State::new();
    state.a = 0xFF;
    state.set_flag_c(true);

    adc_a(0xFF, &mut state);

    assert_eq!(state.a, 0xFF); // 0xFF + 0xFF + 1 = 0xFF (with overflow)
    assert!(!state.flag_z());
    assert!(!state.flag_n());
    assert!(state.flag_h()); // Half carry
    assert!(state.flag_c()); // Carry
}

// Tests for SUB A,r
#[test]
fn test_sub_a_normal() {
    let mut state = State::new();
    state.a = 0x3E;

    sub_a(0x0F, &mut state);

    assert_eq!(state.a, 0x2F);
    assert!(!state.flag_z());
    assert!(state.flag_n()); // Subtraction
    assert!(state.flag_h()); // Borrow: 0xE < 0xF
    assert!(!state.flag_c());
}

#[test]
fn test_sub_a_zero_result() {
    let mut state = State::new();
    state.a = 0x42;

    sub_a(0x42, &mut state);

    assert_eq!(state.a, 0x00);
    assert!(state.flag_z());
    assert!(state.flag_n());
    assert!(!state.flag_h());
    assert!(!state.flag_c());
}

#[test]
fn test_sub_a_underflow() {
    let mut state = State::new();
    state.a = 0x00;

    sub_a(0x01, &mut state);

    assert_eq!(state.a, 0xFF);
    assert!(!state.flag_z());
    assert!(state.flag_n());
    assert!(state.flag_h()); // Borrow
    assert!(state.flag_c()); // Borrow
}

#[test]
fn test_sub_a_half_borrow() {
    let mut state = State::new();
    state.a = 0x10;

    sub_a(0x01, &mut state);

    assert_eq!(state.a, 0x0F);
    assert!(!state.flag_z());
    assert!(state.flag_n());
    assert!(state.flag_h()); // 0x0 < 0x1 (half borrow)
    assert!(!state.flag_c());
}

#[test]
fn test_sub_a_no_half_borrow() {
    let mut state = State::new();
    state.a = 0x0F;

    sub_a(0x01, &mut state);

    assert_eq!(state.a, 0x0E);
    assert!(!state.flag_z());
    assert!(state.flag_n());
    assert!(!state.flag_h()); // No half borrow
    assert!(!state.flag_c());
}

// Tests for SBC A,r
#[test]
fn test_sbc_a_normal_no_carry() {
    let mut state = State::new();
    state.a = 0x3E;
    state.set_flag_c(false);

    sbc_a(0x0F, &mut state);

    assert_eq!(state.a, 0x2F);
    assert!(!state.flag_z());
    assert!(state.flag_n());
    assert!(state.flag_h()); // Borrow
    assert!(!state.flag_c());
}

#[test]
fn test_sbc_a_with_carry_flag() {
    let mut state = State::new();
    state.a = 0x3E;
    state.set_flag_c(true);

    sbc_a(0x0F, &mut state);

    assert_eq!(state.a, 0x2E); // 0x3E - 0x0F - 1 = 0x2E
    assert!(!state.flag_z());
    assert!(state.flag_n());
    assert!(state.flag_h()); // 0xE < 0xF + 1
    assert!(!state.flag_c());
}

#[test]
fn test_sbc_a_zero_result_with_carry() {
    let mut state = State::new();
    state.a = 0x01;
    state.set_flag_c(true);

    sbc_a(0x00, &mut state);

    assert_eq!(state.a, 0x00); // 0x01 - 0x00 - 1 = 0x00
    assert!(state.flag_z());
    assert!(state.flag_n());
    assert!(!state.flag_h());
    assert!(!state.flag_c());
}

#[test]
fn test_sbc_a_underflow_with_carry() {
    let mut state = State::new();
    state.a = 0x00;
    state.set_flag_c(true);

    sbc_a(0x00, &mut state);

    assert_eq!(state.a, 0xFF); // 0x00 - 0x00 - 1 = 0xFF
    assert!(!state.flag_z());
    assert!(state.flag_n());
    assert!(state.flag_h()); // Borrow
    assert!(state.flag_c()); // Borrow
}

#[test]
fn test_sbc_a_half_borrow_from_carry() {
    let mut state = State::new();
    state.a = 0x10;
    state.set_flag_c(true);

    sbc_a(0x00, &mut state);

    assert_eq!(state.a, 0x0F); // 0x10 - 0x00 - 1 = 0x0F
    assert!(!state.flag_z());
    assert!(state.flag_n());
    assert!(state.flag_h()); // 0x0 < 0x0 + 1
    assert!(!state.flag_c());
}

// Tests for AND A,r
#[test]
fn test_and_a_normal() {
    let mut state = State::new();
    state.a = 0b11110000;

    and_a(0b10101010, &mut state);

    assert_eq!(state.a, 0b10100000);
    assert!(!state.flag_z());
    assert!(!state.flag_n());
    assert!(state.flag_h()); // H always set for AND
    assert!(!state.flag_c());
}

#[test]
fn test_and_a_zero_result() {
    let mut state = State::new();
    state.a = 0b11110000;

    and_a(0b00001111, &mut state);

    assert_eq!(state.a, 0x00);
    assert!(state.flag_z());
    assert!(!state.flag_n());
    assert!(state.flag_h());
    assert!(!state.flag_c());
}

#[test]
fn test_and_a_with_self() {
    let mut state = State::new();
    state.a = 0x5A;

    and_a(0x5A, &mut state);

    assert_eq!(state.a, 0x5A);
    assert!(!state.flag_z());
    assert!(!state.flag_n());
    assert!(state.flag_h());
    assert!(!state.flag_c());
}

#[test]
fn test_and_a_clears_carry() {
    let mut state = State::new();
    state.a = 0xFF;
    state.set_flag_c(true); // Set carry flag
    state.set_flag_n(true); // Set N flag

    and_a(0xFF, &mut state);

    assert_eq!(state.a, 0xFF);
    assert!(!state.flag_z());
    assert!(!state.flag_n()); // N cleared
    assert!(state.flag_h()); // H set
    assert!(!state.flag_c()); // C cleared
}

#[test]
fn test_and_a_with_zero() {
    let mut state = State::new();
    state.a = 0xFF;

    and_a(0x00, &mut state);

    assert_eq!(state.a, 0x00);
    assert!(state.flag_z());
    assert!(!state.flag_n());
    assert!(state.flag_h());
    assert!(!state.flag_c());
}

// Tests for XOR A,r
#[test]
fn test_xor_a_normal() {
    let mut state = State::new();
    state.a = 0b11110000;

    xor_a(0b10101010, &mut state);

    assert_eq!(state.a, 0b01011010);
    assert!(!state.flag_z());
    assert!(!state.flag_n());
    assert!(!state.flag_h());
    assert!(!state.flag_c());
}

#[test]
fn test_xor_a_with_self() {
    let mut state = State::new();
    state.a = 0x5A;

    xor_a(0x5A, &mut state);

    assert_eq!(state.a, 0x00); // XOR with self always gives 0
    assert!(state.flag_z());
    assert!(!state.flag_n());
    assert!(!state.flag_h());
    assert!(!state.flag_c());
}

#[test]
fn test_xor_a_with_zero() {
    let mut state = State::new();
    state.a = 0xFF;

    xor_a(0x00, &mut state);

    assert_eq!(state.a, 0xFF); // XOR with 0 doesn't change value
    assert!(!state.flag_z());
    assert!(!state.flag_n());
    assert!(!state.flag_h());
    assert!(!state.flag_c());
}

#[test]
fn test_xor_a_clears_all_flags() {
    let mut state = State::new();
    state.a = 0xAA;
    state.set_flag_c(true); // Set carry flag
    state.set_flag_n(true); // Set N flag
    state.set_flag_h(true); // Set H flag

    xor_a(0x55, &mut state);

    assert_eq!(state.a, 0xFF);
    assert!(!state.flag_z());
    assert!(!state.flag_n()); // N cleared
    assert!(!state.flag_h()); // H cleared
    assert!(!state.flag_c()); // C cleared
}

#[test]
fn test_xor_a_invert() {
    let mut state = State::new();
    state.a = 0b10101010;

    xor_a(0xFF, &mut state); // XOR with 0xFF inverts all bits

    assert_eq!(state.a, 0b01010101);
    assert!(!state.flag_z());
    assert!(!state.flag_n());
    assert!(!state.flag_h());
    assert!(!state.flag_c());
}

// Tests for OR A,r
#[test]
fn test_or_a_normal() {
    let mut state = State::new();
    state.a = 0b11110000;

    or_a(0b10101010, &mut state);

    assert_eq!(state.a, 0b11111010);
    assert!(!state.flag_z());
    assert!(!state.flag_n());
    assert!(!state.flag_h());
    assert!(!state.flag_c());
}

#[test]
fn test_or_a_with_self() {
    let mut state = State::new();
    state.a = 0x5A;

    or_a(0x5A, &mut state);

    assert_eq!(state.a, 0x5A); // OR with self is identity
    assert!(!state.flag_z());
    assert!(!state.flag_n());
    assert!(!state.flag_h());
    assert!(!state.flag_c());
}

#[test]
fn test_or_a_with_zero() {
    let mut state = State::new();
    state.a = 0xFF;

    or_a(0x00, &mut state);

    assert_eq!(state.a, 0xFF); // OR with 0 is identity
    assert!(!state.flag_z());
    assert!(!state.flag_n());
    assert!(!state.flag_h());
    assert!(!state.flag_c());
}

#[test]
fn test_or_a_zero_result() {
    let mut state = State::new();
    state.a = 0x00;

    or_a(0x00, &mut state);

    assert_eq!(state.a, 0x00);
    assert!(state.flag_z()); // Zero result
    assert!(!state.flag_n());
    assert!(!state.flag_h());
    assert!(!state.flag_c());
}

#[test]
fn test_or_a_clears_all_flags() {
    let mut state = State::new();
    state.a = 0x0F;
    state.set_flag_c(true); // Set carry flag
    state.set_flag_n(true); // Set N flag
    state.set_flag_h(true); // Set H flag

    or_a(0xF0, &mut state);

    assert_eq!(state.a, 0xFF);
    assert!(!state.flag_z());
    assert!(!state.flag_n()); // N cleared
    assert!(!state.flag_h()); // H cleared
    assert!(!state.flag_c()); // C cleared
}

// Tests for CP A,r (compare)
#[test]
fn test_cp_a_equal() {
    let mut state = State::new();
    state.a = 0x42;

    cp_a(0x42, &mut state);

    assert_eq!(state.a, 0x42); // A unchanged
    assert!(state.flag_z()); // Equal (A == value)
    assert!(state.flag_n()); // Subtraction
    assert!(!state.flag_h());
    assert!(!state.flag_c());
}

#[test]
fn test_cp_a_greater_than() {
    let mut state = State::new();
    state.a = 0x50;

    cp_a(0x30, &mut state);

    assert_eq!(state.a, 0x50); // A unchanged
    assert!(!state.flag_z()); // Not equal
    assert!(state.flag_n());
    assert!(!state.flag_h());
    assert!(!state.flag_c()); // No borrow (A > value)
}

#[test]
fn test_cp_a_less_than() {
    let mut state = State::new();
    state.a = 0x30;

    cp_a(0x50, &mut state);

    assert_eq!(state.a, 0x30); // A unchanged
    assert!(!state.flag_z());
    assert!(state.flag_n());
    assert!(!state.flag_h());
    assert!(state.flag_c()); // Borrow (A < value)
}

#[test]
fn test_cp_a_half_borrow() {
    let mut state = State::new();
    state.a = 0x3E;

    cp_a(0x0F, &mut state);

    assert_eq!(state.a, 0x3E); // A unchanged
    assert!(!state.flag_z());
    assert!(state.flag_n());
    assert!(state.flag_h()); // Half borrow: 0xE < 0xF
    assert!(!state.flag_c());
}

#[test]
fn test_cp_a_with_zero() {
    let mut state = State::new();
    state.a = 0x00;

    cp_a(0x00, &mut state);

    assert_eq!(state.a, 0x00); // A unchanged
    assert!(state.flag_z()); // 0 == 0
    assert!(state.flag_n());
    assert!(!state.flag_h());
    assert!(!state.flag_c());
}

#[test]
fn test_cp_a_underflow() {
    let mut state = State::new();
    state.a = 0x00;

    cp_a(0x01, &mut state);

    assert_eq!(state.a, 0x00); // A unchanged (important!)
    assert!(!state.flag_z());
    assert!(state.flag_n());
    assert!(state.flag_h()); // Half borrow
    assert!(state.flag_c()); // Borrow
}

// Tests for RET instructions
#[test]
fn test_ret_nz_returns_when_z_clear() {
    let mut state = State::new();
    state.sp = 0xFFF0;
    state.pc = 0x1234;
    state.set_flag_z(false);

    // Setup stack with return address 0xABCD
    state.write(0xFFF0, 0xCD); // Low byte
    state.write(0xFFF1, 0xAB); // High byte

    ret_nz(&mut state);

    assert_eq!(state.pc, 0xABCD); // PC set to return address
    assert_eq!(state.sp, 0xFFF2); // SP incremented by 2
}

#[test]
fn test_ret_nz_no_return_when_z_set() {
    let mut state = State::new();
    state.sp = 0xFFF0;
    state.pc = 0x1234;
    state.set_flag_z(true);

    // Setup stack with return address 0xABCD
    state.write(0xFFF0, 0xCD); // Low byte
    state.write(0xFFF1, 0xAB); // High byte

    ret_nz(&mut state);

    assert_eq!(state.pc, 0x1234); // PC unchanged
    assert_eq!(state.sp, 0xFFF0); // SP unchanged
}

#[test]
fn test_ret_pops_correct_address() {
    let mut state = State::new();
    state.sp = 0x1000;

    // Test little-endian byte order
    state.write(0x1000, 0x34); // Low byte
    state.write(0x1001, 0x12); // High byte

    ret(&mut state);

    assert_eq!(state.pc, 0x1234);
    assert_eq!(state.sp, 0x1002);
}

// Tests for POP BC
#[test]
fn test_pop_bc_basic() {
    let mut state = State::new();
    state.sp = 0xFFF0;
    state.b = 0x00;
    state.c = 0x00;

    // Setup stack with value 0x1234
    state.write(0xFFF0, 0x34); // Low byte (C)
    state.write(0xFFF1, 0x12); // High byte (B)

    pop_bc(&mut state);

    assert_eq!(state.c, 0x34);
    assert_eq!(state.b, 0x12);
    assert_eq!(state.sp, 0xFFF2); // SP incremented by 2
}

#[test]
fn test_pop_bc_little_endian() {
    let mut state = State::new();
    state.sp = 0x2000;

    // Test that bytes are popped in correct order (little-endian)
    state.write(0x2000, 0xCD); // Low byte goes to C
    state.write(0x2001, 0xAB); // High byte goes to B

    pop_bc(&mut state);

    assert_eq!(state.c, 0xCD);
    assert_eq!(state.b, 0xAB);
    assert_eq!(state.sp, 0x2002);
}

#[test]
fn test_pop_bc_overwrites_previous_values() {
    let mut state = State::new();
    state.sp = 0x3000;
    state.b = 0xFF;
    state.c = 0xFF;

    state.write(0x3000, 0x11);
    state.write(0x3001, 0x22);

    pop_bc(&mut state);

    assert_eq!(state.c, 0x11);
    assert_eq!(state.b, 0x22);
}

// Tests for JP (absolute jump)
#[test]
fn test_jp_sets_pc_to_address() {
    let mut state = State::new();
    state.pc = 0x100;

    // Write jump address 0x8000 at PC (little-endian)
    state.write(0x100, 0x00); // Low byte
    state.write(0x101, 0x80); // High byte

    jp(&mut state);

    assert_eq!(state.pc, 0x8000);
}

#[test]
fn test_jp_little_endian() {
    let mut state = State::new();
    state.pc = 0x200;

    // Write jump address 0x1234 (little-endian)
    state.write(0x200, 0x34); // Low byte
    state.write(0x201, 0x12); // High byte

    jp(&mut state);

    assert_eq!(state.pc, 0x1234);
}

#[test]
fn test_jp_nz_jumps_when_z_clear() {
    let mut state = State::new();
    state.pc = 0x150;
    state.set_flag_z(false);

    state.write(0x150, 0xCD); // Low byte
    state.write(0x151, 0xAB); // High byte

    jp_nz(&mut state);

    assert_eq!(state.pc, 0xABCD);
}

#[test]
fn test_jp_nz_no_jump_when_z_set() {
    let mut state = State::new();
    state.pc = 0x150;
    state.set_flag_z(true);

    state.write(0x150, 0xCD); // Low byte
    state.write(0x151, 0xAB); // High byte

    jp_nz(&mut state);

    // PC should be incremented by 2 (past the address bytes) but not jump
    assert_eq!(state.pc, 0x152);
}

// Tests for CALL
#[test]
fn test_call_pushes_return_address_and_jumps() {
    let mut state = State::new();
    state.pc = 0x100;
    state.sp = 0xFFFE;

    // Write call target address 0x8000 at PC (little-endian)
    state.write(0x100, 0x00); // Low byte
    state.write(0x101, 0x80); // High byte

    call(&mut state);

    // PC should be at target address
    assert_eq!(state.pc, 0x8000);

    // Return address (0x102) should be pushed onto stack (little-endian)
    assert_eq!(state.sp, 0xFFFC);
    assert_eq!(state.read(0xFFFC), 0x02); // Low byte of return address
    assert_eq!(state.read(0xFFFD), 0x01); // High byte of return address
}

#[test]
fn test_call_nz_calls_when_z_clear() {
    let mut state = State::new();
    state.pc = 0x200;
    state.sp = 0xFF00;
    state.set_flag_z(false);

    state.write(0x200, 0x34); // Low byte
    state.write(0x201, 0x12); // High byte

    call_nz(&mut state);

    // Should have called (jumped and pushed return address)
    assert_eq!(state.pc, 0x1234);
    assert_eq!(state.sp, 0xFEFE);
    assert_eq!(state.read(0xFEFE), 0x02); // Low byte of 0x202
    assert_eq!(state.read(0xFEFF), 0x02); // High byte of 0x202
}

#[test]
fn test_call_nz_no_call_when_z_set() {
    let mut state = State::new();
    state.pc = 0x200;
    state.sp = 0xFF00;
    state.set_flag_z(true);

    state.write(0x200, 0x34); // Low byte
    state.write(0x201, 0x12); // High byte

    call_nz(&mut state);

    // Should not have called (PC advanced, SP unchanged)
    assert_eq!(state.pc, 0x202);
    assert_eq!(state.sp, 0xFF00);
}

#[test]
fn test_push_16bit_little_endian() {
    let mut state = State::new();
    state.sp = 0x2000;

    push_16bit(0xABCD, &mut state);

    // SP decremented by 2
    assert_eq!(state.sp, 0x1FFE);

    // Verify little-endian storage (low byte at lower address)
    assert_eq!(state.read(0x1FFE), 0xCD); // Low byte
    assert_eq!(state.read(0x1FFF), 0xAB); // High byte
}

// Tests for RST
#[test]
fn test_rst_08_pushes_pc_and_jumps() {
    let mut state = State::new();
    state.pc = 0x1234;
    state.sp = 0xFFFE;

    rst_08(&mut state);

    // PC should be at RST vector 0x0008
    assert_eq!(state.pc, 0x0008);

    // Return address (0x1234) should be pushed onto stack
    assert_eq!(state.sp, 0xFFFC);
    assert_eq!(state.read(0xFFFC), 0x34); // Low byte
    assert_eq!(state.read(0xFFFD), 0x12); // High byte
}

#[test]
fn test_inc_8bit_normal() {
    let mut state = State::new();
    state.a = 0x42;

    inc_a(&mut state);

    assert_eq!(state.a, 0x43);
    assert!(!state.flag_z());
    assert!(!state.flag_n());
    assert!(!state.flag_h());
}

#[test]
fn test_inc_8bit_zero() {
    let mut state = State::new();
    state.b = 0xFF;

    inc_b(&mut state);

    assert_eq!(state.b, 0x00);
    assert!(state.flag_z()); // Result is zero
    assert!(!state.flag_n());
    assert!(state.flag_h()); // Half carry from 0xF to 0x0
}

#[test]
fn test_inc_8bit_half_carry() {
    let mut state = State::new();
    state.c = 0x0F;

    inc_c(&mut state);

    assert_eq!(state.c, 0x10);
    assert!(!state.flag_z());
    assert!(!state.flag_n());
    assert!(state.flag_h()); // Half carry from bit 3 to bit 4
}

#[test]
fn test_inc_8bit_all_registers() {
    let mut state = State::new();

    state.a = 0x00;
    inc_a(&mut state);
    assert_eq!(state.a, 0x01);
    state.b = 0x00;
    inc_b(&mut state);
    assert_eq!(state.b, 0x01);
    state.c = 0x00;
    inc_c(&mut state);
    assert_eq!(state.c, 0x01);
    state.d = 0x00;
    inc_d(&mut state);
    assert_eq!(state.d, 0x01);
    state.e = 0x00;
    inc_e(&mut state);
    assert_eq!(state.e, 0x01);
    state.h = 0x00;
    inc_h(&mut state);
    assert_eq!(state.h, 0x01);
    state.l = 0x00;
    inc_l(&mut state);
    assert_eq!(state.l, 0x01);
}

#[test]
fn test_inc_16bit_normal() {
    let mut state = State::new();
    state.set_bc(0x1234);

    inc_bc(&mut state);

    assert_eq!(state.bc(), 0x1235);
}

#[test]
fn test_inc_16bit_overflow() {
    let mut state = State::new();
    state.set_de(0xFFFF);

    inc_de(&mut state);

    assert_eq!(state.de(), 0x0000);
}

#[test]
fn test_inc_16bit_all_registers() {
    let mut state = State::new();

    state.set_bc(0x0000);
    inc_bc(&mut state);
    assert_eq!(state.bc(), 0x0001);
    state.set_de(0x0000);
    inc_de(&mut state);
    assert_eq!(state.de(), 0x0001);
    state.set_hl(0x0000);
    inc_hl(&mut state);
    assert_eq!(state.hl(), 0x0001);
    state.set_sp(0x0000);
    inc_sp(&mut state);
    assert_eq!(state.sp(), 0x0001);
}

#[test]
fn test_dec_8bit_normal() {
    let mut state = State::new();
    state.a = 0x42;

    dec_a(&mut state);

    assert_eq!(state.a, 0x41);
    assert!(!state.flag_z());
    assert!(state.flag_n()); // N flag is set for subtraction
    assert!(!state.flag_h());
}

#[test]
fn test_dec_8bit_zero() {
    let mut state = State::new();
    state.b = 0x01;

    dec_b(&mut state);

    assert_eq!(state.b, 0x00);
    assert!(state.flag_z()); // Result is zero
    assert!(state.flag_n());
    assert!(!state.flag_h()); // No half-borrow
}

#[test]
fn test_dec_8bit_half_borrow() {
    let mut state = State::new();
    state.c = 0x10;

    dec_c(&mut state);

    assert_eq!(state.c, 0x0F);
    assert!(!state.flag_z());
    assert!(state.flag_n());
    assert!(state.flag_h()); // Half borrow from bit 4 to bit 3
}

#[test]
fn test_dec_8bit_underflow() {
    let mut state = State::new();
    state.d = 0x00;

    dec_d(&mut state);

    assert_eq!(state.d, 0xFF);
    assert!(!state.flag_z());
    assert!(state.flag_n());
    assert!(state.flag_h()); // Half borrow when decrementing from 0
}

#[test]
fn test_dec_8bit_all_registers() {
    let mut state = State::new();

    state.a = 0x02;
    dec_a(&mut state);
    assert_eq!(state.a, 0x01);
    state.b = 0x02;
    dec_b(&mut state);
    assert_eq!(state.b, 0x01);
    state.c = 0x02;
    dec_c(&mut state);
    assert_eq!(state.c, 0x01);
    state.d = 0x02;
    dec_d(&mut state);
    assert_eq!(state.d, 0x01);
    state.e = 0x02;
    dec_e(&mut state);
    assert_eq!(state.e, 0x01);
    state.h = 0x02;
    dec_h(&mut state);
    assert_eq!(state.h, 0x01);
    state.l = 0x02;
    dec_l(&mut state);
    assert_eq!(state.l, 0x01);
}

#[test]
fn test_dec_16bit_normal() {
    let mut state = State::new();
    state.set_bc(0x1234);

    dec_bc(&mut state);

    assert_eq!(state.bc(), 0x1233);
}

#[test]
fn test_dec_16bit_underflow() {
    let mut state = State::new();
    state.set_de(0x0000);

    dec_de(&mut state);

    assert_eq!(state.de(), 0xFFFF);
}

#[test]
fn test_dec_16bit_all_registers() {
    let mut state = State::new();

    state.set_bc(0x0002);
    dec_bc(&mut state);
    assert_eq!(state.bc(), 0x0001);
    state.set_de(0x0002);
    dec_de(&mut state);
    assert_eq!(state.de(), 0x0001);
    state.set_hl(0x0002);
    dec_hl(&mut state);
    assert_eq!(state.hl(), 0x0001);
    state.set_sp(0x0002);
    dec_sp(&mut state);
    assert_eq!(state.sp(), 0x0001);
}

#[test]
fn test_rlc_normal() {
    let mut state = State::new();
    state.a = 0b0100_1010; // 0x4A

    rlc_a(&mut state);

    assert_eq!(state.a, 0b1001_0100); // 0x94
    assert!(!state.flag_z());
    assert!(!state.flag_n());
    assert!(!state.flag_h());
    assert!(!state.flag_c()); // Bit 7 was 0
}

#[test]
fn test_rlc_with_carry() {
    let mut state = State::new();
    state.b = 0b1100_1010; // 0xCA

    rlc_b(&mut state);

    assert_eq!(state.b, 0b1001_0101); // 0x95
    assert!(!state.flag_z());
    assert!(!state.flag_n());
    assert!(!state.flag_h());
    assert!(state.flag_c()); // Bit 7 was 1
}

#[test]
fn test_rlc_zero_result() {
    let mut state = State::new();
    state.c = 0x00;

    rlc_c(&mut state);

    assert_eq!(state.c, 0x00);
    assert!(state.flag_z()); // Result is zero
    assert!(!state.flag_n());
    assert!(!state.flag_h());
    assert!(!state.flag_c());
}

#[test]
fn test_rlc_bit7_wraps() {
    let mut state = State::new();
    state.d = 0x80; // 0b1000_0000

    rlc_d(&mut state);

    assert_eq!(state.d, 0x01); // 0b0000_0001 - bit 7 wraps to bit 0
    assert!(!state.flag_z());
    assert!(!state.flag_n());
    assert!(!state.flag_h());
    assert!(state.flag_c()); // Bit 7 was 1
}

#[test]
fn test_rlc_all_registers() {
    let mut state = State::new();

    state.a = 0x01;
    rlc_a(&mut state);
    assert_eq!(state.a, 0x02);

    state.b = 0x01;
    rlc_b(&mut state);
    assert_eq!(state.b, 0x02);

    state.c = 0x01;
    rlc_c(&mut state);
    assert_eq!(state.c, 0x02);

    state.d = 0x01;
    rlc_d(&mut state);
    assert_eq!(state.d, 0x02);

    state.e = 0x01;
    rlc_e(&mut state);
    assert_eq!(state.e, 0x02);

    state.h = 0x01;
    rlc_h(&mut state);
    assert_eq!(state.h, 0x02);

    state.l = 0x01;
    rlc_l(&mut state);
    assert_eq!(state.l, 0x02);
}

#[test]
fn test_rlc_all_bits() {
    let mut state = State::new();
    state.a = 0xFF;

    rlc_a(&mut state);

    assert_eq!(state.a, 0xFF); // All bits rotate, stays same
    assert!(!state.flag_z());
    assert!(!state.flag_n());
    assert!(!state.flag_h());
    assert!(state.flag_c()); // Bit 7 was 1
}

#[test]
fn test_rlca_always_resets_z() {
    let mut state = State::new();
    state.a = 0x00;

    rlca(&mut state);

    assert_eq!(state.a, 0x00);
    assert!(!state.flag_z()); // RLCA always resets Z, even when result is 0
    assert!(!state.flag_n());
    assert!(!state.flag_h());
    assert!(!state.flag_c());
}

#[test]
fn test_rlca_normal() {
    let mut state = State::new();
    state.a = 0b1100_1010; // 0xCA

    rlca(&mut state);

    assert_eq!(state.a, 0b1001_0101); // 0x95
    assert!(!state.flag_z()); // RLCA always resets Z
    assert!(!state.flag_n());
    assert!(!state.flag_h());
    assert!(state.flag_c()); // Bit 7 was 1
}

#[test]
fn test_rrc_normal() {
    let mut state = State::new();
    state.a = 0b0100_1010; // 0x4A

    rrc_a(&mut state);

    assert_eq!(state.a, 0b0010_0101); // 0x25
    assert!(!state.flag_z());
    assert!(!state.flag_n());
    assert!(!state.flag_h());
    assert!(!state.flag_c()); // Bit 0 was 0
}

#[test]
fn test_rrc_with_carry() {
    let mut state = State::new();
    state.b = 0b1100_1011; // 0xCB

    rrc_b(&mut state);

    assert_eq!(state.b, 0b1110_0101); // 0xE5
    assert!(!state.flag_z());
    assert!(!state.flag_n());
    assert!(!state.flag_h());
    assert!(state.flag_c()); // Bit 0 was 1
}

#[test]
fn test_rrc_zero_result() {
    let mut state = State::new();
    state.c = 0x00;

    rrc_c(&mut state);

    assert_eq!(state.c, 0x00);
    assert!(state.flag_z()); // Result is zero
    assert!(!state.flag_n());
    assert!(!state.flag_h());
    assert!(!state.flag_c());
}

#[test]
fn test_rrc_bit0_wraps() {
    let mut state = State::new();
    state.d = 0x01; // 0b0000_0001

    rrc_d(&mut state);

    assert_eq!(state.d, 0x80); // 0b1000_0000 - bit 0 wraps to bit 7
    assert!(!state.flag_z());
    assert!(!state.flag_n());
    assert!(!state.flag_h());
    assert!(state.flag_c()); // Bit 0 was 1
}

#[test]
fn test_rrc_all_registers() {
    let mut state = State::new();

    state.a = 0x80;
    rrc_a(&mut state);
    assert_eq!(state.a, 0x40);

    state.b = 0x80;
    rrc_b(&mut state);
    assert_eq!(state.b, 0x40);

    state.c = 0x80;
    rrc_c(&mut state);
    assert_eq!(state.c, 0x40);

    state.d = 0x80;
    rrc_d(&mut state);
    assert_eq!(state.d, 0x40);

    state.e = 0x80;
    rrc_e(&mut state);
    assert_eq!(state.e, 0x40);

    state.h = 0x80;
    rrc_h(&mut state);
    assert_eq!(state.h, 0x40);

    state.l = 0x80;
    rrc_l(&mut state);
    assert_eq!(state.l, 0x40);
}

#[test]
fn test_rrc_all_bits() {
    let mut state = State::new();
    state.a = 0xFF;

    rrc_a(&mut state);

    assert_eq!(state.a, 0xFF); // All bits rotate, stays same
    assert!(!state.flag_z());
    assert!(!state.flag_n());
    assert!(!state.flag_h());
    assert!(state.flag_c()); // Bit 0 was 1
}

#[test]
fn test_rrca_always_resets_z() {
    let mut state = State::new();
    state.a = 0x00;

    rrca(&mut state);

    assert_eq!(state.a, 0x00);
    assert!(!state.flag_z()); // RRCA always resets Z, even when result is 0
    assert!(!state.flag_n());
    assert!(!state.flag_h());
    assert!(!state.flag_c());
}

#[test]
fn test_rrca_normal() {
    let mut state = State::new();
    state.a = 0b1100_1011; // 0xCB

    rrca(&mut state);

    assert_eq!(state.a, 0b1110_0101); // 0xE5
    assert!(!state.flag_z()); // RRCA always resets Z
    assert!(!state.flag_n());
    assert!(!state.flag_h());
    assert!(state.flag_c()); // Bit 0 was 1
}

#[test]
fn test_rl_normal_carry_clear() {
    let mut state = State::new();
    state.a = 0b0100_1010; // 0x4A
    state.set_flag_c(false);

    rl_a(&mut state);

    assert_eq!(state.a, 0b1001_0100); // 0x94
    assert!(!state.flag_z());
    assert!(!state.flag_n());
    assert!(!state.flag_h());
    assert!(!state.flag_c()); // Bit 7 was 0
}

#[test]
fn test_rl_normal_carry_set() {
    let mut state = State::new();
    state.b = 0b0100_1010; // 0x4A
    state.set_flag_c(true);

    rl_b(&mut state);

    assert_eq!(state.b, 0b1001_0101); // 0x95 (carry flag becomes bit 0)
    assert!(!state.flag_z());
    assert!(!state.flag_n());
    assert!(!state.flag_h());
    assert!(!state.flag_c()); // Bit 7 was 0
}

#[test]
fn test_rl_with_carry_out() {
    let mut state = State::new();
    state.c = 0b1100_1010; // 0xCA
    state.set_flag_c(false);

    rl_c(&mut state);

    assert_eq!(state.c, 0b1001_0100); // 0x94
    assert!(!state.flag_z());
    assert!(!state.flag_n());
    assert!(!state.flag_h());
    assert!(state.flag_c()); // Bit 7 was 1
}

#[test]
fn test_rl_zero_result() {
    let mut state = State::new();
    state.d = 0x00;
    state.set_flag_c(false);

    rl_d(&mut state);

    assert_eq!(state.d, 0x00);
    assert!(state.flag_z()); // Result is zero
    assert!(!state.flag_n());
    assert!(!state.flag_h());
    assert!(!state.flag_c());
}

#[test]
fn test_rl_bit7_to_carry() {
    let mut state = State::new();
    state.e = 0x80; // 0b1000_0000
    state.set_flag_c(true);

    rl_e(&mut state);

    assert_eq!(state.e, 0x01); // 0b0000_0001 (carry in becomes bit 0)
    assert!(!state.flag_z());
    assert!(!state.flag_n());
    assert!(!state.flag_h());
    assert!(state.flag_c()); // Bit 7 was 1
}

#[test]
fn test_rl_all_registers() {
    let mut state = State::new();

    state.a = 0x01;
    state.set_flag_c(false);
    rl_a(&mut state);
    assert_eq!(state.a, 0x02);

    state.b = 0x01;
    state.set_flag_c(false);
    rl_b(&mut state);
    assert_eq!(state.b, 0x02);

    state.c = 0x01;
    state.set_flag_c(false);
    rl_c(&mut state);
    assert_eq!(state.c, 0x02);

    state.d = 0x01;
    state.set_flag_c(false);
    rl_d(&mut state);
    assert_eq!(state.d, 0x02);

    state.e = 0x01;
    state.set_flag_c(false);
    rl_e(&mut state);
    assert_eq!(state.e, 0x02);

    state.h = 0x01;
    state.set_flag_c(false);
    rl_h(&mut state);
    assert_eq!(state.h, 0x02);

    state.l = 0x01;
    state.set_flag_c(false);
    rl_l(&mut state);
    assert_eq!(state.l, 0x02);
}

#[test]
fn test_rl_carry_propagation() {
    let mut state = State::new();
    state.a = 0xFF;
    state.set_flag_c(true);

    rl_a(&mut state);

    assert_eq!(state.a, 0xFF); // All bits set, carry in becomes bit 0
    assert!(!state.flag_z());
    assert!(!state.flag_n());
    assert!(!state.flag_h());
    assert!(state.flag_c()); // Bit 7 was 1
}

#[test]
fn test_rla_always_resets_z() {
    let mut state = State::new();
    state.a = 0x00;
    state.set_flag_c(false);

    rla(&mut state);

    assert_eq!(state.a, 0x00);
    assert!(!state.flag_z()); // RLA always resets Z, even when result is 0
    assert!(!state.flag_n());
    assert!(!state.flag_h());
    assert!(!state.flag_c());
}

#[test]
fn test_rla_normal() {
    let mut state = State::new();
    state.a = 0b1100_1010; // 0xCA
    state.set_flag_c(true);

    rla(&mut state);

    assert_eq!(state.a, 0b1001_0101); // 0x95 (carry becomes bit 0)
    assert!(!state.flag_z()); // RLA always resets Z
    assert!(!state.flag_n());
    assert!(!state.flag_h());
    assert!(state.flag_c()); // Bit 7 was 1
}

#[test]
fn test_rla_without_carry() {
    let mut state = State::new();
    state.a = 0b0100_1010; // 0x4A
    state.set_flag_c(false);

    rla(&mut state);

    assert_eq!(state.a, 0b1001_0100); // 0x94
    assert!(!state.flag_z()); // RLA always resets Z
    assert!(!state.flag_n());
    assert!(!state.flag_h());
    assert!(!state.flag_c()); // Bit 7 was 0
}

#[test]
fn test_jr_positive_offset() {
    let mut state = State::new();
    state.pc = 0x1000;
    state.write(0x1000, 0x10); // Jump forward by 16 bytes

    jr(&mut state);

    // PC should be 0x1000 + 1 (read offset) + 0x10 (offset) = 0x1011
    assert_eq!(state.pc, 0x1011);
}

#[test]
fn test_jr_negative_offset() {
    let mut state = State::new();
    state.pc = 0x1000;
    state.write(0x1000, 0xFE); // Jump backward by 2 bytes (-2 as signed i8)

    jr(&mut state);

    // PC should be 0x1000 + 1 (read offset) + (-2) = 0x0FFF
    assert_eq!(state.pc, 0x0FFF);
}

#[test]
fn test_jr_zero_offset() {
    let mut state = State::new();
    state.pc = 0x1000;
    state.write(0x1000, 0x00); // No jump, just move to next instruction

    jr(&mut state);

    // PC should be 0x1000 + 1 = 0x1001 (infinite loop at current position)
    assert_eq!(state.pc, 0x1001);
}

#[test]
fn test_jr_max_positive_offset() {
    let mut state = State::new();
    state.pc = 0x1000;
    state.write(0x1000, 0x7F); // Jump forward by 127 bytes (max positive i8)

    jr(&mut state);

    // PC should be 0x1000 + 1 + 0x7F = 0x1080
    assert_eq!(state.pc, 0x1080);
}

#[test]
fn test_jr_max_negative_offset() {
    let mut state = State::new();
    state.pc = 0x1000;
    state.write(0x1000, 0x80); // Jump backward by 128 bytes (min i8 = -128)

    jr(&mut state);

    // PC should be 0x1000 + 1 + (-128) = 0x1001 - 128 = 0x0F81
    assert_eq!(state.pc, 0x0F81);
}

#[test]
fn test_jr_wrap_around() {
    let mut state = State::new();
    state.pc = 0xFFFE;
    state.write(0xFFFE, 0x05); // Jump forward by 5 bytes

    jr(&mut state);

    // PC should wrap around: 0xFFFE + 1 + 5 = 0x10004 -> 0x0004 (wrapping)
    assert_eq!(state.pc, 0x0004);
}

#[test]
fn test_jr_backward_loop() {
    let mut state = State::new();
    state.pc = 0x1005;
    state.write(0x1005, 0xFE); // -2, creates infinite loop

    jr(&mut state);

    // PC should be 0x1005 + 1 + (-2) = 0x1004
    assert_eq!(state.pc, 0x1004);
}

#[test]
fn test_add_hl_bc_normal() {
    let mut state = State::new();
    state.set_hl(0x1000);
    state.set_bc(0x0234);

    add_hl_bc(&mut state);

    assert_eq!(state.hl(), 0x1234);
    assert!(!state.flag_n());
    assert!(!state.flag_h());
    assert!(!state.flag_c());
}

#[test]
fn test_add_hl_de_normal() {
    let mut state = State::new();
    state.set_hl(0x2000);
    state.set_de(0x0500);

    add_hl_de(&mut state);

    assert_eq!(state.hl(), 0x2500);
    assert!(!state.flag_n());
    assert!(!state.flag_h());
    assert!(!state.flag_c());
}

#[test]
fn test_add_hl_half_carry() {
    let mut state = State::new();
    state.set_hl(0x0FFF);
    state.set_bc(0x0001);

    add_hl_bc(&mut state);

    assert_eq!(state.hl(), 0x1000);
    assert!(!state.flag_n());
    assert!(state.flag_h()); // Half carry from bit 11
    assert!(!state.flag_c());
}

#[test]
fn test_add_hl_carry() {
    let mut state = State::new();
    state.set_hl(0xFFFF);
    state.set_de(0x0001);

    add_hl_de(&mut state);

    assert_eq!(state.hl(), 0x0000);
    assert!(!state.flag_n());
    assert!(state.flag_h()); // Half carry from bit 11
    assert!(state.flag_c()); // Carry from bit 15
}

#[test]
fn test_add_hl_both_carries() {
    let mut state = State::new();
    state.set_hl(0xFFFF);
    state.set_bc(0xFFFF);

    add_hl_bc(&mut state);

    assert_eq!(state.hl(), 0xFFFE);
    assert!(!state.flag_n());
    assert!(state.flag_h()); // Half carry from bit 11
    assert!(state.flag_c()); // Carry from bit 15
}

#[test]
fn test_add_hl_hl_double() {
    let mut state = State::new();
    state.set_hl(0x1234);

    add_hl_hl(&mut state);

    assert_eq!(state.hl(), 0x2468);
    assert!(!state.flag_n());
    assert!(!state.flag_h());
    assert!(!state.flag_c());
}

#[test]
fn test_add_hl_sp() {
    let mut state = State::new();
    state.set_hl(0x1000);
    state.set_sp(0x0200);

    add_hl_sp(&mut state);

    assert_eq!(state.hl(), 0x1200);
    assert!(!state.flag_n());
    assert!(!state.flag_h());
    assert!(!state.flag_c());
}

#[test]
fn test_add_hl_z_flag_preserved() {
    let mut state = State::new();
    state.set_hl(0x1000);
    state.set_bc(0x1000);
    state.set_flag_z(true); // Set Z flag

    add_hl_bc(&mut state);

    assert_eq!(state.hl(), 0x2000);
    assert!(state.flag_z()); // Z flag should be preserved
    assert!(!state.flag_n());
}

#[test]
fn test_add_hl_half_carry_boundary() {
    let mut state = State::new();
    state.set_hl(0x0800);
    state.set_de(0x0800);

    add_hl_de(&mut state);

    assert_eq!(state.hl(), 0x1000);
    assert!(!state.flag_n());
    assert!(state.flag_h()); // Half carry at bit 11
    assert!(!state.flag_c());
}

#[test]
fn test_add_hl_no_half_carry_just_below() {
    let mut state = State::new();
    state.set_hl(0x07FF);
    state.set_bc(0x0800);

    add_hl_bc(&mut state);

    assert_eq!(state.hl(), 0x0FFF);
    assert!(!state.flag_n());
    assert!(!state.flag_h()); // No half carry
    assert!(!state.flag_c());
}

#[test]
fn test_add_hl_carry_boundary() {
    let mut state = State::new();
    state.set_hl(0x8000);
    state.set_de(0x8000);

    add_hl_de(&mut state);

    assert_eq!(state.hl(), 0x0000);
    assert!(!state.flag_n());
    assert!(!state.flag_h());
    assert!(state.flag_c()); // Carry from bit 15
}

#[test]
fn test_rr_normal_carry_clear() {
    let mut state = State::new();
    state.a = 0b1001_0100; // 0x94
    state.set_flag_c(false);

    rr_a(&mut state);

    assert_eq!(state.a, 0b0100_1010); // 0x4A
    assert!(!state.flag_z());
    assert!(!state.flag_n());
    assert!(!state.flag_h());
    assert!(!state.flag_c()); // Bit 0 was 0
}

#[test]
fn test_rr_normal_carry_set() {
    let mut state = State::new();
    state.b = 0b1001_0100; // 0x94
    state.set_flag_c(true);

    rr_b(&mut state);

    assert_eq!(state.b, 0b1100_1010); // 0xCA (carry flag becomes bit 7)
    assert!(!state.flag_z());
    assert!(!state.flag_n());
    assert!(!state.flag_h());
    assert!(!state.flag_c()); // Bit 0 was 0
}

#[test]
fn test_rr_with_carry_out() {
    let mut state = State::new();
    state.c = 0b1001_0101; // 0x95
    state.set_flag_c(false);

    rr_c(&mut state);

    assert_eq!(state.c, 0b0100_1010); // 0x4A
    assert!(!state.flag_z());
    assert!(!state.flag_n());
    assert!(!state.flag_h());
    assert!(state.flag_c()); // Bit 0 was 1
}

#[test]
fn test_rr_zero_result() {
    let mut state = State::new();
    state.d = 0x00;
    state.set_flag_c(false);

    rr_d(&mut state);

    assert_eq!(state.d, 0x00);
    assert!(state.flag_z()); // Result is zero
    assert!(!state.flag_n());
    assert!(!state.flag_h());
    assert!(!state.flag_c());
}

#[test]
fn test_rr_bit0_to_carry() {
    let mut state = State::new();
    state.e = 0x01; // 0b0000_0001
    state.set_flag_c(true);

    rr_e(&mut state);

    assert_eq!(state.e, 0x80); // 0b1000_0000 (carry in becomes bit 7)
    assert!(!state.flag_z());
    assert!(!state.flag_n());
    assert!(!state.flag_h());
    assert!(state.flag_c()); // Bit 0 was 1
}

#[test]
fn test_rr_all_registers() {
    let mut state = State::new();

    state.a = 0x80;
    state.set_flag_c(false);
    rr_a(&mut state);
    assert_eq!(state.a, 0x40);

    state.b = 0x80;
    state.set_flag_c(false);
    rr_b(&mut state);
    assert_eq!(state.b, 0x40);

    state.c = 0x80;
    state.set_flag_c(false);
    rr_c(&mut state);
    assert_eq!(state.c, 0x40);

    state.d = 0x80;
    state.set_flag_c(false);
    rr_d(&mut state);
    assert_eq!(state.d, 0x40);

    state.e = 0x80;
    state.set_flag_c(false);
    rr_e(&mut state);
    assert_eq!(state.e, 0x40);

    state.h = 0x80;
    state.set_flag_c(false);
    rr_h(&mut state);
    assert_eq!(state.h, 0x40);

    state.l = 0x80;
    state.set_flag_c(false);
    rr_l(&mut state);
    assert_eq!(state.l, 0x40);
}

#[test]
fn test_rr_carry_propagation() {
    let mut state = State::new();
    state.a = 0xFF;
    state.set_flag_c(true);

    rr_a(&mut state);

    assert_eq!(state.a, 0xFF); // All bits set, carry in becomes bit 7
    assert!(!state.flag_z());
    assert!(!state.flag_n());
    assert!(!state.flag_h());
    assert!(state.flag_c()); // Bit 0 was 1
}

#[test]
fn test_rra_always_resets_z() {
    let mut state = State::new();
    state.a = 0x00;
    state.set_flag_c(false);

    rra(&mut state);

    assert_eq!(state.a, 0x00);
    assert!(!state.flag_z()); // RRA always resets Z, even when result is 0
    assert!(!state.flag_n());
    assert!(!state.flag_h());
    assert!(!state.flag_c());
}

#[test]
fn test_rra_normal() {
    let mut state = State::new();
    state.a = 0b1001_0101; // 0x95
    state.set_flag_c(true);

    rra(&mut state);

    assert_eq!(state.a, 0b1100_1010); // 0xCA (carry becomes bit 7)
    assert!(!state.flag_z()); // RRA always resets Z
    assert!(!state.flag_n());
    assert!(!state.flag_h());
    assert!(state.flag_c()); // Bit 0 was 1
}

#[test]
fn test_rra_without_carry() {
    let mut state = State::new();
    state.a = 0b1001_0100; // 0x94
    state.set_flag_c(false);

    rra(&mut state);

    assert_eq!(state.a, 0b0100_1010); // 0x4A
    assert!(!state.flag_z()); // RRA always resets Z
    assert!(!state.flag_n());
    assert!(!state.flag_h());
    assert!(!state.flag_c()); // Bit 0 was 0
}

#[test]
fn test_jr_nz_jumps_when_z_clear() {
    let mut state = State::new();
    state.pc = 0x1000;
    state.write(0x1000, 0x10); // Jump forward by 16 bytes
    state.set_flag_z(false); // Z flag clear

    jr_nz(&mut state);

    // Should jump: PC = 0x1000 + 1 + 0x10 = 0x1011
    assert_eq!(state.pc, 0x1011);
}

#[test]
fn test_jr_nz_no_jump_when_z_set() {
    let mut state = State::new();
    state.pc = 0x1000;
    state.write(0x1000, 0x10); // Jump forward by 16 bytes
    state.set_flag_z(true); // Z flag set

    jr_nz(&mut state);

    // Should not jump: PC = 0x1000 + 1 = 0x1001
    assert_eq!(state.pc, 0x1001);
}

#[test]
fn test_jr_nz_negative_offset() {
    let mut state = State::new();
    state.pc = 0x1000;
    state.write(0x1000, 0xFE); // Jump backward by 2 bytes (-2)
    state.set_flag_z(false); // Z flag clear

    jr_nz(&mut state);

    // Should jump: PC = 0x1000 + 1 + (-2) = 0x0FFF
    assert_eq!(state.pc, 0x0FFF);
}

#[test]
fn test_jr_nz_zero_offset() {
    let mut state = State::new();
    state.pc = 0x1000;
    state.write(0x1000, 0x00); // No offset
    state.set_flag_z(false); // Z flag clear

    jr_nz(&mut state);

    // Should "jump" to same location: PC = 0x1000 + 1 + 0 = 0x1001
    assert_eq!(state.pc, 0x1001);
}

#[test]
fn test_daa_after_add_no_adjust() {
    let mut state = State::new();
    state.a = 0x45; // BCD 45
    state.set_flag_n(false); // Addition
    state.set_flag_h(false);
    state.set_flag_c(false);

    daa(&mut state);

    assert_eq!(state.a, 0x45); // No adjustment needed
    assert!(!state.flag_z());
    assert!(!state.flag_h());
    assert!(!state.flag_c());
}

#[test]
fn test_daa_after_add_lower_nibble() {
    let mut state = State::new();
    state.a = 0x0F; // Lower nibble > 9
    state.set_flag_n(false); // Addition
    state.set_flag_h(false);
    state.set_flag_c(false);

    daa(&mut state);

    assert_eq!(state.a, 0x15); // 0x0F + 0x06 = 0x15
    assert!(!state.flag_z());
    assert!(!state.flag_h());
    assert!(!state.flag_c());
}

#[test]
fn test_daa_after_add_upper_nibble() {
    let mut state = State::new();
    state.a = 0x9A; // Upper nibble needs adjustment
    state.set_flag_n(false); // Addition
    state.set_flag_h(false);
    state.set_flag_c(false);

    daa(&mut state);

    assert_eq!(state.a, 0x00); // 0x9A + 0x60 = 0xFA, wraps to 0x00
    assert!(state.flag_z());
    assert!(!state.flag_h());
    assert!(state.flag_c()); // Carry set
}

#[test]
fn test_daa_after_add_both_nibbles() {
    let mut state = State::new();
    state.a = 0x9F; // Both nibbles need adjustment
    state.set_flag_n(false); // Addition
    state.set_flag_h(false);
    state.set_flag_c(false);

    daa(&mut state);

    assert_eq!(state.a, 0x05); // 0x9F + 0x66 = 0x105, wraps to 0x05
    assert!(!state.flag_z());
    assert!(!state.flag_h());
    assert!(state.flag_c()); // Carry set
}

#[test]
fn test_daa_after_add_with_half_carry() {
    let mut state = State::new();
    state.a = 0x12;
    state.set_flag_n(false); // Addition
    state.set_flag_h(true); // Half carry was set
    state.set_flag_c(false);

    daa(&mut state);

    assert_eq!(state.a, 0x18); // 0x12 + 0x06 = 0x18
    assert!(!state.flag_z());
    assert!(!state.flag_h()); // H flag reset by DAA
    assert!(!state.flag_c());
}

#[test]
fn test_daa_after_add_with_carry() {
    let mut state = State::new();
    state.a = 0x12;
    state.set_flag_n(false); // Addition
    state.set_flag_h(false);
    state.set_flag_c(true); // Carry was set

    daa(&mut state);

    assert_eq!(state.a, 0x72); // 0x12 + 0x60 = 0x72
    assert!(!state.flag_z());
    assert!(!state.flag_h());
    assert!(state.flag_c()); // Carry remains set
}

#[test]
fn test_daa_after_sub_no_adjust() {
    let mut state = State::new();
    state.a = 0x45;
    state.set_flag_n(true); // Subtraction
    state.set_flag_h(false);
    state.set_flag_c(false);

    daa(&mut state);

    assert_eq!(state.a, 0x45); // No adjustment needed
    assert!(!state.flag_z());
    assert!(!state.flag_h());
    assert!(!state.flag_c());
}

#[test]
fn test_daa_after_sub_with_half_carry() {
    let mut state = State::new();
    state.a = 0x50;
    state.set_flag_n(true); // Subtraction
    state.set_flag_h(true); // Half borrow
    state.set_flag_c(false);

    daa(&mut state);

    assert_eq!(state.a, 0x4A); // 0x50 - 0x06 = 0x4A
    assert!(!state.flag_z());
    assert!(!state.flag_h()); // H flag reset by DAA
    assert!(!state.flag_c());
}

#[test]
fn test_daa_after_sub_with_carry() {
    let mut state = State::new();
    state.a = 0x70;
    state.set_flag_n(true); // Subtraction
    state.set_flag_h(false);
    state.set_flag_c(true); // Borrow

    daa(&mut state);

    assert_eq!(state.a, 0x10); // 0x70 - 0x60 = 0x10
    assert!(!state.flag_z());
    assert!(!state.flag_h());
    assert!(state.flag_c()); // Carry remains set
}

#[test]
fn test_daa_zero_result() {
    let mut state = State::new();
    state.a = 0x00;
    state.set_flag_n(false);
    state.set_flag_h(false);
    state.set_flag_c(false);

    daa(&mut state);

    assert_eq!(state.a, 0x00);
    assert!(state.flag_z()); // Z flag set
    assert!(!state.flag_h());
    assert!(!state.flag_c());
}

#[test]
fn test_has_pending_interrupt_none() {
    let mut state = State::new();
    state.write(IE, 0x00); // No interrupts enabled
    state.write(IF, 0x00); // No interrupts flagged

    assert!(!has_pending_interrupt(&state));
}

#[test]
fn test_has_pending_interrupt_enabled_but_not_flagged() {
    let mut state = State::new();
    state.write(IE, 0x1F); // All interrupts enabled
    state.write(IF, 0x00); // No interrupts flagged

    assert!(!has_pending_interrupt(&state));
}

#[test]
fn test_has_pending_interrupt_flagged_but_not_enabled() {
    let mut state = State::new();
    state.write(IE, 0x00); // No interrupts enabled
    state.write(IF, 0x1F); // All interrupts flagged

    assert!(!has_pending_interrupt(&state));
}

#[test]
fn test_has_pending_interrupt_vblank() {
    let mut state = State::new();
    state.write(IE, 0x01); // V-Blank enabled (bit 0)
    state.write(IF, 0x01); // V-Blank flagged (bit 0)

    assert!(has_pending_interrupt(&state));
}

#[test]
fn test_has_pending_interrupt_lcd_stat() {
    let mut state = State::new();
    state.write(IE, 0x02); // LCD STAT enabled (bit 1)
    state.write(IF, 0x02); // LCD STAT flagged (bit 1)

    assert!(has_pending_interrupt(&state));
}

#[test]
fn test_has_pending_interrupt_timer() {
    let mut state = State::new();
    state.write(IE, 0x04); // Timer enabled (bit 2)
    state.write(IF, 0x04); // Timer flagged (bit 2)

    assert!(has_pending_interrupt(&state));
}

#[test]
fn test_has_pending_interrupt_serial() {
    let mut state = State::new();
    state.write(IE, 0x08); // Serial enabled (bit 3)
    state.write(IF, 0x08); // Serial flagged (bit 3)

    assert!(has_pending_interrupt(&state));
}

#[test]
fn test_has_pending_interrupt_joypad() {
    let mut state = State::new();
    state.write(IE, 0x10); // Joypad enabled (bit 4)
    state.write(IF, 0x10); // Joypad flagged (bit 4)

    assert!(has_pending_interrupt(&state));
}

#[test]
fn test_has_pending_interrupt_multiple() {
    let mut state = State::new();
    state.write(IE, 0x1F); // All interrupts enabled
    state.write(IF, 0x03); // V-Blank and LCD STAT flagged

    assert!(has_pending_interrupt(&state));
}

#[test]
fn test_has_pending_interrupt_partial_match() {
    let mut state = State::new();
    state.write(IE, 0x05); // V-Blank and Timer enabled
    state.write(IF, 0x07); // V-Blank, LCD STAT, and Timer flagged

    assert!(has_pending_interrupt(&state)); // Should match on V-Blank and Timer
}

#[test]
fn test_has_pending_interrupt_ignores_upper_bits() {
    let mut state = State::new();
    state.write(IE, 0xFF); // All bits set
    state.write(IF, 0xE0); // Only upper bits set (not valid interrupts)

    assert!(!has_pending_interrupt(&state)); // Upper bits should be masked
}

#[test]
fn test_service_interrupts_ime_disabled() {
    let mut state = State::new();
    state.ime = false;
    state.write(IE, 0x1F); // All interrupts enabled
    state.write(IF, 0x1F); // All interrupts flagged
    state.pc = 0x1000;

    let serviced = service_interrupts(&mut state);

    assert!(!serviced);
    assert_eq!(state.pc, 0x1000); // PC unchanged
    assert!(!state.ime); // IME still disabled
}

#[test]
fn test_service_interrupts_no_pending() {
    let mut state = State::new();
    state.ime = true;
    state.write(IE, 0x00); // No interrupts enabled
    state.write(IF, 0x1F); // All interrupts flagged
    state.pc = 0x1000;

    let serviced = service_interrupts(&mut state);

    assert!(!serviced);
    assert_eq!(state.pc, 0x1000); // PC unchanged
    assert!(state.ime); // IME still enabled
}

#[test]
fn test_service_interrupts_vblank() {
    let mut state = State::new();
    state.ime = true;
    state.write(IE, 0x01); // V-Blank enabled
    state.write(IF, 0x01); // V-Blank flagged
    state.pc = 0x1234;
    state.set_sp(0xFFFE);

    let serviced = service_interrupts(&mut state);

    assert!(serviced);
    assert_eq!(state.pc, 0x0040); // Jumped to V-Blank vector
    assert!(!state.ime); // IME disabled
    assert_eq!(state.read(IF), 0x00); // V-Blank flag cleared
    assert_eq!(state.sp(), 0xFFFC); // SP decremented by 2
    assert_eq!(state.read(0xFFFC), 0x34); // Low byte of PC pushed
    assert_eq!(state.read(0xFFFD), 0x12); // High byte of PC pushed
}

#[test]
fn test_service_interrupts_lcd_stat() {
    let mut state = State::new();
    state.ime = true;
    state.write(IE, 0x02); // LCD STAT enabled
    state.write(IF, 0x02); // LCD STAT flagged
    state.pc = 0x5678;
    state.set_sp(0xC000);

    let serviced = service_interrupts(&mut state);

    assert!(serviced);
    assert_eq!(state.pc, 0x0048); // Jumped to LCD STAT vector
    assert!(!state.ime);
    assert_eq!(state.read(IF), 0x00);
}

#[test]
fn test_service_interrupts_timer() {
    let mut state = State::new();
    state.ime = true;
    state.write(IE, 0x04); // Timer enabled
    state.write(IF, 0x04); // Timer flagged
    state.pc = 0xABCD;
    state.set_sp(0xD000);

    let serviced = service_interrupts(&mut state);

    assert!(serviced);
    assert_eq!(state.pc, 0x0050); // Jumped to Timer vector
    assert!(!state.ime);
    assert_eq!(state.read(IF), 0x00);
}

#[test]
fn test_service_interrupts_serial() {
    let mut state = State::new();
    state.ime = true;
    state.write(IE, 0x08); // Serial enabled
    state.write(IF, 0x08); // Serial flagged
    state.pc = 0x2000;
    state.set_sp(0xE000);

    let serviced = service_interrupts(&mut state);

    assert!(serviced);
    assert_eq!(state.pc, 0x0058); // Jumped to Serial vector
    assert!(!state.ime);
    assert_eq!(state.read(IF), 0x00);
}

#[test]
fn test_service_interrupts_joypad() {
    let mut state = State::new();
    state.ime = true;
    state.write(IE, 0x10); // Joypad enabled
    state.write(IF, 0x10); // Joypad flagged
    state.pc = 0x3000;
    state.set_sp(0xF000);

    let serviced = service_interrupts(&mut state);

    assert!(serviced);
    assert_eq!(state.pc, 0x0060); // Jumped to Joypad vector
    assert!(!state.ime);
    assert_eq!(state.read(IF), 0x00);
}

#[test]
fn test_service_interrupts_priority_vblank_highest() {
    let mut state = State::new();
    state.ime = true;
    state.write(IE, 0x1F); // All interrupts enabled
    state.write(IF, 0x1F); // All interrupts flagged
    state.pc = 0x1000;
    state.set_sp(0xFFFE);

    let serviced = service_interrupts(&mut state);

    assert!(serviced);
    assert_eq!(state.pc, 0x0040); // V-Blank has highest priority
    assert_eq!(state.read(IF), 0x1E); // Only V-Blank flag cleared
}

#[test]
fn test_service_interrupts_priority_lcd_stat_second() {
    let mut state = State::new();
    state.ime = true;
    state.write(IE, 0x1F); // All interrupts enabled
    state.write(IF, 0x1E); // All except V-Blank flagged
    state.pc = 0x1000;
    state.set_sp(0xFFFE);

    let serviced = service_interrupts(&mut state);

    assert!(serviced);
    assert_eq!(state.pc, 0x0048); // LCD STAT is next priority
    assert_eq!(state.read(IF), 0x1C); // Only LCD STAT flag cleared
}

#[test]
fn test_service_interrupts_priority_joypad_lowest() {
    let mut state = State::new();
    state.ime = true;
    state.write(IE, 0x10); // Only Joypad enabled
    state.write(IF, 0x1F); // All interrupts flagged
    state.pc = 0x1000;
    state.set_sp(0xFFFE);

    let serviced = service_interrupts(&mut state);

    assert!(serviced);
    assert_eq!(state.pc, 0x0060); // Joypad handled because it's the only enabled one
    assert_eq!(state.read(IF), 0x0F); // Only Joypad flag cleared
}

#[test]
fn test_service_interrupts_partial_flags_cleared() {
    let mut state = State::new();
    state.ime = true;
    state.write(IE, 0x05); // V-Blank and Timer enabled
    state.write(IF, 0x07); // V-Blank, LCD STAT, and Timer flagged
    state.pc = 0x1000;
    state.set_sp(0xFFFE);

    let serviced = service_interrupts(&mut state);

    assert!(serviced);
    assert_eq!(state.pc, 0x0040); // V-Blank serviced
    assert_eq!(state.read(IF), 0x06); // V-Blank cleared, LCD STAT and Timer remain
}

#[test]
fn test_service_interrupts_stack_push_correct_order() {
    let mut state = State::new();
    state.ime = true;
    state.write(IE, 0x01);
    state.write(IF, 0x01);
    state.pc = 0xABCD;
    state.set_sp(0xC100);

    service_interrupts(&mut state);

    assert_eq!(state.sp(), 0xC0FE);
    assert_eq!(state.read(0xC0FE), 0xCD); // Low byte at lower address
    assert_eq!(state.read(0xC0FF), 0xAB); // High byte at higher address
}
