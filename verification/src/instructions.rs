//! The CPU: instructions, interrupt servicing and the fetch-execute step.
//!
//! Every instruction is specified by a function on the abstract state
//! [`GbModel`]; memory goes through the bus ([`bus_read`], [`bus_write`]).
use vstd::prelude::*;
use crate::io::{DIV, IE, IF};
use crate::memory::Memory;
use crate::system::{
    GameBoy, GbModel, bus_read, bus_write, bus_write_defined, bus_read_word, word, hi_byte,
    lo_byte, add8, add16, fz, fn_, fh, fc, with_flag, set_flags, lemma_word, lemma_split_word,
    lemma_with_flag,
    lemma_plain_read, lemma_plain_write, lemma_bus_write_wf, is_ppu_register, is_plain_address,
    law_bus_transparent, gb_wf, step_result, mem_after_write,
};
use crate::memory::FlatMemory;

verus! {

// ---------------------------------------------------------------------------
// Arithmetic helpers
// ---------------------------------------------------------------------------
/// The signed value of an 8-bit offset.
pub open spec fn sext8(b: u8) -> int {
    if b < 128 {
        b as int
    } else {
        b - 256
    }
}

/// The carry flag as a number.
pub open spec fn carry_in(f: u8) -> int {
    if fc(f) {
        1
    } else {
        0
    }
}

proof fn lemma_nibbles(x: u8, y: u16)
    ensures
        x & 0x0F == x % 16,
        x & 0x80 == 0 <==> x < 128,
        x & 0x01 == x % 2,
        y & 0x0FFF == y % 4096,
{
    assert(x & 0x0F == x % 16) by (bit_vector);
    assert(x & 0x80 == 0 <==> x < 128) by (bit_vector);
    assert(x & 0x01 == x % 2) by (bit_vector);
    assert(y & 0x0FFF == y % 4096) by (bit_vector);
}

// ---------------------------------------------------------------------------
// 8-bit arithmetic and logic on A
// ---------------------------------------------------------------------------
/// ADD A,v: Z if the result is zero, N reset, H on carry from bit 3, C on
/// carry from bit 7.
pub open spec fn spec_add_a<Mo>(s: GbModel<Mo>, v: u8) -> GbModel<Mo> {
    let r = add8(s.a as int, v as int);
    GbModel {
        a: r,
        f: set_flags(s.f, r == 0, false, s.a % 16 + v % 16 > 15, s.a + v > 255),
        ..s
    }
}

/// ADC A,v: ADD of `v` plus the carry flag.
pub open spec fn spec_adc_a<Mo>(s: GbModel<Mo>, v: u8) -> GbModel<Mo> {
    let c = carry_in(s.f);
    let r = add8(s.a as int, v + c);
    GbModel {
        a: r,
        f: set_flags(s.f, r == 0, false, s.a % 16 + v % 16 + c > 15, s.a + v + c > 255),
        ..s
    }
}

/// SUB v: Z if the result is zero, N set, H on borrow from bit 4, C on borrow.
pub open spec fn spec_sub_a<Mo>(s: GbModel<Mo>, v: u8) -> GbModel<Mo> {
    let r = add8(s.a as int, -v);
    GbModel { a: r, f: set_flags(s.f, r == 0, true, s.a % 16 < v % 16, s.a < v), ..s }
}

/// SBC A,v: SUB of `v` plus the carry flag.
pub open spec fn spec_sbc_a<Mo>(s: GbModel<Mo>, v: u8) -> GbModel<Mo> {
    let c = carry_in(s.f);
    let r = add8(s.a as int, -v - c);
    GbModel { a: r, f: set_flags(s.f, r == 0, true, s.a % 16 < v % 16 + c, s.a < v + c), ..s }
}

/// AND v: Z if the result is zero, H set, N and C reset.
pub open spec fn spec_and_a<Mo>(s: GbModel<Mo>, v: u8) -> GbModel<Mo> {
    let r = s.a & v;
    GbModel { a: r, f: set_flags(s.f, r == 0, false, true, false), ..s }
}

/// XOR v: Z if the result is zero, other flags reset.
pub open spec fn spec_xor_a<Mo>(s: GbModel<Mo>, v: u8) -> GbModel<Mo> {
    let r = s.a ^ v;
    GbModel { a: r, f: set_flags(s.f, r == 0, false, false, false), ..s }
}

/// OR v: Z if the result is zero, other flags reset.
pub open spec fn spec_or_a<Mo>(s: GbModel<Mo>, v: u8) -> GbModel<Mo> {
    let r = s.a | v;
    GbModel { a: r, f: set_flags(s.f, r == 0, false, false, false), ..s }
}

/// CP v: the flags of SUB v; A is kept.
pub open spec fn spec_cp_a<Mo>(s: GbModel<Mo>, v: u8) -> GbModel<Mo> {
    let r = add8(s.a as int, -v);
    GbModel { f: set_flags(s.f, r == 0, true, s.a % 16 < v % 16, s.a < v), ..s }
}

/// The flags that `set_flags` writes read back, one by one.
proof fn lemma_set_flags(f: u8, z: bool, n: bool, h: bool, c: bool)
    ensures
        fz(set_flags(f, z, n, h, c)) == z,
        fn_(set_flags(f, z, n, h, c)) == n,
        fh(set_flags(f, z, n, h, c)) == h,
        fc(set_flags(f, z, n, h, c)) == c,
{
    let f1 = with_flag(f, 0x80, z);
    let f2 = with_flag(f1, 0x40, n);
    let f3 = with_flag(f2, 0x20, h);
    lemma_with_flag(f, z);
    lemma_with_flag(f1, n);
    lemma_with_flag(f2, h);
    lemma_with_flag(f3, c);
}

/// Addition and subtraction on A: SUB undoes ADD; ADD sets C exactly when
/// the result wrapped below A and H exactly when its low nibble wrapped
/// below A's; SUB and CP set C exactly when the operand exceeds A, set N,
/// and CP leaves A alone with the flags of SUB; ADC and SBC with C clear are
/// ADD and SUB. Z always tells whether the result is zero.
#[verifier::spinoff_prover]
pub proof fn law_add_sub<Mo>(s: GbModel<Mo>, v: u8)
    ensures
        ({
            let add = spec_add_a(s, v);
            let sub = spec_sub_a(s, v);
            let cp = spec_cp_a(s, v);
            &&& (add.a as int) == (s.a + v) % 256
            &&& spec_sub_a(add, v).a == s.a
            &&& (sub.a + v) % 256 == s.a as int
            &&& fz(add.f) == (add.a == 0) && !fn_(add.f)
            &&& fc(add.f) == (add.a < s.a)
            &&& fh(add.f) == (add.a % 16 < s.a % 16)
            &&& fz(sub.f) == (s.a == v) && fn_(sub.f)
            &&& fc(sub.f) == (s.a < v)
            &&& cp.a == s.a && cp.f == sub.f
            &&& !fc(s.f) ==> spec_adc_a(s, v) == add && spec_sbc_a(s, v) == sub
        }),
{
    let a = s.a as int;
    let w = v as int;
    let add = spec_add_a(s, v);
    let sub = spec_sub_a(s, v);
    lemma_add8(a, w);
    lemma_add8(a, -w);
    lemma_add8(add.a as int, -w);
    lemma_set_flags(s.f, add.a == 0, false, s.a % 16 + v % 16 > 15, s.a + v > 255);
    lemma_set_flags(s.f, sub.a == 0, true, s.a % 16 < v % 16, s.a < v);
    assert((a % 16 + w % 16 > 15) == ((add.a as int) % 16 < a % 16));
}

/// `add8` on operands whose sum lies within one wrap of a byte.
proof fn lemma_add8(x: int, y: int)
    requires
        -256 <= x + y < 512,
    ensures
        add8(x, y) as int == if x + y < 0 {
            x + y + 256
        } else if x + y >= 256 {
            x + y - 256
        } else {
            x + y
        },
{
}

/// The logic operations on A: AND, OR and XOR compute the bitwise
/// operation; Z tells whether the result is zero, N and C are clear, and H
/// is set by AND only. XOR with the same operand twice gives A back.
pub proof fn law_logic_ops<Mo>(s: GbModel<Mo>, v: u8)
    ensures
        spec_and_a(s, v).a == s.a & v && fz(spec_and_a(s, v).f) == (s.a & v == 0),
        fh(spec_and_a(s, v).f) && !fn_(spec_and_a(s, v).f) && !fc(spec_and_a(s, v).f),
        spec_or_a(s, v).a == s.a | v && fz(spec_or_a(s, v).f) == (s.a | v == 0),
        !fh(spec_or_a(s, v).f) && !fn_(spec_or_a(s, v).f) && !fc(spec_or_a(s, v).f),
        spec_xor_a(s, v).a == s.a ^ v && fz(spec_xor_a(s, v).f) == (s.a == v),
        !fh(spec_xor_a(s, v).f) && !fn_(spec_xor_a(s, v).f) && !fc(spec_xor_a(s, v).f),
        spec_xor_a(spec_xor_a(s, v), v).a == s.a,
{
    let a = s.a;
    lemma_set_flags(s.f, a & v == 0, false, true, false);
    lemma_set_flags(s.f, a | v == 0, false, false, false);
    lemma_set_flags(s.f, a ^ v == 0, false, false, false);
    assert((a ^ v == 0) == (a == v) && (a ^ v) ^ v == a) by (bit_vector);
}

/// The ALU operation selected by bits 3-5 of opcodes 0x80-0xBF.
pub open spec fn spec_alu<Mo>(s: GbModel<Mo>, kind: int, v: u8) -> GbModel<Mo> {
    if kind == 0 {
        spec_add_a(s, v)
    } else if kind == 1 {
        spec_adc_a(s, v)
    } else if kind == 2 {
        spec_sub_a(s, v)
    } else if kind == 3 {
        spec_sbc_a(s, v)
    } else if kind == 4 {
        spec_and_a(s, v)
    } else if kind == 5 {
        spec_xor_a(s, v)
    } else if kind == 6 {
        spec_or_a(s, v)
    } else {
        spec_cp_a(s, v)
    }
}

#[verifier::spinoff_prover]
pub fn add_a<M: Memory>(value: u8, state: &mut GameBoy<M>)
    ensures
        final(state)@ == spec_add_a(old(state)@, value),
{
    let a = state.a;
    let result = a.wrapping_add(value);
    proof {
        lemma_nibbles(a, 0);
        lemma_nibbles(value, 0);
    }
    state.set_flag_z(result == 0);
    state.set_flag_n(false);
    state.set_flag_h((a & 0xF) + (value & 0xF) > 0xF);
    state.set_flag_c((a as u16) + (value as u16) > 0xFF);
    state.a = result;
}

#[verifier::spinoff_prover]
pub fn adc_a<M: Memory>(value: u8, state: &mut GameBoy<M>)
    ensures
        final(state)@ == spec_adc_a(old(state)@, value),
{
    let a = state.a;
    let carry: u8 = if state.flag_c() {
        1
    } else {
        0
    };
    let result = a.wrapping_add(value).wrapping_add(carry);
    proof {
        lemma_nibbles(a, 0);
        lemma_nibbles(value, 0);
    }
    state.set_flag_z(result == 0);
    state.set_flag_n(false);
    state.set_flag_h((a & 0xF) + (value & 0xF) + carry > 0xF);
    state.set_flag_c((a as u16) + (value as u16) + (carry as u16) > 0xFF);
    state.a = result;
}

#[verifier::spinoff_prover]
pub fn sub_a<M: Memory>(value: u8, state: &mut GameBoy<M>)
    ensures
        final(state)@ == spec_sub_a(old(state)@, value),
{
    let a = state.a;
    let result = a.wrapping_sub(value);
    proof {
        lemma_nibbles(a, 0);
        lemma_nibbles(value, 0);
    }
    state.set_flag_z(result == 0);
    state.set_flag_n(true);
    state.set_flag_h((a & 0xF) < (value & 0xF));
    state.set_flag_c(a < value);
    state.a = result;
}

#[verifier::spinoff_prover]
pub fn sbc_a<M: Memory>(value: u8, state: &mut GameBoy<M>)
    ensures
        final(state)@ == spec_sbc_a(old(state)@, value),
{
    let a = state.a;
    let carry: u8 = if state.flag_c() {
        1
    } else {
        0
    };
    let result = a.wrapping_sub(value).wrapping_sub(carry);
    proof {
        lemma_nibbles(a, 0);
        lemma_nibbles(value, 0);
    }
    state.set_flag_z(result == 0);
    state.set_flag_n(true);
    state.set_flag_h((a & 0xF) < (value & 0xF) + carry);
    state.set_flag_c((a as u16) < (value as u16) + (carry as u16));
    state.a = result;
}

#[verifier::spinoff_prover]
pub fn and_a<M: Memory>(value: u8, state: &mut GameBoy<M>)
    ensures
        final(state)@ == spec_and_a(old(state)@, value),
{
    let result = state.a & value;
    state.set_flag_z(result == 0);
    state.set_flag_n(false);
    state.set_flag_h(true);
    state.set_flag_c(false);
    state.a = result;
}

#[verifier::spinoff_prover]
pub fn xor_a<M: Memory>(value: u8, state: &mut GameBoy<M>)
    ensures
        final(state)@ == spec_xor_a(old(state)@, value),
{
    let result = state.a ^ value;
    state.set_flag_z(result == 0);
    state.set_flag_n(false);
    state.set_flag_h(false);
    state.set_flag_c(false);
    state.a = result;
}

#[verifier::spinoff_prover]
pub fn or_a<M: Memory>(value: u8, state: &mut GameBoy<M>)
    ensures
        final(state)@ == spec_or_a(old(state)@, value),
{
    let result = state.a | value;
    state.set_flag_z(result == 0);
    state.set_flag_n(false);
    state.set_flag_h(false);
    state.set_flag_c(false);
    state.a = result;
}

#[verifier::spinoff_prover]
pub fn cp_a<M: Memory>(value: u8, state: &mut GameBoy<M>)
    ensures
        final(state)@ == spec_cp_a(old(state)@, value),
{
    let a = state.a;
    let result = a.wrapping_sub(value);
    proof {
        lemma_nibbles(a, 0);
        lemma_nibbles(value, 0);
    }
    state.set_flag_z(result == 0);
    state.set_flag_n(true);
    state.set_flag_h((a & 0xF) < (value & 0xF));
    state.set_flag_c(a < value);
}

// ---------------------------------------------------------------------------
// 8-bit increment, decrement and rotations
// ---------------------------------------------------------------------------
/// INC: the flags after incrementing `v` (C kept).
pub open spec fn inc8_flags(f: u8, v: u8) -> u8 {
    with_flag(with_flag(with_flag(f, 0x80, add8(v as int, 1) == 0), 0x40, false), 0x20, v % 16 == 15)
}

/// DEC: the flags after decrementing `v` (C kept).
pub open spec fn dec8_flags(f: u8, v: u8) -> u8 {
    with_flag(with_flag(with_flag(f, 0x80, add8(v as int, -1) == 0), 0x40, true), 0x20, v % 16 == 0)
}

/// RLC: rotate left, bit 7 to carry and to bit 0.
pub open spec fn rlc8(v: u8) -> u8 {
    (v << 1u8) | (if v >= 128 { 1u8 } else { 0u8 })
}

/// RRC: rotate right, bit 0 to carry and to bit 7.
pub open spec fn rrc8(v: u8) -> u8 {
    (v >> 1u8) | (if v % 2 == 1 { 0x80u8 } else { 0u8 })
}

/// RL: rotate left through carry.
pub open spec fn rl8(v: u8, carry: bool) -> u8 {
    (v << 1u8) | (if carry { 1u8 } else { 0u8 })
}

/// RR: rotate right through carry.
pub open spec fn rr8(v: u8, carry: bool) -> u8 {
    (v >> 1u8) | (if carry { 0x80u8 } else { 0u8 })
}

/// Flags after a rotation giving `r` with carry out `c`.
pub open spec fn rot_flags(f: u8, r: u8, c: bool) -> u8 {
    set_flags(f, r == 0, false, false, c)
}

#[verifier::spinoff_prover]
pub fn inc_8bit<M: Memory>(value: u8, state: &mut GameBoy<M>) -> (r: u8)
    ensures
        r == add8(value as int, 1),
        final(state)@ == old(state)@.with_f(inc8_flags(old(state).f, value)),
{
    let result = value.wrapping_add(1);
    proof {
        lemma_nibbles(value, 0);
    }
    state.set_flag_z(result == 0);
    state.set_flag_n(false);
    state.set_flag_h((value & 0xF) == 0xF);
    result
}

#[verifier::spinoff_prover]
pub fn dec_8bit<M: Memory>(value: u8, state: &mut GameBoy<M>) -> (r: u8)
    ensures
        r == add8(value as int, -1),
        final(state)@ == old(state)@.with_f(dec8_flags(old(state).f, value)),
{
    let result = value.wrapping_sub(1);
    proof {
        lemma_nibbles(value, 0);
    }
    state.set_flag_z(result == 0);
    state.set_flag_n(true);
    state.set_flag_h((value & 0xF) == 0);
    result
}

#[verifier::spinoff_prover]
pub fn rlc_8bit<M: Memory>(value: u8, state: &mut GameBoy<M>) -> (r: u8)
    ensures
        r == rlc8(value),
        final(state)@ == old(state)@.with_f(rot_flags(old(state).f, r, value >= 128)),
{
    proof {
        lemma_nibbles(value, 0);
    }
    let bit7 = (value & 0x80) != 0;
    let result = (value << 1) | (if bit7 {
        1
    } else {
        0
    });
    state.set_flag_z(result == 0);
    state.set_flag_n(false);
    state.set_flag_h(false);
    state.set_flag_c(bit7);
    result
}

#[verifier::spinoff_prover]
pub fn rrc_8bit<M: Memory>(value: u8, state: &mut GameBoy<M>) -> (r: u8)
    ensures
        r == rrc8(value),
        final(state)@ == old(state)@.with_f(rot_flags(old(state).f, r, value % 2 == 1)),
{
    proof {
        lemma_nibbles(value, 0);
    }
    let bit0 = (value & 0x01) != 0;
    let result = (value >> 1) | (if bit0 {
        0x80
    } else {
        0
    });
    state.set_flag_z(result == 0);
    state.set_flag_n(false);
    state.set_flag_h(false);
    state.set_flag_c(bit0);
    result
}

#[verifier::spinoff_prover]
pub fn rl_8bit<M: Memory>(value: u8, state: &mut GameBoy<M>) -> (r: u8)
    ensures
        r == rl8(value, fc(old(state).f)),
        final(state)@ == old(state)@.with_f(rot_flags(old(state).f, r, value >= 128)),
{
    proof {
        lemma_nibbles(value, 0);
    }
    let bit7 = (value & 0x80) != 0;
    let old_carry: u8 = if state.flag_c() {
        1
    } else {
        0
    };
    let result = (value << 1) | old_carry;
    state.set_flag_z(result == 0);
    state.set_flag_n(false);
    state.set_flag_h(false);
    state.set_flag_c(bit7);
    result
}

#[verifier::spinoff_prover]
pub fn rr_8bit<M: Memory>(value: u8, state: &mut GameBoy<M>) -> (r: u8)
    ensures
        r == rr8(value, fc(old(state).f)),
        final(state)@ == old(state)@.with_f(rot_flags(old(state).f, r, value % 2 == 1)),
{
    proof {
        lemma_nibbles(value, 0);
    }
    let bit0 = (value & 0x01) != 0;
    let old_carry: u8 = if state.flag_c() {
        0x80
    } else {
        0
    };
    let result = (value >> 1) | old_carry;
    state.set_flag_z(result == 0);
    state.set_flag_n(false);
    state.set_flag_h(false);
    state.set_flag_c(bit0);
    result
}

// ---------------------------------------------------------------------------
// Registers by index
// ---------------------------------------------------------------------------
/// The 8-bit register with index `r` in opcode encodings: B, C, D, E, H, L,
/// (HL), A for 0-7.  Index 6 names memory and is not a register.
pub open spec fn reg8<Mo>(s: GbModel<Mo>, r: int) -> u8 {
    if r == 0 {
        s.b
    } else if r == 1 {
        s.c
    } else if r == 2 {
        s.d
    } else if r == 3 {
        s.e
    } else if r == 4 {
        s.h
    } else if r == 5 {
        s.l
    } else {
        s.a
    }
}

/// `s` with register `r` set to `v`.
pub open spec fn with_reg8<Mo>(s: GbModel<Mo>, r: int, v: u8) -> GbModel<Mo> {
    if r == 0 {
        GbModel { b: v, ..s }
    } else if r == 1 {
        GbModel { c: v, ..s }
    } else if r == 2 {
        GbModel { d: v, ..s }
    } else if r == 3 {
        GbModel { e: v, ..s }
    } else if r == 4 {
        GbModel { h: v, ..s }
    } else if r == 5 {
        GbModel { l: v, ..s }
    } else {
        GbModel { a: v, ..s }
    }
}

fn get_reg8<M: Memory>(state: &GameBoy<M>, r: u8) -> (v: u8)
    requires
        r < 8,
        r != 6,
    ensures
        v == reg8(state@, r as int),
{
    match r {
        0 => state.b,
        1 => state.c,
        2 => state.d,
        3 => state.e,
        4 => state.h,
        5 => state.l,
        _ => state.a,
    }
}

fn set_reg8<M: Memory>(state: &mut GameBoy<M>, r: u8, v: u8)
    requires
        r < 8,
        r != 6,
    ensures
        final(state)@ == with_reg8(old(state)@, r as int, v),
{
    match r {
        0 => state.b = v,
        1 => state.c = v,
        2 => state.d = v,
        3 => state.e = v,
        4 => state.h = v,
        5 => state.l = v,
        _ => state.a = v,
    }
}

/// INC r.
pub open spec fn spec_inc_reg<Mo>(s: GbModel<Mo>, r: int) -> GbModel<Mo> {
    let v = reg8(s, r);
    with_reg8(s.with_f(inc8_flags(s.f, v)), r, add8(v as int, 1))
}

/// DEC r.
pub open spec fn spec_dec_reg<Mo>(s: GbModel<Mo>, r: int) -> GbModel<Mo> {
    let v = reg8(s, r);
    with_reg8(s.with_f(dec8_flags(s.f, v)), r, add8(v as int, -1))
}

/// RLC r.
pub open spec fn spec_rlc_reg<Mo>(s: GbModel<Mo>, r: int) -> GbModel<Mo> {
    let v = reg8(s, r);
    with_reg8(s.with_f(rot_flags(s.f, rlc8(v), v >= 128)), r, rlc8(v))
}

/// RRC r.
pub open spec fn spec_rrc_reg<Mo>(s: GbModel<Mo>, r: int) -> GbModel<Mo> {
    let v = reg8(s, r);
    with_reg8(s.with_f(rot_flags(s.f, rrc8(v), v % 2 == 1)), r, rrc8(v))
}

/// RL r.
pub open spec fn spec_rl_reg<Mo>(s: GbModel<Mo>, r: int) -> GbModel<Mo> {
    let v = reg8(s, r);
    let res = rl8(v, fc(s.f));
    with_reg8(s.with_f(rot_flags(s.f, res, v >= 128)), r, res)
}

/// RR r.
pub open spec fn spec_rr_reg<Mo>(s: GbModel<Mo>, r: int) -> GbModel<Mo> {
    let v = reg8(s, r);
    let res = rr8(v, fc(s.f));
    with_reg8(s.with_f(rot_flags(s.f, res, v % 2 == 1)), r, res)
}

/// INC and DEC of a register: DEC undoes INC; INC sets H exactly when the
/// low nibble wraps to 0 and DEC exactly when it wraps to 0xF; Z tells
/// whether the result is zero, N is set by DEC only, and C is kept.
pub proof fn law_inc_dec(f: u8, v: u8)
    ensures
        add8(add8(v as int, 1) as int, -1) == v,
        fz(inc8_flags(f, v)) == (add8(v as int, 1) == 0),
        fh(inc8_flags(f, v)) == (add8(v as int, 1) % 16 == 0),
        !fn_(inc8_flags(f, v)) && fc(inc8_flags(f, v)) == fc(f),
        fz(dec8_flags(f, v)) == (v == 1),
        fh(dec8_flags(f, v)) == (add8(v as int, -1) % 16 == 15),
        fn_(dec8_flags(f, v)) && fc(dec8_flags(f, v)) == fc(f),
{
    let f1 = with_flag(f, 0x80, add8(v as int, 1) == 0);
    let f2 = with_flag(f1, 0x40, false);
    lemma_with_flag(f, add8(v as int, 1) == 0);
    lemma_with_flag(f1, false);
    lemma_with_flag(f2, v % 16 == 15);
    let g1 = with_flag(f, 0x80, add8(v as int, -1) == 0);
    let g2 = with_flag(g1, 0x40, true);
    lemma_with_flag(f, add8(v as int, -1) == 0);
    lemma_with_flag(g1, true);
    lemma_with_flag(g2, v % 16 == 0);
    lemma_add8(v as int, 1);
    lemma_add8(v as int, -1);
    lemma_add8(add8(v as int, 1) as int, -1);
}

/// The rotations as arithmetic: RLC moves bit 7 to bit 0, RRC bit 0 to bit
/// 7, RL and RR shift the carry in; each rotation is undone by the one in
/// the other direction.
pub proof fn law_rotations(v: u8, carry: bool)
    ensures
        rlc8(v) as int == (2 * v + v / 128) % 256,
        rrc8(v) as int == v / 2 + 128 * (v % 2),
        rl8(v, carry) as int == (2 * v) % 256 + (if carry { 1int } else { 0 }),
        rr8(v, carry) as int == v / 2 + (if carry { 128int } else { 0 }),
        rrc8(rlc8(v)) == v,
        rr8(rl8(v, carry), v >= 128) == v,
{
    assert(rlc8(v) as int == (2 * v + v / 128) % 256 && rrc8(v) as int == v / 2 + 128 * (v % 2)
        && rl8(v, carry) as int == (2 * v) % 256 + (if carry { 1int } else { 0 }) && rr8(v, carry) as int
        == v / 2 + (if carry { 128int } else { 0 }) && rrc8(rlc8(v)) == v && rr8(rl8(v, carry), v >= 128)
        == v) by (bit_vector);
}

/// The rotations of A (RLCA, RRCA, RLA, RRA) always reset Z.
pub open spec fn clear_z<Mo>(s: GbModel<Mo>) -> GbModel<Mo> {
    s.with_f(with_flag(s.f, 0x80, false))
}

/// Increment register B by 1 and update the flags.
pub fn inc_b<M: Memory>(state: &mut GameBoy<M>)
    ensures
        final(state)@ == spec_inc_reg(old(state)@, 0),
{
    state.b = inc_8bit(state.b, state);
}

/// Increment register C by 1 and update the flags.
pub fn inc_c<M: Memory>(state: &mut GameBoy<M>)
    ensures
        final(state)@ == spec_inc_reg(old(state)@, 1),
{
    state.c = inc_8bit(state.c, state);
}

/// Increment register D by 1 and update the flags.
pub fn inc_d<M: Memory>(state: &mut GameBoy<M>)
    ensures
        final(state)@ == spec_inc_reg(old(state)@, 2),
{
    state.d = inc_8bit(state.d, state);
}

/// Increment register E by 1 and update the flags.
pub fn inc_e<M: Memory>(state: &mut GameBoy<M>)
    ensures
        final(state)@ == spec_inc_reg(old(state)@, 3),
{
    state.e = inc_8bit(state.e, state);
}

/// Increment register H by 1 and update the flags.
pub fn inc_h<M: Memory>(state: &mut GameBoy<M>)
    ensures
        final(state)@ == spec_inc_reg(old(state)@, 4),
{
    state.h = inc_8bit(state.h, state);
}

/// Increment register L by 1 and update the flags.
pub fn inc_l<M: Memory>(state: &mut GameBoy<M>)
    ensures
        final(state)@ == spec_inc_reg(old(state)@, 5),
{
    state.l = inc_8bit(state.l, state);
}

/// Increment register A by 1 and update the flags.
pub fn inc_a<M: Memory>(state: &mut GameBoy<M>)
    ensures
        final(state)@ == spec_inc_reg(old(state)@, 7),
{
    state.a = inc_8bit(state.a, state);
}

/// Decrement register B by 1 and update the flags.
pub fn dec_b<M: Memory>(state: &mut GameBoy<M>)
    ensures
        final(state)@ == spec_dec_reg(old(state)@, 0),
{
    state.b = dec_8bit(state.b, state);
}

/// Decrement register C by 1 and update the flags.
pub fn dec_c<M: Memory>(state: &mut GameBoy<M>)
    ensures
        final(state)@ == spec_dec_reg(old(state)@, 1),
{
    state.c = dec_8bit(state.c, state);
}

/// Decrement register D by 1 and update the flags.
pub fn dec_d<M: Memory>(state: &mut GameBoy<M>)
    ensures
        final(state)@ == spec_dec_reg(old(state)@, 2),
{
    state.d = dec_8bit(state.d, state);
}

/// Decrement register E by 1 and update the flags.
pub fn dec_e<M: Memory>(state: &mut GameBoy<M>)
    ensures
        final(state)@ == spec_dec_reg(old(state)@, 3),
{
    state.e = dec_8bit(state.e, state);
}

/// Decrement register H by 1 and update the flags.
pub fn dec_h<M: Memory>(state: &mut GameBoy<M>)
    ensures
        final(state)@ == spec_dec_reg(old(state)@, 4),
{
    state.h = dec_8bit(state.h, state);
}

/// Decrement register L by 1 and update the flags.
pub fn dec_l<M: Memory>(state: &mut GameBoy<M>)
    ensures
        final(state)@ == spec_dec_reg(old(state)@, 5),
{
    state.l = dec_8bit(state.l, state);
}

/// Decrement register A by 1 and update the flags.
pub fn dec_a<M: Memory>(state: &mut GameBoy<M>)
    ensures
        final(state)@ == spec_dec_reg(old(state)@, 7),
{
    state.a = dec_8bit(state.a, state);
}

/// Rotate register B left circular.
pub fn rlc_b<M: Memory>(state: &mut GameBoy<M>)
    ensures
        final(state)@ == spec_rlc_reg(old(state)@, 0),
{
    state.b = rlc_8bit(state.b, state);
}

/// Rotate register C left circular.
pub fn rlc_c<M: Memory>(state: &mut GameBoy<M>)
    ensures
        final(state)@ == spec_rlc_reg(old(state)@, 1),
{
    state.c = rlc_8bit(state.c, state);
}

/// Rotate register D left circular.
pub fn rlc_d<M: Memory>(state: &mut GameBoy<M>)
    ensures
        final(state)@ == spec_rlc_reg(old(state)@, 2),
{
    state.d = rlc_8bit(state.d, state);
}

/// Rotate register E left circular.
pub fn rlc_e<M: Memory>(state: &mut GameBoy<M>)
    ensures
        final(state)@ == spec_rlc_reg(old(state)@, 3),
{
    state.e = rlc_8bit(state.e, state);
}

/// Rotate register H left circular.
pub fn rlc_h<M: Memory>(state: &mut GameBoy<M>)
    ensures
        final(state)@ == spec_rlc_reg(old(state)@, 4),
{
    state.h = rlc_8bit(state.h, state);
}

/// Rotate register L left circular.
pub fn rlc_l<M: Memory>(state: &mut GameBoy<M>)
    ensures
        final(state)@ == spec_rlc_reg(old(state)@, 5),
{
    state.l = rlc_8bit(state.l, state);
}

/// Rotate register A left circular.
pub fn rlc_a<M: Memory>(state: &mut GameBoy<M>)
    ensures
        final(state)@ == spec_rlc_reg(old(state)@, 7),
{
    state.a = rlc_8bit(state.a, state);
}

/// RLCA: rotate A like RLC A, and always reset Z.
pub fn rlca<M: Memory>(state: &mut GameBoy<M>)
    ensures
        final(state)@ == clear_z(spec_rlc_reg(old(state)@, 7)),
{
    state.a = rlc_8bit(state.a, state);
    state.set_flag_z(false);
}

/// Rotate register B right circular.
pub fn rrc_b<M: Memory>(state: &mut GameBoy<M>)
    ensures
        final(state)@ == spec_rrc_reg(old(state)@, 0),
{
    state.b = rrc_8bit(state.b, state);
}

/// Rotate register C right circular.
pub fn rrc_c<M: Memory>(state: &mut GameBoy<M>)
    ensures
        final(state)@ == spec_rrc_reg(old(state)@, 1),
{
    state.c = rrc_8bit(state.c, state);
}

/// Rotate register D right circular.
pub fn rrc_d<M: Memory>(state: &mut GameBoy<M>)
    ensures
        final(state)@ == spec_rrc_reg(old(state)@, 2),
{
    state.d = rrc_8bit(state.d, state);
}

/// Rotate register E right circular.
pub fn rrc_e<M: Memory>(state: &mut GameBoy<M>)
    ensures
        final(state)@ == spec_rrc_reg(old(state)@, 3),
{
    state.e = rrc_8bit(state.e, state);
}

/// Rotate register H right circular.
pub fn rrc_h<M: Memory>(state: &mut GameBoy<M>)
    ensures
        final(state)@ == spec_rrc_reg(old(state)@, 4),
{
    state.h = rrc_8bit(state.h, state);
}

/// Rotate register L right circular.
pub fn rrc_l<M: Memory>(state: &mut GameBoy<M>)
    ensures
        final(state)@ == spec_rrc_reg(old(state)@, 5),
{
    state.l = rrc_8bit(state.l, state);
}

/// Rotate register A right circular.
pub fn rrc_a<M: Memory>(state: &mut GameBoy<M>)
    ensures
        final(state)@ == spec_rrc_reg(old(state)@, 7),
{
    state.a = rrc_8bit(state.a, state);
}

/// RRCA: rotate A like RRC A, and always reset Z.
pub fn rrca<M: Memory>(state: &mut GameBoy<M>)
    ensures
        final(state)@ == clear_z(spec_rrc_reg(old(state)@, 7)),
{
    state.a = rrc_8bit(state.a, state);
    state.set_flag_z(false);
}

/// Rotate register B left through carry.
pub fn rl_b<M: Memory>(state: &mut GameBoy<M>)
    ensures
        final(state)@ == spec_rl_reg(old(state)@, 0),
{
    state.b = rl_8bit(state.b, state);
}

/// Rotate register C left through carry.
pub fn rl_c<M: Memory>(state: &mut GameBoy<M>)
    ensures
        final(state)@ == spec_rl_reg(old(state)@, 1),
{
    state.c = rl_8bit(state.c, state);
}

/// Rotate register D left through carry.
pub fn rl_d<M: Memory>(state: &mut GameBoy<M>)
    ensures
        final(state)@ == spec_rl_reg(old(state)@, 2),
{
    state.d = rl_8bit(state.d, state);
}

/// Rotate register E left through carry.
pub fn rl_e<M: Memory>(state: &mut GameBoy<M>)
    ensures
        final(state)@ == spec_rl_reg(old(state)@, 3),
{
    state.e = rl_8bit(state.e, state);
}

/// Rotate register H left through carry.
pub fn rl_h<M: Memory>(state: &mut GameBoy<M>)
    ensures
        final(state)@ == spec_rl_reg(old(state)@, 4),
{
    state.h = rl_8bit(state.h, state);
}

/// Rotate register L left through carry.
pub fn rl_l<M: Memory>(state: &mut GameBoy<M>)
    ensures
        final(state)@ == spec_rl_reg(old(state)@, 5),
{
    state.l = rl_8bit(state.l, state);
}

/// Rotate register A left through carry.
pub fn rl_a<M: Memory>(state: &mut GameBoy<M>)
    ensures
        final(state)@ == spec_rl_reg(old(state)@, 7),
{
    state.a = rl_8bit(state.a, state);
}

/// RLA: rotate A like RL A, and always reset Z.
pub fn rla<M: Memory>(state: &mut GameBoy<M>)
    ensures
        final(state)@ == clear_z(spec_rl_reg(old(state)@, 7)),
{
    state.a = rl_8bit(state.a, state);
    state.set_flag_z(false);
}

/// Rotate register B right through carry.
pub fn rr_b<M: Memory>(state: &mut GameBoy<M>)
    ensures
        final(state)@ == spec_rr_reg(old(state)@, 0),
{
    state.b = rr_8bit(state.b, state);
}

/// Rotate register C right through carry.
pub fn rr_c<M: Memory>(state: &mut GameBoy<M>)
    ensures
        final(state)@ == spec_rr_reg(old(state)@, 1),
{
    state.c = rr_8bit(state.c, state);
}

/// Rotate register D right through carry.
pub fn rr_d<M: Memory>(state: &mut GameBoy<M>)
    ensures
        final(state)@ == spec_rr_reg(old(state)@, 2),
{
    state.d = rr_8bit(state.d, state);
}

/// Rotate register E right through carry.
pub fn rr_e<M: Memory>(state: &mut GameBoy<M>)
    ensures
        final(state)@ == spec_rr_reg(old(state)@, 3),
{
    state.e = rr_8bit(state.e, state);
}

/// Rotate register H right through carry.
pub fn rr_h<M: Memory>(state: &mut GameBoy<M>)
    ensures
        final(state)@ == spec_rr_reg(old(state)@, 4),
{
    state.h = rr_8bit(state.h, state);
}

/// Rotate register L right through carry.
pub fn rr_l<M: Memory>(state: &mut GameBoy<M>)
    ensures
        final(state)@ == spec_rr_reg(old(state)@, 5),
{
    state.l = rr_8bit(state.l, state);
}

/// Rotate register A right through carry.
pub fn rr_a<M: Memory>(state: &mut GameBoy<M>)
    ensures
        final(state)@ == spec_rr_reg(old(state)@, 7),
{
    state.a = rr_8bit(state.a, state);
}

/// RRA: rotate A like RR A, and always reset Z.
pub fn rra<M: Memory>(state: &mut GameBoy<M>)
    ensures
        final(state)@ == clear_z(spec_rr_reg(old(state)@, 7)),
{
    state.a = rr_8bit(state.a, state);
    state.set_flag_z(false);
}

// ---------------------------------------------------------------------------
// Accumulator and flag operations
// ---------------------------------------------------------------------------
/// DAA: adjust A to binary-coded decimal after an addition (N reset) or a
/// subtraction (N set).  Adds or subtracts 0x06 when H is set or, after an
/// addition, the low digit exceeds 9; 0x60 when C is set or, after an
/// addition, A exceeds 0x99 (then C is set).  Z from the result, H reset.
pub open spec fn spec_daa<Mo>(s: GbModel<Mo>) -> GbModel<Mo> {
    let a = s.a;
    let n = fn_(s.f);
    let low = fh(s.f) || (!n && a % 16 > 9);
    let high = fc(s.f) || (!n && a > 0x99);
    let adjust: int = (if low { 0x06int } else { 0 }) + (if high { 0x60int } else { 0 });
    let f1 = if high {
        with_flag(s.f, 0x10, true)
    } else {
        s.f
    };
    let r = if n {
        add8(a as int, -adjust)
    } else {
        add8(a as int, adjust)
    };
    GbModel { a: r, f: with_flag(with_flag(f1, 0x80, r == 0), 0x20, false), ..s }
}

/// The number that the two BCD digits of `v` stand for.
pub open spec fn bcd_value(v: u8) -> int {
    (v / 16) * 10 + v % 16
}

/// Both nibbles of `v` are decimal digits.
pub open spec fn is_bcd(v: u8) -> bool {
    v / 16 <= 9 && v % 16 <= 9
}

/// The BCD byte of `n` (0-99).
pub open spec fn bcd_byte(n: int) -> int {
    (n / 10) * 16 + n % 10
}

/// The arithmetic behind DAA after adding the BCD bytes with digits
/// `xh xl` and `yh yl`.
#[verifier::rlimit(100)]
proof fn lemma_bcd_sum(xh: int, xl: int, yh: int, yl: int)
    requires
        0 <= xh <= 9,
        0 <= xl <= 9,
        0 <= yh <= 9,
        0 <= yl <= 9,
    ensures
        ({
            let sum = 16 * xh + xl + 16 * yh + yl;
            let a1 = sum % 256;
            let low = xl + yl > 15 || a1 % 16 > 9;
            let high = sum > 255 || a1 > 0x99;
            let r = (a1 + (if low { 6int } else { 0 }) + (if high { 0x60int } else { 0 })) % 256;
            let d = 10 * xh + xl + 10 * yh + yl;
            &&& r == (d % 100) / 10 * 16 + (d % 100) % 10
            &&& high == (d >= 100)
        }),
{
    let cl = xl + yl;
    let ch = xh + yh;
    let sum = 16 * ch + cl;
    assert(sum == 16 * xh + xl + 16 * yh + yl);
    let a1 = if sum >= 256 {
        sum - 256
    } else {
        sum
    };
    assert(sum % 256 == a1);
    if sum >= 256 {
        assert(a1 == 16 * (ch - 16) + cl);
    }
    if cl <= 9 {
        assert(a1 % 16 == cl);
        let d = 10 * ch + cl;
        if ch >= 10 {
            assert(a1 > 0x99 || sum > 255);
            assert((a1 + 0x60) % 256 == 16 * (ch - 10) + cl);
            assert(d % 100 == 10 * (ch - 10) + cl);
        } else {
            assert(d % 100 == d);
        }
    } else {
        let e = cl - 10;
        let d = 10 * (ch + 1) + e;
        if sum < 256 {
            assert(cl >= 16 || a1 % 16 == cl);
        }
        if ch >= 9 {
            assert(a1 > 0x99 || sum > 255);
            assert((a1 + 6 + 0x60) % 256 == 16 * (ch - 9) + e);
            assert(d % 100 == 10 * (ch - 9) + e);
        } else {
            assert(sum <= 0x99);
            assert((a1 + 6) % 256 == 16 * (ch + 1) + e);
            assert(d % 100 == d);
        }
    }
}

/// DAA after adding two BCD bytes gives their decimal sum: A holds the BCD
/// byte of the sum modulo 100, C tells whether the sum reached 100, Z
/// whether A is 0, and H and N are clear.
pub proof fn law_daa_after_add<Mo>(s: GbModel<Mo>, y: u8)
    requires
        is_bcd(s.a),
        is_bcd(y),
    ensures
        ({
            let t = spec_daa(spec_add_a(s, y));
            let sum = bcd_value(s.a) + bcd_value(y);
            &&& t.a == bcd_byte(sum % 100)
            &&& fc(t.f) == (sum >= 100)
            &&& fz(t.f) == (sum % 100 == 0)
            &&& !fh(t.f)
            &&& !fn_(t.f)
        }),
{
    let x = s.a;
    let s1 = spec_add_a(s, y);
    let a1 = s1.a;
    let f0 = s.f;
    let f1 = with_flag(f0, 0x80, a1 == 0);
    let f2 = with_flag(f1, 0x40, false);
    let f3 = with_flag(f2, 0x20, x % 16 + y % 16 > 15);
    let f4 = with_flag(f3, 0x10, x + y > 255);
    lemma_with_flag(f0, a1 == 0);
    lemma_with_flag(f1, false);
    lemma_with_flag(f2, x % 16 + y % 16 > 15);
    lemma_with_flag(f3, x + y > 255);
    assert(s1.f == f4);
    let low = fh(f4) || (!fn_(f4) && a1 % 16 > 9);
    let high = fc(f4) || (!fn_(f4) && a1 > 0x99);
    assert(x == 16 * (x / 16) + x % 16 && y == 16 * (y / 16) + y % 16);
    let g1 = if high { with_flag(f4, 0x10, true) } else { f4 };
    lemma_with_flag(f4, true);
    let t = spec_daa(s1);
    let r = t.a;
    lemma_bcd_sum((x / 16) as int, (x % 16) as int, (y / 16) as int, (y % 16) as int);
    let g2 = with_flag(g1, 0x80, r == 0);
    lemma_with_flag(g1, r == 0);
    lemma_with_flag(g2, false);
}

#[verifier::spinoff_prover]
pub fn daa<M: Memory>(state: &mut GameBoy<M>)
    ensures
        final(state)@ == spec_daa(old(state)@),
{
    let mut a = state.a;
    let mut adjust = 0u8;
    proof {
        lemma_nibbles(a, 0);
    }
    if state.flag_h() || (!state.flag_n() && (a & 0x0F) > 0x09) {
        proof {
            assert(adjust | 0x06 == 6) by (bit_vector)
                requires
                    adjust == 0,
            ;
        }
        adjust = adjust | 0x06;
    }
    if state.flag_c() || (!state.flag_n() && a > 0x99) {
        proof {
            assert(adjust | 0x60 == adjust + 0x60) by (bit_vector)
                requires
                    adjust == 0 || adjust == 6,
            ;
        }
        adjust = adjust | 0x60;
        proof {
            crate::system::lemma_with_flag(state.f, true);
        }
        state.set_flag_c(true);
    }
    if state.flag_n() {
        a = a.wrapping_sub(adjust);
    } else {
        a = a.wrapping_add(adjust);
    }
    state.a = a;
    state.set_flag_z(a == 0);
    state.set_flag_h(false);
}

/// CPL: complement A; N and H set.
pub open spec fn spec_cpl<Mo>(s: GbModel<Mo>) -> GbModel<Mo> {
    GbModel { a: !s.a, f: with_flag(with_flag(s.f, 0x40, true), 0x20, true), ..s }
}

pub fn cpl<M: Memory>(state: &mut GameBoy<M>)
    ensures
        final(state)@ == spec_cpl(old(state)@),
{
    state.a = !state.a;
    state.set_flag_n(true);
    state.set_flag_h(true);
}

/// SCF: set C; N and H reset.
pub open spec fn spec_scf<Mo>(s: GbModel<Mo>) -> GbModel<Mo> {
    s.with_f(with_flag(with_flag(with_flag(s.f, 0x10, true), 0x40, false), 0x20, false))
}

pub fn scf<M: Memory>(state: &mut GameBoy<M>)
    ensures
        final(state)@ == spec_scf(old(state)@),
{
    state.set_flag_c(true);
    state.set_flag_n(false);
    state.set_flag_h(false);
}

/// CCF: complement C; N and H reset.
pub open spec fn spec_ccf<Mo>(s: GbModel<Mo>) -> GbModel<Mo> {
    s.with_f(with_flag(with_flag(with_flag(s.f, 0x10, !fc(s.f)), 0x40, false), 0x20, false))
}

pub fn ccf<M: Memory>(state: &mut GameBoy<M>)
    ensures
        final(state)@ == spec_ccf(old(state)@),
{
    let c = state.flag_c();
    state.set_flag_c(!c);
    state.set_flag_n(false);
    state.set_flag_h(false);
}

// ---------------------------------------------------------------------------
// 16-bit arithmetic
// ---------------------------------------------------------------------------
/// ADD HL,v: N reset, H on carry from bit 11, C on carry from bit 15, Z kept.
pub open spec fn spec_add_hl<Mo>(s: GbModel<Mo>, v: u16) -> GbModel<Mo> {
    let hl = s.hl();
    s.with_f(
        with_flag(
            with_flag(with_flag(s.f, 0x40, false), 0x20, hl % 4096 + v % 4096 > 4095),
            0x10,
            hl + v > 65535,
        ),
    ).with_hl(add16(hl as int, v as int))
}

#[verifier::spinoff_prover]
pub fn add_hl<M: Memory>(value: u16, state: &mut GameBoy<M>)
    ensures
        final(state)@ == spec_add_hl(old(state)@, value),
{
    let hl = state.hl();
    let result = hl.wrapping_add(value);
    proof {
        lemma_nibbles(0, hl);
        lemma_nibbles(0, value);
    }
    state.set_flag_n(false);
    state.set_flag_h((hl & 0x0FFF) + (value & 0x0FFF) > 0x0FFF);
    state.set_flag_c(hl > 0xFFFF - value);
    state.set_hl(result);
}

pub fn add_hl_bc<M: Memory>(state: &mut GameBoy<M>)
    ensures
        final(state)@ == spec_add_hl(old(state)@, old(state)@.bc()),
{
    let bc = state.bc();
    add_hl(bc, state);
}

pub fn add_hl_de<M: Memory>(state: &mut GameBoy<M>)
    ensures
        final(state)@ == spec_add_hl(old(state)@, old(state)@.de()),
{
    let de = state.de();
    add_hl(de, state);
}

pub fn add_hl_hl<M: Memory>(state: &mut GameBoy<M>)
    ensures
        final(state)@ == spec_add_hl(old(state)@, old(state)@.hl()),
{
    let hl = state.hl();
    add_hl(hl, state);
}

pub fn add_hl_sp<M: Memory>(state: &mut GameBoy<M>)
    ensures
        final(state)@ == spec_add_hl(old(state)@, old(state)@.sp),
{
    let sp = state.sp();
    add_hl(sp, state);
}

/// Increment the BC register pair by 1, wrapping around.
pub fn inc_bc<M: Memory>(state: &mut GameBoy<M>)
    ensures
        final(state)@ == old(state)@.with_bc(add16(old(state)@.bc() as int, 1)),
{
    let value = state.bc().wrapping_add(1);
    state.set_bc(value);
}

/// Decrement the BC register pair by 1, wrapping around.
pub fn dec_bc<M: Memory>(state: &mut GameBoy<M>)
    ensures
        final(state)@ == old(state)@.with_bc(add16(old(state)@.bc() as int, -1)),
{
    let value = state.bc().wrapping_sub(1);
    state.set_bc(value);
}

/// Increment the DE register pair by 1, wrapping around.
pub fn inc_de<M: Memory>(state: &mut GameBoy<M>)
    ensures
        final(state)@ == old(state)@.with_de(add16(old(state)@.de() as int, 1)),
{
    let value = state.de().wrapping_add(1);
    state.set_de(value);
}

/// Decrement the DE register pair by 1, wrapping around.
pub fn dec_de<M: Memory>(state: &mut GameBoy<M>)
    ensures
        final(state)@ == old(state)@.with_de(add16(old(state)@.de() as int, -1)),
{
    let value = state.de().wrapping_sub(1);
    state.set_de(value);
}

/// Increment the HL register pair by 1, wrapping around.
pub fn inc_hl<M: Memory>(state: &mut GameBoy<M>)
    ensures
        final(state)@ == old(state)@.with_hl(add16(old(state)@.hl() as int, 1)),
{
    let value = state.hl().wrapping_add(1);
    state.set_hl(value);
}

/// Decrement the HL register pair by 1, wrapping around.
pub fn dec_hl<M: Memory>(state: &mut GameBoy<M>)
    ensures
        final(state)@ == old(state)@.with_hl(add16(old(state)@.hl() as int, -1)),
{
    let value = state.hl().wrapping_sub(1);
    state.set_hl(value);
}

/// Increment the SP register by 1, wrapping around.
pub fn inc_sp<M: Memory>(state: &mut GameBoy<M>)
    ensures
        final(state)@ == old(state)@.with_sp(add16(old(state)@.sp as int, 1) as int),
{
    let value = state.sp().wrapping_add(1);
    state.set_sp(value);
}

/// Decrement the SP register by 1, wrapping around.
pub fn dec_sp<M: Memory>(state: &mut GameBoy<M>)
    ensures
        final(state)@ == old(state)@.with_sp(add16(old(state)@.sp as int, -1) as int),
{
    let value = state.sp().wrapping_sub(1);
    state.set_sp(value);
}

// ---------------------------------------------------------------------------
// Jumps
// ---------------------------------------------------------------------------
/// The target of a relative jump from `pc` by the signed offset `offset`.
pub open spec fn rel_target(pc: u16, offset: u8) -> u16 {
    add16(pc as int, sext8(offset))
}

fn relative_jump(pc: u16, offset: u8) -> (r: u16)
    ensures
        r == rel_target(pc, offset),
{
    proof {
        if offset < 128 {
            assert((offset as i8) as u16 == offset as u16) by (bit_vector)
                requires
                    offset < 128,
            ;
        } else {
            assert((offset as i8) as u16 == (offset as u16) + 0xFF00) by (bit_vector)
                requires
                    offset >= 128,
            ;
        }
    }
    pc.wrapping_add(offset as i8 as u16)
}

/// JR (when `taken`): read the offset at PC, step over it, and jump by it.
pub open spec fn spec_jr_if<M: Memory>(s: GbModel<M::Model>, taken: bool) -> GbModel<M::Model> {
    let offset = bus_read::<M>(s, s.pc);
    let s1 = s.with_pc(s.pc + 1);
    if taken {
        s1.with_pc(rel_target(s1.pc, offset) as int)
    } else {
        s1
    }
}

/// JR: jump relative, unconditionally.
#[verifier::spinoff_prover]
pub fn jr<M: Memory>(state: &mut GameBoy<M>)
    requires
        old(state).wf(),
        old(state).pc < 0xFFFF,
    ensures
        final(state)@ == spec_jr_if::<M>(old(state)@, true),
{
    let offset = state.read(state.pc);
    state.pc = state.pc + 1;
    state.pc = relative_jump(state.pc, offset);
}

/// JR NZ: jump relative if Z is clear.
#[verifier::spinoff_prover]
pub fn jr_nz<M: Memory>(state: &mut GameBoy<M>)
    requires
        old(state).wf(),
        old(state).pc < 0xFFFF,
    ensures
        final(state)@ == spec_jr_if::<M>(old(state)@, !fz(old(state).f)),
{
    let offset = state.read(state.pc);
    state.pc = state.pc + 1;
    if !state.flag_z() {
        state.pc = relative_jump(state.pc, offset);
    }
}

/// JR Z: jump relative if Z is set.
#[verifier::spinoff_prover]
pub fn jr_z<M: Memory>(state: &mut GameBoy<M>)
    requires
        old(state).wf(),
        old(state).pc < 0xFFFF,
    ensures
        final(state)@ == spec_jr_if::<M>(old(state)@, fz(old(state).f)),
{
    let offset = state.read(state.pc);
    state.pc = state.pc + 1;
    if state.flag_z() {
        state.pc = relative_jump(state.pc, offset);
    }
}

/// JR NC: jump relative if C is clear.
#[verifier::spinoff_prover]
pub fn jr_nc<M: Memory>(state: &mut GameBoy<M>)
    requires
        old(state).wf(),
        old(state).pc < 0xFFFF,
    ensures
        final(state)@ == spec_jr_if::<M>(old(state)@, !fc(old(state).f)),
{
    let offset = state.read(state.pc);
    state.pc = state.pc + 1;
    if !state.flag_c() {
        state.pc = relative_jump(state.pc, offset);
    }
}

/// JR C: jump relative if C is set.
#[verifier::spinoff_prover]
pub fn jr_c<M: Memory>(state: &mut GameBoy<M>)
    requires
        old(state).wf(),
        old(state).pc < 0xFFFF,
    ensures
        final(state)@ == spec_jr_if::<M>(old(state)@, fc(old(state).f)),
{
    let offset = state.read(state.pc);
    state.pc = state.pc + 1;
    if state.flag_c() {
        state.pc = relative_jump(state.pc, offset);
    }
}

/// JP (when `taken`): read the little-endian address at PC; jump to it, or
/// step over it.
pub open spec fn spec_jp_if<M: Memory>(s: GbModel<M::Model>, taken: bool) -> GbModel<M::Model> {
    if taken {
        s.with_pc(bus_read_word::<M>(s, s.pc) as int)
    } else {
        s.with_pc(s.pc + 2)
    }
}

/// JP: jump to the absolute address that follows the opcode.
#[verifier::spinoff_prover]
pub fn jp<M: Memory>(state: &mut GameBoy<M>)
    requires
        old(state).wf(),
        old(state).pc <= 0xFFFD,
    ensures
        final(state)@ == spec_jp_if::<M>(old(state)@, true),
{
    let low = state.read(state.pc);
    state.pc = state.pc + 1;
    let high = state.read(state.pc);
    state.pc = state.pc + 1;
    proof {
        lemma_word(high, low);
    }
    state.pc = ((high as u16) << 8) | (low as u16);
}

/// JP NZ: jump to the absolute address if Z is clear.
#[verifier::spinoff_prover]
pub fn jp_nz<M: Memory>(state: &mut GameBoy<M>)
    requires
        old(state).wf(),
        old(state).pc <= 0xFFFD,
    ensures
        final(state)@ == spec_jp_if::<M>(old(state)@, !fz(old(state).f)),
{
    let low = state.read(state.pc);
    state.pc = state.pc + 1;
    let high = state.read(state.pc);
    state.pc = state.pc + 1;
    if !state.flag_z() {
        proof {
            lemma_word(high, low);
        }
        state.pc = ((high as u16) << 8) | (low as u16);
    }
}

// ---------------------------------------------------------------------------
// Stack
// ---------------------------------------------------------------------------
/// The little-endian word at the top of the stack.
pub open spec fn stack_top<M: Memory>(s: GbModel<M::Model>) -> u16 {
    word(bus_read::<M>(s, add16(s.sp as int, 1)), bus_read::<M>(s, s.sp))
}

/// The state after popping a word: SP moves up by 2.
pub open spec fn spec_pop<Mo>(s: GbModel<Mo>) -> GbModel<Mo> {
    s.with_sp(add16(s.sp as int, 2) as int)
}

/// Pop a 16-bit value (little-endian) from the stack.
#[verifier::spinoff_prover]
pub fn pop_16bit<M: Memory>(state: &mut GameBoy<M>) -> (r: u16)
    requires
        old(state).wf(),
    ensures
        r == stack_top::<M>(old(state)@),
        final(state)@ == spec_pop(old(state)@),
{
    let low = state.read(state.sp);
    state.sp = state.sp.wrapping_add(1);
    let high = state.read(state.sp);
    state.sp = state.sp.wrapping_add(1);
    proof {
        lemma_word(high, low);
    }
    ((high as u16) << 8) | (low as u16)
}

/// RET: pop PC from the stack.
pub open spec fn spec_ret<M: Memory>(s: GbModel<M::Model>) -> GbModel<M::Model> {
    spec_pop(s).with_pc(stack_top::<M>(s) as int)
}

/// Return from subroutine: pop PC from the stack.
#[verifier::spinoff_prover]
pub fn ret<M: Memory>(state: &mut GameBoy<M>)
    requires
        old(state).wf(),
    ensures
        final(state)@ == spec_ret::<M>(old(state)@),
{
    state.pc = pop_16bit(state);
}

/// Return from subroutine if Z is clear.
#[verifier::spinoff_prover]
pub fn ret_nz<M: Memory>(state: &mut GameBoy<M>)
    requires
        old(state).wf(),
    ensures
        final(state)@ == if !fz(old(state).f) {
            spec_ret::<M>(old(state)@)
        } else {
            old(state)@
        },
{
    if !state.flag_z() {
        ret(state);
    }
}

/// Pop a 16-bit value into BC (low byte into C).
#[verifier::spinoff_prover]
pub fn pop_bc<M: Memory>(state: &mut GameBoy<M>)
    requires
        old(state).wf(),
    ensures
        final(state)@ == spec_pop(old(state)@).with_bc(stack_top::<M>(old(state)@)),
{
    let value = pop_16bit(state);
    proof {
        lemma_split_word(value);
    }
    state.c = value as u8;
    state.b = (value >> 8) as u8;
}

/// The state after SP moves down by one and the high byte of `value` is
/// written there.
pub open spec fn push_high<M: Memory>(s: GbModel<M::Model>, value: u16) -> GbModel<M::Model> {
    let s1 = s.with_sp(add16(s.sp as int, -1) as int);
    bus_write::<M>(s1, s1.sp, hi_byte(value))
}

/// Push `value` (little-endian): high byte at SP-1, low byte at SP-2.
pub open spec fn spec_push<M: Memory>(s: GbModel<M::Model>, value: u16) -> GbModel<M::Model> {
    let s2 = push_high::<M>(s, value);
    let s3 = s2.with_sp(add16(s2.sp as int, -1) as int);
    bus_write::<M>(s3, s3.sp, lo_byte(value))
}

/// Both writes of a push are defined.
pub open spec fn push_defined<M: Memory>(s: GbModel<M::Model>, value: u16) -> bool {
    &&& bus_write_defined::<M>(s, add16(s.sp as int, -1))
    &&& bus_write_defined::<M>(push_high::<M>(s, value), add16(s.sp as int, -2))
}

/// Push a 16-bit value onto the stack (little-endian).
#[verifier::spinoff_prover]
pub fn push_16bit<M: Memory>(value: u16, state: &mut GameBoy<M>)
    requires
        old(state).wf(),
        push_defined::<M>(old(state)@, value),
    ensures
        final(state)@ == spec_push::<M>(old(state)@, value),
        final(state).wf(),
{
    proof {
        lemma_split_word(value);
    }
    state.sp = state.sp.wrapping_sub(1);
    state.write(state.sp, (value >> 8) as u8);
    state.sp = state.sp.wrapping_sub(1);
    state.write(state.sp, value as u8);
}

/// CALL: push the address after the operand and jump to the operand.
pub open spec fn spec_call<M: Memory>(s: GbModel<M::Model>) -> GbModel<M::Model> {
    spec_jp_if::<M>(spec_push::<M>(s, (s.pc + 2) as u16), true)
}

pub open spec fn call_defined<M: Memory>(s: GbModel<M::Model>) -> bool {
    s.pc <= 0xFFFD && push_defined::<M>(s, (s.pc + 2) as u16)
}

/// Call subroutine: push the return address and jump.
#[verifier::spinoff_prover]
pub fn call<M: Memory>(state: &mut GameBoy<M>)
    requires
        old(state).wf(),
        call_defined::<M>(old(state)@),
    ensures
        final(state)@ == spec_call::<M>(old(state)@),
        final(state).wf(),
{
    push_16bit(state.pc + 2, state);
    jp(state);
}

/// Call subroutine if Z is clear; otherwise skip the address.
#[verifier::spinoff_prover]
pub fn call_nz<M: Memory>(state: &mut GameBoy<M>)
    requires
        old(state).wf(),
        old(state).pc <= 0xFFFD,
        !fz(old(state).f) ==> call_defined::<M>(old(state)@),
    ensures
        final(state)@ == if !fz(old(state).f) {
            spec_call::<M>(old(state)@)
        } else {
            old(state)@.with_pc(old(state).pc + 2)
        },
        final(state).wf(),
{
    if !state.flag_z() {
        call(state);
    } else {
        state.pc = state.pc + 2;
    }
}

/// RST 08h: push PC and jump to 0x0008.
#[verifier::spinoff_prover]
pub fn rst_08<M: Memory>(state: &mut GameBoy<M>)
    requires
        old(state).wf(),
        push_defined::<M>(old(state)@, old(state).pc),
    ensures
        final(state)@ == spec_push::<M>(old(state)@, old(state).pc).with_pc(0x0008),
        final(state).wf(),
{
    push_16bit(state.pc, state);
    state.pc = 0x0008;
}

// ---------------------------------------------------------------------------
// Memory operands
// ---------------------------------------------------------------------------
/// INC (HL): increment the byte at HL.
pub open spec fn spec_inc_hl_indirect<M: Memory>(s: GbModel<M::Model>) -> GbModel<M::Model> {
    let v = bus_read::<M>(s, s.hl());
    bus_write::<M>(s.with_f(inc8_flags(s.f, v)), s.hl(), add8(v as int, 1))
}

/// DEC (HL): decrement the byte at HL.
pub open spec fn spec_dec_hl_indirect<M: Memory>(s: GbModel<M::Model>) -> GbModel<M::Model> {
    let v = bus_read::<M>(s, s.hl());
    bus_write::<M>(s.with_f(dec8_flags(s.f, v)), s.hl(), add8(v as int, -1))
}

#[verifier::spinoff_prover]
pub fn inc_hl_indirect<M: Memory>(state: &mut GameBoy<M>)
    requires
        old(state).wf(),
        bus_write_defined::<M>(old(state)@, old(state)@.hl()),
    ensures
        final(state)@ == spec_inc_hl_indirect::<M>(old(state)@),
        final(state).wf(),
{
    let addr = state.hl();
    let value = state.read(addr);
    let result = inc_8bit(value, state);
    state.write(addr, result);
}

#[verifier::spinoff_prover]
pub fn dec_hl_indirect<M: Memory>(state: &mut GameBoy<M>)
    requires
        old(state).wf(),
        bus_write_defined::<M>(old(state)@, old(state)@.hl()),
    ensures
        final(state)@ == spec_dec_hl_indirect::<M>(old(state)@),
        final(state).wf(),
{
    let addr = state.hl();
    let value = state.read(addr);
    let result = dec_8bit(value, state);
    state.write(addr, result);
}

// ---------------------------------------------------------------------------
// Interrupts
// ---------------------------------------------------------------------------
/// Interrupts both enabled (IE) and requested (IF).
pub open spec fn pending_interrupts<M: Memory>(s: GbModel<M::Model>) -> u8 {
    bus_read::<M>(s, IE) & bus_read::<M>(s, IF) & 0x1F
}

/// Bit number of the highest-priority interrupt in `p` (lowest set bit):
/// V-Blank, LCD STAT, timer, serial, joypad.
pub open spec fn lowest_set_bit(p: u8) -> u8 {
    if p & 0x01 != 0 {
        0
    } else if p & 0x02 != 0 {
        1
    } else if p & 0x04 != 0 {
        2
    } else if p & 0x08 != 0 {
        3
    } else {
        4
    }
}

/// Handler address of interrupt `bit`: 0x40, 0x48, 0x50, 0x58, 0x60.
pub open spec fn interrupt_vector(bit: u8) -> u16 {
    (0x40 + 8 * bit) as u16
}

/// An interrupt is serviced: IME is set and one is pending.
pub open spec fn services_interrupt<M: Memory>(s: GbModel<M::Model>) -> bool {
    s.ime && pending_interrupts::<M>(s) != 0
}

/// The state when the return address is pushed: IME and HALT cleared, the
/// serviced request cleared in IF, SP moved down by 2.
pub open spec fn service_frame<M: Memory>(s: GbModel<M::Model>) -> GbModel<M::Model> {
    let bit = lowest_set_bit(pending_interrupts::<M>(s));
    let s1 = GbModel { ime: false, halt: false, ..s };
    let s2 = bus_write::<M>(s1, IF, bus_read::<M>(s, IF) & !(1u8 << bit));
    s2.with_sp(add16(s2.sp as int, -2) as int)
}

/// Servicing an interrupt: the return address is pushed (low byte at SP),
/// PC jumps to the vector and 20 cycles are counted.
pub open spec fn spec_service<M: Memory>(s: GbModel<M::Model>) -> GbModel<M::Model> {
    let bit = lowest_set_bit(pending_interrupts::<M>(s));
    let s3 = service_frame::<M>(s);
    let s4 = bus_write::<M>(s3, s3.sp, lo_byte(s3.pc));
    let s5 = bus_write::<M>(s4, add16(s4.sp as int, 1), hi_byte(s4.pc));
    GbModel { pc: interrupt_vector(bit), ..s5 }.tick(20)
}

/// The writes and the cycle count of servicing are defined.
pub open spec fn service_defined<M: Memory>(s: GbModel<M::Model>) -> bool {
    let s3 = service_frame::<M>(s);
    &&& s.cycles + 20 <= u64::MAX
    &&& bus_write_defined::<M>(s3, s3.sp)
    &&& bus_write_defined::<M>(
        bus_write::<M>(s3, s3.sp, lo_byte(s3.pc)),
        add16(s3.sp as int, 1),
    )
}

/// Stepping SP down and up by one and two.
proof fn lemma_sp_steps(sp: u16)
    ensures
        add16(add16(sp as int, -1) as int, -1) == add16(sp as int, -2),
        add16(add16(sp as int, -2) as int, 1) == add16(sp as int, -1),
        add16(add16(sp as int, -2) as int, 2) == sp,
        add16(sp as int, -1) != add16(sp as int, -2),
{
}

/// With flat memory and the two stack bytes plain, popping after pushing
/// gives back the value pushed and the stack pointer, and nothing but
/// memory changed.
pub proof fn law_push_pop(s: GbModel<Seq<u8>>, value: u16)
    requires
        gb_wf::<FlatMemory>(s),
        is_plain_address(s.ppu, add16(s.sp as int, -1)),
        is_plain_address(s.ppu, add16(s.sp as int, -2)),
    ensures
        stack_top::<FlatMemory>(spec_push::<FlatMemory>(s, value)) == value,
        spec_pop(spec_push::<FlatMemory>(s, value)) == (GbModel {
            mem: spec_push::<FlatMemory>(s, value).mem,
            ..s
        }),
{
    lemma_sp_steps(s.sp);
    lemma_split_word(value);
    let s1 = s.with_sp(add16(s.sp as int, -1) as int);
    law_bus_transparent::<FlatMemory>(s1, s1.sp, hi_byte(value));
    let s2 = push_high::<FlatMemory>(s, value);
    let s3 = s2.with_sp(add16(s2.sp as int, -1) as int);
    law_bus_transparent::<FlatMemory>(s3, s3.sp, lo_byte(value));
    let s4 = spec_push::<FlatMemory>(s, value);
    law_bus_transparent::<FlatMemory>(s4, s4.sp, 0);
    law_bus_transparent::<FlatMemory>(s4, add16(s4.sp as int, 1), 0);
}

/// With flat memory and the stack bytes and the operand plain, CALL then
/// RET comes back after the CALL's operand with the stack pointer restored.
pub proof fn law_call_ret(s: GbModel<Seq<u8>>)
    requires
        gb_wf::<FlatMemory>(s),
        s.pc <= 0xFFFD,
        is_plain_address(s.ppu, add16(s.sp as int, -1)),
        is_plain_address(s.ppu, add16(s.sp as int, -2)),
    ensures
        spec_ret::<FlatMemory>(spec_call::<FlatMemory>(s)).pc == s.pc + 2,
        spec_ret::<FlatMemory>(spec_call::<FlatMemory>(s)).sp == s.sp,
{
    law_push_pop(s, (s.pc + 2) as u16);
    let t = spec_push::<FlatMemory>(s, (s.pc + 2) as u16);
    assert(stack_top::<FlatMemory>(spec_call::<FlatMemory>(s)) == stack_top::<FlatMemory>(t));
}

/// The serviced interrupt is the pending one of highest priority: its bit
/// is set in the pending set and no lower bit is.
pub proof fn law_interrupt_priority(pending: u8)
    requires
        pending != 0,
        pending < 0x20,
    ensures
        pending & (1u8 << lowest_set_bit(pending)) != 0,
        forall|j: u8| j < lowest_set_bit(pending) ==> #[trigger] (pending & (1u8 << j)) == 0,
{
    assert(pending != 0 && pending < 0x20 ==> pending & 0x01 != 0 || pending & 0x02 != 0 || pending
        & 0x04 != 0 || pending & 0x08 != 0 || pending & 0x10 != 0) by (bit_vector);
    assert(1u8 << 0u8 == 1 && 1u8 << 1u8 == 2 && 1u8 << 2u8 == 4 && 1u8 << 3u8 == 8 && 1u8 << 4u8
        == 16) by (bit_vector);
    assert forall|j: u8| j < lowest_set_bit(pending) implies #[trigger] (pending & (1u8 << j)) == 0 by {
        assert(j == 0 || j == 1 || j == 2 || j == 3);
    }
}

/// With flat memory and the stack bytes plain, servicing an interrupt
/// leaves the interrupted PC on top of the stack (where RET finds it),
/// jumps to the vector of the serviced interrupt and clears IME.
pub proof fn law_service_saves_pc(s: GbModel<Seq<u8>>)
    requires
        gb_wf::<FlatMemory>(s),
        is_plain_address(s.ppu, add16(s.sp as int, -1)),
        is_plain_address(s.ppu, add16(s.sp as int, -2)),
    ensures
        stack_top::<FlatMemory>(spec_service::<FlatMemory>(s)) == s.pc,
        spec_service::<FlatMemory>(s).sp == add16(s.sp as int, -2),
        spec_service::<FlatMemory>(s).pc == interrupt_vector(
            lowest_set_bit(pending_interrupts::<FlatMemory>(s)),
        ),
        !spec_service::<FlatMemory>(s).ime,
{
    lemma_sp_steps(s.sp);
    lemma_split_word(s.pc);
    let bit = lowest_set_bit(pending_interrupts::<FlatMemory>(s));
    let s1 = GbModel { ime: false, halt: false, ..s };
    lemma_plain_write::<FlatMemory>(s1, IF, bus_read::<FlatMemory>(s, IF) & !(1u8 << bit));
    let s3 = service_frame::<FlatMemory>(s);
    law_bus_transparent::<FlatMemory>(s3, s3.sp, lo_byte(s3.pc));
    let s4 = bus_write::<FlatMemory>(s3, s3.sp, lo_byte(s3.pc));
    law_bus_transparent::<FlatMemory>(s4, add16(s4.sp as int, 1), hi_byte(s4.pc));
    let s6 = spec_service::<FlatMemory>(s);
    law_bus_transparent::<FlatMemory>(s6, s6.sp, 0);
    law_bus_transparent::<FlatMemory>(s6, add16(s6.sp as int, 1), 0);
}

/// Whether an enabled interrupt is requested (wakes the CPU from HALT).
pub fn has_pending_interrupt<M: Memory>(state: &GameBoy<M>) -> (r: bool)
    requires
        state.wf(),
    ensures
        r == (pending_interrupts::<M>(state@) != 0),
{
    let ie = state.read(IE);
    let if_flags = state.read(IF);
    (ie & if_flags & 0x1F) != 0
}

/// Service the highest-priority pending interrupt if IME is set; returns
/// whether one was serviced.
#[verifier::spinoff_prover]
pub fn service_interrupts<M: Memory>(state: &mut GameBoy<M>) -> (r: bool)
    requires
        old(state).wf(),
        services_interrupt::<M>(old(state)@) ==> service_defined::<M>(old(state)@),
    ensures
        r == services_interrupt::<M>(old(state)@),
        final(state).cycles >= old(state).cycles,
        final(state)@ == if r {
            spec_service::<M>(old(state)@)
        } else {
            old(state)@
        },
        final(state).wf(),
{
    if !state.ime {
        return false;
    }
    let ie = state.read(IE);
    let if_flags = state.read(IF);
    let pending = ie & if_flags & 0x1F;
    if pending == 0 {
        return false;
    }
    let interrupt_bit: u8 = if pending & 0x01 != 0 {
        0
    } else if pending & 0x02 != 0 {
        1
    } else if pending & 0x04 != 0 {
        2
    } else if pending & 0x08 != 0 {
        3
    } else {
        4
    };
    let vector: u16 = 0x40 + 8 * interrupt_bit as u16;
    state.ime = false;
    state.halt = false;
    let new_if = if_flags & !(1u8 << interrupt_bit);
    state.write(IF, new_if);
    state.sp = state.sp.wrapping_sub(2);
    proof {
        lemma_split_word(state.pc);
    }
    state.write(state.sp, (state.pc & 0xFF) as u8);
    state.write(state.sp.wrapping_add(1), (state.pc >> 8) as u8);
    state.pc = vector;
    state.cycles = state.cycles + 20;
    true
}

// ---------------------------------------------------------------------------
// The fetch-execute step
// ---------------------------------------------------------------------------
/// `s` after `n` cycles, when the cycle counter does not overflow.
pub open spec fn done<Mo>(s: GbModel<Mo>, n: int) -> Option<GbModel<Mo>> {
    if s.cycles + n <= u64::MAX {
        Some(s.tick(n))
    } else {
        None
    }
}

/// Write `v` at `addr` and count `n` cycles, when the write is defined.
pub open spec fn store<M: Memory>(s: GbModel<M::Model>, addr: u16, v: u8, n: int) -> Option<GbModel<M::Model>> {
    if bus_write_defined::<M>(s, addr) {
        done(bus_write::<M>(s, addr, v), n)
    } else {
        None
    }
}

/// Opcodes 0x00-0x0F.
pub open spec fn block0_0<M: Memory>(op: u8, s: GbModel<M::Model>) -> Option<GbModel<M::Model>> {
    let pc = s.pc as int;
    let imm = bus_read::<M>(s, s.pc);
    if op == 0x00 {
        done(s, 4)
    } else if op == 0x01 {
        if pc + 2 <= 0xFFFF {
            done(s.with_bc(bus_read_word::<M>(s, s.pc)).with_pc(pc + 2), 12)
        } else {
            None
        }
    } else if op == 0x02 {
        store::<M>(s, s.bc(), s.a, 8)
    } else if op == 0x03 {
        done(s.with_bc(add16(s.bc() as int, 1)), 8)
    } else if op == 0x04 {
        done(spec_inc_reg(s, 0), 4)
    } else if op == 0x05 {
        done(spec_dec_reg(s, 0), 4)
    } else if op == 0x06 {
        if pc + 1 <= 0xFFFF {
            done(with_reg8(s, 0, imm).with_pc(pc + 1), 8)
        } else {
            None
        }
    } else if op == 0x07 {
        done(clear_z(spec_rlc_reg(s, 7)), 4)
    } else if op == 0x08 {
        None
    } else if op == 0x09 {
        done(spec_add_hl(s, s.bc()), 8)
    } else if op == 0x0A {
        done(GbModel { a: bus_read::<M>(s, s.bc()), ..s }, 8)
    } else if op == 0x0B {
        done(s.with_bc(add16(s.bc() as int, -1)), 8)
    } else if op == 0x0C {
        done(spec_inc_reg(s, 1), 4)
    } else if op == 0x0D {
        done(spec_dec_reg(s, 1), 4)
    } else if op == 0x0E {
        if pc + 1 <= 0xFFFF {
            done(with_reg8(s, 1, imm).with_pc(pc + 1), 8)
        } else {
            None
        }
    } else if op == 0x0F {
        done(clear_z(spec_rrc_reg(s, 7)), 4)
    } else {
        None
    }
}

/// Opcodes 0x10-0x1F.
pub open spec fn block0_1<M: Memory>(op: u8, s: GbModel<M::Model>) -> Option<GbModel<M::Model>> {
    let pc = s.pc as int;
    let imm = bus_read::<M>(s, s.pc);
    if op == 0x10 {
        if pc + 1 <= 0xFFFF {
            done(s.with_pc(pc + 1), 4)
        } else {
            None
        }
    } else if op == 0x11 {
        if pc + 2 <= 0xFFFF {
            done(s.with_de(bus_read_word::<M>(s, s.pc)).with_pc(pc + 2), 12)
        } else {
            None
        }
    } else if op == 0x12 {
        store::<M>(s, s.de(), s.a, 8)
    } else if op == 0x13 {
        done(s.with_de(add16(s.de() as int, 1)), 8)
    } else if op == 0x14 {
        done(spec_inc_reg(s, 2), 4)
    } else if op == 0x15 {
        done(spec_dec_reg(s, 2), 4)
    } else if op == 0x16 {
        if pc + 1 <= 0xFFFF {
            done(with_reg8(s, 2, imm).with_pc(pc + 1), 8)
        } else {
            None
        }
    } else if op == 0x17 {
        done(clear_z(spec_rl_reg(s, 7)), 4)
    } else if op == 0x18 {
        if pc + 1 <= 0xFFFF {
            done(spec_jr_if::<M>(s, true), 8)
        } else {
            None
        }
    } else if op == 0x19 {
        done(spec_add_hl(s, s.de()), 8)
    } else if op == 0x1A {
        done(GbModel { a: bus_read::<M>(s, s.de()), ..s }, 8)
    } else if op == 0x1B {
        done(s.with_de(add16(s.de() as int, -1)), 8)
    } else if op == 0x1C {
        done(spec_inc_reg(s, 3), 4)
    } else if op == 0x1D {
        done(spec_dec_reg(s, 3), 4)
    } else if op == 0x1E {
        if pc + 1 <= 0xFFFF {
            done(with_reg8(s, 3, imm).with_pc(pc + 1), 8)
        } else {
            None
        }
    } else if op == 0x1F {
        done(clear_z(spec_rr_reg(s, 7)), 4)
    } else {
        None
    }
}

/// Opcodes 0x20-0x2F.
pub open spec fn block0_2<M: Memory>(op: u8, s: GbModel<M::Model>) -> Option<GbModel<M::Model>> {
    let pc = s.pc as int;
    let imm = bus_read::<M>(s, s.pc);
    if op == 0x20 {
        if pc + 1 <= 0xFFFF {
            done(spec_jr_if::<M>(s, !fz(s.f)), 8)
        } else {
            None
        }
    } else if op == 0x21 {
        if pc + 2 <= 0xFFFF {
            done(s.with_hl(bus_read_word::<M>(s, s.pc)).with_pc(pc + 2), 12)
        } else {
            None
        }
    } else if op == 0x22 {
        if bus_write_defined::<M>(s, s.hl()) {
            let s1 = bus_write::<M>(s, s.hl(), s.a);
            done(s1.with_hl(add16(s1.hl() as int, 1)), 8)
        } else {
            None
        }
    } else if op == 0x23 {
        done(s.with_hl(add16(s.hl() as int, 1)), 8)
    } else if op == 0x24 {
        done(spec_inc_reg(s, 4), 4)
    } else if op == 0x25 {
        done(spec_dec_reg(s, 4), 4)
    } else if op == 0x26 {
        if pc + 1 <= 0xFFFF {
            done(with_reg8(s, 4, imm).with_pc(pc + 1), 8)
        } else {
            None
        }
    } else if op == 0x27 {
        done(spec_daa(s), 4)
    } else if op == 0x28 {
        if pc + 1 <= 0xFFFF {
            done(spec_jr_if::<M>(s, fz(s.f)), 8)
        } else {
            None
        }
    } else if op == 0x29 {
        done(spec_add_hl(s, s.hl()), 8)
    } else if op == 0x2A {
        let s1 = GbModel { a: bus_read::<M>(s, s.hl()), ..s };
        done(s1.with_hl(add16(s1.hl() as int, 1)), 8)
    } else if op == 0x2B {
        done(s.with_hl(add16(s.hl() as int, -1)), 8)
    } else if op == 0x2C {
        done(spec_inc_reg(s, 5), 4)
    } else if op == 0x2D {
        done(spec_dec_reg(s, 5), 4)
    } else if op == 0x2E {
        if pc + 1 <= 0xFFFF {
            done(with_reg8(s, 5, imm).with_pc(pc + 1), 8)
        } else {
            None
        }
    } else if op == 0x2F {
        done(spec_cpl(s), 4)
    } else {
        None
    }
}

/// Opcodes 0x30-0x3F.
pub open spec fn block0_3<M: Memory>(op: u8, s: GbModel<M::Model>) -> Option<GbModel<M::Model>> {
    let pc = s.pc as int;
    let imm = bus_read::<M>(s, s.pc);
    if op == 0x30 {
        if pc + 1 <= 0xFFFF {
            done(spec_jr_if::<M>(s, !fc(s.f)), 8)
        } else {
            None
        }
    } else if op == 0x31 {
        if pc + 2 <= 0xFFFF {
            done(s.with_sp(bus_read_word::<M>(s, s.pc) as int).with_pc(pc + 2), 12)
        } else {
            None
        }
    } else if op == 0x32 {
        if bus_write_defined::<M>(s, s.hl()) {
            let s1 = bus_write::<M>(s, s.hl(), s.a);
            done(s1.with_hl(add16(s1.hl() as int, -1)), 8)
        } else {
            None
        }
    } else if op == 0x33 {
        done(s.with_sp(add16(s.sp as int, 1) as int), 8)
    } else if op == 0x34 {
        if bus_write_defined::<M>(s, s.hl()) {
            done(spec_inc_hl_indirect::<M>(s), 12)
        } else {
            None
        }
    } else if op == 0x35 {
        if bus_write_defined::<M>(s, s.hl()) {
            done(spec_dec_hl_indirect::<M>(s), 12)
        } else {
            None
        }
    } else if op == 0x36 {
        if pc + 1 <= 0xFFFF {
            let s1 = s.with_pc(pc + 1);
            store::<M>(s1, s1.hl(), imm, 12)
        } else {
            None
        }
    } else if op == 0x37 {
        done(spec_scf(s), 4)
    } else if op == 0x38 {
        if pc + 1 <= 0xFFFF {
            done(spec_jr_if::<M>(s, fc(s.f)), 8)
        } else {
            None
        }
    } else if op == 0x39 {
        done(spec_add_hl(s, s.sp), 8)
    } else if op == 0x3A {
        let s1 = GbModel { a: bus_read::<M>(s, s.hl()), ..s };
        done(s1.with_hl(add16(s1.hl() as int, -1)), 8)
    } else if op == 0x3B {
        done(s.with_sp(add16(s.sp as int, -1) as int), 8)
    } else if op == 0x3C {
        done(spec_inc_reg(s, 7), 4)
    } else if op == 0x3D {
        done(spec_dec_reg(s, 7), 4)
    } else if op == 0x3E {
        if pc + 1 <= 0xFFFF {
            done(with_reg8(s, 7, imm).with_pc(pc + 1), 8)
        } else {
            None
        }
    } else if op == 0x3F {
        done(spec_ccf(s), 4)
    } else {
        None
    }
}

/// Opcodes 0x00-0x3F: 16-bit loads and arithmetic, 8-bit increments,
/// immediate loads, rotations of A, relative jumps, DAA, CPL, SCF, CCF.
/// `s` is the state after the opcode byte; PC points at the operand.
/// `None` where the instruction is not implemented (0x08) or would overflow
/// PC or the cycle counter.
pub open spec fn block0<M: Memory>(op: u8, s: GbModel<M::Model>) -> Option<GbModel<M::Model>> {
    if op < 0x10 {
        block0_0::<M>(op, s)
    } else if op < 0x20 {
        block0_1::<M>(op, s)
    } else if op < 0x30 {
        block0_2::<M>(op, s)
    } else {
        block0_3::<M>(op, s)
    }
}

/// Opcodes 0x40-0x7F: `LD r,r'` with index 6 naming (HL); 0x76 is HALT,
/// which halts only while IME is set.
pub open spec fn block1<M: Memory>(op: u8, s: GbModel<M::Model>) -> Option<GbModel<M::Model>> {
    if op == 0x76 {
        done(
            if s.ime {
                GbModel { halt: true, ..s }
            } else {
                s
            },
            4,
        )
    } else {
        let dst = op as int / 8 % 8;
        let src = op as int % 8;
        let v = if src == 6 {
            bus_read::<M>(s, s.hl())
        } else {
            reg8(s, src)
        };
        if dst == 6 {
            store::<M>(s, s.hl(), v, 8)
        } else {
            done(
                with_reg8(s, dst, v),
                if src == 6 {
                    8
                } else {
                    4
                },
            )
        }
    }
}

/// Opcodes 0x80-0xBF: ADD, ADC, SUB, SBC, AND, XOR, OR, CP of A with the
/// register (or (HL)) of index `op % 8`.
pub open spec fn block2<M: Memory>(op: u8, s: GbModel<M::Model>) -> Option<GbModel<M::Model>> {
    let src = op as int % 8;
    let v = if src == 6 {
        bus_read::<M>(s, s.hl())
    } else {
        reg8(s, src)
    };
    done(
        spec_alu(s, op as int / 8 % 8, v),
        if src == 6 {
            8
        } else {
            4
        },
    )
}

/// Opcodes 0xC0-0xFF: RET NZ, POP BC, JP NZ, JP, CALL NZ, CALL, ADC A,n and
/// RST 08h; the others are not implemented.  Conditional branches take
/// more cycles when taken.
pub open spec fn block3<M: Memory>(op: u8, s: GbModel<M::Model>) -> Option<GbModel<M::Model>> {
    let pc = s.pc as int;
    if op == 0xC0 {
        let s1 = if !fz(s.f) {
            spec_ret::<M>(s)
        } else {
            s
        };
        done(
            s1,
            if !fz(s1.f) {
                20
            } else {
                8
            },
        )
    } else if op == 0xC1 {
        done(spec_pop(s).with_bc(stack_top::<M>(s)), 12)
    } else if op == 0xC2 {
        if pc + 2 <= 0xFFFF {
            let s1 = spec_jp_if::<M>(s, !fz(s.f));
            done(
                s1,
                if !fz(s1.f) {
                    16
                } else {
                    12
                },
            )
        } else {
            None
        }
    } else if op == 0xC3 {
        if pc + 2 <= 0xFFFF {
            done(spec_jp_if::<M>(s, true), 16)
        } else {
            None
        }
    } else if op == 0xC4 {
        if pc + 2 <= 0xFFFF && (!fz(s.f) ==> call_defined::<M>(s)) {
            let s1 = if !fz(s.f) {
                spec_call::<M>(s)
            } else {
                s.with_pc(pc + 2)
            };
            done(
                s1,
                if !fz(s1.f) {
                    24
                } else {
                    12
                },
            )
        } else {
            None
        }
    } else if op == 0xCD {
        if call_defined::<M>(s) {
            done(spec_call::<M>(s), 24)
        } else {
            None
        }
    } else if op == 0xCE {
        if pc + 1 <= 0xFFFF {
            done(spec_adc_a(s.with_pc(pc + 1), bus_read::<M>(s, s.pc)), 8)
        } else {
            None
        }
    } else if op == 0xCF {
        if push_defined::<M>(s, s.pc) {
            done(spec_push::<M>(s, s.pc).with_pc(0x0008), 16)
        } else {
            None
        }
    } else {
        None
    }
}

/// The result of executing opcode `op` on `s` (PC past the opcode), or
/// `None` where it is undefined.
#[verifier::opaque]
pub open spec fn opcode_result<M: Memory>(op: u8, s: GbModel<M::Model>) -> Option<GbModel<M::Model>> {
    if op < 0x40 {
        block0::<M>(op, s)
    } else if op < 0x80 {
        block1::<M>(op, s)
    } else if op < 0xC0 {
        block2::<M>(op, s)
    } else {
        block3::<M>(op, s)
    }
}

/// Pending DI and EI take effect unless the previous byte is the DI or EI
/// opcode itself.
pub open spec fn after_delays<M: Memory>(s: GbModel<M::Model>) -> GbModel<M::Model> {
    let s1 = if s.di_delay && bus_read::<M>(s, add16(s.pc as int, -1)) != 0xF3 {
        GbModel { di_delay: false, ime: false, ..s }
    } else {
        s
    };
    if s1.ei_delay && bus_read::<M>(s1, add16(s1.pc as int, -1)) != 0xFB {
        GbModel { ei_delay: false, ime: true, ..s1 }
    } else {
        s1
    }
}

/// One step of the CPU: service an interrupt if IME is set and one is
/// pending; otherwise apply pending DI/EI, stay halted while no interrupt is
/// pending, or fetch the opcode at PC and execute it.  `None` where the step
/// is undefined.
pub open spec fn execute_result<M: Memory>(s: GbModel<M::Model>) -> Option<GbModel<M::Model>> {
    if services_interrupt::<M>(s) {
        if service_defined::<M>(s) {
            Some(spec_service::<M>(s))
        } else {
            None
        }
    } else {
        let s1 = after_delays::<M>(s);
        if s1.halt && pending_interrupts::<M>(s1) == 0 {
            Some(s1)
        } else {
            let s2 = GbModel { halt: false, ..s1 };
            if s2.pc == 0xFFFF {
                None
            } else {
                opcode_result::<M>(bus_read::<M>(s2, s2.pc), s2.with_pc(s2.pc + 1))
            }
        }
    }
}

/// The opcodes this CPU executes: 0x00-0xC4 except 0x08, and 0xCD-0xCF.
pub open spec fn is_implemented(op: u8) -> bool {
    op != 0x08 && (op <= 0xC4 || 0xCD <= op <= 0xCF)
}

/// Whether the CPU executes `op`.
pub fn opcode_implemented(op: u8) -> (r: bool)
    ensures
        r == is_implemented(op),
{
    op != 0x08 && (op <= 0xC4 || (0xCD <= op && op <= 0xCF))
}

/// An opcode outside the implemented set has no defined execution.
pub proof fn law_unimplemented_opcode<M: Memory>(op: u8, s: GbModel<M::Model>)
    requires
        !is_implemented(op),
    ensures
        opcode_result::<M>(op, s) is None,
{
    reveal(opcode_result);
    if op == 0x08 {
        assert(block0_0::<M>(op, s) is None);
    } else {
        assert(op >= 0xC5);
        assert(block3::<M>(op, s) is None);
    }
}

/// The loads through HL that move HL afterwards: `LD A,(HL+)` (0x2A) and
/// `LD A,(HL-)` (0x3A) load A from the byte at HL; `LD (HL+),A` (0x22) and
/// `LD (HL-),A` (0x32) store A at HL. The `+` forms leave HL one higher
/// (0xFFFF wraps to 0), the `-` forms one lower (0 wraps to 0xFFFF). Each
/// takes 8 cycles and changes nothing else.
pub proof fn law_hl_moving_loads<M: Memory>(s: GbModel<M::Model>)
    requires
        s.cycles + 8 <= u64::MAX,
    ensures
        opcode_result::<M>(0x2A, s) is Some,
        opcode_result::<M>(0x3A, s) is Some,
        ({
            let t = opcode_result::<M>(0x2A, s).unwrap();
            &&& t.a == bus_read::<M>(s, s.hl())
            &&& t.hl() == (s.hl() + 1) % 0x10000
            &&& t == (GbModel { a: t.a, h: t.h, l: t.l, cycles: (s.cycles + 8) as u64, ..s })
        }),
        ({
            let t = opcode_result::<M>(0x3A, s).unwrap();
            &&& t.a == bus_read::<M>(s, s.hl())
            &&& (t.hl() + 1) % 0x10000 == s.hl()
            &&& t == (GbModel { a: t.a, h: t.h, l: t.l, cycles: (s.cycles + 8) as u64, ..s })
        }),
        bus_write_defined::<M>(s, s.hl()) ==> ({
            let w = bus_write::<M>(s, s.hl(), s.a);
            let t = opcode_result::<M>(0x22, s).unwrap();
            &&& opcode_result::<M>(0x22, s) is Some
            &&& t.hl() == (s.hl() + 1) % 0x10000
            &&& t == (GbModel { h: t.h, l: t.l, cycles: (s.cycles + 8) as u64, ..w })
        }),
        bus_write_defined::<M>(s, s.hl()) ==> ({
            let w = bus_write::<M>(s, s.hl(), s.a);
            let t = opcode_result::<M>(0x32, s).unwrap();
            &&& opcode_result::<M>(0x32, s) is Some
            &&& (t.hl() + 1) % 0x10000 == s.hl()
            &&& t == (GbModel { h: t.h, l: t.l, cycles: (s.cycles + 8) as u64, ..w })
        }),
{
    let up = add16(s.hl() as int, 1);
    let down = add16(s.hl() as int, -1);
    lemma_split_word(up);
    lemma_split_word(down);
    assert(up == (s.hl() + 1) % 0x10000);
    assert((down + 1) % 0x10000 == s.hl());
    lemma_opcode_hl_moving::<M>(s);
}

/// `LD d,r` (opcode 0x40 + 8d + r, neither index naming (HL)) copies
/// register `r` into register `d` (indices B, C, D, E, H, L, -, A) in 4
/// cycles and changes nothing else.
#[verifier::spinoff_prover]
pub proof fn law_ld_reg_reg<M: Memory>(s: GbModel<M::Model>, d: u8, r: u8)
    requires
        d < 8,
        r < 8,
        d != 6,
        r != 6,
        s.cycles + 4 <= u64::MAX,
    ensures
        opcode_result::<M>((0x40 + 8 * d + r) as u8, s) == Some(
            with_reg8(s, d as int, reg8(s, r as int)).tick(4),
        ),
{
    let op = (0x40 + 8 * d + r) as u8;
    assert(op as int / 8 % 8 == d && op as int % 8 == r && op != 0x76 && 0x40 <= op < 0x80);
    lemma_opcode_block1::<M>(op, s);
}

#[verifier::spinoff_prover]
proof fn lemma_opcode_block1<M: Memory>(op: u8, s: GbModel<M::Model>)
    requires
        0x40 <= op < 0x80,
    ensures
        opcode_result::<M>(op, s) == block1::<M>(op, s),
{
    reveal(opcode_result);
}

/// The ALU opcodes 0x80 + 8k + r with a register operand `r` (not (HL)):
/// k = 0-7 selects ADD, ADC, SUB, SBC, AND, XOR, OR, CP of A with the
/// register, in 4 cycles.
#[verifier::spinoff_prover]
#[verifier::rlimit(50)]
pub proof fn law_alu_opcodes<M: Memory>(s: GbModel<M::Model>, k: u8, r: u8)
    requires
        k < 8,
        r < 8,
        r != 6,
        s.cycles + 4 <= u64::MAX,
    ensures
        ({
            let v = reg8(s, r as int);
            let t = if k == 0 {
                spec_add_a(s, v)
            } else if k == 1 {
                spec_adc_a(s, v)
            } else if k == 2 {
                spec_sub_a(s, v)
            } else if k == 3 {
                spec_sbc_a(s, v)
            } else if k == 4 {
                spec_and_a(s, v)
            } else if k == 5 {
                spec_xor_a(s, v)
            } else if k == 6 {
                spec_or_a(s, v)
            } else {
                spec_cp_a(s, v)
            };
            opcode_result::<M>((0x80 + 8 * k + r) as u8, s) == Some(t.tick(4))
        }),
{
    let op = (0x80 + 8 * k + r) as u8;
    assert(op as int / 8 % 8 == k && op as int % 8 == r && 0x80 <= op < 0xC0);
    lemma_opcode_block2::<M>(op, s);
    let v = reg8(s, r as int);
    assert(block2::<M>(op, s) == done(spec_alu(s, k as int, v), 4));
}

#[verifier::spinoff_prover]
proof fn lemma_opcode_block2<M: Memory>(op: u8, s: GbModel<M::Model>)
    requires
        0x80 <= op < 0xC0,
    ensures
        opcode_result::<M>(op, s) == block2::<M>(op, s),
{
    reveal(opcode_result);
}

/// JR C (0x38) takes 8 cycles, reads the signed offset after the opcode
/// and, when C is set, jumps by it from the address after the offset
/// (wrapping at 64 KiB); otherwise it just skips the offset. Nothing else
/// changes.
pub proof fn law_jr_c<M: Memory>(s: GbModel<M::Model>)
    requires
        s.cycles + 8 <= u64::MAX,
        s.pc < 0xFFFF,
    ensures
        ({
            let n = bus_read::<M>(s, s.pc);
            let offset: int = if n < 128 {
                n as int
            } else {
                n - 256
            };
            let t = opcode_result::<M>(0x38, s).unwrap();
            &&& opcode_result::<M>(0x38, s) is Some
            &&& fc(s.f) ==> t.pc == (s.pc + 1 + offset) % 0x10000
            &&& !fc(s.f) ==> t.pc == s.pc + 1
            &&& t == (GbModel { pc: t.pc, cycles: (s.cycles + 8) as u64, ..s })
        }),
{
    lemma_opcode_block0_3_high::<M>(s);
}

/// ADD HL,SP (0x39) takes 8 cycles, adds SP to HL modulo 2^16, sets C
/// exactly when the sum wrapped below HL and H exactly when its low twelve
/// bits wrapped below HL's, clears N and keeps Z; nothing else changes.
#[verifier::spinoff_prover]
pub proof fn law_add_hl_sp<M: Memory>(s: GbModel<M::Model>)
    requires
        s.cycles + 8 <= u64::MAX,
    ensures
        ({
            let t = opcode_result::<M>(0x39, s).unwrap();
            &&& opcode_result::<M>(0x39, s) is Some
            &&& t.hl() == (s.hl() + s.sp) % 0x10000
            &&& fc(t.f) == (t.hl() < s.hl())
            &&& fh(t.f) == (t.hl() % 4096 < s.hl() % 4096)
            &&& !fn_(t.f) && fz(t.f) == fz(s.f)
            &&& t == (GbModel { h: t.h, l: t.l, f: t.f, cycles: (s.cycles + 8) as u64, ..s })
        }),
{
    lemma_opcode_block0_3_high::<M>(s);
    let hl = s.hl() as int;
    let sp = s.sp as int;
    let sum = add16(hl, sp);
    lemma_split_word(sum);
    let f1 = with_flag(s.f, 0x40, false);
    let f2 = with_flag(f1, 0x20, hl % 4096 + sp % 4096 > 4095);
    lemma_with_flag(s.f, false);
    lemma_with_flag(f1, hl % 4096 + sp % 4096 > 4095);
    lemma_with_flag(f2, hl + sp > 65535);
    lemma_add16_carries(hl, sp);
}

/// The carries of a 16-bit addition, read off its result.
proof fn lemma_add16_carries(x: int, y: int)
    requires
        0 <= x < 65536,
        0 <= y < 65536,
    ensures
        (x + y > 65535) == (add16(x, y) < x),
        (x % 4096 + y % 4096 > 4095) == ((add16(x, y) as int) % 4096 < x % 4096),
{
    let r = add16(x, y) as int;
    if x + y < 65536 {
        assert(r == x + y);
    } else {
        assert(r == x + y - 65536);
    }
    let xl = x % 4096;
    let yl = y % 4096;
    assert(x == 4096 * (x / 4096) + xl);
    assert(y == 4096 * (y / 4096) + yl);
    assert(r % 4096 == (xl + yl) % 4096) by (nonlinear_arith)
        requires
            r == x + y || r == x + y - 65536,
            x == 4096 * (x / 4096) + xl,
            y == 4096 * (y / 4096) + yl,
    ;
}

/// DEC SP (0x3B) takes 8 cycles and leaves SP one lower (0 wraps to
/// 0xFFFF); nothing else changes.
pub proof fn law_dec_sp<M: Memory>(s: GbModel<M::Model>)
    requires
        s.cycles + 8 <= u64::MAX,
    ensures
        ({
            let t = opcode_result::<M>(0x3B, s).unwrap();
            &&& opcode_result::<M>(0x3B, s) is Some
            &&& (t.sp + 1) % 0x10000 == s.sp
            &&& t == (GbModel { sp: t.sp, cycles: (s.cycles + 8) as u64, ..s })
        }),
{
    lemma_opcode_block0_3_high::<M>(s);
}

#[verifier::spinoff_prover]
#[verifier::rlimit(50)]
proof fn lemma_opcode_block0_3_high<M: Memory>(s: GbModel<M::Model>)
    ensures
        s.pc < 0xFFFF ==> opcode_result::<M>(0x38, s) == done(spec_jr_if::<M>(s, fc(s.f)), 8),
        opcode_result::<M>(0x39, s) == done(spec_add_hl(s, s.sp), 8),
        opcode_result::<M>(0x3B, s) == done(s.with_sp(add16(s.sp as int, -1) as int), 8),
{
    reveal(opcode_result);
    assert(opcode_result::<M>(0x38, s) == block0_3::<M>(0x38, s));
    assert(opcode_result::<M>(0x39, s) == block0_3::<M>(0x39, s));
    assert(opcode_result::<M>(0x3B, s) == block0_3::<M>(0x3B, s));
}

#[verifier::spinoff_prover]
#[verifier::rlimit(50)]
proof fn lemma_opcode_hl_moving<M: Memory>(s: GbModel<M::Model>)
    ensures
        opcode_result::<M>(0x22, s) == block0_2::<M>(0x22, s),
        opcode_result::<M>(0x2A, s) == block0_2::<M>(0x2A, s),
        opcode_result::<M>(0x32, s) == block0_3::<M>(0x32, s),
        opcode_result::<M>(0x3A, s) == block0_3::<M>(0x3A, s),
{
    reveal(opcode_result);
}

/// Setting or clearing flags never touches the low nibble of F.
proof fn lemma_flag_nibble()
    by (bit_vector)
    ensures
        forall|f: u8, v: bool| #[trigger] with_flag(f, 0x80, v) & 0x0F == f & 0x0F,
        forall|f: u8, v: bool| #[trigger] with_flag(f, 0x40, v) & 0x0F == f & 0x0F,
        forall|f: u8, v: bool| #[trigger] with_flag(f, 0x20, v) & 0x0F == f & 0x0F,
        forall|f: u8, v: bool| #[trigger] with_flag(f, 0x10, v) & 0x0F == f & 0x0F,
{
}

#[verifier::rlimit(100)]
#[verifier::spinoff_prover]
proof fn lemma_block0_0_keeps_f_low<M: Memory>(op: u8, s: GbModel<M::Model>)
    requires
        s.f & 0x0F == 0,
        block0_0::<M>(op, s) is Some,
    ensures
        block0_0::<M>(op, s).unwrap().f & 0x0F == 0,
{
    lemma_flag_nibble();
}

#[verifier::rlimit(100)]
#[verifier::spinoff_prover]
proof fn lemma_block0_1_keeps_f_low<M: Memory>(op: u8, s: GbModel<M::Model>)
    requires
        s.f & 0x0F == 0,
        block0_1::<M>(op, s) is Some,
    ensures
        block0_1::<M>(op, s).unwrap().f & 0x0F == 0,
{
    lemma_flag_nibble();
}

#[verifier::rlimit(100)]
#[verifier::spinoff_prover]
proof fn lemma_block0_2_keeps_f_low<M: Memory>(op: u8, s: GbModel<M::Model>)
    requires
        s.f & 0x0F == 0,
        block0_2::<M>(op, s) is Some,
    ensures
        block0_2::<M>(op, s).unwrap().f & 0x0F == 0,
{
    lemma_flag_nibble();
}

#[verifier::rlimit(100)]
#[verifier::spinoff_prover]
proof fn lemma_block0_3_keeps_f_low<M: Memory>(op: u8, s: GbModel<M::Model>)
    requires
        s.f & 0x0F == 0,
        block0_3::<M>(op, s) is Some,
    ensures
        block0_3::<M>(op, s).unwrap().f & 0x0F == 0,
{
    lemma_flag_nibble();
}

#[verifier::rlimit(100)]
#[verifier::spinoff_prover]
proof fn lemma_block1_keeps_f_low<M: Memory>(op: u8, s: GbModel<M::Model>)
    requires
        s.f & 0x0F == 0,
        block1::<M>(op, s) is Some,
    ensures
        block1::<M>(op, s).unwrap().f & 0x0F == 0,
{
    lemma_flag_nibble();
}

#[verifier::rlimit(100)]
#[verifier::spinoff_prover]
proof fn lemma_block2_keeps_f_low<M: Memory>(op: u8, s: GbModel<M::Model>)
    requires
        s.f & 0x0F == 0,
        block2::<M>(op, s) is Some,
    ensures
        block2::<M>(op, s).unwrap().f & 0x0F == 0,
{
    lemma_flag_nibble();
}

#[verifier::rlimit(100)]
#[verifier::spinoff_prover]
proof fn lemma_block3_keeps_f_low<M: Memory>(op: u8, s: GbModel<M::Model>)
    requires
        s.f & 0x0F == 0,
        block3::<M>(op, s) is Some,
    ensures
        block3::<M>(op, s).unwrap().f & 0x0F == 0,
{
    lemma_flag_nibble();
}

/// Every implemented instruction keeps the low nibble of F clear.
proof fn lemma_opcode_keeps_f_low<M: Memory>(op: u8, s: GbModel<M::Model>)
    requires
        s.f & 0x0F == 0,
        opcode_result::<M>(op, s) is Some,
    ensures
        opcode_result::<M>(op, s).unwrap().f & 0x0F == 0,
{
    reveal(opcode_result);
    if op < 0x10 {
        lemma_block0_0_keeps_f_low::<M>(op, s);
    } else if op < 0x20 {
        lemma_block0_1_keeps_f_low::<M>(op, s);
    } else if op < 0x30 {
        lemma_block0_2_keeps_f_low::<M>(op, s);
    } else if op < 0x40 {
        lemma_block0_3_keeps_f_low::<M>(op, s);
    } else if op < 0x80 {
        lemma_block1_keeps_f_low::<M>(op, s);
    } else if op < 0xC0 {
        lemma_block2_keeps_f_low::<M>(op, s);
    } else {
        lemma_block3_keeps_f_low::<M>(op, s);
    }
}

/// The low four bits of F read 0 and every step keeps them so.
pub proof fn law_flag_low_bits_stay_clear<M: Memory>(s: GbModel<M::Model>)
    requires
        s.f & 0x0F == 0,
        step_result::<M>(s) is Some,
    ensures
        step_result::<M>(s).unwrap().f & 0x0F == 0,
{
    if !services_interrupt::<M>(s) {
        let s1 = after_delays::<M>(s);
        if !(s1.halt && pending_interrupts::<M>(s1) == 0) {
            let s2 = GbModel { halt: false, ..s1 };
            if s2.pc != 0xFFFF {
                lemma_opcode_keeps_f_low::<M>(bus_read::<M>(s2, s2.pc), s2.with_pc(s2.pc + 1));
            }
        }
    }
}

// ---------------------------------------------------------------------------
// Definedness of a step, decided at run time
// ---------------------------------------------------------------------------
/// The state in which the fetched opcode executes: pending DI/EI applied,
/// HALT left, PC past the opcode.
pub open spec fn fetch_state<M: Memory>(s: GbModel<M::Model>) -> GbModel<M::Model> {
    GbModel { halt: false, ..after_delays::<M>(s) }.with_pc(s.pc + 1)
}

/// Fetching changes only PC, HALT and the interrupt enables.
proof fn lemma_fetch_state<M: Memory>(s: GbModel<M::Model>)
    requires
        s.pc < 0xFFFF,
    ensures
        fetch_state::<M>(s) == (GbModel {
            pc: (s.pc + 1) as u16,
            halt: false,
            ime: fetch_state::<M>(s).ime,
            ei_delay: fetch_state::<M>(s).ei_delay,
            di_delay: fetch_state::<M>(s).di_delay,
            ..s
        }),
{
}

/// Whether a write at `addr` is defined.
fn bus_write_ok<M: Memory>(state: &GameBoy<M>, addr: u16) -> (r: bool)
    requires
        state.wf(),
    ensures
        r == bus_write_defined::<M>(state@, addr),
{
    addr >= 0x8000 || state.mmu.write_defined(addr)
}

/// Whether a write at `second` is defined after the CPU writes `value` at
/// `first`.
fn bus_write_ok_after<M: Memory>(state: &GameBoy<M>, first: u16, value: u8, second: u16) -> (r: bool)
    requires
        state.wf(),
    ensures
        r == bus_write_defined::<M>(bus_write::<M>(state@, first, value), second),
{
    proof {
        reveal(mem_after_write);
        if first >= 0x8000 {
            M::lemma_high_write_keeps_defined(state@.mem, first, value, second);
        }
        M::lemma_high_write_keeps_defined(state@.mem, DIV, 0, second);
    }
    if second >= 0x8000 {
        true
    } else if first >= 0x8000 {
        state.mmu.write_defined(second)
    } else {
        state.mmu.write_defined_after(first, value, second)
    }
}

/// Whether pushing `value` is defined.
fn push_ok<M: Memory>(state: &GameBoy<M>, value: u16) -> (r: bool)
    requires
        state.wf(),
    ensures
        r == push_defined::<M>(state@, value),
{
    let first = state.sp.wrapping_sub(1);
    let second = state.sp.wrapping_sub(2);
    proof {
        lemma_split_word(value);
        let s1 = state@.with_sp(add16(state@.sp as int, -1) as int);
        assert(bus_write_defined::<M>(s1, first) == bus_write_defined::<M>(state@, first));
        assert(push_high::<M>(state@, value).mem == bus_write::<M>(state@, first, hi_byte(value)).mem);
    }
    bus_write_ok(state, first) && bus_write_ok_after(state, first, (value >> 8) as u8, second)
}

/// Whether servicing the pending interrupt is defined.
fn service_ok<M: Memory>(state: &GameBoy<M>) -> (r: bool)
    requires
        state.wf(),
    ensures
        r == service_defined::<M>(state@),
{
    let first = state.sp.wrapping_sub(2);
    let second = state.sp.wrapping_sub(1);
    proof {
        let s = state@;
        let bit = lowest_set_bit(pending_interrupts::<M>(s));
        let v = bus_read::<M>(s, IF) & !(1u8 << bit);
        let s1 = GbModel { ime: false, halt: false, ..s };
        lemma_plain_write::<M>(s1, IF, v);
        let lo = lo_byte(s.pc);
        lemma_split_word(s.pc);
        M::lemma_high_write_keeps_defined(s.mem, IF, v, first);
        M::lemma_high_write_keeps_defined(s.mem, IF, v, second);
        M::lemma_high_write_keeps_defined_after(s.mem, IF, v, first, lo, second);
        M::lemma_high_write_keeps_defined_after(s.mem, IF, v, DIV, 0, second);
        M::lemma_high_write_keeps_defined(M::model_write(s.mem, IF, v), DIV, 0, second);
        M::lemma_high_write_keeps_defined(s.mem, DIV, 0, second);
        reveal(mem_after_write);
    }
    room(state.cycles, 20) && bus_write_ok(state, first) && bus_write_ok_after(
        state,
        first,
        state.pc as u8,
        second,
    )
}

/// Whether `n` more cycles fit in the cycle counter.
fn room(cycles: u64, n: u64) -> (r: bool)
    requires
        n <= 24,
    ensures
        r == (cycles + n <= u64::MAX),
{
    cycles <= u64::MAX - n
}

/// Whether opcode `op` of 0x00-0x3F executes, PC pointing past it.
fn block0_ok<M: Memory>(op: u8, state: &GameBoy<M>) -> (r: bool)
    requires
        state.wf(),
        op < 0x40,
        state.pc < 0xFFFF,
    ensures
        r == (block0::<M>(op, fetch_state::<M>(state@)) is Some),
{
    if op < 0x10 {
        block0_0_ok(op, state)
    } else if op < 0x20 {
        block0_1_ok(op, state)
    } else if op < 0x30 {
        block0_2_ok(op, state)
    } else {
        block0_3_ok(op, state)
    }
}

/// Whether opcode `op` of 0x00-0x0F executes.
#[verifier::rlimit(100)]
#[verifier::spinoff_prover]
fn block0_0_ok<M: Memory>(op: u8, state: &GameBoy<M>) -> (r: bool)
    requires
        state.wf(),
        op < 0x10,
        state.pc < 0xFFFF,
    ensures
        r == (block0_0::<M>(op, fetch_state::<M>(state@)) is Some),
{
    proof {
        lemma_fetch_state::<M>(state@);
    }
    let operand = state.pc as u32 + 1;
    let c = state.cycles;
    let lo = op % 16;
    if op == 0x08 {
        false
    } else if op == 0x00 {
        room(c, 4)
    } else if op == 0x10 {
        operand + 1 <= 0xFFFF && room(c, 4)
    } else if lo == 0x00 || op == 0x18 || op == 0x28 || op == 0x38 {
        operand + 1 <= 0xFFFF && room(c, 8)
    } else if lo == 0x01 {
        operand + 2 <= 0xFFFF && room(c, 12)
    } else if lo == 0x02 {
        let addr = if op == 0x02 {
            state.bc()
        } else if op == 0x12 {
            state.de()
        } else {
            state.hl()
        };
        bus_write_ok(state, addr) && room(c, 8)
    } else if op == 0x34 || op == 0x35 {
        bus_write_ok(state, state.hl()) && room(c, 12)
    } else if op == 0x36 {
        operand + 1 <= 0xFFFF && bus_write_ok(state, state.hl()) && room(c, 12)
    } else if lo == 0x06 || lo == 0x0E {
        operand + 1 <= 0xFFFF && room(c, 8)
    } else if lo == 0x03 || lo == 0x09 || lo == 0x0A || lo == 0x0B {
        room(c, 8)
    } else {
        room(c, 4)
    }
}

/// Whether opcode `op` of 0x10-0x1F executes.
#[verifier::rlimit(100)]
#[verifier::spinoff_prover]
fn block0_1_ok<M: Memory>(op: u8, state: &GameBoy<M>) -> (r: bool)
    requires
        state.wf(),
        0x10 <= op < 0x20,
        state.pc < 0xFFFF,
    ensures
        r == (block0_1::<M>(op, fetch_state::<M>(state@)) is Some),
{
    proof {
        lemma_fetch_state::<M>(state@);
    }
    let operand = state.pc as u32 + 1;
    let c = state.cycles;
    let lo = op % 16;
    if op == 0x08 {
        false
    } else if op == 0x00 {
        room(c, 4)
    } else if op == 0x10 {
        operand + 1 <= 0xFFFF && room(c, 4)
    } else if lo == 0x00 || op == 0x18 || op == 0x28 || op == 0x38 {
        operand + 1 <= 0xFFFF && room(c, 8)
    } else if lo == 0x01 {
        operand + 2 <= 0xFFFF && room(c, 12)
    } else if lo == 0x02 {
        let addr = if op == 0x02 {
            state.bc()
        } else if op == 0x12 {
            state.de()
        } else {
            state.hl()
        };
        bus_write_ok(state, addr) && room(c, 8)
    } else if op == 0x34 || op == 0x35 {
        bus_write_ok(state, state.hl()) && room(c, 12)
    } else if op == 0x36 {
        operand + 1 <= 0xFFFF && bus_write_ok(state, state.hl()) && room(c, 12)
    } else if lo == 0x06 || lo == 0x0E {
        operand + 1 <= 0xFFFF && room(c, 8)
    } else if lo == 0x03 || lo == 0x09 || lo == 0x0A || lo == 0x0B {
        room(c, 8)
    } else {
        room(c, 4)
    }
}

/// Whether opcode `op` of 0x20-0x2F executes.
#[verifier::rlimit(100)]
#[verifier::spinoff_prover]
fn block0_2_ok<M: Memory>(op: u8, state: &GameBoy<M>) -> (r: bool)
    requires
        state.wf(),
        0x20 <= op < 0x30,
        state.pc < 0xFFFF,
    ensures
        r == (block0_2::<M>(op, fetch_state::<M>(state@)) is Some),
{
    proof {
        lemma_fetch_state::<M>(state@);
    }
    let operand = state.pc as u32 + 1;
    let c = state.cycles;
    let lo = op % 16;
    if op == 0x08 {
        false
    } else if op == 0x00 {
        room(c, 4)
    } else if op == 0x10 {
        operand + 1 <= 0xFFFF && room(c, 4)
    } else if lo == 0x00 || op == 0x18 || op == 0x28 || op == 0x38 {
        operand + 1 <= 0xFFFF && room(c, 8)
    } else if lo == 0x01 {
        operand + 2 <= 0xFFFF && room(c, 12)
    } else if lo == 0x02 {
        let addr = if op == 0x02 {
            state.bc()
        } else if op == 0x12 {
            state.de()
        } else {
            state.hl()
        };
        bus_write_ok(state, addr) && room(c, 8)
    } else if op == 0x34 || op == 0x35 {
        bus_write_ok(state, state.hl()) && room(c, 12)
    } else if op == 0x36 {
        operand + 1 <= 0xFFFF && bus_write_ok(state, state.hl()) && room(c, 12)
    } else if lo == 0x06 || lo == 0x0E {
        operand + 1 <= 0xFFFF && room(c, 8)
    } else if lo == 0x03 || lo == 0x09 || lo == 0x0A || lo == 0x0B {
        room(c, 8)
    } else {
        room(c, 4)
    }
}

/// Whether opcode `op` of 0x30-0x3F executes.
#[verifier::rlimit(100)]
#[verifier::spinoff_prover]
fn block0_3_ok<M: Memory>(op: u8, state: &GameBoy<M>) -> (r: bool)
    requires
        state.wf(),
        0x30 <= op < 0x40,
        state.pc < 0xFFFF,
    ensures
        r == (block0_3::<M>(op, fetch_state::<M>(state@)) is Some),
{
    proof {
        lemma_fetch_state::<M>(state@);
    }
    let operand = state.pc as u32 + 1;
    let c = state.cycles;
    let lo = op % 16;
    if op == 0x08 {
        false
    } else if op == 0x00 {
        room(c, 4)
    } else if op == 0x10 {
        operand + 1 <= 0xFFFF && room(c, 4)
    } else if lo == 0x00 || op == 0x18 || op == 0x28 || op == 0x38 {
        operand + 1 <= 0xFFFF && room(c, 8)
    } else if lo == 0x01 {
        operand + 2 <= 0xFFFF && room(c, 12)
    } else if lo == 0x02 {
        let addr = if op == 0x02 {
            state.bc()
        } else if op == 0x12 {
            state.de()
        } else {
            state.hl()
        };
        bus_write_ok(state, addr) && room(c, 8)
    } else if op == 0x34 || op == 0x35 {
        bus_write_ok(state, state.hl()) && room(c, 12)
    } else if op == 0x36 {
        operand + 1 <= 0xFFFF && bus_write_ok(state, state.hl()) && room(c, 12)
    } else if lo == 0x06 || lo == 0x0E {
        operand + 1 <= 0xFFFF && room(c, 8)
    } else if lo == 0x03 || lo == 0x09 || lo == 0x0A || lo == 0x0B {
        room(c, 8)
    } else {
        room(c, 4)
    }
}

/// Whether opcode `op` of 0x40-0x7F executes.
fn block1_ok<M: Memory>(op: u8, state: &GameBoy<M>) -> (r: bool)
    requires
        state.wf(),
        0x40 <= op < 0x80,
        state.pc < 0xFFFF,
    ensures
        r == (block1::<M>(op, fetch_state::<M>(state@)) is Some),
{
    proof {
        lemma_fetch_state::<M>(state@);
    }
    let c = state.cycles;
    if op == 0x76 {
        room(c, 4)
    } else if op / 8 % 8 == 6 {
        bus_write_ok(state, state.hl()) && room(c, 8)
    } else if op % 8 == 6 {
        room(c, 8)
    } else {
        room(c, 4)
    }
}

/// Whether opcode `op` of 0x80-0xBF executes.
fn block2_ok<M: Memory>(op: u8, state: &GameBoy<M>) -> (r: bool)
    requires
        state.wf(),
        0x80 <= op < 0xC0,
        state.pc < 0xFFFF,
    ensures
        r == (block2::<M>(op, fetch_state::<M>(state@)) is Some),
{
    proof {
        lemma_fetch_state::<M>(state@);
    }
    if op % 8 == 6 {
        room(state.cycles, 8)
    } else {
        room(state.cycles, 4)
    }
}

/// Whether opcode `op` of 0xC0-0xFF executes.
#[verifier::rlimit(100)]
#[verifier::spinoff_prover]
fn block3_ok<M: Memory>(op: u8, state: &GameBoy<M>) -> (r: bool)
    requires
        state.wf(),
        0xC0 <= op,
        state.pc < 0xFFFF,
    ensures
        r == (block3::<M>(op, fetch_state::<M>(state@)) is Some),
{
    proof {
        lemma_fetch_state::<M>(state@);
    }
    let operand = state.pc + 1;
    let c = state.cycles;
    let zero = state.flag_z();
    if op == 0xC0 {
        room(c, if !zero { 20 } else { 8 })
    } else if op == 0xC1 {
        room(c, 12)
    } else if op == 0xC2 {
        operand <= 0xFFFD && room(c, if !zero { 16 } else { 12 })
    } else if op == 0xC3 {
        operand <= 0xFFFD && room(c, 16)
    } else if op == 0xC4 {
        operand <= 0xFFFD && (zero || push_ok(state, operand + 2)) && room(
            c,
            if !zero { 24 } else { 12 },
        )
    } else if op == 0xCD {
        operand <= 0xFFFD && push_ok(state, operand + 2) && room(c, 24)
    } else if op == 0xCE {
        operand <= 0xFFFE && room(c, 8)
    } else if op == 0xCF {
        push_ok(state, operand) && room(c, 16)
    } else {
        false
    }
}

/// Whether the opcode `op`, fetched at PC, executes.
fn opcode_ok<M: Memory>(op: u8, state: &GameBoy<M>) -> (r: bool)
    requires
        state.wf(),
        state.pc < 0xFFFF,
    ensures
        r == (opcode_result::<M>(op, fetch_state::<M>(state@)) is Some),
{
    proof {
        reveal(opcode_result);
    }
    if op < 0x40 {
        block0_ok(op, state)
    } else if op < 0x80 {
        block1_ok(op, state)
    } else if op < 0xC0 {
        block2_ok(op, state)
    } else {
        block3_ok(op, state)
    }
}

/// Whether the next CPU step (servicing an interrupt, staying halted, or
/// executing the instruction at PC) is defined.
pub fn execute_defined<M: Memory>(state: &GameBoy<M>) -> (r: bool)
    requires
        state.wf(),
    ensures
        r == (execute_result::<M>(state@) is Some),
{
    let pending = has_pending_interrupt(state);
    proof {
        let s = state@;
        let s1 = after_delays::<M>(s);
        assert(pending_interrupts::<M>(s1) == pending_interrupts::<M>(s));
        let s2 = GbModel { halt: false, ..s1 };
        assert(bus_read::<M>(s2, s2.pc) == bus_read::<M>(s, s.pc));
    }
    if state.ime && pending {
        service_ok(state)
    } else if state.halt && !pending {
        true
    } else if state.pc == 0xFFFF {
        false
    } else {
        let op = state.read(state.pc);
        opcode_ok(op, state)
    }
}

/// What a step can do to the counters: at most 24 cycles, TIMA's counter
/// kept, the divider's kept or cleared (by a write to DIV).
pub open spec fn counters_advance<Mo>(s: GbModel<Mo>, t: GbModel<Mo>) -> bool {
    &&& s.cycles <= t.cycles <= s.cycles + 24
    &&& t.tima_counter == s.tima_counter
    &&& (t.div_counter == s.div_counter || t.div_counter == 0)
}

#[verifier::rlimit(100)]
#[verifier::spinoff_prover]
proof fn lemma_block0_0_counters<M: Memory>(op: u8, s: GbModel<M::Model>)
    requires
        block0_0::<M>(op, s) is Some,
    ensures
        counters_advance(s, block0_0::<M>(op, s).unwrap()),
{
}

#[verifier::rlimit(100)]
#[verifier::spinoff_prover]
proof fn lemma_block0_1_counters<M: Memory>(op: u8, s: GbModel<M::Model>)
    requires
        block0_1::<M>(op, s) is Some,
    ensures
        counters_advance(s, block0_1::<M>(op, s).unwrap()),
{
}

#[verifier::rlimit(100)]
#[verifier::spinoff_prover]
proof fn lemma_block0_2_counters<M: Memory>(op: u8, s: GbModel<M::Model>)
    requires
        block0_2::<M>(op, s) is Some,
    ensures
        counters_advance(s, block0_2::<M>(op, s).unwrap()),
{
}

#[verifier::rlimit(100)]
#[verifier::spinoff_prover]
proof fn lemma_block0_3_counters<M: Memory>(op: u8, s: GbModel<M::Model>)
    requires
        block0_3::<M>(op, s) is Some,
    ensures
        counters_advance(s, block0_3::<M>(op, s).unwrap()),
{
}

#[verifier::rlimit(100)]
#[verifier::spinoff_prover]
proof fn lemma_block1_counters<M: Memory>(op: u8, s: GbModel<M::Model>)
    requires
        block1::<M>(op, s) is Some,
    ensures
        counters_advance(s, block1::<M>(op, s).unwrap()),
{
}

#[verifier::rlimit(100)]
#[verifier::spinoff_prover]
proof fn lemma_block2_counters<M: Memory>(op: u8, s: GbModel<M::Model>)
    requires
        block2::<M>(op, s) is Some,
    ensures
        counters_advance(s, block2::<M>(op, s).unwrap()),
{
}

#[verifier::rlimit(100)]
#[verifier::spinoff_prover]
proof fn lemma_block3_counters<M: Memory>(op: u8, s: GbModel<M::Model>)
    requires
        block3::<M>(op, s) is Some,
    ensures
        counters_advance(s, block3::<M>(op, s).unwrap()),
{
}

/// An instruction takes at most 24 cycles and clears the divider's counter
/// at most.
proof fn lemma_opcode_counters<M: Memory>(op: u8, s: GbModel<M::Model>)
    requires
        opcode_result::<M>(op, s) is Some,
    ensures
        counters_advance(s, opcode_result::<M>(op, s).unwrap()),
{
    reveal(opcode_result);
    if op < 0x10 {
        lemma_block0_0_counters::<M>(op, s);
    } else if op < 0x20 {
        lemma_block0_1_counters::<M>(op, s);
    } else if op < 0x30 {
        lemma_block0_2_counters::<M>(op, s);
    } else if op < 0x40 {
        lemma_block0_3_counters::<M>(op, s);
    } else if op < 0x80 {
        lemma_block1_counters::<M>(op, s);
    } else if op < 0xC0 {
        lemma_block2_counters::<M>(op, s);
    } else {
        lemma_block3_counters::<M>(op, s);
    }
}

/// A CPU step takes at most 24 cycles and clears the divider's counter at
/// most.
pub proof fn lemma_execute_counters<M: Memory>(s: GbModel<M::Model>)
    requires
        execute_result::<M>(s) is Some,
    ensures
        counters_advance(s, execute_result::<M>(s).unwrap()),
{
    if !services_interrupt::<M>(s) {
        let s1 = after_delays::<M>(s);
        if !(s1.halt && pending_interrupts::<M>(s1) == 0) {
            let s2 = GbModel { halt: false, ..s1 };
            lemma_opcode_counters::<M>(bus_read::<M>(s2, s2.pc), s2.with_pc(s2.pc + 1));
        }
    }
}

/// The opcode that the next step fetches: `None` when it services an
/// interrupt or the CPU stays halted, else the byte at PC.
pub open spec fn next_fetch<M: Memory>(s: GbModel<M::Model>) -> Option<u8> {
    if services_interrupt::<M>(s) {
        None
    } else if s.halt && pending_interrupts::<M>(s) == 0 {
        None
    } else {
        Some(bus_read::<M>(s, s.pc))
    }
}

/// A step that fetches an opcode outside the implemented set, or fetches
/// at 0xFFFF, has no defined execution.
pub proof fn law_fetch_fault<M: Memory>(s: GbModel<M::Model>)
    requires
        next_fetch::<M>(s) is Some,
        !is_implemented(next_fetch::<M>(s).unwrap()) || s.pc == 0xFFFF,
    ensures
        execute_result::<M>(s) is None,
{
    let s1 = after_delays::<M>(s);
    let s2 = GbModel { halt: false, ..s1 };
    assert(pending_interrupts::<M>(s1) == pending_interrupts::<M>(s));
    assert(bus_read::<M>(s2, s2.pc) == bus_read::<M>(s, s.pc));
    if s.pc != 0xFFFF {
        law_unimplemented_opcode::<M>(bus_read::<M>(s2, s2.pc), s2.with_pc(s2.pc + 1));
    }
}

/// The opcode that the next step fetches, as [`next_fetch`] describes.
pub fn next_opcode<M: Memory>(state: &GameBoy<M>) -> (r: Option<u8>)
    requires
        state.wf(),
    ensures
        r == next_fetch::<M>(state@),
{
    let pending = has_pending_interrupt(state);
    if state.ime && pending {
        None
    } else if state.halt && !pending {
        None
    } else {
        Some(state.read(state.pc))
    }
}

/// Execute an opcode of 0x00-0x3F.
fn execute_block0<M: Memory>(op: u8, state: &mut GameBoy<M>)
    requires
        op < 0x40,
        old(state).wf(),
        block0::<M>(op, old(state)@) is Some,
    ensures
        final(state).cycles >= old(state).cycles,
        final(state).wf(),
        final(state)@ == block0::<M>(op, old(state)@).unwrap(),
{
    if op < 0x10 {
        execute_block0_0(op, state);
    } else if op < 0x20 {
        execute_block0_1(op, state);
    } else if op < 0x30 {
        execute_block0_2(op, state);
    } else {
        execute_block0_3(op, state);
    }
}

fn execute_block0_0<M: Memory>(op: u8, state: &mut GameBoy<M>)
    requires
        op < 0x10,
        op != 0x08,
        old(state).wf(),
        block0_0::<M>(op, old(state)@) is Some,
    ensures
        final(state).cycles >= old(state).cycles,
        final(state).wf(),
        final(state)@ == block0_0::<M>(op, old(state)@).unwrap(),
{
    if op == 0x00 {
        /* NOP */
        state.cycles = state.cycles + 4;
    } else if op == 0x01 {
        /* LD BC,nn */
        let value = state.read_word(state.pc);
        state.set_bc(value);
        state.pc = state.pc + 2;
        state.cycles = state.cycles + 12;
    } else if op == 0x02 {
        /* LD (BC),A */
        let addr = state.bc();
        state.write(addr, state.a);
        state.cycles = state.cycles + 8;
    } else if op == 0x03 {
        /* INC BC */
        inc_bc(state);
        state.cycles = state.cycles + 8;
    } else if op == 0x04 {
        /* INC B */
        inc_b(state);
        state.cycles = state.cycles + 4;
    } else if op == 0x05 {
        /* DEC B */
        dec_b(state);
        state.cycles = state.cycles + 4;
    } else if op == 0x06 {
        /* LD B,n */
        state.b = state.read(state.pc);
        state.pc = state.pc + 1;
        state.cycles = state.cycles + 8;
    } else if op == 0x07 {
        /* RLCA */
        rlca(state);
        state.cycles = state.cycles + 4;
    } else if op == 0x09 {
        /* ADD HL,BC */
        add_hl_bc(state);
        state.cycles = state.cycles + 8;
    } else if op == 0x0A {
        /* LD A,(BC) */
        state.a = state.read(state.bc());
        state.cycles = state.cycles + 8;
    } else if op == 0x0B {
        /* DEC BC */
        dec_bc(state);
        state.cycles = state.cycles + 8;
    } else if op == 0x0C {
        /* INC C */
        inc_c(state);
        state.cycles = state.cycles + 4;
    } else if op == 0x0D {
        /* DEC C */
        dec_c(state);
        state.cycles = state.cycles + 4;
    } else if op == 0x0E {
        /* LD C,n */
        state.c = state.read(state.pc);
        state.pc = state.pc + 1;
        state.cycles = state.cycles + 8;
    } else if op == 0x0F {
        /* RRCA */
        rrca(state);
        state.cycles = state.cycles + 4;
    }
}

fn execute_block0_1<M: Memory>(op: u8, state: &mut GameBoy<M>)
    requires
        0x10 <= op < 0x20,
        op != 0x08,
        old(state).wf(),
        block0_1::<M>(op, old(state)@) is Some,
    ensures
        final(state).cycles >= old(state).cycles,
        final(state).wf(),
        final(state)@ == block0_1::<M>(op, old(state)@).unwrap(),
{
    if op == 0x10 {
        /* STOP */
        state.pc = state.pc + 1;
        state.cycles = state.cycles + 4;
    } else if op == 0x11 {
        /* LD DE,nn */
        let value = state.read_word(state.pc);
        state.set_de(value);
        state.pc = state.pc + 2;
        state.cycles = state.cycles + 12;
    } else if op == 0x12 {
        /* LD (DE),A */
        let addr = state.de();
        state.write(addr, state.a);
        state.cycles = state.cycles + 8;
    } else if op == 0x13 {
        /* INC DE */
        inc_de(state);
        state.cycles = state.cycles + 8;
    } else if op == 0x14 {
        /* INC D */
        inc_d(state);
        state.cycles = state.cycles + 4;
    } else if op == 0x15 {
        /* DEC D */
        dec_d(state);
        state.cycles = state.cycles + 4;
    } else if op == 0x16 {
        /* LD D,n */
        state.d = state.read(state.pc);
        state.pc = state.pc + 1;
        state.cycles = state.cycles + 8;
    } else if op == 0x17 {
        /* RLA */
        rla(state);
        state.cycles = state.cycles + 4;
    } else if op == 0x18 {
        /* JR */
        jr(state);
        state.cycles = state.cycles + 8;
    } else if op == 0x19 {
        /* ADD HL,DE */
        add_hl_de(state);
        state.cycles = state.cycles + 8;
    } else if op == 0x1A {
        /* LD A,(DE) */
        state.a = state.read(state.de());
        state.cycles = state.cycles + 8;
    } else if op == 0x1B {
        /* DEC DE */
        dec_de(state);
        state.cycles = state.cycles + 8;
    } else if op == 0x1C {
        /* INC E */
        inc_e(state);
        state.cycles = state.cycles + 4;
    } else if op == 0x1D {
        /* DEC E */
        dec_e(state);
        state.cycles = state.cycles + 4;
    } else if op == 0x1E {
        /* LD E,n */
        state.e = state.read(state.pc);
        state.pc = state.pc + 1;
        state.cycles = state.cycles + 8;
    } else if op == 0x1F {
        /* RRA */
        rra(state);
        state.cycles = state.cycles + 4;
    }
}

fn execute_block0_2<M: Memory>(op: u8, state: &mut GameBoy<M>)
    requires
        0x20 <= op < 0x30,
        old(state).wf(),
        block0_2::<M>(op, old(state)@) is Some,
    ensures
        final(state).cycles >= old(state).cycles,
        final(state).wf(),
        final(state)@ == block0_2::<M>(op, old(state)@).unwrap(),
{
    if op < 0x28 {
        execute_block0_2_low(op, state);
    } else {
        execute_block0_2_high(op, state);
    }
}

#[verifier::rlimit(100)]
#[verifier::spinoff_prover]
fn execute_block0_2_low<M: Memory>(op: u8, state: &mut GameBoy<M>)
    requires
        0x20 <= op < 0x28,
        old(state).wf(),
        block0_2::<M>(op, old(state)@) is Some,
    ensures
        final(state).cycles >= old(state).cycles,
        final(state).wf(),
        final(state)@ == block0_2::<M>(op, old(state)@).unwrap(),
{
    if op == 0x20 {
        /* JR NZ */
        jr_nz(state);
        state.cycles = state.cycles + 8;
    } else if op == 0x21 {
        /* LD HL,nn */
        let value = state.read_word(state.pc);
        state.set_hl(value);
        state.pc = state.pc + 2;
        state.cycles = state.cycles + 12;
    } else if op == 0x22 {
        /* LDI (HL),A */
        let addr = state.hl();
        state.write(addr, state.a);
        let hl = state.hl().wrapping_add(1);
        state.set_hl(hl);
        state.cycles = state.cycles + 8;
    } else if op == 0x23 {
        /* INC HL */
        inc_hl(state);
        state.cycles = state.cycles + 8;
    } else if op == 0x24 {
        /* INC H */
        inc_h(state);
        state.cycles = state.cycles + 4;
    } else if op == 0x25 {
        /* DEC H */
        dec_h(state);
        state.cycles = state.cycles + 4;
    } else if op == 0x26 {
        /* LD H,n */
        state.h = state.read(state.pc);
        state.pc = state.pc + 1;
        state.cycles = state.cycles + 8;
    } else if op == 0x27 {
        /* DAA */
        daa(state);
        state.cycles = state.cycles + 4;
    }
}

#[verifier::rlimit(100)]
#[verifier::spinoff_prover]
fn execute_block0_2_high<M: Memory>(op: u8, state: &mut GameBoy<M>)
    requires
        0x28 <= op < 0x30,
        old(state).wf(),
        block0_2::<M>(op, old(state)@) is Some,
    ensures
        final(state).cycles >= old(state).cycles,
        final(state).wf(),
        final(state)@ == block0_2::<M>(op, old(state)@).unwrap(),
{
    if op == 0x28 {
        /* JR Z */
        jr_z(state);
        state.cycles = state.cycles + 8;
    } else if op == 0x29 {
        /* ADD HL,HL */
        add_hl_hl(state);
        state.cycles = state.cycles + 8;
    } else if op == 0x2A {
        /* LDI A,(HL) */
        state.a = state.read(state.hl());
        let hl = state.hl().wrapping_add(1);
        state.set_hl(hl);
        state.cycles = state.cycles + 8;
    } else if op == 0x2B {
        /* DEC HL */
        dec_hl(state);
        state.cycles = state.cycles + 8;
    } else if op == 0x2C {
        /* INC L */
        inc_l(state);
        state.cycles = state.cycles + 4;
    } else if op == 0x2D {
        /* DEC L */
        dec_l(state);
        state.cycles = state.cycles + 4;
    } else if op == 0x2E {
        /* LD L,n */
        state.l = state.read(state.pc);
        state.pc = state.pc + 1;
        state.cycles = state.cycles + 8;
    } else if op == 0x2F {
        /* CPL */
        cpl(state);
        state.cycles = state.cycles + 4;
    }
}

fn execute_block0_3<M: Memory>(op: u8, state: &mut GameBoy<M>)
    requires
        0x30 <= op < 0x40,
        op != 0x08,
        old(state).wf(),
        block0_3::<M>(op, old(state)@) is Some,
    ensures
        final(state).cycles >= old(state).cycles,
        final(state).wf(),
        final(state)@ == block0_3::<M>(op, old(state)@).unwrap(),
{
    if op < 0x38 {
        execute_block0_3_low(op, state);
    } else {
        execute_block0_3_high(op, state);
    }
}

#[verifier::rlimit(100)]
#[verifier::spinoff_prover]
fn execute_block0_3_low<M: Memory>(op: u8, state: &mut GameBoy<M>)
    requires
        0x30 <= op < 0x38,
        op != 0x08,
        old(state).wf(),
        block0_3::<M>(op, old(state)@) is Some,
    ensures
        final(state).cycles >= old(state).cycles,
        final(state).wf(),
        final(state)@ == block0_3::<M>(op, old(state)@).unwrap(),
{
    if op == 0x30 {
        /* JR NC */
        jr_nc(state);
        state.cycles = state.cycles + 8;
    } else if op == 0x31 {
        /* LD SP,nn */
        let value = state.read_word(state.pc);
        state.set_sp(value);
        state.pc = state.pc + 2;
        state.cycles = state.cycles + 12;
    } else if op == 0x32 {
        /* LDD (HL),A */
        let addr = state.hl();
        state.write(addr, state.a);
        let hl = state.hl().wrapping_sub(1);
        state.set_hl(hl);
        state.cycles = state.cycles + 8;
    } else if op == 0x33 {
        /* INC SP */
        inc_sp(state);
        state.cycles = state.cycles + 8;
    } else if op == 0x34 {
        /* INC (HL) */
        inc_hl_indirect(state);
        state.cycles = state.cycles + 12;
    } else if op == 0x35 {
        /* DEC (HL) */
        dec_hl_indirect(state);
        state.cycles = state.cycles + 12;
    } else if op == 0x36 {
        /* LD (HL),n */
        let value = state.read(state.pc);
        state.pc = state.pc + 1;
        let addr = state.hl();
        state.write(addr, value);
        state.cycles = state.cycles + 12;
    } else if op == 0x37 {
        /* SCF */
        scf(state);
        state.cycles = state.cycles + 4;
    }
}

fn execute_block0_3_high<M: Memory>(op: u8, state: &mut GameBoy<M>)
    requires
        0x38 <= op < 0x40,
        op != 0x08,
        old(state).wf(),
        block0_3::<M>(op, old(state)@) is Some,
    ensures
        final(state).cycles >= old(state).cycles,
        final(state).wf(),
        final(state)@ == block0_3::<M>(op, old(state)@).unwrap(),
{
    if op < 0x3C {
        execute_block0_3_high_a(op, state);
    } else {
        execute_block0_3_high_b(op, state);
    }
}

#[verifier::rlimit(100)]
#[verifier::spinoff_prover]
fn execute_block0_3_high_a<M: Memory>(op: u8, state: &mut GameBoy<M>)
    requires
        0x38 <= op < 0x3C,
        op != 0x08,
        old(state).wf(),
        block0_3::<M>(op, old(state)@) is Some,
    ensures
        final(state).cycles >= old(state).cycles,
        final(state).wf(),
        final(state)@ == block0_3::<M>(op, old(state)@).unwrap(),
{
    if op == 0x38 {
        /* JR C */
        jr_c(state);
        state.cycles = state.cycles + 8;
    } else if op == 0x39 {
        /* ADD HL,SP */
        add_hl_sp(state);
        state.cycles = state.cycles + 8;
    } else if op == 0x3A {
        /* LDD A,(HL) */
        state.a = state.read(state.hl());
        let hl = state.hl().wrapping_sub(1);
        state.set_hl(hl);
        state.cycles = state.cycles + 8;
    } else if op == 0x3B {
        /* DEC SP */
        dec_sp(state);
        state.cycles = state.cycles + 8;
    }
}
#[verifier::rlimit(100)]
#[verifier::spinoff_prover]
fn execute_block0_3_high_b<M: Memory>(op: u8, state: &mut GameBoy<M>)
    requires
        0x3C <= op < 0x40,
        op != 0x08,
        old(state).wf(),
        block0_3::<M>(op, old(state)@) is Some,
    ensures
        final(state).cycles >= old(state).cycles,
        final(state).wf(),
        final(state)@ == block0_3::<M>(op, old(state)@).unwrap(),
{
    if op == 0x3C {
        /* INC A */
        inc_a(state);
        state.cycles = state.cycles + 4;
    } else if op == 0x3D {
        /* DEC A */
        dec_a(state);
        state.cycles = state.cycles + 4;
    } else if op == 0x3E {
        /* LD A,n */
        state.a = state.read(state.pc);
        state.pc = state.pc + 1;
        state.cycles = state.cycles + 8;
    } else if op == 0x3F {
        /* CCF */
        ccf(state);
        state.cycles = state.cycles + 4;
    }
}


/// Execute an opcode of 0x40-0x7F.
fn execute_block1<M: Memory>(op: u8, state: &mut GameBoy<M>)
    requires
        0x40 <= op < 0x80,
        old(state).wf(),
        block1::<M>(op, old(state)@) is Some,
    ensures
        final(state).cycles >= old(state).cycles,
        final(state).wf(),
        final(state)@ == block1::<M>(op, old(state)@).unwrap(),
{
    if op == 0x76 {
        /* HALT */
        if state.ime {
            state.halt = true;
        }
        state.cycles = state.cycles + 4;
        return;
    }
    let dst = op / 8 % 8;
    let src = op % 8;
    let value = if src == 6 {
        state.read(state.hl())
    } else {
        get_reg8(state, src)
    };
    if dst == 6 {
        let addr = state.hl();
        state.write(addr, value);
        state.cycles = state.cycles + 8;
    } else {
        set_reg8(state, dst, value);
        state.cycles = state.cycles + if src == 6 {
            8
        } else {
            4
        };
    }
}

/// Execute an opcode of 0x80-0xBF.
fn execute_block2<M: Memory>(op: u8, state: &mut GameBoy<M>)
    requires
        0x80 <= op < 0xC0,
        old(state).wf(),
        block2::<M>(op, old(state)@) is Some,
    ensures
        final(state).cycles >= old(state).cycles,
        final(state).wf(),
        final(state)@ == block2::<M>(op, old(state)@).unwrap(),
{
    let kind = op / 8 % 8;
    let src = op % 8;
    let value = if src == 6 {
        state.read(state.hl())
    } else {
        get_reg8(state, src)
    };
    if kind == 0 {
        add_a(value, state);
    } else if kind == 1 {
        adc_a(value, state);
    } else if kind == 2 {
        sub_a(value, state);
    } else if kind == 3 {
        sbc_a(value, state);
    } else if kind == 4 {
        and_a(value, state);
    } else if kind == 5 {
        xor_a(value, state);
    } else if kind == 6 {
        or_a(value, state);
    } else {
        cp_a(value, state);
    }
    state.cycles = state.cycles + if src == 6 {
        8
    } else {
        4
    };
}

/// Execute an opcode of 0xC0-0xFF.
fn execute_block3<M: Memory>(op: u8, state: &mut GameBoy<M>)
    requires
        0xC0 <= op,
        old(state).wf(),
        block3::<M>(op, old(state)@) is Some,
    ensures
        final(state).cycles >= old(state).cycles,
        final(state).wf(),
        final(state)@ == block3::<M>(op, old(state)@).unwrap(),
{
    if op == 0xC0 {
        /* RET NZ */
        ret_nz(state);
        state.cycles = state.cycles + if !state.flag_z() {
            20
        } else {
            8
        };
    } else if op == 0xC1 {
        /* POP BC */
        pop_bc(state);
        state.cycles = state.cycles + 12;
    } else if op == 0xC2 {
        /* JP NZ */
        jp_nz(state);
        state.cycles = state.cycles + if !state.flag_z() {
            16
        } else {
            12
        };
    } else if op == 0xC3 {
        /* JP */
        jp(state);
        state.cycles = state.cycles + 16;
    } else if op == 0xC4 {
        /* CALL NZ */
        call_nz(state);
        state.cycles = state.cycles + if !state.flag_z() {
            24
        } else {
            12
        };
    } else if op == 0xCD {
        /* CALL */
        call(state);
        state.cycles = state.cycles + 24;
    } else if op == 0xCE {
        /* ADC A,n */
        let value = state.read(state.pc);
        state.pc = state.pc + 1;
        adc_a(value, state);
        state.cycles = state.cycles + 8;
    } else {
        /* RST 08h */
        rst_08(state);
        state.cycles = state.cycles + 16;
    }
}

/// Execute opcode `op`; PC points past it.
fn execute_opcode<M: Memory>(op: u8, state: &mut GameBoy<M>)
    requires
        old(state).wf(),
        opcode_result::<M>(op, old(state)@) is Some,
    ensures
        final(state).cycles >= old(state).cycles,
        final(state).wf(),
        final(state)@ == opcode_result::<M>(op, old(state)@).unwrap(),
{
    proof {
        reveal(opcode_result);
    }
    if op < 0x40 {
        execute_block0(op, state);
    } else if op < 0x80 {
        execute_block1(op, state);
    } else if op < 0xC0 {
        execute_block2(op, state);
    } else {
        execute_block3(op, state);
    }
}

/// Execute a single CPU instruction, or service a pending interrupt.
#[verifier::spinoff_prover]
pub fn execute<M: Memory>(state: &mut GameBoy<M>)
    requires
        old(state).wf(),
        execute_result::<M>(old(state)@) is Some,
    ensures
        final(state).cycles >= old(state).cycles,
        final(state).wf(),
        final(state)@ == execute_result::<M>(old(state)@).unwrap(),
{
    if service_interrupts(state) {
        return;
    }
    if state.di_delay {
        let prev_opcode = state.read(state.pc.wrapping_sub(1));
        if prev_opcode != 0xF3 {
            state.di_delay = false;
            state.ime = false;
        }
    }
    if state.ei_delay {
        let prev_opcode = state.read(state.pc.wrapping_sub(1));
        if prev_opcode != 0xFB {
            state.ei_delay = false;
            state.ime = true;
        }
    }
    if state.halt {
        if has_pending_interrupt(state) {
            state.halt = false;
        } else {
            return;
        }
    }
    let op = state.read(state.pc);
    state.pc = state.pc + 1;
    execute_opcode(op, state);
}

} // verus!
