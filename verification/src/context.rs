//! A bare CPU register file: the eight 8-bit registers, the stack pointer
//! and the program counter, with the 16-bit register pairs over them.
use vstd::prelude::*;
use crate::system::{word, hi_byte, lo_byte, lemma_word, lemma_split_word};

verus! {

/// The CPU registers of the system.
pub struct SystemState {
    pub a: u8,
    pub f: u8,
    pub h: u8,
    pub l: u8,
    pub b: u8,
    pub c: u8,
    pub d: u8,
    pub e: u8,
    pub pc: u16,
    pub sp: u16,
}

impl SystemState {
    /// The registers after power-on: AF=0x01B0, BC=0x0013, DE=0x00D8,
    /// HL=0x014D, SP=0xFFFE, PC=0x0100.
    pub fn new() -> (r: Self)
        ensures
            r.a == 0x01 && r.f == 0xB0,
            r.b == 0x00 && r.c == 0x13,
            r.d == 0x00 && r.e == 0xD8,
            r.h == 0x01 && r.l == 0x4D,
            r.sp == 0xFFFE,
            r.pc == 0x0100,
    {
        let mut ctx = SystemState { a: 0, f: 0, h: 0, l: 0, b: 0, c: 0, d: 0, e: 0, pc: 0, sp: 0 };
        ctx.set_af(0x01B0);
        ctx.set_bc(0x0013);
        ctx.set_de(0x00D8);
        ctx.set_hl(0x014D);
        ctx.set_sp(0xFFFE);
        ctx.set_pc(0x0100);
        proof {
            assert(hi_byte(0x01B0) == 0x01 && lo_byte(0x01B0) == 0xB0);
        }
        ctx
    }

    /// The AF pair: A high, F low.
    pub fn af(&self) -> (r: u16)
        ensures
            r == word(self.a, self.f),
    {
        proof {
            lemma_word(self.a, self.f);
        }
        ((self.a as u16) << 8) | (self.f as u16)
    }

    /// Set the AF pair; all eight bits of F are stored.
    pub fn set_af(&mut self, value: u16)
        ensures
            final(self).a == hi_byte(value),
            final(self).f == lo_byte(value),
            final(self).h == old(self).h && final(self).l == old(self).l,
            final(self).b == old(self).b && final(self).c == old(self).c,
            final(self).d == old(self).d && final(self).e == old(self).e,
            final(self).pc == old(self).pc && final(self).sp == old(self).sp,
    {
        proof {
            lemma_split_word(value);
        }
        self.a = (value >> 8) as u8;
        self.f = value as u8;
    }

    /// The BC pair: B high, C low.
    pub fn bc(&self) -> (r: u16)
        ensures
            r == word(self.b, self.c),
    {
        proof {
            lemma_word(self.b, self.c);
        }
        ((self.b as u16) << 8) | (self.c as u16)
    }

    /// Set the BC pair.
    pub fn set_bc(&mut self, value: u16)
        ensures
            final(self).b == hi_byte(value),
            final(self).c == lo_byte(value),
            final(self).a == old(self).a && final(self).f == old(self).f,
            final(self).h == old(self).h && final(self).l == old(self).l,
            final(self).d == old(self).d && final(self).e == old(self).e,
            final(self).pc == old(self).pc && final(self).sp == old(self).sp,
    {
        proof {
            lemma_split_word(value);
        }
        self.b = (value >> 8) as u8;
        self.c = value as u8;
    }

    /// The DE pair: D high, E low.
    pub fn de(&self) -> (r: u16)
        ensures
            r == word(self.d, self.e),
    {
        proof {
            lemma_word(self.d, self.e);
        }
        ((self.d as u16) << 8) | (self.e as u16)
    }

    /// Set the DE pair.
    pub fn set_de(&mut self, value: u16)
        ensures
            final(self).d == hi_byte(value),
            final(self).e == lo_byte(value),
            final(self).a == old(self).a && final(self).f == old(self).f,
            final(self).h == old(self).h && final(self).l == old(self).l,
            final(self).b == old(self).b && final(self).c == old(self).c,
            final(self).pc == old(self).pc && final(self).sp == old(self).sp,
    {
        proof {
            lemma_split_word(value);
        }
        self.d = (value >> 8) as u8;
        self.e = value as u8;
    }

    /// The HL pair: H high, L low.
    pub fn hl(&self) -> (r: u16)
        ensures
            r == word(self.h, self.l),
    {
        proof {
            lemma_word(self.h, self.l);
        }
        ((self.h as u16) << 8) | (self.l as u16)
    }

    /// Set the HL pair.
    pub fn set_hl(&mut self, value: u16)
        ensures
            final(self).h == hi_byte(value),
            final(self).l == lo_byte(value),
            final(self).a == old(self).a && final(self).f == old(self).f,
            final(self).b == old(self).b && final(self).c == old(self).c,
            final(self).d == old(self).d && final(self).e == old(self).e,
            final(self).pc == old(self).pc && final(self).sp == old(self).sp,
    {
        proof {
            lemma_split_word(value);
        }
        self.h = (value >> 8) as u8;
        self.l = value as u8;
    }

    /// The stack pointer.
    pub fn sp(&self) -> (r: u16)
        ensures
            r == self.sp,
    {
        self.sp
    }

    /// Set the stack pointer; the other registers keep their values.
    pub fn set_sp(&mut self, value: u16)
        ensures
            *final(self) == (SystemState { sp: value, ..*old(self) }),
    {
        self.sp = value;
    }

    /// The program counter.
    pub fn pc(&self) -> (r: u16)
        ensures
            r == self.pc,
    {
        self.pc
    }

    /// Set the program counter; the other registers keep their values.
    pub fn set_pc(&mut self, value: u16)
        ensures
            *final(self) == (SystemState { pc: value, ..*old(self) }),
    {
        self.pc = value;
    }
}

/// Writing a register pair and reading it back gives the value written.
pub proof fn law_pair_roundtrip(value: u16)
    ensures
        word(hi_byte(value), lo_byte(value)) == value,
{
    lemma_split_word(value);
}

} // verus!
