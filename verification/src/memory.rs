//! The memory bus seen by the CPU.
//!
//! `Memory` allows different memory implementations behind the CPU: the
//! banked [`crate::mmu::Mmu`] used with real cartridges, and the flat 64 KiB
//! [`FlatMemory`] used for testing.  Every implementation describes its state
//! by an abstract `Model`, and reads and writes are specified over it.
use vstd::prelude::*;

verus! {

pub trait Memory: Sized {
    /// The abstract state of the memory.
    type Model;

    /// The abstract state of this memory.
    spec fn model(&self) -> Self::Model;

    /// Well-formedness of a state.
    spec fn model_inv(m: Self::Model) -> bool;

    /// The byte that a read at `addr` returns in state `m`.
    spec fn model_read(m: Self::Model, addr: u16) -> u8;

    /// The state after writing `value` at `addr` in state `m`.
    spec fn model_write(m: Self::Model, addr: u16, value: u8) -> Self::Model;

    /// Whether a write at `addr` is defined in state `m` (it does not fault).
    spec fn model_write_defined(m: Self::Model, addr: u16) -> bool;

    /// A defined write keeps the state well-formed.
    proof fn lemma_write_keeps_inv(m: Self::Model, addr: u16, value: u8)
        requires
            Self::model_inv(m),
            Self::model_write_defined(m, addr),
        ensures
            Self::model_inv(Self::model_write(m, addr, value)),
    ;

    /// Only the ROM area (below 0x8000) may hold writes that fault.
    proof fn lemma_high_writes_defined(m: Self::Model, addr: u16)
        requires
            addr >= 0x8000,
        ensures
            Self::model_write_defined(m, addr),
    ;

    /// A write at 0x8000 or above leaves every write as defined as before.
    proof fn lemma_high_write_keeps_defined(m: Self::Model, first: u16, value: u8, addr: u16)
        requires
            first >= 0x8000,
        ensures
            Self::model_write_defined(Self::model_write(m, first, value), addr)
                == Self::model_write_defined(m, addr),
    ;

    /// A write at 0x8000 or above does not change which writes are defined
    /// after a later write.
    proof fn lemma_high_write_keeps_defined_after(
        m: Self::Model,
        first: u16,
        value: u8,
        second: u16,
        value2: u8,
        addr: u16,
    )
        requires
            first >= 0x8000,
        ensures
            Self::model_write_defined(
                Self::model_write(Self::model_write(m, first, value), second, value2),
                addr,
            ) == Self::model_write_defined(Self::model_write(m, second, value2), addr),
    ;

    /// Whether a write at `addr` is defined now.
    fn write_defined(&self, addr: u16) -> (r: bool)
        requires
            Self::model_inv(self.model()),
        ensures
            r == Self::model_write_defined(self.model(), addr),
    ;

    /// Whether a write at `addr` is defined after `value` is written at
    /// `first`.
    fn write_defined_after(&self, first: u16, value: u8, addr: u16) -> (r: bool)
        requires
            Self::model_inv(self.model()),
        ensures
            r == Self::model_write_defined(Self::model_write(self.model(), first, value), addr),
    ;

    /// Read a byte from memory.
    fn read(&self, addr: u16) -> (r: u8)
        requires
            Self::model_inv(self.model()),
        ensures
            r == Self::model_read(self.model(), addr),
    ;

    /// Write a byte to memory.
    fn write(&mut self, addr: u16, value: u8)
        requires
            Self::model_inv(old(self).model()),
            Self::model_write_defined(old(self).model(), addr),
        ensures
            final(self).model() == Self::model_write(old(self).model(), addr, value),
            Self::model_inv(final(self).model()),
    ;
}

/// Simple flat memory: a 64 KiB array with no banking, ROM protection or
/// other complexities.
pub struct FlatMemory {
    mem: [u8; 0x10000],
}

impl FlatMemory {
    /// Create a new flat memory with all bytes initialized to 0.
    pub fn new() -> (r: Self)
        ensures
            r.model() == Seq::new(0x10000, |i: int| 0u8),
    {
        FlatMemory { mem: [0u8; 0x10000] }
    }
}

impl Default for FlatMemory {
    fn default() -> (r: Self)
        ensures
            r.model() == Seq::new(0x10000, |i: int| 0u8),
    {
        Self::new()
    }
}

impl Memory for FlatMemory {
    type Model = Seq<u8>;

    closed spec fn model(&self) -> Seq<u8> {
        self.mem@
    }

    open spec fn model_inv(m: Seq<u8>) -> bool {
        m.len() == 0x10000
    }

    open spec fn model_read(m: Seq<u8>, addr: u16) -> u8 {
        m[addr as int]
    }

    open spec fn model_write(m: Seq<u8>, addr: u16, value: u8) -> Seq<u8> {
        m.update(addr as int, value)
    }

    open spec fn model_write_defined(m: Seq<u8>, addr: u16) -> bool {
        true
    }

    proof fn lemma_write_keeps_inv(m: Seq<u8>, addr: u16, value: u8) {
    }

    proof fn lemma_high_writes_defined(m: Seq<u8>, addr: u16) {
    }

    proof fn lemma_high_write_keeps_defined(m: Seq<u8>, first: u16, value: u8, addr: u16) {
    }

    proof fn lemma_high_write_keeps_defined_after(
        m: Seq<u8>,
        first: u16,
        value: u8,
        second: u16,
        value2: u8,
        addr: u16,
    ) {
    }

    fn write_defined(&self, addr: u16) -> (r: bool) {
        true
    }

    fn write_defined_after(&self, first: u16, value: u8, addr: u16) -> (r: bool) {
        true
    }

    fn read(&self, addr: u16) -> (r: u8) {
        self.mem[addr as usize]
    }

    fn write(&mut self, addr: u16, value: u8) {
        self.mem[addr as usize] = value;
    }
}

} // verus!
