//! Flat byte memory covering the machine's 4KB address space.
use vstd::prelude::*;

verus! {

/// Number of addressable bytes.
pub const MEMORY_SIZE: usize = 4096;

/// The machine's memory: a flat sequence of `MEMORY_SIZE` bytes indexed by a
/// 16-bit address. Every access must stay below `MEMORY_SIZE`; the callers in
/// the CPU check their addresses and report an error before touching memory.
pub struct Ram {
    bytes: Vec<u8>,
}

impl View for Ram {
    type V = Seq<u8>;

    closed spec fn view(&self) -> Seq<u8> {
        self.bytes@
    }
}

impl Ram {
    pub open spec fn wf(&self) -> bool {
        self@.len() == MEMORY_SIZE
    }

    /// Fresh memory holds all zeroes.
    pub fn new() -> (r: Ram)
        ensures
            r.wf(),
            r@ == Seq::<u8>::new(MEMORY_SIZE as nat, |j: int| 0u8),
    {
        let mut bytes: Vec<u8> = Vec::new();
        let mut k: usize = 0;
        while k < MEMORY_SIZE
            invariant
                k <= MEMORY_SIZE,
                bytes@.len() == k,
                forall|j: int| 0 <= j < k ==> bytes@[j] == 0u8,
            decreases MEMORY_SIZE - k,
        {
            bytes.push(0);
            k = k + 1;
        }
        proof {
            assert(bytes@ =~= Seq::<u8>::new(MEMORY_SIZE as nat, |j: int| 0u8));
        }
        Ram { bytes }
    }

    pub fn read_byte(&self, address: u16) -> (r: u8)
        requires
            self.wf(),
            address < MEMORY_SIZE,
        ensures
            r == self@[address as int],
    {
        self.bytes[address as usize]
    }

    pub fn write_byte(&mut self, address: u16, value: u8)
        requires
            old(self).wf(),
            address < MEMORY_SIZE,
        ensures
            final(self).wf(),
            final(self)@ == old(self)@.update(address as int, value),
    {
        self.bytes.set(address as usize, value);
    }
}

} // verus!
