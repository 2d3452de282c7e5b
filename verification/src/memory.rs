use vstd::prelude::*;

verus! {

/// Number of addressable bytes.
pub const MEMORY_SIZE: usize = 4096;

/// `memory` with `bytes` written at address `at` onwards.
pub open spec fn with_bytes_at(memory: Seq<u8>, at: int, bytes: Seq<u8>) -> Seq<u8> {
    Seq::new(
        memory.len(),
        |a: int|
            if at <= a < at + bytes.len() {
                bytes[a - at]
            } else {
                memory[a]
            },
    )
}

/// Flat byte store of `MEMORY_SIZE` bytes, addressed by 16-bit addresses.
pub struct Memory {
    ram: [u8; 4096],
}

impl View for Memory {
    type V = Seq<u8>;

    /// The bytes in address order; always `MEMORY_SIZE` long.
    closed spec fn view(&self) -> Seq<u8> {
        self.ram@
    }
}

impl Memory {
    /// A memory with every byte zero.
    pub fn new() -> (mem: Self)
        ensures
            mem@ =~= Seq::new(MEMORY_SIZE as nat, |a: int| 0u8),
    {
        Self { ram: [0;4096] }
    }

    /// Every memory holds exactly `MEMORY_SIZE` bytes.
    pub broadcast proof fn lemma_len(&self)
        ensures
            #![trigger self@]
            self@.len() == MEMORY_SIZE,
    {
    }

    /// Writes `data` at `addr`; no other byte changes.
    pub fn store(&mut self, addr: u16, data: u8)
        requires
            addr < MEMORY_SIZE,
        ensures
            final(self)@ == old(self)@.update(addr as int, data),
    {
        self.ram[addr as usize] = data;
    }

    /// Reads the byte at `addr`.
    pub fn load(&self, addr: u16) -> (data: u8)
        requires
            addr < MEMORY_SIZE,
        ensures
            data == self@[addr as int],
    {
        self.ram[addr as usize]
    }
}

} // verus!
