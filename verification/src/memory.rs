//! The flat 4096-byte memory.
//!
//! Bytes [0, 80) hold the fixed font table: sixteen 5-byte glyph sprites, one
//! per hexadecimal digit, established at construction. The normal load path
//! writes only at or above address 512; every access is bounds-checked.

use vstd::prelude::*;

verus! {

/// Where loaded programs start: the first 512 bytes are protected.
pub const PROGRAM_START: u16 = 0x200;

/// The 4096-byte store.
pub struct Memory {
    data: [u8; 4096],
}

/// The ways a memory operation can fail.
#[derive(Debug, Clone, Copy, PartialEq, Eq, Structural)]
pub enum MemoryError {
    /// A write below address 512, into the protected region.
    PermissionDenied,
    /// A font-glyph index outside 0..=15.
    IncorrectSprite,
    /// An access past the end of memory; the offending address is echoed.
    OutOfRange(u16),
}

/// The font table: sixteen glyph sprites of five bytes each, digit 0 to F.
pub open spec fn font() -> Seq<u8> {
    seq![
        0xF0u8, 0x90, 0x90, 0x90, 0xF0,  // 0
        0x20, 0x60, 0x20, 0x20, 0x70,  // 1
        0xF0, 0x10, 0xF0, 0x80, 0xF0,  // 2
        0xF0, 0x10, 0xF0, 0x10, 0xF0,  // 3
        0x90, 0x90, 0xF0, 0x10, 0x10,  // 4
        0xF0, 0x80, 0xF0, 0x10, 0xF0,  // 5
        0xF0, 0x80, 0xF0, 0x90, 0xF0,  // 6
        0xF0, 0x10, 0x20, 0x40, 0x40,  // 7
        0xF0, 0x90, 0xF0, 0x90, 0xF0,  // 8
        0xF0, 0x90, 0xF0, 0x10, 0xF0,  // 9
        0xF0, 0x90, 0xF0, 0x90, 0x90,  // A
        0xE0, 0x90, 0xE0, 0x90, 0xE0,  // B
        0xF0, 0x80, 0x80, 0x80, 0xF0,  // C
        0xE0, 0x90, 0x90, 0x90, 0xE0,  // D
        0xF0, 0x80, 0xF0, 0x80, 0xF0,  // E
        0xF0, 0x80, 0xF0, 0x80, 0x80,  // F
    ]
}

/// The 16-bit word formed by two consecutive bytes, high byte first.
pub open spec fn word_at(m: Seq<u8>, addr: int) -> int {
    m[addr] * 256 + m[addr + 1]
}

impl View for Memory {
    type V = Seq<u8>;

    closed spec fn view(&self) -> Seq<u8> {
        self.data@
    }
}

impl Memory {
    /// The store is always exactly 4096 bytes.
    pub proof fn lemma_len(&self)
        ensures
            self@.len() == 4096,
    {
    }

    /// Create a memory holding the font table and zeroes everywhere else.
    #[verifier::rlimit(60)]
    pub fn new() -> (r: Memory)
        ensures
            r@.len() == 4096,
            forall|i: int| 0 <= i < 80 ==> r@[i] == font()[i],
            forall|i: int| 80 <= i < 4096 ==> r@[i] == 0,
    {
        let sprites: [u8; 80] = [
            0xF0, 0x90, 0x90, 0x90, 0xF0, 0x20, 0x60, 0x20, 0x20, 0x70, 0xF0, 0x10, 0xF0, 0x80,
            0xF0, 0xF0, 0x10, 0xF0, 0x10, 0xF0, 0x90, 0x90, 0xF0, 0x10, 0x10, 0xF0, 0x80, 0xF0,
            0x10, 0xF0, 0xF0, 0x80, 0xF0, 0x90, 0xF0, 0xF0, 0x10, 0x20, 0x40, 0x40, 0xF0, 0x90,
            0xF0, 0x90, 0xF0, 0xF0, 0x90, 0xF0, 0x10, 0xF0, 0xF0, 0x90, 0xF0, 0x90, 0x90, 0xE0,
            0x90, 0xE0, 0x90, 0xE0, 0xF0, 0x80, 0x80, 0x80, 0xF0, 0xE0, 0x90, 0x90, 0x90, 0xE0,
            0xF0, 0x80, 0xF0, 0x80, 0xF0, 0xF0, 0x80, 0xF0, 0x80, 0x80,
        ];
        assert(forall|j: int| 0 <= j < 80 ==> sprites@[j] == font()[j]);
        let mut data = [0u8; 4096];
        let mut i: usize = 0;
        while i < 80
            invariant
                i <= 80,
                data@.len() == 4096,
                forall|j: int| 0 <= j < 80 ==> sprites@[j] == font()[j],
                forall|j: int| 0 <= j < i ==> data@[j] == font()[j],
                forall|j: int| i <= j < 4096 ==> data@[j] == 0,
            decreases 80 - i,
        {
            data[i] = sprites[i];
            i = i + 1;
        }
        Memory { data }
    }

    /// The address of the 5-byte glyph sprite for a hexadecimal digit.
    ///
    /// Rejects digits outside 0..=15.
    pub fn read_sprite_address(&self, digit: u8) -> (r: Result<u16, MemoryError>)
        ensures
            digit <= 15 ==> r == Ok::<u16, MemoryError>((digit * 5) as u16),
            digit > 15 ==> r == Err::<u16, MemoryError>(MemoryError::IncorrectSprite),
    {
        if digit > 0xF {
            Err(MemoryError::IncorrectSprite)
        } else {
            Ok(digit as u16 * 5)
        }
    }

    /// The byte at `addr`. Rejects addresses at or past 4096.
    pub fn read_byte(&self, addr: u16) -> (r: Result<u8, MemoryError>)
        ensures
            addr < 4096 ==> r == Ok::<u8, MemoryError>(self@[addr as int]),
            addr >= 4096 ==> r == Err::<u8, MemoryError>(MemoryError::OutOfRange(addr)),
    {
        if addr >= 4096 {
            return Err(MemoryError::OutOfRange(addr));
        }
        Ok(self.data[addr as usize])
    }

    /// The two-byte word starting at `addr`, high byte first.
    ///
    /// Rejects addresses at or past 4095, since the second byte would fall
    /// outside memory.
    pub fn read_word(&self, addr: u16) -> (r: Result<u16, MemoryError>)
        ensures
            addr < 4095 ==> (r matches Ok(w) && w as int == word_at(self@, addr as int)),
            addr >= 4095 ==> r == Err::<u16, MemoryError>(MemoryError::OutOfRange(addr)),
    {
        if addr >= 4095 {
            return Err(MemoryError::OutOfRange(addr));
        }
        let hi = self.data[addr as usize];
        let lo = self.data[addr as usize + 1];
        Ok(hi as u16 * 256 + lo as u16)
    }

    /// Copy `bytes` into memory starting at `start`, overwriting what is
    /// there: absolute placement, no append semantics.
    ///
    /// Rejects a start below 512 (the protected region) and a block whose end
    /// would pass 4096; on rejection memory is unchanged.
    pub fn load(&mut self, start: u16, bytes: &[u8]) -> (r: Result<(), MemoryError>)
        ensures
            r is Ok <==> PROGRAM_START <= start && start + bytes@.len() <= 4096,
            start < PROGRAM_START ==> r == Err::<(), MemoryError>(MemoryError::PermissionDenied),
            start >= PROGRAM_START && start + bytes@.len() > 4096 ==> r == Err::<(), MemoryError>(
                MemoryError::OutOfRange(((start + bytes@.len()) % 0x10000) as u16),
            ),
            r is Err ==> *final(self) == *old(self),
            r is Ok ==> {
                &&& final(self)@.len() == old(self)@.len()
                &&& forall|i: int|
                    0 <= i < old(self)@.len() ==> final(self)@[i] == (if start <= i < start
                        + bytes@.len() {
                        bytes@[i - start]
                    } else {
                        old(self)@[i]
                    })
            },
    {
        if start < PROGRAM_START {
            return Err(MemoryError::PermissionDenied);
        }
        if bytes.len() > 4096 || start as usize > 4096 - bytes.len() {
            let overrun: usize = (start as usize + bytes.len() % 0x10000) % 0x10000;
            proof {
                vstd::arithmetic::div_mod::lemma_add_mod_noop(
                    start as int,
                    bytes@.len() as int,
                    0x10000,
                );
                vstd::arithmetic::div_mod::lemma_small_mod(start as nat, 0x10000);
                vstd::arithmetic::div_mod::lemma_mod_twice(bytes@.len() as int, 0x10000);
            }
            return Err(MemoryError::OutOfRange(overrun as u16));
        }
        let mut i: usize = 0;
        while i < bytes.len()
            invariant
                i <= bytes.len(),
                start >= PROGRAM_START,
                start as usize + bytes.len() <= 4096,
                self@.len() == 4096,
                forall|j: int|
                    0 <= j < 4096 ==> self@[j] == (if start <= j < start + i {
                        bytes@[j - start]
                    } else {
                        old(self)@[j]
                    }),
            decreases bytes.len() - i,
        {
            self.data[start as usize + i] = bytes[i];
            i = i + 1;
        }
        Ok(())
    }
}

} // verus!
