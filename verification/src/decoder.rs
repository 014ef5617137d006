//! The opcode decoder: a total function from 16-bit instruction words to
//! typed instructions.
//!
//! A word is described as four nibbles. The accepted bit patterns, the fields
//! extracted from them and the canonical re-encoding of every instruction are
//! all stated as spec functions, so that decoding is verified to be exact and
//! injective on its accepted domain.

use vstd::prelude::*;

use crate::types::{Address, Index, SpriteHeight};

verus! {

/// The instructions of the machine.
///
/// Naming of the encoding fields: NNN is a 12-bit address, NN an 8-bit
/// constant, N a 4-bit constant, X and Y 4-bit register indices.
#[derive(Debug, Clone, Copy, PartialEq, Eq, Structural)]
pub enum Instruction {
    /// 0NNN, call a native machine-code routine (never supported).
    CallMachineCode { address: Address },
    /// 00E0, clear the display.
    ClearDisplay,
    /// 00EE, return from the current subroutine.
    Return,
    /// 1NNN, jump to address NNN.
    Goto { address: Address },
    /// 2NNN, call the subroutine at address NNN.
    CallSubroutine { address: Address },
    /// 3XNN, skip the next instruction if VX == NN.
    EqConst { x: Index, value: u8 },
    /// 4XNN, skip the next instruction if VX != NN.
    NeqConst { x: Index, value: u8 },
    /// 5XY0, skip the next instruction if VX == VY.
    EqReg { x: Index, y: Index },
    /// 6XNN, set VX to NN.
    AssignConst { x: Index, value: u8 },
    /// 7XNN, VX += NN (wrapping).
    AddAssignConst { x: Index, value: u8 },
    /// 8XY0, set VX to VY.
    AssignReg { x: Index, y: Index },
    /// 8XY1, VX |= VY.
    OrReg { x: Index, y: Index },
    /// 8XY2, VX &= VY.
    AndReg { x: Index, y: Index },
    /// 8XY3, VX ^= VY.
    XorReg { x: Index, y: Index },
    /// 8XY4, VX += VY, VF reports the carry.
    AddAssignReg { x: Index, y: Index },
    /// 8XY5, VX -= VY, VF reports "no borrow".
    SubAssignReg { x: Index, y: Index },
    /// 8XY6, VX >>= 1, VF receives the bit shifted out; VY is ignored.
    RShift { x: Index, y: Index },
    /// 8XY7, VX = VY - VX, VF reports "no borrow".
    SubAssignRegInverse { x: Index, y: Index },
    /// 8XYE, VX <<= 1, VF receives the bit shifted out; VY is ignored.
    LShift { x: Index, y: Index },
    /// 9XY0, skip the next instruction if VX != VY.
    NeqReg { x: Index, y: Index },
    /// ANNN, set the address register I to NNN.
    SetI { address: Address },
    /// BNNN, jump to address NNN + V0.
    GotoPlusV0 { address: Address },
    /// CXNN, VX = random byte & NN.
    Rand { x: Index, value: u8 },
    /// DXYN, draw the N-row sprite at I to position (VX, VY).
    DrawSprite { x: Index, y: Index, height: SpriteHeight },
    /// EX9E, skip the next instruction if the key numbered VX is down.
    KeyPressedSkip { x: Index },
    /// EXA1, skip the next instruction if the key numbered VX is up.
    KeyReleasedSkip { x: Index },
    /// FX07, set VX to the delay timer.
    GetDelayTimer { x: Index },
    /// FX0A, wait until a key is down, then store its number in VX.
    AwaitKeyPress { x: Index },
    /// FX15, set the delay timer to VX.
    SetDelayTimer { x: Index },
    /// FX18, set the sound timer to VX.
    SetSoundTimer { x: Index },
    /// FX1E, I += VX.
    AddAssignAddress { x: Index },
    /// FX29, I = address of the glyph sprite for the digit VX.
    SetSpriteAddr { x: Index },
    /// FX33, store the BCD digits of VX at I, I+1, I+2.
    SetBCD { x: Index },
    /// FX55, dump registers V0..=VX to memory starting at I.
    DumpRegisters { x: Index },
    /// FX65, load registers V0..=VX from memory starting at I.
    LoadRegisters { x: Index },
}

/// The single way decoding can fail.
#[derive(Debug, Clone, Copy, PartialEq, Eq, Structural)]
pub enum DecodeError {
    /// The word matches no instruction pattern; it is echoed back.
    NoSuchInstruction(u16),
}

/// The first (most significant) nibble of a word.
pub open spec fn nib0(w: u16) -> u8 {
    ((w >> 12) & 0xF) as u8
}

/// The second nibble of a word.
pub open spec fn nib1(w: u16) -> u8 {
    ((w >> 8) & 0xF) as u8
}

/// The third nibble of a word.
pub open spec fn nib2(w: u16) -> u8 {
    ((w >> 4) & 0xF) as u8
}

/// The fourth (least significant) nibble of a word.
pub open spec fn nib3(w: u16) -> u8 {
    (w & 0xF) as u8
}

/// The 12-bit address in the tail of a word.
pub open spec fn addr_of(w: u16) -> u16 {
    w & 0xFFF
}

/// The 8-bit constant in the tail of a word.
pub open spec fn byte_of(w: u16) -> u8 {
    (w & 0xFF) as u8
}

/// How a word splits into nibble groups: the facts every decoding proof needs.
pub proof fn lemma_word_structure(w: u16)
    by (bit_vector)
    ensures
        nib0(w) < 16,
        nib1(w) < 16,
        nib2(w) < 16,
        nib3(w) < 16,
        addr_of(w) < 4096,
        w as int == nib0(w) * 4096 + nib1(w) * 256 + nib2(w) * 16 + nib3(w),
        addr_of(w) as int == nib1(w) * 256 + nib2(w) * 16 + nib3(w),
        byte_of(w) as int == nib2(w) * 16 + nib3(w),
{
}

/// The words that decode to some instruction: exactly one pattern per family.
pub open spec fn accepted(w: u16) -> bool {
    ||| nib0(w) == 0x0
    ||| nib0(w) == 0x1
    ||| nib0(w) == 0x2
    ||| nib0(w) == 0x3
    ||| nib0(w) == 0x4
    ||| (nib0(w) == 0x5 && nib3(w) == 0x0)
    ||| nib0(w) == 0x6
    ||| nib0(w) == 0x7
    ||| (nib0(w) == 0x8 && (nib3(w) <= 0x7 || nib3(w) == 0xE))
    ||| (nib0(w) == 0x9 && nib3(w) == 0x0)
    ||| nib0(w) == 0xA
    ||| nib0(w) == 0xB
    ||| nib0(w) == 0xC
    ||| nib0(w) == 0xD
    ||| (nib0(w) == 0xE && ((nib2(w) == 0x9 && nib3(w) == 0xE) || (nib2(w) == 0xA && nib3(w)
        == 0x1)))
    ||| (nib0(w) == 0xF && ((nib2(w) == 0x0 && nib3(w) == 0x7) || (nib2(w) == 0x0 && nib3(w)
        == 0xA) || (nib2(w) == 0x1 && nib3(w) == 0x5) || (nib2(w) == 0x1 && nib3(w) == 0x8) || (
    nib2(w) == 0x1 && nib3(w) == 0xE) || (nib2(w) == 0x2 && nib3(w) == 0x9) || (nib2(w) == 0x3
        && nib3(w) == 0x3) || (nib2(w) == 0x5 && nib3(w) == 0x5) || (nib2(w) == 0x6 && nib3(w)
        == 0x5)))
}

/// The decoding table: which instruction a word denotes, field by field.
///
/// For every accepted word exactly one instruction satisfies this relation;
/// the two fixed patterns 00E0 and 00EE take precedence over the 0NNN
/// catch-all.
pub open spec fn decodes_to(w: u16, i: Instruction) -> bool {
    match i {
        Instruction::Return => w == 0x00EE,
        Instruction::ClearDisplay => w == 0x00E0,
        Instruction::CallMachineCode { address } => nib0(w) == 0x0 && w != 0x00EE && w != 0x00E0
            && address@ == addr_of(w),
        Instruction::Goto { address } => nib0(w) == 0x1 && address@ == addr_of(w),
        Instruction::CallSubroutine { address } => nib0(w) == 0x2 && address@ == addr_of(w),
        Instruction::EqConst { x, value } => nib0(w) == 0x3 && x@ == nib1(w) && value == byte_of(w),
        Instruction::NeqConst { x, value } => nib0(w) == 0x4 && x@ == nib1(w) && value == byte_of(
            w,
        ),
        Instruction::EqReg { x, y } => nib0(w) == 0x5 && nib3(w) == 0x0 && x@ == nib1(w) && y@
            == nib2(w),
        Instruction::AssignConst { x, value } => nib0(w) == 0x6 && x@ == nib1(w) && value
            == byte_of(w),
        Instruction::AddAssignConst { x, value } => nib0(w) == 0x7 && x@ == nib1(w) && value
            == byte_of(w),
        Instruction::AssignReg { x, y } => nib0(w) == 0x8 && nib3(w) == 0x0 && x@ == nib1(w) && y@
            == nib2(w),
        Instruction::OrReg { x, y } => nib0(w) == 0x8 && nib3(w) == 0x1 && x@ == nib1(w) && y@
            == nib2(w),
        Instruction::AndReg { x, y } => nib0(w) == 0x8 && nib3(w) == 0x2 && x@ == nib1(w) && y@
            == nib2(w),
        Instruction::XorReg { x, y } => nib0(w) == 0x8 && nib3(w) == 0x3 && x@ == nib1(w) && y@
            == nib2(w),
        Instruction::AddAssignReg { x, y } => nib0(w) == 0x8 && nib3(w) == 0x4 && x@ == nib1(w)
            && y@ == nib2(w),
        Instruction::SubAssignReg { x, y } => nib0(w) == 0x8 && nib3(w) == 0x5 && x@ == nib1(w)
            && y@ == nib2(w),
        Instruction::RShift { x, y } => nib0(w) == 0x8 && nib3(w) == 0x6 && x@ == nib1(w) && y@
            == nib2(w),
        Instruction::SubAssignRegInverse { x, y } => nib0(w) == 0x8 && nib3(w) == 0x7 && x@
            == nib1(w) && y@ == nib2(w),
        Instruction::LShift { x, y } => nib0(w) == 0x8 && nib3(w) == 0xE && x@ == nib1(w) && y@
            == nib2(w),
        Instruction::NeqReg { x, y } => nib0(w) == 0x9 && nib3(w) == 0x0 && x@ == nib1(w) && y@
            == nib2(w),
        Instruction::SetI { address } => nib0(w) == 0xA && address@ == addr_of(w),
        Instruction::GotoPlusV0 { address } => nib0(w) == 0xB && address@ == addr_of(w),
        Instruction::Rand { x, value } => nib0(w) == 0xC && x@ == nib1(w) && value == byte_of(w),
        Instruction::DrawSprite { x, y, height } => nib0(w) == 0xD && x@ == nib1(w) && y@ == nib2(
            w,
        ) && height@ == nib3(w),
        Instruction::KeyPressedSkip { x } => nib0(w) == 0xE && nib2(w) == 0x9 && nib3(w) == 0xE
            && x@ == nib1(w),
        Instruction::KeyReleasedSkip { x } => nib0(w) == 0xE && nib2(w) == 0xA && nib3(w) == 0x1
            && x@ == nib1(w),
        Instruction::GetDelayTimer { x } => nib0(w) == 0xF && nib2(w) == 0x0 && nib3(w) == 0x7
            && x@ == nib1(w),
        Instruction::AwaitKeyPress { x } => nib0(w) == 0xF && nib2(w) == 0x0 && nib3(w) == 0xA
            && x@ == nib1(w),
        Instruction::SetDelayTimer { x } => nib0(w) == 0xF && nib2(w) == 0x1 && nib3(w) == 0x5
            && x@ == nib1(w),
        Instruction::SetSoundTimer { x } => nib0(w) == 0xF && nib2(w) == 0x1 && nib3(w) == 0x8
            && x@ == nib1(w),
        Instruction::AddAssignAddress { x } => nib0(w) == 0xF && nib2(w) == 0x1 && nib3(w) == 0xE
            && x@ == nib1(w),
        Instruction::SetSpriteAddr { x } => nib0(w) == 0xF && nib2(w) == 0x2 && nib3(w) == 0x9
            && x@ == nib1(w),
        Instruction::SetBCD { x } => nib0(w) == 0xF && nib2(w) == 0x3 && nib3(w) == 0x3 && x@
            == nib1(w),
        Instruction::DumpRegisters { x } => nib0(w) == 0xF && nib2(w) == 0x5 && nib3(w) == 0x5
            && x@ == nib1(w),
        Instruction::LoadRegisters { x } => nib0(w) == 0xF && nib2(w) == 0x6 && nib3(w) == 0x5
            && x@ == nib1(w),
    }
}

/// The canonical word of an instruction, as an unbounded integer.
pub open spec fn encoding(i: Instruction) -> int {
    match i {
        Instruction::CallMachineCode { address } => address@ as int,
        Instruction::ClearDisplay => 0x00E0,
        Instruction::Return => 0x00EE,
        Instruction::Goto { address } => 0x1000 + address@,
        Instruction::CallSubroutine { address } => 0x2000 + address@,
        Instruction::EqConst { x, value } => 0x3000 + x@ * 256 + value,
        Instruction::NeqConst { x, value } => 0x4000 + x@ * 256 + value,
        Instruction::EqReg { x, y } => 0x5000 + x@ * 256 + y@ * 16,
        Instruction::AssignConst { x, value } => 0x6000 + x@ * 256 + value,
        Instruction::AddAssignConst { x, value } => 0x7000 + x@ * 256 + value,
        Instruction::AssignReg { x, y } => 0x8000 + x@ * 256 + y@ * 16,
        Instruction::OrReg { x, y } => 0x8001 + x@ * 256 + y@ * 16,
        Instruction::AndReg { x, y } => 0x8002 + x@ * 256 + y@ * 16,
        Instruction::XorReg { x, y } => 0x8003 + x@ * 256 + y@ * 16,
        Instruction::AddAssignReg { x, y } => 0x8004 + x@ * 256 + y@ * 16,
        Instruction::SubAssignReg { x, y } => 0x8005 + x@ * 256 + y@ * 16,
        Instruction::RShift { x, y } => 0x8006 + x@ * 256 + y@ * 16,
        Instruction::SubAssignRegInverse { x, y } => 0x8007 + x@ * 256 + y@ * 16,
        Instruction::LShift { x, y } => 0x800E + x@ * 256 + y@ * 16,
        Instruction::NeqReg { x, y } => 0x9000 + x@ * 256 + y@ * 16,
        Instruction::SetI { address } => 0xA000 + address@,
        Instruction::GotoPlusV0 { address } => 0xB000 + address@,
        Instruction::Rand { x, value } => 0xC000 + x@ * 256 + value,
        Instruction::DrawSprite { x, y, height } => 0xD000 + x@ * 256 + y@ * 16 + height@,
        Instruction::KeyPressedSkip { x } => 0xE09E + x@ * 256,
        Instruction::KeyReleasedSkip { x } => 0xE0A1 + x@ * 256,
        Instruction::GetDelayTimer { x } => 0xF007 + x@ * 256,
        Instruction::AwaitKeyPress { x } => 0xF00A + x@ * 256,
        Instruction::SetDelayTimer { x } => 0xF015 + x@ * 256,
        Instruction::SetSoundTimer { x } => 0xF018 + x@ * 256,
        Instruction::AddAssignAddress { x } => 0xF01E + x@ * 256,
        Instruction::SetSpriteAddr { x } => 0xF029 + x@ * 256,
        Instruction::SetBCD { x } => 0xF033 + x@ * 256,
        Instruction::DumpRegisters { x } => 0xF055 + x@ * 256,
        Instruction::LoadRegisters { x } => 0xF065 + x@ * 256,
    }
}

/// Decoding terminates on every word and, wherever it accepts, re-encoding
/// restores the word: decoding is injective on its accepted domain.
pub proof fn lemma_decode_encode(w: u16, i: Instruction)
    requires
        decodes_to(w, i),
    ensures
        accepted(w),
        encoding(i) == w as int,
{
    lemma_word_structure(w);
    if w == 0x00EE || w == 0x00E0 {
        assert(nib0(w) == 0 && nib1(w) == 0) by (bit_vector)
            requires
                w == 0x00EE || w == 0x00E0,
        ;
    }
}

impl Instruction {
    /// Decode a 16-bit word into the instruction it denotes, or report the
    /// word itself when it matches no pattern.
    pub fn decode(word: u16) -> (r: Result<Instruction, DecodeError>)
        ensures
            r is Ok <==> accepted(word),
            r matches Ok(i) ==> decodes_to(word, i),
            !accepted(word) ==> r == Err::<Instruction, DecodeError>(
                DecodeError::NoSuchInstruction(word),
            ),
    {
        proof {
            lemma_word_structure(word);
        }
        let n0: u8 = ((word >> 12) & 0xF) as u8;
        let n1: u8 = ((word >> 8) & 0xF) as u8;
        let n2: u8 = ((word >> 4) & 0xF) as u8;
        let n3: u8 = (word & 0xF) as u8;
        let address: u16 = word & 0xFFF;
        let value: u8 = (word & 0xFF) as u8;

        let instruction = if word == 0x00EE {
            Instruction::Return
        } else if word == 0x00E0 {
            Instruction::ClearDisplay
        } else if n0 == 0x0 {
            Instruction::CallMachineCode { address: Address::from_parts(address) }
        } else if n0 == 0x1 {
            Instruction::Goto { address: Address::from_parts(address) }
        } else if n0 == 0x2 {
            Instruction::CallSubroutine { address: Address::from_parts(address) }
        } else if n0 == 0x3 {
            Instruction::EqConst { x: Index::from_nibble(n1), value }
        } else if n0 == 0x4 {
            Instruction::NeqConst { x: Index::from_nibble(n1), value }
        } else if n0 == 0x5 && n3 == 0x0 {
            Instruction::EqReg { x: Index::from_nibble(n1), y: Index::from_nibble(n2) }
        } else if n0 == 0x6 {
            Instruction::AssignConst { x: Index::from_nibble(n1), value }
        } else if n0 == 0x7 {
            Instruction::AddAssignConst { x: Index::from_nibble(n1), value }
        } else if n0 == 0x8 && n3 == 0x0 {
            Instruction::AssignReg { x: Index::from_nibble(n1), y: Index::from_nibble(n2) }
        } else if n0 == 0x8 && n3 == 0x1 {
            Instruction::OrReg { x: Index::from_nibble(n1), y: Index::from_nibble(n2) }
        } else if n0 == 0x8 && n3 == 0x2 {
            Instruction::AndReg { x: Index::from_nibble(n1), y: Index::from_nibble(n2) }
        } else if n0 == 0x8 && n3 == 0x3 {
            Instruction::XorReg { x: Index::from_nibble(n1), y: Index::from_nibble(n2) }
        } else if n0 == 0x8 && n3 == 0x4 {
            Instruction::AddAssignReg { x: Index::from_nibble(n1), y: Index::from_nibble(n2) }
        } else if n0 == 0x8 && n3 == 0x5 {
            Instruction::SubAssignReg { x: Index::from_nibble(n1), y: Index::from_nibble(n2) }
        } else if n0 == 0x8 && n3 == 0x6 {
            Instruction::RShift { x: Index::from_nibble(n1), y: Index::from_nibble(n2) }
        } else if n0 == 0x8 && n3 == 0x7 {
            Instruction::SubAssignRegInverse {
                x: Index::from_nibble(n1),
                y: Index::from_nibble(n2),
            }
        } else if n0 == 0x8 && n3 == 0xE {
            Instruction::LShift { x: Index::from_nibble(n1), y: Index::from_nibble(n2) }
        } else if n0 == 0x9 && n3 == 0x0 {
            Instruction::NeqReg { x: Index::from_nibble(n1), y: Index::from_nibble(n2) }
        } else if n0 == 0xA {
            Instruction::SetI { address: Address::from_parts(address) }
        } else if n0 == 0xB {
            Instruction::GotoPlusV0 { address: Address::from_parts(address) }
        } else if n0 == 0xC {
            Instruction::Rand { x: Index::from_nibble(n1), value }
        } else if n0 == 0xD {
            Instruction::DrawSprite {
                x: Index::from_nibble(n1),
                y: Index::from_nibble(n2),
                height: SpriteHeight::from_nibble(n3),
            }
        } else if n0 == 0xE && n2 == 0x9 && n3 == 0xE {
            Instruction::KeyPressedSkip { x: Index::from_nibble(n1) }
        } else if n0 == 0xE && n2 == 0xA && n3 == 0x1 {
            Instruction::KeyReleasedSkip { x: Index::from_nibble(n1) }
        } else if n0 == 0xF && n2 == 0x0 && n3 == 0x7 {
            Instruction::GetDelayTimer { x: Index::from_nibble(n1) }
        } else if n0 == 0xF && n2 == 0x0 && n3 == 0xA {
            Instruction::AwaitKeyPress { x: Index::from_nibble(n1) }
        } else if n0 == 0xF && n2 == 0x1 && n3 == 0x5 {
            Instruction::SetDelayTimer { x: Index::from_nibble(n1) }
        } else if n0 == 0xF && n2 == 0x1 && n3 == 0x8 {
            Instruction::SetSoundTimer { x: Index::from_nibble(n1) }
        } else if n0 == 0xF && n2 == 0x1 && n3 == 0xE {
            Instruction::AddAssignAddress { x: Index::from_nibble(n1) }
        } else if n0 == 0xF && n2 == 0x2 && n3 == 0x9 {
            Instruction::SetSpriteAddr { x: Index::from_nibble(n1) }
        } else if n0 == 0xF && n2 == 0x3 && n3 == 0x3 {
            Instruction::SetBCD { x: Index::from_nibble(n1) }
        } else if n0 == 0xF && n2 == 0x5 && n3 == 0x5 {
            Instruction::DumpRegisters { x: Index::from_nibble(n1) }
        } else if n0 == 0xF && n2 == 0x6 && n3 == 0x5 {
            Instruction::LoadRegisters { x: Index::from_nibble(n1) }
        } else {
            return Err(DecodeError::NoSuchInstruction(word));
        };

        Ok(instruction)
    }

    /// The canonical word of this instruction: the inverse of decoding.
    pub fn encode(&self) -> (r: u16)
        ensures
            r as int == encoding(*self),
    {
        match *self {
            Instruction::CallMachineCode { address } => address.into_inner(),
            Instruction::ClearDisplay => 0x00E0,
            Instruction::Return => 0x00EE,
            Instruction::Goto { address } => 0x1000 + address.into_inner(),
            Instruction::CallSubroutine { address } => 0x2000 + address.into_inner(),
            Instruction::EqConst { x, value } => 0x3000 + (x.into_inner() as u16) * 256 + (
            value as u16),
            Instruction::NeqConst { x, value } => 0x4000 + (x.into_inner() as u16) * 256 + (
            value as u16),
            Instruction::EqReg { x, y } => 0x5000 + (x.into_inner() as u16) * 256 + (
            y.into_inner() as u16) * 16,
            Instruction::AssignConst { x, value } => 0x6000 + (x.into_inner() as u16) * 256 + (
            value as u16),
            Instruction::AddAssignConst { x, value } => 0x7000 + (x.into_inner() as u16) * 256 + (
            value as u16),
            Instruction::AssignReg { x, y } => 0x8000 + (x.into_inner() as u16) * 256 + (
            y.into_inner() as u16) * 16,
            Instruction::OrReg { x, y } => 0x8001 + (x.into_inner() as u16) * 256 + (
            y.into_inner() as u16) * 16,
            Instruction::AndReg { x, y } => 0x8002 + (x.into_inner() as u16) * 256 + (
            y.into_inner() as u16) * 16,
            Instruction::XorReg { x, y } => 0x8003 + (x.into_inner() as u16) * 256 + (
            y.into_inner() as u16) * 16,
            Instruction::AddAssignReg { x, y } => 0x8004 + (x.into_inner() as u16) * 256 + (
            y.into_inner() as u16) * 16,
            Instruction::SubAssignReg { x, y } => 0x8005 + (x.into_inner() as u16) * 256 + (
            y.into_inner() as u16) * 16,
            Instruction::RShift { x, y } => 0x8006 + (x.into_inner() as u16) * 256 + (
            y.into_inner() as u16) * 16,
            Instruction::SubAssignRegInverse { x, y } => 0x8007 + (x.into_inner() as u16) * 256 + (
            y.into_inner() as u16) * 16,
            Instruction::LShift { x, y } => 0x800E + (x.into_inner() as u16) * 256 + (
            y.into_inner() as u16) * 16,
            Instruction::NeqReg { x, y } => 0x9000 + (x.into_inner() as u16) * 256 + (
            y.into_inner() as u16) * 16,
            Instruction::SetI { address } => 0xA000 + address.into_inner(),
            Instruction::GotoPlusV0 { address } => 0xB000 + address.into_inner(),
            Instruction::Rand { x, value } => 0xC000 + (x.into_inner() as u16) * 256 + (
            value as u16),
            Instruction::DrawSprite { x, y, height } => 0xD000 + (x.into_inner() as u16) * 256 + (
            y.into_inner() as u16) * 16 + (height.into_inner() as u16),
            Instruction::KeyPressedSkip { x } => 0xE09E + (x.into_inner() as u16) * 256,
            Instruction::KeyReleasedSkip { x } => 0xE0A1 + (x.into_inner() as u16) * 256,
            Instruction::GetDelayTimer { x } => 0xF007 + (x.into_inner() as u16) * 256,
            Instruction::AwaitKeyPress { x } => 0xF00A + (x.into_inner() as u16) * 256,
            Instruction::SetDelayTimer { x } => 0xF015 + (x.into_inner() as u16) * 256,
            Instruction::SetSoundTimer { x } => 0xF018 + (x.into_inner() as u16) * 256,
            Instruction::AddAssignAddress { x } => 0xF01E + (x.into_inner() as u16) * 256,
            Instruction::SetSpriteAddr { x } => 0xF029 + (x.into_inner() as u16) * 256,
            Instruction::SetBCD { x } => 0xF033 + (x.into_inner() as u16) * 256,
            Instruction::DumpRegisters { x } => 0xF055 + (x.into_inner() as u16) * 256,
            Instruction::LoadRegisters { x } => 0xF065 + (x.into_inner() as u16) * 256,
        }
    }
}

} // verus!
