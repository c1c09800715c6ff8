//! Instruction words and their decoding.

use vstd::prelude::*;

verus! {

/// The four 4-bit fields of an instruction word, most significant first.
pub open spec fn nibbles(op_code: u16) -> (u8, u8, u8, u8) {
    (
        (op_code / 0x1000) as u8,
        (op_code / 0x100 % 0x10) as u8,
        (op_code / 0x10 % 0x10) as u8,
        (op_code % 0x10) as u8,
    )
}

/// The 12-bit address operand: the low twelve bits of the word.
pub open spec fn address_operand(op_code: u16) -> u16 {
    op_code % 0x1000
}

/// The 8-bit immediate operand: the low eight bits of the word.
pub open spec fn byte_operand(op_code: u16) -> u8 {
    (op_code % 0x100) as u8
}

/// Splits an instruction word into its four nibbles.
pub fn decompose_opcode(op_code: u16) -> (fields: (u8, u8, u8, u8))
    ensures
        fields == nibbles(op_code),
{
    let c = ((op_code & 0xF000) >> 12) as u8;
    let x = ((op_code & 0x0F00) >> 8) as u8;
    let y = ((op_code & 0x00F0) >> 4) as u8;
    let d = (op_code & 0x000F) as u8;
    assert(((op_code & 0xF000) >> 12) == op_code / 0x1000 && op_code / 0x1000 < 16) by (bit_vector);
    assert(((op_code & 0x0F00) >> 8) == op_code / 0x100 % 0x10 < 16) by (bit_vector);
    assert(((op_code & 0x00F0) >> 4) == op_code / 0x10 % 0x10 < 16) by (bit_vector);
    assert((op_code & 0x000F) == op_code % 0x10 < 16) by (bit_vector);
    (c, x, y, d)
}

/// One instruction of the machine, with its operands.
///
/// `x` and `y` name registers, `kk` is an immediate byte and `address` a
/// 12-bit memory address.
#[derive(Clone, Copy, Debug, PartialEq, Eq, Structural)]
pub enum Instruction {
    /// `0000`: stop the run loop.
    Halt,
    /// `00E0`: switch every pixel off.
    ClearDisplay,
    /// `00EE`: return from a subroutine.
    Return,
    /// `1nnn`: jump to `address`.
    Jump { address: u16 },
    /// `2nnn`: call the subroutine at `address`.
    Call { address: u16 },
    /// `3xkk`: skip the next instruction if register `x` holds `kk`.
    SkipIfEqual { x: u8, kk: u8 },
    /// `4xkk`: skip the next instruction if register `x` does not hold `kk`.
    SkipIfDifferent { x: u8, kk: u8 },
    /// `5xy0`: skip the next instruction if registers `x` and `y` are equal.
    SkipIfEqualRegisters { x: u8, y: u8 },
    /// `6xkk`: load `kk` into register `x`.
    Load { x: u8, kk: u8 },
    /// `7xkk`: add `kk` to register `x`, wrapping, without touching the flag.
    AddConstant { x: u8, kk: u8 },
    /// `8xy0`: copy register `y` into register `x`.
    Copy { x: u8, y: u8 },
    /// `8xy1`: bitwise OR of registers `x` and `y`, into `x`.
    Or { x: u8, y: u8 },
    /// `8xy2`: bitwise AND of registers `x` and `y`, into `x`.
    And { x: u8, y: u8 },
    /// `8xy3`: bitwise XOR of registers `x` and `y`, into `x`.
    Xor { x: u8, y: u8 },
    /// `8xy4`: add register `y` to register `x`; the flag receives the carry.
    AddRegisters { x: u8, y: u8 },
    /// `8xy5`: subtract register `y` from register `x`; the flag receives the
    /// borrow.
    SubRegisters { x: u8, y: u8 },
    /// `8xy6`: shift register `x` right by one; the flag receives the bit
    /// shifted out.
    ShiftRight { x: u8 },
    /// `8xy7`: store register `y` minus register `x` in `x`; the flag
    /// receives the borrow.
    SubRegistersSwapped { x: u8, y: u8 },
    /// `8xyE`: shift register `x` left by one; the flag receives the bit
    /// shifted out.
    ShiftLeft { x: u8 },
    /// `9xy0`: skip the next instruction if registers `x` and `y` differ.
    SkipIfDifferentRegisters { x: u8, y: u8 },
    /// `Annn`: set the address register to `address`.
    SetPointer { address: u16 },
    /// `Bnnn`: jump to `address` plus the value of register 0.
    OffsetJump { address: u16 },
    /// `Cxkk`: set register `x` to a random byte masked with `kk`.
    Random { x: u8, kk: u8 },
    /// `Dxyd`: draw a sprite of `rows` rows at the position held in
    /// registers `x` and `y`.
    Draw { x: u8, y: u8, rows: u8 },
    /// `Fx0A`: wait for a key and store its value in register `x`.
    WaitForKey { x: u8 },
    /// `Fx1E`: add register `x` to the address register.
    AddToPointer { x: u8 },
    /// `Fx29`: point the address register at the glyph of the digit held in
    /// register `x`.
    PointToFontChar { x: u8 },
    /// `Fx33`: store the decimal digits of register `x` in memory.
    StoreBcd { x: u8 },
    /// `Fx55`: store registers 0 to `x` in memory.
    StoreRegisters { x: u8 },
    /// `Fx65`: load registers 0 to `x` from memory.
    LoadRegisters { x: u8 },
}

impl Instruction {
    /// Every operand fits the field that carries it in an instruction word.
    pub open spec fn well_formed(self) -> bool {
        match self {
            Instruction::Halt | Instruction::ClearDisplay | Instruction::Return => true,
            Instruction::Jump { address }
            | Instruction::Call { address }
            | Instruction::SetPointer { address }
            | Instruction::OffsetJump { address } => address < 0x1000,
            Instruction::SkipIfEqual { x, kk }
            | Instruction::SkipIfDifferent { x, kk }
            | Instruction::Load { x, kk }
            | Instruction::AddConstant { x, kk }
            | Instruction::Random { x, kk } => x < 16,
            Instruction::SkipIfEqualRegisters { x, y }
            | Instruction::Copy { x, y }
            | Instruction::Or { x, y }
            | Instruction::And { x, y }
            | Instruction::Xor { x, y }
            | Instruction::AddRegisters { x, y }
            | Instruction::SubRegisters { x, y }
            | Instruction::SubRegistersSwapped { x, y }
            | Instruction::SkipIfDifferentRegisters { x, y } => x < 16 && y < 16,
            Instruction::Draw { x, y, rows } => x < 16 && y < 16 && rows < 16,
            Instruction::ShiftRight { x }
            | Instruction::ShiftLeft { x }
            | Instruction::WaitForKey { x }
            | Instruction::AddToPointer { x }
            | Instruction::PointToFontChar { x }
            | Instruction::StoreBcd { x }
            | Instruction::StoreRegisters { x }
            | Instruction::LoadRegisters { x } => x < 16,
        }
    }

    /// The instruction word that stands for this instruction. Where the
    /// instruction ignores a field of the word, the field is zero.
    pub open spec fn encode(self) -> int {
        match self {
            Instruction::Halt => 0x0000,
            Instruction::ClearDisplay => 0x00E0,
            Instruction::Return => 0x00EE,
            Instruction::Jump { address } => 0x1000 + address,
            Instruction::Call { address } => 0x2000 + address,
            Instruction::SkipIfEqual { x, kk } => 0x3000 + 0x100 * x + kk,
            Instruction::SkipIfDifferent { x, kk } => 0x4000 + 0x100 * x + kk,
            Instruction::SkipIfEqualRegisters { x, y } => 0x5000 + 0x100 * x + 0x10 * y,
            Instruction::Load { x, kk } => 0x6000 + 0x100 * x + kk,
            Instruction::AddConstant { x, kk } => 0x7000 + 0x100 * x + kk,
            Instruction::Copy { x, y } => 0x8000 + 0x100 * x + 0x10 * y,
            Instruction::Or { x, y } => 0x8001 + 0x100 * x + 0x10 * y,
            Instruction::And { x, y } => 0x8002 + 0x100 * x + 0x10 * y,
            Instruction::Xor { x, y } => 0x8003 + 0x100 * x + 0x10 * y,
            Instruction::AddRegisters { x, y } => 0x8004 + 0x100 * x + 0x10 * y,
            Instruction::SubRegisters { x, y } => 0x8005 + 0x100 * x + 0x10 * y,
            Instruction::ShiftRight { x } => 0x8006 + 0x100 * x,
            Instruction::SubRegistersSwapped { x, y } => 0x8007 + 0x100 * x + 0x10 * y,
            Instruction::ShiftLeft { x } => 0x800E + 0x100 * x,
            Instruction::SkipIfDifferentRegisters { x, y } => 0x9000 + 0x100 * x + 0x10 * y,
            Instruction::SetPointer { address } => 0xA000 + address,
            Instruction::OffsetJump { address } => 0xB000 + address,
            Instruction::Random { x, kk } => 0xC000 + 0x100 * x + kk,
            Instruction::Draw { x, y, rows } => 0xD000 + 0x100 * x + 0x10 * y + rows,
            Instruction::WaitForKey { x } => 0xF00A + 0x100 * x,
            Instruction::AddToPointer { x } => 0xF01E + 0x100 * x,
            Instruction::PointToFontChar { x } => 0xF029 + 0x100 * x,
            Instruction::StoreBcd { x } => 0xF033 + 0x100 * x,
            Instruction::StoreRegisters { x } => 0xF055 + 0x100 * x,
            Instruction::LoadRegisters { x } => 0xF065 + 0x100 * x,
        }
    }
}

/// The instruction that a word stands for, or `None` where the word matches
/// no pattern of the instruction table.
pub open spec fn decode_spec(op_code: u16) -> Option<Instruction> {
    let (c, x, y, d) = nibbles(op_code);
    let address = address_operand(op_code);
    let kk = byte_operand(op_code);
    if c == 0x0 {
        if op_code == 0x0000 {
            Some(Instruction::Halt)
        } else if op_code == 0x00E0 {
            Some(Instruction::ClearDisplay)
        } else if op_code == 0x00EE {
            Some(Instruction::Return)
        } else {
            None
        }
    } else if c == 0x1 {
        Some(Instruction::Jump { address })
    } else if c == 0x2 {
        Some(Instruction::Call { address })
    } else if c == 0x3 {
        Some(Instruction::SkipIfEqual { x, kk })
    } else if c == 0x4 {
        Some(Instruction::SkipIfDifferent { x, kk })
    } else if c == 0x5 {
        if d == 0 {
            Some(Instruction::SkipIfEqualRegisters { x, y })
        } else {
            None
        }
    } else if c == 0x6 {
        Some(Instruction::Load { x, kk })
    } else if c == 0x7 {
        Some(Instruction::AddConstant { x, kk })
    } else if c == 0x8 {
        if d == 0x0 {
            Some(Instruction::Copy { x, y })
        } else if d == 0x1 {
            Some(Instruction::Or { x, y })
        } else if d == 0x2 {
            Some(Instruction::And { x, y })
        } else if d == 0x3 {
            Some(Instruction::Xor { x, y })
        } else if d == 0x4 {
            Some(Instruction::AddRegisters { x, y })
        } else if d == 0x5 {
            Some(Instruction::SubRegisters { x, y })
        } else if d == 0x6 {
            Some(Instruction::ShiftRight { x })
        } else if d == 0x7 {
            Some(Instruction::SubRegistersSwapped { x, y })
        } else if d == 0xE {
            Some(Instruction::ShiftLeft { x })
        } else {
            None
        }
    } else if c == 0x9 {
        if d == 0 {
            Some(Instruction::SkipIfDifferentRegisters { x, y })
        } else {
            None
        }
    } else if c == 0xA {
        Some(Instruction::SetPointer { address })
    } else if c == 0xB {
        Some(Instruction::OffsetJump { address })
    } else if c == 0xC {
        Some(Instruction::Random { x, kk })
    } else if c == 0xD {
        Some(Instruction::Draw { x, y, rows: d })
    } else if c == 0xF {
        if kk == 0x0A {
            Some(Instruction::WaitForKey { x })
        } else if kk == 0x1E {
            Some(Instruction::AddToPointer { x })
        } else if kk == 0x29 {
            Some(Instruction::PointToFontChar { x })
        } else if kk == 0x33 {
            Some(Instruction::StoreBcd { x })
        } else if kk == 0x55 {
            Some(Instruction::StoreRegisters { x })
        } else if kk == 0x65 {
            Some(Instruction::LoadRegisters { x })
        } else {
            None
        }
    } else {
        None
    }
}

/// Decodes an instruction word.
pub fn decode(op_code: u16) -> (instruction: Option<Instruction>)
    ensures
        instruction == decode_spec(op_code),
{
    let (c, x, y, d) = decompose_opcode(op_code);
    let nnn = op_code & 0x0FFF;
    let kk = (op_code & 0x00FF) as u8;
    assert(op_code & 0x0FFF == op_code % 0x1000) by (bit_vector);
    assert(op_code & 0x00FF == op_code % 0x100 < 0x100) by (bit_vector);
    match (c, x, y, d) {
        (0x0, 0x0, 0x0, 0x0) => Some(Instruction::Halt),
        (0x0, 0x0, 0xE, 0x0) => Some(Instruction::ClearDisplay),
        (0x0, 0x0, 0xE, 0xE) => Some(Instruction::Return),
        (0x1, _, _, _) => Some(Instruction::Jump { address: nnn }),
        (0x2, _, _, _) => Some(Instruction::Call { address: nnn }),
        (0x3, _, _, _) => Some(Instruction::SkipIfEqual { x, kk }),
        (0x4, _, _, _) => Some(Instruction::SkipIfDifferent { x, kk }),
        (0x5, _, _, 0x0) => Some(Instruction::SkipIfEqualRegisters { x, y }),
        (0x6, _, _, _) => Some(Instruction::Load { x, kk }),
        (0x7, _, _, _) => Some(Instruction::AddConstant { x, kk }),
        (0x8, _, _, 0x0) => Some(Instruction::Copy { x, y }),
        (0x8, _, _, 0x1) => Some(Instruction::Or { x, y }),
        (0x8, _, _, 0x2) => Some(Instruction::And { x, y }),
        (0x8, _, _, 0x3) => Some(Instruction::Xor { x, y }),
        (0x8, _, _, 0x4) => Some(Instruction::AddRegisters { x, y }),
        (0x8, _, _, 0x5) => Some(Instruction::SubRegisters { x, y }),
        (0x8, _, _, 0x6) => Some(Instruction::ShiftRight { x }),
        (0x8, _, _, 0x7) => Some(Instruction::SubRegistersSwapped { x, y }),
        (0x8, _, _, 0xE) => Some(Instruction::ShiftLeft { x }),
        (0x9, _, _, 0x0) => Some(Instruction::SkipIfDifferentRegisters { x, y }),
        (0xA, _, _, _) => Some(Instruction::SetPointer { address: nnn }),
        (0xB, _, _, _) => Some(Instruction::OffsetJump { address: nnn }),
        (0xC, _, _, _) => Some(Instruction::Random { x, kk }),
        (0xD, _, _, _) => Some(Instruction::Draw { x, y, rows: d }),
        (0xF, _, 0x0, 0xA) => Some(Instruction::WaitForKey { x }),
        (0xF, _, 0x1, 0xE) => Some(Instruction::AddToPointer { x }),
        (0xF, _, 0x2, 0x9) => Some(Instruction::PointToFontChar { x }),
        (0xF, _, 0x3, 0x3) => Some(Instruction::StoreBcd { x }),
        (0xF, _, 0x5, 0x5) => Some(Instruction::StoreRegisters { x }),
        (0xF, _, 0x6, 0x5) => Some(Instruction::LoadRegisters { x }),
        _ => None,
    }
}

/// A word is the sum of its four nibbles, each weighted by its place, and its
/// two operands are the sums of the low three and the low two.
pub proof fn lemma_word_is_sum_of_nibbles(op_code: u16)
    by (bit_vector)
    ensures
        op_code / 0x1000 < 0x10,
        op_code == 0x1000 * (op_code / 0x1000) + 0x100 * (op_code / 0x100 % 0x10) + 0x10 * (op_code
            / 0x10 % 0x10) + op_code % 0x10,
        op_code % 0x1000 == 0x100 * (op_code / 0x100 % 0x10) + 0x10 * (op_code / 0x10 % 0x10)
            + op_code % 0x10,
        op_code % 0x100 == 0x10 * (op_code / 0x10 % 0x10) + op_code % 0x10,
{
}

/// The fields of the word made of a leading nibble `c`, a register nibble `x`
/// and a low byte `kk`.
pub proof fn lemma_fields_of_word(c: u16, x: u16, kk: u16)
    by (bit_vector)
    requires
        c < 0x10,
        x < 0x10,
        kk < 0x100,
    ensures
        (0x1000 * c + 0x100 * x + kk) as u16 == 0x1000 * c + 0x100 * x + kk,
        (0x1000 * c + 0x100 * x + kk) as u16 / 0x1000 == c,
        (0x1000 * c + 0x100 * x + kk) as u16 / 0x100 % 0x10 == x,
        (0x1000 * c + 0x100 * x + kk) as u16 / 0x10 % 0x10 == kk / 0x10,
        (0x1000 * c + 0x100 * x + kk) as u16 % 0x10 == kk % 0x10,
        (0x1000 * c + 0x100 * x + kk) as u16 % 0x100 == kk,
        (0x1000 * c + 0x100 * x + kk) as u16 % 0x1000 == 0x100 * x + kk,
{
}

/// Decoding yields only instructions whose operands fit their fields. A
/// decoded instruction encodes back to the word it came from, but for the
/// field that the two shifts ignore, their `y` nibble.
pub proof fn lemma_decode_sound(op_code: u16)
    ensures
        decode_spec(op_code) matches Some(instruction) ==> {
            &&& instruction.well_formed()
            &&& match instruction {
                Instruction::ShiftRight { x } | Instruction::ShiftLeft { x } =>
                    instruction.encode() == op_code - 0x10 * nibbles(op_code).2,
                _ => instruction.encode() == op_code,
            }
        },
{
    lemma_word_is_sum_of_nibbles(op_code);
}

/// Every instruction whose operands fit their fields is decoded from its own
/// encoding.
pub proof fn lemma_decode_encode(instruction: Instruction)
    requires
        instruction.well_formed(),
    ensures
        0 <= instruction.encode() < 0x10000,
        decode_spec(instruction.encode() as u16) == Some(instruction),
{
    match instruction {
        Instruction::Halt => lemma_fields_of_word(0x0, 0x0, 0x00),
        Instruction::ClearDisplay => lemma_fields_of_word(0x0, 0x0, 0xE0),
        Instruction::Return => lemma_fields_of_word(0x0, 0x0, 0xEE),
        Instruction::Jump { address } => lemma_fields_of_word(0x1, address / 0x100, address % 0x100),
        Instruction::Call { address } => lemma_fields_of_word(0x2, address / 0x100, address % 0x100),
        Instruction::SkipIfEqual { x, kk } => lemma_fields_of_word(0x3, x as u16, kk as u16),
        Instruction::SkipIfDifferent { x, kk } => lemma_fields_of_word(0x4, x as u16, kk as u16),
        Instruction::SkipIfEqualRegisters { x, y } => lemma_fields_of_word(
            0x5,
            x as u16,
            (0x10 * y) as u16,
        ),
        Instruction::Load { x, kk } => lemma_fields_of_word(0x6, x as u16, kk as u16),
        Instruction::AddConstant { x, kk } => lemma_fields_of_word(0x7, x as u16, kk as u16),
        Instruction::Copy { x, y } => lemma_fields_of_word(0x8, x as u16, (0x10 * y) as u16),
        Instruction::Or { x, y } => lemma_fields_of_word(0x8, x as u16, (0x10 * y + 0x1) as u16),
        Instruction::And { x, y } => lemma_fields_of_word(0x8, x as u16, (0x10 * y + 0x2) as u16),
        Instruction::Xor { x, y } => lemma_fields_of_word(0x8, x as u16, (0x10 * y + 0x3) as u16),
        Instruction::AddRegisters { x, y } => lemma_fields_of_word(
            0x8,
            x as u16,
            (0x10 * y + 0x4) as u16,
        ),
        Instruction::SubRegisters { x, y } => lemma_fields_of_word(
            0x8,
            x as u16,
            (0x10 * y + 0x5) as u16,
        ),
        Instruction::ShiftRight { x } => lemma_fields_of_word(0x8, x as u16, 0x06),
        Instruction::SubRegistersSwapped { x, y } => lemma_fields_of_word(
            0x8,
            x as u16,
            (0x10 * y + 0x7) as u16,
        ),
        Instruction::ShiftLeft { x } => lemma_fields_of_word(0x8, x as u16, 0x0E),
        Instruction::SkipIfDifferentRegisters { x, y } => lemma_fields_of_word(
            0x9,
            x as u16,
            (0x10 * y) as u16,
        ),
        Instruction::SetPointer { address } => lemma_fields_of_word(
            0xA,
            address / 0x100,
            address % 0x100,
        ),
        Instruction::OffsetJump { address } => lemma_fields_of_word(
            0xB,
            address / 0x100,
            address % 0x100,
        ),
        Instruction::Random { x, kk } => lemma_fields_of_word(0xC, x as u16, kk as u16),
        Instruction::Draw { x, y, rows } => lemma_fields_of_word(
            0xD,
            x as u16,
            (0x10 * y + rows) as u16,
        ),
        Instruction::WaitForKey { x } => lemma_fields_of_word(0xF, x as u16, 0x0A),
        Instruction::AddToPointer { x } => lemma_fields_of_word(0xF, x as u16, 0x1E),
        Instruction::PointToFontChar { x } => lemma_fields_of_word(0xF, x as u16, 0x29),
        Instruction::StoreBcd { x } => lemma_fields_of_word(0xF, x as u16, 0x33),
        Instruction::StoreRegisters { x } => lemma_fields_of_word(0xF, x as u16, 0x55),
        Instruction::LoadRegisters { x } => lemma_fields_of_word(0xF, x as u16, 0x65),
    }
}

} // verus!
