//! Instruction decoding.
//!
//! A CHIP-8 instruction is a two-byte big-endian word. The high nibble
//! selects the instruction category; the remaining nibbles carry register
//! indices, an 8-bit immediate, a 4-bit immediate or a 12-bit address,
//! depending on the category. `decode` turns the two fetched bytes into an
//! `Instruction` and is proved equal to the specification-level
//! `spec_decode`.

use vstd::prelude::*;

verus! {

/// One decoded instruction. Register indices (`x`, `y`) are always low
/// nibbles and therefore below 16; `nnn` is a 12-bit address; `nn` an 8-bit
/// immediate; `n` a 4-bit immediate.
#[derive(Clone, Copy, PartialEq, Eq, Structural, Debug)]
pub enum Instruction {
    /// `00E0`: set every pixel of the display to unset.
    ClearScreen,
    /// `00EE`: pop a return address and continue there.
    Return,
    /// `1NNN`: set the program counter to `nnn`.
    Jump { nnn: u16 },
    /// `2NNN`: push the return address and jump to `nnn`.
    Call { nnn: u16 },
    /// `3XNN`: skip the next instruction if `VX == nn`.
    SkipEqImm { x: u8, nn: u8 },
    /// `4XNN`: skip the next instruction if `VX != nn`.
    SkipNeImm { x: u8, nn: u8 },
    /// `5XY0`: skip the next instruction if `VX == VY`.
    SkipEqReg { x: u8, y: u8 },
    /// `6XNN`: `VX = nn`.
    LoadImm { x: u8, nn: u8 },
    /// `7XNN`: `VX += nn` wrapping; the flag register is untouched.
    AddImm { x: u8, nn: u8 },
    /// `8XY0`: `VX = VY`.
    Assign { x: u8, y: u8 },
    /// `8XY1`: `VX |= VY`.
    Or { x: u8, y: u8 },
    /// `8XY2`: `VX &= VY`.
    And { x: u8, y: u8 },
    /// `8XY3`: `VX ^= VY`.
    Xor { x: u8, y: u8 },
    /// `8XY4`: `VX += VY` wrapping; `VF` = 1 on overflow, else 0.
    AddReg { x: u8, y: u8 },
    /// `8XY5`: `VX -= VY` wrapping; `VF` = 1 when there was no borrow.
    SubReg { x: u8, y: u8 },
    /// `8XY6`: `VF` = least significant bit of `VX`, then `VX >>= 1`.
    ShiftRight { x: u8 },
    /// `8XY7`: `VX = VY - VX` wrapping; `VF` = 1 when there was no borrow.
    SubFrom { x: u8, y: u8 },
    /// `8XYE`: `VF` = most significant bit of `VX`, then `VX <<= 1`.
    ShiftLeft { x: u8 },
    /// `9XY0`: skip the next instruction if `VX != VY`.
    SkipNeReg { x: u8, y: u8 },
    /// `ANNN`: set the index register to `nnn`.
    LoadIndex { nnn: u16 },
    /// `BNNN`: set the program counter to `nnn + V0`.
    JumpOffset { nnn: u16 },
    /// `CXNN`: `VX` = random byte AND `nn`.
    Random { x: u8, nn: u8 },
    /// `DXYN`: draw the `n`-byte sprite at the index register to
    /// `(VX, VY)` by XOR, setting `VF` on collision.
    Draw { x: u8, y: u8, n: u8 },
    /// `EX9E`: skip the next instruction if key `VX` is pressed.
    SkipKeyPressed { x: u8 },
    /// `EXA1`: skip the next instruction if key `VX` is not pressed.
    SkipKeyNotPressed { x: u8 },
    /// `FX07`: `VX` = delay timer.
    ReadDelay { x: u8 },
    /// `FX0A`: wait until a key is pressed; `VX` = that key.
    WaitKey { x: u8 },
    /// `FX15`: delay timer = `VX`.
    SetDelay { x: u8 },
    /// `FX18`: sound timer = `VX`.
    SetSound { x: u8 },
    /// `FX1E`: index register += `VX`, wrapping in 16 bits.
    AddIndex { x: u8 },
    /// `FX29`: index register = `VX * 5`, the glyph sprite address.
    GlyphIndex { x: u8 },
    /// `FX33`: store the decimal digits of `VX` at `I`, `I+1`, `I+2`.
    StoreBcd { x: u8 },
    /// `FX55`: store `V0..=VX` into memory starting at `I`.
    StoreRegs { x: u8 },
    /// `FX65`: load `V0..=VX` from memory starting at `I`, each register
    /// from its own offset.
    LoadRegs { x: u8 },
    /// Any opcode outside the instruction table.
    Unknown,
}

/// What `decode` returns for a fetched byte pair: the meaning of every
/// opcode, nibble by nibble.
pub open spec fn spec_decode(hi: u8, lo: u8) -> Instruction {
    let x = hi & 0x0F;
    let y = lo >> 4;
    let n = lo & 0x0F;
    let nnn = (((hi & 0x0F) as u16) << 8) | (lo as u16);
    match hi >> 4 {
        0x0 => if lo == 0xE0 {
            Instruction::ClearScreen
        } else if lo == 0xEE {
            Instruction::Return
        } else {
            Instruction::Unknown
        },
        0x1 => Instruction::Jump { nnn },
        0x2 => Instruction::Call { nnn },
        0x3 => Instruction::SkipEqImm { x, nn: lo },
        0x4 => Instruction::SkipNeImm { x, nn: lo },
        0x5 => if n == 0 {
            Instruction::SkipEqReg { x, y }
        } else {
            Instruction::Unknown
        },
        0x6 => Instruction::LoadImm { x, nn: lo },
        0x7 => Instruction::AddImm { x, nn: lo },
        0x8 => match n {
            0x0 => Instruction::Assign { x, y },
            0x1 => Instruction::Or { x, y },
            0x2 => Instruction::And { x, y },
            0x3 => Instruction::Xor { x, y },
            0x4 => Instruction::AddReg { x, y },
            0x5 => Instruction::SubReg { x, y },
            0x6 => Instruction::ShiftRight { x },
            0x7 => Instruction::SubFrom { x, y },
            0xE => Instruction::ShiftLeft { x },
            _ => Instruction::Unknown,
        },
        0x9 => if n == 0 {
            Instruction::SkipNeReg { x, y }
        } else {
            Instruction::Unknown
        },
        0xA => Instruction::LoadIndex { nnn },
        0xB => Instruction::JumpOffset { nnn },
        0xC => Instruction::Random { x, nn: lo },
        0xD => Instruction::Draw { x, y, n },
        0xE => if lo == 0x9E {
            Instruction::SkipKeyPressed { x }
        } else if lo == 0xA1 {
            Instruction::SkipKeyNotPressed { x }
        } else {
            Instruction::Unknown
        },
        0xF => match lo {
            0x07 => Instruction::ReadDelay { x },
            0x0A => Instruction::WaitKey { x },
            0x15 => Instruction::SetDelay { x },
            0x18 => Instruction::SetSound { x },
            0x1E => Instruction::AddIndex { x },
            0x29 => Instruction::GlyphIndex { x },
            0x33 => Instruction::StoreBcd { x },
            0x55 => Instruction::StoreRegs { x },
            0x65 => Instruction::LoadRegs { x },
            _ => Instruction::Unknown,
        },
        _ => Instruction::Unknown,
    }
}

/// A low nibble is a register index: always below 16.
pub proof fn lemma_low_nibble_bound(b: u8)
    by (bit_vector)
    ensures
        b & 0x0F < 16,
{
}

/// A high nibble, shifted down, is a register index: always below 16.
pub proof fn lemma_high_nibble_bound(b: u8)
    by (bit_vector)
    ensures
        b >> 4 < 16,
{
}

/// A 12-bit address assembled from a low nibble and a byte stays below 4096.
pub proof fn lemma_addr_bound(hi: u8, lo: u8)
    by (bit_vector)
    ensures
        (((hi & 0x0F) as u16) << 8) | (lo as u16) < 4096,
{
}

/// Bounds that every decoded instruction's fields satisfy: register
/// indices and 4-bit immediates below 16, addresses below 4096.
pub open spec fn wf_instr(i: Instruction) -> bool {
    match i {
        Instruction::ClearScreen => true,
        Instruction::Return => true,
        Instruction::Jump { nnn } => nnn < 4096,
        Instruction::Call { nnn } => nnn < 4096,
        Instruction::SkipEqImm { x, nn } => x < 16,
        Instruction::SkipNeImm { x, nn } => x < 16,
        Instruction::SkipEqReg { x, y } => x < 16 && y < 16,
        Instruction::LoadImm { x, nn } => x < 16,
        Instruction::AddImm { x, nn } => x < 16,
        Instruction::Assign { x, y } => x < 16 && y < 16,
        Instruction::Or { x, y } => x < 16 && y < 16,
        Instruction::And { x, y } => x < 16 && y < 16,
        Instruction::Xor { x, y } => x < 16 && y < 16,
        Instruction::AddReg { x, y } => x < 16 && y < 16,
        Instruction::SubReg { x, y } => x < 16 && y < 16,
        Instruction::ShiftRight { x } => x < 16,
        Instruction::SubFrom { x, y } => x < 16 && y < 16,
        Instruction::ShiftLeft { x } => x < 16,
        Instruction::SkipNeReg { x, y } => x < 16 && y < 16,
        Instruction::LoadIndex { nnn } => nnn < 4096,
        Instruction::JumpOffset { nnn } => nnn < 4096,
        Instruction::Random { x, nn } => x < 16,
        Instruction::Draw { x, y, n } => x < 16 && y < 16 && n < 16,
        Instruction::SkipKeyPressed { x } => x < 16,
        Instruction::SkipKeyNotPressed { x } => x < 16,
        Instruction::ReadDelay { x } => x < 16,
        Instruction::WaitKey { x } => x < 16,
        Instruction::SetDelay { x } => x < 16,
        Instruction::SetSound { x } => x < 16,
        Instruction::AddIndex { x } => x < 16,
        Instruction::GlyphIndex { x } => x < 16,
        Instruction::StoreBcd { x } => x < 16,
        Instruction::StoreRegs { x } => x < 16,
        Instruction::LoadRegs { x } => x < 16,
        Instruction::Unknown => true,
    }
}

/// Decode a fetched byte pair into an instruction.
pub fn decode(hi: u8, lo: u8) -> (r: Instruction)
    ensures
        r == spec_decode(hi, lo),
        wf_instr(r),
{
    proof {
        lemma_low_nibble_bound(hi);
        lemma_low_nibble_bound(lo);
        lemma_high_nibble_bound(lo);
        lemma_addr_bound(hi, lo);
    }
    let x = hi & 0x0F;
    let y = lo >> 4;
    let n = lo & 0x0F;
    let nnn = (((hi & 0x0F) as u16) << 8) | (lo as u16);
    match hi >> 4 {
        0x0 => if lo == 0xE0 {
            Instruction::ClearScreen
        } else if lo == 0xEE {
            Instruction::Return
        } else {
            Instruction::Unknown
        },
        0x1 => Instruction::Jump { nnn },
        0x2 => Instruction::Call { nnn },
        0x3 => Instruction::SkipEqImm { x, nn: lo },
        0x4 => Instruction::SkipNeImm { x, nn: lo },
        0x5 => if n == 0 {
            Instruction::SkipEqReg { x, y }
        } else {
            Instruction::Unknown
        },
        0x6 => Instruction::LoadImm { x, nn: lo },
        0x7 => Instruction::AddImm { x, nn: lo },
        0x8 => match n {
            0x0 => Instruction::Assign { x, y },
            0x1 => Instruction::Or { x, y },
            0x2 => Instruction::And { x, y },
            0x3 => Instruction::Xor { x, y },
            0x4 => Instruction::AddReg { x, y },
            0x5 => Instruction::SubReg { x, y },
            0x6 => Instruction::ShiftRight { x },
            0x7 => Instruction::SubFrom { x, y },
            0xE => Instruction::ShiftLeft { x },
            _ => Instruction::Unknown,
        },
        0x9 => if n == 0 {
            Instruction::SkipNeReg { x, y }
        } else {
            Instruction::Unknown
        },
        0xA => Instruction::LoadIndex { nnn },
        0xB => Instruction::JumpOffset { nnn },
        0xC => Instruction::Random { x, nn: lo },
        0xD => Instruction::Draw { x, y, n },
        0xE => if lo == 0x9E {
            Instruction::SkipKeyPressed { x }
        } else if lo == 0xA1 {
            Instruction::SkipKeyNotPressed { x }
        } else {
            Instruction::Unknown
        },
        0xF => match lo {
            0x07 => Instruction::ReadDelay { x },
            0x0A => Instruction::WaitKey { x },
            0x15 => Instruction::SetDelay { x },
            0x18 => Instruction::SetSound { x },
            0x1E => Instruction::AddIndex { x },
            0x29 => Instruction::GlyphIndex { x },
            0x33 => Instruction::StoreBcd { x },
            0x55 => Instruction::StoreRegs { x },
            0x65 => Instruction::LoadRegs { x },
            _ => Instruction::Unknown,
        },
        _ => Instruction::Unknown,
    }
}

} // verus!
