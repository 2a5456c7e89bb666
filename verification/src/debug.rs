//! Read-only introspection helpers for an external inspector.
//!
//! `get_opcode_description` names, in words, the instruction a fetched
//! byte pair decodes to. It mutates nothing and is specified against the
//! same decoder the engine executes with, so the description shown in an
//! inspector can never disagree with what the engine would do.

use crate::decode::{decode, spec_decode, Instruction};
use vstd::prelude::*;
use vstd::string::StringExecFns;

verus! {

/// The description text for each decoded instruction.
pub open spec fn opcode_description(instr: Instruction) -> Seq<char> {
    match instr {
        Instruction::ClearScreen => "Clear screen"@,
        Instruction::Return => "Return from subroutine"@,
        Instruction::Jump { nnn } => "Jump to address"@,
        Instruction::Call { nnn } => "Call subroutine"@,
        Instruction::SkipEqImm { x, nn } => "Skip next instruction if register equals constant"@,
        Instruction::SkipNeImm { x, nn } => (
        "Skip next instruction if register differs from constant"@),
        Instruction::SkipEqReg { x, y } => "Skip next instruction if registers are equal"@,
        Instruction::LoadImm { x, nn } => "Set register to constant"@,
        Instruction::AddImm { x, nn } => "Add constant to register without carry"@,
        Instruction::Assign { x, y } => "Copy register into register"@,
        Instruction::Or { x, y } => "Bitwise or of two registers"@,
        Instruction::And { x, y } => "Bitwise and of two registers"@,
        Instruction::Xor { x, y } => "Bitwise xor of two registers"@,
        Instruction::AddReg { x, y } => "Add register to register with carry flag"@,
        Instruction::SubReg { x, y } => "Subtract register from register with borrow flag"@,
        Instruction::ShiftRight { x } => "Shift register right into flag"@,
        Instruction::SubFrom { x, y } => "Subtract register from register reversed"@,
        Instruction::ShiftLeft { x } => "Shift register left into flag"@,
        Instruction::SkipNeReg { x, y } => "Skip next instruction if registers differ"@,
        Instruction::LoadIndex { nnn } => "Set index register to address"@,
        Instruction::JumpOffset { nnn } => "Jump to address plus value in register zero"@,
        Instruction::Random { x, nn } => "Set register to random value masked with constant"@,
        Instruction::Draw { x, y, n } => "Draw sprite at register coordinates"@,
        Instruction::SkipKeyPressed { x } => "Skip next instruction if key is pressed"@,
        Instruction::SkipKeyNotPressed { x } => "Skip next instruction if key is not pressed"@,
        Instruction::ReadDelay { x } => "Set register to delay timer value"@,
        Instruction::WaitKey { x } => "Halt until a key is pressed and store the key"@,
        Instruction::SetDelay { x } => "Set delay timer to register value"@,
        Instruction::SetSound { x } => "Set sound timer to register value"@,
        Instruction::AddIndex { x } => "Add register value to index register"@,
        Instruction::GlyphIndex { x } => "Set index register to glyph sprite of register value"@,
        Instruction::StoreBcd { x } => "Store decimal digits of register at index register"@,
        Instruction::StoreRegs { x } => "Store registers into memory from index register"@,
        Instruction::LoadRegs { x } => "Load registers from memory at index register"@,
        Instruction::Unknown => "Invalid opcode"@,
    }
}

/// Describe the instruction the two fetched bytes decode to, for display
/// in an external inspector.
pub fn get_opcode_description(opcode_first: u8, opcode_second: u8) -> (r: String)
    ensures
        r@ == opcode_description(spec_decode(opcode_first, opcode_second)),
{
    match decode(opcode_first, opcode_second) {
        Instruction::ClearScreen => String::from_str("Clear screen"),
        Instruction::Return => String::from_str("Return from subroutine"),
        Instruction::Jump { nnn } => String::from_str("Jump to address"),
        Instruction::Call { nnn } => String::from_str("Call subroutine"),
        Instruction::SkipEqImm { x, nn } => String::from_str(
            "Skip next instruction if register equals constant",
        ),
        Instruction::SkipNeImm { x, nn } => String::from_str(
            "Skip next instruction if register differs from constant",
        ),
        Instruction::SkipEqReg { x, y } => String::from_str(
            "Skip next instruction if registers are equal",
        ),
        Instruction::LoadImm { x, nn } => String::from_str("Set register to constant"),
        Instruction::AddImm { x, nn } => String::from_str("Add constant to register without carry"),
        Instruction::Assign { x, y } => String::from_str("Copy register into register"),
        Instruction::Or { x, y } => String::from_str("Bitwise or of two registers"),
        Instruction::And { x, y } => String::from_str("Bitwise and of two registers"),
        Instruction::Xor { x, y } => String::from_str("Bitwise xor of two registers"),
        Instruction::AddReg { x, y } => String::from_str(
            "Add register to register with carry flag",
        ),
        Instruction::SubReg { x, y } => String::from_str(
            "Subtract register from register with borrow flag",
        ),
        Instruction::ShiftRight { x } => String::from_str("Shift register right into flag"),
        Instruction::SubFrom { x, y } => String::from_str(
            "Subtract register from register reversed",
        ),
        Instruction::ShiftLeft { x } => String::from_str("Shift register left into flag"),
        Instruction::SkipNeReg { x, y } => String::from_str(
            "Skip next instruction if registers differ",
        ),
        Instruction::LoadIndex { nnn } => String::from_str("Set index register to address"),
        Instruction::JumpOffset { nnn } => String::from_str(
            "Jump to address plus value in register zero",
        ),
        Instruction::Random { x, nn } => String::from_str(
            "Set register to random value masked with constant",
        ),
        Instruction::Draw { x, y, n } => String::from_str("Draw sprite at register coordinates"),
        Instruction::SkipKeyPressed { x } => String::from_str(
            "Skip next instruction if key is pressed",
        ),
        Instruction::SkipKeyNotPressed { x } => String::from_str(
            "Skip next instruction if key is not pressed",
        ),
        Instruction::ReadDelay { x } => String::from_str("Set register to delay timer value"),
        Instruction::WaitKey { x } => String::from_str(
            "Halt until a key is pressed and store the key",
        ),
        Instruction::SetDelay { x } => String::from_str("Set delay timer to register value"),
        Instruction::SetSound { x } => String::from_str("Set sound timer to register value"),
        Instruction::AddIndex { x } => String::from_str("Add register value to index register"),
        Instruction::GlyphIndex { x } => String::from_str(
            "Set index register to glyph sprite of register value",
        ),
        Instruction::StoreBcd { x } => String::from_str(
            "Store decimal digits of register at index register",
        ),
        Instruction::StoreRegs { x } => String::from_str(
            "Store registers into memory from index register",
        ),
        Instruction::LoadRegs { x } => String::from_str(
            "Load registers from memory at index register",
        ),
        Instruction::Unknown => String::from_str("Invalid opcode"),
    }
}

} // verus!
