use vstd::prelude::*;

verus! {

/// An instruction of the CPU, encoded as a single tag byte followed by its operands.
#[derive(Debug, Clone, Copy, PartialEq, Eq, Structural)]
pub enum OpCode {
    /// No operation
    Nop,
    /// Moves the literal value into the register
    MovLitReg,
    /// Moves the value in the register into the register
    MovRegReg,
    /// Moves the value in the register into the memory location
    MovRegMem,
    /// Moves the value in the memory location into the register
    MovMemReg,
    /// Adds two registers and stores the result in the acc register
    AddRegReg,
    /// Jumps to the given address if the acc register is not equal to the given value
    JmpNELit,
    /// Pushes the value of the given register onto the stack
    PshReg,
    /// Pushes the value of the given literal onto the stack
    PshLit,
    /// Pops the value off the stack and stores it in the given register
    Pop,
    /// Calls the given literal address
    CalLit,
    /// Calls the given register address
    CalReg,
    /// Returns from the current function
    Ret,
    /// Halts the CPU
    Hlt,
    /// Moves the literal value into the memory location
    MovLitMem,
    /// Moves the word that the first register points to into the second register
    MovRegPtrReg,
    /// Adds the given literal with the given register and stores the result in the acc register
    AddLitReg,
    /// Subtracts the given register from the given literal and stores the result in the acc register
    SubLitReg,
    /// Subtracts the given literal from the given register and stores the result in the acc register
    SubRegLit,
    /// Subtracts the second register from the first and stores the result in the acc register
    SubRegReg,
    /// Multiplies the given literal with the given register and stores the result in the acc register
    MulLitReg,
    /// Multiplies the given register with the given register and stores the result in the acc register
    MulRegReg,
    /// Increments the given register by 1 in place
    IncReg,
    /// Decrements the given register by 1 in place
    DecReg,
    /// Shifts the given register left by the given amount in place
    ShlRegLit,
    /// Shifts the given register left by the given register in place
    ShlRegReg,
    /// Shifts the given register right by the given amount in place
    ShrRegLit,
    /// Shifts the given register right by the given register in place
    ShrRegReg,
    /// Bitwise ANDs the given register with the given literal in place
    AndRegLit,
    /// Bitwise ANDs the first register with the second in place
    AndRegReg,
    /// Bitwise ORs the given register with the given literal in place
    OrRegLit,
    /// Bitwise ORs the first register with the second in place
    OrRegReg,
    /// Bitwise XORs the given register with the given literal in place
    XorRegLit,
    /// Bitwise XORs the first register with the second in place
    XorRegReg,
    /// Bitwise NOTs the given register in place
    NotReg,
    /// Jumps to the given address if the acc register is not equal to the given register
    JmpNEReg,
    /// Jumps to the given address if the acc register is equal to the given literal
    JmpEQLit,
    /// Jumps to the given address if the acc register is equal to the given register
    JmpEQReg,
    /// Jumps to the given address if the acc register is less than the given literal
    JmpLTLit,
    /// Jumps to the given address if the acc register is less than the given register
    JmpLTReg,
    /// Jumps to the given address if the acc register is greater than the given literal
    JmpGTLit,
    /// Jumps to the given address if the acc register is greater than the given register
    JmpGTReg,
    /// Jumps to the given address if the acc register is at most the given literal
    JmpLELit,
    /// Jumps to the given address if the acc register is at most the given register
    JmpLEReg,
    /// Jumps to the given address if the acc register is at least the given literal
    JmpGELit,
    /// Jumps to the given address if the acc register is at least the given register
    JmpGEReg,
    /// Jumps to the given address
    Jmp,
    /// Host call with a one-byte number; it has no effect yet
    SysLit,
}

/// The tag byte of each instruction.
pub open spec fn opcode_byte(op: OpCode) -> u8 {
    match op {
        OpCode::Nop => 0x00,
        OpCode::MovLitReg => 0x10,
        OpCode::MovRegReg => 0x11,
        OpCode::MovRegMem => 0x12,
        OpCode::MovMemReg => 0x13,
        OpCode::AddRegReg => 0x14,
        OpCode::JmpNELit => 0x15,
        OpCode::PshReg => 0x16,
        OpCode::PshLit => 0x17,
        OpCode::Pop => 0x18,
        OpCode::CalLit => 0x19,
        OpCode::CalReg => 0x1A,
        OpCode::Ret => 0x1B,
        OpCode::Hlt => 0x1C,
        OpCode::MovLitMem => 0x1D,
        OpCode::MovRegPtrReg => 0x1E,
        OpCode::AddLitReg => 0x20,
        OpCode::SubLitReg => 0x21,
        OpCode::SubRegLit => 0x22,
        OpCode::SubRegReg => 0x23,
        OpCode::MulLitReg => 0x24,
        OpCode::MulRegReg => 0x25,
        OpCode::IncReg => 0x26,
        OpCode::DecReg => 0x27,
        OpCode::ShlRegLit => 0x28,
        OpCode::ShlRegReg => 0x29,
        OpCode::ShrRegLit => 0x2A,
        OpCode::ShrRegReg => 0x2B,
        OpCode::AndRegLit => 0x2C,
        OpCode::AndRegReg => 0x2D,
        OpCode::OrRegLit => 0x2E,
        OpCode::OrRegReg => 0x2F,
        OpCode::XorRegLit => 0x30,
        OpCode::XorRegReg => 0x31,
        OpCode::NotReg => 0x32,
        OpCode::JmpNEReg => 0x33,
        OpCode::JmpEQLit => 0x34,
        OpCode::JmpEQReg => 0x35,
        OpCode::JmpLTLit => 0x36,
        OpCode::JmpLTReg => 0x37,
        OpCode::JmpGTLit => 0x38,
        OpCode::JmpGTReg => 0x39,
        OpCode::JmpLELit => 0x3A,
        OpCode::JmpLEReg => 0x3B,
        OpCode::JmpGELit => 0x3C,
        OpCode::JmpGEReg => 0x3D,
        OpCode::Jmp => 0x3E,
        OpCode::SysLit => 0x3F,
    }
}

/// The instruction that a tag byte stands for; bytes that no instruction is
/// assigned decode to `Nop`.
pub open spec fn decode_byte(b: u8) -> OpCode {
    match b {
        0x10 => OpCode::MovLitReg,
        0x11 => OpCode::MovRegReg,
        0x12 => OpCode::MovRegMem,
        0x13 => OpCode::MovMemReg,
        0x14 => OpCode::AddRegReg,
        0x15 => OpCode::JmpNELit,
        0x16 => OpCode::PshReg,
        0x17 => OpCode::PshLit,
        0x18 => OpCode::Pop,
        0x19 => OpCode::CalLit,
        0x1A => OpCode::CalReg,
        0x1B => OpCode::Ret,
        0x1C => OpCode::Hlt,
        0x1D => OpCode::MovLitMem,
        0x1E => OpCode::MovRegPtrReg,
        0x20 => OpCode::AddLitReg,
        0x21 => OpCode::SubLitReg,
        0x22 => OpCode::SubRegLit,
        0x23 => OpCode::SubRegReg,
        0x24 => OpCode::MulLitReg,
        0x25 => OpCode::MulRegReg,
        0x26 => OpCode::IncReg,
        0x27 => OpCode::DecReg,
        0x28 => OpCode::ShlRegLit,
        0x29 => OpCode::ShlRegReg,
        0x2A => OpCode::ShrRegLit,
        0x2B => OpCode::ShrRegReg,
        0x2C => OpCode::AndRegLit,
        0x2D => OpCode::AndRegReg,
        0x2E => OpCode::OrRegLit,
        0x2F => OpCode::OrRegReg,
        0x30 => OpCode::XorRegLit,
        0x31 => OpCode::XorRegReg,
        0x32 => OpCode::NotReg,
        0x33 => OpCode::JmpNEReg,
        0x34 => OpCode::JmpEQLit,
        0x35 => OpCode::JmpEQReg,
        0x36 => OpCode::JmpLTLit,
        0x37 => OpCode::JmpLTReg,
        0x38 => OpCode::JmpGTLit,
        0x39 => OpCode::JmpGTReg,
        0x3A => OpCode::JmpLELit,
        0x3B => OpCode::JmpLEReg,
        0x3C => OpCode::JmpGELit,
        0x3D => OpCode::JmpGEReg,
        0x3E => OpCode::Jmp,
        0x3F => OpCode::SysLit,
        _ => OpCode::Nop,
    }
}

/// Decoding the tag byte of an instruction gives that instruction back.
pub proof fn lemma_opcode_round_trip(op: OpCode)
    ensures
        decode_byte(opcode_byte(op)) == op,
{
}

/// A byte decodes to `Nop` exactly when it is `Nop`'s tag or no instruction's tag.
pub proof fn lemma_decode_tolerant(b: u8)
    ensures
        decode_byte(b) == OpCode::Nop <==> (b == 0 || forall|op: OpCode| opcode_byte(op) != b),
{
    if decode_byte(b) != OpCode::Nop {
        lemma_opcode_round_trip(decode_byte(b));
    } else if b != 0 {
        assert forall|op: OpCode| opcode_byte(op) != b by {
            lemma_opcode_round_trip(op);
        }
    }
}

impl OpCode {
    /// The tag byte of the instruction.
    pub fn to_byte(self) -> (r: u8)
        ensures
            r == opcode_byte(self),
    {
        match self {
            OpCode::Nop => 0x00,
            OpCode::MovLitReg => 0x10,
            OpCode::MovRegReg => 0x11,
            OpCode::MovRegMem => 0x12,
            OpCode::MovMemReg => 0x13,
            OpCode::AddRegReg => 0x14,
            OpCode::JmpNELit => 0x15,
            OpCode::PshReg => 0x16,
            OpCode::PshLit => 0x17,
            OpCode::Pop => 0x18,
            OpCode::CalLit => 0x19,
            OpCode::CalReg => 0x1A,
            OpCode::Ret => 0x1B,
            OpCode::Hlt => 0x1C,
            OpCode::MovLitMem => 0x1D,
            OpCode::MovRegPtrReg => 0x1E,
            OpCode::AddLitReg => 0x20,
            OpCode::SubLitReg => 0x21,
            OpCode::SubRegLit => 0x22,
            OpCode::SubRegReg => 0x23,
            OpCode::MulLitReg => 0x24,
            OpCode::MulRegReg => 0x25,
            OpCode::IncReg => 0x26,
            OpCode::DecReg => 0x27,
            OpCode::ShlRegLit => 0x28,
            OpCode::ShlRegReg => 0x29,
            OpCode::ShrRegLit => 0x2A,
            OpCode::ShrRegReg => 0x2B,
            OpCode::AndRegLit => 0x2C,
            OpCode::AndRegReg => 0x2D,
            OpCode::OrRegLit => 0x2E,
            OpCode::OrRegReg => 0x2F,
            OpCode::XorRegLit => 0x30,
            OpCode::XorRegReg => 0x31,
            OpCode::NotReg => 0x32,
            OpCode::JmpNEReg => 0x33,
            OpCode::JmpEQLit => 0x34,
            OpCode::JmpEQReg => 0x35,
            OpCode::JmpLTLit => 0x36,
            OpCode::JmpLTReg => 0x37,
            OpCode::JmpGTLit => 0x38,
            OpCode::JmpGTReg => 0x39,
            OpCode::JmpLELit => 0x3A,
            OpCode::JmpLEReg => 0x3B,
            OpCode::JmpGELit => 0x3C,
            OpCode::JmpGEReg => 0x3D,
            OpCode::Jmp => 0x3E,
            OpCode::SysLit => 0x3F,
        }
    }

    /// The instruction that a tag byte stands for, `Nop` for an unassigned byte.
    pub fn from_byte(b: u8) -> (r: OpCode)
        ensures
            r == decode_byte(b),
    {
        match b {
            0x10 => OpCode::MovLitReg,
            0x11 => OpCode::MovRegReg,
            0x12 => OpCode::MovRegMem,
            0x13 => OpCode::MovMemReg,
            0x14 => OpCode::AddRegReg,
            0x15 => OpCode::JmpNELit,
            0x16 => OpCode::PshReg,
            0x17 => OpCode::PshLit,
            0x18 => OpCode::Pop,
            0x19 => OpCode::CalLit,
            0x1A => OpCode::CalReg,
            0x1B => OpCode::Ret,
            0x1C => OpCode::Hlt,
            0x1D => OpCode::MovLitMem,
            0x1E => OpCode::MovRegPtrReg,
            0x20 => OpCode::AddLitReg,
            0x21 => OpCode::SubLitReg,
            0x22 => OpCode::SubRegLit,
            0x23 => OpCode::SubRegReg,
            0x24 => OpCode::MulLitReg,
            0x25 => OpCode::MulRegReg,
            0x26 => OpCode::IncReg,
            0x27 => OpCode::DecReg,
            0x28 => OpCode::ShlRegLit,
            0x29 => OpCode::ShlRegReg,
            0x2A => OpCode::ShrRegLit,
            0x2B => OpCode::ShrRegReg,
            0x2C => OpCode::AndRegLit,
            0x2D => OpCode::AndRegReg,
            0x2E => OpCode::OrRegLit,
            0x2F => OpCode::OrRegReg,
            0x30 => OpCode::XorRegLit,
            0x31 => OpCode::XorRegReg,
            0x32 => OpCode::NotReg,
            0x33 => OpCode::JmpNEReg,
            0x34 => OpCode::JmpEQLit,
            0x35 => OpCode::JmpEQReg,
            0x36 => OpCode::JmpLTLit,
            0x37 => OpCode::JmpLTReg,
            0x38 => OpCode::JmpGTLit,
            0x39 => OpCode::JmpGTReg,
            0x3A => OpCode::JmpLELit,
            0x3B => OpCode::JmpLEReg,
            0x3C => OpCode::JmpGELit,
            0x3D => OpCode::JmpGEReg,
            0x3E => OpCode::Jmp,
            0x3F => OpCode::SysLit,
            _ => OpCode::Nop,
        }
    }
}

impl From<OpCode> for u8 {
    fn from(op: OpCode) -> u8 {
        op.to_byte()
    }
}

impl vstd::std_specs::convert::FromSpecImpl<OpCode> for u8 {
    open spec fn obeys_from_spec() -> bool {
        true
    }

    open spec fn from_spec(op: OpCode) -> u8 {
        opcode_byte(op)
    }
}

impl From<u8> for OpCode {
    fn from(value: u8) -> OpCode {
        OpCode::from_byte(value)
    }
}

impl vstd::std_specs::convert::FromSpecImpl<u8> for OpCode {
    open spec fn obeys_from_spec() -> bool {
        true
    }

    open spec fn from_spec(value: u8) -> OpCode {
        decode_byte(value)
    }
}

} // verus!
