use vstd::prelude::*;

use crate::register::Register;

verus! {

/// One line of an assembly program: a label or an instruction with its operands.
#[derive(Debug, PartialEq, Eq)]
pub enum ASTNode {
    Label(String),
    Mov(ASTArg, ASTArg),
    Add(ASTArg, ASTArg),
    Sub(ASTArg, ASTArg),
    Mul(ASTArg, ASTArg),
    Shl(ASTArg, ASTArg),
    Shr(ASTArg, ASTArg),
    And(ASTArg, ASTArg),
    Or(ASTArg, ASTArg),
    Xor(ASTArg, ASTArg),
    Jne(ASTArg, ASTArg),
    Jeq(ASTArg, ASTArg),
    Jlt(ASTArg, ASTArg),
    Jgt(ASTArg, ASTArg),
    Jle(ASTArg, ASTArg),
    Jge(ASTArg, ASTArg),
    Not(ASTArg),
    Jmp(ASTArg),
    Psh(ASTArg),
    Pop(ASTArg),
    Cal(ASTArg),
    Inc(ASTArg),
    Dec(ASTArg),
    Sys(ASTArg),
    Ret,
    Hlt,
    Nop,
}

/// An operand of an instruction.
#[derive(Debug, PartialEq, Eq)]
pub enum ASTArg {
    /// A reference to a label defined elsewhere in the program.
    Label(String),
    /// A 16-bit literal.
    Lit(u16),
    /// A register.
    Reg(Register),
    /// A memory dereference of a literal, a label or a register.
    Mem(Box<ASTArg>),
    /// `base + mem[inner]` addressing, which the assembler does not accept yet.
    Offset(Box<ASTArg>, Box<ASTArg>),
}

impl ASTArg {
    /// A copy of the operand.
    pub fn copied(&self) -> (r: ASTArg)
        ensures
            r == *self,
        decreases self,
    {
        match self {
            ASTArg::Label(name) => ASTArg::Label(name.clone()),
            ASTArg::Lit(lit) => ASTArg::Lit(*lit),
            ASTArg::Reg(reg) => ASTArg::Reg(*reg),
            ASTArg::Mem(inner) => ASTArg::Mem(Box::new((**inner).copied())),
            ASTArg::Offset(base, inner) => ASTArg::Offset(
                Box::new((**base).copied()),
                Box::new((**inner).copied()),
            ),
        }
    }
}

impl Clone for ASTArg {
    fn clone(&self) -> ASTArg {
        self.copied()
    }
}

} // verus!
