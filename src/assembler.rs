use vstd::prelude::*;

use crate::ast::{ASTArg, ASTNode};
use crate::memory::{zeros, Memory, MemoryBuilder, MAX_MEMORY};
use crate::opcodes::{opcode_byte, OpCode};
use crate::register::Register;
use crate::semantics::{read16, write16};
use crate::{hi_byte, lemma_be16_round_trip, lo_byte, to_be_bytes};

verus! {

/// Translates a parsed program into a memory image.
pub struct Assembler;

/// The faults that assembling reports.
#[derive(Debug)]
pub enum AssemblerError {
    /// The source text does not follow the grammar.
    Parser(String),
    /// A label that is referred to but never defined.
    InvalidLabel(String),
    /// An operand whose kind the instruction does not take.
    InvalidArgument(ASTArg),
    /// The program does not fit in memory.
    ProgramTooLarge,
}

/// A part of an encoded instruction: a byte, or a two-byte slot that will hold
/// the address of a label.
#[derive(Debug)]
pub enum Piece {
    Byte(u8),
    Label(String),
}

/// The number of bytes that a sequence of pieces takes.
pub open spec fn pieces_len(ps: Seq<Piece>) -> nat
    decreases ps.len(),
{
    if ps.len() == 0 {
        0
    } else {
        pieces_len(ps.drop_last()) + match ps.last() {
            Piece::Byte(_) => 1nat,
            Piece::Label(_) => 2nat,
        }
    }
}

/// The tag byte of an instruction.
pub open spec fn op_piece(op: OpCode) -> Piece {
    Piece::Byte(opcode_byte(op))
}

/// A register operand: its index.
pub open spec fn reg_piece(r: Register) -> Piece {
    Piece::Byte(r.index() as u8)
}

/// A literal operand: its two bytes, big-endian.
pub open spec fn lit_pieces(l: u16) -> Seq<Piece> {
    seq![Piece::Byte(hi_byte(l)), Piece::Byte(lo_byte(l))]
}

/// `Mov`: literal or register into a register, register into memory at a
/// literal or label address, memory at such an address into a register. A
/// memory operand that holds a register, on either side, takes the pointer form.
pub open spec fn mov_form(a1: ASTArg, a2: ASTArg) -> Result<Seq<Piece>, ASTArg> {
    match a1 {
        ASTArg::Lit(l) => match a2 {
            ASTArg::Reg(r) => Ok(seq![op_piece(OpCode::MovLitReg)] + lit_pieces(l) + seq![reg_piece(r)]),
            _ => Err(a1),
        },
        ASTArg::Reg(r1) => match a2 {
            ASTArg::Reg(r2) => Ok(seq![op_piece(OpCode::MovRegReg), reg_piece(r1), reg_piece(r2)]),
            ASTArg::Mem(m) => match *m {
                ASTArg::Label(name) => Ok(
                    seq![op_piece(OpCode::MovRegMem), reg_piece(r1), Piece::Label(name)],
                ),
                ASTArg::Lit(l) => Ok(seq![op_piece(OpCode::MovRegMem), reg_piece(r1)] + lit_pieces(l)),
                ASTArg::Reg(p) => Ok(seq![op_piece(OpCode::MovRegPtrReg), reg_piece(r1), reg_piece(p)]),
                _ => Err(a2),
            },
            _ => Err(a1),
        },
        ASTArg::Mem(m) => match a2 {
            ASTArg::Reg(r2) => match *m {
                ASTArg::Label(name) => Ok(
                    seq![op_piece(OpCode::MovMemReg), Piece::Label(name), reg_piece(r2)],
                ),
                ASTArg::Lit(l) => Ok(seq![op_piece(OpCode::MovMemReg)] + lit_pieces(l) + seq![reg_piece(r2)]),
                ASTArg::Reg(p) => Ok(seq![op_piece(OpCode::MovRegPtrReg), reg_piece(p), reg_piece(r2)]),
                _ => Err(a1),
            },
            _ => Err(a1),
        },
        _ => Err(a1),
    }
}

/// `Add` and `Mul`: a register or a literal with a register, result in `ACC`.
pub open spec fn acc_form(a: ASTArg, dst: ASTArg, rr: OpCode, lr: OpCode) -> Result<Seq<Piece>, ASTArg> {
    match dst {
        ASTArg::Reg(d) => match a {
            ASTArg::Reg(s) => Ok(seq![op_piece(rr), reg_piece(s), reg_piece(d)]),
            ASTArg::Lit(l) => Ok(seq![op_piece(lr)] + lit_pieces(l) + seq![reg_piece(d)]),
            _ => Err(a),
        },
        _ => Err(dst),
    }
}

/// `Sub`: register and register, register and literal, or literal and register;
/// the last is encoded with the register-literal tag and its operands as written.
pub open spec fn sub_form(a1: ASTArg, a2: ASTArg) -> Result<Seq<Piece>, ASTArg> {
    match a1 {
        ASTArg::Reg(r1) => match a2 {
            ASTArg::Reg(r2) => Ok(seq![op_piece(OpCode::SubRegReg), reg_piece(r1), reg_piece(r2)]),
            ASTArg::Lit(l) => Ok(seq![op_piece(OpCode::SubRegLit), reg_piece(r1)] + lit_pieces(l)),
            _ => Err(a1),
        },
        ASTArg::Lit(l) => match a2 {
            ASTArg::Reg(r2) => Ok(seq![op_piece(OpCode::SubRegLit)] + lit_pieces(l) + seq![reg_piece(r2)]),
            _ => Err(a1),
        },
        _ => Err(a1),
    }
}

/// Shifts and bitwise operations: a register changed in place by a register or
/// a literal.
pub open spec fn inplace_form(dst: ASTArg, a: ASTArg, rr: OpCode, rl: OpCode) -> Result<Seq<Piece>, ASTArg> {
    match dst {
        ASTArg::Reg(d) => match a {
            ASTArg::Reg(s) => Ok(seq![op_piece(rr), reg_piece(d), reg_piece(s)]),
            ASTArg::Lit(l) => Ok(seq![op_piece(rl), reg_piece(d)] + lit_pieces(l)),
            _ => Err(a),
        },
        _ => Err(dst),
    }
}

/// Conditional jumps: the target label's address first, then the literal or
/// register compared with `ACC`.
pub open spec fn jump_form(target: ASTArg, a: ASTArg, lit_op: OpCode, reg_op: OpCode) -> Result<Seq<Piece>, ASTArg> {
    match target {
        ASTArg::Label(name) => match a {
            ASTArg::Lit(l) => Ok(seq![op_piece(lit_op), Piece::Label(name)] + lit_pieces(l)),
            ASTArg::Reg(r) => Ok(seq![op_piece(reg_op), Piece::Label(name), reg_piece(r)]),
            _ => Err(a),
        },
        _ => Err(target),
    }
}

/// An instruction with one register operand.
pub open spec fn reg_form(a: ASTArg, op: OpCode) -> Result<Seq<Piece>, ASTArg> {
    match a {
        ASTArg::Reg(r) => Ok(seq![op_piece(op), reg_piece(r)]),
        _ => Err(a),
    }
}

/// The encoding of one instruction, or the operand whose kind it does not take.
pub open spec fn encode_spec(node: ASTNode) -> Result<Seq<Piece>, ASTArg> {
    match node {
        ASTNode::Label(_) => Ok(Seq::empty()),
        ASTNode::Mov(a1, a2) => mov_form(a1, a2),
        ASTNode::Add(a, r) => acc_form(a, r, OpCode::AddRegReg, OpCode::AddLitReg),
        ASTNode::Sub(a1, a2) => sub_form(a1, a2),
        ASTNode::Mul(a, r) => acc_form(a, r, OpCode::MulRegReg, OpCode::MulLitReg),
        ASTNode::Shl(r, a) => inplace_form(r, a, OpCode::ShlRegReg, OpCode::ShlRegLit),
        ASTNode::Shr(r, a) => inplace_form(r, a, OpCode::ShrRegReg, OpCode::ShrRegLit),
        ASTNode::And(r, a) => inplace_form(r, a, OpCode::AndRegReg, OpCode::AndRegLit),
        ASTNode::Or(r, a) => inplace_form(r, a, OpCode::OrRegReg, OpCode::OrRegLit),
        ASTNode::Xor(r, a) => inplace_form(r, a, OpCode::XorRegReg, OpCode::XorRegLit),
        ASTNode::Jne(t, a) => jump_form(t, a, OpCode::JmpNELit, OpCode::JmpNEReg),
        ASTNode::Jeq(t, a) => jump_form(t, a, OpCode::JmpEQLit, OpCode::JmpEQReg),
        ASTNode::Jlt(t, a) => jump_form(t, a, OpCode::JmpLTLit, OpCode::JmpLTReg),
        ASTNode::Jgt(t, a) => jump_form(t, a, OpCode::JmpGTLit, OpCode::JmpGTReg),
        ASTNode::Jle(t, a) => jump_form(t, a, OpCode::JmpLELit, OpCode::JmpLEReg),
        ASTNode::Jge(t, a) => jump_form(t, a, OpCode::JmpGELit, OpCode::JmpGEReg),
        ASTNode::Not(r) => reg_form(r, OpCode::NotReg),
        ASTNode::Jmp(t) => match t {
            ASTArg::Label(name) => Ok(seq![op_piece(OpCode::Jmp), Piece::Label(name)]),
            _ => Err(t),
        },
        ASTNode::Psh(a) => match a {
            ASTArg::Lit(l) => Ok(seq![op_piece(OpCode::PshLit)] + lit_pieces(l)),
            ASTArg::Reg(r) => Ok(seq![op_piece(OpCode::PshReg), reg_piece(r)]),
            _ => Err(a),
        },
        ASTNode::Pop(r) => reg_form(r, OpCode::Pop),
        ASTNode::Cal(a) => match a {
            ASTArg::Lit(l) => Ok(seq![op_piece(OpCode::CalLit)] + lit_pieces(l)),
            ASTArg::Reg(r) => Ok(seq![op_piece(OpCode::CalReg), reg_piece(r)]),
            ASTArg::Label(name) => Ok(seq![op_piece(OpCode::CalLit), Piece::Label(name)]),
            _ => Err(a),
        },
        ASTNode::Inc(r) => reg_form(r, OpCode::IncReg),
        ASTNode::Dec(r) => reg_form(r, OpCode::DecReg),
        ASTNode::Sys(a) => match a {
            ASTArg::Lit(l) => Ok(seq![op_piece(OpCode::SysLit), Piece::Byte(lo_byte(l))]),
            _ => Err(a),
        },
        ASTNode::Ret => Ok(seq![op_piece(OpCode::Ret)]),
        ASTNode::Hlt => Ok(seq![op_piece(OpCode::Hlt)]),
        ASTNode::Nop => Ok(seq![op_piece(OpCode::Nop)]),
    }
}

/// Whether an encoding computed by the assembler is the one specified.
pub open spec fn agrees(r: Result<Vec<Piece>, ASTArg>, s: Result<Seq<Piece>, ASTArg>) -> bool {
    match r {
        Ok(v) => s == Ok::<Seq<Piece>, ASTArg>(v@),
        Err(e) => s == Err::<Seq<Piece>, ASTArg>(e),
    }
}

fn op_byte(op: OpCode) -> (p: Piece)
    ensures
        p == op_piece(op),
{
    Piece::Byte(op.to_byte())
}

fn reg_byte(r: &Register) -> (p: Piece)
    ensures
        p == reg_piece(*r),
{
    Piece::Byte(r.to_index() as u8)
}

fn push_lit(v: &mut Vec<Piece>, l: u16)
    ensures
        final(v)@ == old(v)@ + lit_pieces(l),
{
    let bytes = to_be_bytes(l);
    v.push(Piece::Byte(bytes[0]));
    v.push(Piece::Byte(bytes[1]));
    assert(final(v)@ =~= old(v)@ + lit_pieces(l));
}

/// A tag alone.
fn op_only(op: OpCode) -> (v: Vec<Piece>)
    ensures
        v@ == seq![op_piece(op)],
{
    let v = vec![op_byte(op)];
    assert(v@ =~= seq![op_piece(op)]);
    v
}

/// Tag and register.
fn op_reg(op: OpCode, r: &Register) -> (v: Vec<Piece>)
    ensures
        v@ == seq![op_piece(op), reg_piece(*r)],
{
    let v = vec![op_byte(op), reg_byte(r)];
    assert(v@ =~= seq![op_piece(op), reg_piece(*r)]);
    v
}

/// Tag and the slot of a label's address.
fn op_label(op: OpCode, name: &String) -> (v: Vec<Piece>)
    ensures
        v@ == seq![op_piece(op), Piece::Label(*name)],
{
    let v = vec![op_byte(op), Piece::Label(name.clone())];
    assert(v@ =~= seq![op_piece(op), Piece::Label(*name)]);
    v
}

/// Tag, literal, register.
fn op_lit_reg(op: OpCode, l: u16, r: &Register) -> (v: Vec<Piece>)
    ensures
        v@ == seq![op_piece(op)] + lit_pieces(l) + seq![reg_piece(*r)],
{
    let mut v = vec![op_byte(op)];
    push_lit(&mut v, l);
    v.push(reg_byte(r));
    assert(v@ =~= seq![op_piece(op)] + lit_pieces(l) + seq![reg_piece(*r)]);
    v
}

/// Tag and literal, after an optional register.
fn op_reg_lit(op: OpCode, r: &Register, l: u16) -> (v: Vec<Piece>)
    ensures
        v@ == seq![op_piece(op), reg_piece(*r)] + lit_pieces(l),
{
    let mut v = vec![op_byte(op), reg_byte(r)];
    push_lit(&mut v, l);
    v
}

/// Tag and literal.
fn op_lit(op: OpCode, l: u16) -> (v: Vec<Piece>)
    ensures
        v@ == seq![op_piece(op)] + lit_pieces(l),
{
    let mut v = vec![op_byte(op)];
    push_lit(&mut v, l);
    v
}

fn mov_pieces(a1: &ASTArg, a2: &ASTArg) -> (r: Result<Vec<Piece>, ASTArg>)
    ensures
        agrees(r, mov_form(*a1, *a2)),
{
    match a1 {
        ASTArg::Lit(l) => match a2 {
            ASTArg::Reg(r) => Ok(op_lit_reg(OpCode::MovLitReg, *l, r)),
            _ => Err(a1.copied()),
        },
        ASTArg::Reg(r1) => match a2 {
            ASTArg::Reg(r2) => Ok(vec![op_byte(OpCode::MovRegReg), reg_byte(r1), reg_byte(r2)]),
            ASTArg::Mem(m) => match &**m {
                ASTArg::Label(name) => Ok(
                    vec![op_byte(OpCode::MovRegMem), reg_byte(r1), Piece::Label(name.clone())],
                ),
                ASTArg::Lit(l) => Ok(op_reg_lit(OpCode::MovRegMem, r1, *l)),
                ASTArg::Reg(p) => Ok(vec![op_byte(OpCode::MovRegPtrReg), reg_byte(r1), reg_byte(p)]),
                _ => Err(a2.copied()),
            },
            _ => Err(a1.copied()),
        },
        ASTArg::Mem(m) => match a2 {
            ASTArg::Reg(r2) => match &**m {
                ASTArg::Label(name) => Ok(
                    vec![op_byte(OpCode::MovMemReg), Piece::Label(name.clone()), reg_byte(r2)],
                ),
                ASTArg::Lit(l) => Ok(op_lit_reg(OpCode::MovMemReg, *l, r2)),
                ASTArg::Reg(p) => Ok(vec![op_byte(OpCode::MovRegPtrReg), reg_byte(p), reg_byte(r2)]),
                _ => Err(a1.copied()),
            },
            _ => Err(a1.copied()),
        },
        _ => Err(a1.copied()),
    }
}

fn acc_pieces(a: &ASTArg, dst: &ASTArg, rr: OpCode, lr: OpCode) -> (r: Result<Vec<Piece>, ASTArg>)
    ensures
        agrees(r, acc_form(*a, *dst, rr, lr)),
{
    match dst {
        ASTArg::Reg(d) => match a {
            ASTArg::Reg(s) => Ok(vec![op_byte(rr), reg_byte(s), reg_byte(d)]),
            ASTArg::Lit(l) => Ok(op_lit_reg(lr, *l, d)),
            _ => Err(a.copied()),
        },
        _ => Err(dst.copied()),
    }
}

fn sub_pieces(a1: &ASTArg, a2: &ASTArg) -> (r: Result<Vec<Piece>, ASTArg>)
    ensures
        agrees(r, sub_form(*a1, *a2)),
{
    match a1 {
        ASTArg::Reg(r1) => match a2 {
            ASTArg::Reg(r2) => Ok(vec![op_byte(OpCode::SubRegReg), reg_byte(r1), reg_byte(r2)]),
            ASTArg::Lit(l) => Ok(op_reg_lit(OpCode::SubRegLit, r1, *l)),
            _ => Err(a1.copied()),
        },
        ASTArg::Lit(l) => match a2 {
            ASTArg::Reg(r2) => Ok(op_lit_reg(OpCode::SubRegLit, *l, r2)),
            _ => Err(a1.copied()),
        },
        _ => Err(a1.copied()),
    }
}

fn inplace_pieces(dst: &ASTArg, a: &ASTArg, rr: OpCode, rl: OpCode) -> (r: Result<Vec<Piece>, ASTArg>)
    ensures
        agrees(r, inplace_form(*dst, *a, rr, rl)),
{
    match dst {
        ASTArg::Reg(d) => match a {
            ASTArg::Reg(s) => Ok(vec![op_byte(rr), reg_byte(d), reg_byte(s)]),
            ASTArg::Lit(l) => Ok(op_reg_lit(rl, d, *l)),
            _ => Err(a.copied()),
        },
        _ => Err(dst.copied()),
    }
}

fn jump_pieces(target: &ASTArg, a: &ASTArg, lit_op: OpCode, reg_op: OpCode) -> (r: Result<Vec<Piece>, ASTArg>)
    ensures
        agrees(r, jump_form(*target, *a, lit_op, reg_op)),
{
    match target {
        ASTArg::Label(name) => match a {
            ASTArg::Lit(l) => {
                let mut v = vec![op_byte(lit_op), Piece::Label(name.clone())];
                push_lit(&mut v, *l);
                Ok(v)
            },
            ASTArg::Reg(r) => Ok(vec![op_byte(reg_op), Piece::Label(name.clone()), reg_byte(r)]),
            _ => Err(a.copied()),
        },
        _ => Err(target.copied()),
    }
}

fn reg_pieces(a: &ASTArg, op: OpCode) -> (r: Result<Vec<Piece>, ASTArg>)
    ensures
        agrees(r, reg_form(*a, op)),
{
    match a {
        ASTArg::Reg(r) => Ok(op_reg(op, r)),
        _ => Err(a.copied()),
    }
}

/// The encoding of one instruction, or the operand whose kind it does not take.
fn encode(node: &ASTNode) -> (r: Result<Vec<Piece>, ASTArg>)
    ensures
        agrees(r, encode_spec(*node)),
        r matches Ok(v) ==> v@.len() <= 5,
{
    match node {
        ASTNode::Label(_) => {
            let v: Vec<Piece> = Vec::new();
            assert(v@ =~= Seq::<Piece>::empty());
            Ok(v)
        },
        ASTNode::Mov(a1, a2) => mov_pieces(a1, a2),
        ASTNode::Add(a, r) => acc_pieces(a, r, OpCode::AddRegReg, OpCode::AddLitReg),
        ASTNode::Sub(a1, a2) => sub_pieces(a1, a2),
        ASTNode::Mul(a, r) => acc_pieces(a, r, OpCode::MulRegReg, OpCode::MulLitReg),
        ASTNode::Shl(r, a) => inplace_pieces(r, a, OpCode::ShlRegReg, OpCode::ShlRegLit),
        ASTNode::Shr(r, a) => inplace_pieces(r, a, OpCode::ShrRegReg, OpCode::ShrRegLit),
        ASTNode::And(r, a) => inplace_pieces(r, a, OpCode::AndRegReg, OpCode::AndRegLit),
        ASTNode::Or(r, a) => inplace_pieces(r, a, OpCode::OrRegReg, OpCode::OrRegLit),
        ASTNode::Xor(r, a) => inplace_pieces(r, a, OpCode::XorRegReg, OpCode::XorRegLit),
        ASTNode::Jne(t, a) => jump_pieces(t, a, OpCode::JmpNELit, OpCode::JmpNEReg),
        ASTNode::Jeq(t, a) => jump_pieces(t, a, OpCode::JmpEQLit, OpCode::JmpEQReg),
        ASTNode::Jlt(t, a) => jump_pieces(t, a, OpCode::JmpLTLit, OpCode::JmpLTReg),
        ASTNode::Jgt(t, a) => jump_pieces(t, a, OpCode::JmpGTLit, OpCode::JmpGTReg),
        ASTNode::Jle(t, a) => jump_pieces(t, a, OpCode::JmpLELit, OpCode::JmpLEReg),
        ASTNode::Jge(t, a) => jump_pieces(t, a, OpCode::JmpGELit, OpCode::JmpGEReg),
        ASTNode::Not(r) => reg_pieces(r, OpCode::NotReg),
        ASTNode::Jmp(t) => match t {
            ASTArg::Label(name) => Ok(op_label(OpCode::Jmp, name)),
            _ => Err(t.copied()),
        },
        ASTNode::Psh(a) => match a {
            ASTArg::Lit(l) => Ok(op_lit(OpCode::PshLit, *l)),
            ASTArg::Reg(r) => Ok(op_reg(OpCode::PshReg, r)),
            _ => Err(a.copied()),
        },
        ASTNode::Pop(r) => reg_pieces(r, OpCode::Pop),
        ASTNode::Cal(a) => match a {
            ASTArg::Lit(l) => Ok(op_lit(OpCode::CalLit, *l)),
            ASTArg::Reg(r) => Ok(op_reg(OpCode::CalReg, r)),
            ASTArg::Label(name) => Ok(op_label(OpCode::CalLit, name)),
            _ => Err(a.copied()),
        },
        ASTNode::Inc(r) => reg_pieces(r, OpCode::IncReg),
        ASTNode::Dec(r) => reg_pieces(r, OpCode::DecReg),
        ASTNode::Sys(a) => match a {
            ASTArg::Lit(l) => {
                let bytes = to_be_bytes(*l);
                let v = vec![op_byte(OpCode::SysLit), Piece::Byte(bytes[1])];
                assert(v@ =~= seq![op_piece(OpCode::SysLit), Piece::Byte(lo_byte(*l))]);
                Ok(v)
            },
            _ => Err(a.copied()),
        },
        ASTNode::Ret => Ok(op_only(OpCode::Ret)),
        ASTNode::Hlt => Ok(op_only(OpCode::Hlt)),
        ASTNode::Nop => Ok(op_only(OpCode::Nop)),
    }
}

/// What the first pass has laid out: the code so far, with zeros in the slots
/// of label addresses; the labels defined, in order, with their addresses; and
/// the slots to fill, each with the label it refers to.
pub struct Layout {
    pub code: Seq<u8>,
    pub labels: Seq<(String, u16)>,
    pub patches: Seq<(String, usize)>,
}

/// Nothing laid out yet.
pub open spec fn empty_layout() -> Layout {
    Layout { code: Seq::empty(), labels: Seq::empty(), patches: Seq::empty() }
}

/// Appending the pieces of one instruction at the end of the code.
pub open spec fn place_pieces(l: Layout, ps: Seq<Piece>) -> Layout
    decreases ps.len(),
{
    if ps.len() == 0 {
        l
    } else {
        let l1 = place_pieces(l, ps.drop_last());
        match ps.last() {
            Piece::Byte(b) => Layout { code: l1.code.push(b), labels: l1.labels, patches: l1.patches },
            Piece::Label(name) => Layout {
                code: l1.code + seq![0u8, 0u8],
                labels: l1.labels,
                patches: l1.patches.push((name, l1.code.len() as usize)),
            },
        }
    }
}

/// Laying out one node: a label records the current end of the code; an
/// instruction appends its encoding, which must fit in memory.
pub open spec fn place_node(l: Layout, node: ASTNode) -> Result<Layout, AssemblerError> {
    match node {
        ASTNode::Label(name) => Ok(
            Layout {
                code: l.code,
                labels: l.labels.push((name, l.code.len() as u16)),
                patches: l.patches,
            },
        ),
        _ => match encode_spec(node) {
            Err(a) => Err(AssemblerError::InvalidArgument(a)),
            Ok(ps) => if l.code.len() + pieces_len(ps) > MAX_MEMORY {
                Err(AssemblerError::ProgramTooLarge)
            } else {
                Ok(place_pieces(l, ps))
            },
        },
    }
}

/// The first pass over the program: every node laid out in order, stopping at
/// the first fault.
pub open spec fn first_pass(nodes: Seq<ASTNode>) -> Result<Layout, AssemblerError>
    decreases nodes.len(),
{
    if nodes.len() == 0 {
        Ok(empty_layout())
    } else {
        match first_pass(nodes.drop_last()) {
            Ok(l) => place_node(l, nodes.last()),
            Err(e) => Err(e),
        }
    }
}

/// The address of the last definition of label `name`.
pub open spec fn lookup_label(labels: Seq<(String, u16)>, name: Seq<char>) -> Option<u16>
    decreases labels.len(),
{
    if labels.len() == 0 {
        None
    } else if labels.last().0@ == name {
        Some(labels.last().1)
    } else {
        lookup_label(labels.drop_last(), name)
    }
}

/// The second pass: each slot, in order, receives the address of its label;
/// the first label that is not defined is a fault.
pub open spec fn patch_spec(image: Seq<u8>, labels: Seq<(String, u16)>, patches: Seq<(String, usize)>) -> Result<Seq<u8>, AssemblerError>
    decreases patches.len(),
{
    if patches.len() == 0 {
        Ok(image)
    } else {
        match patch_spec(image, labels, patches.drop_last()) {
            Ok(img) => match lookup_label(labels, patches.last().0@) {
                Some(addr) => Ok(write16(img, patches.last().1 as int, addr)),
                None => Err(AssemblerError::InvalidLabel(patches.last().0)),
            },
            Err(e) => Err(e),
        }
    }
}

/// The memory image of a program: its code at the start of a memory of the
/// largest size, zeros after it, and every label slot filled.
pub open spec fn assemble_spec(nodes: Seq<ASTNode>) -> Result<Seq<u8>, AssemblerError> {
    match first_pass(nodes) {
        Ok(l) => patch_spec(
            l.code + zeros((MAX_MEMORY - l.code.len()) as nat),
            l.labels,
            l.patches,
        ),
        Err(e) => Err(e),
    }
}

/// Every label slot lies inside the code.
pub open spec fn slots_inside(l: Layout) -> bool {
    forall|k: int| 0 <= k < l.patches.len() ==> (#[trigger] l.patches[k]).1 + 2 <= l.code.len()
}

proof fn lemma_pieces_len_prefix(ps: Seq<Piece>, k: int)
    requires
        0 <= k <= ps.len(),
    ensures
        pieces_len(ps.take(k)) <= pieces_len(ps),
    decreases ps.len(),
{
    if k < ps.len() {
        lemma_pieces_len_prefix(ps.drop_last(), k);
        assert(ps.drop_last().take(k) =~= ps.take(k));
    } else {
        assert(ps.take(k) =~= ps);
    }
}

proof fn lemma_place_pieces(l: Layout, ps: Seq<Piece>)
    requires
        slots_inside(l),
    ensures
        place_pieces(l, ps).code.len() == l.code.len() + pieces_len(ps),
        place_pieces(l, ps).labels == l.labels,
        slots_inside(place_pieces(l, ps)),
    decreases ps.len(),
{
    if ps.len() > 0 {
        lemma_place_pieces(l, ps.drop_last());
        let l1 = place_pieces(l, ps.drop_last());
        let l2 = place_pieces(l, ps);
        assert forall|k: int| 0 <= k < l2.patches.len() implies #[trigger] l2.patches[k].1 + 2
            <= l2.code.len() by {
            if k < l1.patches.len() {
                assert(l2.patches[k] == l1.patches[k]);
            }
        }
    }
}

proof fn lemma_first_pass(nodes: Seq<ASTNode>)
    requires
        first_pass(nodes) is Ok,
    ensures
        slots_inside(first_pass(nodes)->Ok_0),
        first_pass(nodes)->Ok_0.code.len() <= MAX_MEMORY,
    decreases nodes.len(),
{
    if nodes.len() > 0 {
        lemma_first_pass(nodes.drop_last());
        let l = first_pass(nodes.drop_last())->Ok_0;
        match encode_spec(nodes.last()) {
            Ok(ps) => lemma_place_pieces(l, ps),
            Err(_) => {},
        }
    }
}

proof fn lemma_first_pass_stops(nodes: Seq<ASTNode>, i: int)
    requires
        0 <= i <= nodes.len(),
        first_pass(nodes.take(i)) is Err,
    ensures
        first_pass(nodes) == first_pass(nodes.take(i)),
    decreases nodes.len(),
{
    if i < nodes.len() {
        assert(nodes.drop_last().take(i) =~= nodes.take(i));
        lemma_first_pass_stops(nodes.drop_last(), i);
    } else {
        assert(nodes.take(i) =~= nodes);
    }
}

proof fn lemma_patch_stops(image: Seq<u8>, labels: Seq<(String, u16)>, ps: Seq<(String, usize)>, j: int)
    requires
        0 <= j <= ps.len(),
        patch_spec(image, labels, ps.take(j)) is Err,
    ensures
        patch_spec(image, labels, ps) == patch_spec(image, labels, ps.take(j)),
    decreases ps.len(),
{
    if j < ps.len() {
        assert(ps.drop_last().take(j) =~= ps.take(j));
        lemma_patch_stops(image, labels, ps.drop_last(), j);
    } else {
        assert(ps.take(j) =~= ps);
    }
}

/// The number of bytes that the instructions of a program take once encoded;
/// labels take none.
pub open spec fn encoded_size(nodes: Seq<ASTNode>) -> nat
    decreases nodes.len(),
{
    if nodes.len() == 0 {
        0
    } else {
        encoded_size(nodes.drop_last()) + match nodes.last() {
            ASTNode::Label(_) => 0nat,
            _ => match encode_spec(nodes.last()) {
                Ok(ps) => pieces_len(ps),
                Err(_) => 0nat,
            },
        }
    }
}

/// Every label slot lies inside the code, and each one after the one before.
pub open spec fn slots_ordered(l: Layout) -> bool {
    &&& slots_inside(l)
    &&& forall|j: int, k: int|
        0 <= j < k < l.patches.len() ==> #[trigger] l.patches[j].1 + 2 <= #[trigger] l.patches[k].1
}

proof fn lemma_place_pieces_ordered(l: Layout, ps: Seq<Piece>)
    requires
        slots_ordered(l),
        l.code.len() + pieces_len(ps) <= MAX_MEMORY,
    ensures
        slots_ordered(place_pieces(l, ps)),
        place_pieces(l, ps).code.subrange(0, l.code.len() as int) == l.code,
    decreases ps.len(),
{
    lemma_place_pieces(l, ps);
    if ps.len() > 0 {
        lemma_place_pieces_ordered(l, ps.drop_last());
        lemma_place_pieces(l, ps.drop_last());
        let l1 = place_pieces(l, ps.drop_last());
        let l2 = place_pieces(l, ps);
        assert forall|j: int, k: int| 0 <= j < k < l2.patches.len() implies #[trigger] l2.patches[j].1 + 2
            <= #[trigger] l2.patches[k].1 by {
            if k < l1.patches.len() {
                assert(l2.patches[j] == l1.patches[j]);
                assert(l2.patches[k] == l1.patches[k]);
            } else {
                assert(l2.patches[j] == l1.patches[j]);
                assert(l1.patches[j].1 + 2 <= l1.code.len());
                assert(l1.code.len() <= MAX_MEMORY);
                assert(l2.patches[k].1 == l1.code.len());
            }
        }
        assert(l2.code.subrange(0, l.code.len() as int) =~= l1.code.subrange(0, l.code.len() as int));
    }
}

proof fn lemma_first_pass_layout(nodes: Seq<ASTNode>)
    requires
        first_pass(nodes) is Ok,
    ensures
        slots_ordered(first_pass(nodes)->Ok_0),
        first_pass(nodes)->Ok_0.code.len() == encoded_size(nodes),
    decreases nodes.len(),
{
    if nodes.len() > 0 {
        lemma_first_pass_layout(nodes.drop_last());
        let l = first_pass(nodes.drop_last())->Ok_0;
        match nodes.last() {
            ASTNode::Label(_) => {},
            _ => match encode_spec(nodes.last()) {
                Ok(ps) => {
                    lemma_place_pieces_ordered(l, ps);
                    lemma_place_pieces(l, ps);
                },
                Err(_) => {},
            },
        }
    }
}

/// Filling slots leaves the length of the image and every cell outside the
/// slots as they were.
proof fn lemma_patch_outside(
    image: Seq<u8>,
    labels: Seq<(String, u16)>,
    patches: Seq<(String, usize)>,
    end: int,
)
    requires
        forall|k: int| 0 <= k < patches.len() ==> #[trigger] patches[k].1 + 2 <= end,
        end <= image.len(),
        patch_spec(image, labels, patches) is Ok,
    ensures
        patch_spec(image, labels, patches)->Ok_0.len() == image.len(),
        forall|a: int|
            end <= a < image.len() ==> #[trigger] patch_spec(image, labels, patches)->Ok_0[a]
                == image[a],
    decreases patches.len(),
{
    if patches.len() > 0 {
        lemma_patch_outside(image, labels, patches.drop_last(), end);
    }
}

/// Filling slots that do not overlap leaves each slot holding its label's address.
proof fn lemma_patch_resolves(
    image: Seq<u8>,
    labels: Seq<(String, u16)>,
    patches: Seq<(String, usize)>,
)
    requires
        forall|k: int| 0 <= k < patches.len() ==> #[trigger] patches[k].1 + 2 <= image.len(),
        forall|j: int, k: int|
            0 <= j < k < patches.len() ==> #[trigger] patches[j].1 + 2 <= #[trigger] patches[k].1,
        patch_spec(image, labels, patches) is Ok,
    ensures
        patch_spec(image, labels, patches)->Ok_0.len() == image.len(),
        forall|k: int|
            0 <= k < patches.len() ==> lookup_label(labels, #[trigger] patches[k].0@) == Some(
                read16(patch_spec(image, labels, patches)->Ok_0, patches[k].1 as int),
            ),
    decreases patches.len(),
{
    if patches.len() > 0 {
        let prev = patches.drop_last();
        lemma_patch_resolves(image, labels, prev);
        let img = patch_spec(image, labels, prev)->Ok_0;
        let last = patches.last();
        let addr = lookup_label(labels, last.0@)->Some_0;
        let out = write16(img, last.1 as int, addr);
        assert forall|k: int| 0 <= k < patches.len() implies lookup_label(
            labels,
            #[trigger] patches[k].0@,
        ) == Some(read16(out, patches[k].1 as int)) by {
            if k < patches.len() - 1 {
                assert(patches[k] == prev[k]);
                assert(patches[k].1 + 2 <= patches[patches.len() - 1].1);
            } else {
                lemma_be16_round_trip(addr);
            }
        }
    }
}

/// An assembled image is the largest memory, and it is zero from the end of
/// the encoded instructions on: the code takes exactly the sum of the sizes
/// of its instructions.
pub proof fn lemma_assembled_size(nodes: Seq<ASTNode>)
    requires
        assemble_spec(nodes) is Ok,
    ensures
        first_pass(nodes) is Ok,
        first_pass(nodes)->Ok_0.code.len() == encoded_size(nodes),
        assemble_spec(nodes)->Ok_0.len() == MAX_MEMORY,
        forall|a: int|
            encoded_size(nodes) <= a < MAX_MEMORY ==> #[trigger] assemble_spec(nodes)->Ok_0[a] == 0,
{
    lemma_first_pass(nodes);
    lemma_first_pass_layout(nodes);
    let l = first_pass(nodes)->Ok_0;
    let image = l.code + zeros((MAX_MEMORY - l.code.len()) as nat);
    lemma_patch_outside(image, l.labels, l.patches, l.code.len() as int);
    assert forall|a: int| encoded_size(nodes) <= a < MAX_MEMORY implies #[trigger] image[a] == 0 by {}
}

/// After the first pass, every label reference is settled by the second: when
/// each one names a defined label, the image holds that label's address in each
/// reference's slot; otherwise assembling reports `InvalidLabel` for the first
/// reference whose label is undefined.
pub proof fn lemma_labels_resolved(nodes: Seq<ASTNode>)
    requires
        first_pass(nodes) is Ok,
    ensures
        ({
            let l = first_pass(nodes)->Ok_0;
            &&& (forall|k: int| 0 <= k < l.patches.len() ==> #[trigger] lookup_label(l.labels, l.patches[k].0@) is Some)
                ==> assemble_spec(nodes) is Ok && forall|k: int|
                0 <= k < l.patches.len() ==> lookup_label(l.labels, #[trigger] l.patches[k].0@) == Some(
                    read16(assemble_spec(nodes)->Ok_0, l.patches[k].1 as int),
                )
            &&& forall|k: int|
                0 <= k < l.patches.len() && #[trigger] lookup_label(l.labels, l.patches[k].0@) is None
                    ==> exists|j: int|
                    0 <= j <= k && assemble_spec(nodes) == Err::<Seq<u8>, AssemblerError>(
                        AssemblerError::InvalidLabel(l.patches[j].0),
                    ) && lookup_label(l.labels, #[trigger] l.patches[j].0@) is None
        }),
{
    lemma_first_pass(nodes);
    lemma_first_pass_layout(nodes);
    let l = first_pass(nodes)->Ok_0;
    let image = l.code + zeros((MAX_MEMORY - l.code.len()) as nat);
    lemma_patch_outcome(image, l.labels, l.patches);
    if forall|k: int| 0 <= k < l.patches.len() ==> #[trigger] lookup_label(l.labels, l.patches[k].0@) is Some {
        lemma_patch_resolves(image, l.labels, l.patches);
    }
}

/// The second pass fails exactly when some slot's label is undefined, and then
/// on the first such slot.
proof fn lemma_patch_outcome(image: Seq<u8>, labels: Seq<(String, u16)>, patches: Seq<(String, usize)>)
    ensures
        (forall|k: int| 0 <= k < patches.len() ==> #[trigger] lookup_label(labels, patches[k].0@) is Some)
            ==> patch_spec(image, labels, patches) is Ok,
        forall|k: int|
            0 <= k < patches.len() && #[trigger] lookup_label(labels, patches[k].0@) is None
                ==> exists|j: int|
                0 <= j <= k && patch_spec(image, labels, patches) == Err::<Seq<u8>, AssemblerError>(
                    AssemblerError::InvalidLabel(patches[j].0),
                ) && lookup_label(labels, #[trigger] patches[j].0@) is None,
    decreases patches.len(),
{
    if patches.len() > 0 {
        let prev = patches.drop_last();
        lemma_patch_outcome(image, labels, prev);
        assert forall|k: int| 0 <= k < prev.len() implies #[trigger] prev[k] == patches[k] by {}
        if forall|k: int| 0 <= k < patches.len() ==> #[trigger] lookup_label(labels, patches[k].0@) is Some {
            assert forall|k: int| 0 <= k < prev.len() implies #[trigger] lookup_label(labels, prev[k].0@) is Some by {
                assert(prev[k] == patches[k]);
            }
        }
        assert forall|k: int|
            0 <= k < patches.len() && #[trigger] lookup_label(labels, patches[k].0@) is None implies exists|j: int|
                0 <= j <= k && patch_spec(image, labels, patches) == Err::<Seq<u8>, AssemblerError>(
                    AssemblerError::InvalidLabel(patches[j].0),
                ) && lookup_label(labels, #[trigger] patches[j].0@) is None by {
            if patch_spec(image, labels, prev) is Err {
                let m = choose|m: int| 0 <= m < prev.len() && #[trigger] lookup_label(labels, prev[m].0@) is None;
                assert(prev[m] == patches[m]);
                let j = choose|j: int| 0 <= j <= m && patch_spec(image, labels, prev) == Err::<Seq<u8>, AssemblerError>(
                    AssemblerError::InvalidLabel(prev[j].0),
                ) && lookup_label(labels, #[trigger] prev[j].0@) is None;
                assert(prev[j] == patches[j]);
                if k < j {
                    assert(prev[k] == patches[k]);
                }
            } else if k < prev.len() {
                assert(prev[k] == patches[k]);
            } else {
                assert(patches[k] == patches.last());
            }
        }
    }
}

/// The number of bytes that the pieces take.
fn pieces_size(ps: &Vec<Piece>) -> (r: usize)
    requires
        ps@.len() <= 5,
    ensures
        r == pieces_len(ps@),
        r <= 10,
{
    let mut total: usize = 0;
    let mut k: usize = 0;
    while k < ps.len()
        invariant
            k <= ps@.len() <= 5,
            total == pieces_len(ps@.take(k as int)),
            total <= 2 * k,
        decreases ps@.len() - k,
    {
        assert(ps@.take(k + 1).drop_last() =~= ps@.take(k as int));
        match &ps[k] {
            Piece::Byte(_) => total = total + 1,
            Piece::Label(_) => total = total + 2,
        }
        k = k + 1;
    }
    assert(ps@.take(k as int) =~= ps@);
    total
}

/// The address of the last definition of `name`.
fn find_label(labels: &Vec<(String, u16)>, name: &String) -> (r: Option<u16>)
    ensures
        r == lookup_label(labels@, name@),
{
    let mut i: usize = labels.len();
    assert(labels@.take(i as int) =~= labels@);
    while i > 0
        invariant
            i <= labels@.len(),
            lookup_label(labels@, name@) == lookup_label(labels@.take(i as int), name@),
        decreases i,
    {
        assert(labels@.take(i as int).drop_last() =~= labels@.take(i - 1));
        if labels[i - 1].0 == *name {
            return Some(labels[i - 1].1);
        }
        i = i - 1;
    }
    None
}

/// Appends the pieces of one instruction at the cursor: bytes are written,
/// label slots are skipped and recorded.
fn emit(
    builder: &mut MemoryBuilder,
    patches: &mut Vec<(String, usize)>,
    pieces: &Vec<Piece>,
    Ghost(l): Ghost<Layout>,
)
    requires
        old(builder).mem().len() == MAX_MEMORY,
        old(builder).mem() == l.code + zeros((MAX_MEMORY - l.code.len()) as nat),
        old(builder).counter() == l.code.len(),
        old(patches)@ == l.patches,
        l.code.len() + pieces_len(pieces@) <= MAX_MEMORY,
    ensures
        final(builder).mem().len() == MAX_MEMORY,
        final(builder).mem() == place_pieces(l, pieces@).code + zeros(
            (MAX_MEMORY - place_pieces(l, pieces@).code.len()) as nat,
        ),
        final(builder).counter() == place_pieces(l, pieces@).code.len(),
        final(patches)@ == place_pieces(l, pieces@).patches,
{
    let mut k: usize = 0;
    while k < pieces.len()
        invariant
            k <= pieces@.len(),
            l.code.len() + pieces_len(pieces@) <= MAX_MEMORY,
            builder.mem().len() == MAX_MEMORY,
            builder.mem() == place_pieces(l, pieces@.take(k as int)).code + zeros(
                (MAX_MEMORY - place_pieces(l, pieces@.take(k as int)).code.len()) as nat,
            ),
            builder.counter() == place_pieces(l, pieces@.take(k as int)).code.len(),
            builder.counter() == l.code.len() + pieces_len(pieces@.take(k as int)),
            patches@ == place_pieces(l, pieces@.take(k as int)).patches,
        decreases pieces@.len() - k,
    {
        let ghost lk = place_pieces(l, pieces@.take(k as int));
        assert(pieces@.take(k + 1).drop_last() =~= pieces@.take(k as int));
        proof {
            lemma_pieces_len_prefix(pieces@, k + 1);
        }
        match &pieces[k] {
            Piece::Byte(b) => {
                builder.push(*b);
                assert(builder.mem() =~= lk.code.push(*b) + zeros(
                    (MAX_MEMORY - lk.code.len() - 1) as nat,
                ));
            },
            Piece::Label(name) => {
                patches.push((name.clone(), builder.get_counter()));
                builder.incr();
                builder.incr();
                assert(builder.mem() =~= (lk.code + seq![0u8, 0u8]) + zeros(
                    (MAX_MEMORY - lk.code.len() - 2) as nat,
                ));
            },
        }
        k = k + 1;
    }
    assert(pieces@.take(k as int) =~= pieces@);
}

impl Assembler {
    /// Assembles a program into a memory image of the largest size: the
    /// instructions are encoded one after the other from address zero, each
    /// label takes the address where the next instruction starts, and each
    /// reference to a label receives that address. The first operand of a kind
    /// that its instruction does not take, a program that does not fit, or a
    /// label that is never defined is reported instead.
    pub fn assemble(input: Vec<ASTNode>) -> (r: Result<Memory, AssemblerError>)
        ensures
            r matches Ok(m) ==> assemble_spec(input@) == Ok::<Seq<u8>, AssemblerError>(m@),
            r matches Err(e) ==> assemble_spec(input@) == Err::<Seq<u8>, AssemblerError>(e),
    {
        let mut builder = MemoryBuilder::new(Memory::default());
        let mut label_addrs: Vec<(String, u16)> = Vec::new();
        let mut need_patching: Vec<(String, usize)> = Vec::new();
        let ghost mut layout = empty_layout();
        assert(builder.mem() =~= layout.code + zeros(MAX_MEMORY as nat));
        let mut i: usize = 0;
        while i < input.len()
            invariant
                i <= input@.len(),
                first_pass(input@.take(i as int)) == Ok::<Layout, AssemblerError>(layout),
                layout.code.len() <= MAX_MEMORY,
                builder.wf(),
                builder.mem().len() == MAX_MEMORY,
                builder.mem() == layout.code + zeros((MAX_MEMORY - layout.code.len()) as nat),
                builder.counter() == layout.code.len(),
                label_addrs@ == layout.labels,
                need_patching@ == layout.patches,
            decreases input@.len() - i,
        {
            assert(input@.take(i + 1).drop_last() =~= input@.take(i as int));
            match &input[i] {
                ASTNode::Label(name) => {
                    label_addrs.push((name.clone(), builder.get_counter() as u16));
                    proof {
                        layout = Layout {
                            code: layout.code,
                            labels: layout.labels.push((*name, layout.code.len() as u16)),
                            patches: layout.patches,
                        };
                    }
                },
                _ => {
                    match encode(&input[i]) {
                        Err(a) => {
                            proof {
                                lemma_first_pass_stops(input@, i + 1);
                            }
                            return Err(AssemblerError::InvalidArgument(a));
                        },
                        Ok(pieces) => {
                            let size = pieces_size(&pieces);
                            if builder.get_counter() + size > MAX_MEMORY {
                                proof {
                                    lemma_first_pass_stops(input@, i + 1);
                                }
                                return Err(AssemblerError::ProgramTooLarge);
                            }
                            emit(&mut builder, &mut need_patching, &pieces, Ghost(layout));
                            proof {
                                lemma_first_pass(input@.take(i as int));
                                lemma_place_pieces(layout, pieces@);
                                layout = place_pieces(layout, pieces@);
                            }
                        },
                    }
                },
            }
            i = i + 1;
        }
        assert(input@.take(i as int) =~= input@);
        proof {
            lemma_first_pass(input@);
        }
        let ghost image = builder.mem();
        assert(need_patching@.take(0) =~= Seq::<(String, usize)>::empty());
        let mut j: usize = 0;
        while j < need_patching.len()
            invariant
                j <= need_patching@.len(),
                first_pass(input@) == Ok::<Layout, AssemblerError>(layout),
                image == layout.code + zeros((MAX_MEMORY - layout.code.len()) as nat),
                need_patching@ == layout.patches,
                label_addrs@ == layout.labels,
                slots_inside(layout),
                layout.code.len() <= MAX_MEMORY,
                builder.wf(),
                builder.mem().len() == MAX_MEMORY,
                patch_spec(image, layout.labels, layout.patches.take(j as int))
                    == Ok::<Seq<u8>, AssemblerError>(builder.mem()),
            decreases need_patching@.len() - j,
        {
            assert(layout.patches.take(j + 1).drop_last() =~= layout.patches.take(j as int));
            match find_label(&label_addrs, &need_patching[j].0) {
                None => {
                    proof {
                        lemma_patch_stops(image, layout.labels, layout.patches, j + 1);
                    }
                    return Err(AssemblerError::InvalidLabel(need_patching[j].0.clone()));
                },
                Some(addr) => {
                    assert(layout.patches[j as int].1 + 2 <= layout.code.len());
                    builder.set_counter(need_patching[j].1);
                    builder.push_u16(addr);
                },
            }
            j = j + 1;
        }
        assert(layout.patches.take(j as int) =~= layout.patches);
        Ok(builder.build())
    }
}

} // verus!
