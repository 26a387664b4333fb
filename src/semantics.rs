use vstd::prelude::*;

use crate::cpu::CpuError;
use crate::opcodes::{decode_byte, OpCode};
use crate::register::Register;
use crate::{be16, hi_byte, lo_byte};

verus! {

/// What the CPU holds: its register file and its memory.
pub struct CpuState {
    /// One 16-bit value per register, indexed by `Register::index`.
    pub regs: Seq<u16>,
    /// The memory cells.
    pub mem: Seq<u8>,
}

/// The state after an instruction, and what the instruction reported:
/// `Ok(true)` on halt, `Ok(false)` to go on, or a fault.
pub type Outcome = (CpuState, Result<bool, CpuError>);

impl CpuState {
    /// A register file of twelve registers, and a memory within the 16-bit address space.
    pub open spec fn wf(self) -> bool {
        self.regs.len() == 12 && self.mem.len() <= 65535
    }

    /// The value of register `r`.
    pub open spec fn reg(self, r: Register) -> u16 {
        self.regs[r.index()]
    }

    /// The instruction pointer.
    pub open spec fn ip(self) -> int {
        self.reg(Register::IP) as int
    }

    /// The stack pointer.
    pub open spec fn sp(self) -> int {
        self.reg(Register::SP) as int
    }

    /// The state with register number `i` set to `v`.
    pub open spec fn with_reg(self, i: int, v: u16) -> CpuState {
        CpuState { regs: self.regs.update(i, v), mem: self.mem }
    }

    /// The state with its memory replaced by `mem`.
    pub open spec fn with_mem(self, mem: Seq<u8>) -> CpuState {
        CpuState { regs: self.regs, mem }
    }
}

/// The register that an operand byte names: the byte modulo the register count,
/// so that no byte is rejected.
pub open spec fn reg_operand(b: u8) -> int {
    (b % 12) as int
}

/// The big-endian word at position `k` of the operand bytes.
pub open spec fn word_at(b: Seq<u8>, k: int) -> u16 {
    be16(b[k], b[k + 1]) as u16
}

/// The big-endian word stored at `addr`.
pub open spec fn read16(mem: Seq<u8>, addr: int) -> u16 {
    be16(mem[addr], mem[addr + 1]) as u16
}

/// `mem` with the big-endian word `v` stored at `addr`.
pub open spec fn write16(mem: Seq<u8>, addr: int, v: u16) -> Seq<u8> {
    mem.update(addr, hi_byte(v)).update(addr + 1, lo_byte(v))
}

/// A left shift that drops the bits shifted past bit 15.
pub open spec fn shl16(x: u16, n: u16) -> u16 {
    if n >= 16 {
        0
    } else {
        x << n
    }
}

/// A logical right shift.
pub open spec fn shr16(x: u16, n: u16) -> u16 {
    if n >= 16 {
        0
    } else {
        x >> n
    }
}

/// The number of operand bytes that follow the tag of each instruction: one per
/// register operand, two per literal or address.
pub open spec fn operand_size(op: OpCode) -> nat {
    match op {
        OpCode::Nop | OpCode::Ret | OpCode::Hlt => 0,
        OpCode::PshReg | OpCode::Pop | OpCode::CalReg | OpCode::IncReg | OpCode::DecReg
        | OpCode::NotReg | OpCode::SysLit => 1,
        OpCode::MovRegReg | OpCode::AddRegReg | OpCode::MovRegPtrReg | OpCode::SubRegReg
        | OpCode::MulRegReg | OpCode::ShlRegReg | OpCode::ShrRegReg | OpCode::AndRegReg
        | OpCode::OrRegReg | OpCode::XorRegReg | OpCode::PshLit | OpCode::CalLit
        | OpCode::Jmp => 2,
        OpCode::MovLitReg | OpCode::MovRegMem | OpCode::MovMemReg | OpCode::AddLitReg
        | OpCode::SubLitReg | OpCode::SubRegLit | OpCode::MulLitReg | OpCode::ShlRegLit
        | OpCode::ShrRegLit | OpCode::AndRegLit | OpCode::OrRegLit | OpCode::XorRegLit
        | OpCode::JmpNEReg | OpCode::JmpEQReg | OpCode::JmpLTReg | OpCode::JmpGTReg
        | OpCode::JmpLEReg | OpCode::JmpGEReg => 3,
        OpCode::MovLitMem | OpCode::JmpNELit | OpCode::JmpEQLit | OpCode::JmpLTLit
        | OpCode::JmpGTLit | OpCode::JmpLELit | OpCode::JmpGELit => 4,
    }
}

/// Whether fetching `n` bytes at the instruction pointer runs past memory.
pub open spec fn fetch_fails(s: CpuState, n: nat) -> bool {
    n > 0 && s.ip() + n > s.mem.len()
}

/// Where a fetch that runs past memory stops: the first address it cannot read.
pub open spec fn fault_point(s: CpuState) -> int {
    if s.ip() >= s.mem.len() {
        s.ip()
    } else {
        s.mem.len() as int
    }
}

/// Fetching `n` bytes one at a time at the instruction pointer, which advances
/// past each byte read.
pub open spec fn fetch_spec(s: CpuState, n: nat) -> (CpuState, Result<Seq<u8>, CpuError>) {
    if n == 0 {
        (s, Ok(Seq::empty()))
    } else if fetch_fails(s, n) {
        (
            s.with_reg(Register::IP.index(), fault_point(s) as u16),
            Err(CpuError::InvalidAddress(fault_point(s) as u16)),
        )
    } else {
        (s.with_reg(Register::IP.index(), (s.ip() + n) as u16), Ok(s.mem.subrange(s.ip(), s.ip() + n)))
    }
}

/// An instruction that goes on with state `s`.
pub open spec fn done(s: CpuState) -> Outcome {
    (s, Ok(false))
}

/// Storing `v` at `addr`; an address whose word leaves memory faults.
pub open spec fn store_spec(s: CpuState, addr: u16, v: u16) -> Outcome {
    if addr + 2 <= s.mem.len() {
        done(s.with_mem(write16(s.mem, addr as int, v)))
    } else {
        (s, Err(CpuError::InvalidAddress(addr)))
    }
}

/// Loading the word at `addr` into register number `r`.
pub open spec fn load_spec(s: CpuState, addr: u16, r: int) -> Outcome {
    if addr + 2 <= s.mem.len() {
        done(s.with_reg(r, read16(s.mem, addr as int)))
    } else {
        (s, Err(CpuError::InvalidAddress(addr)))
    }
}

/// Pushing `v`: it is stored in the slot at `SP`, and `SP` moves two bytes down.
/// A slot outside memory, or a stack pointer that would pass below zero, faults.
pub open spec fn push_spec(s: CpuState, v: u16) -> Outcome {
    if 2 <= s.sp() && s.sp() + 2 <= s.mem.len() {
        done(
            CpuState {
                regs: s.regs.update(Register::SP.index(), (s.sp() - 2) as u16),
                mem: write16(s.mem, s.sp(), v),
            },
        )
    } else {
        (s, Err(CpuError::InvalidAddress(s.sp() as u16)))
    }
}

/// Popping: `SP` moves two bytes up and the word in the slot it then points to
/// is returned. A slot outside memory faults.
pub open spec fn pop_spec(s: CpuState) -> (CpuState, Result<u16, CpuError>) {
    if s.sp() + 4 <= s.mem.len() {
        (
            s.with_reg(Register::SP.index(), (s.sp() + 2) as u16),
            Ok(read16(s.mem, s.sp() + 2)),
        )
    } else {
        (s, Err(CpuError::InvalidAddress(s.sp() as u16)))
    }
}

/// Popping into register number `r`.
pub open spec fn pop_into_spec(s: CpuState, r: int) -> Outcome {
    let (s2, v) = pop_spec(s);
    match v {
        Ok(v) => done(s2.with_reg(r, v)),
        Err(e) => (s2, Err(e)),
    }
}

/// A call: the return address (the current `IP`) is pushed, then `IP` is set
/// to `target`.
pub open spec fn call_spec(s: CpuState, target: u16) -> Outcome {
    let (s2, r) = push_spec(s, s.reg(Register::IP));
    match r {
        Ok(_) => done(s2.with_reg(Register::IP.index(), target)),
        Err(e) => (s2, Err(e)),
    }
}

/// A jump to `target` when `cond` holds.
pub open spec fn jump_if(s: CpuState, cond: bool, target: u16) -> Outcome {
    if cond {
        done(s.with_reg(Register::IP.index(), target))
    } else {
        done(s)
    }
}

/// The comparison of a conditional jump between `ACC` and the operand `v`.
pub open spec fn jump_condition(op: OpCode, acc: u16, v: u16) -> bool {
    match op {
        OpCode::JmpNELit | OpCode::JmpNEReg => acc != v,
        OpCode::JmpEQLit | OpCode::JmpEQReg => acc == v,
        OpCode::JmpLTLit | OpCode::JmpLTReg => acc < v,
        OpCode::JmpGTLit | OpCode::JmpGTReg => acc > v,
        OpCode::JmpLELit | OpCode::JmpLEReg => acc <= v,
        _ => acc >= v,
    }
}

/// The result of a two-operand arithmetic or bitwise instruction on `x` and `y`.
pub open spec fn alu_spec(op: OpCode, x: u16, y: u16) -> u16 {
    match op {
        OpCode::AddRegReg | OpCode::AddLitReg => x.wrapping_add(y),
        OpCode::SubRegReg | OpCode::SubRegLit | OpCode::SubLitReg => x.wrapping_sub(y),
        OpCode::MulRegReg | OpCode::MulLitReg => x.wrapping_mul(y),
        OpCode::ShlRegReg | OpCode::ShlRegLit => shl16(x, y),
        OpCode::ShrRegReg | OpCode::ShrRegLit => shr16(x, y),
        OpCode::AndRegReg | OpCode::AndRegLit => x & y,
        OpCode::OrRegReg | OpCode::OrRegLit => x | y,
        _ => x ^ y,
    }
}

/// The effect of instruction `op` on state `s`, whose `IP` already points past
/// the operand bytes `b`.
pub open spec fn apply_spec(s: CpuState, op: OpCode, b: Seq<u8>) -> Outcome {
    let acc = Register::ACC.index();
    let r0 = reg_operand(b[0]);
    let r1 = reg_operand(b[1]);
    let r2 = reg_operand(b[2]);
    match op {
        OpCode::MovLitReg => done(s.with_reg(r2, word_at(b, 0))),
        OpCode::MovRegReg => done(s.with_reg(r1, s.regs[r0])),
        OpCode::MovRegMem => store_spec(s, word_at(b, 1), s.regs[r0]),
        OpCode::MovMemReg => load_spec(s, word_at(b, 0), r2),
        OpCode::MovRegPtrReg => load_spec(s, s.regs[r0], r1),
        OpCode::MovLitMem => store_spec(s, word_at(b, 2), word_at(b, 0)),
        OpCode::AddRegReg | OpCode::SubRegReg | OpCode::MulRegReg => done(
            s.with_reg(acc, alu_spec(op, s.regs[r0], s.regs[r1])),
        ),
        OpCode::AddLitReg | OpCode::SubLitReg | OpCode::MulLitReg => done(
            s.with_reg(acc, alu_spec(op, word_at(b, 0), s.regs[r2])),
        ),
        OpCode::SubRegLit => done(s.with_reg(acc, alu_spec(op, s.regs[r0], word_at(b, 1)))),
        OpCode::ShlRegReg | OpCode::ShrRegReg | OpCode::AndRegReg | OpCode::OrRegReg
        | OpCode::XorRegReg => done(s.with_reg(r0, alu_spec(op, s.regs[r0], s.regs[r1]))),
        OpCode::ShlRegLit | OpCode::ShrRegLit | OpCode::AndRegLit | OpCode::OrRegLit
        | OpCode::XorRegLit => done(s.with_reg(r0, alu_spec(op, s.regs[r0], word_at(b, 1)))),
        OpCode::IncReg => done(s.with_reg(r0, s.regs[r0].wrapping_add(1))),
        OpCode::DecReg => done(s.with_reg(r0, s.regs[r0].wrapping_sub(1))),
        OpCode::NotReg => done(s.with_reg(r0, !s.regs[r0])),
        OpCode::JmpNELit | OpCode::JmpEQLit | OpCode::JmpLTLit | OpCode::JmpGTLit
        | OpCode::JmpLELit | OpCode::JmpGELit => jump_if(
            s,
            jump_condition(op, s.regs[acc], word_at(b, 2)),
            word_at(b, 0),
        ),
        OpCode::JmpNEReg | OpCode::JmpEQReg | OpCode::JmpLTReg | OpCode::JmpGTReg
        | OpCode::JmpLEReg | OpCode::JmpGEReg => jump_if(
            s,
            jump_condition(op, s.regs[acc], s.regs[r2]),
            word_at(b, 0),
        ),
        OpCode::Jmp => done(s.with_reg(Register::IP.index(), word_at(b, 0))),
        OpCode::PshLit => push_spec(s, word_at(b, 0)),
        OpCode::PshReg => push_spec(s, s.regs[r0]),
        OpCode::Pop => pop_into_spec(s, r0),
        OpCode::CalLit => call_spec(s, word_at(b, 0)),
        OpCode::CalReg => call_spec(s, s.regs[r0]),
        OpCode::Ret => pop_into_spec(s, Register::IP.index()),
        OpCode::Hlt => (s, Ok(true)),
        OpCode::Nop | OpCode::SysLit => done(s),
    }
}

/// Executing `op` whose tag has been fetched: its operand bytes are fetched,
/// then it takes effect.
pub open spec fn execute_spec(s: CpuState, op: OpCode) -> Outcome {
    let (s1, r) = fetch_spec(s, operand_size(op));
    match r {
        Ok(b) => apply_spec(s1, op, b),
        Err(e) => (s1, Err(e)),
    }
}

/// One step: the tag byte at `IP` is fetched and decoded, then executed.
pub open spec fn step_spec(s: CpuState) -> Outcome {
    if s.ip() >= s.mem.len() {
        (s, Err(CpuError::InvalidAddress(s.ip() as u16)))
    } else {
        execute_spec(
            s.with_reg(Register::IP.index(), (s.ip() + 1) as u16),
            decode_byte(s.mem[s.ip()]),
        )
    }
}

/// The conditional jumps that compare `ACC` with a literal.
pub open spec fn is_jump_lit(op: OpCode) -> bool {
    op == OpCode::JmpNELit || op == OpCode::JmpEQLit || op == OpCode::JmpLTLit || op
        == OpCode::JmpGTLit || op == OpCode::JmpLELit || op == OpCode::JmpGELit
}

/// The conditional jumps that compare `ACC` with a register.
pub open spec fn is_jump_reg(op: OpCode) -> bool {
    op == OpCode::JmpNEReg || op == OpCode::JmpEQReg || op == OpCode::JmpLTReg || op
        == OpCode::JmpGTReg || op == OpCode::JmpLEReg || op == OpCode::JmpGEReg
}

/// The instructions that read or write memory, the stack included.
pub open spec fn touches_memory(op: OpCode) -> bool {
    op == OpCode::MovRegMem || op == OpCode::MovMemReg || op == OpCode::MovRegPtrReg || op
        == OpCode::MovLitMem || op == OpCode::PshLit || op == OpCode::PshReg || op == OpCode::Pop
        || op == OpCode::CalLit || op == OpCode::CalReg || op == OpCode::Ret
}

/// An instruction's bytes are read at consecutive addresses from its tag on: a
/// step either faults while fetching, with `IP` stopped at the first address it
/// could not read, or takes effect on the state whose `IP` is just past the
/// last operand byte, with the bytes after the tag as operands.
pub proof fn lemma_fetch_in_order(s: CpuState)
    requires
        s.wf(),
        s.ip() < s.mem.len(),
    ensures
        ({
            let op = decode_byte(s.mem[s.ip()]);
            let n = operand_size(op);
            let end = s.ip() + 1 + n;
            &&& end <= s.mem.len() ==> step_spec(s) == apply_spec(
                s.with_reg(Register::IP.index(), end as u16),
                op,
                s.mem.subrange(s.ip() + 1, end),
            )
            &&& end > s.mem.len() ==> step_spec(s) == (
                s.with_reg(Register::IP.index(), s.mem.len() as u16),
                Err::<bool, CpuError>(CpuError::InvalidAddress(s.mem.len() as u16)),
            )
        }),
{
    let op = decode_byte(s.mem[s.ip()]);
    let s1 = s.with_reg(Register::IP.index(), (s.ip() + 1) as u16);
    assert(s1.regs.update(0, (s.ip() + 1 + operand_size(op)) as u16) =~= s.regs.update(
        0,
        (s.ip() + 1 + operand_size(op)) as u16,
    ));
    assert(s1.regs.update(0, s.mem.len() as u16) =~= s.regs.update(0, s.mem.len() as u16));
    if operand_size(op) == 0 {
        assert(s.mem.subrange(s.ip() + 1, s.ip() + 1) =~= Seq::<u8>::empty());
    }
}

/// After a control transfer `IP` is the target: the address operand of `Jmp`,
/// of a call and of a conditional jump whose condition holds; the popped word
/// for `Ret`. A conditional jump whose condition fails leaves `IP` past the
/// instruction.
pub proof fn lemma_control_transfer(s: CpuState, op: OpCode, b: Seq<u8>)
    requires
        s.wf(),
        b.len() == operand_size(op),
        apply_spec(s, op, b).1 is Ok,
    ensures
        ({
            let t = apply_spec(s, op, b).0;
            let acc = s.reg(Register::ACC);
            &&& (op == OpCode::Jmp || op == OpCode::CalLit) ==> t.ip() == word_at(b, 0)
            &&& op == OpCode::CalReg ==> t.ip() == s.regs[reg_operand(b[0])]
            &&& is_jump_lit(op) ==> t.ip() == if jump_condition(op, acc, word_at(b, 2)) {
                word_at(b, 0) as int
            } else {
                s.ip()
            }
            &&& is_jump_reg(op) ==> t.ip() == if jump_condition(op, acc, s.regs[reg_operand(b[2])]) {
                word_at(b, 0) as int
            } else {
                s.ip()
            }
            &&& op == OpCode::Ret ==> t.ip() == read16(s.mem, s.sp() + 2)
        }),
{
}

/// Operand bytes name registers modulo the register count, so no byte names a
/// register that does not exist: instructions that work on registers alone
/// never fault, whatever their operand bytes, and the only fault of any step
/// is an address outside memory.
pub proof fn lemma_register_operands_total(s: CpuState, op: OpCode, b: Seq<u8>)
    requires
        s.wf(),
        b.len() == operand_size(op),
    ensures
        forall|x: u8| 0 <= #[trigger] reg_operand(x) < 12,
        !touches_memory(op) ==> apply_spec(s, op, b).1 is Ok,
        apply_spec(s, op, b).1 matches Err(e) ==> e is InvalidAddress,
        step_spec(s).1 matches Err(e) ==> e is InvalidAddress,
{
}

/// A push followed by a pop, with the stack pointer and the stack above it
/// left alone in between, gives back the pushed word and returns `SP` to where
/// it was; memory above that `SP` is as it was before the push.
pub proof fn lemma_push_pop(s: CpuState, v: u16, t: CpuState)
    requires
        s.wf(),
        push_spec(s, v).1 is Ok,
        t.wf(),
        t.mem.len() == s.mem.len(),
        t.sp() == push_spec(s, v).0.sp(),
        forall|a: int| t.sp() <= a < t.mem.len() ==> t.mem[a] == #[trigger] push_spec(s, v).0.mem[a],
    ensures
        pop_spec(t).1 == Ok::<u16, CpuError>(v),
        pop_spec(t).0.sp() == s.sp(),
        forall|a: int| s.sp() + 2 <= a < s.mem.len() ==> #[trigger] pop_spec(t).0.mem[a] == s.mem[a],
{
    let s1 = push_spec(s, v).0;
    assert(t.mem[s.sp()] == s1.mem[s.sp()]);
    assert(t.mem[s.sp() + 1] == s1.mem[s.sp() + 1]);
    crate::lemma_be16_round_trip(v);
    assert forall|a: int| s.sp() + 2 <= a < s.mem.len() implies #[trigger] pop_spec(t).0.mem[a]
        == s.mem[a] by {
        assert(t.mem[a] == s1.mem[a]);
    }
}

/// A call followed by the matching `Ret` (the stack pointer back where the call
/// left it, and the return slot intact) resumes right after the call's
/// operands, with `SP` where it was before the call.
pub proof fn lemma_call_ret(s: CpuState, target: u16, t: CpuState)
    requires
        s.wf(),
        call_spec(s, target).1 is Ok,
        t.wf(),
        t.mem.len() == s.mem.len(),
        t.sp() == call_spec(s, target).0.sp(),
        forall|a: int| t.sp() <= a < t.mem.len() ==> t.mem[a] == #[trigger] call_spec(s, target).0.mem[a],
    ensures
        apply_spec(t, OpCode::Ret, Seq::empty()).1 == Ok::<bool, CpuError>(false),
        apply_spec(t, OpCode::Ret, Seq::empty()).0.ip() == s.ip(),
        apply_spec(t, OpCode::Ret, Seq::empty()).0.sp() == s.sp(),
{
    let s1 = push_spec(s, s.reg(Register::IP)).0;
    assert(call_spec(s, target).0.mem == s1.mem);
    assert(t.mem[s.sp()] == s1.mem[s.sp()]);
    assert(t.mem[s.sp() + 1] == s1.mem[s.sp() + 1]);
    crate::lemma_be16_round_trip(s.reg(Register::IP));
}

} // verus!
