use vstd::prelude::*;
use vstd::string::*;

use crate::memory::{splice, Memory};
use crate::opcodes::OpCode;
use crate::register::{Register, REGISTER_COUNT};
use crate::semantics::{
    alu_spec, apply_spec, call_spec, execute_spec, fault_point, fetch_fails, fetch_spec, jump_condition,
    jump_if, load_spec, operand_size, pop_into_spec, pop_spec, push_spec, read16, reg_operand,
    step_spec, store_spec, word_at, write16, CpuState,
};
use crate::text::{dump_line, push_hex, register_at, register_line};
use crate::{hi_byte, lemma_be16_round_trip, lo_byte, to_be_bytes, to_u16, REGISTER_SIZE};

verus! {

/// The faults that the CPU reports.
#[derive(Debug)]
pub enum CpuError {
    /// Reserved for a strict decoder; decoding is tolerant and yields `Nop`.
    InvalidInstruction,
    /// A register name that names no register.
    InvalidRegister(String),
    /// An address outside memory, or a stack slot outside it.
    InvalidAddress(u16),
    /// Reserved for values that an instruction cannot take.
    InvalidValue,
}

/// The CPU: one memory buffer of 8-bit cells, and a register file of twelve
/// 16-bit registers kept big-endian in a memory buffer of its own.
pub struct CPU {
    memory: Memory,
    registers_memory: Memory,
}

/// The register values that a register file's bytes hold.
pub open spec fn regs_of(bytes: Seq<u8>) -> Seq<u16> {
    Seq::new(12, |i: int| read16(bytes, 2 * i))
}

/// The registers of a fresh CPU: all zero but `SP` and `BP`, which hold `top`.
pub open spec fn initial_regs(top: u16) -> Seq<u16> {
    Seq::new(
        12,
        |i: int|
            if i == Register::SP.index() || i == Register::BP.index() {
                top
            } else {
                0u16
            },
    )
}

/// Writing a value's two bytes into a register's slot sets that register alone.
proof fn lemma_regs_write(bytes: Seq<u8>, i: int, v: u16)
    requires
        bytes.len() == 24,
        0 <= i < 12,
    ensures
        regs_of(splice(bytes, 2 * i, seq![hi_byte(v), lo_byte(v)])) == regs_of(bytes).update(i, v),
{
    let nb = splice(bytes, 2 * i, seq![hi_byte(v), lo_byte(v)]);
    assert(nb.len() == 24);
    assert forall|j: int| 0 <= j < 24 implies nb[j] == (if j == 2 * i {
        hi_byte(v)
    } else if j == 2 * i + 1 {
        lo_byte(v)
    } else {
        bytes[j]
    }) by {
        if j < 2 * i {
            assert(nb[j] == bytes.subrange(0, 2 * i)[j]);
        } else if j >= 2 * i + 2 {
            assert(nb[j] == bytes.subrange(2 * i + 2, 24)[j - 2 * i - 2]);
        }
    }
    lemma_be16_round_trip(v);
    assert(regs_of(nb) =~= regs_of(bytes).update(i, v));
}

/// The register index that an operand byte names.
fn reg_index(b: u8) -> (r: usize)
    ensures
        r == reg_operand(b),
        r < REGISTER_COUNT,
{
    (b % 12) as usize
}

/// The big-endian word at position `k` of the operand bytes.
fn word(b: &Vec<u8>, k: usize) -> (r: u16)
    requires
        k < 4,
        k + 1 < b@.len(),
    ensures
        r == word_at(b@, k as int),
{
    (b[k] as u16) * 256 + (b[k + 1] as u16)
}

/// The number of operand bytes of an instruction.
fn operand_len(op: OpCode) -> (r: usize)
    ensures
        r == operand_size(op),
{
    match op {
        OpCode::Nop | OpCode::Ret | OpCode::Hlt => 0,
        OpCode::PshReg | OpCode::Pop | OpCode::CalReg | OpCode::IncReg | OpCode::DecReg
        | OpCode::NotReg | OpCode::SysLit => 1,
        OpCode::MovRegReg | OpCode::AddRegReg | OpCode::MovRegPtrReg | OpCode::SubRegReg
        | OpCode::MulRegReg | OpCode::ShlRegReg | OpCode::ShrRegReg | OpCode::AndRegReg
        | OpCode::OrRegReg | OpCode::XorRegReg | OpCode::PshLit | OpCode::CalLit
        | OpCode::Jmp => 2,
        OpCode::MovLitReg | OpCode::MovRegMem | OpCode::MovMemReg | OpCode::AddLitReg
        | OpCode::SubLitReg | OpCode::SubRegLit | OpCode::MulLitReg | OpCode::ShlRegLit
        | OpCode::ShrRegLit | OpCode::AndRegLit | OpCode::OrRegLit | OpCode::XorRegLit
        | OpCode::JmpNEReg | OpCode::JmpEQReg | OpCode::JmpLTReg | OpCode::JmpGTReg
        | OpCode::JmpLEReg | OpCode::JmpGEReg => 3,
        OpCode::MovLitMem | OpCode::JmpNELit | OpCode::JmpEQLit | OpCode::JmpLTLit
        | OpCode::JmpGTLit | OpCode::JmpLELit | OpCode::JmpGELit => 4,
    }
}

impl View for CPU {
    type V = CpuState;

    closed spec fn view(&self) -> CpuState {
        CpuState { regs: regs_of(self.registers_memory@), mem: self.memory@ }
    }
}

impl CPU {
    /// A register file of twelve two-byte slots, and a memory within the
    /// 16-bit address space.
    pub closed spec fn wf(&self) -> bool {
        self.registers_memory@.len() == 24 && self.memory.wf()
    }

    proof fn lemma_wf(&self)
        requires
            self.wf(),
        ensures
            self@.wf(),
    {
    }

    /// A CPU that runs `memory`: `IP`, `ACC` and the general registers are zero,
    /// `SP` and `BP` point at the last two-byte slot of memory.
    pub fn new(memory: Memory) -> (cpu: CPU)
        requires
            memory.wf(),
            memory@.len() >= 2,
        ensures
            cpu.wf(),
            cpu@.mem == memory@,
            cpu@.regs == initial_regs((memory@.len() - 2) as u16),
    {
        let mut registers = Memory::new((REGISTER_COUNT * REGISTER_SIZE) as u16);
        let top = to_be_bytes((memory.len() - 2) as u16);
        let sp_idx = Register::SP.to_index() * REGISTER_SIZE;
        let bp_idx = Register::BP.to_index() * REGISTER_SIZE;
        proof {
            assert(regs_of(registers@) =~= Seq::new(12, |i: int| 0u16));
            lemma_regs_write(registers@, 10, (memory@.len() - 2) as u16);
        }
        registers.set_buf(sp_idx, sp_idx + 2, &top);
        proof {
            lemma_regs_write(registers@, 11, (memory@.len() - 2) as u16);
        }
        registers.set_buf(bp_idx, bp_idx + 2, &top);
        let cpu = CPU { memory, registers_memory: registers };
        assert(cpu@.regs =~= initial_regs((memory@.len() - 2) as u16));
        cpu
    }

    /// The value of register number `i`.
    fn reg_at(&self, i: usize) -> (r: u16)
        requires
            self.wf(),
            i < REGISTER_COUNT,
        ensures
            r == self@.regs[i as int],
    {
        let index = i * REGISTER_SIZE;
        let buf = self.registers_memory.get_buf(index, index + 2).unwrap();
        to_u16(buf.as_slice())
    }

    /// Sets register number `i` to `value`.
    fn set_reg_at(&mut self, i: usize, value: u16)
        requires
            old(self).wf(),
            i < REGISTER_COUNT,
        ensures
            final(self).wf(),
            final(self)@ == old(self)@.with_reg(i as int, value),
    {
        let index = i * REGISTER_SIZE;
        proof {
            lemma_regs_write(self.registers_memory@, i as int, value);
        }
        self.registers_memory.set_buf(index, index + 2, &to_be_bytes(value));
    }

    /// Gets the value of the given register.
    pub fn get_register(&self, reg: &Register) -> (r: u16)
        requires
            self.wf(),
        ensures
            r == self@.reg(*reg),
    {
        self.reg_at(reg.to_index())
    }

    /// Sets the value of the given register.
    pub fn set_register(&mut self, reg: &Register, value: u16)
        requires
            old(self).wf(),
        ensures
            final(self).wf(),
            final(self)@ == old(self)@.with_reg(reg.index(), value),
    {
        self.set_reg_at(reg.to_index(), value)
    }

    /// The registers in one line, in register-file order:
    /// `IP: 0x0, ACC: 0x0, ..., BP: 0xFEFE`, values in upper-case hexadecimal
    /// without leading zeros.
    pub fn to_string(&self) -> (r: String)
        requires
            self.wf(),
        ensures
            r@ == register_line(self@.regs, 12),
    {
        let mut out = String::new();
        let mut i: usize = 0;
        while i < REGISTER_COUNT
            invariant
                self.wf(),
                i <= 12,
                i == 0 ==> out@.len() == 0,
                i > 0 ==> out@ == register_line(self@.regs, i as nat),
            decreases 12 - i,
        {
            let ghost before = out@;
            if i > 0 {
                proof {
                    reveal_strlit(", ");
                }
                out.append(", ");
            }
            let reg = register_at(i);
            out.append(reg.name());
            proof {
                reveal_strlit(": 0x");
            }
            out.append(": 0x");
            push_hex(&mut out, self.get_register(&reg));
            if i == 0 {
                assert(out@ =~= register_line(self@.regs, 1));
            } else {
                assert(out@ =~= register_line(self@.regs, (i + 1) as nat));
            }
            i = i + 1;
        }
        out
    }

    /// A dump of up to eight memory cells from `addr` on.
    pub fn inspect_addr(&self, addr: u16) -> (r: Result<String, CpuError>)
        ensures
            addr > self@.mem.len() ==> r == Err::<String, CpuError>(CpuError::InvalidAddress(addr)),
            addr <= self@.mem.len() ==> (r matches Ok(s) && s@ == dump_line(self@.mem, addr as int)),
    {
        self.memory.inspect_addr(addr)
    }

    /// Fetches the byte at `IP` and moves `IP` past it. An `IP` outside memory
    /// faults and changes nothing.
    pub fn fetch(&mut self) -> (r: Result<u8, CpuError>)
        requires
            old(self).wf(),
        ensures
            final(self).wf(),
            old(self)@.ip() < old(self)@.mem.len() ==> r == Ok::<u8, CpuError>(
                old(self)@.mem[old(self)@.ip()],
            ) && final(self)@ == old(self)@.with_reg(
                Register::IP.index(),
                (old(self)@.ip() + 1) as u16,
            ),
            old(self)@.ip() >= old(self)@.mem.len() ==> r == Err::<u8, CpuError>(
                CpuError::InvalidAddress(old(self)@.ip() as u16),
            ) && final(self)@ == old(self)@,
    {
        let ipval = self.reg_at(0);
        match self.memory.get(ipval as usize) {
            Some(instruction) => {
                self.set_reg_at(0, ipval + 1);
                Ok(instruction)
            },
            None => Err(CpuError::InvalidAddress(ipval)),
        }
    }

    /// Fetches `n` bytes one at a time from `IP` on, moving `IP` past each.
    pub fn fetch_buf(&mut self, n: usize) -> (r: Result<Vec<u8>, CpuError>)
        requires
            old(self).wf(),
        ensures
            final(self).wf(),
            final(self)@ == fetch_spec(old(self)@, n as nat).0,
            r matches Ok(v) ==> fetch_spec(old(self)@, n as nat).1 == Ok::<Seq<u8>, CpuError>(v@),
            r matches Err(e) ==> fetch_spec(old(self)@, n as nat).1 == Err::<Seq<u8>, CpuError>(e),
    {
        let ghost start = self@;
        let ghost ip = start.ip();
        let mut buf: Vec<u8> = Vec::new();
        if n == 0 {
            return Ok(buf);
        }
        proof {
            self.lemma_wf();
            assert(start.regs.update(0, ip as u16) =~= start.regs);
        }
        let mut i: usize = 0;
        while i < n
            invariant
                self.wf(),
                start.wf(),
                start == old(self)@,
                ip == start.ip(),
                0 < n,
                i <= n,
                i == 0 || ip + i <= start.mem.len(),
                self@ == start.with_reg(0, (ip + i) as u16),
                i == 0 ==> buf@.len() == 0,
                i > 0 ==> buf@ == start.mem.subrange(ip, ip + i),
            decreases n - i,
        {
            match self.fetch() {
                Ok(b) => {
                    buf.push(b);
                    i = i + 1;
                    proof {
                        assert(start.with_reg(0, (ip + i - 1) as u16).with_reg(0, (ip + i) as u16).regs
                            =~= start.with_reg(0, (ip + i) as u16).regs);
                        assert(buf@ =~= start.mem.subrange(ip, ip + i));
                    }
                },
                Err(e) => {
                    proof {
                        assert(start.with_reg(0, (ip + i) as u16).ip() == ip + i);
                        assert(fetch_fails(start, n as nat));
                        assert(fault_point(start) == ip + i);
                        assert(self@ == start.with_reg(0, (ip + i) as u16));
                        assert(self@ == fetch_spec(start, n as nat).0);
                        assert(e == CpuError::InvalidAddress((ip + i) as u16));
                    }
                    return Err(e);
                },
            }
        }
        Ok(buf)
    }

    /// Stores `v` big-endian at `addr`.
    fn store16(&mut self, addr: u16, v: u16) -> (r: Result<bool, CpuError>)
        requires
            old(self).wf(),
        ensures
            final(self).wf(),
            (final(self)@, r) == store_spec(old(self)@, addr, v),
    {
        if (addr as usize) + 2 <= self.memory.len() {
            let bytes = to_be_bytes(v);
            self.memory.set_buf(addr as usize, (addr as usize) + 2, &bytes);
            assert(self@.mem =~= write16(old(self)@.mem, addr as int, v));
            Ok(false)
        } else {
            Err(CpuError::InvalidAddress(addr))
        }
    }

    /// Loads the big-endian word at `addr` into register number `i`.
    fn load16(&mut self, addr: u16, i: usize) -> (r: Result<bool, CpuError>)
        requires
            old(self).wf(),
            i < REGISTER_COUNT,
        ensures
            final(self).wf(),
            (final(self)@, r) == load_spec(old(self)@, addr, i as int),
    {
        match self.memory.get_buf(addr as usize, (addr as usize) + 2) {
            Some(buf) => {
                let v = to_u16(buf.as_slice());
                self.set_reg_at(i, v);
                Ok(false)
            },
            None => Err(CpuError::InvalidAddress(addr)),
        }
    }

    /// Pushes `value` on the stack: it is stored at `SP`, then `SP` moves two
    /// bytes down.
    fn push(&mut self, value: u16) -> (r: Result<bool, CpuError>)
        requires
            old(self).wf(),
        ensures
            final(self).wf(),
            (final(self)@, r) == push_spec(old(self)@, value),
    {
        let sp = self.reg_at(10);
        if sp < 2 || (sp as usize) + 2 > self.memory.len() {
            return Err(CpuError::InvalidAddress(sp));
        }
        let bytes = to_be_bytes(value);
        self.memory.set_buf(sp as usize, (sp as usize) + 2, &bytes);
        assert(self@.mem =~= write16(old(self)@.mem, sp as int, value));
        self.set_reg_at(10, sp - 2);
        Ok(false)
    }

    /// Pops the stack: `SP` moves two bytes up, and the word it then points
    /// to is returned.
    fn pop(&mut self) -> (r: Result<u16, CpuError>)
        requires
            old(self).wf(),
        ensures
            final(self).wf(),
            (final(self)@, r) == pop_spec(old(self)@),
    {
        let sp = self.reg_at(10);
        if (sp as usize) + 4 > self.memory.len() {
            return Err(CpuError::InvalidAddress(sp));
        }
        let next_sp = sp + 2;
        self.set_reg_at(10, next_sp);
        let buf = self.memory.get_buf(next_sp as usize, (next_sp as usize) + 2).unwrap();
        Ok(to_u16(buf.as_slice()))
    }

    /// Pops the stack into register number `i`.
    fn pop_into(&mut self, i: usize) -> (r: Result<bool, CpuError>)
        requires
            old(self).wf(),
            i < REGISTER_COUNT,
        ensures
            final(self).wf(),
            (final(self)@, r) == pop_into_spec(old(self)@, i as int),
    {
        match self.pop() {
            Ok(v) => {
                self.set_reg_at(i, v);
                Ok(false)
            },
            Err(e) => Err(e),
        }
    }

    /// Pushes the return address (the current `IP`) and jumps to `target`.
    fn call(&mut self, target: u16) -> (r: Result<bool, CpuError>)
        requires
            old(self).wf(),
        ensures
            final(self).wf(),
            (final(self)@, r) == call_spec(old(self)@, target),
    {
        let ip = self.reg_at(0);
        match self.push(ip) {
            Ok(_) => {
                self.set_reg_at(0, target);
                Ok(false)
            },
            Err(e) => Err(e),
        }
    }

    /// Jumps to `target` when `cond` holds.
    fn jump_if(&mut self, cond: bool, target: u16) -> (r: Result<bool, CpuError>)
        requires
            old(self).wf(),
        ensures
            final(self).wf(),
            (final(self)@, r) == jump_if(old(self)@, cond, target),
    {
        if cond {
            self.set_reg_at(0, target);
        }
        Ok(false)
    }

    /// Carries out `op`, whose operand bytes `b` have been fetched.
    #[verifier::rlimit(50)]
    fn apply(&mut self, op: OpCode, b: &Vec<u8>) -> (r: Result<bool, CpuError>)
        requires
            old(self).wf(),
            b@.len() == operand_size(op),
        ensures
            final(self).wf(),
            (final(self)@, r) == apply_spec(old(self)@, op, b@),
    {
        match op {
            OpCode::MovLitReg => {
                let v = word(b, 0);
                self.set_reg_at(reg_index(b[2]), v);
                Ok(false)
            },
            OpCode::MovRegReg => {
                let v = self.reg_at(reg_index(b[0]));
                self.set_reg_at(reg_index(b[1]), v);
                Ok(false)
            },
            OpCode::MovRegMem => {
                let v = self.reg_at(reg_index(b[0]));
                self.store16(word(b, 1), v)
            },
            OpCode::MovMemReg => self.load16(word(b, 0), reg_index(b[2])),
            OpCode::MovRegPtrReg => {
                let addr = self.reg_at(reg_index(b[0]));
                self.load16(addr, reg_index(b[1]))
            },
            OpCode::MovLitMem => self.store16(word(b, 2), word(b, 0)),
            OpCode::AddRegReg | OpCode::SubRegReg | OpCode::MulRegReg => {
                let x = self.reg_at(reg_index(b[0]));
                let y = self.reg_at(reg_index(b[1]));
                self.set_reg_at(1, alu(op, x, y));
                Ok(false)
            },
            OpCode::AddLitReg | OpCode::SubLitReg | OpCode::MulLitReg => {
                let y = self.reg_at(reg_index(b[2]));
                self.set_reg_at(1, alu(op, word(b, 0), y));
                Ok(false)
            },
            OpCode::SubRegLit => {
                let x = self.reg_at(reg_index(b[0]));
                self.set_reg_at(1, alu(op, x, word(b, 1)));
                Ok(false)
            },
            OpCode::ShlRegReg | OpCode::ShrRegReg | OpCode::AndRegReg | OpCode::OrRegReg
            | OpCode::XorRegReg => {
                let r0 = reg_index(b[0]);
                let x = self.reg_at(r0);
                let y = self.reg_at(reg_index(b[1]));
                self.set_reg_at(r0, alu(op, x, y));
                Ok(false)
            },
            OpCode::ShlRegLit | OpCode::ShrRegLit | OpCode::AndRegLit | OpCode::OrRegLit
            | OpCode::XorRegLit => {
                let r0 = reg_index(b[0]);
                let x = self.reg_at(r0);
                self.set_reg_at(r0, alu(op, x, word(b, 1)));
                Ok(false)
            },
            OpCode::IncReg => {
                let r0 = reg_index(b[0]);
                let x = self.reg_at(r0);
                self.set_reg_at(r0, x.wrapping_add(1));
                Ok(false)
            },
            OpCode::DecReg => {
                let r0 = reg_index(b[0]);
                let x = self.reg_at(r0);
                self.set_reg_at(r0, x.wrapping_sub(1));
                Ok(false)
            },
            OpCode::NotReg => {
                let r0 = reg_index(b[0]);
                let x = self.reg_at(r0);
                self.set_reg_at(r0, !x);
                Ok(false)
            },
            OpCode::JmpNELit | OpCode::JmpEQLit | OpCode::JmpLTLit | OpCode::JmpGTLit
            | OpCode::JmpLELit | OpCode::JmpGELit => {
                let acc = self.reg_at(1);
                self.jump_if(condition(op, acc, word(b, 2)), word(b, 0))
            },
            OpCode::JmpNEReg | OpCode::JmpEQReg | OpCode::JmpLTReg | OpCode::JmpGTReg
            | OpCode::JmpLEReg | OpCode::JmpGEReg => {
                let acc = self.reg_at(1);
                let v = self.reg_at(reg_index(b[2]));
                self.jump_if(condition(op, acc, v), word(b, 0))
            },
            OpCode::Jmp => {
                self.set_reg_at(0, word(b, 0));
                Ok(false)
            },
            OpCode::PshLit => self.push(word(b, 0)),
            OpCode::PshReg => {
                let v = self.reg_at(reg_index(b[0]));
                self.push(v)
            },
            OpCode::Pop => self.pop_into(reg_index(b[0])),
            OpCode::CalLit => self.call(word(b, 0)),
            OpCode::CalReg => {
                let target = self.reg_at(reg_index(b[0]));
                self.call(target)
            },
            OpCode::Ret => self.pop_into(0),
            OpCode::Hlt => Ok(true),
            OpCode::Nop | OpCode::SysLit => Ok(false),
        }
    }

    /// Executes `instruction`, whose tag byte has been fetched: fetches its
    /// operands and carries it out. Returns `true` when it halts the CPU.
    pub fn execute(&mut self, instruction: OpCode) -> (r: Result<bool, CpuError>)
        requires
            old(self).wf(),
        ensures
            final(self).wf(),
            (final(self)@, r) == execute_spec(old(self)@, instruction),
    {
        match self.fetch_buf(operand_len(instruction)) {
            Ok(b) => self.apply(instruction, &b),
            Err(e) => Err(e),
        }
    }

    /// Fetches, decodes and executes one instruction. Returns `true` when it
    /// halts the CPU.
    pub fn step(&mut self) -> (r: Result<bool, CpuError>)
        requires
            old(self).wf(),
        ensures
            final(self).wf(),
            (final(self)@, r) == step_spec(old(self)@),
    {
        match self.fetch() {
            Ok(instruction) => self.execute(OpCode::from(instruction)),
            Err(e) => Err(e),
        }
    }
}

/// The result of a two-operand arithmetic or bitwise instruction.
fn alu(op: OpCode, x: u16, y: u16) -> (r: u16)
    ensures
        r == alu_spec(op, x, y),
{
    match op {
        OpCode::AddRegReg | OpCode::AddLitReg => x.wrapping_add(y),
        OpCode::SubRegReg | OpCode::SubRegLit | OpCode::SubLitReg => x.wrapping_sub(y),
        OpCode::MulRegReg | OpCode::MulLitReg => x.wrapping_mul(y),
        OpCode::ShlRegReg | OpCode::ShlRegLit => {
            if y >= 16 {
                0
            } else {
                x << y
            }
        },
        OpCode::ShrRegReg | OpCode::ShrRegLit => {
            if y >= 16 {
                0
            } else {
                x >> y
            }
        },
        OpCode::AndRegReg | OpCode::AndRegLit => x & y,
        OpCode::OrRegReg | OpCode::OrRegLit => x | y,
        _ => x ^ y,
    }
}

/// The comparison of a conditional jump between `ACC` and the operand `v`.
fn condition(op: OpCode, acc: u16, v: u16) -> (r: bool)
    ensures
        r == jump_condition(op, acc, v),
{
    match op {
        OpCode::JmpNELit | OpCode::JmpNEReg => acc != v,
        OpCode::JmpEQLit | OpCode::JmpEQReg => acc == v,
        OpCode::JmpLTLit | OpCode::JmpLTReg => acc < v,
        OpCode::JmpGTLit | OpCode::JmpGTReg => acc > v,
        OpCode::JmpLELit | OpCode::JmpLEReg => acc <= v,
        _ => acc >= v,
    }
}

} // verus!
