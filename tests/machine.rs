use rustystack::cpu::{CpuError, CPU};
use rustystack::memory::{Memory, MemoryBuilder};
use rustystack::opcodes::OpCode;
use rustystack::register::Register;
use rustystack::to_u16;

fn cpu_with(program: &[u8]) -> CPU {
    let mut mem = MemoryBuilder::new(Memory::new(256 * 255));
    for b in program {
        mem.push(*b);
    }
    CPU::new(mem.build())
}

fn run_steps(cpu: &mut CPU, n: usize) {
    for _ in 0..n {
        cpu.step().unwrap();
    }
}

#[test]
fn push_pop_swaps_registers() {
    let mut cpu = cpu_with(&[
        OpCode::MovLitReg.into(), 0x51, 0x51, 2,
        OpCode::MovLitReg.into(), 0x42, 0x42, 3,
        OpCode::PshReg.into(), 2,
        OpCode::PshReg.into(), 3,
        OpCode::Pop.into(), 2,
        OpCode::Pop.into(), 3,
    ]);
    run_steps(&mut cpu, 6);
    assert_eq!(cpu.get_register(&Register::R1), 0x4242);
    assert_eq!(cpu.get_register(&Register::R2), 0x5151);
    assert_eq!(cpu.get_register(&Register::SP), 0xFEFE);
    assert_eq!(cpu.get_register(&Register::BP), 0xFEFE);
}

#[test]
fn arithmetic_wraps() {
    let mut cpu = cpu_with(&[
        OpCode::MovLitReg.into(), 0xFF, 0xFF, 2,
        OpCode::AddLitReg.into(), 0x00, 0x02, 2,
        OpCode::SubRegLit.into(), 3, 0x00, 0x01,
        OpCode::MulLitReg.into(), 0x01, 0x00, 2,
        OpCode::IncReg.into(), 2,
        OpCode::DecReg.into(), 3,
    ]);
    cpu.step().unwrap();
    cpu.step().unwrap();
    assert_eq!(cpu.get_register(&Register::ACC), 0x0001);
    cpu.step().unwrap();
    assert_eq!(cpu.get_register(&Register::ACC), 0xFFFF);
    cpu.step().unwrap();
    assert_eq!(cpu.get_register(&Register::ACC), 0xFF00);
    cpu.step().unwrap();
    assert_eq!(cpu.get_register(&Register::R1), 0x0000);
    cpu.step().unwrap();
    assert_eq!(cpu.get_register(&Register::R2), 0xFFFF);
}

#[test]
fn bitwise_operations_act_in_place() {
    let mut cpu = cpu_with(&[
        OpCode::MovLitReg.into(), 0x0F, 0xF0, 2,
        OpCode::MovLitReg.into(), 0x00, 0x04, 3,
        OpCode::ShlRegReg.into(), 2, 3,
        OpCode::ShrRegLit.into(), 2, 0x00, 0x08,
        OpCode::AndRegLit.into(), 2, 0x00, 0xF0,
        OpCode::OrRegReg.into(), 2, 3,
        OpCode::XorRegLit.into(), 2, 0x00, 0xFF,
        OpCode::NotReg.into(), 2,
        OpCode::ShlRegLit.into(), 3, 0x00, 0x10,
    ]);
    run_steps(&mut cpu, 3);
    assert_eq!(cpu.get_register(&Register::R1), 0xFF00);
    cpu.step().unwrap();
    assert_eq!(cpu.get_register(&Register::R1), 0x00FF);
    cpu.step().unwrap();
    assert_eq!(cpu.get_register(&Register::R1), 0x00F0);
    cpu.step().unwrap();
    assert_eq!(cpu.get_register(&Register::R1), 0x00F4);
    cpu.step().unwrap();
    assert_eq!(cpu.get_register(&Register::R1), 0x000B);
    cpu.step().unwrap();
    assert_eq!(cpu.get_register(&Register::R1), 0xFFF4);
    cpu.step().unwrap();
    assert_eq!(cpu.get_register(&Register::R2), 0x0000);
    assert_eq!(cpu.get_register(&Register::ACC), 0);
}

#[test]
fn conditional_jumps_compare_acc_with_operand() {
    // ACC = 5; JmpLTLit to 0x0100 when ACC < 6; JmpGTReg to 0x0200 when ACC > R1 (0).
    let mut cpu = cpu_with(&[
        OpCode::MovLitReg.into(), 0x00, 0x05, 1,
        OpCode::JmpLTLit.into(), 0x01, 0x00, 0x00, 0x06,
    ]);
    run_steps(&mut cpu, 2);
    assert_eq!(cpu.get_register(&Register::IP), 0x0100);
    let mut cpu = cpu_with(&[
        OpCode::MovLitReg.into(), 0x00, 0x05, 1,
        OpCode::JmpGELit.into(), 0x01, 0x00, 0x00, 0x06,
        OpCode::JmpGTReg.into(), 0x02, 0x00, 2,
    ]);
    run_steps(&mut cpu, 2);
    assert_eq!(cpu.get_register(&Register::IP), 9);
    cpu.step().unwrap();
    assert_eq!(cpu.get_register(&Register::IP), 0x0200);
}

#[test]
fn call_register_and_return() {
    let mut cpu = cpu_with(&[
        OpCode::MovLitReg.into(), 0x00, 0x0A, 4,
        OpCode::CalReg.into(), 4,
        OpCode::Hlt.into(), 0, 0, 0,
        OpCode::Ret.into(),
    ]);
    run_steps(&mut cpu, 2);
    assert_eq!(cpu.get_register(&Register::IP), 0x000A);
    assert_eq!(cpu.get_register(&Register::SP), 0xFEFC);
    cpu.step().unwrap();
    assert_eq!(cpu.get_register(&Register::IP), 6);
    assert_eq!(cpu.get_register(&Register::SP), 0xFEFE);
    assert!(cpu.step().unwrap());
}

#[test]
fn memory_moves_through_pointer_and_literal() {
    let mut cpu = cpu_with(&[
        OpCode::MovLitMem.into(), 0xCA, 0xFE, 0x02, 0x00,
        OpCode::MovLitReg.into(), 0x02, 0x00, 2,
        OpCode::MovRegPtrReg.into(), 2, 3,
        OpCode::Jmp.into(), 0x00, 0x20,
    ]);
    run_steps(&mut cpu, 3);
    assert_eq!(cpu.get_register(&Register::R2), 0xCAFE);
    assert_eq!(cpu.inspect_addr(0x0200).unwrap(), "0x0200: 0xCA 0xFE 0x00 0x00 0x00 0x00 0x00 0x00");
    cpu.step().unwrap();
    assert_eq!(cpu.get_register(&Register::IP), 0x0020);
}

#[test]
fn register_bytes_wrap_around_register_count() {
    // 14 % 12 == 2, so the literal lands in R1.
    let mut cpu = cpu_with(&[OpCode::MovLitReg.into(), 0x12, 0x34, 14, OpCode::MovRegReg.into(), 250, 3]);
    run_steps(&mut cpu, 2);
    assert_eq!(cpu.get_register(&Register::R1), 0x1234);
    // 250 % 12 == 10: SP is copied into R2.
    assert_eq!(cpu.get_register(&Register::R2), 0xFEFE);
}

#[test]
fn unassigned_tag_runs_as_nop() {
    let mut cpu = cpu_with(&[0xFF, 0x40, OpCode::Hlt.into()]);
    assert!(!cpu.step().unwrap());
    assert!(!cpu.step().unwrap());
    assert!(cpu.step().unwrap());
    assert_eq!(cpu.get_register(&Register::IP), 3);
}

#[test]
fn fetch_past_memory_faults() {
    let mut mem = MemoryBuilder::new(Memory::new(4));
    mem.push(OpCode::Nop.into());
    mem.push(OpCode::MovLitReg.into());
    mem.push(0x12);
    mem.push(0x34);
    let mut cpu = CPU::new(mem.build());
    cpu.step().unwrap();
    assert!(matches!(cpu.step(), Err(CpuError::InvalidAddress(4))));
    assert_eq!(cpu.get_register(&Register::IP), 4);
    assert!(matches!(cpu.step(), Err(CpuError::InvalidAddress(4))));
    let mut cpu = CPU::new(Memory::new(8));
    cpu.set_register(&Register::IP, 8);
    assert!(matches!(cpu.fetch(), Err(CpuError::InvalidAddress(8))));
    assert_eq!(cpu.get_register(&Register::IP), 8);
}

#[test]
fn fetch_buf_reads_consecutive_bytes() {
    let mut cpu = cpu_with(&[1, 2, 3, 4, 5]);
    assert_eq!(cpu.fetch_buf(3).unwrap(), vec![1, 2, 3]);
    assert_eq!(cpu.get_register(&Register::IP), 3);
    assert_eq!(cpu.fetch().unwrap(), 4);
}

#[test]
fn stack_faults_at_memory_edges() {
    let mut cpu = cpu_with(&[OpCode::Pop.into(), 2]);
    assert!(matches!(cpu.step(), Err(CpuError::InvalidAddress(0xFEFE))));
    let mut cpu = cpu_with(&[OpCode::PshLit.into(), 0, 1]);
    cpu.set_register(&Register::SP, 0);
    assert!(matches!(cpu.step(), Err(CpuError::InvalidAddress(0))));
    let mut cpu = cpu_with(&[OpCode::MovMemReg.into(), 0xFE, 0xFF, 2]);
    assert!(matches!(cpu.step(), Err(CpuError::InvalidAddress(0xFEFF))));
}

#[test]
fn execute_runs_given_instruction() {
    let mut cpu = cpu_with(&[0x00, 0x07, 2]);
    assert!(!cpu.execute(OpCode::MovLitReg).unwrap());
    assert_eq!(cpu.get_register(&Register::R1), 7);
    assert!(cpu.execute(OpCode::Hlt).unwrap());
}

#[test]
fn register_line_lists_all_registers() {
    let mut cpu = CPU::new(Memory::new(100));
    cpu.set_register(&Register::R8, 0xABC);
    assert_eq!(
        cpu.to_string(),
        "IP: 0x0, ACC: 0x0, R1: 0x0, R2: 0x0, R3: 0x0, R4: 0x0, R5: 0x0, R6: 0x0, R7: 0x0, R8: 0xABC, SP: 0x62, BP: 0x62"
    );
}

#[test]
fn memory_accessors() {
    let mut mem = Memory::new(10);
    assert_eq!(mem.len(), 10);
    assert!(!mem.is_empty());
    assert!(Memory::new(0).is_empty());
    assert_eq!(Memory::default().len(), 65535);
    mem.set(3, 0xAA);
    assert_eq!(mem.get(3), Some(0xAA));
    assert_eq!(mem.get(10), None);
    mem.set_buf(4, 6, &[1, 2]);
    assert_eq!(mem.get_buf(2, 7), Some(vec![0, 0xAA, 1, 2, 0]));
    assert_eq!(mem.get_buf(8, 11), None);
    assert_eq!(mem.get_buf(5, 4), None);
    assert_eq!(mem.inspect_addr(6).unwrap(), "0x0006: 0x00 0x00 0x00 0x00");
    assert_eq!(mem.inspect_addr(10).unwrap(), "0x000A:");
    assert!(matches!(mem.inspect_addr(11), Err(CpuError::InvalidAddress(11))));
}

#[test]
fn builder_skips_leave_zeros() {
    let mut b = MemoryBuilder::new(Memory::new(16));
    assert_eq!(b.push(7), 1);
    b.set_counter(5);
    assert_eq!(b.push_u16(0x1234), 7);
    b.incr();
    assert_eq!(b.get_counter(), 8);
    assert_eq!(b.push(9), 9);
    let m = b.build();
    assert_eq!(m.get_buf(0, 9).unwrap(), vec![7, 0, 0, 0, 0, 0x12, 0x34, 0, 9]);
}

#[test]
fn big_endian_words() {
    assert_eq!(to_u16(&[0xBE, 0x01]), 0xBE01);
    assert_eq!(rustystack::to_be_bytes(0xBE01), [0xBE, 0x01]);
}

#[test]
fn register_names_parse_ignoring_case() {
    assert_eq!(Register::from_name("acc").unwrap(), Register::ACC);
    assert_eq!(Register::from_name("Sp").unwrap(), Register::SP);
    assert_eq!("R8".parse::<Register>().unwrap(), Register::R8);
    assert_eq!(Register::BP.name(), "BP");
    match Register::from_name("r9") {
        Err(CpuError::InvalidRegister(s)) => assert_eq!(s, "r9"),
        other => panic!("unexpected result: {:?}", other),
    }
}

#[test]
fn opcode_bytes_round_trip() {
    for b in 0u16..256 {
        let b = b as u8;
        let op = OpCode::from(b);
        let back: u8 = op.into();
        assert!(back == b || (op == OpCode::Nop && back == 0));
    }
    assert_eq!(OpCode::from(0x3Fu8), OpCode::SysLit);
    assert_eq!(u8::from(OpCode::JmpGEReg), 0x3D);
}
