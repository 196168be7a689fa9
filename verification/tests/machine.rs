use rustanel::compiler::Compiler;
use rustanel::executor::{Command, ProgramExecutor, RuntimeError};
use rustanel::instruction_set::{
    AcceptedOperandTypes, InstructionOperand, InstructionOperands, Operation,
};

fn machine_with(source: &str) -> ProgramExecutor {
    let mut compiler = Compiler::build();
    compiler.compile_code(source);
    assert!(compiler.errors.is_empty(), "{:?}", compiler.errors);
    let mut executor = ProgramExecutor::default();
    executor.prepare_for_a_new_run();
    executor.load_program(&compiler.program);
    executor
}

fn snapshot(executor: &ProgramExecutor) -> ([u16; 5], u16, Vec<u8>, [u16; 16], bool, bool, usize) {
    (
        executor.registers,
        executor.program_state_reg,
        executor.memory.to_vec(),
        executor.display,
        executor.has_finished,
        executor.is_in_debug_mode,
        executor.curr_addr,
    )
}

#[test]
fn a_new_machine_is_halted_and_empty() {
    let executor = ProgramExecutor::default();
    assert_eq!(executor.registers, [0, 0, 0, 0, 0x0FFF]);
    assert_eq!(executor.program_state_reg, 0);
    assert!(executor.memory.iter().all(|&byte| byte == 0));
    assert_eq!(executor.display, [0; 16]);
    assert!(executor.has_finished);
    assert!(!executor.is_in_debug_mode);
    assert_eq!(executor.curr_addr, 0);
}

#[test]
fn preparing_a_run_rewinds() {
    let mut executor = ProgramExecutor::default();
    executor.registers = [1, 2, 3, 4, 5];
    executor.curr_addr = 77;
    executor.memory[9] = 9;
    executor.program_state_reg = 8;
    executor.prepare_for_a_new_run();
    assert_eq!(executor.registers, [1, 2, 3, 4, 0x0FFF]);
    assert_eq!(executor.curr_addr, 0);
    assert!(!executor.has_finished);
    assert_eq!(executor.memory[9], 9);
    assert_eq!(executor.program_state_reg, 8);
}

#[test]
fn clearing_registers_keeps_memory() {
    let mut executor = ProgramExecutor::default();
    executor.registers = [1, 2, 3, 4, 5];
    executor.program_state_reg = 8;
    executor.memory[9] = 9;
    executor.curr_addr = 6;
    executor.clear_registers();
    assert_eq!(executor.registers, [0, 0, 0, 0, 0x0FFF]);
    assert_eq!(executor.program_state_reg, 0);
    assert_eq!(executor.memory[9], 9);
    assert_eq!(executor.curr_addr, 6);
}

#[test]
fn overflow_flag_is_bit_three() {
    let mut executor = ProgramExecutor::default();
    executor.set_overflow(true);
    assert_eq!(executor.program_state_reg, 0b1000);
    executor.set_overflow(false);
    assert_eq!(executor.program_state_reg, 0);
}

#[test]
fn bytes_and_words() {
    let mut executor = ProgramExecutor::default();
    executor.curr_addr = 6;
    assert_eq!(executor.write_u8(0x10, 0xAB), Ok(()));
    assert_eq!(executor.read_u8(0x10), Ok(0xAB));
    assert_eq!(executor.write_u16(0x20, 0x1234), Ok(()));
    assert_eq!(executor.memory[0x20], 0x12);
    assert_eq!(executor.memory[0x21], 0x34);
    assert_eq!(executor.read_u16(0x20), Ok(0x1234));
    assert_eq!(executor.read_u8(0x0FFF), Ok(0));
    assert_eq!(
        executor.read_u8(0x1000),
        Err(RuntimeError::InvalidAddress { addr: 6, target: 0x1000 })
    );
    assert_eq!(
        executor.write_u8(0xFFFF, 1),
        Err(RuntimeError::InvalidAddress { addr: 6, target: 0xFFFF })
    );
}

#[test]
fn a_word_across_the_end_of_memory() {
    let mut executor = ProgramExecutor::default();
    assert_eq!(
        executor.read_u16(0x0FFF),
        Err(RuntimeError::InvalidAddress { addr: 0, target: 0x1000 })
    );
    assert_eq!(
        executor.write_u16(0x0FFF, 0xABCD),
        Err(RuntimeError::InvalidAddress { addr: 0, target: 0x1000 })
    );
    assert_eq!(executor.memory[0x0FFF], 0xAB);
    assert_eq!(
        executor.read_u16(0xFFFF),
        Err(RuntimeError::InvalidAddress { addr: 0, target: 0xFFFF })
    );
}

#[test]
fn program_counter_wraps() {
    let mut executor = ProgramExecutor::default();
    executor.curr_addr = 4094;
    executor.add_to_pc(4);
    assert_eq!(executor.curr_addr, 2);
    executor.add_to_pc(4096 * 3 + 5);
    assert_eq!(executor.curr_addr, 7);
    executor.add_to_pc(usize::MAX);
    assert_eq!(executor.curr_addr, (7 + (usize::MAX % 4096)) % 4096);
}

#[test]
fn nop_at_the_end_wraps_to_the_start() {
    let mut executor = ProgramExecutor::default();
    executor.prepare_for_a_new_run();
    executor.curr_addr = 4094;
    assert_eq!(executor.execute_next_instruction(), Ok(()));
    assert_eq!(executor.curr_addr, 0);
}

#[test]
fn an_instruction_cut_by_the_end_of_memory() {
    let mut executor = ProgramExecutor::default();
    executor.prepare_for_a_new_run();
    executor.curr_addr = 4095;
    assert_eq!(
        executor.execute_next_instruction(),
        Err(RuntimeError::InvalidAddress { addr: 4095, target: 4096 })
    );
    assert!(executor.has_finished);

    let mut executor = ProgramExecutor::default();
    executor.prepare_for_a_new_run();
    executor.curr_addr = 4094;
    executor.memory[4094] = 10;
    executor.memory[4095] = 0xF0;
    assert_eq!(
        executor.execute_next_instruction(),
        Err(RuntimeError::InvalidAddress { addr: 4094, target: 4096 })
    );

    let mut executor = ProgramExecutor::default();
    executor.prepare_for_a_new_run();
    executor.curr_addr = 5000;
    assert_eq!(
        executor.execute_next_instruction(),
        Err(RuntimeError::InvalidAddress { addr: 5000, target: 5000 })
    );
}

#[test]
fn add_wraps() {
    for (a, b) in [(0u16, 0u16), (1, 2), (0xFFFF, 1), (0xFFFF, 0xFFFF), (0x8000, 0x8000), (1234, 64302)] {
        let mut executor = machine_with(&format!("add r0, {b}"));
        executor.registers[0] = a;
        assert_eq!(executor.execute_next_instruction(), Ok(()));
        assert_eq!(executor.registers[0] as u32, (a as u32 + b as u32) % 65536);
        assert_eq!(executor.curr_addr, 4);
    }
}

#[test]
fn arithmetic_and_logic() {
    let cases: [(&str, u16, u16, u16); 12] = [
        ("add", 0xFFFF, 2, 1),
        ("sub", 0, 1, 0xFFFF),
        ("sub", 10, 3, 7),
        ("mul", 0x1000, 0x10, 0),
        ("mul", 300, 300, 24464),
        ("div", 7, 2, 3),
        ("div", 0xFFFF, 0xFFFF, 1),
        ("div", 5, 9, 0),
        ("and", 0b1100, 0b1010, 0b1000),
        ("or", 0b1100, 0b1010, 0b1110),
        ("xor", 0b1100, 0b1010, 0b0110),
        ("mov", 5, 9, 9),
    ];
    for (name, a, b, expected) in cases {
        let mut executor = machine_with(&format!("{name} r1, r2"));
        executor.registers[1] = a;
        executor.registers[2] = b;
        assert_eq!(executor.execute_next_instruction(), Ok(()), "{name}");
        assert_eq!(executor.registers[1], expected, "{name}");
        assert_eq!(executor.registers[2], b, "{name}");
        assert_eq!(executor.curr_addr, 2);
    }
}

#[test]
fn complement() {
    let mut executor = machine_with("not r3");
    executor.registers[3] = 0x0F0F;
    assert_eq!(executor.execute_next_instruction(), Ok(()));
    assert_eq!(executor.registers[3], 0xF0F0);
    assert_eq!(executor.curr_addr, 2);
}

#[test]
fn division_by_zero_fails() {
    let mut executor = machine_with("nop\ndiv r0, (r1)+");
    executor.registers[0] = 7;
    executor.registers[1] = 0x100;
    assert_eq!(executor.execute_next_instruction(), Ok(()));
    assert_eq!(
        executor.execute_next_instruction(),
        Err(RuntimeError::DivisionByZero { addr: 2 })
    );
    assert!(executor.has_finished);
    assert_eq!(executor.registers[0], 7);
    assert_eq!(executor.registers[1], 0x102);
    assert_eq!(executor.curr_addr, 2);
}

#[test]
fn jumps() {
    let mut executor = machine_with("jmp 0x0FFE");
    assert_eq!(executor.execute_next_instruction(), Ok(()));
    assert_eq!(executor.curr_addr, 0x0FFE);

    let mut executor = machine_with("jmp 0x1000");
    assert_eq!(
        executor.execute_next_instruction(),
        Err(RuntimeError::InvalidAddress { addr: 0, target: 0x1000 })
    );
    assert!(executor.has_finished);
    assert_eq!(executor.curr_addr, 0);

    let mut executor = machine_with("jmp (r2)+");
    executor.registers[2] = 0x200;
    executor.memory[0x200] = 0x01;
    executor.memory[0x201] = 0x02;
    assert_eq!(executor.execute_next_instruction(), Ok(()));
    assert_eq!(executor.curr_addr, 0x0102);
    assert_eq!(executor.registers[2], 0x202);
}

#[test]
fn invalid_instruction() {
    let mut executor = ProgramExecutor::default();
    executor.prepare_for_a_new_run();
    executor.curr_addr = 8;
    executor.memory[8] = 14;
    assert_eq!(
        executor.execute_next_instruction(),
        Err(RuntimeError::InvalidInstruction { addr: 8, opcode: 14 })
    );
    assert!(executor.has_finished);
    assert_eq!(executor.curr_addr, 8);
}

#[test]
fn invalid_operands() {
    // `mov` takes no immediate as its first operand.
    let mut executor = ProgramExecutor::default();
    executor.prepare_for_a_new_run();
    executor.memory[0] = 1;
    executor.memory[1] = 0xF0;
    assert_eq!(
        executor.execute_next_instruction(),
        Err(RuntimeError::InvalidOperand { addr: 0, nibble: 0xF })
    );
    assert!(executor.has_finished);

    // `not` takes no immediate either.
    let mut executor = ProgramExecutor::default();
    executor.prepare_for_a_new_run();
    executor.memory[0] = 9;
    executor.memory[1] = 0xF0;
    assert_eq!(
        executor.execute_next_instruction(),
        Err(RuntimeError::InvalidOperand { addr: 0, nibble: 0xF })
    );

    // The second operand is looked at after the first.
    let mut executor = ProgramExecutor::default();
    executor.prepare_for_a_new_run();
    executor.memory[0] = 12;
    executor.memory[1] = 0xF3;
    assert_eq!(
        executor.execute_next_instruction(),
        Err(RuntimeError::InvalidOperand { addr: 0, nibble: 0xF })
    );
}

#[test]
fn nibbles_decode_by_the_mask() {
    let mut executor = ProgramExecutor::default();
    executor.memory[2] = 0xAB;
    executor.memory[3] = 0xCD;
    let port = 0b01000;
    let place = 0b00111;
    let value = 0b10111;
    for nibble in 0..16 {
        assert_eq!(
            executor.get_instruction_operand(port, nibble),
            Ok(InstructionOperand::Port(nibble))
        );
        let expected = match nibble {
            0..=4 => Ok(InstructionOperand::Reg(nibble)),
            5..=9 => Ok(InstructionOperand::Addr(nibble - 5)),
            10..=14 => Ok(InstructionOperand::AddrInc(nibble - 10)),
            _ => Err(RuntimeError::InvalidOperand { addr: 0, nibble }),
        };
        assert_eq!(executor.get_instruction_operand(place, nibble), expected);
        let expected = if nibble == 15 { Ok(InstructionOperand::Number(0xABCD)) } else { expected };
        assert_eq!(executor.get_instruction_operand(value, nibble), expected);
        assert_eq!(
            executor.get_instruction_operand(0, nibble),
            Err(RuntimeError::InvalidOperand { addr: 0, nibble })
        );
    }
    assert_eq!(
        executor.get_instruction_operand(0b00001, 5),
        Err(RuntimeError::InvalidOperand { addr: 0, nibble: 5 })
    );
    assert_eq!(
        executor.get_instruction_operand(0b10000, 3),
        Err(RuntimeError::InvalidOperand { addr: 0, nibble: 3 })
    );
}

#[test]
fn operands_decode_by_the_instruction() {
    let mut executor = ProgramExecutor::default();
    executor.memory[1] = 0xCF;
    executor.memory[2] = 0x12;
    executor.memory[3] = 0x34;
    assert_eq!(
        executor.get_instruction_operands(AcceptedOperandTypes(0, 0)),
        Ok(InstructionOperands::Zero)
    );
    assert_eq!(
        executor.get_instruction_operands(AcceptedOperandTypes(0, 0b00111)),
        Ok(InstructionOperands::Zero)
    );
    assert_eq!(
        executor.get_instruction_operands(AcceptedOperandTypes(0b00111, 0)),
        Ok(InstructionOperands::One(InstructionOperand::AddrInc(2)))
    );
    assert_eq!(
        executor.get_instruction_operands(AcceptedOperandTypes(0b00111, 0b10111)),
        Ok(InstructionOperands::Two(
            InstructionOperand::AddrInc(2),
            InstructionOperand::Number(0x1234)
        ))
    );
    assert_eq!(
        executor.get_instruction_operands(AcceptedOperandTypes(0b01000, 0b01000)),
        Ok(InstructionOperands::Two(InstructionOperand::Port(12), InstructionOperand::Port(15)))
    );
}

#[test]
fn what_is_assembled_is_decoded() {
    let cases = [
        ("mov r0, r1", 0b00111, 0b10111, InstructionOperand::Reg(0), InstructionOperand::Reg(1)),
        ("mov sp, (sp)", 0b00111, 0b10111, InstructionOperand::Reg(4), InstructionOperand::Addr(4)),
        ("add (r3)+, 0xBEEF", 0b00111, 0b10111, InstructionOperand::AddrInc(3), InstructionOperand::Number(0xBEEF)),
        ("wrt p15, (r2)+", 0b01000, 0b10111, InstructionOperand::Port(15), InstructionOperand::AddrInc(2)),
        ("read (r1), p0", 0b00111, 0b01000, InstructionOperand::Addr(1), InstructionOperand::Port(0)),
    ];
    for (source, first, second, a, b) in cases {
        let executor = machine_with(source);
        assert_eq!(
            executor.get_instruction_operands(AcceptedOperandTypes(first, second)),
            Ok(InstructionOperands::Two(a, b)),
            "{source}"
        );
    }
}

#[test]
fn reading_and_writing_operands() {
    let mut executor = ProgramExecutor::default();
    executor.registers = [0x100, 0x200, 7, 0, 0x0FFF];
    executor.memory[0x100] = 0xAA;
    executor.memory[0x101] = 0xBB;
    executor.display[5] = 55;
    assert_eq!(executor.read_from(InstructionOperand::Reg(2)), Ok(7));
    assert_eq!(executor.read_from(InstructionOperand::Number(9)), Ok(9));
    assert_eq!(executor.read_from(InstructionOperand::Port(5)), Ok(55));
    assert_eq!(executor.read_from(InstructionOperand::Addr(0)), Ok(0xAABB));
    assert_eq!(executor.registers[0], 0x100);
    assert_eq!(executor.read_from(InstructionOperand::AddrInc(0)), Ok(0xAABB));
    assert_eq!(executor.registers[0], 0x102);

    assert_eq!(executor.write_to(InstructionOperand::Reg(3), 3), Ok(()));
    assert_eq!(executor.registers[3], 3);
    assert_eq!(executor.write_to(InstructionOperand::Port(15), 0x8001), Ok(()));
    assert_eq!(executor.display[15], 0x8001);
    assert_eq!(executor.write_to(InstructionOperand::Addr(1), 0x1122), Ok(()));
    assert_eq!(&executor.memory[0x200..0x202], &[0x11, 0x22]);
    assert_eq!(executor.registers[1], 0x200);
    assert_eq!(executor.write_to(InstructionOperand::AddrInc(1), 0x3344), Ok(()));
    assert_eq!(&executor.memory[0x200..0x202], &[0x33, 0x44]);
    assert_eq!(executor.registers[1], 0x202);
}

#[test]
fn a_failed_access_does_not_increment() {
    let mut executor = ProgramExecutor::default();
    executor.registers[0] = 0x2000;
    assert_eq!(
        executor.read_from(InstructionOperand::AddrInc(0)),
        Err(RuntimeError::InvalidAddress { addr: 0, target: 0x2000 })
    );
    assert_eq!(executor.registers[0], 0x2000);
    assert_eq!(
        executor.write_to(InstructionOperand::AddrInc(0), 1),
        Err(RuntimeError::InvalidAddress { addr: 0, target: 0x2000 })
    );
    assert_eq!(executor.registers[0], 0x2000);
}

#[test]
fn incrementing_wraps_the_register() {
    let mut executor = ProgramExecutor::default();
    executor.registers[0] = 0x0FFE;
    assert_eq!(executor.read_from(InstructionOperand::AddrInc(0)), Ok(0));
    assert_eq!(executor.registers[0], 0x1000);
}

#[test]
fn filling_memory_with_post_increment() {
    let mut executor = machine_with("mov (r1)+, 0xFFFF\nmov (r1)+, 0x1234");
    executor.registers[1] = 0x300;
    assert_eq!(executor.execute_next_instruction(), Ok(()));
    assert_eq!(executor.execute_next_instruction(), Ok(()));
    assert_eq!(&executor.memory[0x300..0x304], &[0xFF, 0xFF, 0x12, 0x34]);
    assert_eq!(executor.registers[1], 0x304);
    assert_eq!(executor.curr_addr, 8);
}

#[test]
fn arithmetic_on_an_address_with_increment() {
    // The operand is read, which moves the register on, and the result is
    // written where the register then points, which moves it on again.
    let mut executor = machine_with("add (r0)+, 1");
    executor.registers[0] = 0x100;
    executor.memory[0x101] = 41;
    assert_eq!(executor.execute_next_instruction(), Ok(()));
    assert_eq!(&executor.memory[0x100..0x104], &[0, 41, 0, 42]);
    assert_eq!(executor.registers[0], 0x104);
}

#[test]
fn halt_is_sticky() {
    let mut executor = machine_with("mov r0, 5\nstop\nmov r0, 6");
    assert_eq!(executor.execute_next_instruction(), Ok(()));
    assert_eq!(executor.execute_next_instruction(), Ok(()));
    assert!(executor.has_finished);
    let halted = snapshot(&executor);
    for _ in 0..10 {
        assert_eq!(executor.execute_next_instruction(), Ok(()));
        assert_eq!(snapshot(&executor), halted);
    }
    assert_eq!(executor.registers[0], 5);
    assert_eq!(executor.curr_addr, 4);
}

#[test]
fn a_failure_is_sticky_too() {
    let mut executor = machine_with("jmp 0xFFFF");
    assert!(executor.execute_next_instruction().is_err());
    let halted = snapshot(&executor);
    assert_eq!(executor.execute_next_instruction(), Ok(()));
    assert_eq!(snapshot(&executor), halted);
}

#[test]
fn state_stays_bounded() {
    let mut executor = machine_with(
        "mov r0, 0x0FF0\nmov r1, @data\nloop:\nadd r0, 7\nmul r0, 3\nmov (r1)+, r0\nsub r2, 1\nxor r3, r0\njmp @loop\ndata:",
    );
    for _ in 0..5000 {
        let _ = executor.execute_next_instruction();
        assert!(executor.curr_addr < 4096);
    }
}

#[test]
fn executing_decoded_instructions() {
    let mut executor = ProgramExecutor::default();
    executor.prepare_for_a_new_run();
    assert_eq!(executor.execute(Operation::Nop, InstructionOperands::Zero), Ok(()));
    assert_eq!(executor.curr_addr, 2);
    let operands = InstructionOperands::Two(InstructionOperand::Port(1), InstructionOperand::Number(3));
    assert_eq!(executor.execute(Operation::Wrt, operands), Ok(()));
    assert_eq!(executor.display[1], 3);
    assert_eq!(executor.curr_addr, 6);
    assert_eq!(executor.execute(Operation::Stop, InstructionOperands::Zero), Ok(()));
    assert!(executor.has_finished);
}

#[test]
fn failures_in_words() {
    assert_eq!(
        RuntimeError::InvalidInstruction { addr: 0, opcode: 200 }.to_string(),
        "line 1: Invalid instruction: `c8`"
    );
    assert_eq!(
        RuntimeError::InvalidOperand { addr: 9, nibble: 15 }.to_string(),
        "line 10: Invalid operand: `f`"
    );
    assert_eq!(
        RuntimeError::InvalidAddress { addr: 4094, target: 0x1000 }.to_string(),
        "line 4095: Invalid address: `1000`"
    );
    assert_eq!(
        RuntimeError::DivisionByZero { addr: 122 }.to_string(),
        "line 123: Division by zero"
    );
}

#[test]
fn commands() {
    let mut image = [0u8; 4096];
    image[0] = 13;
    let mut executor = ProgramExecutor::default();
    executor.registers = [1, 2, 3, 4, 5];
    executor.curr_addr = 8;

    // Build loads and halts.
    executor.has_finished = false;
    assert!(!executor.command(Command::Build, Some(&image)));
    assert!(executor.has_finished);
    assert!(!executor.is_in_debug_mode);
    assert_eq!(executor.memory[0], 13);
    assert_eq!(executor.curr_addr, 8);
    assert_eq!(executor.registers, [1, 2, 3, 4, 5]);

    // Run rewinds, loads and starts.
    executor.memory[0] = 0;
    assert!(executor.command(Command::Run, Some(&image)));
    assert!(!executor.has_finished);
    assert!(!executor.is_in_debug_mode);
    assert_eq!(executor.memory[0], 13);
    assert_eq!(executor.curr_addr, 0);
    assert_eq!(executor.registers, [1, 2, 3, 4, 0x0FFF]);

    // A machine that runs ignores Run.
    executor.curr_addr = 6;
    executor.memory[0] = 1;
    assert!(!executor.command(Command::Run, Some(&image)));
    assert_eq!(executor.curr_addr, 6);
    assert_eq!(executor.memory[0], 1);

    // Stop halts a machine that runs.
    assert!(!executor.command(Command::Stop, None));
    assert!(executor.has_finished);

    // Without a program Run halts.
    assert!(!executor.command(Command::Run, None));
    assert!(executor.has_finished);
    assert_eq!(executor.curr_addr, 0);
    assert_eq!(executor.memory[0], 1);

    // Step over starts to step, then steps.
    executor.curr_addr = 6;
    assert!(!executor.command(Command::StepOver, Some(&image)));
    assert!(executor.is_in_debug_mode);
    assert!(!executor.has_finished);
    assert_eq!(executor.curr_addr, 0);
    assert_eq!(executor.memory[0], 13);
    assert!(executor.command(Command::StepOver, Some(&image)));
    assert!(executor.command(Command::StepOver, None));
    assert!(executor.is_in_debug_mode);
    assert!(!executor.has_finished);

    // Stop does nothing to a machine that is stepped through.
    assert!(!executor.command(Command::Stop, None));
    assert!(!executor.has_finished);

    // Step over a halted machine without a program.
    executor.has_finished = true;
    assert!(!executor.command(Command::StepOver, None));
    assert!(executor.has_finished);

    // Clear registers.
    executor.registers = [1, 2, 3, 4, 5];
    executor.program_state_reg = 8;
    assert!(!executor.command(Command::ClearRegisters, None));
    assert_eq!(executor.registers, [0, 0, 0, 0, 0x0FFF]);
    assert_eq!(executor.program_state_reg, 0);
    assert_eq!(executor.memory[0], 13);
}

#[test]
fn a_program_that_compiled() {
    let mut compiler = Compiler::build();
    assert!(compiler.checked_program().is_some());
    compiler.compile_code("stop");
    assert_eq!(compiler.checked_program().unwrap()[0], 13);
    compiler.compile_code("bogus");
    assert!(compiler.checked_program().is_none());
    compiler.compile_code("nop");
    assert!(compiler.checked_program().is_some());
}
