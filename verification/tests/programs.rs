use rustanel::compiler::{CompilationError, Compiler, MAX_PROGRAM_SIZE};
use rustanel::executor::{ProgramExecutor, RuntimeError};

fn compile(source: &str) -> Compiler {
    let mut compiler = Compiler::build();
    compiler.compile_code(source);
    compiler
}

fn run(source: &str, steps: usize) -> ProgramExecutor {
    let compiler = compile(source);
    assert!(compiler.errors.is_empty(), "{:?}", compiler.errors);
    let mut executor = ProgramExecutor::default();
    executor.prepare_for_a_new_run();
    executor.load_program(&compiler.program);
    for _ in 0..steps {
        executor.execute_next_instruction().unwrap();
    }
    executor
}

#[test]
fn smallest_image() {
    let compiler = compile("stop");
    assert!(compiler.errors.is_empty());
    assert_eq!(compiler.program.len(), MAX_PROGRAM_SIZE);
    assert_eq!(compiler.program[0], 13);
    assert!(compiler.program[1..].iter().all(|&byte| byte == 0));

    let mut executor = ProgramExecutor::default();
    executor.prepare_for_a_new_run();
    executor.load_program(&compiler.program);
    assert!(!executor.has_finished);
    assert_eq!(executor.execute_next_instruction(), Ok(()));
    assert!(executor.has_finished);
    assert_eq!(executor.curr_addr, 0);
}

#[test]
fn immediate_load() {
    let compiler = compile("mov r0, 1");
    assert!(compiler.errors.is_empty());
    assert_eq!(&compiler.program[..4], &[1, 0x0F, 0x00, 0x01]);
    assert!(compiler.program[4..].iter().all(|&byte| byte == 0));

    let executor = run("mov r0, 1", 1);
    assert_eq!(executor.registers[0], 1);
    assert_eq!(executor.curr_addr, 4);
    assert!(!executor.has_finished);
}

const LOOP: &str = "mov r0, -1\na:\nadd r0, 1\njmp @a\nstop";

#[test]
fn backward_label_and_loop_image() {
    let compiler = compile(LOOP);
    assert!(compiler.errors.is_empty());
    assert_eq!(
        &compiler.program[..14],
        &[1, 0x0F, 0xFF, 0xFF, 2, 0x0F, 0x00, 0x01, 10, 0xF0, 0x00, 0x04, 13, 0]
    );
    assert!(compiler.program[14..].iter().all(|&byte| byte == 0));
}

#[test]
fn backward_label_and_loop() {
    assert_eq!(run(LOOP, 1).registers[0], 0xFFFF);
    assert_eq!(run(LOOP, 2).registers[0], 0);
    for k in 1..40usize {
        let executor = run(LOOP, 1 + 2 * k);
        assert_eq!(executor.registers[0] as usize, k - 1);
        assert_eq!(executor.curr_addr, 4);
        assert!(!executor.has_finished);
    }
}

#[test]
fn post_increment_copy() {
    let compiler = compile("mov (r0), (r1)+");
    assert!(compiler.errors.is_empty());
    assert_eq!(&compiler.program[..2], &[1, 0x5B]);

    let mut executor = ProgramExecutor::default();
    executor.prepare_for_a_new_run();
    executor.load_program(&compiler.program);
    executor.registers[0] = 0x100;
    executor.registers[1] = 0x200;
    executor.memory[0x200] = 0xAB;
    executor.memory[0x201] = 0xCD;
    assert_eq!(executor.execute_next_instruction(), Ok(()));
    assert_eq!(executor.memory[0x100], 0xAB);
    assert_eq!(executor.memory[0x101], 0xCD);
    assert_eq!(executor.registers[1], 0x202);
    assert_eq!(executor.registers[0], 0x100);
    assert_eq!(executor.curr_addr, 2);
}

#[test]
fn label_not_found() {
    let compiler = compile("jmp @nowhere");
    assert_eq!(compiler.errors.len(), 1);
    let (range, error) = &compiler.errors[0];
    assert_eq!(*range, 0..12);
    match error {
        CompilationError::NoLabelWithSuchName { line, name } => {
            assert_eq!(*line, 0);
            assert_eq!(name, "nowhere");
        }
        other => panic!("{other:?}"),
    }
    assert_eq!(&compiler.program[..4], &[10, 0xF0, 0, 0]);
}

#[test]
fn out_of_memory() {
    let source = vec!["nop"; 2049].join("\n");
    let compiler = compile(&source);
    assert_eq!(compiler.errors.len(), 1);
    let (range, error) = &compiler.errors[0];
    assert_eq!(*range, 2048 * 4..2049 * 4);
    assert!(matches!(error, CompilationError::OutOfMemory { line: 2048 }));
    assert!(compiler.program.iter().all(|&byte| byte == 0));
}

#[test]
fn image_filled_to_the_last_byte() {
    let source = vec!["stop"; 2048].join("\n");
    let compiler = compile(&source);
    assert!(compiler.errors.is_empty());
    for addr in 0..MAX_PROGRAM_SIZE {
        assert_eq!(compiler.program[addr], if addr % 2 == 0 { 13 } else { 0 });
    }
}

#[test]
fn out_of_memory_does_not_stop_later_lines() {
    let mut lines = vec!["nop"; 2047];
    lines.push("mov r0, 1");
    lines.push("bogus");
    lines.push("stop");
    lines.push("stop");
    let compiler = compile(&lines.join("\n"));
    assert_eq!(compiler.errors.len(), 3);
    assert!(matches!(compiler.errors[0].1, CompilationError::OutOfMemory { line: 2047 }));
    assert!(matches!(compiler.errors[1].1, CompilationError::UnknownInstruction { line: 2048, .. }));
    assert!(matches!(compiler.errors[2].1, CompilationError::OutOfMemory { line: 2050 }));
    assert_eq!(&compiler.program[4094..], &[13, 0]);
}

#[test]
fn port_write_read() {
    let executor = run("wrt p3, 0xFFFF\nread r0, p3", 2);
    assert_eq!(executor.display[3], 0xFFFF);
    assert_eq!(executor.registers[0], 0xFFFF);
    assert_eq!(executor.curr_addr, 6);
    for port in 0..16 {
        if port != 3 {
            assert_eq!(executor.display[port], 0);
        }
    }
}

#[test]
fn port_write_read_image() {
    let compiler = compile("wrt p3, 0xFFFF\nread r0, p3");
    assert!(compiler.errors.is_empty());
    assert_eq!(&compiler.program[..6], &[11, 0x3F, 0xFF, 0xFF, 12, 0x03]);
}

#[test]
fn runtime_errors() {
    let mut executor = ProgramExecutor::default();
    executor.prepare_for_a_new_run();
    executor.memory[0] = 200;
    assert_eq!(
        executor.execute_next_instruction(),
        Err(RuntimeError::InvalidInstruction { addr: 0, opcode: 200 })
    );
    assert!(executor.has_finished);
}
