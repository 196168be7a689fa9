//! The executor: registers, display ports and 4 KiB of memory, advanced one
//! instruction at a time.

use crate::compiler::MAX_PROGRAM_SIZE;
use crate::instruction_set::{
    accepts, be_u16, instruction_bytes, instruction_info, instruction_set, lemma_instruction_set_sound,
    port_exclusive, row_is_sound, wrap_u16, AcceptedOperandTypes, InstructionInfo,
    InstructionOperand, InstructionOperands, Operation, ADDR_INC_MASK, ADDR_MASK,
    INSTRUCTION_COUNT, NUMBER_MASK, NUMBER_OPERAND_CODE, PLACE_MASK, PORT_COUNT, PORT_MASK,
    REGISTER_COUNT, REG_MASK, VALUE_MASK,
};
use crate::text::{decimal, hexadecimal, push_decimal, push_hexadecimal};
use vstd::arithmetic::div_mod::{lemma_add_mod_noop, lemma_mod_bound};
use vstd::prelude::*;
use vstd::string::StringExecFns;

verus! {

/// Index of the stack pointer in the register file.
pub const STACK_POINTER: usize = 4;

/// Value of the stack pointer at the start of a run: the last address.
pub const INITIAL_STACK_POINTER: u16 = 0x0FFF;

/// Bit of the program state register that flags an overflow.
pub const OVERFLOW_FLAG: u16 = 0b1000;

/// Why a step failed.
///
/// `addr` is the address of the instruction that was being executed.
#[derive(Debug, Clone, Copy, PartialEq, Eq, Structural)]
pub enum RuntimeError {
    /// The opcode at `addr` is beyond the instruction table.
    InvalidInstruction { addr: usize, opcode: u8 },
    /// The operand nibble is not one that the instruction's mask admits.
    InvalidOperand { addr: usize, nibble: u8 },
    /// A memory access or a jump reached outside the memory.
    InvalidAddress { addr: usize, target: usize },
    /// The divisor of a `div` was zero.
    DivisionByZero { addr: usize },
}

pub type RuntimeResult<T> = Result<T, RuntimeError>;

impl RuntimeError {
    /// The address of the instruction that failed.
    pub open spec fn addr(self) -> usize {
        match self {
            RuntimeError::InvalidInstruction { addr, .. } => addr,
            RuntimeError::InvalidOperand { addr, .. } => addr,
            RuntimeError::InvalidAddress { addr, .. } => addr,
            RuntimeError::DivisionByZero { addr } => addr,
        }
    }

    /// What the failure says, behind the place where it happened; numbers
    /// are in hexadecimal.
    pub open spec fn sentence(self) -> Seq<char> {
        match self {
            RuntimeError::InvalidInstruction { opcode, .. } => ": Invalid instruction: `"@
                + hexadecimal(opcode as nat) + "`"@,
            RuntimeError::InvalidOperand { nibble, .. } => ": Invalid operand: `"@ + hexadecimal(
                nibble as nat,
            ) + "`"@,
            RuntimeError::InvalidAddress { target, .. } => ": Invalid address: `"@ + hexadecimal(
                target as nat,
            ) + "`"@,
            RuntimeError::DivisionByZero { .. } => ": Division by zero"@,
        }
    }

    /// The failure as a sentence for the user: the address of the
    /// instruction, counted from one, and what went wrong.
    pub open spec fn message(self) -> Seq<char> {
        "line "@ + decimal((self.addr() + 1) as nat) + self.sentence()
    }

    /// The failure as a sentence for the user.
    pub fn to_string(&self) -> (message: String)
        ensures
            message@ == self.message(),
    {
        let mut message = String::from_str("line ");
        match self {
            RuntimeError::InvalidInstruction { addr, opcode } => {
                push_decimal(&mut message, *addr as u128 + 1);
                message.append(": Invalid instruction: `");
                push_hexadecimal(&mut message, *opcode as u128);
                message.append("`");
            },
            RuntimeError::InvalidOperand { addr, nibble } => {
                push_decimal(&mut message, *addr as u128 + 1);
                message.append(": Invalid operand: `");
                push_hexadecimal(&mut message, *nibble as u128);
                message.append("`");
            },
            RuntimeError::InvalidAddress { addr, target } => {
                push_decimal(&mut message, *addr as u128 + 1);
                message.append(": Invalid address: `");
                push_hexadecimal(&mut message, *target as u128);
                message.append("`");
            },
            RuntimeError::DivisionByZero { addr } => {
                push_decimal(&mut message, *addr as u128 + 1);
                message.append(": Division by zero");
            },
        }
        message
    }
}

/// The machine as a mathematical value: what `ProgramExecutor` stands for.
pub struct MachineState {
    pub registers: Seq<u16>,
    pub program_state_reg: u16,
    pub memory: Seq<u8>,
    pub display: Seq<u16>,
    pub has_finished: bool,
    pub is_in_debug_mode: bool,
    pub curr_addr: usize,
}

impl MachineState {
    /// The register file, the display and the memory have their fixed sizes.
    pub open spec fn wf(self) -> bool {
        &&& self.registers.len() == REGISTER_COUNT
        &&& self.display.len() == PORT_COUNT
        &&& self.memory.len() == MAX_PROGRAM_SIZE
    }

    /// The program counter points into the memory.
    pub open spec fn in_bounds(self) -> bool {
        self.curr_addr < MAX_PROGRAM_SIZE
    }

    /// The byte at `addr`, which must lie inside the memory.
    pub open spec fn read_u8(self, addr: u16) -> RuntimeResult<u8> {
        if addr < MAX_PROGRAM_SIZE {
            Ok(self.memory[addr as int])
        } else {
            Err(RuntimeError::InvalidAddress { addr: self.curr_addr, target: addr as usize })
        }
    }

    /// The machine with `value` at `addr`, which must lie inside the memory.
    pub open spec fn write_u8(self, addr: u16, value: u8) -> (MachineState, RuntimeResult<()>) {
        if addr < MAX_PROGRAM_SIZE {
            (MachineState { memory: self.memory.update(addr as int, value), ..self }, Ok(()))
        } else {
            (self, Err(RuntimeError::InvalidAddress { addr: self.curr_addr, target: addr as usize }))
        }
    }

    /// The big-endian word at `addr` and the address after it, which wraps
    /// round within sixteen bits.
    pub open spec fn read_u16(self, addr: u16) -> RuntimeResult<u16> {
        match self.read_u8(addr) {
            Err(e) => Err(e),
            Ok(hi) => match self.read_u8(wrap_u16(addr + 1)) {
                Err(e) => Err(e),
                Ok(lo) => Ok(be_u16(hi, lo)),
            },
        }
    }

    /// Writes the high byte, then the low byte; a failure of the second
    /// leaves the first written.
    pub open spec fn write_u16(self, addr: u16, value: u16) -> (MachineState, RuntimeResult<()>) {
        let (high_written, first) = self.write_u8(addr, (value / 256) as u8);
        if first is Err {
            (high_written, first)
        } else {
            high_written.write_u8(wrap_u16(addr + 1), (value % 256) as u8)
        }
    }

    /// The machine with `value` in register `reg`.
    pub open spec fn set_register(self, reg: u8, value: u16) -> MachineState {
        MachineState { registers: self.registers.update(reg as int, value), ..self }
    }

    /// The value that `operand` denotes, and the machine after the read: an
    /// address with increment leaves its register two higher.
    pub open spec fn read_from(self, operand: InstructionOperand) -> (
        MachineState,
        RuntimeResult<u16>,
    ) {
        match operand {
            InstructionOperand::Reg(reg) => (self, Ok(self.registers[reg as int])),
            InstructionOperand::Addr(reg) => (self, self.read_u16(self.registers[reg as int])),
            InstructionOperand::AddrInc(reg) => {
                let value = self.read_u16(self.registers[reg as int]);
                if value is Err {
                    (self, value)
                } else {
                    (self.set_register(reg, wrap_u16(self.registers[reg as int] + 2)), value)
                }
            },
            InstructionOperand::Number(num) => (self, Ok(num)),
            InstructionOperand::Port(port) => (self, Ok(self.display[port as int])),
        }
    }

    /// The machine after `value` was written to what `operand` denotes: an
    /// address with increment leaves its register two higher. Nothing can be
    /// written to an immediate.
    pub open spec fn write_to(self, operand: InstructionOperand, value: u16) -> (
        MachineState,
        RuntimeResult<()>,
    ) {
        match operand {
            InstructionOperand::Reg(reg) => (self.set_register(reg, value), Ok(())),
            InstructionOperand::Addr(reg) => self.write_u16(self.registers[reg as int], value),
            InstructionOperand::AddrInc(reg) => {
                let (written, res) = self.write_u16(self.registers[reg as int], value);
                if res is Err {
                    (written, res)
                } else {
                    (written.set_register(reg, wrap_u16(self.registers[reg as int] + 2)), res)
                }
            },
            InstructionOperand::Port(port) => (
                MachineState { display: self.display.update(port as int, value), ..self },
                Ok(()),
            ),
            InstructionOperand::Number(_) => (self, Ok(())),
        }
    }

    /// The program counter moved on by `n`, modulo the size of the memory.
    pub open spec fn add_to_pc(self, n: usize) -> MachineState {
        MachineState {
            curr_addr: ((self.curr_addr + n) % (MAX_PROGRAM_SIZE as int)) as usize,
            ..self
        }
    }

    /// The operand that `nibble` stands for in a slot that accepts `mask`.
    ///
    /// A slot that accepts ports and nothing else reads every nibble as a
    /// port. Elsewhere the nibble's range picks the kind, which the mask must
    /// hold. An immediate is read from the two bytes after the instruction's
    /// first two, all of which must lie inside the memory.
    pub open spec fn decode_operand(self, mask: u8, nibble: u8) -> RuntimeResult<
        InstructionOperand,
    > {
        if mask == PORT_MASK && nibble < PORT_COUNT {
            Ok(InstructionOperand::Port(nibble))
        } else if mask != PORT_MASK && accepts(mask, NUMBER_MASK) && nibble
            == NUMBER_OPERAND_CODE {
            if self.curr_addr >= MAX_PROGRAM_SIZE {
                Err(RuntimeError::InvalidAddress { addr: self.curr_addr, target: self.curr_addr })
            } else if self.curr_addr + 2 >= MAX_PROGRAM_SIZE {
                Err(
                    RuntimeError::InvalidAddress {
                        addr: self.curr_addr,
                        target: (self.curr_addr + 2) as usize,
                    },
                )
            } else if self.curr_addr + 3 >= MAX_PROGRAM_SIZE {
                Err(
                    RuntimeError::InvalidAddress {
                        addr: self.curr_addr,
                        target: (self.curr_addr + 3) as usize,
                    },
                )
            } else {
                Ok(
                    InstructionOperand::Number(
                        be_u16(self.memory[self.curr_addr + 2], self.memory[self.curr_addr + 3]),
                    ),
                )
            }
        } else if mask != PORT_MASK && accepts(mask, ADDR_INC_MASK) && 10 <= nibble < 15 {
            Ok(InstructionOperand::AddrInc((nibble - 10) as u8))
        } else if mask != PORT_MASK && accepts(mask, ADDR_MASK) && 5 <= nibble < 10 {
            Ok(InstructionOperand::Addr((nibble - 5) as u8))
        } else if mask != PORT_MASK && accepts(mask, REG_MASK) && nibble < 5 {
            Ok(InstructionOperand::Reg(nibble))
        } else {
            Err(RuntimeError::InvalidOperand { addr: self.curr_addr, nibble })
        }
    }

    /// The operands of the instruction at the program counter, for an
    /// instruction that accepts `accepted`: the high nibble of the second
    /// byte is the first operand, the low nibble the second.
    pub open spec fn decode_operands(self, accepted: AcceptedOperandTypes) -> RuntimeResult<
        InstructionOperands,
    > {
        if self.curr_addr >= MAX_PROGRAM_SIZE {
            Err(RuntimeError::InvalidAddress { addr: self.curr_addr, target: self.curr_addr })
        } else if self.curr_addr + 1 >= MAX_PROGRAM_SIZE {
            Err(
                RuntimeError::InvalidAddress {
                    addr: self.curr_addr,
                    target: (self.curr_addr + 1) as usize,
                },
            )
        } else {
            let byte = self.memory[self.curr_addr + 1];
            let first = self.decode_operand(accepted.0, byte / 16);
            let second = self.decode_operand(accepted.1, byte % 16);
            if accepted.0 == 0 {
                Ok(InstructionOperands::Zero)
            } else if first is Err {
                Err(first->Err_0)
            } else if accepted.1 == 0 {
                Ok(InstructionOperands::One(first->Ok_0))
            } else if second is Err {
                Err(second->Err_0)
            } else {
                Ok(InstructionOperands::Two(first->Ok_0, second->Ok_0))
            }
        }
    }
}

/// What a two-operand arithmetic or logic instruction leaves in its first
/// operand, given what both operands held. Sums, differences and products
/// are reduced to sixteen bits.
pub open spec fn binary_result(operation: Operation, a: u16, b: u16) -> u16 {
    match operation {
        Operation::Add => wrap_u16(a + b),
        Operation::Sub => wrap_u16(a - b),
        Operation::Mul => wrap_u16(a * b),
        Operation::Div => (a as int / b as int) as u16,
        Operation::And => a & b,
        Operation::Or => a | b,
        Operation::Xor => a ^ b,
        _ => b,
    }
}

/// `operands` are ones that `operation` can be executed on: as many as it
/// takes, each well formed, and no immediate where a result is written.
pub open spec fn executable(operation: Operation, operands: InstructionOperands) -> bool {
    &&& operands.wf()
    &&& operands.spec_count() == operation.operand_count()
    &&& match operands {
        InstructionOperands::One(a) => operation is Not ==> !(a is Number),
        InstructionOperands::Two(a, _) => !(a is Number),
        InstructionOperands::Zero => true,
    }
}

impl MachineState {
    /// `dst <- src`, then the program counter moves on by `size`.
    pub open spec fn move_value(self, dst: InstructionOperand, src: InstructionOperand, size: usize) -> (
        MachineState,
        RuntimeResult<()>,
    ) {
        let (read, value) = self.read_from(src);
        if value is Err {
            (read, Err(value->Err_0))
        } else {
            let (written, res) = read.write_to(dst, value->Ok_0);
            if res is Err {
                (written, res)
            } else {
                (written.add_to_pc(size), Ok(()))
            }
        }
    }

    /// `dst <- dst (operation) src`, then the program counter moves on by
    /// `size`. Both operands are read, the first one first, before the result
    /// is written; a division by zero fails after the reads.
    pub open spec fn combine(
        self,
        operation: Operation,
        dst: InstructionOperand,
        src: InstructionOperand,
        size: usize,
    ) -> (MachineState, RuntimeResult<()>) {
        let (read_dst, a) = self.read_from(dst);
        if a is Err {
            (read_dst, Err(a->Err_0))
        } else {
            let (read_src, b) = read_dst.read_from(src);
            if b is Err {
                (read_src, Err(b->Err_0))
            } else if operation is Div && b->Ok_0 == 0 {
                (read_src, Err(RuntimeError::DivisionByZero { addr: self.curr_addr }))
            } else {
                let (written, res) = read_src.write_to(
                    dst,
                    binary_result(operation, a->Ok_0, b->Ok_0),
                );
                if res is Err {
                    (written, res)
                } else {
                    (written.add_to_pc(size), Ok(()))
                }
            }
        }
    }

    /// `dst <- !dst`, then the program counter moves on by `size`.
    pub open spec fn complement(self, dst: InstructionOperand, size: usize) -> (
        MachineState,
        RuntimeResult<()>,
    ) {
        let (read, a) = self.read_from(dst);
        if a is Err {
            (read, Err(a->Err_0))
        } else {
            let (written, res) = read.write_to(dst, !(a->Ok_0));
            if res is Err {
                (written, res)
            } else {
                (written.add_to_pc(size), Ok(()))
            }
        }
    }

    /// The program counter becomes what `src` holds, which must be an address
    /// inside the memory.
    pub open spec fn jump(self, src: InstructionOperand) -> (MachineState, RuntimeResult<()>) {
        let (read, target) = self.read_from(src);
        if target is Err {
            (read, Err(target->Err_0))
        } else if target->Ok_0 >= MAX_PROGRAM_SIZE {
            (
                read,
                Err(
                    RuntimeError::InvalidAddress {
                        addr: self.curr_addr,
                        target: target->Ok_0 as usize,
                    },
                ),
            )
        } else {
            (MachineState { curr_addr: target->Ok_0 as usize, ..read }, Ok(()))
        }
    }

    /// The effect of one instruction, given its decoded operands.
    pub open spec fn execute(self, operation: Operation, operands: InstructionOperands) -> (
        MachineState,
        RuntimeResult<()>,
    ) {
        let size = operands.spec_instruction_size() as usize;
        match (operation, operands) {
            (Operation::Nop, _) => (self.add_to_pc(2), Ok(())),
            (Operation::Stop, _) => (MachineState { has_finished: true, ..self }, Ok(())),
            (Operation::Not, InstructionOperands::One(dst)) => self.complement(dst, size),
            (Operation::Jmp, InstructionOperands::One(src)) => self.jump(src),
            (Operation::Mov, InstructionOperands::Two(dst, src)) => self.move_value(dst, src, size),
            (Operation::Wrt, InstructionOperands::Two(dst, src)) => self.move_value(dst, src, size),
            (Operation::Read, InstructionOperands::Two(dst, src)) => self.move_value(
                dst,
                src,
                size,
            ),
            (_, InstructionOperands::Two(dst, src)) => self.combine(operation, dst, src, size),
            _ => (self, Ok(())),
        }
    }

    /// The table row of the instruction at the program counter.
    pub open spec fn fetch(self) -> RuntimeResult<InstructionInfo> {
        if self.curr_addr >= MAX_PROGRAM_SIZE {
            Err(RuntimeError::InvalidAddress { addr: self.curr_addr, target: self.curr_addr })
        } else if self.memory[self.curr_addr as int] >= INSTRUCTION_COUNT {
            Err(
                RuntimeError::InvalidInstruction {
                    addr: self.curr_addr,
                    opcode: self.memory[self.curr_addr as int],
                },
            )
        } else {
            Ok(instruction_set()[self.memory[self.curr_addr as int] as int])
        }
    }

    /// Fetch, decode and execute the instruction at the program counter.
    pub open spec fn run_instruction(self) -> (MachineState, RuntimeResult<()>) {
        match self.fetch() {
            Err(e) => (self, Err(e)),
            Ok(info) => match self.decode_operands(info.accepted_operands) {
                Err(e) => (self, Err(e)),
                Ok(operands) => self.execute(info.operation, operands),
            },
        }
    }

    /// One step: nothing on a machine that has finished; else one
    /// instruction, and a failure finishes the run.
    pub open spec fn step(self) -> (MachineState, RuntimeResult<()>) {
        if self.has_finished {
            (self, Ok(()))
        } else {
            let (next, res) = self.run_instruction();
            if res is Err {
                (MachineState { has_finished: true, ..next }, res)
            } else {
                (next, res)
            }
        }
    }

    /// The machine after `n` steps, failures ignored.
    pub open spec fn steps(self, n: nat) -> MachineState
        decreases n,
    {
        if n == 0 {
            self
        } else {
            self.step().0.steps((n - 1) as nat)
        }
    }
}

/// What the user can ask of the machine.
#[derive(Clone, Copy, Debug, PartialEq, Eq, Structural)]
pub enum Command {
    /// Load the compiled program and halt.
    Build,
    /// Load the compiled program and run it from the start.
    Run,
    /// Halt.
    Stop,
    /// Start to step through the compiled program, or take the next step.
    StepOver,
    /// Zero the registers.
    ClearRegisters,
}

impl MachineState {
    /// The machine runs by itself: it has not finished and is not stepped
    /// through.
    pub open spec fn is_running(self) -> bool {
        !self.has_finished && !self.is_in_debug_mode
    }

    /// The machine rewound for a run.
    pub open spec fn prepared(self) -> MachineState {
        MachineState {
            curr_addr: 0,
            has_finished: false,
            registers: self.registers.update(STACK_POINTER as int, INITIAL_STACK_POINTER),
            ..self
        }
    }

    /// The machine after a command, and whether steps are due at once.
    /// `program` is the image of the latest compilation, if that had no
    /// diagnostics.
    ///
    /// Building loads the image and halts. Running, which a machine that
    /// runs already ignores, rewinds, loads the image and lets the machine
    /// run; without an image the machine halts. Stopping halts a machine that
    /// runs. Stepping over a machine that is halted or runs by itself
    /// rewinds, loads the image and waits for the next command; without an
    /// image the machine halts; a machine that is stepped through takes its
    /// steps. Clearing zeroes the general registers and the flags and resets
    /// the stack pointer.
    pub open spec fn commanded(self, command: Command, program: Option<Seq<u8>>) -> (
        MachineState,
        bool,
    ) {
        match command {
            Command::Build => (
                MachineState {
                    is_in_debug_mode: false,
                    has_finished: true,
                    memory: match program {
                        Some(image) => image,
                        None => self.memory,
                    },
                    ..self
                },
                false,
            ),
            Command::Run => if self.is_running() {
                (self, false)
            } else {
                match program {
                    Some(image) => (
                        MachineState { is_in_debug_mode: false, memory: image, ..self.prepared() },
                        true,
                    ),
                    None => (
                        MachineState {
                            is_in_debug_mode: false,
                            has_finished: true,
                            ..self.prepared()
                        },
                        false,
                    ),
                }
            },
            Command::Stop => if self.is_running() {
                (MachineState { has_finished: true, ..self }, false)
            } else {
                (self, false)
            },
            Command::StepOver => if self.has_finished || !self.is_in_debug_mode {
                match program {
                    Some(image) => (
                        MachineState { is_in_debug_mode: true, memory: image, ..self.prepared() },
                        false,
                    ),
                    None => (MachineState { has_finished: true, ..self }, false),
                }
            } else {
                (self, true)
            },
            Command::ClearRegisters => (
                MachineState {
                    registers: seq![0u16, 0u16, 0u16, 0u16, INITIAL_STACK_POINTER],
                    program_state_reg: 0,
                    ..self
                },
                false,
            ),
        }
    }
}

/// The machine: five registers (the last one the stack pointer), a flags
/// word, the memory, sixteen display ports and the program counter.
pub struct ProgramExecutor {
    pub registers: [u16; 5],
    pub program_state_reg: u16,
    pub memory: [u8; 4096],
    pub display: [u16; 16],
    pub has_finished: bool,
    pub is_in_debug_mode: bool,
    pub curr_addr: usize,
}

impl View for ProgramExecutor {
    type V = MachineState;

    open spec fn view(&self) -> MachineState {
        MachineState {
            registers: self.registers@,
            program_state_reg: self.program_state_reg,
            memory: self.memory@,
            display: self.display@,
            has_finished: self.has_finished,
            is_in_debug_mode: self.is_in_debug_mode,
            curr_addr: self.curr_addr,
        }
    }
}

impl Default for ProgramExecutor {
    /// A halted machine with zeroed memory, display and registers, the stack
    /// pointer at the last address.
    fn default() -> (executor: Self)
        ensures
            executor@.wf(),
            executor@.registers == seq![0u16, 0u16, 0u16, 0u16, INITIAL_STACK_POINTER],
            executor@.program_state_reg == 0,
            forall|i: int| 0 <= i < MAX_PROGRAM_SIZE ==> executor@.memory[i] == 0,
            forall|i: int| 0 <= i < PORT_COUNT ==> executor@.display[i] == 0,
            executor@.has_finished,
            !executor@.is_in_debug_mode,
            executor@.curr_addr == 0,
    {
        let executor = Self {
            registers: [0, 0, 0, 0, INITIAL_STACK_POINTER],
            program_state_reg: 0,
            memory: [0;4096],
            display: [0;16],
            has_finished: true,
            is_in_debug_mode: false,
            curr_addr: 0,
        };
        assert(executor@.registers =~= seq![0u16, 0u16, 0u16, 0u16, INITIAL_STACK_POINTER]);
        executor
    }
}

impl ProgramExecutor {
    /// Sets the program state register to the overflow flag alone, or clears it.
    pub fn set_overflow(&mut self, overflow: bool)
        ensures
            final(self)@ == (MachineState {
                program_state_reg: if overflow {
                    OVERFLOW_FLAG
                } else {
                    0
                },
                ..old(self)@
            }),
    {
        self.program_state_reg = if overflow {
            OVERFLOW_FLAG
        } else {
            0
        };
    }

    /// Rewinds the machine for a run: program counter at zero, stack pointer
    /// at the last address, not finished. Memory and the other registers stay.
    pub fn prepare_for_a_new_run(&mut self)
        ensures
            final(self)@ == old(self)@.prepared(),
    {
        self.curr_addr = 0;
        self.registers[STACK_POINTER] = INITIAL_STACK_POINTER;
        self.has_finished = false;
    }

    /// Zeroes the four general registers and the program state register and
    /// resets the stack pointer; the memory stays.
    pub fn clear_registers(&mut self)
        ensures
            final(self)@ == (MachineState {
                registers: seq![0u16, 0u16, 0u16, 0u16, INITIAL_STACK_POINTER],
                program_state_reg: 0,
                ..old(self)@
            }),
    {
        self.registers = [0, 0, 0, 0, INITIAL_STACK_POINTER];
        self.program_state_reg = 0;
        assert(self.registers@ =~= seq![0u16, 0u16, 0u16, 0u16, INITIAL_STACK_POINTER]);
    }

    /// Copies a program image into the memory.
    pub fn load_program(&mut self, program: &[u8; 4096])
        ensures
            final(self)@ == (MachineState { memory: program@, ..old(self)@ }),
    {
        self.memory = *program;
    }

    /// Does what the user asks, and says whether steps are due at once.
    /// `program` is the image of the latest compilation, if that had no
    /// diagnostics.
    pub fn command(&mut self, command: Command, program: Option<&[u8; 4096]>) -> (run: bool)
        ensures
            (final(self)@, run) == old(self)@.commanded(
                command,
                match program {
                    Some(image) => Some(image@),
                    None => None,
                },
            ),
    {
        let is_running = !self.has_finished && !self.is_in_debug_mode;
        match command {
            Command::Build => {
                self.is_in_debug_mode = false;
                self.has_finished = true;
                if let Some(image) = program {
                    self.load_program(image);
                }
                false
            },
            Command::Run => {
                if is_running {
                    return false;
                }
                self.is_in_debug_mode = false;
                self.prepare_for_a_new_run();
                match program {
                    Some(image) => {
                        self.load_program(image);
                        true
                    },
                    None => {
                        self.has_finished = true;
                        false
                    },
                }
            },
            Command::Stop => {
                if is_running {
                    self.has_finished = true;
                }
                false
            },
            Command::StepOver => {
                if self.has_finished || !self.is_in_debug_mode {
                    match program {
                        Some(image) => {
                            self.is_in_debug_mode = true;
                            self.prepare_for_a_new_run();
                            self.load_program(image);
                        },
                        None => {
                            self.has_finished = true;
                        },
                    }
                    false
                } else {
                    true
                }
            },
            Command::ClearRegisters => {
                self.clear_registers();
                false
            },
        }
    }

    /// The byte at `addr`, which must lie inside the memory.
    pub fn read_u8(&self, addr: u16) -> (res: RuntimeResult<u8>)
        ensures
            res == self@.read_u8(addr),
    {
        let addr = addr as usize;
        if addr < MAX_PROGRAM_SIZE {
            Ok(self.memory[addr])
        } else {
            Err(RuntimeError::InvalidAddress { addr: self.curr_addr, target: addr })
        }
    }

    /// Writes a byte at `addr`, which must lie inside the memory.
    pub fn write_u8(&mut self, addr: u16, new_val: u8) -> (res: RuntimeResult<()>)
        ensures
            (final(self)@, res) == old(self)@.write_u8(addr, new_val),
            old(self)@.in_bounds() ==> final(self)@.in_bounds(),
    {
        let addr = addr as usize;
        if addr < MAX_PROGRAM_SIZE {
            self.memory[addr] = new_val;
            Ok(())
        } else {
            Err(RuntimeError::InvalidAddress { addr: self.curr_addr, target: addr })
        }
    }

    /// The word whose high byte is at `addr` and whose low byte follows it.
    pub fn read_u16(&self, addr: u16) -> (res: RuntimeResult<u16>)
        ensures
            res == self@.read_u16(addr),
    {
        let hi = match self.read_u8(addr) {
            Ok(hi) => hi,
            Err(e) => {
                return Err(e);
            },
        };
        let lo = match self.read_u8(addr.wrapping_add(1)) {
            Ok(lo) => lo,
            Err(e) => {
                return Err(e);
            },
        };
        Ok((hi as u16) * 256 + (lo as u16))
    }

    /// Writes a word, the high byte at `addr` and the low byte behind it.
    pub fn write_u16(&mut self, addr: u16, new_val: u16) -> (res: RuntimeResult<()>)
        ensures
            (final(self)@, res) == old(self)@.write_u16(addr, new_val),
            old(self)@.in_bounds() ==> final(self)@.in_bounds(),
    {
        match self.write_u8(addr, (new_val / 256) as u8) {
            Ok(()) => {},
            Err(e) => {
                return Err(e);
            },
        }
        self.write_u8(addr.wrapping_add(1), (new_val % 256) as u8)
    }

    /// The operand that `operand`, a nibble of the instruction's second byte,
    /// stands for in a slot that accepts `accepted_operand_types`.
    pub fn get_instruction_operand(&self, accepted_operand_types: u8, operand: u8) -> (res:
        RuntimeResult<InstructionOperand>)
        ensures
            res == self@.decode_operand(accepted_operand_types, operand),
            res is Ok ==> res->Ok_0.wf(),
            res is Ok && res->Ok_0 is Number ==> accepted_operand_types != PORT_MASK && accepts(
                accepted_operand_types,
                NUMBER_MASK,
            ),
    {
        if accepted_operand_types == PORT_MASK {
            if operand < PORT_COUNT {
                Ok(InstructionOperand::Port(operand))
            } else {
                Err(RuntimeError::InvalidOperand { addr: self.curr_addr, nibble: operand })
            }
        } else if (accepted_operand_types & NUMBER_MASK) != 0 && operand == NUMBER_OPERAND_CODE {
            if self.curr_addr >= MAX_PROGRAM_SIZE {
                Err(RuntimeError::InvalidAddress { addr: self.curr_addr, target: self.curr_addr })
            } else if self.curr_addr >= MAX_PROGRAM_SIZE - 2 {
                Err(
                    RuntimeError::InvalidAddress {
                        addr: self.curr_addr,
                        target: self.curr_addr + 2,
                    },
                )
            } else if self.curr_addr >= MAX_PROGRAM_SIZE - 3 {
                Err(
                    RuntimeError::InvalidAddress {
                        addr: self.curr_addr,
                        target: self.curr_addr + 3,
                    },
                )
            } else {
                let hi = self.memory[self.curr_addr + 2];
                let lo = self.memory[self.curr_addr + 3];
                Ok(InstructionOperand::Number((hi as u16) * 256 + (lo as u16)))
            }
        } else if (accepted_operand_types & ADDR_INC_MASK) != 0 && 10 <= operand && operand < 15 {
            Ok(InstructionOperand::AddrInc(operand - 10))
        } else if (accepted_operand_types & ADDR_MASK) != 0 && 5 <= operand && operand < 10 {
            Ok(InstructionOperand::Addr(operand - 5))
        } else if (accepted_operand_types & REG_MASK) != 0 && operand < 5 {
            Ok(InstructionOperand::Reg(operand))
        } else {
            Err(RuntimeError::InvalidOperand { addr: self.curr_addr, nibble: operand })
        }
    }

    /// The operands of the instruction at the program counter, decoded for an
    /// instruction that accepts `accepted_operand_types`.
    pub fn get_instruction_operands(&self, accepted_operand_types: AcceptedOperandTypes) -> (res:
        RuntimeResult<InstructionOperands>)
        ensures
            res == self@.decode_operands(accepted_operand_types),
            res is Ok ==> res->Ok_0.wf() && res->Ok_0.spec_count()
                == accepted_operand_types.spec_count(),
            res is Ok ==> match res->Ok_0 {
                InstructionOperands::One(a) | InstructionOperands::Two(a, _) => a is Number
                    ==> accepted_operand_types.0 != PORT_MASK && accepts(
                    accepted_operand_types.0,
                    NUMBER_MASK,
                ),
                InstructionOperands::Zero => true,
            },
    {
        if self.curr_addr >= MAX_PROGRAM_SIZE {
            return Err(
                RuntimeError::InvalidAddress { addr: self.curr_addr, target: self.curr_addr },
            );
        }
        if self.curr_addr >= MAX_PROGRAM_SIZE - 1 {
            return Err(
                RuntimeError::InvalidAddress { addr: self.curr_addr, target: self.curr_addr + 1 },
            );
        }
        let operands_byte = self.memory[self.curr_addr + 1];
        let operand1 = operands_byte / 16;
        let operand2 = operands_byte % 16;
        if accepted_operand_types.0 == 0 {
            Ok(InstructionOperands::Zero)
        } else if accepted_operand_types.1 == 0 {
            match self.get_instruction_operand(accepted_operand_types.0, operand1) {
                Ok(a) => Ok(InstructionOperands::One(a)),
                Err(e) => Err(e),
            }
        } else {
            let a = match self.get_instruction_operand(accepted_operand_types.0, operand1) {
                Ok(a) => a,
                Err(e) => {
                    return Err(e);
                },
            };
            match self.get_instruction_operand(accepted_operand_types.1, operand2) {
                Ok(b) => Ok(InstructionOperands::Two(a, b)),
                Err(e) => Err(e),
            }
        }
    }

    /// Reads what `place_to_read_from` denotes.
    pub fn read_from(&mut self, place_to_read_from: InstructionOperand) -> (res: RuntimeResult<u16>)
        requires
            place_to_read_from.wf(),
        ensures
            (final(self)@, res) == old(self)@.read_from(place_to_read_from),
            old(self)@.in_bounds() ==> final(self)@.in_bounds(),
    {
        match place_to_read_from {
            InstructionOperand::Reg(reg) => Ok(self.registers[reg as usize]),
            InstructionOperand::Addr(reg) => self.read_u16(self.registers[reg as usize]),
            InstructionOperand::AddrInc(reg) => {
                let address = self.registers[reg as usize];
                match self.read_u16(address) {
                    Ok(num) => {
                        self.registers[reg as usize] = address.wrapping_add(2);
                        Ok(num)
                    },
                    Err(e) => Err(e),
                }
            },
            InstructionOperand::Number(num) => Ok(num),
            InstructionOperand::Port(port) => Ok(self.display[port as usize]),
        }
    }

    /// Writes `num` to what `place_to_write_to` denotes.
    pub fn write_to(&mut self, place_to_write_to: InstructionOperand, num: u16) -> (res:
        RuntimeResult<()>)
        requires
            place_to_write_to.wf(),
            !(place_to_write_to is Number),
        ensures
            (final(self)@, res) == old(self)@.write_to(place_to_write_to, num),
            old(self)@.in_bounds() ==> final(self)@.in_bounds(),
    {
        match place_to_write_to {
            InstructionOperand::Reg(reg) => {
                self.registers[reg as usize] = num;
                Ok(())
            },
            InstructionOperand::Addr(reg) => self.write_u16(self.registers[reg as usize], num),
            InstructionOperand::AddrInc(reg) => {
                let address = self.registers[reg as usize];
                match self.write_u16(address, num) {
                    Ok(()) => {
                        self.registers[reg as usize] = address.wrapping_add(2);
                        Ok(())
                    },
                    Err(e) => Err(e),
                }
            },
            InstructionOperand::Port(port) => {
                self.display[port as usize] = num;
                Ok(())
            },
            InstructionOperand::Number(_) => Ok(()),
        }
    }

    /// Moves the program counter on by `n`, modulo the size of the memory.
    pub fn add_to_pc(&mut self, n: usize)
        ensures
            final(self)@ == old(self)@.add_to_pc(n),
            final(self)@.in_bounds(),
    {
        proof {
            lemma_add_mod_noop(self.curr_addr as int, n as int, MAX_PROGRAM_SIZE as int);
            lemma_mod_bound(self.curr_addr as int, MAX_PROGRAM_SIZE as int);
            lemma_mod_bound(n as int, MAX_PROGRAM_SIZE as int);
            lemma_mod_bound(self.curr_addr + n, MAX_PROGRAM_SIZE as int);
        }
        self.curr_addr = (self.curr_addr % MAX_PROGRAM_SIZE + n % MAX_PROGRAM_SIZE)
            % MAX_PROGRAM_SIZE;
    }

    /// What a two-operand arithmetic or logic instruction computes.
    fn apply(operation: Operation, a: u16, b: u16) -> (value: u16)
        requires
            operation is Div ==> b != 0,
        ensures
            value == binary_result(operation, a, b),
    {
        match operation {
            Operation::Add => a.wrapping_add(b),
            Operation::Sub => a.wrapping_sub(b),
            Operation::Mul => a.wrapping_mul(b),
            Operation::Div => a / b,
            Operation::And => a & b,
            Operation::Or => a | b,
            Operation::Xor => a ^ b,
            _ => b,
        }
    }

    fn move_value(&mut self, dst: InstructionOperand, src: InstructionOperand, size: usize) -> (res:
        RuntimeResult<()>)
        requires
            dst.wf(),
            src.wf(),
            !(dst is Number),
        ensures
            (final(self)@, res) == old(self)@.move_value(dst, src, size),
            old(self)@.in_bounds() ==> final(self)@.in_bounds(),
    {
        let value = match self.read_from(src) {
            Ok(value) => value,
            Err(e) => {
                return Err(e);
            },
        };
        match self.write_to(dst, value) {
            Ok(()) => {},
            Err(e) => {
                return Err(e);
            },
        }
        self.add_to_pc(size);
        Ok(())
    }

    fn combine(
        &mut self,
        operation: Operation,
        dst: InstructionOperand,
        src: InstructionOperand,
        size: usize,
    ) -> (res: RuntimeResult<()>)
        requires
            dst.wf(),
            src.wf(),
            !(dst is Number),
        ensures
            (final(self)@, res) == old(self)@.combine(operation, dst, src, size),
            old(self)@.in_bounds() ==> final(self)@.in_bounds(),
    {
        let addr = self.curr_addr;
        let a = match self.read_from(dst) {
            Ok(a) => a,
            Err(e) => {
                return Err(e);
            },
        };
        let b = match self.read_from(src) {
            Ok(b) => b,
            Err(e) => {
                return Err(e);
            },
        };
        if b == 0 {
            if let Operation::Div = operation {
                return Err(RuntimeError::DivisionByZero { addr });
            }
        }
        match self.write_to(dst, Self::apply(operation, a, b)) {
            Ok(()) => {},
            Err(e) => {
                return Err(e);
            },
        }
        self.add_to_pc(size);
        Ok(())
    }

    fn complement(&mut self, dst: InstructionOperand, size: usize) -> (res: RuntimeResult<()>)
        requires
            dst.wf(),
            !(dst is Number),
        ensures
            (final(self)@, res) == old(self)@.complement(dst, size),
            old(self)@.in_bounds() ==> final(self)@.in_bounds(),
    {
        let a = match self.read_from(dst) {
            Ok(a) => a,
            Err(e) => {
                return Err(e);
            },
        };
        match self.write_to(dst, !a) {
            Ok(()) => {},
            Err(e) => {
                return Err(e);
            },
        }
        self.add_to_pc(size);
        Ok(())
    }

    fn jump(&mut self, src: InstructionOperand) -> (res: RuntimeResult<()>)
        requires
            src.wf(),
        ensures
            (final(self)@, res) == old(self)@.jump(src),
            old(self)@.in_bounds() ==> final(self)@.in_bounds(),
    {
        let addr = self.curr_addr;
        let target = match self.read_from(src) {
            Ok(target) => target as usize,
            Err(e) => {
                return Err(e);
            },
        };
        if target >= MAX_PROGRAM_SIZE {
            return Err(RuntimeError::InvalidAddress { addr, target });
        }
        self.curr_addr = target;
        Ok(())
    }

    /// Executes one instruction whose operands have been decoded.
    pub fn execute(&mut self, operation: Operation, operands: InstructionOperands) -> (res:
        RuntimeResult<()>)
        requires
            executable(operation, operands),
        ensures
            (final(self)@, res) == old(self)@.execute(operation, operands),
            old(self)@.in_bounds() ==> final(self)@.in_bounds(),
    {
        match operation {
            Operation::Nop => {
                self.add_to_pc(2);
                Ok(())
            },
            Operation::Stop => {
                self.has_finished = true;
                Ok(())
            },
            Operation::Not => {
                let (dst, size) = operands.one();
                self.complement(dst, size)
            },
            Operation::Jmp => {
                let (src, _) = operands.one();
                self.jump(src)
            },
            Operation::Mov | Operation::Wrt | Operation::Read => {
                let (dst, src, size) = operands.two();
                self.move_value(dst, src, size)
            },
            _ => {
                let (dst, src, size) = operands.two();
                self.combine(operation, dst, src, size)
            },
        }
    }

    /// Executes the instruction at the program counter. A machine that has
    /// finished stays as it is. A failure finishes the run.
    pub fn execute_next_instruction(&mut self) -> (res: RuntimeResult<()>)
        ensures
            (final(self)@, res) == old(self)@.step(),
            old(self)@.has_finished ==> final(self)@ == old(self)@ && res is Ok,
            res is Err ==> final(self)@.has_finished,
            old(self)@.in_bounds() ==> final(self)@.in_bounds(),
    {
        if self.has_finished {
            return Ok(());
        }
        let res = self.run_instruction();
        if res.is_err() {
            self.has_finished = true;
        }
        res
    }

    fn run_instruction(&mut self) -> (res: RuntimeResult<()>)
        ensures
            (final(self)@, res) == old(self)@.run_instruction(),
            old(self)@.in_bounds() ==> final(self)@.in_bounds(),
    {
        if self.curr_addr >= MAX_PROGRAM_SIZE {
            return Err(
                RuntimeError::InvalidAddress { addr: self.curr_addr, target: self.curr_addr },
            );
        }
        let instruction_code = self.memory[self.curr_addr];
        let info = match instruction_info(instruction_code) {
            Some(info) => info,
            None => {
                return Err(
                    RuntimeError::InvalidInstruction {
                        addr: self.curr_addr,
                        opcode: instruction_code,
                    },
                );
            },
        };
        proof {
            lemma_instruction_set_sound();
            assert(row_is_sound(instruction_set()[instruction_code as int]));
        }
        let operands = match self.get_instruction_operands(info.accepted_operands) {
            Ok(operands) => operands,
            Err(e) => {
                return Err(e);
            },
        };
        self.execute(info.operation, operands)
    }
}

/// The memory of `m` holds `bytes` from the program counter on.
pub open spec fn holds_at_pc(m: MachineState, bytes: Seq<u8>) -> bool {
    &&& m.curr_addr + bytes.len() <= MAX_PROGRAM_SIZE
    &&& forall|i: int| 0 <= i < bytes.len() ==> m.memory[m.curr_addr + i] == bytes[i]
}

/// `operand` is well formed and of a kind that `mask` holds.
pub open spec fn admits(mask: u8, operand: InstructionOperand) -> bool {
    operand.wf() && accepts(mask, operand.kind_mask())
}

/// Encoding an operand and decoding its nibble under the same mask gives the
/// operand back, for every mask that does not mix ports with other kinds (as
/// no mask of the instruction table does) and every operand that the mask
/// admits. An immediate is read back from the third and fourth byte of the
/// instruction.
pub proof fn lemma_operand_round_trip(m: MachineState, mask: u8, operand: InstructionOperand)
    requires
        port_exclusive(mask),
        admits(mask, operand),
        operand is Number ==> m.curr_addr + 3 < MAX_PROGRAM_SIZE && be_u16(
            m.memory[m.curr_addr + 2],
            m.memory[m.curr_addr + 3],
        ) == operand.immediate(),
    ensures
        m.decode_operand(mask, operand.nibble()) == Ok::<InstructionOperand, RuntimeError>(operand),
{
    assert(PORT_MASK & REG_MASK == 0) by (bit_vector);
    assert(PORT_MASK & ADDR_MASK == 0) by (bit_vector);
    assert(PORT_MASK & ADDR_INC_MASK == 0) by (bit_vector);
    assert(PORT_MASK & NUMBER_MASK == 0) by (bit_vector);
}

/// Decoding the operands of an encoded instruction gives them back: if the
/// memory holds at the program counter the bytes of an instruction whose
/// operands its masks admit, one for each mask that is not zero, then the
/// operands decoded for these masks are the encoded ones.
pub proof fn lemma_operands_round_trip(
    m: MachineState,
    code: u8,
    accepted: AcceptedOperandTypes,
    operands: InstructionOperands,
)
    requires
        port_exclusive(accepted.0),
        port_exclusive(accepted.1),
        operands.spec_count() == accepted.spec_count(),
        match operands {
            InstructionOperands::Zero => true,
            InstructionOperands::One(a) => admits(accepted.0, a),
            InstructionOperands::Two(a, b) => admits(accepted.0, a) && admits(accepted.1, b) && !(a is Number
                && b is Number),
        },
        holds_at_pc(m, instruction_bytes(code, operands)),
    ensures
        m.decode_operands(accepted) == Ok::<InstructionOperands, RuntimeError>(operands),
{
    let bytes = instruction_bytes(code, operands);
    assert(m.memory[m.curr_addr + 1] == bytes[1]);
    match operands {
        InstructionOperands::Zero => {},
        InstructionOperands::One(a) => {
            if a is Number {
                assert(m.memory[m.curr_addr + 2] == bytes[2]);
                assert(m.memory[m.curr_addr + 3] == bytes[3]);
            }
            lemma_operand_round_trip(m, accepted.0, a);
        },
        InstructionOperands::Two(a, b) => {
            if a is Number || b is Number {
                assert(m.memory[m.curr_addr + 2] == bytes[2]);
                assert(m.memory[m.curr_addr + 3] == bytes[3]);
            }
            lemma_operand_round_trip(m, accepted.0, a);
            lemma_operand_round_trip(m, accepted.1, b);
        },
    }
}

/// A step keeps the sizes of register file, display and memory, and keeps
/// the program counter inside the memory.
pub proof fn lemma_step_keeps_bounds(m: MachineState)
    requires
        m.wf(),
        m.in_bounds(),
    ensures
        m.step().0.wf(),
        m.step().0.in_bounds(),
{
    if !m.has_finished {
        let fetched = m.fetch();
        if fetched is Ok {
            let info = fetched->Ok_0;
            let decoded = m.decode_operands(info.accepted_operands);
            if decoded is Ok {
                lemma_decoded_operands_wf(m, info.accepted_operands);
                lemma_execute_keeps_bounds(m, info.operation, decoded->Ok_0);
            }
        }
    }
}

/// Decoded operands are well formed.
pub proof fn lemma_decoded_operands_wf(m: MachineState, accepted: AcceptedOperandTypes)
    ensures
        m.decode_operands(accepted) is Ok ==> m.decode_operands(accepted)->Ok_0.wf(),
{
}

proof fn lemma_read_keeps_bounds(m: MachineState, operand: InstructionOperand)
    requires
        m.wf(),
        operand.wf(),
    ensures
        m.read_from(operand).0.wf(),
        m.read_from(operand).0.curr_addr == m.curr_addr,
{
}

proof fn lemma_write_keeps_bounds(m: MachineState, operand: InstructionOperand, value: u16)
    requires
        m.wf(),
        operand.wf(),
    ensures
        m.write_to(operand, value).0.wf(),
        m.write_to(operand, value).0.curr_addr == m.curr_addr,
{
}

proof fn lemma_add_to_pc_keeps_bounds(m: MachineState, n: usize)
    requires
        m.wf(),
    ensures
        m.add_to_pc(n).wf(),
        m.add_to_pc(n).in_bounds(),
{
    lemma_mod_bound(m.curr_addr + n, MAX_PROGRAM_SIZE as int);
}

proof fn lemma_execute_keeps_bounds(
    m: MachineState,
    operation: Operation,
    operands: InstructionOperands,
)
    requires
        m.wf(),
        m.in_bounds(),
        operands.wf(),
    ensures
        m.execute(operation, operands).0.wf(),
        m.execute(operation, operands).0.in_bounds(),
{
    let size = operands.spec_instruction_size() as usize;
    lemma_add_to_pc_keeps_bounds(m, 2);
    match operands {
        InstructionOperands::Zero => {},
        InstructionOperands::One(a) => {
            lemma_read_keeps_bounds(m, a);
            let read = m.read_from(a).0;
            let value = m.read_from(a).1;
            if value is Ok {
                lemma_write_keeps_bounds(read, a, !(value->Ok_0));
                lemma_add_to_pc_keeps_bounds(read.write_to(a, !(value->Ok_0)).0, size);
            }
        },
        InstructionOperands::Two(dst, src) => {
            lemma_read_keeps_bounds(m, src);
            let (moved, value) = m.read_from(src);
            if value is Ok {
                lemma_write_keeps_bounds(moved, dst, value->Ok_0);
                lemma_add_to_pc_keeps_bounds(moved.write_to(dst, value->Ok_0).0, size);
            }
            lemma_read_keeps_bounds(m, dst);
            let (read_dst, a) = m.read_from(dst);
            lemma_read_keeps_bounds(read_dst, src);
            let (read_src, b) = read_dst.read_from(src);
            if a is Ok && b is Ok {
                let result = binary_result(operation, a->Ok_0, b->Ok_0);
                lemma_write_keeps_bounds(read_src, dst, result);
                lemma_add_to_pc_keeps_bounds(read_src.write_to(dst, result).0, size);
            }
        },
    }
}

/// Bounded state: whatever the number of steps, the program counter stays
/// inside the memory and registers, display and memory keep their sizes.
/// (That a register holds a sixteen-bit value is its type.)
pub proof fn lemma_steps_keep_bounds(m: MachineState, n: nat)
    requires
        m.wf(),
        m.in_bounds(),
    ensures
        m.steps(n).wf(),
        m.steps(n).in_bounds(),
        forall|i: int| 0 <= i < REGISTER_COUNT ==> 0 <= #[trigger] m.steps(n).registers[i] < 0x1_0000,
    decreases n,
{
    if n > 0 {
        lemma_step_keeps_bounds(m);
        lemma_steps_keep_bounds(m.step().0, (n - 1) as nat);
    }
}

/// Halt is sticky: a machine that has finished is not changed by any number
/// of steps, and none of them fails.
pub proof fn lemma_halt_is_sticky(m: MachineState, n: nat)
    requires
        m.has_finished,
    ensures
        m.step() == (m, Ok::<(), RuntimeError>(())),
        m.steps(n) == m,
    decreases n,
{
    if n > 0 {
        lemma_halt_is_sticky(m, (n - 1) as nat);
    }
}

/// A failed step finishes the run.
pub proof fn lemma_failure_finishes(m: MachineState)
    ensures
        m.step().1 is Err ==> m.step().0.has_finished,
{
}

/// Wrap law: a step on `add r0, b` with `a` in the first register leaves
/// `(a + b) mod 2^16` there, whatever `a` and `b` are, moves the program
/// counter on by four and changes nothing else.
pub proof fn lemma_add_wraps(m: MachineState, a: u16, b: u16)
    requires
        m.wf(),
        !m.has_finished,
        holds_at_pc(
            m,
            instruction_bytes(
                2,
                InstructionOperands::Two(InstructionOperand::Reg(0), InstructionOperand::Number(b)),
            ),
        ),
        m.registers[0] == a,
    ensures
        instruction_set()[2].name@ == "add"@,
        m.step().1 is Ok,
        m.step().0.registers[0] == (a + b) % 0x1_0000,
        m.step().0 == (MachineState {
            registers: m.registers.update(0, wrap_u16(a + b)),
            curr_addr: ((m.curr_addr + 4) % 4096) as usize,
            ..m
        }),
{
    let operands = InstructionOperands::Two(
        InstructionOperand::Reg(0),
        InstructionOperand::Number(b),
    );
    let bytes = instruction_bytes(2, operands);
    assert(m.memory[m.curr_addr + 0] == bytes[0]);
    assert(PLACE_MASK & REG_MASK != 0) by (bit_vector);
    assert(VALUE_MASK & NUMBER_MASK != 0) by (bit_vector);
    lemma_instruction_set_sound();
    assert(row_is_sound(instruction_set()[2]));
    let info = instruction_set()[2];
    assert(info.accepted_operands == AcceptedOperandTypes(PLACE_MASK, VALUE_MASK));
    lemma_operands_round_trip(m, 2, info.accepted_operands, operands);
    assert(m.fetch() == Ok::<InstructionInfo, RuntimeError>(info));
    assert(m.run_instruction() == m.execute(Operation::Add, operands));
}

} // verus!
