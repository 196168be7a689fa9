//! The instruction set: operand kinds, the masks that say which kinds an
//! operand slot accepts, the binary layout of operands, and the table of
//! instructions that assembler and executor share.

use crate::text::{decimal, push_decimal};
use vstd::prelude::*;
use vstd::string::StringExecFns;

verus! {

/// Operand nibble that announces a 16-bit immediate in the two bytes after it.
pub const NUMBER_OPERAND_CODE: u8 = 0xF;

/// Mask bit of registers.
pub const REG_MASK: u8 = 0b00001;

/// Mask bit of addresses: the memory at the address that a register holds.
pub const ADDR_MASK: u8 = 0b00010;

/// Mask bit of addresses with increment.
pub const ADDR_INC_MASK: u8 = 0b00100;

/// Mask bit of display ports.
pub const PORT_MASK: u8 = 0b01000;

/// Mask bit of immediates.
pub const NUMBER_MASK: u8 = 0b10000;

/// Register, address or address with increment: what can be written to.
pub const PLACE_MASK: u8 = 0b00111;

/// Whatever a value can be read from, ports excepted.
pub const VALUE_MASK: u8 = 0b10111;

/// Number of registers; the last one is the stack pointer.
pub const REGISTER_COUNT: u8 = 5;

/// Number of display ports.
pub const PORT_COUNT: u8 = 16;

/// Number of instructions in the table; opcodes are `0..INSTRUCTION_COUNT`.
pub const INSTRUCTION_COUNT: u8 = 14;

/// The word that two bytes make, the first one being the high byte.
pub open spec fn be_u16(hi: u8, lo: u8) -> u16 {
    (hi as int * 256 + lo as int) as u16
}

/// The integer `n` reduced to sixteen bits.
pub open spec fn wrap_u16(n: int) -> u16 {
    (n % 0x1_0000) as u16
}

/// Whether the mask `mask` holds the operand kind whose bit is `kind`.
pub open spec fn accepts(mask: u8, kind: u8) -> bool {
    mask & kind != 0
}

/// The operand kinds accepted by the first and by the second operand slot.
///
/// A zero first mask means an instruction without operands; a zero second
/// mask beside a non-zero first one means an instruction with one operand.
#[derive(Clone, Copy, Debug, PartialEq, Eq, Structural)]
pub struct AcceptedOperandTypes(pub u8, pub u8);

impl AcceptedOperandTypes {
    /// Number of operands an instruction with these masks takes.
    pub open spec fn spec_count(self) -> nat {
        if self.0 == 0 {
            0
        } else if self.1 == 0 {
            1
        } else {
            2
        }
    }

    /// Number of operands an instruction with these masks takes.
    pub fn count(&self) -> (n: usize)
        ensures
            n == self.spec_count(),
    {
        if self.0 == 0 {
            0
        } else if self.1 == 0 {
            1
        } else {
            2
        }
    }
}

/// One operand of an instruction.
#[derive(Clone, Copy, Debug, PartialEq, Eq, Structural)]
pub enum InstructionOperand {
    /// A register, by index; index 4 is the stack pointer.
    Reg(u8),
    /// The memory word whose address a register holds.
    Addr(u8),
    /// As `Addr`, and the register grows by two afterwards.
    AddrInc(u8),
    /// A display port, by index.
    Port(u8),
    /// An immediate.
    Number(u16),
}

impl InstructionOperand {
    /// The register or port index is one that exists.
    pub open spec fn wf(self) -> bool {
        match self {
            InstructionOperand::Reg(r) => r < REGISTER_COUNT,
            InstructionOperand::Addr(r) => r < REGISTER_COUNT,
            InstructionOperand::AddrInc(r) => r < REGISTER_COUNT,
            InstructionOperand::Port(p) => p < PORT_COUNT,
            InstructionOperand::Number(_) => true,
        }
    }

    /// The mask bit of this operand's kind.
    pub open spec fn kind_mask(self) -> u8 {
        match self {
            InstructionOperand::Reg(_) => REG_MASK,
            InstructionOperand::Addr(_) => ADDR_MASK,
            InstructionOperand::AddrInc(_) => ADDR_INC_MASK,
            InstructionOperand::Port(_) => PORT_MASK,
            InstructionOperand::Number(_) => NUMBER_MASK,
        }
    }

    /// The nibble that stands for this operand in an instruction's second byte.
    pub open spec fn nibble(self) -> u8 {
        match self {
            InstructionOperand::Reg(r) => r,
            InstructionOperand::Addr(r) => (r + 5) as u8,
            InstructionOperand::AddrInc(r) => (r + 10) as u8,
            InstructionOperand::Port(p) => p,
            InstructionOperand::Number(_) => NUMBER_OPERAND_CODE,
        }
    }

    /// The immediate that the operand carries, zero where it carries none.
    pub open spec fn immediate(self) -> u16 {
        match self {
            InstructionOperand::Number(n) => n,
            _ => 0,
        }
    }
}

/// The operands of one instruction.
#[derive(Clone, Copy, Debug, PartialEq, Eq, Structural)]
pub enum InstructionOperands {
    Zero,
    One(InstructionOperand),
    Two(InstructionOperand, InstructionOperand),
}

impl InstructionOperands {
    /// Number of operands.
    pub open spec fn spec_count(self) -> nat {
        match self {
            InstructionOperands::Zero => 0,
            InstructionOperands::One(_) => 1,
            InstructionOperands::Two(_, _) => 2,
        }
    }

    /// Size in bytes of an instruction with these operands: four where one of
    /// them is an immediate, two otherwise.
    pub open spec fn spec_instruction_size(self) -> nat {
        match self {
            InstructionOperands::Zero => 2,
            InstructionOperands::One(a) => if a is Number {
                4
            } else {
                2
            },
            InstructionOperands::Two(a, b) => if a is Number || b is Number {
                4
            } else {
                2
            },
        }
    }

    /// Every operand is well formed.
    pub open spec fn wf(self) -> bool {
        match self {
            InstructionOperands::Zero => true,
            InstructionOperands::One(a) => a.wf(),
            InstructionOperands::Two(a, b) => a.wf() && b.wf(),
        }
    }

    /// Number of operands.
    pub fn count(&self) -> (n: usize)
        ensures
            n == self.spec_count(),
    {
        match self {
            InstructionOperands::Zero => 0,
            InstructionOperands::One(_) => 1,
            InstructionOperands::Two(_, _) => 2,
        }
    }

    /// Size in bytes of an instruction with these operands.
    pub fn instruction_size(&self) -> (size: usize)
        ensures
            size == self.spec_instruction_size(),
    {
        match self {
            InstructionOperands::Zero => 2,
            InstructionOperands::One(op1) => {
                if let InstructionOperand::Number(_) = op1 {
                    4
                } else {
                    2
                }
            },
            InstructionOperands::Two(op1, op2) => {
                if let InstructionOperand::Number(_) = op1 {
                    4
                } else if let InstructionOperand::Number(_) = op2 {
                    4
                } else {
                    2
                }
            },
        }
    }

    /// The size of an instruction without operands.
    pub fn zero(&self) -> (size: usize)
        requires
            self is Zero,
        ensures
            size == 2,
    {
        2
    }

    /// The operand of a one-operand instruction, and the instruction's size.
    pub fn one(&self) -> (res: (InstructionOperand, usize))
        requires
            self is One,
        ensures
            *self == InstructionOperands::One(res.0),
            res.1 == self.spec_instruction_size(),
    {
        match self {
            InstructionOperands::One(op) => (
                *op,
                match op {
                    InstructionOperand::Number(_) => 4,
                    _ => 2,
                },
            ),
            _ => (InstructionOperand::Number(0), 2),
        }
    }

    /// The operands of a two-operand instruction, and the instruction's size.
    pub fn two(&self) -> (res: (InstructionOperand, InstructionOperand, usize))
        requires
            self is Two,
        ensures
            *self == InstructionOperands::Two(res.0, res.1),
            res.2 == self.spec_instruction_size(),
    {
        match self {
            InstructionOperands::Two(op1, op2) => (
                *op1,
                *op2,
                match (op1, op2) {
                    (InstructionOperand::Number(_), _) => 4,
                    (_, InstructionOperand::Number(_)) => 4,
                    _ => 2,
                },
            ),
            _ => (InstructionOperand::Number(0), InstructionOperand::Number(0), 2),
        }
    }
}

impl InstructionOperands {
    /// The second byte of an instruction with these operands: the first
    /// operand's nibble above the second's, zero where there is no operand.
    pub open spec fn nibbles(self) -> u8 {
        match self {
            InstructionOperands::Zero => 0,
            InstructionOperands::One(a) => (a.nibble() * 16) as u8,
            InstructionOperands::Two(a, b) => (a.nibble() * 16 + b.nibble()) as u8,
        }
    }

    /// The immediate among the operands, the second operand's before the
    /// first's.
    pub open spec fn immediate(self) -> Option<u16> {
        match self {
            InstructionOperands::Zero => None,
            InstructionOperands::One(a) => if a is Number {
                Some(a.immediate())
            } else {
                None
            },
            InstructionOperands::Two(a, b) => if b is Number {
                Some(b.immediate())
            } else if a is Number {
                Some(a.immediate())
            } else {
                None
            },
        }
    }
}

/// The bytes of an instruction, given its opcode, the byte that packs its
/// operand nibbles and its immediate, if it has one: the opcode, the nibbles
/// and, for the immediate, its high and its low byte.
pub open spec fn encoded_bytes(code: u8, nibbles: u8, number: Option<u16>) -> Seq<u8> {
    match number {
        Some(number) => seq![code, nibbles, (number / 256) as u8, (number % 256) as u8],
        None => seq![code, nibbles],
    }
}

/// The bytes of the instruction with opcode `code` and operands `operands`.
pub open spec fn instruction_bytes(code: u8, operands: InstructionOperands) -> Seq<u8> {
    encoded_bytes(code, operands.nibbles(), operands.immediate())
}

/// What an instruction does with its operands.
#[derive(Clone, Copy, Debug, PartialEq, Eq, Structural)]
pub enum Operation {
    Nop,
    Mov,
    Add,
    Sub,
    Mul,
    Div,
    And,
    Or,
    Xor,
    Not,
    Jmp,
    Wrt,
    Read,
    Stop,
}

impl Operation {
    /// Number of operands that the operation works on.
    pub open spec fn operand_count(self) -> nat {
        match self {
            Operation::Nop | Operation::Stop => 0,
            Operation::Not | Operation::Jmp => 1,
            _ => 2,
        }
    }
}

/// One row of the instruction table.
#[derive(Clone, Copy, Debug)]
pub struct InstructionInfo {
    pub name: &'static str,
    pub accepted_operands: AcceptedOperandTypes,
    pub operation: Operation,
}

/// The instruction table. An instruction's position in it is its opcode.
pub open spec fn instruction_set() -> Seq<InstructionInfo> {
    seq![
        InstructionInfo {
            name: "nop",
            accepted_operands: AcceptedOperandTypes(0, 0),
            operation: Operation::Nop,
        },
        InstructionInfo {
            name: "mov",
            accepted_operands: AcceptedOperandTypes(PLACE_MASK, VALUE_MASK),
            operation: Operation::Mov,
        },
        InstructionInfo {
            name: "add",
            accepted_operands: AcceptedOperandTypes(PLACE_MASK, VALUE_MASK),
            operation: Operation::Add,
        },
        InstructionInfo {
            name: "sub",
            accepted_operands: AcceptedOperandTypes(PLACE_MASK, VALUE_MASK),
            operation: Operation::Sub,
        },
        InstructionInfo {
            name: "mul",
            accepted_operands: AcceptedOperandTypes(PLACE_MASK, VALUE_MASK),
            operation: Operation::Mul,
        },
        InstructionInfo {
            name: "div",
            accepted_operands: AcceptedOperandTypes(PLACE_MASK, VALUE_MASK),
            operation: Operation::Div,
        },
        InstructionInfo {
            name: "and",
            accepted_operands: AcceptedOperandTypes(PLACE_MASK, VALUE_MASK),
            operation: Operation::And,
        },
        InstructionInfo {
            name: "or",
            accepted_operands: AcceptedOperandTypes(PLACE_MASK, VALUE_MASK),
            operation: Operation::Or,
        },
        InstructionInfo {
            name: "xor",
            accepted_operands: AcceptedOperandTypes(PLACE_MASK, VALUE_MASK),
            operation: Operation::Xor,
        },
        InstructionInfo {
            name: "not",
            accepted_operands: AcceptedOperandTypes(PLACE_MASK, 0),
            operation: Operation::Not,
        },
        InstructionInfo {
            name: "jmp",
            accepted_operands: AcceptedOperandTypes(VALUE_MASK, 0),
            operation: Operation::Jmp,
        },
        InstructionInfo {
            name: "wrt",
            accepted_operands: AcceptedOperandTypes(PORT_MASK, VALUE_MASK),
            operation: Operation::Wrt,
        },
        InstructionInfo {
            name: "read",
            accepted_operands: AcceptedOperandTypes(PLACE_MASK, PORT_MASK),
            operation: Operation::Read,
        },
        InstructionInfo {
            name: "stop",
            accepted_operands: AcceptedOperandTypes(0, 0),
            operation: Operation::Stop,
        },
    ]
}

/// The table's row for the opcode `code`, if there is one.
pub fn instruction_info(code: u8) -> (info: Option<InstructionInfo>)
    ensures
        instruction_set().len() == INSTRUCTION_COUNT,
        code < INSTRUCTION_COUNT ==> info == Some(instruction_set()[code as int]),
        code >= INSTRUCTION_COUNT ==> info is None,
{
    let place_value = AcceptedOperandTypes(PLACE_MASK, VALUE_MASK);
    let info = match code {
        0 => InstructionInfo {
            name: "nop",
            accepted_operands: AcceptedOperandTypes(0, 0),
            operation: Operation::Nop,
        },
        1 => InstructionInfo { name: "mov", accepted_operands: place_value, operation: Operation::Mov },
        2 => InstructionInfo { name: "add", accepted_operands: place_value, operation: Operation::Add },
        3 => InstructionInfo { name: "sub", accepted_operands: place_value, operation: Operation::Sub },
        4 => InstructionInfo { name: "mul", accepted_operands: place_value, operation: Operation::Mul },
        5 => InstructionInfo { name: "div", accepted_operands: place_value, operation: Operation::Div },
        6 => InstructionInfo { name: "and", accepted_operands: place_value, operation: Operation::And },
        7 => InstructionInfo { name: "or", accepted_operands: place_value, operation: Operation::Or },
        8 => InstructionInfo { name: "xor", accepted_operands: place_value, operation: Operation::Xor },
        9 => InstructionInfo {
            name: "not",
            accepted_operands: AcceptedOperandTypes(PLACE_MASK, 0),
            operation: Operation::Not,
        },
        10 => InstructionInfo {
            name: "jmp",
            accepted_operands: AcceptedOperandTypes(VALUE_MASK, 0),
            operation: Operation::Jmp,
        },
        11 => InstructionInfo {
            name: "wrt",
            accepted_operands: AcceptedOperandTypes(PORT_MASK, VALUE_MASK),
            operation: Operation::Wrt,
        },
        12 => InstructionInfo {
            name: "read",
            accepted_operands: AcceptedOperandTypes(PLACE_MASK, PORT_MASK),
            operation: Operation::Read,
        },
        13 => InstructionInfo {
            name: "stop",
            accepted_operands: AcceptedOperandTypes(0, 0),
            operation: Operation::Stop,
        },
        _ => {
            return None;
        },
    };
    Some(info)
}

/// The mask is the port mask or holds no port: the nibble of an operand
/// accepted by such a mask says which operand it is.
pub open spec fn port_exclusive(mask: u8) -> bool {
    mask == PORT_MASK || !accepts(mask, PORT_MASK)
}

/// What holds of every row of the instruction table: its masks announce as
/// many operands as its operation takes, no mask mixes ports with other
/// kinds, and only a jump takes an immediate as its first operand.
pub open spec fn row_is_sound(info: InstructionInfo) -> bool {
    &&& info.accepted_operands.spec_count() == info.operation.operand_count()
    &&& port_exclusive(info.accepted_operands.0)
    &&& port_exclusive(info.accepted_operands.1)
    &&& (info.operation is Jmp || info.accepted_operands.0 == PORT_MASK || !accepts(
        info.accepted_operands.0,
        NUMBER_MASK,
    ))
}

/// Every row of the instruction table is sound.
pub proof fn lemma_instruction_set_sound()
    ensures
        instruction_set().len() == INSTRUCTION_COUNT,
        forall|code: int|
            0 <= code < INSTRUCTION_COUNT ==> row_is_sound(#[trigger] instruction_set()[code]),
{
    assert(PLACE_MASK & PORT_MASK == 0) by (bit_vector);
    assert(PLACE_MASK & NUMBER_MASK == 0) by (bit_vector);
    assert(VALUE_MASK & PORT_MASK == 0) by (bit_vector);
    assert(0u8 & PORT_MASK == 0) by (bit_vector);
    assert(0u8 & NUMBER_MASK == 0) by (bit_vector);
    let table = instruction_set();
    assert forall|code: int| 0 <= code < INSTRUCTION_COUNT implies row_is_sound(
        #[trigger] table[code],
    ) by {
        if code == 0 {
        } else if code == 1 {
        } else if code == 2 {
        } else if code == 3 {
        } else if code == 4 {
        } else if code == 5 {
        } else if code == 6 {
        } else if code == 7 {
        } else if code == 8 {
        } else if code == 9 {
        } else if code == 10 {
        } else if code == 11 {
        } else if code == 12 {
        } else {
            assert(code == 13);
        }
    }
}

/// The names of the operand kinds that `mask` holds, in the order register,
/// address, address with increment, port, number.
pub open spec fn kind_names(mask: u8) -> Seq<Seq<char>> {
    (if accepts(mask, REG_MASK) {
        seq!["register"@]
    } else {
        seq![]
    }) + (if accepts(mask, ADDR_MASK) {
        seq!["address"@]
    } else {
        seq![]
    }) + (if accepts(mask, ADDR_INC_MASK) {
        seq!["address++"@]
    } else {
        seq![]
    }) + (if accepts(mask, PORT_MASK) {
        seq!["port"@]
    } else {
        seq![]
    }) + (if accepts(mask, NUMBER_MASK) {
        seq!["number"@]
    } else {
        seq![]
    })
}

/// The texts `names` with `separator` between each two of them.
pub open spec fn joined(names: Seq<Seq<char>>, separator: Seq<char>) -> Seq<char>
    decreases names.len(),
{
    if names.len() == 0 {
        seq![]
    } else if names.len() == 1 {
        names[0]
    } else {
        joined(names.drop_last(), separator) + separator + names.last()
    }
}

/// How a diagnostic names the operand kinds that `mask` holds: `nothing`,
/// the one name, or the names with commas between them and `or` before the
/// last (`register, address or number`).
pub open spec fn expected_operand_types(mask: u8) -> Seq<char> {
    let names = kind_names(mask);
    if names.len() == 0 {
        "nothing"@
    } else if names.len() == 1 {
        names[0]
    } else {
        joined(names.drop_last(), ", "@) + " or "@ + names.last()
    }
}

/// The views of the texts in `names`.
pub open spec fn name_views(names: Seq<&'static str>) -> Seq<Seq<char>> {
    names.map_values(|name: &'static str| name@)
}

/// How a diagnostic names the operand kinds that `mask` holds.
pub fn get_expected_operand_types_string(mask: u8) -> (expected: String)
    ensures
        expected@ == expected_operand_types(mask),
{
    let mut names: Vec<&'static str> = Vec::new();
    if mask & REG_MASK != 0 {
        names.push("register");
    }
    assert(name_views(names@) =~= if accepts(mask, REG_MASK) {
        seq!["register"@]
    } else {
        seq![]
    });
    let ghost one = name_views(names@);
    if mask & ADDR_MASK != 0 {
        names.push("address");
    }
    assert(name_views(names@) =~= one + if accepts(mask, ADDR_MASK) {
        seq!["address"@]
    } else {
        seq![]
    });
    let ghost two = name_views(names@);
    if mask & ADDR_INC_MASK != 0 {
        names.push("address++");
    }
    assert(name_views(names@) =~= two + if accepts(mask, ADDR_INC_MASK) {
        seq!["address++"@]
    } else {
        seq![]
    });
    let ghost three = name_views(names@);
    if mask & PORT_MASK != 0 {
        names.push("port");
    }
    assert(name_views(names@) =~= three + if accepts(mask, PORT_MASK) {
        seq!["port"@]
    } else {
        seq![]
    });
    let ghost four = name_views(names@);
    if mask & NUMBER_MASK != 0 {
        names.push("number");
    }
    assert(name_views(names@) =~= four + if accepts(mask, NUMBER_MASK) {
        seq!["number"@]
    } else {
        seq![]
    });
    assert(name_views(names@) == kind_names(mask));
    if names.len() == 0 {
        return String::from_str("nothing");
    }
    if names.len() == 1 {
        return String::from_str(names[0]);
    }
    let ghost all = name_views(names@);
    let mut res = String::new();
    let mut i: usize = 0;
    while i < names.len() - 1
        invariant
            names.len() >= 2,
            i <= names.len() - 1,
            all == name_views(names@),
            res@ == joined(all.take(i as int), ", "@),
        decreases names.len() - i,
    {
        if i > 0 {
            res.append(", ");
        }
        res.append(names[i]);
        proof {
            assert(all.take(i + 1).drop_last() == all.take(i as int));
            assert(all.take(i + 1).last() == names@[i as int]@);
            if i == 0 {
                assert(res@ =~= names@[i as int]@);
            }
        }
        i += 1;
    }
    res.append(" or ");
    res.append(names[names.len() - 1]);
    proof {
        assert(all.take(i as int) == all.drop_last());
    }
    res
}

impl InstructionOperand {
    /// How a diagnostic names the operand: a register as `R0` to `R3` or
    /// `SP`, an address with the register in brackets, a port as `P` and its
    /// index, an immediate as `number`.
    pub open spec fn text(self) -> Seq<char> {
        match self {
            InstructionOperand::Reg(r) => if r == 4 {
                "SP"@
            } else {
                "R"@ + decimal(r as nat)
            },
            InstructionOperand::Addr(r) => "(R"@ + decimal(r as nat) + ")"@,
            InstructionOperand::AddrInc(r) => "(R"@ + decimal(r as nat) + ")+"@,
            InstructionOperand::Port(p) => "P"@ + decimal(p as nat),
            InstructionOperand::Number(_) => "number"@,
        }
    }

    /// How a diagnostic names the operand.
    pub fn to_string(&self) -> (text: String)
        ensures
            text@ == self.text(),
    {
        match self {
            InstructionOperand::Reg(r) => {
                if *r == 4 {
                    String::from_str("SP")
                } else {
                    let mut text = String::from_str("R");
                    push_decimal(&mut text, *r as u128);
                    text
                }
            },
            InstructionOperand::Addr(r) => {
                let mut text = String::from_str("(R");
                push_decimal(&mut text, *r as u128);
                text.append(")");
                text
            },
            InstructionOperand::AddrInc(r) => {
                let mut text = String::from_str("(R");
                push_decimal(&mut text, *r as u128);
                text.append(")+");
                text
            },
            InstructionOperand::Port(p) => {
                let mut text = String::from_str("P");
                push_decimal(&mut text, *p as u128);
                text
            },
            InstructionOperand::Number(_) => String::from_str("number"),
        }
    }
}

} // verus!
