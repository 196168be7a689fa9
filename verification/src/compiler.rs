//! The assembler: source text in, a 4 KiB program image and a list of
//! diagnostics out.

use crate::highlighting::{digit_value, parse_number, parsed_number, to_digit};
use crate::instruction_set::{
    accepts, encoded_bytes, expected_operand_types, get_expected_operand_types_string,
    instruction_info,
    instruction_set, AcceptedOperandTypes, InstructionOperand, InstructionOperands,
    ADDR_INC_MASK, ADDR_MASK, INSTRUCTION_COUNT, NUMBER_MASK, NUMBER_OPERAND_CODE, PORT_MASK,
    REG_MASK,
};
use crate::tables::{
    entries, is_word, matches_word, members, new_set, new_table, set_contains, set_insert,
    table_get, table_insert, Names, Table,
};
use crate::text::{
    chars_of, decimal, find_char, first_index, lowercase_of, push_decimal, split, split_at_char,
    string_of, trim, trimmed, utf8_len, utf8_width, views,
};
use std::ops::Range;
use vstd::prelude::*;
use vstd::slice::slice_subrange;
use vstd::string::StringExecFns;

verus! {

/// Size in bytes of a program image and of the machine's memory.
pub const MAX_PROGRAM_SIZE: usize = 0x1000;

/// What is wrong with a line of source. `line` counts from zero.
#[allow(inconsistent_fields)]
#[derive(Debug, Hash, Clone)]
pub enum CompilationError {
    /// The mnemonic is not in the instruction table.
    UnknownInstruction { line: usize, name: String },
    /// A label is referred to and nowhere defined.
    NoLabelWithSuchName { line: usize, name: String },
    /// The text is no operand.
    InvalidOperand { line: usize, text: String },
    /// The instruction takes `expected` operands and `found` were given.
    WrongNumberOfOperands { line: usize, expected: usize, found: usize },
    /// The operand is of a kind that the instruction does not accept there.
    WrongOperandType { line: usize, expected: String, found: String },
    /// The instruction would reach beyond the end of the image.
    OutOfMemory { line: usize },
    /// The label was defined on an earlier line.
    LabelAlreadyExists { line: usize, name: String },
    /// The text before the colon is no word.
    InvalidLabelName { line: usize, name: String },
}

pub type CompilationResult<T> = Result<T, CompilationError>;

/// The diagnostics of a compilation, each with the range of bytes of the
/// source, in lower case, that it is about.
pub type ErrorsHighlightInfo = Vec<(Range<usize>, CompilationError)>;

/// A `CompilationError` as a mathematical value.
#[allow(inconsistent_fields)]
pub enum Diagnosis {
    UnknownInstruction { line: usize, name: Seq<char> },
    NoLabelWithSuchName { line: usize, name: Seq<char> },
    InvalidOperand { line: usize, text: Seq<char> },
    WrongNumberOfOperands { line: usize, expected: usize, found: usize },
    WrongOperandType { line: usize, expected: Seq<char>, found: Seq<char> },
    OutOfMemory { line: usize },
    LabelAlreadyExists { line: usize, name: Seq<char> },
    InvalidLabelName { line: usize, name: Seq<char> },
}

impl View for CompilationError {
    type V = Diagnosis;

    open spec fn view(&self) -> Diagnosis {
        match self {
            CompilationError::UnknownInstruction { line, name } => Diagnosis::UnknownInstruction {
                line: *line,
                name: name@,
            },
            CompilationError::NoLabelWithSuchName {
                line,
                name,
            } => Diagnosis::NoLabelWithSuchName { line: *line, name: name@ },
            CompilationError::InvalidOperand { line, text } => Diagnosis::InvalidOperand {
                line: *line,
                text: text@,
            },
            CompilationError::WrongNumberOfOperands {
                line,
                expected,
                found,
            } => Diagnosis::WrongNumberOfOperands {
                line: *line,
                expected: *expected,
                found: *found,
            },
            CompilationError::WrongOperandType {
                line,
                expected,
                found,
            } => Diagnosis::WrongOperandType { line: *line, expected: expected@, found: found@ },
            CompilationError::OutOfMemory { line } => Diagnosis::OutOfMemory { line: *line },
            CompilationError::LabelAlreadyExists { line, name } => Diagnosis::LabelAlreadyExists {
                line: *line,
                name: name@,
            },
            CompilationError::InvalidLabelName { line, name } => Diagnosis::InvalidLabelName {
                line: *line,
                name: name@,
            },
        }
    }
}

/// What the text of an operand turned out to be.
pub enum OperandText {
    /// An operand.
    Operand(InstructionOperand),
    /// A reference to the label of this name.
    Label(String),
    /// No operand; the text, without the spaces around it.
    Invalid(String),
}

/// An `OperandText` as a mathematical value.
pub enum ParsedOperand {
    Operand(InstructionOperand),
    Label(Seq<char>),
    Invalid(Seq<char>),
}

impl View for OperandText {
    type V = ParsedOperand;

    open spec fn view(&self) -> ParsedOperand {
        match self {
            OperandText::Operand(operand) => ParsedOperand::Operand(*operand),
            OperandText::Label(name) => ParsedOperand::Label(name@),
            OperandText::Invalid(text) => ParsedOperand::Invalid(text@),
        }
    }
}

/// The register that `s` names: `r0` to `r3`, or `sp` for the fifth.
pub open spec fn register_index(s: Seq<char>) -> Option<u8> {
    if s.len() != 2 {
        None
    } else if s[0] == 'r' && s[1] == '0' {
        Some(0u8)
    } else if s[0] == 'r' && s[1] == '1' {
        Some(1u8)
    } else if s[0] == 'r' && s[1] == '2' {
        Some(2u8)
    } else if s[0] == 'r' && s[1] == '3' {
        Some(3u8)
    } else if s[0] == 's' && s[1] == 'p' {
        Some(4u8)
    } else {
        None
    }
}

/// The port that `s` names: `p0` to `p15`, without leading zeros.
pub open spec fn port_index(s: Seq<char>) -> Option<u8> {
    if s.len() == 2 && s[0] == 'p' && digit_value(s[1], 10) is Some {
        Some(digit_value(s[1], 10)->Some_0 as u8)
    } else if s.len() == 3 && s[0] == 'p' && s[1] == '1' && digit_value(s[2], 6) is Some {
        Some((10 + digit_value(s[2], 6)->Some_0) as u8)
    } else {
        None
    }
}

/// What the text of an operand is, the spaces around it left aside: a
/// register; a register in brackets, for the memory at the address it holds;
/// the same with `+` behind, for an address with increment; a port; `@` and a
/// word, for a reference to a label; a number. The first of these that fits.
pub open spec fn parsed_operand(text: Seq<char>) -> ParsedOperand {
    let s = trimmed(text);
    let n = s.len() as int;
    if register_index(s) is Some {
        ParsedOperand::Operand(InstructionOperand::Reg(register_index(s)->Some_0))
    } else if n >= 2 && s[0] == '(' && s[n - 1] == ')' && register_index(s.subrange(1, n - 1))
        is Some {
        ParsedOperand::Operand(
            InstructionOperand::Addr(register_index(s.subrange(1, n - 1))->Some_0),
        )
    } else if n >= 3 && s[0] == '(' && s[n - 2] == ')' && s[n - 1] == '+' && register_index(
        s.subrange(1, n - 2),
    ) is Some {
        ParsedOperand::Operand(
            InstructionOperand::AddrInc(register_index(s.subrange(1, n - 2))->Some_0),
        )
    } else if port_index(s) is Some {
        ParsedOperand::Operand(InstructionOperand::Port(port_index(s)->Some_0))
    } else if n >= 1 && s[0] == '@' && is_word(s.skip(1)) {
        ParsedOperand::Label(s.skip(1))
    } else if parsed_number(s) is Some {
        ParsedOperand::Operand(InstructionOperand::Number(parsed_number(s)->Some_0))
    } else {
        ParsedOperand::Invalid(s)
    }
}

impl Compiler {
    /// The register that `s` names.
    pub fn str_reg_to_num(s: &[char]) -> (index: Option<u8>)
        ensures
            index == register_index(s@),
            index is Some ==> index->Some_0 < 5,
    {
        if s.len() != 2 {
            None
        } else if s[0] == 'r' && s[1] == '0' {
            Some(0)
        } else if s[0] == 'r' && s[1] == '1' {
            Some(1)
        } else if s[0] == 'r' && s[1] == '2' {
            Some(2)
        } else if s[0] == 'r' && s[1] == '3' {
            Some(3)
        } else if s[0] == 's' && s[1] == 'p' {
            Some(4)
        } else {
            None
        }
    }

    /// The port that `s` names.
    pub fn port_number(s: &[char]) -> (index: Option<u8>)
        ensures
            index == port_index(s@),
            index is Some ==> index->Some_0 < 16,
    {
        if s.len() == 2 && s[0] == 'p' {
            match to_digit(s[1], 10) {
                Some(digit) => Some(digit as u8),
                None => None,
            }
        } else if s.len() == 3 && s[0] == 'p' && s[1] == '1' {
            match to_digit(s[2], 6) {
                Some(digit) => Some(10 + digit as u8),
                None => None,
            }
        } else {
            None
        }
    }

    /// What the text of an operand is.
    pub fn parse_operand(text: &[char]) -> (parsed: OperandText)
        ensures
            parsed@ == parsed_operand(text@),
            parsed is Operand ==> parsed->Operand_0.wf(),
    {
        let s = trim(text);
        let n = s.len();
        if let Some(r) = Self::str_reg_to_num(s) {
            return OperandText::Operand(InstructionOperand::Reg(r));
        }
        if n >= 2 && s[0] == '(' && s[n - 1] == ')' {
            if let Some(r) = Self::str_reg_to_num(slice_subrange(s, 1, n - 1)) {
                return OperandText::Operand(InstructionOperand::Addr(r));
            }
        }
        if n >= 3 && s[0] == '(' && s[n - 2] == ')' && s[n - 1] == '+' {
            if let Some(r) = Self::str_reg_to_num(slice_subrange(s, 1, n - 2)) {
                return OperandText::Operand(InstructionOperand::AddrInc(r));
            }
        }
        if let Some(p) = Self::port_number(s) {
            return OperandText::Operand(InstructionOperand::Port(p));
        }
        if n >= 1 && s[0] == '@' {
            let name = string_of(slice_subrange(s, 1, n));
            if matches_word(name.as_str()) {
                return OperandText::Label(name);
            }
        }
        if let Some(number) = parse_number(s) {
            return OperandText::Operand(InstructionOperand::Number(number));
        }
        OperandText::Invalid(string_of(s))
    }
}

/// The diagnostic for an operand of a kind that `mask` does not hold.
pub open spec fn wrong_operand_type(operand: InstructionOperand, mask: u8, line: usize) -> Diagnosis {
    Diagnosis::WrongOperandType {
        line,
        expected: expected_operand_types(mask),
        found: operand.text(),
    }
}

/// The nibble and the immediate of an operand in a slot that accepts `mask`,
/// or the diagnostic for an operand of a kind that the mask does not hold.
pub open spec fn operand_code(operand: InstructionOperand, mask: u8, line: usize) -> Result<
    (u8, Option<u16>),
    Diagnosis,
> {
    if accepts(mask, operand.kind_mask()) {
        Ok(
            (
                operand.nibble(),
                if operand is Number {
                    Some(operand.immediate())
                } else {
                    None
                },
            ),
        )
    } else {
        Err(wrong_operand_type(operand, mask, line))
    }
}

/// The byte of nibbles and the immediate of the operands of an instruction
/// that accepts `accepted`, or the first diagnostic: a wrong number of
/// operands, then the wrong kind of the first, then of the second operand.
pub open spec fn operands_code(
    operands: InstructionOperands,
    accepted: AcceptedOperandTypes,
    line: usize,
) -> Result<(u8, Option<u16>), Diagnosis> {
    if operands.spec_count() != accepted.spec_count() {
        Err(
            Diagnosis::WrongNumberOfOperands {
                line,
                expected: accepted.spec_count() as usize,
                found: operands.spec_count() as usize,
            },
        )
    } else {
        match operands {
            InstructionOperands::Zero => Ok((0u8, None)),
            InstructionOperands::One(a) => if operand_code(a, accepted.0, line) is Err {
                Err(wrong_operand_type(a, accepted.0, line))
            } else {
                Ok((operands.nibbles(), operands.immediate()))
            },
            InstructionOperands::Two(a, b) => if operand_code(a, accepted.0, line) is Err {
                Err(wrong_operand_type(a, accepted.0, line))
            } else if operand_code(b, accepted.1, line) is Err {
                Err(wrong_operand_type(b, accepted.1, line))
            } else {
                Ok((operands.nibbles(), operands.immediate()))
            },
        }
    }
}

/// An outcome of the assembler as a mathematical value.
pub open spec fn outcome_view<T>(outcome: CompilationResult<T>) -> Result<T, Diagnosis> {
    match outcome {
        Ok(value) => Ok(value),
        Err(error) => Err(error@),
    }
}

impl Compiler {
    /// The nibble and the immediate of `operand` in a slot that accepts
    /// `accepted_mask`.
    pub fn process_operand(operand: InstructionOperand, accepted_mask: u8, line_i: usize) -> (res:
        CompilationResult<(u8, Option<u16>)>)
        requires
            operand.wf(),
        ensures
            outcome_view(res) == operand_code(operand, accepted_mask, line_i),
            res is Ok ==> res->Ok_0.0 < 16,
    {
        match operand {
            InstructionOperand::Reg(r) => {
                if (accepted_mask & REG_MASK) != 0 {
                    return Ok((r, None));
                }
            },
            InstructionOperand::Addr(r) => {
                if (accepted_mask & ADDR_MASK) != 0 {
                    return Ok((r + 5, None));
                }
            },
            InstructionOperand::AddrInc(r) => {
                if (accepted_mask & ADDR_INC_MASK) != 0 {
                    return Ok((r + 10, None));
                }
            },
            InstructionOperand::Port(p) => {
                if (accepted_mask & PORT_MASK) != 0 {
                    return Ok((p, None));
                }
            },
            InstructionOperand::Number(n) => {
                if (accepted_mask & NUMBER_MASK) != 0 {
                    return Ok((NUMBER_OPERAND_CODE, Some(n)));
                }
            },
        }
        Err(
            CompilationError::WrongOperandType {
                line: line_i,
                expected: get_expected_operand_types_string(accepted_mask),
                found: operand.to_string(),
            },
        )
    }

    /// The byte of nibbles and the immediate of `operands`, for an instruction
    /// that accepts `accepted`.
    pub fn convert_operands_to_binary(
        operands: InstructionOperands,
        accepted: AcceptedOperandTypes,
        line_i: usize,
    ) -> (res: CompilationResult<(u8, Option<u16>)>)
        requires
            operands.wf(),
        ensures
            outcome_view(res) == operands_code(operands, accepted, line_i),
    {
        let expected_operands_num = accepted.count();
        match operands {
            InstructionOperands::Two(a, b) => {
                if expected_operands_num != 2 {
                    return Err(
                        CompilationError::WrongNumberOfOperands {
                            line: line_i,
                            expected: expected_operands_num,
                            found: 2,
                        },
                    );
                }
                let (operand1, number1) = match Self::process_operand(a, accepted.0, line_i) {
                    Ok(code) => code,
                    Err(e) => {
                        return Err(e);
                    },
                };
                let (operand2, number2) = match Self::process_operand(b, accepted.1, line_i) {
                    Ok(code) => code,
                    Err(e) => {
                        return Err(e);
                    },
                };
                let number = if number2.is_some() {
                    number2
                } else {
                    number1
                };
                Ok((operand1 * 16 + operand2, number))
            },
            InstructionOperands::One(a) => {
                if expected_operands_num != 1 {
                    return Err(
                        CompilationError::WrongNumberOfOperands {
                            line: line_i,
                            expected: expected_operands_num,
                            found: 1,
                        },
                    );
                }
                match Self::process_operand(a, accepted.0, line_i) {
                    Ok((operand, number)) => Ok((operand * 16, number)),
                    Err(e) => Err(e),
                }
            },
            InstructionOperands::Zero => {
                if expected_operands_num != 0 {
                    return Err(
                        CompilationError::WrongNumberOfOperands {
                            line: line_i,
                            expected: expected_operands_num,
                            found: 0,
                        },
                    );
                }
                Ok((0, None))
            },
        }
    }
}

/// The opcodes of the first `n` instructions of the table, by mnemonic.
pub open spec fn mnemonics_upto(n: nat) -> Map<Seq<char>, usize>
    decreases n,
{
    if n == 0 {
        Map::empty()
    } else {
        mnemonics_upto((n - 1) as nat).insert(instruction_set()[n - 1].name@, (n - 1) as usize)
    }
}

/// The opcodes of the instructions, by mnemonic.
pub open spec fn mnemonics() -> Map<Seq<char>, usize> {
    mnemonics_upto(INSTRUCTION_COUNT as nat)
}

/// Every opcode that a mnemonic has is one of the table.
pub proof fn lemma_mnemonics_upto(n: nat)
    ensures
        forall|name: Seq<char>| #[trigger]
            mnemonics_upto(n).contains_key(name) ==> mnemonics_upto(n)[name] < n,
    decreases n,
{
    if n > 0 {
        lemma_mnemonics_upto((n - 1) as nat);
        let before = mnemonics_upto((n - 1) as nat);
        assert forall|name: Seq<char>| #[trigger]
            mnemonics_upto(n).contains_key(name) implies mnemonics_upto(n)[name] < n by {
            if name != instruction_set()[n - 1].name@ {
                assert(before.contains_key(name));
            }
        }
    }
}

/// What a line that is no label turned out to be: nothing, an instruction
/// (its opcode, the byte of its operand nibbles and its immediate) or a
/// line with a mistake; and the names of the labels that its operands refer
/// to.
pub struct LineAnalysis {
    pub outcome: CompilationResult<Option<(u8, u8, Option<u16>)>>,
    pub mentions: Vec<String>,
}

/// A `LineAnalysis` as a mathematical value.
pub struct Analysis {
    pub outcome: Result<Option<(u8, u8, Option<u16>)>, Diagnosis>,
    pub mentions: Seq<Seq<char>>,
}

/// The views of the texts in `names`.
pub open spec fn string_views(names: Seq<String>) -> Seq<Seq<char>> {
    names.map_values(|name: String| name@)
}

impl View for LineAnalysis {
    type V = Analysis;

    open spec fn view(&self) -> Analysis {
        Analysis { outcome: outcome_view(self.outcome), mentions: string_views(self.mentions@) }
    }
}

/// The operand that stands in the instruction for a parsed operand: zero,
/// until the label's address is known, for a reference to a label.
pub open spec fn operand_of(parsed: ParsedOperand) -> InstructionOperand {
    match parsed {
        ParsedOperand::Operand(operand) => operand,
        _ => InstructionOperand::Number(0),
    }
}

/// The label that a parsed operand refers to, if it refers to one.
pub open spec fn mention_of(parsed: ParsedOperand) -> Seq<Seq<char>> {
    match parsed {
        ParsedOperand::Label(name) => seq![name],
        _ => seq![],
    }
}

/// What a line of source that is no label is, once spaces and comment are
/// gone.
///
/// The mnemonic is what stands before the first blank; a line without one
/// is nothing. What stands after that blank is split at the commas into
/// operands, and there must be as many as the instruction takes. The
/// operands are parsed in order, up to the first that is none. Then their
/// kinds are held against the instruction's masks, the first operand first.
/// A reference to a label is mentioned once it is parsed, whatever follows.
pub open spec fn analysed(line_text: Seq<char>, line: usize) -> Analysis {
    let blank = first_index(line_text, ' ');
    let name = line_text.take(blank);
    if name.len() == 0 {
        Analysis { outcome: Ok(None), mentions: seq![] }
    } else if !mnemonics().contains_key(name) {
        Analysis { outcome: Err(Diagnosis::UnknownInstruction { line, name }), mentions: seq![] }
    } else {
        let code = mnemonics()[name];
        let accepted = instruction_set()[code as int].accepted_operands;
        let pieces = if blank < line_text.len() {
            split(line_text.skip(blank + 1), ',')
        } else {
            seq![]
        };
        if pieces.len() != accepted.spec_count() {
            Analysis {
                outcome: Err(
                    Diagnosis::WrongNumberOfOperands {
                        line,
                        expected: accepted.spec_count() as usize,
                        found: pieces.len() as usize,
                    },
                ),
                mentions: seq![],
            }
        } else if pieces.len() == 0 {
            Analysis { outcome: Ok(Some((code as u8, 0u8, None))), mentions: seq![] }
        } else {
            let first = parsed_operand(pieces[0]);
            if first is Invalid {
                Analysis {
                    outcome: Err(Diagnosis::InvalidOperand { line, text: first->Invalid_0 }),
                    mentions: seq![],
                }
            } else if pieces.len() == 1 {
                Analysis {
                    outcome: instruction_code(
                        code as u8,
                        InstructionOperands::One(operand_of(first)),
                        accepted,
                        line,
                    ),
                    mentions: mention_of(first),
                }
            } else {
                let second = parsed_operand(pieces[1]);
                if second is Invalid {
                    Analysis {
                        outcome: Err(Diagnosis::InvalidOperand { line, text: second->Invalid_0 }),
                        mentions: mention_of(first),
                    }
                } else {
                    Analysis {
                        outcome: instruction_code(
                            code as u8,
                            InstructionOperands::Two(operand_of(first), operand_of(second)),
                            accepted,
                            line,
                        ),
                        mentions: mention_of(first) + mention_of(second),
                    }
                }
            }
        }
    }
}

/// The opcode with the code of the operands, or the operands' diagnostic.
pub open spec fn instruction_code(
    code: u8,
    operands: InstructionOperands,
    accepted: AcceptedOperandTypes,
    line: usize,
) -> Result<Option<(u8, u8, Option<u16>)>, Diagnosis> {
    match operands_code(operands, accepted, line) {
        Ok((nibbles, number)) => Ok(Some((code, nibbles, number))),
        Err(e) => Err(e),
    }
}

/// A diagnostic with the bytes of the source that it is about, as a
/// mathematical value.
pub struct Marked {
    pub start: usize,
    pub end: usize,
    pub error: Diagnosis,
}

pub open spec fn mark(entry: (Range<usize>, CompilationError)) -> Marked {
    Marked { start: entry.0.start, end: entry.0.end, error: entry.1@ }
}

/// A list of diagnostics as a mathematical value.
pub open spec fn marks(errors: Seq<(Range<usize>, CompilationError)>) -> Seq<Marked> {
    errors.map_values(|entry: (Range<usize>, CompilationError)| mark(entry))
}

/// A line without its comment: what stands before the first `;`.
pub open spec fn before_comment(line: Seq<char>) -> Seq<char> {
    line.take(first_index(line, ';'))
}

/// A line as the assembler reads it: without the spaces at either end and
/// then without its comment.
pub open spec fn preprocessed(line: Seq<char>) -> Seq<char> {
    before_comment(trimmed(line))
}

/// The line defines a label: it ends in a colon.
pub open spec fn is_label(line: Seq<char>) -> bool {
    line.len() > 0 && line.last() == ':'
}

/// The offset in bytes at which line `k` starts in the source: every line
/// before it takes its UTF-8 length and the byte of the line feed after it.
pub open spec fn line_offset(lines: Seq<Seq<char>>, k: int) -> nat
    decreases k,
{
    if k <= 0 {
        0
    } else {
        line_offset(lines, k - 1) + utf8_len(lines[k - 1]) + 1
    }
}

/// The lines of a source text.
pub open spec fn source_lines(text: Seq<char>) -> Seq<Seq<char>> {
    split(text, '\n')
}

/// The ranges of all lines of the source can be told in `usize`.
pub open spec fn source_fits(text: Seq<char>) -> bool {
    line_offset(source_lines(text), source_lines(text).len() as int) <= usize::MAX
}

/// The diagnostic `error` for line `k`, marked with the bytes of that line
/// and of the line feed after it (one byte beyond the source, for the last
/// line).
pub open spec fn marked_line(lines: Seq<Seq<char>>, k: int, error: Diagnosis) -> Marked {
    Marked {
        start: line_offset(lines, k) as usize,
        end: line_offset(lines, k + 1) as usize,
        error,
    }
}

/// The names of the labels defined so far and the diagnostics so far, while
/// the labels are validated.
pub struct Validation {
    pub names: Set<Seq<char>>,
    pub errors: Seq<Marked>,
}

/// Validation of line `k`. A line that ends in a colon defines the label
/// whose name stands before the colon. A name that is no word is an invalid
/// name; a name defined before exists already.
pub open spec fn validated_line(before: Validation, lines: Seq<Seq<char>>, k: int) -> Validation {
    let line = preprocessed(lines[k]);
    let name = line.drop_last();
    if !is_label(line) {
        before
    } else if !is_word(name) {
        Validation {
            errors: before.errors.push(
                marked_line(lines, k, Diagnosis::InvalidLabelName { line: k as usize, name }),
            ),
            ..before
        }
    } else if before.names.contains(name) {
        Validation {
            errors: before.errors.push(
                marked_line(lines, k, Diagnosis::LabelAlreadyExists { line: k as usize, name }),
            ),
            ..before
        }
    } else {
        Validation { names: before.names.insert(name), ..before }
    }
}

/// The first pass over the first `k` lines.
pub open spec fn validated(lines: Seq<Seq<char>>, k: int) -> Validation
    decreases k,
{
    if k <= 0 {
        Validation { names: Set::empty(), errors: Seq::empty() }
    } else {
        validated_line(validated(lines, k - 1), lines, k - 1)
    }
}

/// A reference to a label: its name, the line that refers to it and the
/// address of the two bytes that wait for the label's address.
pub struct Mention {
    pub name: Seq<char>,
    pub line: usize,
    pub addr: usize,
}

/// The state of the second pass: the address of the next instruction, the
/// image, the addresses of the labels, the references to labels and the
/// diagnostics so far.
pub struct Emission {
    pub addr: usize,
    pub program: Seq<u8>,
    pub labels: Map<Seq<char>, usize>,
    pub mentions: Seq<Mention>,
    pub errors: Seq<Marked>,
}

/// `program` with `bytes` in place of what it held from `addr` on.
pub open spec fn placed(program: Seq<u8>, addr: int, bytes: Seq<u8>) -> Seq<u8> {
    Seq::new(
        program.len(),
        |i: int|
            if addr <= i < addr + bytes.len() {
                bytes[i - addr]
            } else {
                program[i]
            },
    )
}

/// The references that line `line` makes to the labels `names`, for an
/// instruction at `addr`.
pub open spec fn mentions_at(names: Seq<Seq<char>>, line: usize, addr: usize) -> Seq<Mention> {
    names.map_values(|name: Seq<char>| Mention { name, line, addr: (addr + 2) as usize })
}

/// The second pass on line `k`. A label gets the address of the next
/// instruction. An instruction that does not reach beyond the image is
/// placed at that address, which then moves on by the instruction's size;
/// one that does is a diagnostic and places nothing. References to labels
/// are kept whatever becomes of the line.
pub open spec fn emitted_line(before: Emission, lines: Seq<Seq<char>>, k: int) -> Emission {
    let line = preprocessed(lines[k]);
    if is_label(line) {
        Emission { labels: before.labels.insert(line.drop_last(), before.addr), ..before }
    } else {
        let analysis = analysed(line, k as usize);
        let mentions = before.mentions + mentions_at(analysis.mentions, k as usize, before.addr);
        match analysis.outcome {
            Err(error) => Emission {
                mentions,
                errors: before.errors.push(marked_line(lines, k, error)),
                ..before
            },
            Ok(None) => Emission { mentions, ..before },
            Ok(Some((code, nibbles, number))) => {
                let bytes = encoded_bytes(code, nibbles, number);
                if before.addr + bytes.len() > MAX_PROGRAM_SIZE {
                    Emission {
                        mentions,
                        errors: before.errors.push(
                            marked_line(lines, k, Diagnosis::OutOfMemory { line: k as usize }),
                        ),
                        ..before
                    }
                } else {
                    Emission {
                        addr: (before.addr + bytes.len()) as usize,
                        program: placed(before.program, before.addr as int, bytes),
                        mentions,
                        ..before
                    }
                }
            },
        }
    }
}

/// The second pass over the first `k` lines, begun with an image of zeros
/// and the diagnostics `errors`.
pub open spec fn emitted(lines: Seq<Seq<char>>, k: int, errors: Seq<Marked>) -> Emission
    decreases k,
{
    if k <= 0 {
        Emission {
            addr: 0,
            program: Seq::new(MAX_PROGRAM_SIZE as nat, |i: int| 0u8),
            labels: Map::empty(),
            mentions: Seq::empty(),
            errors,
        }
    } else {
        emitted_line(emitted(lines, k - 1, errors), lines, k - 1)
    }
}

/// What a compilation gives: the image and the diagnostics.
pub struct Assembly {
    pub program: Seq<u8>,
    pub errors: Seq<Marked>,
}

/// The diagnostic for a reference to a label that is not defined, marked
/// with the bytes of the line that refers to it, and of the line feed after
/// it if there is one.
pub open spec fn marked_mention(lines: Seq<Seq<char>>, mention: Mention) -> Marked {
    Marked {
        start: line_offset(lines, mention.line as int) as usize,
        end: if mention.line + 1 < lines.len() {
            line_offset(lines, mention.line + 1) as usize
        } else {
            (line_offset(lines, mention.line + 1) - 1) as usize
        },
        error: Diagnosis::NoLabelWithSuchName { line: mention.line, name: mention.name },
    }
}

/// The third pass on one reference: the address of a defined label is
/// written, high byte first, where the reference waits for it, if both bytes
/// lie inside the image; an undefined label is a diagnostic.
pub open spec fn patched_mention(
    before: Assembly,
    labels: Map<Seq<char>, usize>,
    lines: Seq<Seq<char>>,
    mention: Mention,
) -> Assembly {
    if labels.contains_key(mention.name) {
        if mention.addr + 2 <= MAX_PROGRAM_SIZE {
            Assembly {
                program: placed(
                    before.program,
                    mention.addr as int,
                    seq![
                        (labels[mention.name] / 256) as u8,
                        (labels[mention.name] % 256) as u8,
                    ],
                ),
                ..before
            }
        } else {
            before
        }
    } else {
        Assembly { errors: before.errors.push(marked_mention(lines, mention)), ..before }
    }
}

/// The third pass over the first `j` references.
pub open spec fn patched(emission: Emission, lines: Seq<Seq<char>>, j: int) -> Assembly
    decreases j,
{
    if j <= 0 {
        Assembly { program: emission.program, errors: emission.errors }
    } else {
        patched_mention(
            patched(emission, lines, j - 1),
            emission.labels,
            lines,
            emission.mentions[j - 1],
        )
    }
}

/// The image and the diagnostics that the source `text`, in lower case,
/// compiles to: the labels are validated, the instructions are placed, and
/// the references to labels are resolved, in three passes whose diagnostics
/// follow one another.
pub open spec fn assembled(text: Seq<char>) -> Assembly {
    let lines = source_lines(text);
    let emission = emitted(lines, lines.len() as int, validated(lines, lines.len() as int).errors);
    patched(emission, lines, emission.mentions.len() as int)
}

/// What a source text compiles to, letters of either case taken as lower
/// case.
pub open spec fn compiled(source: Seq<char>) -> Assembly {
    assembled(lowercase_of(source))
}

/// The assembler. It keeps the image and the diagnostics of the latest
/// compilation.
pub struct Compiler {
    pub program: [u8; 4096],
    pub errors: ErrorsHighlightInfo,
}

/// The table of opcodes by mnemonic.
pub(crate) fn mnemonic_table() -> (codes: Table)
    ensures
        entries(codes) == mnemonics(),
{
    let mut codes = new_table();
    assert(entries(codes) =~= mnemonics_upto(0));
    let mut code: u8 = 0;
    while code < INSTRUCTION_COUNT
        invariant
            code <= INSTRUCTION_COUNT,
            entries(codes) == mnemonics_upto(code as nat),
        decreases INSTRUCTION_COUNT - code,
    {
        if let Some(info) = instruction_info(code) {
            table_insert(&mut codes, String::from_str(info.name), code as usize);
        }
        code += 1;
    }
    codes
}

impl Compiler {
    /// An assembler with an image of zeros and no diagnostics.
    pub fn build() -> (compiler: Self)
        ensures
            forall|i: int| 0 <= i < MAX_PROGRAM_SIZE ==> compiler.program@[i] == 0,
            compiler.errors@.len() == 0,
    {
        Self { program: [0;4096], errors: Vec::new() }
    }

    /// What a line that is no label is, once spaces and comment are gone.
    fn process_instruction(codes: &Table, text: &[char], line_i: usize) -> (analysis:
        LineAnalysis)
        requires
            entries(*codes) == mnemonics(),
        ensures
            analysis@ == analysed(text@, line_i),
    {
        let blank = find_char(text, ' ');
        let name = slice_subrange(text, 0, blank);
        assert(string_views(Seq::<String>::empty()) =~= Seq::<Seq<char>>::empty());
        if name.len() == 0 {
            return LineAnalysis { outcome: Ok(None), mentions: Vec::new() };
        }
        let name = string_of(name);
        let code = match table_get(codes, name.as_str()) {
            Some(code) => code,
            None => {
                return LineAnalysis {
                    outcome: Err(CompilationError::UnknownInstruction { line: line_i, name }),
                    mentions: Vec::new(),
                };
            },
        };
        proof {
            lemma_mnemonics_upto(INSTRUCTION_COUNT as nat);
        }
        let code = code as u8;
        let accepted = match instruction_info(code) {
            Some(info) => info.accepted_operands,
            None => AcceptedOperandTypes(0, 0),
        };
        let pieces = if blank < text.len() {
            split_at_char(slice_subrange(text, blank + 1, text.len()), ',')
        } else {
            Vec::new()
        };
        assert(views(pieces@) == if blank < text@.len() {
            split(text@.skip(blank + 1), ',')
        } else {
            seq![]
        });
        if pieces.len() != accepted.count() {
            return LineAnalysis {
                outcome: Err(
                    CompilationError::WrongNumberOfOperands {
                        line: line_i,
                        expected: accepted.count(),
                        found: pieces.len(),
                    },
                ),
                mentions: Vec::new(),
            };
        }
        if pieces.len() == 0 {
            return LineAnalysis { outcome: Ok(Some((code, 0, None))), mentions: Vec::new() };
        }
        let mut mentions: Vec<String> = Vec::new();
        assert(views(pieces@)[0] == pieces@[0]@);
        let first = match Self::parse_operand(pieces[0]) {
            OperandText::Operand(operand) => operand,
            OperandText::Label(label) => {
                mentions.push(label);
                InstructionOperand::Number(0)
            },
            OperandText::Invalid(text) => {
                return LineAnalysis {
                    outcome: Err(CompilationError::InvalidOperand { line: line_i, text }),
                    mentions,
                };
            },
        };
        assert(string_views(mentions@) =~= mention_of(parsed_operand(pieces@[0]@)));
        let operands = if pieces.len() == 1 {
            InstructionOperands::One(first)
        } else {
            assert(views(pieces@)[1] == pieces@[1]@);
            let ghost before = string_views(mentions@);
            let second = match Self::parse_operand(pieces[1]) {
                OperandText::Operand(operand) => operand,
                OperandText::Label(label) => {
                    mentions.push(label);
                    InstructionOperand::Number(0)
                },
                OperandText::Invalid(text) => {
                    return LineAnalysis {
                        outcome: Err(CompilationError::InvalidOperand { line: line_i, text }),
                        mentions,
                    };
                },
            };
            assert(string_views(mentions@) =~= before + mention_of(
                parsed_operand(pieces@[1]@),
            ));
            InstructionOperands::Two(first, second)
        };
        match Self::convert_operands_to_binary(operands, accepted, line_i) {
            Ok((nibbles, number)) => LineAnalysis {
                outcome: Ok(Some((code, nibbles, number))),
                mentions,
            },
            Err(e) => LineAnalysis { outcome: Err(e), mentions },
        }
    }
}

/// A prefix of a text takes no more bytes than the text.
pub proof fn lemma_utf8_len_prefix(s: Seq<char>, i: int)
    requires
        0 <= i <= s.len(),
    ensures
        utf8_len(s.take(i)) <= utf8_len(s),
    decreases s.len() - i,
{
    if i < s.len() {
        lemma_utf8_len_prefix(s, i + 1);
        assert(s.take(i + 1).drop_last() == s.take(i));
    } else {
        assert(s.take(i) == s);
    }
}

/// Later lines start at higher offsets.
pub proof fn lemma_line_offset_grows(lines: Seq<Seq<char>>, j: int, k: int)
    requires
        0 <= j <= k,
    ensures
        line_offset(lines, j) <= line_offset(lines, k),
        j < k ==> line_offset(lines, j) + utf8_len(lines[j]) + 1 <= line_offset(lines, k),
    decreases k - j,
{
    if j < k {
        lemma_line_offset_grows(lines, j, k - 1);
    }
}

fn char_width(c: char) -> (width: usize)
    ensures
        width == utf8_width(c),
{
    let n = c as u32;
    if n < 0x80 {
        1
    } else if n < 0x800 {
        2
    } else if n < 0x1_0000 {
        3
    } else {
        4
    }
}

/// `total` and the bytes that `line` takes in UTF-8, if `usize` holds the sum.
fn add_utf8_len(total: usize, line: &[char]) -> (sum: Option<usize>)
    ensures
        sum is Some ==> sum->Some_0 == total + utf8_len(line@),
        sum is None ==> total + utf8_len(line@) > usize::MAX,
{
    let mut sum = total;
    let mut i: usize = 0;
    while i < line.len()
        invariant
            i <= line.len(),
            sum == total + utf8_len(line@.take(i as int)),
        decreases line.len() - i,
    {
        proof {
            assert(line@.take(i + 1).drop_last() == line@.take(i as int));
            lemma_utf8_len_prefix(line@, i + 1);
        }
        sum = match sum.checked_add(char_width(line[i])) {
            Some(sum) => sum,
            None => {
                return None;
            },
        };
        i += 1;
    }
    proof {
        assert(line@.take(i as int) == line@);
    }
    Some(sum)
}

/// `starts` holds the offsets in bytes at which the lines start, and after
/// them the offset at which a further line would start.
pub open spec fn are_line_starts(starts: Seq<usize>, lines: Seq<Seq<char>>) -> bool {
    &&& starts.len() == lines.len() + 1
    &&& forall|k: int| 0 <= k <= lines.len() ==> #[trigger] starts[k] == line_offset(lines, k)
}

/// The offsets in bytes at which the lines start, if `usize` holds them.
fn line_starts(lines: &Vec<&[char]>) -> (starts: Option<Vec<usize>>)
    ensures
        starts is Some ==> are_line_starts(starts->Some_0@, views(lines@)),
        starts is None ==> line_offset(views(lines@), lines@.len() as int) > usize::MAX,
{
    let mut starts: Vec<usize> = Vec::new();
    starts.push(0);
    let mut k: usize = 0;
    while k < lines.len()
        invariant
            k <= lines.len(),
            starts@.len() == k + 1,
            forall|j: int| 0 <= j <= k ==> #[trigger] starts@[j] == line_offset(views(lines@), j),
        decreases lines.len() - k,
    {
        proof {
            assert(views(lines@)[k as int] == lines@[k as int]@);
            lemma_line_offset_grows(views(lines@), k + 1, lines@.len() as int);
        }
        let end = match add_utf8_len(starts[k], lines[k]) {
            Some(end) => end,
            None => {
                return None;
            },
        };
        let next = match end.checked_add(1) {
            Some(next) => next,
            None => {
                return None;
            },
        };
        starts.push(next);
        k += 1;
    }
    Some(starts)
}

impl Compiler {
    /// A line as the assembler reads it.
    pub fn preprocess_line<'a>(line: &'a [char]) -> (read: &'a [char])
        ensures
            read@ == preprocessed(line@),
    {
        let line = trim(line);
        let end = find_char(line, ';');
        slice_subrange(line, 0, end)
    }
}

/// Appending a diagnostic to a list appends its mathematical value.
proof fn lemma_marks_push(errors: Seq<(Range<usize>, CompilationError)>, entry: (
    Range<usize>,
    CompilationError,
))
    ensures
        marks(errors.push(entry)) == marks(errors).push(mark(entry)),
{
    assert(marks(errors.push(entry)) =~= marks(errors).push(mark(entry)));
}

/// The first pass: the diagnostics of the label definitions.
fn validate_labels(lines: &Vec<&[char]>, starts: &Vec<usize>) -> (errors: ErrorsHighlightInfo)
    requires
        are_line_starts(starts@, views(lines@)),
    ensures
        marks(errors@) == validated(views(lines@), lines@.len() as int).errors,
{
    let mut names: Names = new_set();
    let mut errors: ErrorsHighlightInfo = Vec::new();
    assert(members(names) =~= Set::<Seq<char>>::empty());
    assert(marks(errors@) =~= Seq::<Marked>::empty());
    let mut k: usize = 0;
    while k < lines.len()
        invariant
            k <= lines.len(),
            are_line_starts(starts@, views(lines@)),
            members(names) == validated(views(lines@), k as int).names,
            marks(errors@) == validated(views(lines@), k as int).errors,
        decreases lines.len() - k,
    {
        assert(views(lines@)[k as int] == lines@[k as int]@);
        let line = Compiler::preprocess_line(lines[k]);
        if line.len() > 0 && line[line.len() - 1] == ':' {
            let name = string_of(slice_subrange(line, 0, line.len() - 1));
            let range = Range { start: starts[k], end: starts[k + 1] };
            if !matches_word(name.as_str()) {
                let entry = (range, CompilationError::InvalidLabelName { line: k, name });
                proof {
                    lemma_marks_push(errors@, entry);
                }
                errors.push(entry);
            } else if set_contains(&names, name.as_str()) {
                let entry = (range, CompilationError::LabelAlreadyExists { line: k, name });
                proof {
                    lemma_marks_push(errors@, entry);
                }
                errors.push(entry);
            } else {
                set_insert(&mut names, name);
            }
        }
        k += 1;
    }
    errors
}

/// The state of the second pass.
struct Emitter {
    addr: usize,
    program: [u8; 4096],
    labels: Table,
    mentions: Vec<(String, (usize, usize))>,
    errors: ErrorsHighlightInfo,
}

/// A reference to a label as a mathematical value.
pub open spec fn mention_view(mention: (String, (usize, usize))) -> Mention {
    Mention { name: mention.0@, line: mention.1.0, addr: mention.1.1 }
}

/// A list of references to labels as a mathematical value.
pub open spec fn mention_views(mentions: Seq<(String, (usize, usize))>) -> Seq<Mention> {
    mentions.map_values(|mention: (String, (usize, usize))| mention_view(mention))
}

impl View for Emitter {
    type V = Emission;

    closed spec fn view(&self) -> Emission {
        Emission {
            addr: self.addr,
            program: self.program@,
            labels: entries(self.labels),
            mentions: mention_views(self.mentions@),
            errors: marks(self.errors@),
        }
    }
}

/// What the second pass keeps true: the next address is inside the image or
/// at its end, no label lies beyond that, and every reference is made by a
/// line of the source.
spec fn emission_bounded(emission: Emission, lines: int) -> bool {
    &&& emission.addr <= MAX_PROGRAM_SIZE
    &&& emission.program.len() == MAX_PROGRAM_SIZE
    &&& forall|name: Seq<char>| #[trigger]
        emission.labels.contains_key(name) ==> emission.labels[name] <= MAX_PROGRAM_SIZE
    &&& forall|j: int|
        0 <= j < emission.mentions.len() ==> (#[trigger] emission.mentions[j]).line < lines
}

impl Emitter {
    /// The second pass on line `k`.
    fn emit_line(&mut self, codes: &Table, lines: &Vec<&[char]>, starts: &Vec<usize>, k: usize)
        requires
            entries(*codes) == mnemonics(),
            are_line_starts(starts@, views(lines@)),
            k < lines@.len(),
            emission_bounded(old(self)@, k as int),
        ensures
            final(self)@ == emitted_line(old(self)@, views(lines@), k as int),
            emission_bounded(final(self)@, k + 1),
    {
        assert(views(lines@)[k as int] == lines@[k as int]@);
        let line = Compiler::preprocess_line(lines[k]);
        if line.len() > 0 && line[line.len() - 1] == ':' {
            let name = string_of(slice_subrange(line, 0, line.len() - 1));
            let ghost labels = entries(self.labels);
            table_insert(&mut self.labels, name, self.addr);
            proof {
                assert(labels == old(self)@.labels);
                assert(self@.labels == labels.insert(name@, self.addr));
                assert forall|other: Seq<char>| #[trigger]
                    self@.labels.contains_key(other) implies self@.labels[other]
                    <= MAX_PROGRAM_SIZE by {
                    if other != name@ {
                        assert(labels.contains_key(other));
                        assert(old(self)@.labels.contains_key(other));
                    } else {
                        assert(self@.labels[other] == self.addr);
                    }
                }
            }
            return ;
        }
        let analysis = Compiler::process_instruction(codes, line, k);
        let count = starts.len();
        let ghost before = mention_views(self.mentions@);
        let ghost names = string_views(analysis.mentions@);
        let mut j: usize = 0;
        while j < analysis.mentions.len()
            invariant
                j <= analysis.mentions.len(),
                k + 1 < count,
                count == starts@.len(),
                are_line_starts(starts@, views(lines@)),
                self.addr <= MAX_PROGRAM_SIZE,
                names == string_views(analysis.mentions@),
                mention_views(self.mentions@) == before + mentions_at(
                    names.take(j as int),
                    k,
                    self.addr,
                ),
                self.addr == old(self).addr,
                self.program == old(self).program,
                self.labels == old(self).labels,
                self.errors == old(self).errors,
            decreases analysis.mentions.len() - j,
        {
            let name = analysis.mentions[j].clone();
            let ghost was = mention_views(self.mentions@);
            self.mentions.push((name, (k, self.addr + 2)));
            proof {
                let mention = Mention { name: names[j as int], line: k, addr: (self.addr + 2) as usize };
                assert(mention_views(self.mentions@) =~= was.push(mention));
                assert(mentions_at(names.take(j + 1), k, self.addr) =~= mentions_at(
                    names.take(j as int),
                    k,
                    self.addr,
                ).push(mention));
            }
            j += 1;
        }
        proof {
            assert(names.take(j as int) == names);
        }
        let range = Range { start: starts[k], end: starts[k + 1] };
        match analysis.outcome {
            Err(error) => {
                let entry = (range, error);
                proof {
                    lemma_marks_push(self.errors@, entry);
                }
                self.errors.push(entry);
            },
            Ok(None) => {},
            Ok(Some((code, nibbles, number))) => {
                let size: usize = if number.is_some() {
                    4
                } else {
                    2
                };
                if self.addr + size > MAX_PROGRAM_SIZE {
                    let entry = (range, CompilationError::OutOfMemory { line: k });
                    proof {
                        lemma_marks_push(self.errors@, entry);
                    }
                    self.errors.push(entry);
                } else {
                    let ghost image = self.program@;
                    self.program[self.addr] = code;
                    self.program[self.addr + 1] = nibbles;
                    if let Some(number) = number {
                        self.program[self.addr + 2] = (number / 256) as u8;
                        self.program[self.addr + 3] = (number % 256) as u8;
                    }
                    assert(self.program@ =~= placed(
                        image,
                        self.addr as int,
                        encoded_bytes(code, nibbles, number),
                    ));
                    self.addr = self.addr + size;
                }
            },
        }
    }
}

/// The second pass: labels get their addresses and instructions are placed.
fn emit(codes: &Table, lines: &Vec<&[char]>, starts: &Vec<usize>, errors: ErrorsHighlightInfo) -> (emitter:
    Emitter)
    requires
        entries(*codes) == mnemonics(),
        are_line_starts(starts@, views(lines@)),
    ensures
        emitter@ == emitted(views(lines@), lines@.len() as int, marks(errors@)),
        emission_bounded(emitter@, lines@.len() as int),
{
    let mut emitter = Emitter {
        addr: 0,
        program: [0;4096],
        labels: new_table(),
        mentions: Vec::new(),
        errors,
    };
    proof {
        let start = emitted(views(lines@), 0, marks(errors@));
        assert(emitter@.program =~= start.program);
        assert(emitter@.labels =~= start.labels);
        assert(emitter@.mentions =~= start.mentions);
    }
    let mut k: usize = 0;
    while k < lines.len()
        invariant
            k <= lines.len(),
            entries(*codes) == mnemonics(),
            are_line_starts(starts@, views(lines@)),
            emitter@ == emitted(views(lines@), k as int, marks(errors@)),
            emission_bounded(emitter@, k as int),
        decreases lines.len() - k,
    {
        emitter.emit_line(codes, lines, starts, k);
        k += 1;
    }
    emitter
}

/// The third pass: the references to labels are resolved.
fn patch(emitter: Emitter, lines: &Vec<&[char]>, starts: &Vec<usize>) -> (res: (
    [u8; 4096],
    ErrorsHighlightInfo,
))
    requires
        are_line_starts(starts@, views(lines@)),
        emission_bounded(emitter@, lines@.len() as int),
    ensures
        res.0@ == patched(emitter@, views(lines@), emitter@.mentions.len() as int).program,
        marks(res.1@) == patched(emitter@, views(lines@), emitter@.mentions.len() as int).errors,
{
    let ghost start = emitter@;
    let mut emitter = emitter;
    let count = lines.len();
    let mut j: usize = 0;
    while j < emitter.mentions.len()
        invariant
            j <= emitter.mentions@.len(),
            count == lines@.len(),
            are_line_starts(starts@, views(lines@)),
            emission_bounded(start, count as int),
            entries(emitter.labels) == start.labels,
            mention_views(emitter.mentions@) == start.mentions,
            emitter.program@ == patched(start, views(lines@), j as int).program,
            marks(emitter.errors@) == patched(start, views(lines@), j as int).errors,
        decreases emitter.mentions@.len() - j,
    {
        let name = emitter.mentions[j].0.clone();
        let line = emitter.mentions[j].1.0;
        let patch_addr = emitter.mentions[j].1.1;
        proof {
            assert(start.mentions[j as int] == mention_view(emitter.mentions@[j as int]));
            assert(start.mentions[j as int].line < count);
        }
        match table_get(&emitter.labels, name.as_str()) {
            Some(addr) => {
                if patch_addr <= MAX_PROGRAM_SIZE - 2 {
                    let ghost image = emitter.program@;
                    emitter.program[patch_addr] = (addr / 256) as u8;
                    emitter.program[patch_addr + 1] = (addr % 256) as u8;
                    assert(emitter.program@ =~= placed(
                        image,
                        patch_addr as int,
                        seq![(addr / 256) as u8, (addr % 256) as u8],
                    ));
                }
            },
            None => {
                let end = if line + 1 < count {
                    starts[line + 1]
                } else {
                    starts[line + 1] - 1
                };
                let entry = (
                    Range { start: starts[line], end },
                    CompilationError::NoLabelWithSuchName { line, name },
                );
                proof {
                    lemma_marks_push(emitter.errors@, entry);
                }
                emitter.errors.push(entry);
            },
        }
        j += 1;
    }
    (emitter.program, emitter.errors)
}

impl Compiler {
    /// The image, if the latest compilation had no diagnostics.
    pub fn checked_program(&self) -> (image: Option<&[u8; 4096]>)
        ensures
            image is Some == (self.errors@.len() == 0),
            image is Some ==> *image->Some_0 == self.program,
    {
        if self.errors.len() == 0 {
            Some(&self.program)
        } else {
            None
        }
    }

    /// Compiles a source text that is in lower case already: afterwards
    /// `program` is the image and `errors` are the diagnostics of `text`,
    /// whatever they were before. A text so long that the ranges of its lines
    /// cannot be told in `usize` is not compiled, and both stay as they were;
    /// the result says whether the text was compiled.
    pub fn assemble(&mut self, text: &str) -> (done: bool)
        ensures
            done == source_fits(text@),
            done ==> final(self).program@ == assembled(text@).program,
            done ==> marks(final(self).errors@) == assembled(text@).errors,
            !done ==> final(self).program == old(self).program,
            !done ==> final(self).errors == old(self).errors,
    {
        let chars = chars_of(text);
        let lines = split_at_char(chars.as_slice(), '\n');
        let starts = match line_starts(&lines) {
            Some(starts) => starts,
            None => {
                return false;
            },
        };
        assert(starts@[lines@.len() as int] == line_offset(views(lines@), lines@.len() as int));
        let codes = mnemonic_table();
        let errors = validate_labels(&lines, &starts);
        let emitter = emit(&codes, &lines, &starts, errors);
        let (program, errors) = patch(emitter, &lines, &starts);
        self.program = program;
        self.errors = errors;
        true
    }

    /// Compiles a source text, letters of either case taken as lower case:
    /// afterwards `program` is the image and `errors` are the diagnostics of
    /// `asm_code`, whatever they were before. A text so long that the ranges
    /// of its lines cannot be told in `usize` is not compiled, and both stay
    /// as they were.
    pub fn compile_code(&mut self, asm_code: &str)
        ensures
            compiles_to(*old(self), asm_code@, *final(self)),
    {
        let lower = asm_code.to_lowercase();
        self.assemble(lower.as_str());
    }
}

/// What `Compiler::compile_code` does with a source: `after` holds the
/// image and the diagnostics that the source compiles to or, where the
/// ranges of its lines cannot be told in `usize`, what `before` held.
pub open spec fn compiles_to(before: Compiler, source: Seq<char>, after: Compiler) -> bool {
    if source_fits(lowercase_of(source)) {
        &&& after.program@ == compiled(source).program
        &&& marks(after.errors@) == compiled(source).errors
    } else {
        &&& after.program == before.program
        &&& after.errors == before.errors
    }
}

impl Diagnosis {
    /// The line that the diagnostic is about, counted from zero.
    pub open spec fn line(self) -> usize {
        match self {
            Diagnosis::UnknownInstruction { line, .. } => line,
            Diagnosis::NoLabelWithSuchName { line, .. } => line,
            Diagnosis::InvalidOperand { line, .. } => line,
            Diagnosis::WrongNumberOfOperands { line, .. } => line,
            Diagnosis::WrongOperandType { line, .. } => line,
            Diagnosis::OutOfMemory { line } => line,
            Diagnosis::LabelAlreadyExists { line, .. } => line,
            Diagnosis::InvalidLabelName { line, .. } => line,
        }
    }

    /// What the diagnostic says, behind the number of its line.
    pub open spec fn sentence(self) -> Seq<char> {
        match self {
            Diagnosis::UnknownInstruction { name, .. } => ": Unknown instruction: `"@ + name
                + "`"@,
            Diagnosis::NoLabelWithSuchName { name, .. } => ": No label with such name: `"@ + name
                + "`"@,
            Diagnosis::InvalidOperand { text, .. } => ": Invalid operand: `"@ + text + "`"@,
            Diagnosis::WrongNumberOfOperands {
                expected,
                found,
                ..
            } => ": Wrong number of operands: expected "@ + decimal(expected as nat)
                + ", found "@ + decimal(found as nat),
            Diagnosis::WrongOperandType {
                expected,
                found,
                ..
            } => ": Wrong operand type: expected "@ + expected + ", found "@ + found,
            Diagnosis::OutOfMemory { .. } => ": Program doesn't fit in memory"@,
            Diagnosis::LabelAlreadyExists {
                name,
                ..
            } => ": A label with such name already exists: `"@ + name + "`"@,
            Diagnosis::InvalidLabelName { name, .. } => ": `"@ + name
                + "` is not a correct label name"@,
        }
    }

    /// The diagnostic as a sentence for the user, who counts lines from one.
    pub open spec fn message(self) -> Seq<char> {
        "line "@ + decimal((self.line() + 1) as nat) + self.sentence()
    }
}

impl CompilationError {
    /// The diagnostic as a sentence for the user, who counts lines from one.
    pub fn to_string(&self) -> (message: String)
        ensures
            message@ == self@.message(),
    {
        let mut message = String::from_str("line ");
        match self {
            CompilationError::UnknownInstruction { line, name } => {
                push_decimal(&mut message, *line as u128 + 1);
                message.append(": Unknown instruction: `");
                message.append(name.as_str());
                message.append("`");
            },
            CompilationError::NoLabelWithSuchName { line, name } => {
                push_decimal(&mut message, *line as u128 + 1);
                message.append(": No label with such name: `");
                message.append(name.as_str());
                message.append("`");
            },
            CompilationError::InvalidOperand { line, text } => {
                push_decimal(&mut message, *line as u128 + 1);
                message.append(": Invalid operand: `");
                message.append(text.as_str());
                message.append("`");
            },
            CompilationError::WrongNumberOfOperands { line, expected, found } => {
                push_decimal(&mut message, *line as u128 + 1);
                message.append(": Wrong number of operands: expected ");
                push_decimal(&mut message, *expected as u128);
                message.append(", found ");
                push_decimal(&mut message, *found as u128);
            },
            CompilationError::WrongOperandType { line, expected, found } => {
                push_decimal(&mut message, *line as u128 + 1);
                message.append(": Wrong operand type: expected ");
                message.append(expected.as_str());
                message.append(", found ");
                message.append(found.as_str());
            },
            CompilationError::OutOfMemory { line } => {
                push_decimal(&mut message, *line as u128 + 1);
                message.append(": Program doesn't fit in memory");
            },
            CompilationError::LabelAlreadyExists { line, name } => {
                push_decimal(&mut message, *line as u128 + 1);
                message.append(": A label with such name already exists: `");
                message.append(name.as_str());
                message.append("`");
            },
            CompilationError::InvalidLabelName { line, name } => {
                push_decimal(&mut message, *line as u128 + 1);
                message.append(": `");
                message.append(name.as_str());
                message.append("` is not a correct label name");
            },
        }
        message
    }
}

} // verus!
