//! What holds of the assembler whatever the source: a compilation depends
//! on the source alone, the case of letters reaches neither image nor
//! diagnostics, comments do not reach the image, and what is assembled is
//! decoded as it was written.

use crate::compiler::{
    assembled, before_comment, compiled, compiles_to, emitted, marks, operand_code,
    operands_code, patched, preprocessed, source_fits, source_lines, validated, Compiler,
    Emission, Marked, MAX_PROGRAM_SIZE,
};
use crate::executor::{
    holds_at_pc, lemma_operand_round_trip, lemma_operands_round_trip, MachineState, RuntimeError,
};
use crate::instruction_set::{
    be_u16, encoded_bytes, instruction_set, lemma_instruction_set_sound, port_exclusive,
    row_is_sound, InstructionOperand, InstructionOperands, INSTRUCTION_COUNT, NUMBER_MASK,
    PORT_MASK,
};
use crate::text::{
    first_index, is_space, leading_spaces, lemma_first_index, lemma_first_index_is,
    lemma_leading_spaces, lemma_leading_spaces_is, lemma_trailing_spaces, lowercase_of, split,
    trailing_spaces, trim_end, trim_start, trimmed,
};
use vstd::prelude::*;

verus! {

/// Determinism: two compilations of one source leave the same image and the
/// same diagnostics, whatever the assemblers held before. (The source must
/// be one that is compiled at all: the ranges of its lines can be told in
/// `usize`.)
pub proof fn lemma_compilation_is_determined(
    source: Seq<char>,
    before_one: Compiler,
    after_one: Compiler,
    before_other: Compiler,
    after_other: Compiler,
)
    requires
        source_fits(lowercase_of(source)),
        compiles_to(before_one, source, after_one),
        compiles_to(before_other, source, after_other),
    ensures
        after_one.program == after_other.program,
        marks(after_one.errors@) == marks(after_other.errors@),
{
    assert(after_one.program@ == after_other.program@);
    assert(after_one.program =~= after_other.program);
}

/// Case insensitivity: two sources that differ in the case of letters only,
/// that is sources with one lower-case form, compile to one image and one
/// list of diagnostics.
pub proof fn lemma_case_insensitive(a: Seq<char>, b: Seq<char>)
    requires
        lowercase_of(a) == lowercase_of(b),
    ensures
        compiled(a) == compiled(b),
{
}

/// The text has no line feed in it.
pub open spec fn is_one_line(s: Seq<char>) -> bool {
    forall|j: int| 0 <= j < s.len() ==> s[j] != '\n'
}

/// The lines, with a line feed between each two of them.
pub open spec fn joined_lines(lines: Seq<Seq<char>>) -> Seq<char>
    decreases lines.len(),
{
    if lines.len() == 0 {
        seq![]
    } else if lines.len() == 1 {
        lines[0]
    } else {
        lines[0] + seq!['\n'] + joined_lines(lines.drop_first())
    }
}

/// The lines of a text put together from lines are those lines.
pub proof fn lemma_lines_of_joined(lines: Seq<Seq<char>>)
    requires
        lines.len() > 0,
        forall|k: int| 0 <= k < lines.len() ==> is_one_line(#[trigger] lines[k]),
    ensures
        source_lines(joined_lines(lines)) == lines,
    decreases lines.len(),
{
    let text = joined_lines(lines);
    let first = lines[0];
    assert(is_one_line(first));
    if lines.len() == 1 {
        lemma_first_index_is(text, '\n', text.len() as int);
        assert(split(text, '\n') =~= lines);
    } else {
        let rest = lines.drop_first();
        assert forall|k: int| 0 <= k < rest.len() implies is_one_line(#[trigger] rest[k]) by {
            assert(rest[k] == lines[k + 1]);
        }
        lemma_lines_of_joined(rest);
        lemma_first_index_is(text, '\n', first.len() as int);
        assert(text.take(first.len() as int) =~= first);
        assert(text.skip(first.len() as int + 1) =~= joined_lines(rest));
        assert(split(text, '\n') =~= lines);
    }
}

/// A line with a comment reads as what stands before the comment reads
/// without the spaces it starts with.
pub proof fn lemma_preprocessed_with_comment(line: Seq<char>)
    requires
        first_index(line, ';') < line.len(),
    ensures
        preprocessed(line) == trim_start(line.take(first_index(line, ';'))),
{
    let f = first_index(line, ';');
    lemma_first_index(line, ';');
    lemma_leading_spaces(line);
    let a = leading_spaces(line) as int;
    assert(!is_space(';'));
    assert(a <= f) by {
        if f < a {
            assert(is_space(line[f]));
        }
    }
    let started = trim_start(line);
    lemma_trailing_spaces(started);
    let e = started.len() - trailing_spaces(started);
    assert(started[f - a] == line[f]);
    assert(f - a < e) by {
        if e <= f - a {
            assert(is_space(started[f - a]));
        }
    }
    let t = trimmed(line);
    assert(t == started.take(e));
    assert forall|j: int| 0 <= j < f - a implies t[j] != ';' by {
        assert(t[j] == line[a + j]);
    }
    lemma_first_index_is(t, ';', f - a);
    let head = line.take(f);
    lemma_leading_spaces_is(head, a);
    assert(before_comment(t) =~= head.skip(a));
}

/// A line whose first `;` stands at `f` reads the same whatever follows
/// that `;`.
pub proof fn lemma_preprocessed_same_head(a: Seq<char>, b: Seq<char>, f: int)
    requires
        first_index(a, ';') == f,
        first_index(b, ';') == f,
        f < a.len(),
        f < b.len(),
        a.take(f) == b.take(f),
    ensures
        preprocessed(a) == preprocessed(b),
{
    lemma_preprocessed_with_comment(a);
    lemma_preprocessed_with_comment(b);
}

/// The line `line` with `;` and `comment` behind it.
pub open spec fn commented(line: Seq<char>, comment: Seq<char>) -> Seq<char> {
    line + seq![';'] + comment
}

/// A comment behind a line does not change how the line reads, if the line
/// has a comment already or does not end in a space.
pub proof fn lemma_comment_is_not_read(line: Seq<char>, comment: Seq<char>)
    requires
        first_index(line, ';') < line.len() || trailing_spaces(line) == 0,
    ensures
        preprocessed(commented(line, comment)) == preprocessed(line),
{
    let longer = commented(line, comment);
    let f = first_index(line, ';');
    lemma_first_index(line, ';');
    assert forall|j: int| 0 <= j < f implies longer[j] != ';' by {
        assert(longer[j] == line[j]);
    }
    if f < line.len() {
        assert(longer[f] == line[f]);
        lemma_first_index_is(longer, ';', f);
        assert(longer.take(f) =~= line.take(f));
        lemma_preprocessed_same_head(longer, line, f);
    } else {
        assert(longer[f] == ';');
        lemma_first_index_is(longer, ';', f);
        lemma_preprocessed_with_comment(longer);
        assert(longer.take(f) =~= line);
        assert(line.take(f) =~= line);
        // Without a comment the line reads as it is trimmed, and trimming its
        // end takes nothing away.
        let started = trim_start(line);
        lemma_leading_spaces(line);
        if started.len() > 0 {
            assert(started.last() == line.last());
            assert(!is_space(line.last()));
        }
        assert(trailing_spaces(started) == 0);
        assert(trim_end(started) =~= started);
        assert(trimmed(line) == started);
        lemma_first_index(started, ';');
        assert(first_index(started, ';') == started.len()) by {
            let g = first_index(started, ';');
            if g < started.len() {
                assert(started[g] == line[g + leading_spaces(line)]);
            }
        }
        assert(before_comment(started) =~= started);
    }
}

/// The two sources have as many lines, and each line of the one reads as
/// the line of the other does.
pub open spec fn read_alike(a: Seq<Seq<char>>, b: Seq<Seq<char>>) -> bool {
    &&& a.len() == b.len()
    &&& forall|k: int| 0 <= k < a.len() ==> preprocessed(#[trigger] a[k]) == preprocessed(b[k])
}

/// The two states of the second pass differ in their diagnostics at most.
pub open spec fn emitted_alike(a: Emission, b: Emission) -> bool {
    &&& a.addr == b.addr
    &&& a.program == b.program
    &&& a.labels == b.labels
    &&& a.mentions == b.mentions
}

/// Sources that read alike place the same instructions, give the labels the
/// same addresses and refer to the same labels.
pub proof fn lemma_emitted_alike(
    a: Seq<Seq<char>>,
    b: Seq<Seq<char>>,
    k: int,
    errors_a: Seq<Marked>,
    errors_b: Seq<Marked>,
)
    requires
        read_alike(a, b),
        0 <= k <= a.len(),
    ensures
        emitted_alike(emitted(a, k, errors_a), emitted(b, k, errors_b)),
    decreases k,
{
    if k > 0 {
        lemma_emitted_alike(a, b, k - 1, errors_a, errors_b);
        assert(preprocessed(a[k - 1]) == preprocessed(b[k - 1]));
    }
}

/// States of the second pass that differ in their diagnostics at most are
/// resolved to the same image.
pub proof fn lemma_patched_alike(
    a: Emission,
    b: Emission,
    lines_a: Seq<Seq<char>>,
    lines_b: Seq<Seq<char>>,
    j: int,
)
    requires
        emitted_alike(a, b),
        0 <= j <= a.mentions.len(),
    ensures
        patched(a, lines_a, j).program == patched(b, lines_b, j).program,
    decreases j,
{
    if j > 0 {
        lemma_patched_alike(a, b, lines_a, lines_b, j - 1);
    }
}

/// Sources that read alike, line by line, compile to the same image.
pub proof fn lemma_image_depends_on_reading(a: Seq<char>, b: Seq<char>)
    requires
        read_alike(source_lines(a), source_lines(b)),
    ensures
        assembled(a).program == assembled(b).program,
{
    let lines_a = source_lines(a);
    let lines_b = source_lines(b);
    let n = lines_a.len() as int;
    let errors_a = validated(lines_a, n).errors;
    let errors_b = validated(lines_b, n).errors;
    lemma_emitted_alike(lines_a, lines_b, n, errors_a, errors_b);
    let emission_a = emitted(lines_a, n, errors_a);
    let emission_b = emitted(lines_b, n, errors_b);
    lemma_patched_alike(emission_a, emission_b, lines_a, lines_b, emission_a.mentions.len() as int);
}

/// Comment transparency: a comment appended to a line of a source in lower
/// case does not change the compiled image, if that line has a comment
/// already or does not end in a space. (A line that ends in a space is
/// trimmed without a comment and keeps the space before one.)
pub proof fn lemma_comment_transparency(lines: Seq<Seq<char>>, i: int, comment: Seq<char>)
    requires
        0 <= i < lines.len(),
        forall|k: int| 0 <= k < lines.len() ==> is_one_line(#[trigger] lines[k]),
        is_one_line(comment),
        first_index(lines[i], ';') < lines[i].len() || trailing_spaces(lines[i]) == 0,
    ensures
        assembled(joined_lines(lines.update(i, commented(lines[i], comment)))).program
            == assembled(joined_lines(lines)).program,
{
    let longer = lines.update(i, commented(lines[i], comment));
    assert(is_one_line(lines[i]));
    assert(is_one_line(commented(lines[i], comment)));
    assert forall|k: int| 0 <= k < longer.len() implies is_one_line(#[trigger] longer[k]) by {
        if k != i {
            assert(longer[k] == lines[k]);
        }
    }
    lemma_lines_of_joined(lines);
    lemma_lines_of_joined(longer);
    lemma_comment_is_not_read(lines[i], comment);
    assert(read_alike(longer, lines));
    lemma_image_depends_on_reading(joined_lines(longer), joined_lines(lines));
}

/// Comment transparency, of sources in any case: two sources whose
/// lower-case forms differ by a comment appended to one line compile to the
/// same image, if that line has a comment already or does not end in a
/// space.
pub proof fn lemma_comment_transparency_of_compiled(
    plain: Seq<char>,
    annotated: Seq<char>,
    lines: Seq<Seq<char>>,
    i: int,
    comment: Seq<char>,
)
    requires
        0 <= i < lines.len(),
        forall|k: int| 0 <= k < lines.len() ==> is_one_line(#[trigger] lines[k]),
        is_one_line(comment),
        first_index(lines[i], ';') < lines[i].len() || trailing_spaces(lines[i]) == 0,
        lowercase_of(plain) == joined_lines(lines),
        lowercase_of(annotated) == joined_lines(lines.update(i, commented(lines[i], comment))),
    ensures
        compiled(annotated).program == compiled(plain).program,
{
    lemma_comment_transparency(lines, i, comment);
}

/// Round trip of an operand: the nibble that the assembler gives an operand
/// in a slot is decoded by the executor, for the same slot, as that operand.
/// This holds for every well-formed operand that the slot's mask admits, if
/// the mask does not mix ports with other kinds; an immediate is read back
/// from the third and fourth byte of the instruction.
pub proof fn lemma_operand_encoded_then_decoded(
    m: MachineState,
    mask: u8,
    operand: InstructionOperand,
    line: usize,
)
    requires
        operand.wf(),
        port_exclusive(mask),
        operand_code(operand, mask, line) is Ok,
        operand is Number ==> m.curr_addr + 3 < MAX_PROGRAM_SIZE && be_u16(
            m.memory[m.curr_addr + 2],
            m.memory[m.curr_addr + 3],
        ) == operand_code(operand, mask, line)->Ok_0.1->Some_0,
    ensures
        m.decode_operand(mask, operand_code(operand, mask, line)->Ok_0.0) == Ok::<
            InstructionOperand,
            RuntimeError,
        >(operand),
{
    lemma_operand_round_trip(m, mask, operand);
}

/// Round trip of an instruction of the table: where the memory holds, at the
/// program counter, the bytes that the assembler gives an instruction, the
/// executor decodes the operands that were assembled.
pub proof fn lemma_instruction_encoded_then_decoded(
    m: MachineState,
    code: u8,
    operands: InstructionOperands,
    line: usize,
)
    requires
        code < INSTRUCTION_COUNT,
        operands.wf(),
        operands_code(operands, instruction_set()[code as int].accepted_operands, line) is Ok,
        holds_at_pc(
            m,
            encoded_bytes(
                code,
                operands_code(
                    operands,
                    instruction_set()[code as int].accepted_operands,
                    line,
                )->Ok_0.0,
                operands_code(
                    operands,
                    instruction_set()[code as int].accepted_operands,
                    line,
                )->Ok_0.1,
            ),
        ),
    ensures
        m.decode_operands(instruction_set()[code as int].accepted_operands) == Ok::<
            InstructionOperands,
            RuntimeError,
        >(operands),
{
    let accepted = instruction_set()[code as int].accepted_operands;
    lemma_instruction_set_sound();
    assert(row_is_sound(instruction_set()[code as int]));
    assert(0u8 & NUMBER_MASK == 0) by (bit_vector);
    match operands {
        InstructionOperands::Two(a, b) => {
            // No instruction of the table takes two immediates.
            if a is Number {
                assert(instruction_set()[code as int].operation is Jmp || accepted.0 == PORT_MASK);
                assert(PORT_MASK & NUMBER_MASK == 0) by (bit_vector);
            }
        },
        _ => {},
    }
    lemma_operands_round_trip(m, code, accepted, operands);
}

} // verus!
