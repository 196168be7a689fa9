//! What the editor needs of the language: number literals and the kinds of
//! token that a source text is made of.

use crate::compiler::{mnemonic_table, mnemonics, CompilationError, ErrorsHighlightInfo};
use crate::instruction_set::wrap_u16;
use crate::tables::table_get;
use crate::text::{
    chars_of, find_char, first_index, is_space, is_whitespace, leading_spaces, lemma_first_index,
    lemma_leading_spaces, lemma_leading_spaces_is,
};
use std::ops::Range;
use vstd::prelude::*;
use vstd::slice::slice_subrange;

verus! {

/// The value of `c` as a digit in base `base`: `0` to `9`, then the letters
/// of either case from ten on. `None` where `c` is no digit of that base.
pub open spec fn digit_value(c: char, base: int) -> Option<int> {
    let n = c as u32 as int;
    let value = if 0x30 <= n <= 0x39 {
        n - 0x30
    } else if 0x61 <= n <= 0x7A {
        n - 0x61 + 10
    } else if 0x41 <= n <= 0x5A {
        n - 0x41 + 10
    } else {
        base
    };
    if value < base {
        Some(value)
    } else {
        None
    }
}

/// Every character of `s` is a digit in base `base`.
pub open spec fn all_digits(s: Seq<char>, base: int) -> bool {
    forall|i: int| 0 <= i < s.len() ==> digit_value(#[trigger] s[i], base) is Some
}

/// The number that the digits `s` denote in base `base`.
pub open spec fn digits_value(s: Seq<char>, base: int) -> int
    decreases s.len(),
{
    if s.len() == 0 {
        0
    } else {
        digits_value(s.drop_last(), base) * base + digit_value(s.last(), base)->Some_0
    }
}

/// The number literal that `text` is, reduced to sixteen bits: an optional
/// `-`, an optional `0x` that announces base sixteen in place of ten, and at
/// least one digit of that base. `None` where `text` is no such literal.
pub open spec fn parsed_number(text: Seq<char>) -> Option<u16> {
    let negative = text.len() > 0 && text[0] == '-';
    let magnitude = if negative {
        text.skip(1)
    } else {
        text
    };
    let hex = magnitude.len() >= 2 && magnitude[0] == '0' && magnitude[1] == 'x';
    let digits = if hex {
        magnitude.skip(2)
    } else {
        magnitude
    };
    let base = if hex {
        16int
    } else {
        10int
    };
    if digits.len() > 0 && all_digits(digits, base) {
        if negative {
            Some(wrap_u16(-digits_value(digits, base)))
        } else {
            Some(wrap_u16(digits_value(digits, base)))
        }
    } else {
        None
    }
}

/// The value of `c` as a digit in base `base`.
pub fn to_digit(c: char, base: u32) -> (digit: Option<u32>)
    requires
        base <= 36,
    ensures
        digit is Some == digit_value(c, base as int) is Some,
        digit is Some ==> digit->Some_0 == digit_value(c, base as int)->Some_0,
{
    let n = c as u32;
    let value = if 0x30 <= n && n <= 0x39 {
        n - 0x30
    } else if 0x61 <= n && n <= 0x7A {
        n - 0x61 + 10
    } else if 0x41 <= n && n <= 0x5A {
        n - 0x41 + 10
    } else {
        base
    };
    if value < base {
        Some(value)
    } else {
        None
    }
}

/// The number literal that `text` is, reduced to sixteen bits.
pub fn parse_number(text: &[char]) -> (number: Option<u16>)
    ensures
        number == parsed_number(text@),
{
    let negative = text.len() > 0 && text[0] == '-';
    let magnitude = if negative {
        slice_subrange(text, 1, text.len())
    } else {
        text
    };
    let hex = magnitude.len() >= 2 && magnitude[0] == '0' && magnitude[1] == 'x';
    let digits = if hex {
        slice_subrange(magnitude, 2, magnitude.len())
    } else {
        magnitude
    };
    let base: u32 = if hex {
        16
    } else {
        10
    };
    if digits.len() == 0 {
        return None;
    }
    let mut acc: u32 = 0;
    let mut i: usize = 0;
    while i < digits.len()
        invariant
            i <= digits.len(),
            base == 10 || base == 16,
            acc < 0x1_0000,
            !all_digits(digits@, base as int) ==> parsed_number(text@) is None,
            all_digits(digits@.take(i as int), base as int),
            acc == digits_value(digits@.take(i as int), base as int) % 0x1_0000,
        decreases digits.len() - i,
    {
        let digit = match to_digit(digits[i], base) {
            Some(digit) => digit,
            None => {
                assert(digit_value(digits@[i as int], base as int) is None);
                return None;
            },
        };
        proof {
            let before = digits@.take(i as int);
            let now = digits@.take(i + 1);
            assert(now.drop_last() == before);
            assert(now.last() == digits@[i as int]);
            let v = digits_value(before, base as int);
            if base == 10 {
                assert((v * 10 + digit) % 0x1_0000 == ((v % 0x1_0000) * 10 + digit) % 0x1_0000);
            } else {
                assert((v * 16 + digit) % 0x1_0000 == ((v % 0x1_0000) * 16 + digit) % 0x1_0000);
            }
        }
        acc = (acc * base + digit) % 0x1_0000;
        i += 1;
    }
    proof {
        assert(digits@.take(i as int) == digits@);
    }
    if negative {
        Some(((0x1_0000 - acc) % 0x1_0000) as u16)
    } else {
        Some(acc as u16)
    }
}

/// The number literal that `text` is, reduced to sixteen bits, so that `-1`
/// and `0xFFFF` are the same number. White space is not skipped.
pub fn wrapping_parse(text: &str) -> (number: Option<u16>)
    ensures
        number == parsed_number(text@),
{
    let chars = chars_of(text);
    parse_number(chars.as_slice())
}

/// The kinds of token that the editor tells apart.
#[derive(Clone, Copy, Debug, PartialEq, Eq, Structural)]
pub enum TokenType {
    Comment,
    Keyword,
    Literal,
    Number,
    StringLiteral,
    Punctuation,
    Whitespace,
    Label,
}

/// A token: its kind and the positions, counted in characters, at which it
/// starts and before which it ends.
#[derive(Clone, Copy, Debug, PartialEq, Eq, Structural)]
pub struct Token {
    pub kind: TokenType,
    pub start: usize,
    pub end: usize,
}

/// Whether `char::is_alphanumeric` holds of a character.
pub uninterp spec fn is_alphanumeric(c: char) -> bool;

/// `char::is_alphanumeric` says whether a character is a letter or a
/// number, which depends on the character alone.
pub assume_specification[ char::is_alphanumeric ](c: char) -> (b: bool)
    ensures
        b == is_alphanumeric(c),
;

/// Number of letters and numbers that `s` starts with.
pub open spec fn leading_alphanumerics(s: Seq<char>) -> nat
    decreases s.len(),
{
    if s.len() > 0 && is_alphanumeric(s[0]) {
        1 + leading_alphanumerics(s.drop_first())
    } else {
        0
    }
}

/// `c` with a capital letter of the ASCII alphabet made small.
pub open spec fn ascii_lower(c: char) -> char {
    if 0x41 <= c as u32 <= 0x5A {
        ((c as u32) + 0x20) as char
    } else {
        c
    }
}

/// `word` with the capital letters of the ASCII alphabet made small.
pub open spec fn ascii_lowercase(word: Seq<char>) -> Seq<char> {
    word.map_values(|c: char| ascii_lower(c))
}

/// The word is a mnemonic, whatever the case of its ASCII letters.
pub open spec fn is_mnemonic(word: Seq<char>) -> bool {
    mnemonics().contains_key(ascii_lowercase(word))
}

/// Length of the string literal that `s` starts with, `s` starting with a
/// quotation mark: up to the next quotation mark and with it or, where there
/// is none, up to the end of the line.
pub open spec fn string_literal_len(s: Seq<char>) -> int {
    let close = first_index(s.skip(1), '"');
    if close < s.len() - 1 {
        close + 2
    } else {
        first_index(s, '\n')
    }
}

/// Kind and length of the token that `s`, which is not empty, starts with.
///
/// A `;` starts a comment that runs to the end of the line, a quotation mark
/// a string literal, `@` a label that runs over the letters and numbers
/// behind it. Letters and numbers make a word: a label if a colon follows,
/// which then belongs to it, else a keyword if it is a mnemonic, else a
/// number if it is a number literal, else a literal. Spaces make white space.
/// Any other character is punctuation by itself.
pub open spec fn first_token(s: Seq<char>) -> (TokenType, int) {
    let word = leading_alphanumerics(s) as int;
    if s[0] == ';' {
        (TokenType::Comment, first_index(s, '\n'))
    } else if s[0] == '"' {
        (TokenType::StringLiteral, string_literal_len(s))
    } else if s[0] == '@' {
        (TokenType::Label, 1 + leading_alphanumerics(s.skip(1)) as int)
    } else if is_alphanumeric(s[0]) {
        if word < s.len() && s[word] == ':' {
            (TokenType::Label, word + 1)
        } else if is_mnemonic(s.take(word)) {
            (TokenType::Keyword, word)
        } else if parsed_number(s.take(word)) is Some {
            (TokenType::Number, word)
        } else {
            (TokenType::Literal, word)
        }
    } else if is_space(s[0]) {
        (TokenType::Whitespace, leading_spaces(s) as int)
    } else {
        (TokenType::Punctuation, 1)
    }
}

/// The tokens of `text` from position `pos` on.
pub open spec fn tokens_from(text: Seq<char>, pos: int) -> Seq<Token>
    decreases text.len() - pos,
{
    if 0 <= pos < text.len() {
        let (kind, len) = first_token(text.skip(pos));
        if 0 < len <= text.len() - pos {
            seq![Token { kind, start: pos as usize, end: (pos + len) as usize }] + tokens_from(
                text,
                pos + len,
            )
        } else {
            seq![]
        }
    } else {
        seq![]
    }
}

/// The tokens of `text`.
pub open spec fn tokens_of(text: Seq<char>) -> Seq<Token> {
    tokens_from(text, 0)
}

/// A token is not empty and does not reach beyond the text.
pub proof fn lemma_first_token_len(s: Seq<char>)
    requires
        s.len() > 0,
    ensures
        0 < first_token(s).1 <= s.len(),
{
    lemma_first_index(s, '\n');
    lemma_first_index(s.skip(1), '"');
    lemma_leading_alphanumerics(s);
    lemma_leading_alphanumerics(s.skip(1));
    lemma_leading_spaces(s);
}

/// The tokens tile the stretch of text between two positions: the first one
/// starts at `from`, each one starts where the one before it ends, none is
/// empty, and the last one ends at `to`.
pub open spec fn tile(tokens: Seq<Token>, from: int, to: int) -> bool
    decreases tokens.len(),
{
    if tokens.len() == 0 {
        from == to
    } else {
        &&& tokens[0].start == from
        &&& from < tokens[0].end
        &&& tile(tokens.drop_first(), tokens[0].end as int, to)
    }
}

/// The tokens of a text from a position on tile the text from there on.
pub proof fn lemma_tokens_tile_from(text: Seq<char>, pos: int)
    requires
        0 <= pos <= text.len() <= usize::MAX,
    ensures
        tile(tokens_from(text, pos), pos, text.len() as int),
    decreases text.len() - pos,
{
    if pos < text.len() {
        lemma_first_token_len(text.skip(pos));
        let len = first_token(text.skip(pos)).1;
        lemma_tokens_tile_from(text, pos + len);
        assert(tokens_from(text, pos).drop_first() =~= tokens_from(text, pos + len));
    }
}

/// The tokens of a text tile the text.
pub proof fn lemma_tokens_tile(text: Seq<char>)
    requires
        text.len() <= usize::MAX,
    ensures
        tile(tokens_of(text), 0, text.len() as int),
{
    lemma_tokens_tile_from(text, 0);
}

proof fn lemma_leading_alphanumerics(s: Seq<char>)
    ensures
        leading_alphanumerics(s) <= s.len(),
        forall|j: int| 0 <= j < leading_alphanumerics(s) ==> is_alphanumeric(s[j]),
        leading_alphanumerics(s) < s.len() ==> !is_alphanumeric(
            s[leading_alphanumerics(s) as int],
        ),
    decreases s.len(),
{
    if s.len() > 0 && is_alphanumeric(s[0]) {
        let rest = s.drop_first();
        lemma_leading_alphanumerics(rest);
        assert forall|j: int| 0 <= j < leading_alphanumerics(s) implies is_alphanumeric(s[j]) by {
            if j > 0 {
                assert(s[j] == rest[j - 1]);
            }
        }
    }
}

proof fn lemma_leading_alphanumerics_is(s: Seq<char>, k: int)
    requires
        0 <= k <= s.len(),
        forall|j: int| 0 <= j < k ==> is_alphanumeric(s[j]),
        k < s.len() ==> !is_alphanumeric(s[k]),
    ensures
        leading_alphanumerics(s) == k,
{
    lemma_leading_alphanumerics(s);
    let n = leading_alphanumerics(s) as int;
    if n < k {
        assert(is_alphanumeric(s[n]));
    } else if k < n {
        assert(is_alphanumeric(s[k]));
    }
}

/// Number of letters and numbers that `s` starts with.
fn count_alphanumerics(s: &[char]) -> (n: usize)
    ensures
        n == leading_alphanumerics(s@),
        n <= s@.len(),
{
    let mut n: usize = 0;
    while n < s.len() && s[n].is_alphanumeric()
        invariant
            n <= s.len(),
            forall|j: int| 0 <= j < n ==> is_alphanumeric(s@[j]),
        decreases s.len() - n,
    {
        n += 1;
    }
    proof {
        lemma_leading_alphanumerics_is(s@, n as int);
    }
    n
}

/// Number of spaces that `s` starts with.
fn count_blanks(s: &[char]) -> (n: usize)
    ensures
        n == leading_spaces(s@),
        n <= s@.len(),
{
    let mut n: usize = 0;
    while n < s.len() && is_whitespace(s[n])
        invariant
            n <= s.len(),
            forall|j: int| 0 <= j < n ==> is_space(s@[j]),
        decreases s.len() - n,
    {
        n += 1;
    }
    proof {
        lemma_leading_spaces_is(s@, n as int);
    }
    n
}

fn to_ascii_lower(c: char) -> (lower: char)
    ensures
        lower == ascii_lower(c),
{
    let n = c as u32;
    if 0x41 <= n && n <= 0x5A {
        ((n as u8) + 0x20) as char
    } else {
        c
    }
}

/// The highlighter of the editor.
pub struct Highlighter {}

impl Highlighter {
    /// Whether the word is a mnemonic, whatever the case of its ASCII
    /// letters.
    pub fn is_keyword_chars(word: &[char]) -> (keyword: bool)
        ensures
            keyword == is_mnemonic(word@),
    {
        let mut lower = String::new();
        let mut i: usize = 0;
        while i < word.len()
            invariant
                i <= word.len(),
                lower@ == ascii_lowercase(word@.take(i as int)),
            decreases word.len() - i,
        {
            lower.push(to_ascii_lower(word[i]));
            assert(ascii_lowercase(word@.take(i + 1)) =~= ascii_lowercase(
                word@.take(i as int),
            ).push(ascii_lower(word@[i as int])));
            i += 1;
        }
        assert(word@.take(i as int) == word@);
        let codes = mnemonic_table();
        table_get(&codes, lower.as_str()).is_some()
    }

    /// Whether the word is a mnemonic, whatever the case of its ASCII
    /// letters.
    pub fn is_keyword(word: &str) -> (keyword: bool)
        ensures
            keyword == is_mnemonic(word@),
    {
        let chars = chars_of(word);
        Self::is_keyword_chars(chars.as_slice())
    }

    /// Kind and length of the token that `s` starts with.
    fn first_token(s: &[char]) -> (token: (TokenType, usize))
        requires
            s@.len() > 0,
        ensures
            token.0 == first_token(s@).0,
            token.1 == first_token(s@).1,
            0 < token.1 <= s@.len(),
    {
        let first = s[0];
        if first == ';' {
            proof {
                lemma_first_index(s@, '\n');
            }
            (TokenType::Comment, find_char(s, '\n'))
        } else if first == '"' {
            let inside = slice_subrange(s, 1, s.len());
            let close = find_char(inside, '"');
            if close < inside.len() {
                (TokenType::StringLiteral, close + 2)
            } else {
                proof {
                    lemma_first_index(s@, '\n');
                }
                (TokenType::StringLiteral, find_char(s, '\n'))
            }
        } else if first == '@' {
            let name = count_alphanumerics(slice_subrange(s, 1, s.len()));
            (TokenType::Label, 1 + name)
        } else if first.is_alphanumeric() {
            let word = count_alphanumerics(s);
            proof {
                lemma_leading_alphanumerics(s@);
            }
            if word < s.len() && s[word] == ':' {
                (TokenType::Label, word + 1)
            } else if Self::is_keyword_chars(slice_subrange(s, 0, word)) {
                (TokenType::Keyword, word)
            } else if parse_number(slice_subrange(s, 0, word)).is_some() {
                (TokenType::Number, word)
            } else {
                (TokenType::Literal, word)
            }
        } else if is_whitespace(first) {
            proof {
                lemma_leading_spaces(s@);
            }
            (TokenType::Whitespace, count_blanks(s))
        } else {
            (TokenType::Punctuation, 1)
        }
    }

    /// The tokens of `text`.
    pub fn tokens_of_chars(text: &[char]) -> (tokens: Vec<Token>)
        ensures
            tokens@ == tokens_of(text@),
    {
        let mut tokens: Vec<Token> = Vec::new();
        let mut pos: usize = 0;
        while pos < text.len()
            invariant
                pos <= text.len(),
                tokens_of(text@) == tokens@ + tokens_from(text@, pos as int),
            decreases text.len() - pos,
        {
            let rest = slice_subrange(text, pos, text.len());
            let (kind, len) = Self::first_token(rest);
            assert(rest@ == text@.skip(pos as int));
            tokens.push(Token { kind, start: pos, end: pos + len });
            pos += len;
        }
        tokens
    }

    /// The tokens of `code`, positions counted in characters.
    pub fn tokens(code: &str) -> (tokens: Vec<Token>)
        ensures
            tokens@ == tokens_of(code@),
    {
        let chars = chars_of(code);
        Self::tokens_of_chars(chars.as_slice())
    }
}

/// Whether byte `i` of the source lies in the range of one of the first `k`
/// of `errors`.
pub open spec fn is_marked_by(errors: Seq<(Range<usize>, CompilationError)>, k: int, i: int) -> bool {
    exists|j: int| 0 <= j < k && (#[trigger] errors[j]).0.start <= i < errors[j].0.end
}

/// Whether byte `i` of the source lies in the range of one of `errors`.
pub open spec fn is_marked(errors: Seq<(Range<usize>, CompilationError)>, i: int) -> bool {
    is_marked_by(errors, errors.len() as int, i)
}

/// The greatest of `length` and of the ends of the ranges of the first `k`
/// of `errors`.
pub open spec fn marked_length(
    length: int,
    errors: Seq<(Range<usize>, CompilationError)>,
    k: int,
) -> int
    decreases k,
{
    if k <= 0 {
        length
    } else if errors[k - 1].0.end > marked_length(length, errors, k - 1) {
        errors[k - 1].0.end as int
    } else {
        marked_length(length, errors, k - 1)
    }
}

proof fn lemma_marked_length(length: int, errors: Seq<(Range<usize>, CompilationError)>, k: int)
    requires
        0 <= k <= errors.len(),
    ensures
        length <= marked_length(length, errors, k),
        forall|j: int| 0 <= j < k ==> (#[trigger] errors[j]).0.end <= marked_length(length, errors, k),
    decreases k,
{
    if k > 0 {
        lemma_marked_length(length, errors, k - 1);
    }
}

/// For every byte of a source of `length` bytes, and for the bytes behind it
/// up to the end of the last range, whether it lies in the range of one of
/// `errors`.
pub fn error_marks(length: usize, errors: &ErrorsHighlightInfo) -> (marks: Vec<bool>)
    ensures
        marks@.len() == marked_length(length as int, errors@, errors@.len() as int),
        forall|i: int| 0 <= i < marks@.len() ==> marks@[i] == is_marked(errors@, i),
{
    let mut size = length;
    let mut k: usize = 0;
    while k < errors.len()
        invariant
            k <= errors.len(),
            size == marked_length(length as int, errors@, k as int),
        decreases errors.len() - k,
    {
        if errors[k].0.end > size {
            size = errors[k].0.end;
        }
        k += 1;
    }
    let mut marks: Vec<bool> = Vec::new();
    while marks.len() < size
        invariant
            marks@.len() <= size,
            forall|i: int| 0 <= i < marks@.len() ==> !marks@[i],
        decreases size - marks@.len(),
    {
        marks.push(false);
    }
    let mut k: usize = 0;
    while k < errors.len()
        invariant
            k <= errors.len(),
            marks@.len() == size,
            size == marked_length(length as int, errors@, errors@.len() as int),
            forall|i: int| 0 <= i < size ==> marks@[i] == is_marked_by(errors@, k as int, i),
        decreases errors.len() - k,
    {
        let start = errors[k].0.start;
        let end = errors[k].0.end;
        proof {
            lemma_marked_length(length as int, errors@, errors@.len() as int);
        }
        let mut i = start;
        while i < end
            invariant
                k < errors.len(),
                start == errors@[k as int].0.start,
                end == errors@[k as int].0.end,
                end <= size,
                start <= i,
                i <= end || i == start,
                marks@.len() == size,
                forall|b: int|
                    0 <= b < size ==> marks@[b] == (is_marked_by(errors@, k as int, b) || (start
                        <= b < i)),
            decreases end - i,
        {
            marks.set(i, true);
            i += 1;
        }
        proof {
            assert forall|b: int| 0 <= b < size implies marks@[b] == is_marked_by(
                errors@,
                k + 1,
                b,
            ) by {
                let inside = start <= b < end;
                assert(inside == (start <= b < i));
                if is_marked_by(errors@, k + 1, b) {
                    let j = choose|j: int|
                        0 <= j < k + 1 && (#[trigger] errors@[j]).0.start <= b < errors@[j].0.end;
                    if j < k {
                        assert(is_marked_by(errors@, k as int, b));
                    } else {
                        assert(inside);
                    }
                }
                if is_marked_by(errors@, k as int, b) {
                    let j = choose|j: int|
                        0 <= j < k && (#[trigger] errors@[j]).0.start <= b < errors@[j].0.end;
                    assert(0 <= j < k + 1);
                }
                if inside {
                    assert(errors@[k as int].0.start <= b < errors@[k as int].0.end);
                }
            }
        }
        k += 1;
    }
    marks
}

} // verus!
