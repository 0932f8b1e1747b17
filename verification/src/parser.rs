//! From a poem to its instructions: one instruction for every line.

use vstd::prelude::*;

use crate::lexicon::{Lexicon, CAPITALIZED, INTERNAL_CAPITAL, SIMILE};
use crate::outside::{lowercase, pattern_matches};
use crate::syllables::{
    alliterates, check_end_rhyme, count_syllables, counted, end_rhyme, has_alliteration,
};
use crate::text::{
    blank, count, has_char, is_blank, is_space, is_space_char, lemma_split_len, lines, split,
    split_lines, to_chars, to_text, trim_end, trimmed_end, views, words,
};

verus! {

/// What an instruction does.
#[derive(Debug, PartialEq, Clone, Copy)]
pub enum InsType {
    /// Pushes one of two syllable counts, chosen by comparing the registers.
    ConditionalPush { prev_syllables: usize, cur_syllables: usize },
    /// Jumps if the register is greater than a syllable count.
    ConditionalGoto(usize),
    /// Negates the register.
    Negate,
    /// Multiplies the register by the other one.
    Multiply,
    /// Adds the other register to the register.
    Add,
    /// Prints the register as a character.
    PrintChar,
    /// Prints the register as a number.
    PrintValue,
    /// Pops the stack into the register.
    Pop,
    /// Pushes the register onto the stack.
    Push,
    /// Jumps to the instruction that the register names.
    Goto,
    /// Stores a syllable count in the register.
    Store(usize),
    /// Does nothing.
    Noop,
}

/// One of the two registers.
#[derive(Debug, PartialEq, Clone, Copy)]
pub enum Register {
    Register0,
    Register1,
}

/// A line of a poem as the machine reads it.
#[derive(Debug, PartialEq, Clone)]
pub struct Instruction {
    /// What the line does.
    pub instruction: InsType,
    /// The register that it does it to.
    pub register: Register,
    /// The line itself, without the white space at its end.
    pub line: String,
}

/// The register of a line: the second one if the line begins with white
/// space, else the first.
pub open spec fn register_of(line: Seq<char>) -> Register {
    if line.len() > 0 && is_space(line[0]) {
        Register::Register1
    } else {
        Register::Register0
    }
}

/// What a line does, given the line before it. The first rule that applies
/// decides.
pub open spec fn kind_of(lexicon: &Lexicon, before: Option<Seq<char>>, line: Seq<char>) -> InsType {
    if is_blank(line) {
        InsType::Noop
    } else if end_rhyme(lexicon, before, line) {
        InsType::ConditionalPush {
            prev_syllables: counted(lexicon, before->Some_0),
            cur_syllables: counted(lexicon, line),
        }
    } else if line.contains('/') {
        InsType::ConditionalGoto(counted(lexicon, line))
    } else if pattern_matches(INTERNAL_CAPITAL@, line) {
        InsType::Negate
    } else if pattern_matches(CAPITALIZED@, line) {
        InsType::Multiply
    } else if pattern_matches(SIMILE@, line) {
        InsType::Add
    } else if line.contains('?') {
        InsType::PrintChar
    } else if line.contains('.') {
        InsType::PrintValue
    } else if line.contains(',') {
        InsType::Pop
    } else if line.contains('-') {
        InsType::Push
    } else if alliterates(words(lowercase(line))) {
        InsType::Goto
    } else {
        InsType::Store(counted(lexicon, line))
    }
}

impl Instruction {
    /// Whether this is the instruction of a line that follows another, or of
    /// a first line.
    pub open spec fn reads(self, lexicon: &Lexicon, before: Option<Seq<char>>, line: Seq<char>) -> bool {
        &&& self.instruction == kind_of(lexicon, before, line)
        &&& self.register == register_of(line)
        &&& self.line@ == trim_end(line)
    }
}

/// The line before the one at a place in a list, if there is one.
pub open spec fn line_before(list: Seq<Seq<char>>, i: int) -> Option<Seq<char>> {
    if i > 0 {
        Some(list[i - 1])
    } else {
        None
    }
}

/// Whether a list of instructions is what a poem reads as: one instruction
/// for each of its lines, in order.
pub open spec fn is_parse_of(list: Seq<Instruction>, lexicon: &Lexicon, source: Seq<char>) -> bool {
    &&& list.len() == lines(source).len()
    &&& forall|i: int|
        0 <= i < list.len() ==> (#[trigger] list[i]).reads(
            lexicon,
            line_before(lines(source), i),
            lines(source)[i],
        )
}

/// Reads one line as an instruction, given the line before it.
pub fn classify(lexicon: &Lexicon, last_line: Option<&str>, line: &str) -> (ins: Instruction)
    ensures
        ins.reads(
            lexicon,
            match last_line {
                Some(l) => Some(l@),
                None => None,
            },
            line@,
        ),
{
    let chars = to_chars(line);
    let instruction = if blank(&chars) {
        InsType::Noop
    } else if check_end_rhyme(lexicon, last_line, line) {
        InsType::ConditionalPush {
            prev_syllables: count_syllables(lexicon, last_line.unwrap()),
            cur_syllables: count_syllables(lexicon, line),
        }
    } else if has_char(&chars, '/') {
        InsType::ConditionalGoto(count_syllables(lexicon, line))
    } else if lexicon.has_internal_capital(line) {
        InsType::Negate
    } else if lexicon.has_capitalized_word(line) {
        InsType::Multiply
    } else if lexicon.has_simile(line) {
        InsType::Add
    } else if has_char(&chars, '?') {
        InsType::PrintChar
    } else if has_char(&chars, '.') {
        InsType::PrintValue
    } else if has_char(&chars, ',') {
        InsType::Pop
    } else if has_char(&chars, '-') {
        InsType::Push
    } else if has_alliteration(line) {
        InsType::Goto
    } else {
        InsType::Store(count_syllables(lexicon, line))
    };
    let register = if chars.len() > 0 && is_space_char(chars[0]) {
        Register::Register1
    } else {
        Register::Register0
    };
    Instruction { instruction, register, line: to_text(&trimmed_end(&chars)) }
}

/// Reads a poem: one instruction for each of its lines, in order, blank
/// lines among them, and the empty line behind a final line feed too.
pub fn parse(lexicon: &Lexicon, input: &str) -> (list: Vec<Instruction>)
    ensures
        is_parse_of(list@, lexicon, input@),
        list.len() == lines(input@).len(),
{
    let source = split_lines(&to_chars(input));
    let mut list: Vec<Instruction> = Vec::new();
    let mut last_line: Option<String> = None;
    let mut i: usize = 0;
    while i < source.len()
        invariant
            i <= source.len(),
            views(source@) == lines(input@),
            list.len() == i,
            match last_line {
                Some(l) => i > 0 && l@ == lines(input@)[i - 1],
                None => i == 0,
            },
            forall|j: int|
                0 <= j < i ==> (#[trigger] list[j]).reads(
                    lexicon,
                    line_before(lines(input@), j),
                    lines(input@)[j],
                ),
        decreases source.len() - i,
    {
        let line = to_text(&source[i]);
        assert(line@ == views(source@)[i as int]);
        let ins = match &last_line {
            Some(l) => classify(lexicon, Some(l.as_str()), line.as_str()),
            None => classify(lexicon, None, line.as_str()),
        };
        list.push(ins);
        last_line = Some(line);
        i += 1;
    }
    list
}

/// The register of an instruction goes by the first character of its line
/// and by nothing else: two lines that both begin with white space, or both
/// do not, have the same register, whatever the lexicon and whatever comes
/// before or after.
pub proof fn lemma_register_by_first_character(
    lexicon: &Lexicon,
    one: Instruction,
    before_one: Option<Seq<char>>,
    line_one: Seq<char>,
    two: Instruction,
    before_two: Option<Seq<char>>,
    line_two: Seq<char>,
)
    requires
        one.reads(lexicon, before_one, line_one),
        two.reads(lexicon, before_two, line_two),
        line_one.len() > 0,
        line_two.len() > 0,
        is_space(line_one[0]) == is_space(line_two[0]),
    ensures
        one.register == two.register,
        one.register == if is_space(line_one[0]) {
            Register::Register1
        } else {
            Register::Register0
        },
{
}

/// A blank line does nothing, whatever comes before it.
pub proof fn lemma_blank_line_does_nothing(
    lexicon: &Lexicon,
    ins: Instruction,
    before: Option<Seq<char>>,
    line: Seq<char>,
)
    requires
        ins.reads(lexicon, before, line),
        is_blank(line),
    ensures
        ins.instruction == InsType::Noop,
{
}

/// A text that is not empty has one line more than it has line feeds; the
/// empty text has none.
pub proof fn lemma_line_count(s: Seq<char>)
    ensures
        lines(s).len() == if s.len() == 0 {
            0nat
        } else {
            count(s, '\n') + 1
        },
{
    lemma_split_len(s, '\n');
}

/// A poem reads as one instruction for each of its lines: one more than it
/// has line feeds, so that a poem that ends in a line feed ends in an
/// instruction for the empty line behind it. Only the empty poem reads as no
/// instruction at all.
pub proof fn lemma_one_instruction_per_line(
    list: Seq<Instruction>,
    lexicon: &Lexicon,
    source: Seq<char>,
)
    requires
        is_parse_of(list, lexicon, source),
    ensures
        list.len() == if source.len() == 0 {
            0nat
        } else {
            count(source, '\n') + 1
        },
        source.len() > 0 ==> list.len() == split(source, '\n').len(),
{
    lemma_line_count(source);
}

} // verus!
