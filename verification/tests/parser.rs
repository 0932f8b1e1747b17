use ashpaper::lexicon::{Lexicon, CAPITALIZED, INTERNAL_CAPITAL, SIMILE};
use std::str::FromStr;
use ashpaper::parser::{classify, parse, InsType, Instruction, Register};
use ashpaper::syllables::{approximate_syllables, check_end_rhyme, count_syllables, count_word_syllables};

const DICTIONARY: &str = "\
a AH0\n\
a(2) EY1\n\
alike AH0 L AY1 K\n\
alliteration AH0 L IH1 T ER0 EY2 SH AH0 N\n\
als AE1 L Z\n\
an AE1 N\n\
an(2) AH0 N\n\
and AH0 N D\n\
and(2) AE1 N D\n\
antidisestablishmentarianism AE2 N T AY0 D IH2 S AH0 S T AE2 B L IH0 SH M AH0 N T EH1 R IY0 AH0 N IH2 Z AH0 M\n\
anything EH1 N IY0 TH IH2 NG\n\
apple AE1 P AH0 L\n\
are AA1 R\n\
are(2) ER0\n\
as AE1 Z\n\
as(2) EH1 Z\n\
back B AE1 K\n\
bat B AE1 T\n\
be B IY1\n\
be(2) B IY0\n\
birds B ER1 D Z\n\
blue B L UW1\n\
bureaucratic B Y UH2 R AH0 K R AE1 T IH0 K\n\
calculator K AE1 L K Y AH0 L EY2 T ER0\n\
can K AE1 N\n\
can(2) K AH0 N\n\
cat K AE1 T\n\
count K AW1 N T\n\
counts K AW1 N T S\n\
directory D ER0 EH1 K T ER0 IY0\n\
directory(2) D AY0 R EH1 K T ER0 IY0\n\
directory(3) D IY0 R EH1 K T ER0 IY0\n\
directory(4) D IH0 R EH1 K T ER0 IY0\n\
do D UW1\n\
door D AO1 R\n\
elf EH1 L F\n\
every EH1 V ER0 IY0\n\
every(2) EH1 V R IY0\n\
execution EH2 K S AH0 K Y UW1 SH AH0 N\n\
far F AA1 R\n\
finds F AY1 N D Z\n\
fish F IH1 SH\n\
food F UW1 D\n\
gonna G AA1 N AH0\n\
hat HH AE1 T\n\
he HH IY1\n\
hello HH AH0 L OW1\n\
hello(2) HH EH0 L OW1\n\
here HH IY1 R\n\
hinge HH IH1 N JH\n\
how HH AW1\n\
in IH0 N\n\
in(2) IH1 N\n\
input IH1 N P UH2 T\n\
is IH1 Z\n\
is(2) IH0 Z\n\
it IH1 T\n\
it(2) IH0 T\n\
like L AY1 K\n\
lovely L AH1 V L IY0\n\
me M IY1\n\
new N UW1\n\
new(2) N Y UW1\n\
no N OW1\n\
nothing N AH1 TH IH0 NG\n\
oceania OW2 SH IY2 AE1 N Y AH0\n\
of AH1 V\n\
on AA1 N\n\
on(2) AO1 N\n\
once W AH1 N S\n\
one W AH1 N\n\
or AO1 R\n\
or(2) ER0\n\
orange AO1 R AH0 N JH\n\
orange(2) AO1 R IH0 N JH\n\
other AH1 DH ER0\n\
poem P OW1 AH0 M\n\
programs P R OW1 G R AE2 M Z\n\
register R EH1 JH IH0 S T ER0\n\
rhyme R AY1 M\n\
roll R OW1 L\n\
rust R AH1 S T\n\
sat S AE1 T\n\
sea S IY1\n\
sell S EH1 L\n\
sells S EH1 L Z\n\
she SH IY1\n\
shelf SH EH1 L F\n\
shells SH EH1 L Z\n\
some S AH1 M\n\
somebody S AH1 M B AA2 D IY0\n\
somebody(2) S AH1 M B AH0 D IY2\n\
stabbed S T AE1 B D\n\
syllables S IH1 L AH0 B AH0 L Z\n\
test T EH1 S T\n\
the DH AH0\n\
the(2) DH AH1\n\
the(3) DH IY0\n\
then DH EH1 N\n\
this DH IH1 S\n\
this(2) DH IH0 S\n\
thrust TH R AH1 S T\n\
time T AY1 M\n\
told T OW1 L D\n\
took T UH1 K\n\
trout T R AW1 T\n\
turing T UH1 R IH0 NG\n\
was W AA1 Z\n\
was(2) W AH0 Z\n\
what W AH1 T\n\
what(2) HH W AH1 T\n\
with W IH1 DH\n\
with(2) W IH1 TH\n\
with(3) W IH0 TH\n\
with(4) W IH0 DH\n\
works W ER1 K S\n\
world W ER1 L D\n\
would W UH1 D\n\
writ R IH1 T\n\
you Y UW1\n\
zero Z IH1 R OW0\n\
zero(2) Z IY1 R OW0\n";

fn lexicon() -> Lexicon {
    Lexicon::new(DICTIONARY).unwrap()
}

#[test]
fn has_alliteration() {
    assert!(ashpaper::syllables::has_alliteration("she sells sea shells"));
    assert!(!ashpaper::syllables::has_alliteration("no alliteration here"));
    assert!(!ashpaper::syllables::has_alliteration("one"));
    assert!(!ashpaper::syllables::has_alliteration(""));
}

#[test]
fn syllable_counting() {
    let lexicon = lexicon();
    let exact = count_syllables(&lexicon, "antidisestablishmentarianism");
    assert_eq!(exact, 12);
    let approx = count_syllables(&lexicon, "supercalifragilisticexpialidocious");
    assert_eq!(approx, 15);
    let misc = count_syllables(&lexicon, "a lovely poem");
    assert_eq!(misc, 5);
}

#[test]
fn cond_push() {
    let source = r#"
he thrust every elf
    far back on the shelf
"#
    .trim();

    let tokens = parse(&lexicon(), source);
    let mut split = source.trim().split('\n');
    let parsed = vec![
        Instruction {
            instruction: InsType::Goto,
            register: Register::Register0,
            line: split.next().unwrap().to_string(),
        },
        Instruction {
            instruction: InsType::ConditionalPush {
                prev_syllables: 6,
                cur_syllables: 5,
            },
            register: Register::Register1,
            line: split.next().unwrap().to_string(),
        },
    ];
    assert_eq!(tokens, parsed);
}

#[test]
fn negate() {
    let source = "tEst";

    let tokens = parse(&lexicon(), source);
    let target = vec![Instruction {
        instruction: InsType::Negate,
        register: Register::Register0,
        line: source.to_string(),
    }];
    assert_eq!(tokens, target);
}

#[test]
fn multiply() {
    let source = "  Test";
    let tokens = parse(&lexicon(), source);
    let target = vec![Instruction {
        instruction: InsType::Multiply,
        register: Register::Register1,
        line: source.to_string(),
    }];
    assert_eq!(tokens, target);
}

#[test]
fn add() {
    let source = r#"
fish are like trout
    birds as food
"#
    .trim();

    let mut lines = source.lines();
    let tokens = parse(&lexicon(), source);
    let target = vec![
        Instruction {
            instruction: InsType::Add,
            register: Register::Register0,
            line: lines.next().unwrap().to_string(),
        },
        Instruction {
            instruction: InsType::Add,
            register: Register::Register1,
            line: lines.next().unwrap().to_string(),
        },
    ];
    assert_eq!(tokens, target);
}

#[test]
fn print_char() {
    let source = r#"
oceania directory execution bureaucratic oceania a
printing?
        "#
    .trim();

    let mut lines = source.lines();
    let tokens = parse(&lexicon(), source);
    let target = vec![
        Instruction {
            instruction: InsType::Store(21),
            register: Register::Register0,
            line: lines.next().unwrap().to_string(),
        },
        Instruction {
            instruction: InsType::PrintChar,
            register: Register::Register0,
            line: lines.next().unwrap().to_string(),
        },
    ];
    assert_eq!(tokens, target)
}

#[test]
fn print_value() {
    let source = r#"
fish
print. it.
        "#
    .trim();

    let mut lines = source.lines();
    let tokens = parse(&lexicon(), source);
    let target = vec![
        Instruction {
            instruction: InsType::Store(1),
            register: Register::Register0,
            line: lines.next().unwrap().to_string(),
        },
        Instruction {
            instruction: InsType::PrintValue,
            register: Register::Register0,
            line: lines.next().unwrap().to_string(),
        },
    ];
    assert_eq!(tokens, target);
}

#[test]
fn pop() {
    let source = "test,";
    let tokens = parse(&lexicon(), source);
    let target = vec![Instruction {
        instruction: InsType::Pop,
        register: Register::Register0,
        line: source.to_string(),
    }];
    assert_eq!(tokens, target);
}

#[test]
fn push() {
    let source = "push-it";
    let tokens = parse(&lexicon(), source);
    let target = vec![Instruction {
        instruction: InsType::Push,
        register: Register::Register0,
        line: source.to_string(),
    }];
    assert_eq!(tokens, target);
}

#[test]
fn store() {
    let source = "somebody once";
    let tokens = parse(&lexicon(), source);
    let target = vec![Instruction {
        instruction: InsType::Store(4),
        register: Register::Register0,
        line: source.to_string(),
    }];
    assert_eq!(tokens, target);
}

#[test]
fn conditional_push() {
    let source = r#"
sombody once told me
the world was gonna roll me
        "#
    .trim();

    let mut lines = source.lines();
    let tokens = parse(&lexicon(), source);
    let target = vec![
        Instruction {
            instruction: InsType::Store(6),
            register: Register::Register0,
            line: lines.next().unwrap().to_string(),
        },
        Instruction {
            instruction: InsType::ConditionalPush {
                prev_syllables: 6,
                cur_syllables: 7,
            },
            register: Register::Register0,
            line: lines.next().unwrap().to_string(),
        },
    ];

    assert_eq!(tokens, target);
}

#[test]
fn goto() {
    let source = "sells sea shells";
    let tokens = parse(&lexicon(), source);
    let target = vec![Instruction {
        instruction: InsType::Goto,
        register: Register::Register0,
        line: source.to_string(),
    }];

    assert_eq!(tokens, target);
}

#[test]
fn noop() {
    let source = r#"
"#;
    let tokens = parse(&lexicon(), source);
    // a line feed separates two lines, both of them empty
    let target = vec![
        Instruction {
            instruction: InsType::Noop,
            register: Register::Register0,
            line: "".to_string(),
        },
        Instruction {
            instruction: InsType::Noop,
            register: Register::Register0,
            line: "".to_string(),
        },
    ];

    assert_eq!(tokens, target);
}

#[test]
fn registers() {
    let source = r#"
register zero
    register one
        "#
    .trim();
    let mut lines = source.lines();
    let tokens = parse(&lexicon(), source);
    let target = vec![
        Instruction {
            instruction: InsType::Store(5),
            register: Register::Register0,
            line: lines.next().unwrap().to_string(),
        },
        Instruction {
            instruction: InsType::Store(4),
            register: Register::Register1,
            line: lines.next().unwrap().to_string(),
        },
    ];

    assert_eq!(tokens, target);
}

#[test]
fn conditional_push_with_the_first_word_spelled_out() {
    let source = "somebody once told me\nthe world was gonna roll me";
    let tokens = parse(&lexicon(), source);
    let target = vec![
        Instruction {
            instruction: InsType::Store(6),
            register: Register::Register0,
            line: "somebody once told me".to_string(),
        },
        Instruction {
            instruction: InsType::ConditionalPush {
                prev_syllables: 6,
                cur_syllables: 7,
            },
            register: Register::Register0,
            line: "the world was gonna roll me".to_string(),
        },
    ];
    assert_eq!(tokens, target);
}

#[test]
fn one_instruction_for_every_line() {
    let lexicon = lexicon();
    assert_eq!(parse(&lexicon, "").len(), 0);
    assert_eq!(parse(&lexicon, "fish").len(), 1);
    assert_eq!(parse(&lexicon, "fish\n").len(), 2);
    assert_eq!(parse(&lexicon, "fish\n\n").len(), 3);
    assert_eq!(parse(&lexicon, "\n\nfish").len(), 3);
    assert_eq!(parse(&lexicon, "fish\r\nprint.\r\n").len(), 3);
    for source in ["fish", "fish\n", "\n", "a\nb\n\nc\n\n", "fish \n fosh"] {
        assert_eq!(parse(&lexicon, source).len(), source.split('\n').count());
    }
}

#[test]
fn a_final_line_feed_leaves_an_empty_line() {
    let tokens = parse(&lexicon(), "fish\n");
    assert_eq!(tokens.len(), 2);
    assert_eq!(tokens[0].instruction, InsType::Store(1));
    assert_eq!(tokens[1].instruction, InsType::Noop);
    assert_eq!(tokens[1].register, Register::Register0);
    assert_eq!(tokens[1].line, "");
}

#[test]
fn blank_lines_do_nothing() {
    let tokens = parse(&lexicon(), "fish\n \t \n\nfish");
    assert_eq!(tokens.len(), 4);
    assert_eq!(tokens[1].instruction, InsType::Noop);
    assert_eq!(tokens[1].register, Register::Register1);
    assert_eq!(tokens[1].line, "");
    assert_eq!(tokens[2].instruction, InsType::Noop);
    assert_eq!(tokens[2].register, Register::Register0);
}

#[test]
fn carriage_returns_are_not_part_of_a_line() {
    let tokens = parse(&lexicon(), "fish\r\nprint.\r\n");
    assert_eq!(tokens[0].line, "fish");
    assert_eq!(tokens[0].instruction, InsType::Store(1));
    assert_eq!(tokens[1].line, "print.");
    assert_eq!(tokens[1].instruction, InsType::PrintValue);
}

#[test]
fn the_register_goes_by_the_first_character() {
    let lexicon = lexicon();
    assert_eq!(classify(&lexicon, None, "fish").register, Register::Register0);
    assert_eq!(classify(&lexicon, None, " fish").register, Register::Register1);
    assert_eq!(classify(&lexicon, None, "\tfish").register, Register::Register1);
    assert_eq!(classify(&lexicon, None, "\u{a0}fish").register, Register::Register1);
    assert_eq!(classify(&lexicon, None, "fish ").register, Register::Register0);
    assert_eq!(classify(&lexicon, None, "").register, Register::Register0);
}

#[test]
fn the_line_is_kept_without_trailing_space() {
    let ins = classify(&lexicon(), None, "  fish \t ");
    assert_eq!(ins.line, "  fish");
}

#[test]
fn the_first_rule_that_applies_decides() {
    let lexicon = lexicon();
    // a slash comes before capitals
    assert_eq!(
        classify(&lexicon, None, "The re/cur").instruction,
        InsType::ConditionalGoto(count_syllables(&lexicon, "The re/cur"))
    );
    // an inner capital comes before a leading one
    assert_eq!(classify(&lexicon, None, "The syllAbles").instruction, InsType::Negate);
    // a capital comes before a simile
    assert_eq!(classify(&lexicon, None, "The fish as food").instruction, InsType::Multiply);
    // a simile comes before punctuation
    assert_eq!(classify(&lexicon, None, "fish as food?").instruction, InsType::Add);
    assert_eq!(classify(&lexicon, None, "what? this. that, push-").instruction, InsType::PrintChar);
    assert_eq!(classify(&lexicon, None, "this. that, push-").instruction, InsType::PrintValue);
    assert_eq!(classify(&lexicon, None, "that, push-").instruction, InsType::Pop);
    assert_eq!(classify(&lexicon, None, "sea-shells sell").instruction, InsType::Push);
    // rhyme comes before everything but a blank line
    assert_eq!(
        classify(&lexicon, Some("an elf"), "The shelf").instruction,
        InsType::ConditionalPush { prev_syllables: 2, cur_syllables: 2 }
    );
    assert_eq!(classify(&lexicon, Some("an elf"), "   ").instruction, InsType::Noop);
}

#[test]
fn a_simile_needs_a_whole_word() {
    let lexicon = lexicon();
    assert_eq!(classify(&lexicon, None, "fish alike").instruction, InsType::Store(3));
    assert_eq!(classify(&lexicon, None, "fish like").instruction, InsType::Add);
}

#[test]
fn rhyme_needs_both_words_in_the_dictionary() {
    let lexicon = lexicon();
    assert!(check_end_rhyme(&lexicon, Some("an elf"), "a shelf"));
    assert!(check_end_rhyme(&lexicon, Some("an ELF "), "a Shelf  "));
    assert!(!check_end_rhyme(&lexicon, Some("an elf"), "a fish"));
    assert!(!check_end_rhyme(&lexicon, None, "a shelf"));
    assert!(!check_end_rhyme(&lexicon, Some(""), "a shelf"));
    assert!(!check_end_rhyme(&lexicon, Some("an elf"), "  "));
    assert!(!check_end_rhyme(&lexicon, Some("fosh"), "fosh"));
    assert!(!check_end_rhyme(&lexicon, Some("an elf"), "a shelf."));
}

#[test]
fn alliteration_is_between_neighbours_only() {
    assert!(ashpaper::syllables::has_alliteration("Sea shells"));
    assert!(ashpaper::syllables::has_alliteration("fish  fosh"));
    assert!(!ashpaper::syllables::has_alliteration("sea of shells"));
    assert!(!ashpaper::syllables::has_alliteration("sea\tshells"));
}

#[test]
fn syllables_by_spelling() {
    assert_eq!(approximate_syllables(""), 0);
    assert_eq!(approximate_syllables("fsh"), 0);
    assert_eq!(approximate_syllables("fosh"), 1);
    assert_eq!(approximate_syllables("ou"), 1);
    assert_eq!(approximate_syllables("uo"), 2);
    assert_eq!(approximate_syllables("eau"), 2);
    assert_eq!(approximate_syllables("queueing"), 2);
    assert_eq!(approximate_syllables("oboe"), 2);
    assert_eq!(approximate_syllables("poem"), 1);
    assert_eq!(approximate_syllables("supercalifragilisticexpialidocious"), 15);
    assert_eq!(approximate_syllables("FOSH"), 0);
}

#[test]
fn syllables_of_a_word_go_by_the_dictionary_first() {
    let lexicon = lexicon();
    // the dictionary has two pronunciations of "every": the longer counts
    assert_eq!(count_word_syllables(&lexicon, "every"), 3);
    assert_eq!(approximate_syllables("every"), 3);
    assert_eq!(count_word_syllables(&lexicon, "once"), 1);
    assert_eq!(approximate_syllables("once"), 2);
    assert_eq!(count_word_syllables(&lexicon, "fosh"), 1);
}

#[test]
fn syllables_do_not_depend_on_case() {
    let lexicon = lexicon();
    assert_eq!(count_syllables(&lexicon, "A Lovely POEM"), 5);
    assert_eq!(
        count_syllables(&lexicon, "Somebody ONCE told me, Fosh"),
        count_syllables(&lexicon, "somebody once told me, fosh")
    );
    assert_eq!(count_word_syllables(&lexicon, "FOSH"), 1);
}

#[test]
fn only_spaces_separate_words() {
    let lexicon = lexicon();
    assert_eq!(count_syllables(&lexicon, ""), 0);
    assert_eq!(count_syllables(&lexicon, "   "), 0);
    assert_eq!(count_syllables(&lexicon, "  fish   fish "), 2);
    // with a tab between them the two are one word, which the dictionary lacks
    assert_eq!(count_syllables(&lexicon, "once\tonce"), 4);
}

#[test]
fn a_dictionary_that_cannot_be_read_is_a_parse_error() {
    match Lexicon::new("fish F IH1 XX") {
        Err(ashpaper::Error::ParseError(_)) => {}
        _ => panic!("expected a parse error"),
    }
    assert!(Lexicon::new("").is_ok());
}

fn words() -> Result<cmudict_fast::Cmudict, String> {
    cmudict_fast::Cmudict::from_str("fish F IH1 SH").map_err(|e| e.to_string())
}

fn pattern(p: &str) -> Result<regex::Regex, String> {
    regex::Regex::new(p).map_err(|e| e.to_string())
}

fn no_pattern(message: &str) -> Result<regex::Regex, String> {
    Err(message.to_string())
}

#[test]
fn the_first_part_that_failed_decides_the_error() {
    assert!(Lexicon::from_parts(
        words(),
        pattern(INTERNAL_CAPITAL),
        pattern(CAPITALIZED),
        pattern(SIMILE)
    )
    .is_ok());
    match Lexicon::from_parts(
        Err("no words".to_string()),
        no_pattern("one"),
        pattern(CAPITALIZED),
        no_pattern("three"),
    ) {
        Err(ashpaper::Error::ParseError(message)) => assert_eq!(message, "no words"),
        _ => panic!("expected a parse error"),
    }
    match Lexicon::from_parts(
        words(),
        pattern(INTERNAL_CAPITAL),
        no_pattern("two"),
        no_pattern("three"),
    ) {
        Err(ashpaper::Error::ProgramError(message)) => assert_eq!(message, "two"),
        _ => panic!("expected a program error"),
    }
    match Lexicon::from_parts(words(), no_pattern("one"), no_pattern("two"), pattern(SIMILE)) {
        Err(ashpaper::Error::ProgramError(message)) => assert_eq!(message, "one"),
        _ => panic!("expected a program error"),
    }
    match Lexicon::from_parts(
        words(),
        pattern(INTERNAL_CAPITAL),
        pattern(CAPITALIZED),
        no_pattern("three"),
    ) {
        Err(ashpaper::Error::ProgramError(message)) => assert_eq!(message, "three"),
        _ => panic!("expected a program error"),
    }
}

#[test]
fn the_lexicon_looks_words_up_as_they_are_written() {
    let lexicon = lexicon();
    assert_eq!(lexicon.pronunciations("every").map(|rules| rules.len()), Some(2));
    assert!(lexicon.pronunciations("Every").is_none());
    assert!(lexicon.pronunciations("fosh").is_none());
    assert!(lexicon.has_internal_capital("the syllAbles"));
    assert!(!lexicon.has_internal_capital("The syllables"));
    assert!(lexicon.has_capitalized_word("The syllables"));
    assert!(!lexicon.has_capitalized_word("the syllables"));
    assert!(lexicon.has_simile("quiet as fish"));
    assert!(!lexicon.has_simile("ash"));
}
