use ashpaper::lexicon::Lexicon;
use ashpaper::parser::{InsType, Instruction, Register};
use ashpaper::program::{execute, Memory, Program};

const DICTIONARY: &str = "\
a AH0\n\
a(2) EY1\n\
alike AH0 L AY1 K\n\
alliteration AH0 L IH1 T ER0 EY2 SH AH0 N\n\
als AE1 L Z\n\
an AE1 N\n\
an(2) AH0 N\n\
and AH0 N D\n\
and(2) AE1 N D\n\
antidisestablishmentarianism AE2 N T AY0 D IH2 S AH0 S T AE2 B L IH0 SH M AH0 N T EH1 R IY0 AH0 N IH2 Z AH0 M\n\
anything EH1 N IY0 TH IH2 NG\n\
apple AE1 P AH0 L\n\
are AA1 R\n\
are(2) ER0\n\
as AE1 Z\n\
as(2) EH1 Z\n\
back B AE1 K\n\
bat B AE1 T\n\
be B IY1\n\
be(2) B IY0\n\
birds B ER1 D Z\n\
blue B L UW1\n\
bureaucratic B Y UH2 R AH0 K R AE1 T IH0 K\n\
calculator K AE1 L K Y AH0 L EY2 T ER0\n\
can K AE1 N\n\
can(2) K AH0 N\n\
cat K AE1 T\n\
count K AW1 N T\n\
counts K AW1 N T S\n\
directory D ER0 EH1 K T ER0 IY0\n\
directory(2) D AY0 R EH1 K T ER0 IY0\n\
directory(3) D IY0 R EH1 K T ER0 IY0\n\
directory(4) D IH0 R EH1 K T ER0 IY0\n\
do D UW1\n\
door D AO1 R\n\
elf EH1 L F\n\
every EH1 V ER0 IY0\n\
every(2) EH1 V R IY0\n\
execution EH2 K S AH0 K Y UW1 SH AH0 N\n\
far F AA1 R\n\
finds F AY1 N D Z\n\
fish F IH1 SH\n\
food F UW1 D\n\
gonna G AA1 N AH0\n\
hat HH AE1 T\n\
he HH IY1\n\
hello HH AH0 L OW1\n\
hello(2) HH EH0 L OW1\n\
here HH IY1 R\n\
hinge HH IH1 N JH\n\
how HH AW1\n\
in IH0 N\n\
in(2) IH1 N\n\
input IH1 N P UH2 T\n\
is IH1 Z\n\
is(2) IH0 Z\n\
it IH1 T\n\
it(2) IH0 T\n\
like L AY1 K\n\
lovely L AH1 V L IY0\n\
me M IY1\n\
new N UW1\n\
new(2) N Y UW1\n\
no N OW1\n\
nothing N AH1 TH IH0 NG\n\
oceania OW2 SH IY2 AE1 N Y AH0\n\
of AH1 V\n\
on AA1 N\n\
on(2) AO1 N\n\
once W AH1 N S\n\
one W AH1 N\n\
or AO1 R\n\
or(2) ER0\n\
orange AO1 R AH0 N JH\n\
orange(2) AO1 R IH0 N JH\n\
other AH1 DH ER0\n\
poem P OW1 AH0 M\n\
programs P R OW1 G R AE2 M Z\n\
register R EH1 JH IH0 S T ER0\n\
rhyme R AY1 M\n\
roll R OW1 L\n\
rust R AH1 S T\n\
sat S AE1 T\n\
sea S IY1\n\
sell S EH1 L\n\
sells S EH1 L Z\n\
she SH IY1\n\
shelf SH EH1 L F\n\
shells SH EH1 L Z\n\
some S AH1 M\n\
somebody S AH1 M B AA2 D IY0\n\
somebody(2) S AH1 M B AH0 D IY2\n\
stabbed S T AE1 B D\n\
syllables S IH1 L AH0 B AH0 L Z\n\
test T EH1 S T\n\
the DH AH0\n\
the(2) DH AH1\n\
the(3) DH IY0\n\
then DH EH1 N\n\
this DH IH1 S\n\
this(2) DH IH0 S\n\
thrust TH R AH1 S T\n\
time T AY1 M\n\
told T OW1 L D\n\
took T UH1 K\n\
trout T R AW1 T\n\
turing T UH1 R IH0 NG\n\
was W AA1 Z\n\
was(2) W AH0 Z\n\
what W AH1 T\n\
what(2) HH W AH1 T\n\
with W IH1 DH\n\
with(2) W IH1 TH\n\
with(3) W IH0 TH\n\
with(4) W IH0 DH\n\
works W ER1 K S\n\
world W ER1 L D\n\
would W UH1 D\n\
writ R IH1 T\n\
you Y UW1\n\
zero Z IH1 R OW0\n\
zero(2) Z IY1 R OW0\n";

fn lexicon() -> Lexicon {
    Lexicon::new(DICTIONARY).unwrap()
}

fn program(code: Vec<(InsType, Register)>) -> Program {
    Program {
        ast: code
            .into_iter()
            .map(|(instruction, register)| Instruction {
                instruction,
                register,
                line: String::new(),
            })
            .collect(),
    }
}

const R0: Register = Register::Register0;
const R1: Register = Register::Register1;

#[test]
fn program_mem_get_inactive() {
    let mut mem = Memory::new();
    let r0 = 10;
    let r1 = 11;
    mem.store_syllables(Register::Register0, r0);
    mem.store_syllables(Register::Register1, r1);

    assert_eq!(mem.get_inactive(Register::Register0), r1);
    assert_eq!(mem.get_inactive(Register::Register1), r0);
}

#[test]
fn program_mem_push() {
    let mut mem = Memory::new();
    let reg = Register::Register0;
    mem.store_syllables(reg, 1);
    mem.push(reg);
    assert_eq!(mem.stack, vec![1]);
    let reg = Register::Register1;
    mem.store_syllables(reg, 2);
    mem.push(reg);
    assert_eq!(mem.stack, vec![1, 2]);
}

#[test]
fn alliteration() {
    let alliteration_program = r#"
poem or calculator or nothing
    somebody once
    fish fosh
word.

"#
    .trim_start();

    let program = Program::create(&lexicon(), alliteration_program);
    let result = program.execute();
    assert_eq!(result, "");
}

#[test]
fn rhyming() {
    let rhyming_program = r#"
somebody once told me 
    he took a new elf 
and stabbed it with a shelf
pop,
print.
then he took blue
and stabbed it with some you 
pop,
print.
"#;

    let program = Program::create(&lexicon(), rhyming_program);
    let result = program.execute();
    assert_eq!(result, "64");
}

#[test]
fn program_factorial() {
    let factorial_program = r#"

  it is a calculator, like a
      poem, is a poem, and finds
        factori-
          als
  The input is the syllAbles
in the title, count them, as one counts
  (q) what other poem, programs can be writ
  (a) anything a Turing
    machine-machine-machine
    would do
re/cur
    sion works too, in poems, programs, and this
       a lovely.
poem or calculator or nothing
how lovely can it be?
"#;
    let lexicon = lexicon();
    let four_factorial = format!("lovely poem\n{}", factorial_program);
    println!("{}", four_factorial);
    let four_factorial_res = "24\n".to_string();
    let program = Program::create(&lexicon, &four_factorial);
    assert_eq!(program.execute(), four_factorial_res);
    assert_eq!(execute(&lexicon, &four_factorial), Ok(four_factorial_res));

    let five_factorial = format!("lovely poem and\n{}", factorial_program);
    let program = Program::create(&lexicon, &five_factorial);
    let five_factorial_res = "120\n".to_string();
    assert_eq!(program.execute(), five_factorial_res);
    assert_eq!(execute(&lexicon, &five_factorial), Ok(five_factorial_res));
}

#[test]
fn an_empty_program_prints_nothing() {
    assert_eq!(Program::create(&lexicon(), "").execute(), "");
    assert_eq!(program(vec![]).execute(), "");
    assert_eq!(execute(&lexicon(), ""), Ok(String::new()));
}

#[test]
fn memory_starts_at_zero() {
    let mem = Memory::new();
    assert_eq!(mem.register0, 0);
    assert_eq!(mem.register1, 0);
    assert!(mem.stack.is_empty());
}

#[test]
fn memory_pops_into_a_register_or_not_at_all() {
    let mut mem = Memory::new();
    mem.store_syllables(R0, 7);
    mem.pop(R0);
    assert_eq!(mem.register0, 7);
    mem.push_to_stack(3);
    mem.push_to_stack(4);
    mem.pop(R1);
    assert_eq!(mem.register1, 4);
    assert_eq!(mem.register0, 7);
    assert_eq!(mem.stack, vec![3]);
}

#[test]
fn memory_arithmetic_wraps() {
    let mut mem = Memory::new();
    mem.store_syllables(R0, i64::MAX);
    mem.store_syllables(R1, 2);
    mem.add(R0);
    assert_eq!(mem.register0, i64::MIN + 1);
    assert_eq!(mem.register1, 2);
    mem.multiply(R1);
    assert_eq!(mem.register1, 2);
    mem.store_syllables(R0, i64::MAX);
    mem.multiply(R0);
    assert_eq!(mem.register0, -2);
    mem.store_syllables(R0, i64::MIN);
    mem.negate(R0);
    assert_eq!(mem.register0, i64::MIN);
    mem.store_syllables(R1, 5);
    mem.negate(R1);
    assert_eq!(mem.get_active(R1), -5);
}

#[test]
fn values_print_in_decimal() {
    let p = program(vec![
        (InsType::PrintValue, R0),
        (InsType::Store(1207), R1),
        (InsType::PrintValue, R1),
        (InsType::Negate, R1),
        (InsType::PrintValue, R1),
    ]);
    assert_eq!(p.execute(), "01207-1207");
}

#[test]
fn the_least_number_prints_in_full() {
    let p = program(vec![
        (InsType::Store(1), R0),
        (InsType::Store(i64::MAX as usize), R1),
        (InsType::Add, R1),
        (InsType::PrintValue, R1),
    ]);
    assert_eq!(p.execute(), "-9223372036854775808");
}

#[test]
fn characters_print_modulo_255() {
    let p = program(vec![
        (InsType::Store(65), R0),
        (InsType::PrintChar, R0),
        (InsType::Negate, R0),
        (InsType::PrintChar, R0),
        (InsType::Store(255 + 66), R0),
        (InsType::PrintChar, R0),
        (InsType::Store(233), R0),
        (InsType::PrintChar, R0),
    ]);
    assert_eq!(p.execute(), "AAB\u{e9}");
}

#[test]
fn goto_takes_the_magnitude_modulo_the_length() {
    // r0 = 5, and 5 mod 4 is 1: the store is skipped for ever after
    let p = program(vec![
        (InsType::Store(5), R0),
        (InsType::PrintValue, R0),
        (InsType::Negate, R0),
        (InsType::Goto, R0),
    ]);
    let (out, halted) = p.run(10);
    assert!(!halted);
    assert_eq!(out, "5-55");
}

#[test]
fn conditional_goto_jumps_by_the_other_register() {
    let p = program(vec![
        (InsType::Store(3), R1),
        (InsType::Store(2), R0),
        (InsType::ConditionalGoto(2), R0),
        (InsType::PrintValue, R0),
        (InsType::ConditionalGoto(1), R0),
        (InsType::PrintValue, R1),
        (InsType::PrintValue, R0),
    ]);
    // the first does not jump: 2 is not more than 2; the second jumps to 3 mod 7
    let (out, halted) = p.run(9);
    assert!(!halted);
    assert_eq!(out, "222");
}

#[test]
fn conditional_push_compares_the_instructions_own_register() {
    let push_and_print = |register| {
        program(vec![
            (InsType::Store(1), R0),
            (InsType::Store(2), R1),
            (
                InsType::ConditionalPush {
                    prev_syllables: 10,
                    cur_syllables: 20,
                },
                register,
            ),
            (InsType::Pop, R0),
            (InsType::PrintValue, R0),
        ])
        .execute()
    };
    assert_eq!(push_and_print(R0), "10");
    assert_eq!(push_and_print(R1), "20");
}

#[test]
fn run_stops_at_the_limit() {
    let p = program(vec![(InsType::PrintValue, R0), (InsType::Goto, R0)]);
    assert_eq!(p.run(0), (String::new(), false));
    assert_eq!(p.run(5), ("000".to_string(), false));
    let q = program(vec![(InsType::PrintValue, R0)]);
    assert_eq!(q.run(0), (String::new(), false));
    assert_eq!(q.run(1), ("0".to_string(), true));
    assert_eq!(q.run(100), ("0".to_string(), true));
}

#[test]
fn step_says_where_to_go_on() {
    let p = program(vec![(InsType::Store(9), R1), (InsType::Goto, R1), (InsType::Noop, R0)]);
    let mut mem = Memory::new();
    let mut out = String::new();
    assert_eq!(p.step(&mut mem, 0, &mut out), 1);
    assert_eq!(mem.register1, 9);
    assert_eq!(p.step(&mut mem, 1, &mut out), 0);
    assert_eq!(p.step(&mut mem, 2, &mut out), 3);
    assert_eq!(out, "");
}

#[test]
fn the_line_behind_a_final_line_feed_counts_for_a_jump() {
    // five lines, the last of them empty: 6 modulo 5 is 1, the jump itself
    let source = "somebody once told me\nsells sea shells\nprint.\nword.\n";
    let program = Program::create(&lexicon(), source);
    assert_eq!(program.ast.len(), 5);
    assert_eq!(program.ast[0].instruction, InsType::Store(6));
    assert_eq!(program.ast[1].instruction, InsType::Goto);
    assert_eq!(program.run(50), (String::new(), false));
    // without the line feed there are four lines, and 6 modulo 4 is 2
    let program = Program::create(&lexicon(), source.trim_end());
    assert_eq!(program.ast.len(), 4);
    assert_eq!(program.execute(), "66");
}
