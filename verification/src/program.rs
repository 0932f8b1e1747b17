//! The machine: two registers, a stack, and the loop that runs a poem.

use vstd::prelude::*;

use crate::error::Error;
use crate::lexicon::Lexicon;
use crate::number::{abs_value, decimal, magnitude, push_decimal};
use crate::parser::{
    is_parse_of, kind_of, line_before, parse, register_of, InsType, Instruction, Register,
};
use crate::text::lines;

verus! {

/// The registers and the stack.
#[derive(Debug, Clone)]
pub struct Memory {
    pub register0: i64,
    pub register1: i64,
    pub stack: Vec<i64>,
}

impl Memory {
    /// A memory with both registers at zero and nothing on the stack.
    pub fn new() -> (mem: Memory)
        ensures
            mem.register0 == 0,
            mem.register1 == 0,
            mem.stack@ == Seq::<i64>::empty(),
    {
        Memory { register0: 0, register1: 0, stack: Vec::new() }
    }

    /// The value of a register.
    pub open spec fn active(self, register: Register) -> i64 {
        match register {
            Register::Register0 => self.register0,
            Register::Register1 => self.register1,
        }
    }

    /// The value of the other register.
    pub open spec fn inactive(self, register: Register) -> i64 {
        match register {
            Register::Register0 => self.register1,
            Register::Register1 => self.register0,
        }
    }

    /// Whether two memories hold the same: equal registers and equal stacks.
    pub open spec fn holds(self, other: Memory) -> bool {
        &&& self.register0 == other.register0
        &&& self.register1 == other.register1
        &&& self.stack@ == other.stack@
    }

    /// Whether this memory is another with one register set to a value.
    pub open spec fn is_with(self, before: Memory, register: Register, value: i64) -> bool {
        &&& self.active(register) == value
        &&& self.inactive(register) == before.inactive(register)
        &&& self.stack@ == before.stack@
    }

    /// Whether this memory is another with a value pushed onto the stack.
    pub open spec fn is_pushed(self, before: Memory, value: i64) -> bool {
        &&& self.register0 == before.register0
        &&& self.register1 == before.register1
        &&& self.stack@ == before.stack@.push(value)
    }

    /// Writes a value into a register.
    pub fn store_syllables(&mut self, register: Register, syllables: i64)
        ensures
            final(self).is_with(*old(self), register, syllables),
    {
        match register {
            Register::Register0 => self.register0 = syllables,
            Register::Register1 => self.register1 = syllables,
        }
    }

    /// Pushes a value onto the stack.
    pub fn push_to_stack(&mut self, val: i64)
        ensures
            final(self).is_pushed(*old(self), val),
    {
        self.stack.push(val);
    }

    /// Pushes the value of a register onto the stack.
    pub fn push(&mut self, register: Register)
        ensures
            final(self).is_pushed(*old(self), old(self).active(register)),
    {
        match register {
            Register::Register0 => self.stack.push(self.register0),
            Register::Register1 => self.stack.push(self.register1),
        }
    }

    /// Pops the top of the stack into a register; does nothing where the
    /// stack is empty.
    pub fn pop(&mut self, register: Register)
        ensures
            old(self).stack@.len() == 0 ==> final(self).holds(*old(self)),
            old(self).stack@.len() > 0 ==> {
                &&& final(self).active(register) == old(self).stack@.last()
                &&& final(self).inactive(register) == old(self).inactive(register)
                &&& final(self).stack@ == old(self).stack@.drop_last()
            },
    {
        if let Some(val) = self.stack.pop() {
            match register {
                Register::Register0 => self.register0 = val,
                Register::Register1 => self.register1 = val,
            }
        }
    }

    /// Multiplies a register by the other one, wrapping around.
    pub fn multiply(&mut self, register: Register)
        ensures
            final(self).is_with(
                *old(self),
                register,
                old(self).active(register).wrapping_mul(old(self).inactive(register)),
            ),
    {
        match register {
            Register::Register0 => self.register0 = self.register0.wrapping_mul(self.register1),
            Register::Register1 => self.register1 = self.register1.wrapping_mul(self.register0),
        }
    }

    /// Adds the other register to a register, wrapping around.
    pub fn add(&mut self, register: Register)
        ensures
            final(self).is_with(
                *old(self),
                register,
                old(self).active(register).wrapping_add(old(self).inactive(register)),
            ),
    {
        match register {
            Register::Register0 => self.register0 = self.register0.wrapping_add(self.register1),
            Register::Register1 => self.register1 = self.register1.wrapping_add(self.register0),
        }
    }

    /// The value of a register.
    pub fn get_active(&self, register: Register) -> (value: i64)
        ensures
            value == self.active(register),
    {
        match register {
            Register::Register0 => self.register0,
            Register::Register1 => self.register1,
        }
    }

    /// The value of the other register.
    pub fn get_inactive(&self, register: Register) -> (value: i64)
        ensures
            value == self.inactive(register),
    {
        match register {
            Register::Register0 => self.register1,
            Register::Register1 => self.register0,
        }
    }

    /// Negates a register, wrapping around: the least number stays itself.
    pub fn negate(&mut self, register: Register)
        ensures
            final(self).is_with(*old(self), register, 0i64.wrapping_sub(old(self).active(register))),
    {
        match register {
            Register::Register0 => self.register0 = 0i64.wrapping_sub(self.register0),
            Register::Register1 => self.register1 = 0i64.wrapping_sub(self.register1),
        }
    }
}

/// The whole machine at one moment, as the semantics speak of it.
pub struct State {
    /// The first register.
    pub r0: i64,
    /// The second register.
    pub r1: i64,
    /// The stack, its top last.
    pub stack: Seq<i64>,
    /// The place of the instruction to run next.
    pub ip: nat,
    /// What has been printed so far.
    pub out: Seq<char>,
}

impl State {
    /// The machine before its first step.
    pub open spec fn start() -> State {
        State { r0: 0, r1: 0, stack: Seq::empty(), ip: 0, out: Seq::empty() }
    }

    /// The value of a register.
    pub open spec fn active(self, register: Register) -> i64 {
        match register {
            Register::Register0 => self.r0,
            Register::Register1 => self.r1,
        }
    }

    /// The value of the other register.
    pub open spec fn inactive(self, register: Register) -> i64 {
        match register {
            Register::Register0 => self.r1,
            Register::Register1 => self.r0,
        }
    }

    /// The machine with a register set to a value.
    pub open spec fn with(self, register: Register, value: i64) -> State {
        match register {
            Register::Register0 => State { r0: value, ..self },
            Register::Register1 => State { r1: value, ..self },
        }
    }

    /// The machine with a value pushed onto the stack.
    pub open spec fn pushed(self, value: i64) -> State {
        State { stack: self.stack.push(value), ..self }
    }

    /// The machine with a text printed.
    pub open spec fn printed(self, text: Seq<char>) -> State {
        State { out: self.out + text, ..self }
    }

    /// The machine at the instruction after the present one.
    pub open spec fn onward(self) -> State {
        State { ip: self.ip + 1, ..self }
    }

    /// The machine at the instruction that a value names among `n`: the
    /// value's magnitude, taken modulo `n`.
    pub open spec fn jumped(self, value: i64, n: nat) -> State {
        State { ip: (magnitude(value) % n) as nat, ..self }
    }
}

/// The character that a value prints as: the one whose code is the value's
/// magnitude modulo 255.
pub open spec fn printable(value: i64) -> char {
    ((magnitude(value) % 255) as u8) as char
}

/// The character that a value prints as.
pub fn printable_char(value: i64) -> (c: char)
    ensures
        c == printable(value),
{
    ((abs_value(value) % 255) as u8) as char
}

/// A program as the machine runs it: what each line does, and to which
/// register.
pub open spec fn code(ast: Seq<Instruction>) -> Seq<(InsType, Register)> {
    ast.map_values(|ins: Instruction| (ins.instruction, ins.register))
}

/// The machine after one instruction of a program of `n` instructions. A
/// jump goes to the instruction that the magnitude of a register names,
/// modulo `n`; anything else goes on with the next instruction.
pub open spec fn effect(kind: InsType, reg: Register, s: State, n: nat) -> State {
    let a = s.active(reg);
    let b = s.inactive(reg);
    match kind {
        InsType::Noop => s.onward(),
        InsType::Store(syllables) => s.with(reg, syllables as i64).onward(),
        InsType::Negate => s.with(reg, 0i64.wrapping_sub(a)).onward(),
        InsType::Multiply => s.with(reg, a.wrapping_mul(b)).onward(),
        InsType::Add => s.with(reg, a.wrapping_add(b)).onward(),
        InsType::Push => s.pushed(a).onward(),
        InsType::Pop => if s.stack.len() > 0 {
            State { stack: s.stack.drop_last(), ..s.with(reg, s.stack.last()) }.onward()
        } else {
            s.onward()
        },
        InsType::PrintValue => s.printed(decimal(a as int)).onward(),
        InsType::PrintChar => s.printed(seq![printable(a)]).onward(),
        InsType::Goto => s.jumped(a, n),
        InsType::ConditionalGoto(syllables) => if a > syllables as i64 {
            s.jumped(b, n)
        } else {
            s.onward()
        },
        InsType::ConditionalPush { prev_syllables, cur_syllables } => if a < b {
            s.pushed(prev_syllables as i64).onward()
        } else {
            s.pushed(cur_syllables as i64).onward()
        },
    }
}

/// The machine after the instruction at its instruction pointer. The
/// pointer must stand at an instruction.
pub open spec fn step(code: Seq<(InsType, Register)>, s: State) -> State
    recommends
        s.ip < code.len(),
{
    effect(code[s.ip as int].0, code[s.ip as int].1, s, code.len())
}

/// Whether the machine has run off the end of the program.
pub open spec fn halted(code: Seq<(InsType, Register)>, s: State) -> bool {
    s.ip >= code.len()
}

/// The machine after a number of steps, or after fewer if it halts before.
pub open spec fn after(code: Seq<(InsType, Register)>, s: State, steps: nat) -> State
    decreases steps,
{
    if steps == 0 {
        s
    } else {
        let before = after(code, s, (steps - 1) as nat);
        if halted(code, before) {
            before
        } else {
            step(code, before)
        }
    }
}

/// The most steps that `execute` takes before it gives up on a program.
pub const STEP_LIMIT: u64 = 0xffff_ffff_ffff_ffff;

/// What a program prints: all of it if the program halts within the step
/// limit, else what it has printed by then.
pub open spec fn output(code: Seq<(InsType, Register)>) -> Seq<char> {
    after(code, State::start(), STEP_LIMIT as nat).out
}

/// A step leaves the instruction pointer at an instruction or right behind
/// the last one.
pub proof fn lemma_step_in_bounds(code: Seq<(InsType, Register)>, s: State)
    requires
        s.ip < code.len(),
    ensures
        step(code, s).ip <= code.len(),
{
    let n = code.len();
    assert forall|v: i64| (#[trigger] magnitude(v) % n) < n by {
        vstd::arithmetic::div_mod::lemma_mod_bound(magnitude(v) as int, n as int);
    }
}

/// Whenever the machine is about to run an instruction, its instruction
/// pointer stands at one: from the start, and from any state whose pointer
/// is within the program or right behind it, no number of steps takes the
/// pointer further.
pub proof fn lemma_pointer_in_bounds(code: Seq<(InsType, Register)>, s: State, steps: nat)
    requires
        s.ip <= code.len(),
    ensures
        after(code, s, steps).ip <= code.len(),
        !halted(code, after(code, s, steps)) ==> after(code, s, steps).ip < code.len(),
    decreases steps,
{
    if steps > 0 {
        let before = after(code, s, (steps - 1) as nat);
        lemma_pointer_in_bounds(code, s, (steps - 1) as nat);
        if !halted(code, before) {
            lemma_step_in_bounds(code, before);
        }
    }
}

/// A machine that has halted stays as it is.
pub proof fn lemma_halted_stays(code: Seq<(InsType, Register)>, s: State, steps: nat, more: nat)
    requires
        halted(code, after(code, s, steps)),
        steps <= more,
    ensures
        after(code, s, more) == after(code, s, steps),
    decreases more,
{
    if more > steps {
        lemma_halted_stays(code, s, steps, (more - 1) as nat);
    }
}

/// A poem, read.
pub struct Program {
    /// The instructions, one for each line.
    pub ast: Vec<Instruction>,
}

impl Memory {
    /// The machine that has this memory, an instruction pointer and an
    /// output.
    pub open spec fn at(self, ip: nat, out: Seq<char>) -> State {
        State { r0: self.register0, r1: self.register1, stack: self.stack@, ip, out }
    }
}

impl Program {
    /// Reads a poem.
    pub fn create(lexicon: &Lexicon, source: &str) -> (program: Program)
        ensures
            is_parse_of(program.ast@, lexicon, source@),
            code(program.ast@) == parsed(lexicon, source@),
    {
        let ast = parse(lexicon, source);
        assert(code(ast@) =~= parsed(lexicon, source@));
        Program { ast }
    }

    /// Runs the instruction at `ip` and says where to go on.
    pub fn step(&self, mem: &mut Memory, ip: usize, out: &mut String) -> (next: usize)
        requires
            ip < self.ast.len(),
        ensures
            final(mem).at(next as nat, final(out)@) == step(
                code(self.ast@),
                old(mem).at(ip as nat, old(out)@),
            ),
            next <= self.ast.len(),
    {
        let ghost before = mem.at(ip as nat, out@);
        let ghost code = code(self.ast@);
        proof {
            lemma_step_in_bounds(code, before);
        }
        let n = self.ast.len();
        let kind = self.ast[ip].instruction;
        let reg = self.ast[ip].register;
        let mut next = ip + 1;
        match kind {
            InsType::ConditionalGoto(syllables) => {
                if mem.get_active(reg) > syllables as i64 {
                    next = (abs_value(mem.get_inactive(reg)) % (n as u64)) as usize;
                }
            },
            InsType::Negate => mem.negate(reg),
            InsType::Multiply => mem.multiply(reg),
            InsType::Add => mem.add(reg),
            InsType::PrintChar => {
                let c = printable_char(mem.get_active(reg));
                out.push(c);
                assert(out@ == old(out)@ + seq![c]);
            },
            InsType::PrintValue => push_decimal(out, mem.get_active(reg)),
            InsType::Pop => mem.pop(reg),
            InsType::Push => mem.push(reg),
            InsType::Store(syllables) => mem.store_syllables(reg, syllables as i64),
            InsType::ConditionalPush { prev_syllables, cur_syllables } => {
                if mem.get_active(reg) < mem.get_inactive(reg) {
                    mem.push_to_stack(prev_syllables as i64);
                } else {
                    mem.push_to_stack(cur_syllables as i64);
                }
            },
            InsType::Goto => {
                next = (abs_value(mem.get_active(reg)) % (n as u64)) as usize;
            },
            InsType::Noop => (),
        }
        assert(mem.at(next as nat, out@) =~= step(code, before));
        next
    }

    /// Runs the program for at most `limit` steps. Gives what it printed,
    /// and whether it halted.
    pub fn run(&self, limit: u64) -> (r: (String, bool))
        ensures
            r.0@ == after(code(self.ast@), State::start(), limit as nat).out,
            r.1 == halted(code(self.ast@), after(code(self.ast@), State::start(), limit as nat)),
    {
        let ghost code = code(self.ast@);
        let mut mem = Memory::new();
        let mut out = String::new();
        let mut ip: usize = 0;
        let mut steps: u64 = 0;
        assert(mem.at(0, out@) =~= State::start());
        while ip < self.ast.len() && steps < limit
            invariant
                steps <= limit,
                ip <= self.ast.len(),
                code == crate::program::code(self.ast@),
                mem.at(ip as nat, out@) == after(code, State::start(), steps as nat),
            decreases limit - steps,
        {
            ip = self.step(&mut mem, ip, &mut out);
            steps += 1;
        }
        proof {
            if ip >= self.ast.len() {
                lemma_halted_stays(code, State::start(), steps as nat, limit as nat);
            }
        }
        (out, ip >= self.ast.len())
    }

    /// Runs the program and gives what it printed. An empty program prints
    /// nothing. A program that has not halted after `STEP_LIMIT` steps is
    /// given up, with what it has printed by then.
    pub fn execute(&self) -> (out: String)
        ensures
            out@ == output(code(self.ast@)),
            self.ast.len() == 0 ==> out@ == Seq::<char>::empty(),
    {
        proof {
            if self.ast.len() == 0 {
                lemma_halted_stays(code(self.ast@), State::start(), 0, STEP_LIMIT as nat);
            }
        }
        self.run(STEP_LIMIT).0
    }
}

/// What each line of a poem does, and to which register.
pub open spec fn parsed(lexicon: &Lexicon, source: Seq<char>) -> Seq<(InsType, Register)> {
    Seq::new(
        lines(source).len(),
        |i: int|
            (
                kind_of(lexicon, line_before(lines(source), i), lines(source)[i]),
                register_of(lines(source)[i]),
            ),
    )
}

/// Reads a poem and runs it. Every poem can be read and run, so the result
/// is never an error.
pub fn execute(lexicon: &Lexicon, program: &str) -> (r: Result<String, Error>)
    ensures
        r matches Ok(out) && out@ == output(parsed(lexicon, program@)),
{
    Ok(Program::create(lexicon, program).execute())
}

} // verus!
