//! What compiled code means, and that it does what the interpreter does.
//!
//! The meaning is that of a machine with 64-bit words: every variable holds
//! an `i64`, arithmetic wraps around, and the stack slot is 128 words
//! somewhere in memory. Running one block of a compiled poem is one step of
//! the interpreter, as long as the interpreter's jumps name instructions
//! outright and its stack stays within the slot; where they do not, the
//! compiled code traps.

use vstd::prelude::*;

use crate::jit::{
    block_after, compiles, exit, lowered, other_var_of, pop_flow, push_flow, var_of, Flow,
    Function, Ins, Op, Operand, Runtime, Test, TrapCode, Var, STACK_BYTES, STACK_SIZE, WORD,
};
use crate::number::{decimal, magnitude, push_decimal};
use crate::parser::{InsType, Register};
use crate::program::{after, effect, halted, printable, printable_char, State};

verus! {

/// The variables, the stack slot and the output of running compiled code.
pub struct Frame {
    pub ptr: i64,
    pub start: i64,
    pub end: i64,
    pub r0: i64,
    pub r1: i64,
    pub scratch: i64,
    /// The words of the stack slot, the lowest address first.
    pub slots: Seq<i64>,
    /// The address of the stack slot.
    pub base: int,
    /// What has been printed so far.
    pub out: Seq<char>,
}

impl Frame {
    /// The value of a variable.
    pub open spec fn get(self, var: Var) -> i64 {
        match var {
            Var::StackPtr => self.ptr,
            Var::StackStart => self.start,
            Var::StackEnd => self.end,
            Var::R0 => self.r0,
            Var::R1 => self.r1,
            Var::Scratch => self.scratch,
        }
    }

    /// The frame with a variable set to a value.
    pub open spec fn set(self, var: Var, value: i64) -> Frame {
        match var {
            Var::StackPtr => Frame { ptr: value, ..self },
            Var::StackStart => Frame { start: value, ..self },
            Var::StackEnd => Frame { end: value, ..self },
            Var::R0 => Frame { r0: value, ..self },
            Var::R1 => Frame { r1: value, ..self },
            Var::Scratch => Frame { scratch: value, ..self },
        }
    }

    /// The value of an operand.
    pub open spec fn value(self, operand: Operand) -> i64 {
        match operand {
            Operand::Var(var) => self.get(var),
            Operand::Const(c) => c,
        }
    }

    /// The word of the stack slot that lies at an address, if one does.
    pub open spec fn slot_at(self, address: i64) -> Option<int> {
        let offset = address - self.base;
        if 0 <= offset < STACK_BYTES && offset % (WORD as int) == 0 {
            Some(offset / (WORD as int))
        } else {
            None
        }
    }

    /// The value of an operation, if it has one: a load from outside the
    /// stack slot has none.
    pub open spec fn apply(self, op: Op) -> Option<i64> {
        match op {
            Op::Copy(x) => Some(self.value(x)),
            Op::Neg(x) => Some(0i64.wrapping_sub(self.value(x))),
            Op::Add(x, y) => Some(self.value(x).wrapping_add(self.value(y))),
            Op::Sub(x, y) => Some(self.value(x).wrapping_sub(self.value(y))),
            Op::Mul(x, y) => Some(self.value(x).wrapping_mul(self.value(y))),
            Op::Load(address) => match self.slot_at(self.value(address)) {
                Some(i) => Some(self.slots[i]),
                None => None,
            },
            Op::StackAddr => Some(self.base as i64),
        }
    }

    /// The frame after an instruction, if it has a meaning: a store outside
    /// the stack slot has none.
    pub open spec fn exec(self, ins: Ins) -> Option<Frame> {
        match ins {
            Ins::Def(var, op) => match self.apply(op) {
                Some(value) => Some(self.set(var, value)),
                None => None,
            },
            Ins::Store(value, address) => match self.slot_at(self.value(address)) {
                Some(i) => Some(Frame { slots: self.slots.update(i, self.value(value)), ..self }),
                None => None,
            },
            Ins::Call(Runtime::PutValue, x) => Some(
                Frame { out: self.out + decimal(self.value(x) as int), ..self },
            ),
            Ins::Call(Runtime::PutChar, x) => Some(
                Frame { out: self.out + seq![printable(self.value(x))], ..self },
            ),
        }
    }

    /// Whether a test holds of two operands.
    pub open spec fn holds(self, test: Test, left: Operand, right: Operand) -> bool {
        match test {
            Test::Equal => self.value(left) == self.value(right),
            Test::Less => self.value(left) < self.value(right),
            Test::LessOrEqual => self.value(left) <= self.value(right),
            Test::Greater => self.value(left) > self.value(right),
        }
    }

    /// Whether a frame is fit to start in: its stack slot has `STACK_SIZE`
    /// words at an address that leaves room for them, and nothing is
    /// printed.
    pub open spec fn ready(self) -> bool {
        &&& 0 <= self.base
        &&& self.base + STACK_BYTES <= i64::MAX
        &&& self.slots.len() == STACK_SIZE
        &&& self.out == Seq::<char>::empty()
    }

    /// Whether a frame holds what a state of the interpreter holds: the same
    /// registers and output, and the interpreter's stack at the bottom of
    /// the stack slot, with the stack pointer right above it.
    pub open spec fn mirrors(self, st: State) -> bool {
        &&& 0 <= self.base
        &&& self.base + STACK_BYTES <= i64::MAX
        &&& self.slots.len() == STACK_SIZE
        &&& self.start == self.base
        &&& self.end == self.base + STACK_BYTES
        &&& st.stack.len() <= STACK_SIZE
        &&& self.ptr == self.base + WORD * st.stack.len()
        &&& forall|i: int| 0 <= i < st.stack.len() ==> self.slots[i] == st.stack[i]
        &&& self.r0 == st.r0
        &&& self.r1 == st.r1
        &&& self.out == st.out
    }
}

/// How running a block ends.
pub enum Outcome {
    /// With a jump to the block of a source instruction.
    Jump(Frame, nat),
    /// With a return.
    Return(Frame),
    /// With a trap.
    Trap(Frame, TrapCode),
    /// Without a meaning: the code reached outside the stack slot.
    Fault(Frame),
}

/// Runs the code of one block, for a program of `n` instructions.
pub open spec fn eval(flow: Flow, frame: Frame, n: nat) -> Outcome
    decreases flow,
{
    match flow {
        Flow::Do(ins, rest) => match frame.exec(ins) {
            Some(next) => eval(*rest, next, n),
            None => Outcome::Fault(frame),
        },
        Flow::If(test, left, right, then, otherwise) => if frame.holds(test, left, right) {
            eval(*then, frame, n)
        } else {
            eval(*otherwise, frame, n)
        },
        Flow::Jump(block) => Outcome::Jump(frame, block as nat),
        Flow::Table(index) => if 0 <= frame.value(index) < n {
            Outcome::Jump(frame, frame.value(index) as nat)
        } else {
            Outcome::Trap(frame, TrapCode::UnreachableCodeReached)
        },
        Flow::Return => Outcome::Return(frame),
        Flow::Trap(code) => Outcome::Trap(frame, code),
    }
}

/// Whether a step of the interpreter is one that compiled code can take: a
/// push finds room among the `STACK_SIZE` words, a jump is by a register
/// that names an instruction outright, and a conditional jump, where it is
/// taken, by one whose magnitude does.
pub open spec fn fits(kind: InsType, reg: Register, st: State, n: nat) -> bool {
    match kind {
        InsType::Push => st.stack.len() < STACK_SIZE,
        InsType::ConditionalPush { prev_syllables, cur_syllables } => st.stack.len() < STACK_SIZE,
        InsType::Goto => 0 <= st.active(reg) < n,
        InsType::ConditionalGoto(syllables) => st.active(reg) > syllables as i64 ==> {
            &&& -n < st.inactive(reg) < n
            &&& st.inactive(reg) > i64::MIN
        },
        _ => true,
    }
}

/// The trap that ends a step which compiled code cannot take.
pub open spec fn trap_of(kind: InsType) -> TrapCode {
    match kind {
        InsType::Push => TrapCode::StackOverflow,
        InsType::ConditionalPush { prev_syllables, cur_syllables } => TrapCode::StackOverflow,
        _ => TrapCode::UnreachableCodeReached,
    }
}

/// Where compiled code stands.
pub enum Place {
    /// Before the block of a source instruction.
    At(nat),
    /// Behind a return.
    Done,
    /// Behind a trap.
    Trapped(TrapCode),
    /// Nowhere: the code has lost its meaning.
    Lost,
}

/// Compiled code in the middle of a run.
pub struct Native {
    pub frame: Frame,
    pub place: Place,
}

/// The run after a block that ended in an outcome.
pub open spec fn land(outcome: Outcome) -> Native {
    match outcome {
        Outcome::Jump(frame, block) => Native { frame, place: Place::At(block) },
        Outcome::Return(frame) => Native { frame, place: Place::Done },
        Outcome::Trap(frame, code) => Native { frame, place: Place::Trapped(code) },
        Outcome::Fault(frame) => Native { frame, place: Place::Lost },
    }
}

/// The run after the entry and a number of blocks, or after fewer blocks if
/// it ends before.
pub open spec fn native_after(f: Function, first: Frame, blocks: nat) -> Native
    decreases blocks,
{
    if blocks == 0 {
        land(eval(f.entry, first, f.blocks@.len()))
    } else {
        let before = native_after(f, first, (blocks - 1) as nat);
        match before.place {
            Place::At(i) => if i < f.blocks@.len() {
                land(eval(f.blocks@[i as int], before.frame, f.blocks@.len()))
            } else {
                Native { frame: before.frame, place: Place::Lost }
            },
            _ => before,
        }
    }
}

/// Whether each of the first steps of the interpreter is one that compiled
/// code can take.
pub open spec fn fits_through(code: Seq<(InsType, Register)>, steps: nat) -> bool
    decreases steps,
{
    steps == 0 || {
        let st = after(code, State::start(), (steps - 1) as nat);
        &&& fits_through(code, (steps - 1) as nat)
        &&& halted(code, st) || fits(code[st.ip as int].0, code[st.ip as int].1, st, code.len())
    }
}

/// Where compiled code stands when the interpreter is in a given state.
pub open spec fn place_of(st: State, n: nat) -> Place {
    if st.ip < n {
        Place::At(st.ip)
    } else {
        Place::Done
    }
}

/// Running the block of an instruction in a frame that mirrors a state of
/// the interpreter is the interpreter's step, where compiled code can take
/// it, and else the trap of that instruction. It is never without meaning.
pub proof fn lemma_block_agrees(kind: InsType, reg: Register, n: nat, st: State, frame: Frame)
    requires
        frame.mirrors(st),
        st.ip < n <= usize::MAX,
    ensures
        match eval(lowered(kind, reg, block_after(st.ip as int, n)), frame, n) {
            Outcome::Jump(next, block) => {
                &&& fits(kind, reg, st, n)
                &&& next.mirrors(effect(kind, reg, st, n))
                &&& effect(kind, reg, st, n).ip == block
                &&& block < n
            },
            Outcome::Return(next) => {
                &&& fits(kind, reg, st, n)
                &&& next.mirrors(effect(kind, reg, st, n))
                &&& effect(kind, reg, st, n).ip == n
            },
            Outcome::Trap(next, code) => {
                &&& !fits(kind, reg, st, n)
                &&& code == trap_of(kind)
                &&& next.mirrors(st)
            },
            Outcome::Fault(_) => false,
        },
{
    reveal_with_fuel(eval, 4);
    let next_block = block_after(st.ip as int, n);
    let flow = lowered(kind, reg, next_block);
    let active = var_of(reg);
    let inactive = other_var_of(reg);
    assert(frame.get(active) == st.active(reg));
    assert(frame.get(inactive) == st.inactive(reg));
    match kind {
        InsType::Push => {
            let next = lemma_push_agrees(Operand::Var(active), next_block, n, st, frame);
        },
        InsType::ConditionalPush { prev_syllables, cur_syllables } => {
            let then = lemma_push_agrees(
                Operand::Const(prev_syllables as i64),
                next_block,
                n,
                st,
                frame,
            );
            let otherwise = lemma_push_agrees(
                Operand::Const(cur_syllables as i64),
                next_block,
                n,
                st,
                frame,
            );
        },
        InsType::Pop => {
            let next = lemma_pop_agrees(reg, next_block, n, st, frame);
        },
        InsType::Goto => {
            if 0 <= st.active(reg) < n {
                vstd::arithmetic::div_mod::lemma_small_mod(st.active(reg) as nat, n);
            }
        },
        InsType::ConditionalGoto(syllables) => {
            let b = st.inactive(reg);
            if -n < b < n && b > i64::MIN {
                vstd::arithmetic::div_mod::lemma_small_mod(magnitude(b), n);
            }
        },
        _ => {},
    }
}

/// The code that pushes a value traps where the stack is full, and else
/// stores the value above the interpreter's stack.
pub proof fn lemma_push_agrees(
    value: Operand,
    next_block: Option<usize>,
    n: nat,
    st: State,
    frame: Frame,
) -> (next: Frame)
    requires
        frame.mirrors(st),
    ensures
        st.stack.len() >= STACK_SIZE ==> eval(push_flow(value, next_block), frame, n)
            == Outcome::Trap(frame, TrapCode::StackOverflow),
        st.stack.len() < STACK_SIZE ==> {
            &&& eval(push_flow(value, next_block), frame, n) == eval(exit(next_block), next, n)
            &&& next.mirrors(st.pushed(frame.value(value)))
        },
{
    reveal_with_fuel(eval, 4);
    let depth = st.stack.len() as int;
    let stored = Frame { slots: frame.slots.update(depth, frame.value(value)), ..frame };
    let next = stored.set(Var::StackPtr, (frame.ptr + WORD) as i64);
    if depth < STACK_SIZE {
        assert(frame.slot_at(frame.ptr) == Some(depth)) by {
            assert((WORD * depth) % (WORD as int) == 0) by (nonlinear_arith)
                requires
                    WORD == 8,
            ;
            assert((WORD * depth) / (WORD as int) == depth) by (nonlinear_arith)
                requires
                    WORD == 8,
            ;
        }
        assert(frame.exec(Ins::Store(value, Operand::Var(Var::StackPtr))) == Some(stored));
        assert(stored.exec(
            Ins::Def(Var::StackPtr, Op::Add(Operand::Var(Var::StackPtr), Operand::Const(WORD))),
        ) == Some(next));
        assert(next.mirrors(st.pushed(frame.value(value))));
    }
    next
}

/// The interpreter's state after a pop, before it goes on.
pub open spec fn popped(st: State, reg: Register) -> State {
    if st.stack.len() > 0 {
        State { stack: st.stack.drop_last(), ..st.with(reg, st.stack.last()) }
    } else {
        st
    }
}

/// The code that pops into a register does nothing where the stack is
/// empty, and else loads the top of the interpreter's stack.
pub proof fn lemma_pop_agrees(
    reg: Register,
    next_block: Option<usize>,
    n: nat,
    st: State,
    frame: Frame,
) -> (next: Frame)
    requires
        frame.mirrors(st),
    ensures
        eval(pop_flow(var_of(reg), next_block), frame, n) == eval(exit(next_block), next, n),
        next.mirrors(popped(st, reg)),
{
    reveal_with_fuel(eval, 4);
    let depth = st.stack.len() as int;
    if depth > 0 {
        let lower = frame.set(Var::StackPtr, (frame.ptr - WORD) as i64);
        let next = lower.set(var_of(reg), st.stack.last());
        assert(lower.slot_at(lower.ptr) == Some(depth - 1)) by {
            assert((WORD * (depth - 1)) % (WORD as int) == 0) by (nonlinear_arith)
                requires
                    WORD == 8,
            ;
            assert((WORD * (depth - 1)) / (WORD as int) == depth - 1) by (nonlinear_arith)
                requires
                    WORD == 8,
            ;
        }
        assert(frame.exec(
            Ins::Def(Var::StackPtr, Op::Sub(Operand::Var(Var::StackPtr), Operand::Const(WORD))),
        ) == Some(lower));
        assert(lower.exec(Ins::Def(var_of(reg), Op::Load(Operand::Var(Var::StackPtr)))) == Some(
            next,
        ));
        assert(next.mirrors(popped(st, reg)));
        next
    } else {
        frame
    }
}

/// The entry leaves compiled code where the interpreter starts: before the
/// first block, with a frame that mirrors the interpreter's first state.
pub proof fn lemma_entry_agrees(f: Function, code: Seq<(InsType, Register)>, first: Frame)
    requires
        compiles(f, code),
        first.ready(),
    ensures
        native_after(f, first, 0).frame.mirrors(State::start()),
        native_after(f, first, 0).place == place_of(State::start(), code.len()),
{
    reveal_with_fuel(eval, 6);
    let n = code.len();
    let a = first.set(Var::StackPtr, first.base as i64);
    let b = a.set(Var::StackStart, a.ptr);
    let c = b.set(Var::StackEnd, (b.start + STACK_BYTES) as i64);
    let d = c.set(Var::R0, 0);
    let e = d.set(Var::R1, 0);
    assert(first.exec(Ins::Def(Var::StackPtr, Op::StackAddr)) == Some(a));
    assert(a.exec(Ins::Def(Var::StackStart, Op::Copy(Operand::Var(Var::StackPtr)))) == Some(b));
    assert(b.exec(
        Ins::Def(Var::StackEnd, Op::Add(Operand::Var(Var::StackStart), Operand::Const(STACK_BYTES))),
    ) == Some(c));
    assert(c.exec(Ins::Def(Var::R0, Op::Copy(Operand::Const(0)))) == Some(d));
    assert(d.exec(Ins::Def(Var::R1, Op::Copy(Operand::Const(0)))) == Some(e));
    assert(eval(f.entry, first, n) == eval(exit(block_after(-1, n)), e, n));
    assert(e.mirrors(State::start()));
}

/// Compiled code and the interpreter agree. As long as every step of the
/// interpreter is one that compiled code can take, compiled code that has
/// run as many blocks as the interpreter has taken steps stands where the
/// interpreter stands, with the same registers, the same stack, and the same
/// text printed.
pub proof fn lemma_compiled_code_agrees(
    f: Function,
    code: Seq<(InsType, Register)>,
    first: Frame,
    steps: nat,
)
    requires
        compiles(f, code),
        first.ready(),
        fits_through(code, steps),
    ensures
        native_after(f, first, steps).frame.mirrors(after(code, State::start(), steps)),
        native_after(f, first, steps).place == place_of(
            after(code, State::start(), steps),
            code.len(),
        ),
        native_after(f, first, steps).frame.out == after(code, State::start(), steps).out,
    decreases steps,
{
    let n = code.len();
    if steps == 0 {
        lemma_entry_agrees(f, code, first);
    } else {
        let st = after(code, State::start(), (steps - 1) as nat);
        let before = native_after(f, first, (steps - 1) as nat);
        lemma_compiled_code_agrees(f, code, first, (steps - 1) as nat);
        if st.ip < n {
            let (kind, reg) = code[st.ip as int];
            assert(n == f.blocks.len());
            lemma_block_agrees(kind, reg, n, st, before.frame);
            assert(f.blocks@[st.ip as int] == lowered(kind, reg, block_after(st.ip as int, n)));
        }
    }
}

/// Where the interpreter takes a step that compiled code cannot take,
/// compiled code traps: on a push that finds the stack slot full, with a
/// stack overflow; on a jump that misses the jump table, as unreachable.
pub proof fn lemma_compiled_code_traps(
    f: Function,
    code: Seq<(InsType, Register)>,
    first: Frame,
    steps: nat,
)
    requires
        compiles(f, code),
        first.ready(),
        fits_through(code, steps),
        !fits_through(code, steps + 1),
    ensures
        after(code, State::start(), steps).ip < code.len(),
        native_after(f, first, steps + 1).place == Place::Trapped(
            trap_of(code[after(code, State::start(), steps).ip as int].0),
        ),
        native_after(f, first, steps + 1).frame.out == after(code, State::start(), steps).out,
{
    let n = code.len();
    let st = after(code, State::start(), steps);
    let before = native_after(f, first, steps);
    lemma_compiled_code_agrees(f, code, first, steps);
    let (kind, reg) = code[st.ip as int];
    assert(n == f.blocks.len());
    lemma_block_agrees(kind, reg, n, st, before.frame);
    assert(f.blocks@[st.ip as int] == lowered(kind, reg, block_after(st.ip as int, n)));
}

/// A frame in memory: the reference machine, on which compiled code can be
/// run without a backend. Its stack slot lies at address zero.
pub struct Machine {
    ptr: i64,
    start: i64,
    end: i64,
    r0: i64,
    r1: i64,
    scratch: i64,
    slots: [i64; 128],
    out: String,
}

/// Where a run on the reference machine has come to.
#[derive(Debug, Clone, Copy, PartialEq, Eq)]
pub enum Stop {
    /// Before the block of a source instruction.
    At(usize),
    /// Behind a return.
    Done,
    /// Behind a trap.
    Trapped(TrapCode),
    /// Nowhere: the code reached outside the stack slot, or jumped to a
    /// block that is not there.
    Lost,
}

impl Stop {
    /// The place that this is.
    pub open spec fn place(self) -> Place {
        match self {
            Stop::At(block) => Place::At(block as nat),
            Stop::Done => Place::Done,
            Stop::Trapped(code) => Place::Trapped(code),
            Stop::Lost => Place::Lost,
        }
    }
}

impl Machine {
    /// The frame that the machine holds.
    pub closed spec fn frame(self) -> Frame {
        Frame {
            ptr: self.ptr,
            start: self.start,
            end: self.end,
            r0: self.r0,
            r1: self.r1,
            scratch: self.scratch,
            slots: self.slots@,
            base: 0,
            out: self.out@,
        }
    }

    /// The frame of a machine that has not run yet: every variable and every
    /// word of the stack slot is zero, and nothing is printed.
    pub open spec fn blank() -> Frame {
        Frame {
            ptr: 0,
            start: 0,
            end: 0,
            r0: 0,
            r1: 0,
            scratch: 0,
            slots: Seq::new(STACK_SIZE as nat, |i: int| 0i64),
            base: 0,
            out: Seq::empty(),
        }
    }

    /// A machine that has not run yet.
    pub fn new() -> (m: Machine)
        ensures
            m.frame() == Machine::blank(),
    {
        let slots: [i64; 128] = [0; 128];
        assert(slots@ == Seq::new(STACK_SIZE as nat, |i: int| 0i64));
        Machine { ptr: 0, start: 0, end: 0, r0: 0, r1: 0, scratch: 0, slots, out: String::new() }
    }

    /// What the machine has printed.
    pub fn output(self) -> (out: String)
        ensures
            out@ == self.frame().out,
    {
        self.out
    }

    /// The value of an operand.
    pub fn value(&self, operand: Operand) -> (v: i64)
        ensures
            v == self.frame().value(operand),
    {
        match operand {
            Operand::Var(Var::StackPtr) => self.ptr,
            Operand::Var(Var::StackStart) => self.start,
            Operand::Var(Var::StackEnd) => self.end,
            Operand::Var(Var::R0) => self.r0,
            Operand::Var(Var::R1) => self.r1,
            Operand::Var(Var::Scratch) => self.scratch,
            Operand::Const(c) => c,
        }
    }

    /// The word of the stack slot that lies at an address, if one does.
    pub fn slot(&self, address: i64) -> (i: Option<usize>)
        ensures
            match i {
                Some(i) => self.frame().slot_at(address) == Some(i as int) && i < STACK_SIZE,
                None => self.frame().slot_at(address) is None,
            },
    {
        if 0 <= address && address < STACK_BYTES && address % WORD == 0 {
            Some((address / WORD) as usize)
        } else {
            None
        }
    }

    /// Runs one instruction. Says whether it had a meaning; where it had
    /// none, the machine is as before.
    pub fn exec(&mut self, ins: Ins) -> (ok: bool)
        ensures
            match old(self).frame().exec(ins) {
                Some(next) => ok && final(self).frame() == next,
                None => !ok && final(self).frame() == old(self).frame(),
            },
    {
        match ins {
            Ins::Def(var, op) => {
                let value = match op {
                    Op::Copy(x) => self.value(x),
                    Op::Neg(x) => 0i64.wrapping_sub(self.value(x)),
                    Op::Add(x, y) => self.value(x).wrapping_add(self.value(y)),
                    Op::Sub(x, y) => self.value(x).wrapping_sub(self.value(y)),
                    Op::Mul(x, y) => self.value(x).wrapping_mul(self.value(y)),
                    Op::Load(address) => match self.slot(self.value(address)) {
                        Some(i) => self.slots[i],
                        None => {
                            return false;
                        },
                    },
                    Op::StackAddr => 0,
                };
                match var {
                    Var::StackPtr => self.ptr = value,
                    Var::StackStart => self.start = value,
                    Var::StackEnd => self.end = value,
                    Var::R0 => self.r0 = value,
                    Var::R1 => self.r1 = value,
                    Var::Scratch => self.scratch = value,
                }
                true
            },
            Ins::Store(value, address) => match self.slot(self.value(address)) {
                Some(i) => {
                    let value = self.value(value);
                    self.slots[i] = value;
                    true
                },
                None => false,
            },
            Ins::Call(Runtime::PutValue, x) => {
                let value = self.value(x);
                push_decimal(&mut self.out, value);
                true
            },
            Ins::Call(Runtime::PutChar, x) => {
                let c = printable_char(self.value(x));
                self.out.push(c);
                assert(self.out@ == old(self).out@ + seq![c]);
                true
            },
        }
    }

    /// Whether a test holds of two operands.
    pub fn holds(&self, test: Test, left: Operand, right: Operand) -> (b: bool)
        ensures
            b == self.frame().holds(test, left, right),
    {
        let l = self.value(left);
        let r = self.value(right);
        match test {
            Test::Equal => l == r,
            Test::Less => l < r,
            Test::LessOrEqual => l <= r,
            Test::Greater => l > r,
        }
    }

    /// Runs the code of one block, for a program of `n` instructions, and
    /// says where the run has come to.
    pub fn run_flow(&mut self, flow: &Flow, n: usize) -> (stop: Stop)
        ensures
            stop.place() == land(eval(*flow, old(self).frame(), n as nat)).place,
            final(self).frame() == land(eval(*flow, old(self).frame(), n as nat)).frame,
        decreases flow,
    {
        match flow {
            Flow::Do(ins, rest) => {
                if self.exec(*ins) {
                    self.run_flow(rest, n)
                } else {
                    Stop::Lost
                }
            },
            Flow::If(test, left, right, then, otherwise) => {
                if self.holds(*test, *left, *right) {
                    self.run_flow(then, n)
                } else {
                    self.run_flow(otherwise, n)
                }
            },
            Flow::Jump(block) => Stop::At(*block),
            Flow::Table(index) => {
                let v = self.value(*index);
                if 0 <= v && (v as u64) < (n as u64) {
                    Stop::At(v as usize)
                } else {
                    Stop::Trapped(TrapCode::UnreachableCodeReached)
                }
            },
            Flow::Return => Stop::Done,
            Flow::Trap(code) => Stop::Trapped(*code),
        }
    }
}

/// Runs a compiled poem on the reference machine: the entry, and then at
/// most `limit` blocks. Gives what it printed and where it came to.
pub fn simulate(f: &Function, limit: u64) -> (r: (String, Stop))
    ensures
        r.0@ == native_after(*f, Machine::blank(), limit as nat).frame.out,
        r.1.place() == native_after(*f, Machine::blank(), limit as nat).place,
{
    let n = f.blocks.len();
    let mut machine = Machine::new();
    let mut stop = machine.run_flow(&f.entry, n);
    let mut blocks: u64 = 0;
    while blocks < limit
        invariant
            blocks <= limit,
            n == f.blocks.len(),
            machine.frame() == native_after(*f, Machine::blank(), blocks as nat).frame,
            stop.place() == native_after(*f, Machine::blank(), blocks as nat).place,
        decreases limit - blocks,
    {
        match stop {
            Stop::At(i) => {
                if i < n {
                    stop = machine.run_flow(&f.blocks[i], n);
                } else {
                    stop = Stop::Lost;
                }
            },
            _ => {
                proof {
                    lemma_stopped_stays(*f, Machine::blank(), blocks as nat, limit as nat);
                }
                return (machine.output(), stop);
            },
        }
        blocks += 1;
    }
    (machine.output(), stop)
}

/// A run that has ended, by a return, a trap or a loss of meaning, stays as
/// it is.
pub proof fn lemma_stopped_stays(f: Function, first: Frame, blocks: nat, more: nat)
    requires
        !(native_after(f, first, blocks).place is At),
        blocks <= more,
    ensures
        native_after(f, first, more) == native_after(f, first, blocks),
    decreases more,
{
    if more > blocks {
        lemma_stopped_stays(f, first, blocks, (more - 1) as nat);
    }
}

} // verus!
