//! Lowering a poem to code for a native backend.
//!
//! The compiler turns every instruction of a poem into one block of a small
//! intermediate language: assignments to five variables, stores to and loads
//! from a stack slot, calls of the two printing routines, tests, and exits.
//! A backend has one machine instruction or two for each of these. What the
//! blocks mean is defined here too, so that the compiler can be held to the
//! interpreter.

use vstd::prelude::*;

use crate::parser::{InsType, Instruction, Register};
use crate::program::code;

verus! {

/// How many values the native stack holds.
pub const STACK_SIZE: u32 = 128;

/// The bytes of one value on the native stack.
pub const WORD: i64 = 8;

/// The bytes of the native stack.
pub const STACK_BYTES: i64 = 1024;

/// A variable of the compiled code.
#[derive(Debug, Clone, Copy, PartialEq, Eq)]
pub enum Var {
    /// The address above the top of the stack.
    StackPtr,
    /// The address of the bottom of the stack.
    StackStart,
    /// The address above the last place of the stack.
    StackEnd,
    /// The first register.
    R0,
    /// The second register.
    R1,
    /// A value on its way to a jump.
    Scratch,
}

/// What an operation works on.
#[derive(Debug, Clone, Copy, PartialEq, Eq)]
pub enum Operand {
    /// The value of a variable.
    Var(Var),
    /// A constant.
    Const(i64),
}

/// An operation that gives a value. Arithmetic wraps around.
#[derive(Debug, Clone, Copy, PartialEq, Eq)]
pub enum Op {
    /// The operand itself.
    Copy(Operand),
    /// The operand negated.
    Neg(Operand),
    /// The sum of two operands.
    Add(Operand, Operand),
    /// The first operand less the second.
    Sub(Operand, Operand),
    /// The product of two operands.
    Mul(Operand, Operand),
    /// The value stored at an address.
    Load(Operand),
    /// The address of the stack slot.
    StackAddr,
}

/// A routine of the runtime that compiled code calls.
#[derive(Debug, Clone, Copy, PartialEq, Eq)]
pub enum Runtime {
    /// Prints a value in decimal.
    PutValue,
    /// Prints a value as a character.
    PutChar,
}

/// An instruction of the compiled code.
#[derive(Debug, Clone, Copy, PartialEq, Eq)]
pub enum Ins {
    /// Gives a variable the value of an operation.
    Def(Var, Op),
    /// Stores a value at an address.
    Store(Operand, Operand),
    /// Calls a routine of the runtime with one argument.
    Call(Runtime, Operand),
}

/// A comparison of two signed values.
#[derive(Debug, Clone, Copy, PartialEq, Eq)]
pub enum Test {
    Equal,
    Less,
    LessOrEqual,
    Greater,
}

/// Why compiled code stops abnormally.
#[derive(Debug, Clone, Copy, PartialEq, Eq)]
pub enum TrapCode {
    /// A push found the stack full.
    StackOverflow,
    /// A computed jump missed the jump table.
    UnreachableCodeReached,
}

/// The code of one block: instructions and tests that end in an exit.
#[derive(Debug, PartialEq, Eq)]
pub enum Flow {
    /// An instruction, and what follows it.
    Do(Ins, Box<Flow>),
    /// A test of two operands, what follows where it holds, and what follows
    /// where it does not.
    If(Test, Operand, Operand, Box<Flow>, Box<Flow>),
    /// A jump to the block of a source instruction.
    Jump(usize),
    /// A jump through the jump table, which has the block of every source
    /// instruction in order: to the block that the operand, read as an
    /// unsigned number, is the index of, or a trap if there is none.
    Table(Operand),
    /// A return from the compiled function.
    Return,
    /// A trap.
    Trap(TrapCode),
}

/// A compiled poem.
#[derive(Debug, PartialEq, Eq)]
pub struct Function {
    /// What runs first: it sets up the stack and the registers.
    pub entry: Flow,
    /// The block of every source instruction, in order.
    pub blocks: Vec<Flow>,
}

/// The variable that holds a register.
pub open spec fn var_of(register: Register) -> Var {
    match register {
        Register::Register0 => Var::R0,
        Register::Register1 => Var::R1,
    }
}

/// The variable that holds the other register.
pub open spec fn other_var_of(register: Register) -> Var {
    match register {
        Register::Register0 => Var::R1,
        Register::Register1 => Var::R0,
    }
}

/// How a block ends: with a jump to the next block, or with a return where
/// there is none.
pub open spec fn exit(next_block: Option<usize>) -> Flow {
    match next_block {
        Some(next) => Flow::Jump(next),
        None => Flow::Return,
    }
}

/// The code that pushes a value: a trap if the stack is full, else a store
/// at the stack pointer, which then moves up by one value.
pub open spec fn push_flow(value: Operand, next_block: Option<usize>) -> Flow {
    Flow::If(
        Test::Equal,
        Operand::Var(Var::StackPtr),
        Operand::Var(Var::StackEnd),
        Box::new(Flow::Trap(TrapCode::StackOverflow)),
        Box::new(
            Flow::Do(
                Ins::Store(value, Operand::Var(Var::StackPtr)),
                Box::new(
                    Flow::Do(
                        Ins::Def(
                            Var::StackPtr,
                            Op::Add(Operand::Var(Var::StackPtr), Operand::Const(WORD)),
                        ),
                        Box::new(exit(next_block)),
                    ),
                ),
            ),
        ),
    )
}

/// The code that pops into a variable: nothing if the stack is empty, else
/// the stack pointer moves down by one value and the variable is loaded from
/// there.
pub open spec fn pop_flow(to: Var, next_block: Option<usize>) -> Flow {
    Flow::If(
        Test::LessOrEqual,
        Operand::Var(Var::StackPtr),
        Operand::Var(Var::StackStart),
        Box::new(exit(next_block)),
        Box::new(
            Flow::Do(
                Ins::Def(Var::StackPtr, Op::Sub(Operand::Var(Var::StackPtr), Operand::Const(WORD))),
                Box::new(
                    Flow::Do(
                        Ins::Def(to, Op::Load(Operand::Var(Var::StackPtr))),
                        Box::new(exit(next_block)),
                    ),
                ),
            ),
        ),
    )
}

/// The code that jumps by the magnitude of a variable.
pub open spec fn jump_by_magnitude(of: Var) -> Flow {
    Flow::If(
        Test::Less,
        Operand::Var(of),
        Operand::Const(0),
        Box::new(
            Flow::Do(
                Ins::Def(Var::Scratch, Op::Neg(Operand::Var(of))),
                Box::new(Flow::Table(Operand::Var(Var::Scratch))),
            ),
        ),
        Box::new(Flow::Table(Operand::Var(of))),
    )
}

/// The block of a source instruction.
pub open spec fn lowered(kind: InsType, register: Register, next_block: Option<usize>) -> Flow {
    let active = var_of(register);
    let inactive = other_var_of(register);
    match kind {
        InsType::Store(syllables) => Flow::Do(
            Ins::Def(active, Op::Copy(Operand::Const(syllables as i64))),
            Box::new(exit(next_block)),
        ),
        InsType::Negate => Flow::Do(
            Ins::Def(active, Op::Neg(Operand::Var(active))),
            Box::new(exit(next_block)),
        ),
        InsType::Multiply => Flow::Do(
            Ins::Def(active, Op::Mul(Operand::Var(active), Operand::Var(inactive))),
            Box::new(exit(next_block)),
        ),
        InsType::Add => Flow::Do(
            Ins::Def(active, Op::Add(Operand::Var(active), Operand::Var(inactive))),
            Box::new(exit(next_block)),
        ),
        InsType::Goto => Flow::Table(Operand::Var(active)),
        InsType::ConditionalGoto(syllables) => Flow::If(
            Test::Greater,
            Operand::Var(active),
            Operand::Const(syllables as i64),
            Box::new(jump_by_magnitude(inactive)),
            Box::new(exit(next_block)),
        ),
        InsType::Push => push_flow(Operand::Var(active), next_block),
        InsType::Pop => pop_flow(active, next_block),
        InsType::ConditionalPush { prev_syllables, cur_syllables } => Flow::If(
            Test::Less,
            Operand::Var(active),
            Operand::Var(inactive),
            Box::new(push_flow(Operand::Const(prev_syllables as i64), next_block)),
            Box::new(push_flow(Operand::Const(cur_syllables as i64), next_block)),
        ),
        InsType::PrintValue => Flow::Do(
            Ins::Call(Runtime::PutValue, Operand::Var(active)),
            Box::new(exit(next_block)),
        ),
        InsType::PrintChar => Flow::Do(
            Ins::Call(Runtime::PutChar, Operand::Var(active)),
            Box::new(exit(next_block)),
        ),
        InsType::Noop => exit(next_block),
    }
}

/// What runs first: the stack pointer and the bottom of the stack get the
/// address of the stack slot, the end of the stack lies `STACK_BYTES` above
/// it, and both registers are zero.
pub open spec fn entry_flow(first_block: Option<usize>) -> Flow {
    Flow::Do(
        Ins::Def(Var::StackPtr, Op::StackAddr),
        Box::new(
            Flow::Do(
                Ins::Def(Var::StackStart, Op::Copy(Operand::Var(Var::StackPtr))),
                Box::new(
                    Flow::Do(
                        Ins::Def(
                            Var::StackEnd,
                            Op::Add(Operand::Var(Var::StackStart), Operand::Const(STACK_BYTES)),
                        ),
                        Box::new(
                            Flow::Do(
                                Ins::Def(Var::R0, Op::Copy(Operand::Const(0))),
                                Box::new(
                                    Flow::Do(
                                        Ins::Def(Var::R1, Op::Copy(Operand::Const(0))),
                                        Box::new(exit(first_block)),
                                    ),
                                ),
                            ),
                        ),
                    ),
                ),
            ),
        ),
    )
}

/// The block that follows the one at a place among `n`, if one does.
pub open spec fn block_after(i: int, n: nat) -> Option<usize> {
    if i + 1 < n {
        Some((i + 1) as usize)
    } else {
        None
    }
}

/// Whether a function is the compiled form of a program.
pub open spec fn compiles(f: Function, code: Seq<(InsType, Register)>) -> bool {
    &&& f.entry == entry_flow(block_after(-1, code.len()))
    &&& f.blocks@.len() == code.len()
    &&& forall|i: int|
        0 <= i < code.len() ==> #[trigger] f.blocks@[i] == lowered(
            code[i].0,
            code[i].1,
            block_after(i, code.len()),
        )
}

/// Ends a block: with a jump to the next block, or with a return where
/// there is none.
pub fn connect_end(next_block: Option<usize>) -> (flow: Flow)
    ensures
        flow == exit(next_block),
{
    match next_block {
        Some(next) => Flow::Jump(next),
        None => Flow::Return,
    }
}

/// Writes the code that pushes a value.
pub fn translate_push_val(value: Operand, next_block: Option<usize>) -> (flow: Flow)
    ensures
        flow == push_flow(value, next_block),
{
    let store = Ins::Store(value, Operand::Var(Var::StackPtr));
    let advance = Ins::Def(
        Var::StackPtr,
        Op::Add(Operand::Var(Var::StackPtr), Operand::Const(WORD)),
    );
    Flow::If(
        Test::Equal,
        Operand::Var(Var::StackPtr),
        Operand::Var(Var::StackEnd),
        Box::new(Flow::Trap(TrapCode::StackOverflow)),
        Box::new(Flow::Do(store, Box::new(Flow::Do(advance, Box::new(connect_end(next_block)))))),
    )
}

/// Writes the code that pushes a variable.
pub fn translate_push(reg: Var, next_block: Option<usize>) -> (flow: Flow)
    ensures
        flow == push_flow(Operand::Var(reg), next_block),
{
    translate_push_val(Operand::Var(reg), next_block)
}

/// Writes the code that pops into a variable.
pub fn translate_pop(reg: Var, next_block: Option<usize>) -> (flow: Flow)
    ensures
        flow == pop_flow(reg, next_block),
{
    let retreat = Ins::Def(
        Var::StackPtr,
        Op::Sub(Operand::Var(Var::StackPtr), Operand::Const(WORD)),
    );
    let load = Ins::Def(reg, Op::Load(Operand::Var(Var::StackPtr)));
    Flow::If(
        Test::LessOrEqual,
        Operand::Var(Var::StackPtr),
        Operand::Var(Var::StackStart),
        Box::new(connect_end(next_block)),
        Box::new(Flow::Do(retreat, Box::new(Flow::Do(load, Box::new(connect_end(next_block)))))),
    )
}

/// Writes the block of a source instruction.
pub fn translate_instruction(ins: &Instruction, next_block: Option<usize>) -> (flow: Flow)
    ensures
        flow == lowered(ins.instruction, ins.register, next_block),
{
    let active_reg = match ins.register {
        Register::Register0 => Var::R0,
        Register::Register1 => Var::R1,
    };
    let inactive_reg = match ins.register {
        Register::Register0 => Var::R1,
        Register::Register1 => Var::R0,
    };
    let active = Operand::Var(active_reg);
    let inactive = Operand::Var(inactive_reg);
    match ins.instruction {
        InsType::Store(syl) => Flow::Do(
            Ins::Def(active_reg, Op::Copy(Operand::Const(syl as i64))),
            Box::new(connect_end(next_block)),
        ),
        InsType::Negate => Flow::Do(
            Ins::Def(active_reg, Op::Neg(active)),
            Box::new(connect_end(next_block)),
        ),
        InsType::Multiply => Flow::Do(
            Ins::Def(active_reg, Op::Mul(active, inactive)),
            Box::new(connect_end(next_block)),
        ),
        InsType::Add => Flow::Do(
            Ins::Def(active_reg, Op::Add(active, inactive)),
            Box::new(connect_end(next_block)),
        ),
        InsType::Goto => Flow::Table(active),
        InsType::ConditionalGoto(syl) => {
            let negated = Flow::Do(
                Ins::Def(Var::Scratch, Op::Neg(inactive)),
                Box::new(Flow::Table(Operand::Var(Var::Scratch))),
            );
            let jump = Flow::If(
                Test::Less,
                inactive,
                Operand::Const(0),
                Box::new(negated),
                Box::new(Flow::Table(inactive)),
            );
            Flow::If(
                Test::Greater,
                active,
                Operand::Const(syl as i64),
                Box::new(jump),
                Box::new(connect_end(next_block)),
            )
        },
        InsType::Push => translate_push(active_reg, next_block),
        InsType::Pop => translate_pop(active_reg, next_block),
        InsType::ConditionalPush { prev_syllables, cur_syllables } => Flow::If(
            Test::Less,
            active,
            inactive,
            Box::new(translate_push_val(Operand::Const(prev_syllables as i64), next_block)),
            Box::new(translate_push_val(Operand::Const(cur_syllables as i64), next_block)),
        ),
        InsType::PrintValue => Flow::Do(
            Ins::Call(Runtime::PutValue, active),
            Box::new(connect_end(next_block)),
        ),
        InsType::PrintChar => Flow::Do(
            Ins::Call(Runtime::PutChar, active),
            Box::new(connect_end(next_block)),
        ),
        InsType::Noop => connect_end(next_block),
    }
}

/// Compiles a program: an entry, and one block for every instruction, each
/// of which goes on to the next; the last returns.
pub fn compile(ast: &Vec<Instruction>) -> (f: Function)
    ensures
        compiles(f, code(ast@)),
{
    let n = ast.len();
    let first = if n > 0 {
        Some(0)
    } else {
        None
    };
    let setup = Flow::Do(
        Ins::Def(Var::StackPtr, Op::StackAddr),
        Box::new(
            Flow::Do(
                Ins::Def(Var::StackStart, Op::Copy(Operand::Var(Var::StackPtr))),
                Box::new(
                    Flow::Do(
                        Ins::Def(
                            Var::StackEnd,
                            Op::Add(Operand::Var(Var::StackStart), Operand::Const(STACK_BYTES)),
                        ),
                        Box::new(
                            Flow::Do(
                                Ins::Def(Var::R0, Op::Copy(Operand::Const(0))),
                                Box::new(
                                    Flow::Do(
                                        Ins::Def(Var::R1, Op::Copy(Operand::Const(0))),
                                        Box::new(connect_end(first)),
                                    ),
                                ),
                            ),
                        ),
                    ),
                ),
            ),
        ),
    );
    let mut blocks: Vec<Flow> = Vec::new();
    let mut i: usize = 0;
    while i < n
        invariant
            i <= n,
            n == ast.len(),
            blocks@.len() == i,
            forall|j: int|
                0 <= j < i ==> #[trigger] blocks@[j] == lowered(
                    code(ast@)[j].0,
                    code(ast@)[j].1,
                    block_after(j, n as nat),
                ),
        decreases n - i,
    {
        let next = if i + 1 < n {
            Some(i + 1)
        } else {
            None
        };
        blocks.push(translate_instruction(&ast[i], next));
        i += 1;
    }
    Function { entry: setup, blocks }
}

} // verus!
