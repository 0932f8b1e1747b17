//! An interpreter for AshPaper, a stack-and-register language whose programs
//! are English poems.
//!
//! Every line of a poem is one instruction, chosen by the line's surface
//! features: punctuation, capital letters, rhyme, alliteration and syllable
//! counts. The instructions run on a machine with two registers and a stack.
//!
//! A [`Lexicon`] holds what reading a poem needs: a pronouncing dictionary
//! and the patterns for capitals and similes. With it, [`parse`] reads a poem
//! and [`Program`] runs one. The module [`jit`] compiles a poem into blocks
//! for a native backend, and [`native`] says what those blocks mean and
//! proves that they do what the interpreter does.

pub mod error;
pub mod jit;
pub mod lexicon;
pub mod native;
pub mod number;
pub mod outside;
pub mod parser;
pub mod program;
pub mod syllables;
pub mod text;

pub use error::Error;

pub use lexicon::Lexicon;
pub use parser::{parse, InsType, Instruction, Register};
pub use program::{execute, Memory, Program};
pub use syllables::count_syllables;
