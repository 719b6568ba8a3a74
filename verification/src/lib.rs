//! Glass: a compiler from Glass source text to bytecode, and the stack machine
//! that runs it.
//!
//! Glass is a small object-oriented, stack-based language. `parser` turns
//! source bytes into a `BytecodeProgram`; `interpreter` executes such a program
//! one instruction at a time. The machine never touches the outside world:
//! arithmetic on numbers, input and output are handed to the caller as
//! `Action`s and come back as `Reply`s.
//!
//! The data:
//! - `bytecode`: instructions, classes and the compiled program;
//! - `bytes`: byte strings;
//! - `number`: numbers as the bits of a double;
//! - `value`: the machine's values, its errors, actions and replies.
//!
//! The compiler:
//! - `reader`: source text, byte by byte, with the place of each byte;
//! - `lexer`: blanks and comments, names, integers and literals;
//! - `generator`: the bytecode under construction;
//! - `builtins`: the classes that every program begins with;
//! - `parser`: functions, classes and whole programs.
//!
//! The machine:
//! - `semantics`: what a step does, as a function on states;
//! - `interpreter`: the machine that computes that function;
//! - `trace`: from an instruction back to the source.
//!
//! What holds of all programs:
//! - `laws`: of single steps and of loops;
//! - `invariants`: of the generator's tables all through a parse;
//! - `safety` and `layout`: a compiled program never fails by its bytecode.

pub mod bytecode;
pub mod bytes;
pub mod number;
pub mod value;

pub mod reader;
pub mod lexer;
pub mod generator;
pub mod builtins;
pub mod parser;

pub mod semantics;
pub mod interpreter;
pub mod trace;

pub mod laws;
pub mod invariants;
pub mod safety;
pub mod layout;
