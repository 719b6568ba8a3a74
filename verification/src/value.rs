//! What the machine computes with, and what it exchanges with its caller.

use vstd::prelude::*;
use crate::bytecode::{GlobalName, LocalName, MemberName, OpcodeIndex};
use crate::number::Number;

verus! {

/// A value on the machine's stack or in one of its variables. Strings,
/// instances and classes are handles: indices into the machine's strings,
/// its instances, and the program's classes.
#[derive(Clone, Copy, PartialEq, Eq, Structural, Debug)]
pub enum Value {
    Class(usize),
    /// A function of an instance: the instance, and where the function begins.
    Function(usize, OpcodeIndex),
    GlobalName(GlobalName),
    Instance(usize),
    LocalName(LocalName),
    MemberName(MemberName),
    Number(Number),
    String(usize),
    /// The name of a variable made at run time, which no source text spells.
    Variable(usize),
}

impl Value {
    /// Whether the value names a place that holds a value.
    pub open spec fn is_name(self) -> bool {
        self is GlobalName || self is LocalName || self is MemberName || self is Variable
    }
}

/// Why a program stopped short.
#[derive(Clone, Copy, PartialEq, Eq, Structural, Debug)]
pub enum RuntimeError {
    /// The stack holds fewer values than the instruction takes.
    EmptyStack,
    /// A number does not name a place in the string.
    InvalidIndex,
    /// The caller could not write the output.
    OutputError,
    /// The name holds no value.
    UnsetName,
    /// A value is not of the kind that the instruction takes.
    WrongType,
    /// The bytecode is none that the compiler emits: an offset, a constant
    /// or a handle points nowhere.
    InvalidProgram,
}

/// The operations on two numbers that give a number.
#[derive(Clone, Copy, PartialEq, Eq, Structural, Debug)]
pub enum Arithmetic {
    Add,
    Subtract,
    Multiply,
    Divide,
    Modulo,
}

/// The operations on two numbers that give yes or no.
#[derive(Clone, Copy, PartialEq, Eq, Structural, Debug)]
pub enum Comparison {
    Equal,
    NotEqual,
    LessThan,
    GreaterThan,
    LessEqual,
    GreaterEqual,
}

/// What the machine asks of its caller after a step.
#[derive(PartialEq, Eq, Debug)]
pub enum Action {
    /// Nothing: the instruction is done.
    Continue,
    /// Nothing: the program has returned from its main function.
    Halt,
    /// The number that a literal spells. Answered by `Reply::Number`.
    Evaluate(Vec<u8>),
    /// `left op right`. Answered by `Reply::Number`.
    Compute(Arithmetic, Number, Number),
    /// The greatest whole number that is not above this one. Answered by
    /// `Reply::Number`.
    Floor(Number),
    /// Whether `left op right` holds. Answered by `Reply::Flag`.
    Compare(Comparison, Number, Number),
    /// To write these bytes. Answered by `Reply::Written`.
    WriteString(Vec<u8>),
    /// To write this number in decimal. Answered by `Reply::Written`.
    WriteNumber(Number),
    /// The next byte of the input. Answered by `Reply::Byte`.
    ReadChar,
    /// The next line of the input, its newline included. Answered by
    /// `Reply::Line`.
    ReadLine,
    /// Whether the input is at its end. Answered by `Reply::Flag`.
    TestEof,
}

/// What an `Action` holds.
pub enum ActionView {
    Continue,
    Halt,
    Evaluate(Seq<u8>),
    Compute(Arithmetic, Number, Number),
    Floor(Number),
    Compare(Comparison, Number, Number),
    WriteString(Seq<u8>),
    WriteNumber(Number),
    ReadChar,
    ReadLine,
    TestEof,
}

impl View for Action {
    type V = ActionView;

    open spec fn view(&self) -> ActionView {
        match *self {
            Action::Continue => ActionView::Continue,
            Action::Halt => ActionView::Halt,
            Action::Evaluate(text) => ActionView::Evaluate(text@),
            Action::Compute(op, left, right) => ActionView::Compute(op, left, right),
            Action::Floor(n) => ActionView::Floor(n),
            Action::Compare(op, left, right) => ActionView::Compare(op, left, right),
            Action::WriteString(bytes) => ActionView::WriteString(bytes@),
            Action::WriteNumber(n) => ActionView::WriteNumber(n),
            Action::ReadChar => ActionView::ReadChar,
            Action::ReadLine => ActionView::ReadLine,
            Action::TestEof => ActionView::TestEof,
        }
    }
}

/// What the caller hands to the machine with a step: the answer to the
/// action that the step before asked for, or nothing.
#[derive(PartialEq, Eq, Debug)]
pub enum Reply {
    Nothing,
    Number(Number),
    Flag(bool),
    /// A byte of input, or none at its end.
    Byte(Option<u8>),
    /// A line of input; empty at its end.
    Line(Vec<u8>),
    /// Whether the output was written.
    Written(bool),
}

/// What a `Reply` holds.
pub enum ReplyView {
    Nothing,
    Number(Number),
    Flag(bool),
    Byte(Option<u8>),
    Line(Seq<u8>),
    Written(bool),
}

impl View for Reply {
    type V = ReplyView;

    open spec fn view(&self) -> ReplyView {
        match *self {
            Reply::Nothing => ReplyView::Nothing,
            Reply::Number(n) => ReplyView::Number(n),
            Reply::Flag(flag) => ReplyView::Flag(flag),
            Reply::Byte(byte) => ReplyView::Byte(byte),
            Reply::Line(bytes) => ReplyView::Line(bytes@),
            Reply::Written(done) => ReplyView::Written(done),
        }
    }
}

/// The result of a step, with what its action holds.
pub open spec fn result_view(result: Result<Action, RuntimeError>) -> Result<ActionView, RuntimeError> {
    match result {
        Ok(action) => Ok(action@),
        Err(error) => Err(error),
    }
}

} // verus!
