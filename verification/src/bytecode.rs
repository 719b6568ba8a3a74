//! The compiled form of a Glass program.

use vstd::prelude::*;
use std::collections::HashMap;
use byte_string::ByteString;
use crate::bytes::pool_of;

verus! {

/// One instruction of the stack machine. An instruction is one byte, its
/// code, followed by one operand byte for `Duplicate` and by two for the
/// jumps and the pushes of names and constants.
#[derive(Clone, Copy, PartialEq, Eq, Structural, Debug)]
pub enum OpCode {
    // The language itself.
    Call,
    Construct,
    Duplicate,
    Instantiate,
    JumpIf,
    JumpIfNot,
    Load,
    LoadFrom,
    Pop,
    PushGlobal,
    PushLocal,
    PushMember,
    PushNumber,
    PushSelf,
    PushString,
    Return,
    Store,
    StoreKeep,
    // The built-in classes' methods.
    Add,
    Concat,
    Divide,
    Equal,
    Floor,
    GreaterEqual,
    GreaterThan,
    Index,
    InputChar,
    InputEof,
    InputLine,
    Length,
    LessEqual,
    LessThan,
    Modulo,
    Multiply,
    NotEqual,
    NumToString,
    OutputNumber,
    OutputString,
    StringEqual,
    StringReplace,
    StringSplit,
    StringToNum,
    Subtract,
    VarDelete,
    VarNew,
}

/// The id of a local name: a name that begins with an underscore.
pub type LocalName = u16;

/// The id of a member name: a name that begins with a lower-case letter.
pub type MemberName = u16;

/// The id of a global name: a name that begins with an upper-case letter.
pub type GlobalName = u16;

/// An offset into the instruction bytes.
pub type OpcodeIndex = usize;

impl OpCode {
    /// The byte that stands for the instruction: its place in the list above.
    pub open spec fn spec_code(self) -> u8 {
        match self {
            OpCode::Call => 0,
            OpCode::Construct => 1,
            OpCode::Duplicate => 2,
            OpCode::Instantiate => 3,
            OpCode::JumpIf => 4,
            OpCode::JumpIfNot => 5,
            OpCode::Load => 6,
            OpCode::LoadFrom => 7,
            OpCode::Pop => 8,
            OpCode::PushGlobal => 9,
            OpCode::PushLocal => 10,
            OpCode::PushMember => 11,
            OpCode::PushNumber => 12,
            OpCode::PushSelf => 13,
            OpCode::PushString => 14,
            OpCode::Return => 15,
            OpCode::Store => 16,
            OpCode::StoreKeep => 17,
            OpCode::Add => 18,
            OpCode::Concat => 19,
            OpCode::Divide => 20,
            OpCode::Equal => 21,
            OpCode::Floor => 22,
            OpCode::GreaterEqual => 23,
            OpCode::GreaterThan => 24,
            OpCode::Index => 25,
            OpCode::InputChar => 26,
            OpCode::InputEof => 27,
            OpCode::InputLine => 28,
            OpCode::Length => 29,
            OpCode::LessEqual => 30,
            OpCode::LessThan => 31,
            OpCode::Modulo => 32,
            OpCode::Multiply => 33,
            OpCode::NotEqual => 34,
            OpCode::NumToString => 35,
            OpCode::OutputNumber => 36,
            OpCode::OutputString => 37,
            OpCode::StringEqual => 38,
            OpCode::StringReplace => 39,
            OpCode::StringSplit => 40,
            OpCode::StringToNum => 41,
            OpCode::Subtract => 42,
            OpCode::VarDelete => 43,
            OpCode::VarNew => 44,
        }
    }

    /// The instruction that a byte stands for, if any.
    pub open spec fn spec_from_code(code: u8) -> Option<OpCode> {
        match code {
            0 => Some(OpCode::Call),
            1 => Some(OpCode::Construct),
            2 => Some(OpCode::Duplicate),
            3 => Some(OpCode::Instantiate),
            4 => Some(OpCode::JumpIf),
            5 => Some(OpCode::JumpIfNot),
            6 => Some(OpCode::Load),
            7 => Some(OpCode::LoadFrom),
            8 => Some(OpCode::Pop),
            9 => Some(OpCode::PushGlobal),
            10 => Some(OpCode::PushLocal),
            11 => Some(OpCode::PushMember),
            12 => Some(OpCode::PushNumber),
            13 => Some(OpCode::PushSelf),
            14 => Some(OpCode::PushString),
            15 => Some(OpCode::Return),
            16 => Some(OpCode::Store),
            17 => Some(OpCode::StoreKeep),
            18 => Some(OpCode::Add),
            19 => Some(OpCode::Concat),
            20 => Some(OpCode::Divide),
            21 => Some(OpCode::Equal),
            22 => Some(OpCode::Floor),
            23 => Some(OpCode::GreaterEqual),
            24 => Some(OpCode::GreaterThan),
            25 => Some(OpCode::Index),
            26 => Some(OpCode::InputChar),
            27 => Some(OpCode::InputEof),
            28 => Some(OpCode::InputLine),
            29 => Some(OpCode::Length),
            30 => Some(OpCode::LessEqual),
            31 => Some(OpCode::LessThan),
            32 => Some(OpCode::Modulo),
            33 => Some(OpCode::Multiply),
            34 => Some(OpCode::NotEqual),
            35 => Some(OpCode::NumToString),
            36 => Some(OpCode::OutputNumber),
            37 => Some(OpCode::OutputString),
            38 => Some(OpCode::StringEqual),
            39 => Some(OpCode::StringReplace),
            40 => Some(OpCode::StringSplit),
            41 => Some(OpCode::StringToNum),
            42 => Some(OpCode::Subtract),
            43 => Some(OpCode::VarDelete),
            44 => Some(OpCode::VarNew),
            _ => None,
        }
    }

    /// How many operand bytes follow the instruction's code.
    pub open spec fn spec_operands(self) -> nat {
        match self {
            OpCode::Duplicate => 1,
            OpCode::JumpIf
            | OpCode::JumpIfNot
            | OpCode::PushGlobal
            | OpCode::PushLocal
            | OpCode::PushMember
            | OpCode::PushNumber
            | OpCode::PushString => 2,
            _ => 0,
        }
    }

    /// The byte that stands for the instruction.
    pub fn code(self) -> (code: u8)
        ensures
            code == self.spec_code(),
    {
        match self {
            OpCode::Call => 0,
            OpCode::Construct => 1,
            OpCode::Duplicate => 2,
            OpCode::Instantiate => 3,
            OpCode::JumpIf => 4,
            OpCode::JumpIfNot => 5,
            OpCode::Load => 6,
            OpCode::LoadFrom => 7,
            OpCode::Pop => 8,
            OpCode::PushGlobal => 9,
            OpCode::PushLocal => 10,
            OpCode::PushMember => 11,
            OpCode::PushNumber => 12,
            OpCode::PushSelf => 13,
            OpCode::PushString => 14,
            OpCode::Return => 15,
            OpCode::Store => 16,
            OpCode::StoreKeep => 17,
            OpCode::Add => 18,
            OpCode::Concat => 19,
            OpCode::Divide => 20,
            OpCode::Equal => 21,
            OpCode::Floor => 22,
            OpCode::GreaterEqual => 23,
            OpCode::GreaterThan => 24,
            OpCode::Index => 25,
            OpCode::InputChar => 26,
            OpCode::InputEof => 27,
            OpCode::InputLine => 28,
            OpCode::Length => 29,
            OpCode::LessEqual => 30,
            OpCode::LessThan => 31,
            OpCode::Modulo => 32,
            OpCode::Multiply => 33,
            OpCode::NotEqual => 34,
            OpCode::NumToString => 35,
            OpCode::OutputNumber => 36,
            OpCode::OutputString => 37,
            OpCode::StringEqual => 38,
            OpCode::StringReplace => 39,
            OpCode::StringSplit => 40,
            OpCode::StringToNum => 41,
            OpCode::Subtract => 42,
            OpCode::VarDelete => 43,
            OpCode::VarNew => 44,
        }
    }

    /// The instruction that a byte stands for, if any.
    pub fn from_code(code: u8) -> (op: Option<OpCode>)
        ensures
            op == Self::spec_from_code(code),
    {
        match code {
            0 => Some(OpCode::Call),
            1 => Some(OpCode::Construct),
            2 => Some(OpCode::Duplicate),
            3 => Some(OpCode::Instantiate),
            4 => Some(OpCode::JumpIf),
            5 => Some(OpCode::JumpIfNot),
            6 => Some(OpCode::Load),
            7 => Some(OpCode::LoadFrom),
            8 => Some(OpCode::Pop),
            9 => Some(OpCode::PushGlobal),
            10 => Some(OpCode::PushLocal),
            11 => Some(OpCode::PushMember),
            12 => Some(OpCode::PushNumber),
            13 => Some(OpCode::PushSelf),
            14 => Some(OpCode::PushString),
            15 => Some(OpCode::Return),
            16 => Some(OpCode::Store),
            17 => Some(OpCode::StoreKeep),
            18 => Some(OpCode::Add),
            19 => Some(OpCode::Concat),
            20 => Some(OpCode::Divide),
            21 => Some(OpCode::Equal),
            22 => Some(OpCode::Floor),
            23 => Some(OpCode::GreaterEqual),
            24 => Some(OpCode::GreaterThan),
            25 => Some(OpCode::Index),
            26 => Some(OpCode::InputChar),
            27 => Some(OpCode::InputEof),
            28 => Some(OpCode::InputLine),
            29 => Some(OpCode::Length),
            30 => Some(OpCode::LessEqual),
            31 => Some(OpCode::LessThan),
            32 => Some(OpCode::Modulo),
            33 => Some(OpCode::Multiply),
            34 => Some(OpCode::NotEqual),
            35 => Some(OpCode::NumToString),
            36 => Some(OpCode::OutputNumber),
            37 => Some(OpCode::OutputString),
            38 => Some(OpCode::StringEqual),
            39 => Some(OpCode::StringReplace),
            40 => Some(OpCode::StringSplit),
            41 => Some(OpCode::StringToNum),
            42 => Some(OpCode::Subtract),
            43 => Some(OpCode::VarDelete),
            44 => Some(OpCode::VarNew),
            _ => None,
        }
    }

    /// How many operand bytes follow the instruction's code.
    pub fn operands(self) -> (n: usize)
        ensures
            n == self.spec_operands(),
    {
        match self {
            OpCode::Duplicate => 1,
            OpCode::JumpIf
            | OpCode::JumpIfNot
            | OpCode::PushGlobal
            | OpCode::PushLocal
            | OpCode::PushMember
            | OpCode::PushNumber
            | OpCode::PushString => 2,
            _ => 0,
        }
    }

    /// Every instruction is found again from its code, and no two share one.
    pub proof fn lemma_code_round_trip(self)
        ensures
            Self::spec_from_code(self.spec_code()) == Some(self),
            self.spec_code() < 45,
    {
    }

    /// A byte that stands for an instruction is that instruction's code.
    pub proof fn lemma_from_code_is_inverse(code: u8)
        ensures
            Self::spec_from_code(code) matches Some(op) ==> op.spec_code() == code,
            Self::spec_from_code(code) is Some <==> code < 45,
    {
    }
}

/// The value of a two-byte operand: high byte first.
pub open spec fn spec_short(hi: u8, lo: u8) -> u16 {
    (hi as int * 256 + lo as int) as u16
}

/// The high byte of a two-byte operand.
pub fn high_byte(value: u16) -> (hi: u8)
    ensures
        hi as int == value as int / 256,
{
    (value / 256) as u8
}

/// The low byte of a two-byte operand.
pub fn low_byte(value: u16) -> (lo: u8)
    ensures
        lo as int == value as int % 256,
        spec_short((value as int / 256) as u8, lo) == value,
{
    (value % 256) as u8
}

/// A class: where each of its functions begins, and where its constructor
/// begins if it has one.
pub struct ClassDefinition {
    pub funcs: HashMap<MemberName, OpcodeIndex>,
    pub constructor: Option<OpcodeIndex>,
}

/// What a class definition holds.
pub struct ClassView {
    pub funcs: Map<MemberName, OpcodeIndex>,
    pub constructor: Option<OpcodeIndex>,
}

impl View for ClassDefinition {
    type V = ClassView;

    open spec fn view(&self) -> ClassView {
        ClassView { funcs: self.funcs@, constructor: self.constructor }
    }
}

impl ClassDefinition {
    /// A class without functions.
    pub fn new() -> (class: ClassDefinition)
        ensures
            class@ == (ClassView { funcs: Map::empty(), constructor: None }),
    {
        ClassDefinition { funcs: HashMap::new(), constructor: None }
    }
}

/// A place in a source file. Lines and columns count from 1; the built-in
/// classes stand at line 0, column 0.
#[derive(Clone, Copy, PartialEq, Eq, Structural, Debug)]
pub struct FilePosition {
    pub line: usize,
    pub col: usize,
}

/// A compiled program.
pub struct BytecodeProgram {
    /// The global name of each class, in the order of `classes`.
    pub class_names: Vec<GlobalName>,
    pub classes: Vec<ClassDefinition>,
    /// The string constants; `PushString` names one by its index.
    pub strings: Vec<ByteString>,
    /// The number constants, each as the text of its literal; `PushNumber`
    /// names one by its index.
    pub numbers: Vec<Vec<u8>>,
    pub instructions: Vec<u8>,
    pub main_class: GlobalName,
    pub main_func: MemberName,
    /// The offset at which the code of each source file begins, in rising
    /// order.
    pub files: Vec<(OpcodeIndex, String)>,
    /// The offset at which the code of each source position begins, in
    /// rising order.
    pub positions: Vec<(OpcodeIndex, FilePosition)>,
}

/// What a compiled program holds.
pub struct ProgramView {
    pub class_names: Seq<GlobalName>,
    pub classes: Seq<ClassView>,
    pub strings: Seq<Seq<u8>>,
    pub numbers: Seq<Seq<u8>>,
    pub instructions: Seq<u8>,
    pub main_class: GlobalName,
    pub main_func: MemberName,
    pub files: Seq<(OpcodeIndex, Seq<char>)>,
    pub positions: Seq<(OpcodeIndex, FilePosition)>,
}

/// What a list of classes holds.
pub open spec fn classes_of(classes: Seq<ClassDefinition>) -> Seq<ClassView> {
    Seq::new(classes.len(), |i: int| classes[i]@)
}

/// What a list of byte vectors holds.
pub open spec fn texts_of(texts: Seq<Vec<u8>>) -> Seq<Seq<u8>> {
    Seq::new(texts.len(), |i: int| texts[i]@)
}

/// What a file table holds.
pub open spec fn files_of(files: Seq<(OpcodeIndex, String)>) -> Seq<(OpcodeIndex, Seq<char>)> {
    Seq::new(files.len(), |i: int| (files[i].0, files[i].1@))
}

impl View for BytecodeProgram {
    type V = ProgramView;

    open spec fn view(&self) -> ProgramView {
        ProgramView {
            class_names: self.class_names@,
            classes: classes_of(self.classes@),
            strings: pool_of(self.strings@),
            numbers: texts_of(self.numbers@),
            instructions: self.instructions@,
            main_class: self.main_class,
            main_func: self.main_func,
            files: files_of(self.files@),
            positions: self.positions@,
        }
    }
}

} // verus!
