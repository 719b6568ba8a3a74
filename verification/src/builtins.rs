//! The built-in classes.
//!
//! Every program begins with five classes that no source text defines: `A`
//! for arithmetic, `I` for input, `O` for output, `S` for strings and `V` for
//! variables. They are compiled like any other class, before the first
//! source file, so that they take the first places of every table. The body
//! of each of their functions is one instruction of its own, and a return.

use vstd::prelude::*;
use crate::bytecode::{ClassDefinition, ClassView, FilePosition, OpCode};
use crate::bytes::new_byte_string;
use crate::generator::{BytecodeGenerator, GeneratorView, empty_generator};

verus! {

/// Where the built-in classes stand: in no file, at line 0, column 0.
pub open spec fn builtin_position() -> FilePosition {
    FilePosition { line: 0, col: 0 }
}

/// The functions of `A`, the class for arithmetic and comparison of numbers: the name and the
/// instruction of each.
pub open spec fn arithmetic_funcs() -> Seq<(Seq<u8>, OpCode)> {
    seq![
        (seq!['a' as u8], OpCode::Add),
        (seq!['d' as u8], OpCode::Divide),
        (seq!['e' as u8], OpCode::Equal),
        (seq!['f' as u8], OpCode::Floor),
        (seq!['g' as u8, 'e' as u8], OpCode::GreaterEqual),
        (seq!['g' as u8, 't' as u8], OpCode::GreaterThan),
        (seq!['l' as u8, 'e' as u8], OpCode::LessEqual),
        (seq!['l' as u8, 't' as u8], OpCode::LessThan),
        (seq!['m' as u8], OpCode::Multiply),
        (seq!['m' as u8, 'o' as u8, 'd' as u8], OpCode::Modulo),
        (seq!['n' as u8, 'e' as u8], OpCode::NotEqual),
        (seq!['s' as u8], OpCode::Subtract),
    ]
}

/// The functions of `I`, the class for input: the name and the
/// instruction of each.
pub open spec fn input_funcs() -> Seq<(Seq<u8>, OpCode)> {
    seq![
        (seq!['c' as u8], OpCode::InputChar),
        (seq!['e' as u8], OpCode::InputEof),
        (seq!['l' as u8], OpCode::InputLine),
    ]
}

/// The functions of `O`, the class for output: the name and the
/// instruction of each.
pub open spec fn output_funcs() -> Seq<(Seq<u8>, OpCode)> {
    seq![
        (seq!['o' as u8], OpCode::OutputString),
        (seq!['o' as u8, 'n' as u8], OpCode::OutputNumber),
    ]
}

/// The functions of `S`, the class for strings: the name and the
/// instruction of each.
pub open spec fn string_funcs() -> Seq<(Seq<u8>, OpCode)> {
    seq![
        (seq!['a' as u8], OpCode::Concat),
        (seq!['d' as u8], OpCode::StringSplit),
        (seq!['e' as u8], OpCode::StringEqual),
        (seq!['i' as u8], OpCode::Index),
        (seq!['l' as u8], OpCode::Length),
        (seq!['n' as u8, 's' as u8], OpCode::NumToString),
        (seq!['s' as u8, 'i' as u8], OpCode::StringReplace),
        (seq!['s' as u8, 'n' as u8], OpCode::StringToNum),
    ]
}

/// The functions of `V`, the class for variables made at run time: the name and the
/// instruction of each.
pub open spec fn variable_funcs() -> Seq<(Seq<u8>, OpCode)> {
    seq![
        (seq!['d' as u8], OpCode::VarDelete),
        (seq!['n' as u8], OpCode::VarNew),
    ]
}

/// The generator and the class after one built-in function was compiled.
pub open spec fn builtin_func(g: GeneratorView, class: ClassView, name: Seq<u8>, op: OpCode) -> (
    GeneratorView,
    ClassView,
) {
    let (named, changed) = g.with_func(class, name);
    (named.emit(op, builtin_position()).emit(OpCode::Return, builtin_position()), changed)
}

/// The generator and the class after the first `count` of `funcs` were
/// compiled.
pub open spec fn builtin_funcs(
    g: GeneratorView,
    class: ClassView,
    funcs: Seq<(Seq<u8>, OpCode)>,
    count: nat,
) -> (GeneratorView, ClassView)
    decreases count,
{
    if count == 0 {
        (g, class)
    } else {
        let (before, growing) = builtin_funcs(g, class, funcs, (count - 1) as nat);
        builtin_func(before, growing, funcs[count - 1].0, funcs[count - 1].1)
    }
}

/// The generator after a built-in class was compiled.
pub open spec fn builtin_class(g: GeneratorView, name: u8, funcs: Seq<(Seq<u8>, OpCode)>) -> GeneratorView {
    let (compiled, class) = builtin_funcs(
        g,
        ClassView { funcs: Map::empty(), constructor: None },
        funcs,
        funcs.len(),
    );
    compiled.with_class(class, seq![name])
}

/// The generator with which every parse begins: the built-in classes, and
/// nothing else.
pub open spec fn builtins() -> GeneratorView {
    let start = empty_generator().file("<builtin>"@);
    let a = builtin_class(start, 'A' as u8, arithmetic_funcs());
    let i = builtin_class(a, 'I' as u8, input_funcs());
    let o = builtin_class(i, 'O' as u8, output_funcs());
    let s = builtin_class(o, 'S' as u8, string_funcs());
    builtin_class(s, 'V' as u8, variable_funcs())
}

/// Compiles one function of a built-in class.
fn add_builtin(gen: &mut BytecodeGenerator, class: &mut ClassDefinition, name: Vec<u8>, opcode: OpCode)
    requires
        old(gen)@.wf(),
    ensures
        final(gen)@.wf(),
        (final(gen)@, final(class)@) == builtin_func(old(gen)@, old(class)@, name@, opcode),
{
    let builtin_pos = FilePosition { line: 0, col: 0 };
    let _ = gen.add_func(class, new_byte_string(name));
    gen.add_opcode(opcode, builtin_pos);
    gen.add_return(builtin_pos);
}

/// Closes a built-in class.
fn add_builtin_class(gen: &mut BytecodeGenerator, class: ClassDefinition, name: u8)
    requires
        old(gen)@.wf(),
    ensures
        final(gen)@.wf(),
        final(gen)@ == old(gen)@.with_class(class@, seq![name]),
{
    let mut bytes: Vec<u8> = Vec::new();
    bytes.push(name);
    assert(bytes@ =~= seq![name]);
    let _ = gen.add_class(class, new_byte_string(bytes));
}

/// Compiles the class `A`.
fn add_arithmetic_class(gen: &mut BytecodeGenerator)
    requires
        old(gen)@.wf(),
    ensures
        final(gen)@.wf(),
        final(gen)@ == builtin_class(old(gen)@, 'A' as u8, arithmetic_funcs()),
{
    let ghost start = gen@;
    let ghost funcs = arithmetic_funcs();
    let ghost empty = ClassView { funcs: Map::empty(), constructor: None };
    let mut math = ClassDefinition::new();
    assert((gen@, math@) == builtin_funcs(start, empty, funcs, 0));
    let name: Vec<u8> = vec!['a' as u8];
    assert(name@ =~= funcs[0].0 && funcs[0].1 == OpCode::Add);
    add_builtin(gen, &mut math, name, OpCode::Add);
    assert((gen@, math@) == builtin_funcs(start, empty, funcs, 1));
    let name: Vec<u8> = vec!['d' as u8];
    assert(name@ =~= funcs[1].0 && funcs[1].1 == OpCode::Divide);
    add_builtin(gen, &mut math, name, OpCode::Divide);
    assert((gen@, math@) == builtin_funcs(start, empty, funcs, 2));
    let name: Vec<u8> = vec!['e' as u8];
    assert(name@ =~= funcs[2].0 && funcs[2].1 == OpCode::Equal);
    add_builtin(gen, &mut math, name, OpCode::Equal);
    assert((gen@, math@) == builtin_funcs(start, empty, funcs, 3));
    let name: Vec<u8> = vec!['f' as u8];
    assert(name@ =~= funcs[3].0 && funcs[3].1 == OpCode::Floor);
    add_builtin(gen, &mut math, name, OpCode::Floor);
    assert((gen@, math@) == builtin_funcs(start, empty, funcs, 4));
    let name: Vec<u8> = vec!['g' as u8, 'e' as u8];
    assert(name@ =~= funcs[4].0 && funcs[4].1 == OpCode::GreaterEqual);
    add_builtin(gen, &mut math, name, OpCode::GreaterEqual);
    assert((gen@, math@) == builtin_funcs(start, empty, funcs, 5));
    let name: Vec<u8> = vec!['g' as u8, 't' as u8];
    assert(name@ =~= funcs[5].0 && funcs[5].1 == OpCode::GreaterThan);
    add_builtin(gen, &mut math, name, OpCode::GreaterThan);
    assert((gen@, math@) == builtin_funcs(start, empty, funcs, 6));
    let name: Vec<u8> = vec!['l' as u8, 'e' as u8];
    assert(name@ =~= funcs[6].0 && funcs[6].1 == OpCode::LessEqual);
    add_builtin(gen, &mut math, name, OpCode::LessEqual);
    assert((gen@, math@) == builtin_funcs(start, empty, funcs, 7));
    let name: Vec<u8> = vec!['l' as u8, 't' as u8];
    assert(name@ =~= funcs[7].0 && funcs[7].1 == OpCode::LessThan);
    add_builtin(gen, &mut math, name, OpCode::LessThan);
    assert((gen@, math@) == builtin_funcs(start, empty, funcs, 8));
    let name: Vec<u8> = vec!['m' as u8];
    assert(name@ =~= funcs[8].0 && funcs[8].1 == OpCode::Multiply);
    add_builtin(gen, &mut math, name, OpCode::Multiply);
    assert((gen@, math@) == builtin_funcs(start, empty, funcs, 9));
    let name: Vec<u8> = vec!['m' as u8, 'o' as u8, 'd' as u8];
    assert(name@ =~= funcs[9].0 && funcs[9].1 == OpCode::Modulo);
    add_builtin(gen, &mut math, name, OpCode::Modulo);
    assert((gen@, math@) == builtin_funcs(start, empty, funcs, 10));
    let name: Vec<u8> = vec!['n' as u8, 'e' as u8];
    assert(name@ =~= funcs[10].0 && funcs[10].1 == OpCode::NotEqual);
    add_builtin(gen, &mut math, name, OpCode::NotEqual);
    assert((gen@, math@) == builtin_funcs(start, empty, funcs, 11));
    let name: Vec<u8> = vec!['s' as u8];
    assert(name@ =~= funcs[11].0 && funcs[11].1 == OpCode::Subtract);
    add_builtin(gen, &mut math, name, OpCode::Subtract);
    assert((gen@, math@) == builtin_funcs(start, empty, funcs, 12));
    add_builtin_class(gen, math, 'A' as u8);
}

/// Compiles the class `I`.
fn add_input_class(gen: &mut BytecodeGenerator)
    requires
        old(gen)@.wf(),
    ensures
        final(gen)@.wf(),
        final(gen)@ == builtin_class(old(gen)@, 'I' as u8, input_funcs()),
{
    let ghost start = gen@;
    let ghost funcs = input_funcs();
    let ghost empty = ClassView { funcs: Map::empty(), constructor: None };
    let mut input = ClassDefinition::new();
    assert((gen@, input@) == builtin_funcs(start, empty, funcs, 0));
    let name: Vec<u8> = vec!['c' as u8];
    assert(name@ =~= funcs[0].0 && funcs[0].1 == OpCode::InputChar);
    add_builtin(gen, &mut input, name, OpCode::InputChar);
    assert((gen@, input@) == builtin_funcs(start, empty, funcs, 1));
    let name: Vec<u8> = vec!['e' as u8];
    assert(name@ =~= funcs[1].0 && funcs[1].1 == OpCode::InputEof);
    add_builtin(gen, &mut input, name, OpCode::InputEof);
    assert((gen@, input@) == builtin_funcs(start, empty, funcs, 2));
    let name: Vec<u8> = vec!['l' as u8];
    assert(name@ =~= funcs[2].0 && funcs[2].1 == OpCode::InputLine);
    add_builtin(gen, &mut input, name, OpCode::InputLine);
    assert((gen@, input@) == builtin_funcs(start, empty, funcs, 3));
    add_builtin_class(gen, input, 'I' as u8);
}

/// Compiles the class `O`.
fn add_output_class(gen: &mut BytecodeGenerator)
    requires
        old(gen)@.wf(),
    ensures
        final(gen)@.wf(),
        final(gen)@ == builtin_class(old(gen)@, 'O' as u8, output_funcs()),
{
    let ghost start = gen@;
    let ghost funcs = output_funcs();
    let ghost empty = ClassView { funcs: Map::empty(), constructor: None };
    let mut output = ClassDefinition::new();
    assert((gen@, output@) == builtin_funcs(start, empty, funcs, 0));
    let name: Vec<u8> = vec!['o' as u8];
    assert(name@ =~= funcs[0].0 && funcs[0].1 == OpCode::OutputString);
    add_builtin(gen, &mut output, name, OpCode::OutputString);
    assert((gen@, output@) == builtin_funcs(start, empty, funcs, 1));
    let name: Vec<u8> = vec!['o' as u8, 'n' as u8];
    assert(name@ =~= funcs[1].0 && funcs[1].1 == OpCode::OutputNumber);
    add_builtin(gen, &mut output, name, OpCode::OutputNumber);
    assert((gen@, output@) == builtin_funcs(start, empty, funcs, 2));
    add_builtin_class(gen, output, 'O' as u8);
}

/// Compiles the class `S`.
fn add_string_class(gen: &mut BytecodeGenerator)
    requires
        old(gen)@.wf(),
    ensures
        final(gen)@.wf(),
        final(gen)@ == builtin_class(old(gen)@, 'S' as u8, string_funcs()),
{
    let ghost start = gen@;
    let ghost funcs = string_funcs();
    let ghost empty = ClassView { funcs: Map::empty(), constructor: None };
    let mut string = ClassDefinition::new();
    assert((gen@, string@) == builtin_funcs(start, empty, funcs, 0));
    let name: Vec<u8> = vec!['a' as u8];
    assert(name@ =~= funcs[0].0 && funcs[0].1 == OpCode::Concat);
    add_builtin(gen, &mut string, name, OpCode::Concat);
    assert((gen@, string@) == builtin_funcs(start, empty, funcs, 1));
    let name: Vec<u8> = vec!['d' as u8];
    assert(name@ =~= funcs[1].0 && funcs[1].1 == OpCode::StringSplit);
    add_builtin(gen, &mut string, name, OpCode::StringSplit);
    assert((gen@, string@) == builtin_funcs(start, empty, funcs, 2));
    let name: Vec<u8> = vec!['e' as u8];
    assert(name@ =~= funcs[2].0 && funcs[2].1 == OpCode::StringEqual);
    add_builtin(gen, &mut string, name, OpCode::StringEqual);
    assert((gen@, string@) == builtin_funcs(start, empty, funcs, 3));
    let name: Vec<u8> = vec!['i' as u8];
    assert(name@ =~= funcs[3].0 && funcs[3].1 == OpCode::Index);
    add_builtin(gen, &mut string, name, OpCode::Index);
    assert((gen@, string@) == builtin_funcs(start, empty, funcs, 4));
    let name: Vec<u8> = vec!['l' as u8];
    assert(name@ =~= funcs[4].0 && funcs[4].1 == OpCode::Length);
    add_builtin(gen, &mut string, name, OpCode::Length);
    assert((gen@, string@) == builtin_funcs(start, empty, funcs, 5));
    let name: Vec<u8> = vec!['n' as u8, 's' as u8];
    assert(name@ =~= funcs[5].0 && funcs[5].1 == OpCode::NumToString);
    add_builtin(gen, &mut string, name, OpCode::NumToString);
    assert((gen@, string@) == builtin_funcs(start, empty, funcs, 6));
    let name: Vec<u8> = vec!['s' as u8, 'i' as u8];
    assert(name@ =~= funcs[6].0 && funcs[6].1 == OpCode::StringReplace);
    add_builtin(gen, &mut string, name, OpCode::StringReplace);
    assert((gen@, string@) == builtin_funcs(start, empty, funcs, 7));
    let name: Vec<u8> = vec!['s' as u8, 'n' as u8];
    assert(name@ =~= funcs[7].0 && funcs[7].1 == OpCode::StringToNum);
    add_builtin(gen, &mut string, name, OpCode::StringToNum);
    assert((gen@, string@) == builtin_funcs(start, empty, funcs, 8));
    add_builtin_class(gen, string, 'S' as u8);
}

/// Compiles the class `V`.
fn add_variable_class(gen: &mut BytecodeGenerator)
    requires
        old(gen)@.wf(),
    ensures
        final(gen)@.wf(),
        final(gen)@ == builtin_class(old(gen)@, 'V' as u8, variable_funcs()),
{
    let ghost start = gen@;
    let ghost funcs = variable_funcs();
    let ghost empty = ClassView { funcs: Map::empty(), constructor: None };
    let mut vars = ClassDefinition::new();
    assert((gen@, vars@) == builtin_funcs(start, empty, funcs, 0));
    let name: Vec<u8> = vec!['d' as u8];
    assert(name@ =~= funcs[0].0 && funcs[0].1 == OpCode::VarDelete);
    add_builtin(gen, &mut vars, name, OpCode::VarDelete);
    assert((gen@, vars@) == builtin_funcs(start, empty, funcs, 1));
    let name: Vec<u8> = vec!['n' as u8];
    assert(name@ =~= funcs[1].0 && funcs[1].1 == OpCode::VarNew);
    add_builtin(gen, &mut vars, name, OpCode::VarNew);
    assert((gen@, vars@) == builtin_funcs(start, empty, funcs, 2));
    add_builtin_class(gen, vars, 'V' as u8);
}

/// Compiles the built-in classes.
pub fn add_builtin_classes(gen: &mut BytecodeGenerator)
    requires
        old(gen)@ == empty_generator(),
    ensures
        final(gen)@.wf(),
        final(gen)@ == builtins(),
{
    gen.set_filename("<builtin>".to_string());
    add_arithmetic_class(gen);
    add_input_class(gen);
    add_output_class(gen);
    add_string_class(gen);
    add_variable_class(gen);
}

} // verus!
