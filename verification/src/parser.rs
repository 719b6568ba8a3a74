//! The compiler: from source text to a `BytecodeProgram`.

use vstd::prelude::*;
use byte_string::ByteString;
use crate::builtins::{add_builtin_classes, builtins};
use crate::bytecode::{BytecodeProgram, ClassDefinition, ClassView, FilePosition, OpCode, OpcodeIndex, ProgramView};
use crate::bytes::{bytes_of, duplicate, new_byte_string};
use crate::generator::{BytecodeGenerator, GeneratorView};
use crate::invariants::{distinct, law_compiled_program_starts, law_compiled_tables_rise, offsets_rise};
use crate::lexer::{
    escaped, find, get_integer, integer_of, is_digit, is_lower, is_number_literal, is_upper,
    is_valid_name, name_at, parse_name, read_string, read_until, skip, skip_whitespace, string_at,
    valid_name, valid_number,
};
use crate::layout::law_compiled_is_well_formed;
use crate::reader::{CodeReader, position_at};
use crate::safety::well_formed;
use crate::semantics::start;
use crate::trace::{file_offsets, position_offsets, rising};

verus! {

/// Why a source text is no program.
#[derive(Clone, Copy, PartialEq, Eq, Structural, Debug)]
pub enum ParseError {
    DuplicateClassName,
    DuplicateFuncName,
    IndexTooBig,
    InvalidChar,
    InvalidInteger,
    InvalidNumber,
    InvalidParentheses,
    InvalidString,
    LoopTooLong,
    MissingClassName,
    MissingFuncName,
    MissingLoopName,
    MissingMainClass,
    MissingMainFunc,
    UnendedClass,
    UnendedFunc,
    UnendedLoop,
    UnendedNumber,
    UnendedParentheses,
    UnendedString,
    UnexpectedName,
    TooManyGlobals,
    TooManyMembers,
    TooManyNumbers,
    TooManyStrings,
}

/// The loops that are open while a function body is read: the name that
/// each tests and the offset at which its body begins, the innermost last.
pub type Loops = Seq<(Seq<u8>, OpcodeIndex)>;

/// What reading one piece of a function body gives: the offset behind it,
/// the generator, and the open loops.
pub type Piece = Result<(nat, GeneratorView, Loops), ParseError>;

/// The piece is one that changes the generator and nothing else.
pub open spec fn emitted(next: nat, g: Result<GeneratorView, ParseError>, loops: Loops) -> Piece {
    match g {
        Err(error) => Err(error),
        Ok(generator) => Ok((next, generator, loops)),
    }
}

/// `/name`: the head of a loop. Loads the name, and jumps over the loop if
/// it holds nothing that counts as true.
pub open spec fn loop_head(src: Seq<u8>, start: nat, g: GeneratorView, loops: Loops) -> Piece {
    let pos = position_at(src, start);
    match name_at(src, start + 1) {
        None => Err(ParseError::MissingLoopName),
        Some((name, next)) => match g.push_name(name, pos) {
            Err(error) => Err(error),
            Ok(pushed) => {
                let head = pushed.emit(OpCode::Load, pos).jump_if_not(pos);
                Ok((next, head, loops.push((name, head.here()))))
            },
        },
    }
}

/// `\`: the foot of the innermost open loop. Loads the loop's name again,
/// and jumps back to the loop's body if it holds something that counts as
/// true.
pub open spec fn loop_foot(src: Seq<u8>, start: nat, g: GeneratorView, loops: Loops) -> Piece {
    let pos = position_at(src, start);
    if loops.len() == 0 {
        Err(ParseError::InvalidChar)
    } else {
        match g.push_name(loops.last().0, pos) {
            Err(error) => Err(error),
            Ok(pushed) => emitted(
                start + 1,
                pushed.emit(OpCode::Load, pos).jump_if(loops.last().1, pos),
                loops.drop_last(),
            ),
        }
    }
}

/// `(...)`: the push of a name, or if what stands in the parentheses is no
/// name, the copy of the stack value at the depth that it spells.
pub open spec fn parenthesised(src: Seq<u8>, start: nat, g: GeneratorView, loops: Loops) -> Piece {
    let pos = position_at(src, start);
    let close = find(src, start + 1, ')' as u8);
    let content = src.subrange(start + 1 as int, close as int);
    if close >= src.len() {
        Err(ParseError::UnendedParentheses)
    } else if is_valid_name(content) {
        emitted(close + 1, g.push_name(content, pos), loops)
    } else {
        match integer_of(content) {
            Err(error) => Err(error),
            Ok(depth) => Ok((close + 1, g.emit(OpCode::Duplicate, pos).byte(depth), loops)),
        }
    }
}

/// `"..."`: the push of a string.
pub open spec fn string_piece(src: Seq<u8>, start: nat, g: GeneratorView, loops: Loops) -> Piece {
    match string_at(src, start + 1, Seq::empty()) {
        None => Err(ParseError::UnendedString),
        Some((bytes, next)) => emitted(next, g.push_string(bytes, position_at(src, start)), loops),
    }
}

/// `<...>`: the push of a number.
pub open spec fn number_piece(src: Seq<u8>, start: nat, g: GeneratorView, loops: Loops) -> Piece {
    let close = find(src, start + 1, '>' as u8);
    let text = src.subrange(start + 1 as int, close as int);
    if close >= src.len() {
        Err(ParseError::UnendedNumber)
    } else if !is_number_literal(text) {
        Err(ParseError::InvalidNumber)
    } else {
        emitted(close + 1, g.push_number(text, position_at(src, start)), loops)
    }
}

/// The piece of a function body that begins with the byte at `start`.
pub open spec fn piece(src: Seq<u8>, start: nat, g: GeneratorView, loops: Loops) -> Piece {
    let c = src[start as int];
    let pos = position_at(src, start);
    let next = start + 1;
    if c == ',' as u8 {
        Ok((next, g.emit(OpCode::Pop, pos), loops))
    } else if c == '^' as u8 {
        Ok((next, g.emit(OpCode::Return, pos), loops))
    } else if c == '*' as u8 {
        Ok((next, g.emit(OpCode::Load, pos), loops))
    } else if c == '=' as u8 {
        Ok((next, g.emit(OpCode::Store, pos), loops))
    } else if c == '?' as u8 {
        Ok((next, g.emit(OpCode::Call, pos), loops))
    } else if c == '.' as u8 {
        Ok((next, g.emit(OpCode::LoadFrom, pos), loops))
    } else if is_lower(c) {
        emitted(next, g.push_member(seq![c], pos), loops)
    } else if is_upper(c) {
        emitted(next, g.push_global(seq![c], pos), loops)
    } else if is_digit(c) {
        Ok((next, g.emit(OpCode::Duplicate, pos).byte((c - '0' as u8) as u8), loops))
    } else if c == '$' as u8 {
        Ok((next, g.emit(OpCode::PushSelf, pos).emit(OpCode::Store, pos), loops))
    } else if c == '!' as u8 {
        Ok(
            (
                next,
                g.emit(OpCode::Load, pos).emit(OpCode::Instantiate, pos).emit(OpCode::StoreKeep, pos).emit(
                    OpCode::Construct,
                    pos,
                ),
                loops,
            ),
        )
    } else if c == '/' as u8 {
        loop_head(src, start, g, loops)
    } else if c == '\\' as u8 {
        loop_foot(src, start, g, loops)
    } else if c == '(' as u8 {
        parenthesised(src, start, g, loops)
    } else if c == '"' as u8 {
        string_piece(src, start, g, loops)
    } else if c == '<' as u8 {
        number_piece(src, start, g, loops)
    } else {
        Err(ParseError::InvalidChar)
    }
}

/// The rest of a function body from `at` on: pieces up to the closing `]`,
/// which stands for a return. Gives the offset behind the `]` and the
/// generator. No loop may be open at the `]`.
pub open spec fn body(src: Seq<u8>, at: nat, g: GeneratorView, loops: Loops) -> Result<
    (nat, GeneratorView),
    ParseError,
>
    decreases src.len() - at,
{
    let start = skip(src, at, false);
    if start >= src.len() {
        Err(ParseError::UnendedFunc)
    } else if src[start as int] == ']' as u8 {
        if loops.len() > 0 {
            Err(ParseError::UnendedLoop)
        } else {
            Ok((start + 1, g.emit(OpCode::Return, position_at(src, start))))
        }
    } else {
        match piece(src, start, g, loops) {
            Err(error) => Err(error),
            Ok((next, generator, open)) => {
                proof {
                    lemma_skip_bounds(src, at, false);
                    lemma_piece_advances(src, start, g, loops);
                }
                body(src, next, generator, open)
            },
        }
    }
}

/// The function whose name begins at or after `at`, behind the opening `[`.
/// Gives the offset behind the closing `]`, the generator, and the class
/// with the function.
pub open spec fn function(src: Seq<u8>, at: nat, g: GeneratorView, class: ClassView) -> Result<
    (nat, GeneratorView, ClassView),
    ParseError,
> {
    match name_at(src, at) {
        None => Err(ParseError::MissingFuncName),
        Some((name, next)) => match g.add_func(class, name) {
            Err(error) => Err(error),
            Ok((named, changed)) => match body(src, next, named, Seq::empty()) {
                Err(error) => Err(error),
                Ok((end, generator)) => Ok((end, generator, changed)),
            },
        },
    }
}

/// The rest of the class named `name` from `at` on: functions up to the
/// closing `}`. Gives the offset behind the `}` and the generator with the
/// class.
pub open spec fn class_body(
    src: Seq<u8>,
    at: nat,
    g: GeneratorView,
    class: ClassView,
    name: Seq<u8>,
) -> Result<(nat, GeneratorView), ParseError>
    decreases src.len() - at,
{
    let start = skip(src, at, false);
    if start >= src.len() {
        Err(ParseError::UnendedClass)
    } else if src[start as int] == '[' as u8 {
        match function(src, start + 1, g, class) {
            Err(error) => Err(error),
            Ok((next, generator, changed)) => {
                proof {
                    lemma_skip_bounds(src, at, false);
                    lemma_function_advances(src, start + 1, g, class);
                }
                class_body(src, next, generator, changed, name)
            },
        }
    } else if src[start as int] == '}' as u8 {
        match g.add_class(class, name) {
            Err(error) => Err(error),
            Ok(generator) => Ok((start + 1, generator)),
        }
    } else {
        Err(ParseError::InvalidChar)
    }
}

/// The class whose name begins at or after `at`, behind the opening `{`.
pub open spec fn class_at(src: Seq<u8>, at: nat, g: GeneratorView) -> Result<(nat, GeneratorView), ParseError> {
    match name_at(src, at) {
        None => Err(ParseError::MissingClassName),
        Some((name, next)) => class_body(
            src,
            next,
            g,
            ClassView { funcs: Map::empty(), constructor: None },
            name,
        ),
    }
}

/// The rest of a source file from `at` on: classes to the end of the text.
pub open spec fn classes_from(src: Seq<u8>, at: nat, g: GeneratorView) -> Result<GeneratorView, ParseError>
    decreases src.len() - at,
{
    let start = skip(src, at, false);
    if start >= src.len() {
        Ok(g)
    } else if src[start as int] == '{' as u8 {
        match class_at(src, start + 1, g) {
            Err(error) => Err(error),
            Ok((next, generator)) => {
                proof {
                    lemma_skip_bounds(src, at, false);
                    lemma_class_advances(src, start + 1, g);
                }
                classes_from(src, next, generator)
            },
        }
    } else {
        Err(ParseError::InvalidChar)
    }
}

/// The source files from the `from`th on, each with its name, compiled one
/// after the other into the same generator.
pub open spec fn files_from(files: Seq<(Seq<char>, Seq<u8>)>, from: nat, g: GeneratorView) -> Result<
    GeneratorView,
    ParseError,
>
    decreases files.len() - from,
{
    if from >= files.len() {
        Ok(g)
    } else {
        match classes_from(files[from as int].1, 0, g.file(files[from as int].0)) {
            Err(error) => Err(error),
            Ok(generator) => files_from(files, from + 1, generator),
        }
    }
}

/// The program that source files are: the built-in classes and the classes
/// of the files, in this order.
pub open spec fn program_of(files: Seq<(Seq<char>, Seq<u8>)>) -> Result<ProgramView, ParseError> {
    match files_from(files, 0, builtins()) {
        Err(error) => Err(error),
        Ok(generator) => generator.program(),
    }
}

/// Skipping ends at or behind its begin, and not behind the text.
pub proof fn lemma_skip_bounds(src: Seq<u8>, at: nat, in_comment: bool)
    ensures
        at <= src.len() ==> at <= skip(src, at, in_comment) <= src.len(),
        at > src.len() ==> skip(src, at, in_comment) == src.len(),
    decreases src.len() - at,
{
    if at < src.len() {
        lemma_skip_bounds(src, at + 1, true);
        lemma_skip_bounds(src, at + 1, false);
    }
}

/// A byte is found at or behind the begin of the search, and not behind the
/// text.
pub proof fn lemma_find_bounds(src: Seq<u8>, from: nat, stop: u8)
    ensures
        from <= src.len() ==> from <= find(src, from, stop) <= src.len(),
    decreases src.len() - from,
{
    if from < src.len() {
        lemma_find_bounds(src, from + 1, stop);
    }
}

/// A string literal ends behind its begin.
pub proof fn lemma_string_bounds(src: Seq<u8>, at: nat, read: Seq<u8>)
    ensures
        string_at(src, at, read) matches Some((_, next)) ==> at < next <= src.len(),
    decreases src.len() - at,
{
    if at < src.len() {
        lemma_string_bounds(src, at + 1, read.push(src[at as int]));
        if at + 1 < src.len() {
            lemma_string_bounds(src, at + 2, read.push(escaped(src[at + 1 as int])));
        }
    }
}

/// A name ends behind its begin.
pub proof fn lemma_name_bounds(src: Seq<u8>, at: nat)
    requires
        at <= src.len(),
    ensures
        name_at(src, at) matches Some((_, next)) ==> at < next <= src.len(),
{
    lemma_skip_bounds(src, at, false);
    lemma_find_bounds(src, skip(src, at, false) + 1, ')' as u8);
}

/// A piece ends behind its begin.
pub proof fn lemma_piece_advances(src: Seq<u8>, start: nat, g: GeneratorView, loops: Loops)
    requires
        start < src.len(),
    ensures
        piece(src, start, g, loops) matches Ok((next, _, _)) ==> start < next <= src.len(),
{
    lemma_name_bounds(src, start + 1);
    lemma_find_bounds(src, start + 1, ')' as u8);
    lemma_find_bounds(src, start + 1, '>' as u8);
    lemma_string_bounds(src, start + 1, Seq::empty());
}

/// A function body ends behind its begin.
pub proof fn lemma_body_advances(src: Seq<u8>, at: nat, g: GeneratorView, loops: Loops)
    requires
        at <= src.len(),
    ensures
        body(src, at, g, loops) matches Ok((end, _)) ==> at < end <= src.len(),
    decreases src.len() - at,
{
    lemma_skip_bounds(src, at, false);
    let start = skip(src, at, false);
    if start < src.len() && src[start as int] != ']' as u8 {
        lemma_piece_advances(src, start, g, loops);
        match piece(src, start, g, loops) {
            Err(_) => {},
            Ok((next, generator, open)) => {
                lemma_body_advances(src, next, generator, open);
            },
        }
    }
}

/// A function ends behind its begin.
pub proof fn lemma_function_advances(src: Seq<u8>, at: nat, g: GeneratorView, class: ClassView)
    requires
        at <= src.len(),
    ensures
        function(src, at, g, class) matches Ok((end, _, _)) ==> at < end <= src.len(),
{
    lemma_name_bounds(src, at);
    match name_at(src, at) {
        None => {},
        Some((name, next)) => match g.add_func(class, name) {
            Err(_) => {},
            Ok((named, _)) => {
                lemma_body_advances(src, next, named, Seq::empty());
            },
        },
    }
}

/// The rest of a class ends behind its begin.
pub proof fn lemma_class_body_advances(
    src: Seq<u8>,
    at: nat,
    g: GeneratorView,
    class: ClassView,
    name: Seq<u8>,
)
    requires
        at <= src.len(),
    ensures
        class_body(src, at, g, class, name) matches Ok((end, _)) ==> at < end <= src.len(),
    decreases src.len() - at,
{
    lemma_skip_bounds(src, at, false);
    let start = skip(src, at, false);
    if start < src.len() && src[start as int] == '[' as u8 {
        lemma_function_advances(src, start + 1, g, class);
        match function(src, start + 1, g, class) {
            Err(_) => {},
            Ok((next, generator, changed)) => {
                lemma_class_body_advances(src, next, generator, changed, name);
            },
        }
    }
}

/// A class ends behind its begin.
pub proof fn lemma_class_advances(src: Seq<u8>, at: nat, g: GeneratorView)
    requires
        at <= src.len(),
    ensures
        class_at(src, at, g) matches Ok((end, _)) ==> at < end <= src.len(),
{
    lemma_name_bounds(src, at);
    match name_at(src, at) {
        None => {},
        Some((name, next)) => {
            lemma_class_body_advances(
                src,
                next,
                g,
                ClassView { funcs: Map::empty(), constructor: None },
                name,
            );
        },
    }
}

/// What the loops on a stack hold.
pub open spec fn loops_of(stack: Seq<(ByteString, usize)>) -> Loops {
    Seq::new(stack.len(), |i: int| (bytes_of(stack[i].0), stack[i].1))
}

/// The body of every open loop begins behind a forward jump, and not behind
/// what has been emitted.
pub open spec fn loops_fit(loops: Loops, emitted: nat) -> bool {
    forall|i: int| 0 <= i < loops.len() ==> 3 <= (#[trigger] loops[i]).1 <= emitted
}

/// A piece was read as stated: the reader stands behind it, and the
/// generator and the open loops are what it gives.
pub open spec fn is_piece(
    stated: Piece,
    r: Result<(), ParseError>,
    at: usize,
    g: GeneratorView,
    loops: Loops,
) -> bool {
    match stated {
        Ok((next, generator, open)) => r is Ok && at == next && g == generator && loops == open,
        Err(error) => r == Err::<(), ParseError>(error),
    }
}

/// Reads the head of a loop, behind its `/`.
fn parse_loop_head(
    reader: &mut CodeReader,
    gen: &mut BytecodeGenerator,
    loop_stack: &mut Vec<(ByteString, usize)>,
    pos: FilePosition,
) -> (r: Result<(), ParseError>)
    requires
        old(reader).wf(),
        old(gen)@.wf(),
        old(reader).at >= 1,
        pos == position_at(old(reader).code@, (old(reader).at - 1) as nat),
        loops_fit(loops_of(old(loop_stack)@), old(gen)@.instructions.len()),
    ensures
        final(reader).wf(),
        final(reader).code == old(reader).code,
        final(reader).at >= old(reader).at,
        final(gen)@.wf(),
        r is Ok ==> loops_fit(loops_of(final(loop_stack)@), final(gen)@.instructions.len()),
        is_piece(
            loop_head(
                old(reader).code@,
                (old(reader).at - 1) as nat,
                old(gen)@,
                loops_of(old(loop_stack)@),
            ),
            r,
            final(reader).at,
            final(gen)@,
            loops_of(final(loop_stack)@),
        ),
{
    let loop_name: ByteString = match parse_name(reader) {
        Some(name) => name,
        None => {
            return Err(ParseError::MissingLoopName);
        },
    };
    let kept: ByteString = duplicate(&loop_name);
    match gen.add_push_name(loop_name, pos) {
        Err(error) => {
            return Err(error);
        },
        Ok(()) => {},
    }
    gen.add_load(pos);
    let loop_start: usize = gen.add_jump_if_not(pos);
    loop_stack.push((kept, loop_start));
    assert(loops_of(loop_stack@) =~= loops_of(old(loop_stack)@).push((bytes_of(kept), loop_start)));
    Ok(())
}

/// Reads the foot of a loop, behind its `\`.
fn parse_loop_foot(
    reader: &mut CodeReader,
    gen: &mut BytecodeGenerator,
    loop_stack: &mut Vec<(ByteString, usize)>,
    pos: FilePosition,
) -> (r: Result<(), ParseError>)
    requires
        old(reader).wf(),
        old(gen)@.wf(),
        old(reader).at >= 1,
        pos == position_at(old(reader).code@, (old(reader).at - 1) as nat),
        loops_fit(loops_of(old(loop_stack)@), old(gen)@.instructions.len()),
    ensures
        final(reader).wf(),
        final(reader).code == old(reader).code,
        final(reader).at >= old(reader).at,
        final(gen)@.wf(),
        r is Ok ==> loops_fit(loops_of(final(loop_stack)@), final(gen)@.instructions.len()),
        is_piece(
            loop_foot(
                old(reader).code@,
                (old(reader).at - 1) as nat,
                old(gen)@,
                loops_of(old(loop_stack)@),
            ),
            r,
            final(reader).at,
            final(gen)@,
            loops_of(final(loop_stack)@),
        ),
{
    match loop_stack.pop() {
        None => Err(ParseError::InvalidChar),
        Some((loop_name, loop_start)) => {
            assert(loops_of(old(loop_stack)@).last() == (bytes_of(loop_name), loop_start));
            assert(loops_of(loop_stack@) =~= loops_of(old(loop_stack)@).drop_last());
            match gen.add_push_name(loop_name, pos) {
                Err(error) => {
                    return Err(error);
                },
                Ok(()) => {},
            }
            gen.add_load(pos);
            gen.add_jump_if(loop_start, pos)
        },
    }
}

/// Reads what stands in parentheses, behind the `(`.
fn parse_parenthesised(reader: &mut CodeReader, gen: &mut BytecodeGenerator, pos: FilePosition) -> (r:
    Result<(), ParseError>)
    requires
        old(reader).wf(),
        old(gen)@.wf(),
        old(reader).at >= 1,
        pos == position_at(old(reader).code@, (old(reader).at - 1) as nat),
    ensures
        final(reader).wf(),
        final(reader).code == old(reader).code,
        final(reader).at >= old(reader).at,
        final(gen)@.wf(),
        r is Ok ==> final(gen)@.instructions.len() >= old(gen)@.instructions.len(),
        forall|loops: Loops|
            is_piece(
                #[trigger] parenthesised(old(reader).code@, (old(reader).at - 1) as nat, old(gen)@, loops),
                r,
                final(reader).at,
                final(gen)@,
                loops,
            ),
{
    let name: ByteString = match read_until(reader, ')' as u8) {
        Some(bytes) => new_byte_string(bytes),
        None => {
            return Err(ParseError::UnendedParentheses);
        },
    };
    if valid_name(&name) {
        gen.add_push_name(name, pos)
    } else {
        match get_integer(&name) {
            Err(error) => Err(error),
            Ok(depth) => {
                gen.add_duplicate(depth, pos);
                Ok(())
            },
        }
    }
}

/// Reads a string literal, behind its opening quote.
fn parse_string(reader: &mut CodeReader, gen: &mut BytecodeGenerator, pos: FilePosition) -> (r: Result<
    (),
    ParseError,
>)
    requires
        old(reader).wf(),
        old(gen)@.wf(),
        old(reader).at >= 1,
        pos == position_at(old(reader).code@, (old(reader).at - 1) as nat),
    ensures
        final(reader).wf(),
        final(reader).code == old(reader).code,
        final(reader).at >= old(reader).at,
        final(gen)@.wf(),
        r is Ok ==> final(gen)@.instructions.len() >= old(gen)@.instructions.len(),
        forall|loops: Loops|
            is_piece(
                #[trigger] string_piece(old(reader).code@, (old(reader).at - 1) as nat, old(gen)@, loops),
                r,
                final(reader).at,
                final(gen)@,
                loops,
            ),
{
    match read_string(reader) {
        None => Err(ParseError::UnendedString),
        Some(bytes) => gen.add_push_string(new_byte_string(bytes), pos),
    }
}

/// Reads a number literal, behind the `<`.
fn parse_number(reader: &mut CodeReader, gen: &mut BytecodeGenerator, pos: FilePosition) -> (r: Result<
    (),
    ParseError,
>)
    requires
        old(reader).wf(),
        old(gen)@.wf(),
        old(reader).at >= 1,
        pos == position_at(old(reader).code@, (old(reader).at - 1) as nat),
    ensures
        final(reader).wf(),
        final(reader).code == old(reader).code,
        final(reader).at >= old(reader).at,
        final(gen)@.wf(),
        r is Ok ==> final(gen)@.instructions.len() >= old(gen)@.instructions.len(),
        forall|loops: Loops|
            is_piece(
                #[trigger] number_piece(old(reader).code@, (old(reader).at - 1) as nat, old(gen)@, loops),
                r,
                final(reader).at,
                final(gen)@,
                loops,
            ),
{
    match read_until(reader, '>' as u8) {
        None => Err(ParseError::UnendedNumber),
        Some(text) => {
            if !valid_number(&text) {
                Err(ParseError::InvalidNumber)
            } else {
                gen.add_push_number(text, pos)
            }
        },
    }
}

/// Reads a piece of a function body, behind its first byte `c`.
fn parse_piece(
    reader: &mut CodeReader,
    gen: &mut BytecodeGenerator,
    loop_stack: &mut Vec<(ByteString, usize)>,
    c: u8,
    pos: FilePosition,
) -> (r: Result<(), ParseError>)
    requires
        old(reader).wf(),
        old(gen)@.wf(),
        old(reader).at >= 1,
        c == old(reader).code[old(reader).at - 1],
        pos == position_at(old(reader).code@, (old(reader).at - 1) as nat),
        loops_fit(loops_of(old(loop_stack)@), old(gen)@.instructions.len()),
    ensures
        final(reader).wf(),
        final(reader).code == old(reader).code,
        final(reader).at >= old(reader).at,
        final(gen)@.wf(),
        r is Ok ==> loops_fit(loops_of(final(loop_stack)@), final(gen)@.instructions.len()),
        is_piece(
            piece(old(reader).code@, (old(reader).at - 1) as nat, old(gen)@, loops_of(old(loop_stack)@)),
            r,
            final(reader).at,
            final(gen)@,
            loops_of(final(loop_stack)@),
        ),
{
    let mut one: Vec<u8> = Vec::new();
    one.push(c);
    assert(one@ =~= seq![c]);
    if c == ',' as u8 {
        gen.add_pop(pos);
        Ok(())
    } else if c == '^' as u8 {
        gen.add_return(pos);
        Ok(())
    } else if c == '*' as u8 {
        gen.add_load(pos);
        Ok(())
    } else if c == '=' as u8 {
        gen.add_store(pos);
        Ok(())
    } else if c == '?' as u8 {
        gen.add_call(pos);
        Ok(())
    } else if c == '.' as u8 {
        gen.add_load_from(pos);
        Ok(())
    } else if c >= 'a' as u8 && c <= 'z' as u8 {
        gen.add_push_member(new_byte_string(one), pos)
    } else if c >= 'A' as u8 && c <= 'Z' as u8 {
        gen.add_push_global(new_byte_string(one), pos)
    } else if c >= '0' as u8 && c <= '9' as u8 {
        gen.add_duplicate(c - '0' as u8, pos);
        Ok(())
    } else if c == '$' as u8 {
        gen.add_push_self(pos);
        gen.add_store(pos);
        Ok(())
    } else if c == '!' as u8 {
        gen.add_load(pos);
        gen.add_instantiate(pos);
        gen.add_store_keep(pos);
        gen.add_construct(pos);
        Ok(())
    } else if c == '/' as u8 {
        parse_loop_head(reader, gen, loop_stack, pos)
    } else if c == '\\' as u8 {
        parse_loop_foot(reader, gen, loop_stack, pos)
    } else if c == '(' as u8 {
        parse_parenthesised(reader, gen, pos)
    } else if c == '"' as u8 {
        parse_string(reader, gen, pos)
    } else if c == '<' as u8 {
        parse_number(reader, gen, pos)
    } else {
        Err(ParseError::InvalidChar)
    }
}

/// Reads a function, from its `[` to its `]`, and compiles it into `class`.
pub fn parse_function(reader: &mut CodeReader, class: &mut ClassDefinition, gen: &mut BytecodeGenerator) -> (r:
    Result<(), ParseError>)
    requires
        old(reader).wf(),
        old(gen)@.wf(),
        old(reader).at < old(reader).code.len(),
        old(reader).code[old(reader).at as int] == '[' as u8,
    ensures
        final(reader).wf(),
        final(reader).code == old(reader).code,
        final(reader).at > old(reader).at,
        final(gen)@.wf(),
        match function(old(reader).code@, (old(reader).at + 1) as nat, old(gen)@, old(class)@) {
            Ok((end, generator, changed)) => r is Ok && final(reader).at == end && final(gen)@ == generator
                && final(class)@ == changed,
            Err(error) => r == Err::<(), ParseError>(error),
        },
{
    let ghost stated = function(old(reader).code@, (old(reader).at + 1) as nat, old(gen)@, old(class)@);
    reader.next();
    let name: ByteString = match parse_name(reader) {
        Some(name) => name,
        None => {
            return Err(ParseError::MissingFuncName);
        },
    };
    match gen.add_func(class, name) {
        Err(error) => {
            return Err(error);
        },
        Ok(()) => {},
    }
    let mut loop_stack: Vec<(ByteString, usize)> = Vec::new();
    assert(loops_of(loop_stack@) =~= Seq::empty());
    loop
        invariant
            reader.wf(),
            reader.code == old(reader).code,
            gen@.wf(),
            reader.at > old(reader).at,
            loops_fit(loops_of(loop_stack@), gen@.instructions.len()),
            stated == function(old(reader).code@, (old(reader).at + 1) as nat, old(gen)@, old(class)@),
            stated == (match body(reader.code@, reader.at as nat, gen@, loops_of(loop_stack@)) {
                Err(error) => Err::<(nat, GeneratorView, ClassView), ParseError>(error),
                Ok((end, generator)) => Ok((end, generator, class@)),
            }),
        decreases reader.code.len() - reader.at,
    {
        if !skip_whitespace(reader) {
            return Err(ParseError::UnendedFunc);
        }
        let (c, pos) = match reader.next() {
            Some(read) => read,
            None => {
                return Err(ParseError::UnendedFunc);
            },
        };
        if c == ']' as u8 {
            if loop_stack.len() > 0 {
                return Err(ParseError::UnendedLoop);
            }
            gen.add_return(pos);
            return Ok(());
        }
        match parse_piece(reader, gen, &mut loop_stack, c, pos) {
            Err(error) => {
                return Err(error);
            },
            Ok(()) => {},
        }
    }
}

/// Reads a class, from its `{` to its `}`, and compiles it.
pub fn parse_class(reader: &mut CodeReader, gen: &mut BytecodeGenerator) -> (r: Result<(), ParseError>)
    requires
        old(reader).wf(),
        old(gen)@.wf(),
        old(reader).at < old(reader).code.len(),
        old(reader).code[old(reader).at as int] == '{' as u8,
    ensures
        final(reader).wf(),
        final(reader).code == old(reader).code,
        final(reader).at > old(reader).at,
        final(gen)@.wf(),
        match class_at(old(reader).code@, (old(reader).at + 1) as nat, old(gen)@) {
            Ok((end, generator)) => r is Ok && final(reader).at == end && final(gen)@ == generator,
            Err(error) => r == Err::<(), ParseError>(error),
        },
{
    let ghost stated = class_at(old(reader).code@, (old(reader).at + 1) as nat, old(gen)@);
    reader.next();
    let name: ByteString = match parse_name(reader) {
        Some(name) => name,
        None => {
            return Err(ParseError::MissingClassName);
        },
    };
    let mut class = ClassDefinition::new();
    loop
        invariant
            reader.wf(),
            reader.code == old(reader).code,
            gen@.wf(),
            reader.at > old(reader).at,
            stated == class_at(old(reader).code@, (old(reader).at + 1) as nat, old(gen)@),
            stated == class_body(reader.code@, reader.at as nat, gen@, class@, bytes_of(name)),
        decreases reader.code.len() - reader.at,
    {
        if !skip_whitespace(reader) {
            return Err(ParseError::UnendedClass);
        }
        match reader.peek() {
            None => {
                return Err(ParseError::UnendedClass);
            },
            Some(c) => {
                if c == '[' as u8 {
                    match parse_function(reader, &mut class, gen) {
                        Err(error) => {
                            return Err(error);
                        },
                        Ok(()) => {},
                    }
                } else if c == '}' as u8 {
                    reader.next();
                    return gen.add_class(class, name);
                } else {
                    return Err(ParseError::InvalidChar);
                }
            },
        }
    }
}

/// What source files hold: the name and the text of each.
pub open spec fn sources_of(files: Seq<(String, Vec<u8>)>) -> Seq<(Seq<char>, Seq<u8>)> {
    Seq::new(files.len(), |i: int| (files[i].0@, files[i].1@))
}

/// Reads the classes of one source file and compiles them.
fn parse_file(code: &Vec<u8>, gen: &mut BytecodeGenerator) -> (r: Result<(), ParseError>)
    requires
        old(gen)@.wf(),
    ensures
        final(gen)@.wf(),
        match classes_from(code@, 0, old(gen)@) {
            Ok(generator) => r is Ok && final(gen)@ == generator,
            Err(error) => r == Err::<(), ParseError>(error),
        },
{
    let mut reader = CodeReader::new(code);
    loop
        invariant
            reader.wf(),
            reader.code == code,
            gen@.wf(),
            classes_from(code@, 0, old(gen)@) == classes_from(code@, reader.at as nat, gen@),
        decreases code.len() - reader.at,
    {
        if !skip_whitespace(&mut reader) {
            return Ok(());
        }
        match reader.peek() {
            Some(c) => {
                if c == '{' as u8 {
                    match parse_class(&mut reader, gen) {
                        Err(error) => {
                            return Err(error);
                        },
                        Ok(()) => {},
                    }
                } else {
                    return Err(ParseError::InvalidChar);
                }
            },
            None => {
                return Err(ParseError::InvalidChar);
            },
        }
    }
}

/// Compiles source files, each given with its name, into one program.
///
/// The files are read in order into the same program, behind the built-in
/// classes. The result is `Ok` exactly where the text is a program: the
/// first thing wrong with it, in reading order, decides the error. A
/// program that is returned can be started, its bytecode is well formed,
/// and its tables are in order.
pub fn parse_program(files: &Vec<(String, Vec<u8>)>) -> (r: Result<BytecodeProgram, ParseError>)
    ensures
        match program_of(sources_of(files@)) {
            Ok(program) => r is Ok && r->Ok_0@ == program,
            Err(error) => r is Err && r->Err_0 == error,
        },
        r matches Ok(program) ==> {
            &&& start(program@) is Ok
            &&& well_formed(program@)
            &&& distinct(program@.strings)
            &&& offsets_rise(program@.files, program@.instructions.len())
            &&& offsets_rise(program@.positions, program@.instructions.len())
            &&& rising(file_offsets(&program)) && program.files@.len() > 0 && program.files@[0].0 == 0
            &&& rising(position_offsets(&program)) && program.positions@.len() > 0
                && program.positions@[0].0 == 0
        },
{
    let mut gen = BytecodeGenerator::new();
    add_builtin_classes(&mut gen);
    let mut i: usize = 0;
    while i < files.len()
        invariant
            i <= files.len(),
            gen@.wf(),
            files_from(sources_of(files@), 0, builtins()) == files_from(sources_of(files@), i as nat, gen@),
        decreases files.len() - i,
    {
        gen.set_filename(files[i].0.clone());
        match parse_file(&files[i].1, &mut gen) {
            Err(error) => {
                return Err(error);
            },
            Ok(()) => {},
        }
        i += 1;
    }
    let program = gen.get_program();
    proof {
        if program is Ok {
            assert(program->Ok_0.instructions.len() <= usize::MAX);
            law_compiled_program_starts(sources_of(files@));
            law_compiled_tables_rise(sources_of(files@));
            law_compiled_is_well_formed(sources_of(files@));
            let compiled = program->Ok_0;
            assert(compiled@.files[0].0 == compiled.files@[0].0);
            assert(compiled@.positions[0].0 == compiled.positions@[0].0);
            assert forall|i: int, j: int| 0 <= i <= j < file_offsets(&compiled).len() implies file_offsets(
                &compiled,
            )[i] <= file_offsets(&compiled)[j] by {
                assert(compiled@.files[i].0 <= compiled@.files[j].0);
            }
            assert forall|i: int, j: int|
                0 <= i <= j < position_offsets(&compiled).len() implies position_offsets(&compiled)[i]
                <= position_offsets(&compiled)[j] by {
                assert(compiled@.positions[i].0 <= compiled@.positions[j].0);
            }
        }
    }
    program
}

} // verus!
