//! The layout of compiled code.
//!
//! The generator emits whole instructions, one behind the other, and fills
//! in the length of a loop's forward jump when it reaches the loop's foot.
//! This module follows the offsets at which instructions begin all through
//! a parse, and so shows that a compiled program is `well_formed`: a
//! machine that runs it never fails with `RuntimeError::InvalidProgram`.

use vstd::prelude::*;
use crate::builtins::{
    arithmetic_funcs, builtin_class, builtin_funcs, builtin_position, builtins, input_funcs,
    output_funcs, string_funcs, variable_funcs,
};
use crate::bytecode::{ClassView, FilePosition, OpCode, ProgramView, spec_short};
use crate::generator::{GeneratorView, TABLE_LIMIT, empty_generator, interned, loop_amount, patched};
use crate::invariants::{
    lemma_class_body_sound, lemma_classes_sound, lemma_files_sound, lemma_function_sound,
    lemma_interned, lemma_piece_sound, lemma_same_tables, lemma_with_class, lemma_with_func, sound,
};
use crate::lexer::{find, integer_of, is_digit, is_lower, is_upper, is_valid_name, name_at, skip, string_at};
use crate::parser::{
    Loops, body, class_body, classes_from, files_from, function, lemma_class_advances,
    lemma_function_advances, lemma_name_bounds, lemma_piece_advances, lemma_skip_bounds, piece,
    program_of,
};
use crate::reader::position_at;
use crate::safety::{instruction_ok, laid_out, op_at, operand_at, well_formed};

verus! {

/// The instruction that begins at an offset of the code, if the byte there
/// stands for one.
pub open spec fn code_op(code: Seq<u8>, at: int) -> Option<OpCode> {
    if 0 <= at < code.len() {
        OpCode::spec_from_code(code[at])
    } else {
        None
    }
}

/// The offset behind the instruction that begins at `at`.
pub open spec fn code_end(code: Seq<u8>, at: int) -> int {
    match code_op(code, at) {
        Some(op) => at + 1 + op.spec_operands(),
        None => at + 1,
    }
}

/// The two-byte operand of the instruction that begins at `at`.
pub open spec fn code_operand(code: Seq<u8>, at: int) -> int {
    spec_short(code[at + 1], code[at + 2]) as int
}

/// The code is made of whole instructions that begin at `starts`, one
/// behind the other and none inside another; backward jumps lead to an
/// instruction, forward jumps to just behind themselves or behind a
/// backward jump; and the constants of the pushes are among the first
/// `numbers` and `strings`.
pub open spec fn code_ok(code: Seq<u8>, numbers: nat, strings: nat, starts: Set<int>) -> bool {
    &&& forall|at: int|
        starts.contains(at) ==> {
            &&& 0 <= at < code.len()
            &&& (#[trigger] code_op(code, at)) is Some
            &&& code_end(code, at) <= code.len()
            &&& code_end(code, at) == code.len() || starts.contains(code_end(code, at))
        }
    &&& forall|at: int, other: int|
        starts.contains(at) && starts.contains(other) && at < other ==> #[trigger] code_end(code, at)
            < #[trigger] code_end(code, other) && code_end(code, at) <= other
    &&& forall|at: int|
        starts.contains(at) && #[trigger] code_op(code, at) == Some(OpCode::JumpIf) ==> code_operand(code, at)
            <= at + 2 && starts.contains(at + 3 - code_operand(code, at))
    &&& forall|at: int|
        starts.contains(at) && #[trigger] code_op(code, at) == Some(OpCode::JumpIfNot) ==> {
            let target = at + 3 + code_operand(code, at);
            target == at + 3 || (starts.contains(target - 3) && code_op(code, target - 3) == Some(
                OpCode::JumpIf,
            ))
        }
    &&& forall|at: int|
        starts.contains(at) && #[trigger] code_op(code, at) == Some(OpCode::PushNumber) ==> code_operand(
            code,
            at,
        ) < numbers
    &&& forall|at: int|
        starts.contains(at) && #[trigger] code_op(code, at) == Some(OpCode::PushString) ==> code_operand(
            code,
            at,
        ) < strings
}

/// Code that ends with a return, if it is not empty: no instruction but a
/// return is the last.
pub open spec fn sealed(code: Seq<u8>, starts: Set<int>) -> bool {
    forall|at: int|
        starts.contains(at) && code_end(code, at) == code.len() ==> #[trigger] code_op(code, at) == Some(
            OpCode::Return,
        )
}

/// What an instruction that is added behind the code has to meet: its
/// operands are all there, a backward jump leads to an instruction, a
/// forward jump is of length 0 for now, and a constant is there.
pub open spec fn fits_behind(
    code: Seq<u8>,
    numbers: nat,
    strings: nat,
    starts: Set<int>,
    op: OpCode,
    operands: Seq<u8>,
) -> bool {
    let value = spec_short(operands[0], operands[1]) as int;
    &&& operands.len() == op.spec_operands()
    &&& op == OpCode::JumpIf ==> value <= code.len() + 2 && starts.contains(code.len() + 3 - value)
    &&& op == OpCode::JumpIfNot ==> value == 0
    &&& op == OpCode::PushNumber ==> value < numbers
    &&& op == OpCode::PushString ==> value < strings
}

/// An instruction more behind the code, which begins where the code ended.
pub proof fn lemma_code_append(
    code: Seq<u8>,
    numbers: nat,
    strings: nat,
    starts: Set<int>,
    op: OpCode,
    operands: Seq<u8>,
)
    requires
        code_ok(code, numbers, strings, starts),
        fits_behind(code, numbers, strings, starts, op, operands),
    ensures
        code_ok(
            code.push(op.spec_code()) + operands,
            numbers,
            strings,
            starts.insert(code.len() as int),
        ),
        (code.push(op.spec_code()) + operands).len() == code.len() + 1 + op.spec_operands(),
        code_op(code.push(op.spec_code()) + operands, code.len() as int) == Some(op),
        forall|at: int|
            starts.contains(at) ==> code_op(code.push(op.spec_code()) + operands, at) == code_op(code, at),
{
    op.lemma_code_round_trip();
    let longer = code.push(op.spec_code()) + operands;
    let here = code.len() as int;
    let more = starts.insert(here);
    assert(longer.len() == code.len() + 1 + op.spec_operands());
    assert(longer[here] == op.spec_code());
    assert forall|i: int| 0 <= i < code.len() implies longer[i] == code[i] by {}
    assert(code_op(longer, here) == Some(op));
    assert(code_end(longer, here) == longer.len());
    assert forall|at: int| starts.contains(at) implies code_op(longer, at) == code_op(code, at) && code_end(
        longer,
        at,
    ) == code_end(code, at) && (code_end(code, at) <= here) by {
        assert(code_op(code, at) is Some);
    }
    assert forall|at: int| starts.contains(at) && code_end(code, at) >= at + 3 implies code_operand(
        longer,
        at,
    ) == code_operand(code, at) by {
        assert(code_op(code, at) is Some);
    }
    if op.spec_operands() == 2 {
        assert(longer[here + 1] == operands[0]);
        assert(longer[here + 2] == operands[1]);
        assert(code_operand(longer, here) == spec_short(operands[0], operands[1]));
    }
    assert forall|at: int| more.contains(at) implies {
        &&& 0 <= at < longer.len()
        &&& (#[trigger] code_op(longer, at)) is Some
        &&& code_end(longer, at) <= longer.len()
        &&& code_end(longer, at) == longer.len() || more.contains(code_end(longer, at))
    } by {
        if at != here {
            assert(code_op(code, at) is Some);
        }
    }
    assert forall|at: int, other: int|
        more.contains(at) && more.contains(other) && at < other implies #[trigger] code_end(longer, at)
        < #[trigger] code_end(longer, other) && code_end(longer, at) <= other by {
        assert(code_op(longer, at) is Some);
        assert(code_op(longer, other) is Some);
        if other != here {
            assert(code_end(code, at) < code_end(code, other));
        } else {
            assert(code_op(code, at) is Some);
        }
    }
    assert forall|at: int|
        more.contains(at) && #[trigger] code_op(longer, at) == Some(OpCode::JumpIf) implies code_operand(
        longer,
        at,
    ) <= at + 2 && more.contains(at + 3 - code_operand(longer, at)) by {
        if at != here {
            assert(code_op(code, at) == Some(OpCode::JumpIf));
        }
    }
    assert forall|at: int|
        more.contains(at) && #[trigger] code_op(longer, at) == Some(OpCode::JumpIfNot) implies ({
        let target = at + 3 + code_operand(longer, at);
        target == at + 3 || (more.contains(target - 3) && code_op(longer, target - 3) == Some(
            OpCode::JumpIf,
        ))
    }) by {
        if at != here {
            assert(code_op(code, at) == Some(OpCode::JumpIfNot));
            let target = at + 3 + code_operand(code, at);
            if target != at + 3 {
                assert(code_op(longer, target - 3) == code_op(code, target - 3));
            }
        }
    }
    assert forall|at: int|
        more.contains(at) && #[trigger] code_op(longer, at) == Some(OpCode::PushNumber) implies code_operand(
        longer,
        at,
    ) < numbers by {
        if at != here {
            assert(code_op(code, at) == Some(OpCode::PushNumber));
        }
    }
    assert forall|at: int|
        more.contains(at) && #[trigger] code_op(longer, at) == Some(OpCode::PushString) implies code_operand(
        longer,
        at,
    ) < strings by {
        if at != here {
            assert(code_op(code, at) == Some(OpCode::PushString));
        }
    }
}

/// More constants leave the code as good as it was.
pub proof fn lemma_code_constants(
    code: Seq<u8>,
    numbers: nat,
    strings: nat,
    starts: Set<int>,
    more_numbers: nat,
    more_strings: nat,
)
    requires
        code_ok(code, numbers, strings, starts),
        numbers <= more_numbers,
        strings <= more_strings,
    ensures
        code_ok(code, more_numbers, more_strings, starts),
{
}

/// The length of a loop, filled in at the head of the loop when the foot
/// has been emitted: the forward jump at `head` then leads behind the
/// backward jump at the end of the code.
pub proof fn lemma_code_patch(
    code: Seq<u8>,
    numbers: nat,
    strings: nat,
    starts: Set<int>,
    head: int,
    hi: u8,
    lo: u8,
)
    requires
        code_ok(code, numbers, strings, starts),
        starts.contains(head),
        code_op(code, head) == Some(OpCode::JumpIfNot),
        starts.contains(code.len() - 3),
        code_op(code, code.len() - 3) == Some(OpCode::JumpIf),
        head + 3 + spec_short(hi, lo) == code.len(),
    ensures
        code_ok(patched(patched(code, head + 1, hi), head + 2, lo), numbers, strings, starts),
        patched(patched(code, head + 1, hi), head + 2, lo).len() == code.len(),
        forall|at: int|
            starts.contains(at) ==> code_op(patched(patched(code, head + 1, hi), head + 2, lo), at)
                == code_op(code, at),
{
    let fixed = patched(patched(code, head + 1, hi), head + 2, lo);
    assert(code_op(code, head) is Some);
    assert(code_end(code, head) == head + 3);
    assert(fixed.len() == code.len());
    assert(fixed[head + 1] == hi && fixed[head + 2] == lo);
    assert forall|i: int| 0 <= i < code.len() && i != head + 1 && i != head + 2 implies fixed[i]
        == code[i] by {}
    // No instruction begins inside the forward jump, and none reaches
    // into it.
    assert forall|at: int| starts.contains(at) && at != head implies (at < head && code_end(code, at)
        <= head) || at >= head + 3 by {
        assert(code_op(code, at) is Some);
        if at < head {
            assert(code_end(code, at) <= head);
        } else {
            assert(code_end(code, head) <= at);
        }
    }
    assert forall|at: int| starts.contains(at) implies code_op(fixed, at) == code_op(code, at) && code_end(
        fixed,
        at,
    ) == code_end(code, at) by {
        assert(code_op(code, at) is Some);
    }
    assert forall|at: int|
        starts.contains(at) && at != head && code_end(code, at) >= at + 3 implies code_operand(fixed, at)
        == code_operand(code, at) by {
        assert(code_op(code, at) is Some);
    }
    assert(code_operand(fixed, head) == spec_short(hi, lo));
    assert forall|at: int| starts.contains(at) implies {
        &&& 0 <= at < fixed.len()
        &&& (#[trigger] code_op(fixed, at)) is Some
        &&& code_end(fixed, at) <= fixed.len()
        &&& code_end(fixed, at) == fixed.len() || starts.contains(code_end(fixed, at))
    } by {
        assert(code_op(code, at) is Some);
    }
    assert forall|at: int, other: int|
        starts.contains(at) && starts.contains(other) && at < other implies #[trigger] code_end(fixed, at)
        < #[trigger] code_end(fixed, other) && code_end(fixed, at) <= other by {
        assert(code_end(code, at) < code_end(code, other));
    }
    assert forall|at: int|
        starts.contains(at) && #[trigger] code_op(fixed, at) == Some(OpCode::JumpIf) implies code_operand(
        fixed,
        at,
    ) <= at + 2 && starts.contains(at + 3 - code_operand(fixed, at)) by {
        assert(code_op(code, at) == Some(OpCode::JumpIf));
    }
    assert forall|at: int|
        starts.contains(at) && #[trigger] code_op(fixed, at) == Some(OpCode::JumpIfNot) implies ({
        let target = at + 3 + code_operand(fixed, at);
        target == at + 3 || (starts.contains(target - 3) && code_op(fixed, target - 3) == Some(
            OpCode::JumpIf,
        ))
    }) by {
        assert(code_op(code, at) == Some(OpCode::JumpIfNot));
        if at != head {
            let target = at + 3 + code_operand(code, at);
            if target != at + 3 {
                assert(code_op(fixed, target - 3) == code_op(code, target - 3));
            }
        }
    }
    assert forall|at: int|
        starts.contains(at) && #[trigger] code_op(fixed, at) == Some(OpCode::PushNumber) implies code_operand(
        fixed,
        at,
    ) < numbers by {
        assert(code_op(code, at) == Some(OpCode::PushNumber));
    }
    assert forall|at: int|
        starts.contains(at) && #[trigger] code_op(fixed, at) == Some(OpCode::PushString) implies code_operand(
        fixed,
        at,
    ) < strings by {
        assert(code_op(code, at) == Some(OpCode::PushString));
    }
}

/// Every function of the class begins at an instruction.
pub open spec fn class_ok(class: ClassView, starts: Set<int>) -> bool {
    &&& forall|name: u16| class.funcs.contains_key(name) ==> starts.contains(#[trigger] class.funcs[name] as int)
    &&& class.constructor matches Some(target) ==> starts.contains(target as int)
}

/// What the generator has emitted is good code with instructions at
/// `starts`, and the functions of its classes begin at some of them. Said
/// of code that fits the machine's words.
pub open spec fn built(g: GeneratorView, starts: Set<int>) -> bool {
    g.instructions.len() <= usize::MAX ==> {
        &&& code_ok(g.instructions, g.numbers.len(), g.strings.len(), starts)
        &&& forall|i: int| 0 <= i < g.classes.len() ==> class_ok(#[trigger] g.classes[i], starts)
    }
}

/// Every open loop has its forward jump just before its body, and its body
/// begins at an instruction or where the next one will begin.
pub open spec fn loops_ok(g: GeneratorView, starts: Set<int>, loops: Loops) -> bool {
    g.instructions.len() <= usize::MAX ==> forall|i: int|
        0 <= i < loops.len() ==> {
            let body = (#[trigger] loops[i]).1 as int;
            &&& 3 <= body <= g.instructions.len()
            &&& starts.contains(body - 3)
            &&& code_op(g.instructions, body - 3) == Some(OpCode::JumpIfNot)
            &&& body == g.instructions.len() || starts.contains(body)
        }
}

/// The code of `h` is that of `g` and one instruction more.
pub open spec fn one_more(g: GeneratorView, h: GeneratorView, op: OpCode, operands: Seq<u8>) -> bool {
    &&& h.instructions == g.instructions.push(op.spec_code()) + operands
    &&& h.classes == g.classes
    &&& g.numbers.len() <= h.numbers.len()
    &&& g.strings.len() <= h.strings.len()
    &&& operands.len() == op.spec_operands()
}

/// One instruction more keeps the code good.
proof fn lemma_one_more(
    g: GeneratorView,
    h: GeneratorView,
    starts: Set<int>,
    op: OpCode,
    operands: Seq<u8>,
    loops: Loops,
)
    requires
        built(g, starts),
        loops_ok(g, starts, loops),
        one_more(g, h, op, operands),
        h.instructions.len() <= usize::MAX ==> fits_behind(
            g.instructions,
            h.numbers.len(),
            h.strings.len(),
            starts,
            op,
            operands,
        ),
    ensures
        built(h, starts.insert(g.instructions.len() as int)),
        loops_ok(h, starts.insert(g.instructions.len() as int), loops),
        h.instructions.len() == g.instructions.len() + 1 + op.spec_operands(),
        h.instructions.len() <= usize::MAX ==> code_op(h.instructions, g.instructions.len() as int) == Some(
            op,
        ),
        h.instructions.len() <= usize::MAX ==> forall|at: int|
            starts.contains(at) ==> code_op(h.instructions, at) == code_op(g.instructions, at),
{
    if h.instructions.len() <= usize::MAX {
        lemma_code_constants(
            g.instructions,
            g.numbers.len(),
            g.strings.len(),
            starts,
            h.numbers.len(),
            h.strings.len(),
        );
        lemma_code_append(g.instructions, h.numbers.len(), h.strings.len(), starts, op, operands);
        let more = starts.insert(g.instructions.len() as int);
        assert forall|i: int| 0 <= i < h.classes.len() implies class_ok(#[trigger] h.classes[i], more) by {
            assert(class_ok(g.classes[i], starts));
        }
        assert forall|i: int| 0 <= i < loops.len() implies ({
            let body = (#[trigger] loops[i]).1 as int;
            &&& 3 <= body <= h.instructions.len()
            &&& more.contains(body - 3)
            &&& code_op(h.instructions, body - 3) == Some(OpCode::JumpIfNot)
            &&& body == h.instructions.len() || more.contains(body)
        }) by {
            let body = loops[i].1 as int;
            assert(starts.contains(body - 3));
        }
    }
}

/// An instruction without operands keeps the code good.
proof fn lemma_emit(g: GeneratorView, starts: Set<int>, op: OpCode, pos: FilePosition, loops: Loops)
    requires
        built(g, starts),
        loops_ok(g, starts, loops),
        op.spec_operands() == 0,
    ensures
        built(g.emit(op, pos), starts.insert(g.instructions.len() as int)),
        loops_ok(g.emit(op, pos), starts.insert(g.instructions.len() as int), loops),
        g.emit(op, pos).instructions.len() == g.instructions.len() + 1,
        g.emit(op, pos).instructions.len() <= usize::MAX ==> code_op(
            g.emit(op, pos).instructions,
            g.instructions.len() as int,
        ) == Some(op),
        g.emit(op, pos).instructions.len() <= usize::MAX ==> forall|at: int|
            starts.contains(at) ==> code_op(g.emit(op, pos).instructions, at) == code_op(g.instructions, at),
        g.emit(op, pos).classes == g.classes,
{
    let h = g.emit(op, pos);
    assert(h.instructions =~= g.instructions.push(op.spec_code()) + Seq::<u8>::empty());
    lemma_one_more(g, h, starts, op, Seq::empty(), loops);
}

/// `Duplicate` with its depth keeps the code good.
proof fn lemma_emit_duplicate(g: GeneratorView, starts: Set<int>, depth: u8, pos: FilePosition, loops: Loops)
    requires
        built(g, starts),
        loops_ok(g, starts, loops),
    ensures
        built(g.emit(OpCode::Duplicate, pos).byte(depth), starts.insert(g.instructions.len() as int)),
        loops_ok(g.emit(OpCode::Duplicate, pos).byte(depth), starts.insert(g.instructions.len() as int), loops),
        g.emit(OpCode::Duplicate, pos).byte(depth).instructions.len() == g.instructions.len() + 2,
        g.emit(OpCode::Duplicate, pos).byte(depth).classes == g.classes,
{
    let h = g.emit(OpCode::Duplicate, pos).byte(depth);
    assert(h.instructions =~= g.instructions.push(OpCode::Duplicate.spec_code()) + seq![depth]);
    lemma_one_more(g, h, starts, OpCode::Duplicate, seq![depth], loops);
}

/// An instruction with a two-byte operand keeps the code good, if what the
/// operand names is there.
proof fn lemma_emit_short(
    g: GeneratorView,
    tabled: GeneratorView,
    starts: Set<int>,
    op: OpCode,
    value: u16,
    pos: FilePosition,
    loops: Loops,
)
    requires
        built(g, starts),
        loops_ok(g, starts, loops),
        op.spec_operands() == 2,
        tabled.instructions == g.instructions,
        tabled.classes == g.classes,
        g.numbers.len() <= tabled.numbers.len(),
        g.strings.len() <= tabled.strings.len(),
        op == OpCode::JumpIf ==> value <= g.instructions.len() + 2 && starts.contains(
            g.instructions.len() + 3 - value,
        ),
        op == OpCode::JumpIfNot ==> value == 0,
        op == OpCode::PushNumber ==> value < tabled.numbers.len(),
        op == OpCode::PushString ==> value < tabled.strings.len(),
    ensures
        built(tabled.emit(op, pos).short(value), starts.insert(g.instructions.len() as int)),
        loops_ok(tabled.emit(op, pos).short(value), starts.insert(g.instructions.len() as int), loops),
        tabled.emit(op, pos).short(value).instructions.len() == g.instructions.len() + 3,
        tabled.emit(op, pos).short(value).instructions.len() <= usize::MAX ==> code_op(
            tabled.emit(op, pos).short(value).instructions,
            g.instructions.len() as int,
        ) == Some(op),
        tabled.emit(op, pos).short(value).instructions.len() <= usize::MAX ==> forall|at: int|
            starts.contains(at) ==> code_op(tabled.emit(op, pos).short(value).instructions, at) == code_op(
                g.instructions,
                at,
            ),
{
    let h = tabled.emit(op, pos).short(value);
    let operands = seq![(value / 256) as u8, (value % 256) as u8];
    assert(h.instructions =~= g.instructions.push(op.spec_code()) + operands);
    assert(spec_short(operands[0], operands[1]) == value);
    lemma_one_more(g, h, starts, op, operands, loops);
}

/// The pushes of names and constants keep the code good.
proof fn lemma_push_layout(g: GeneratorView, starts: Set<int>, name: Seq<u8>, pos: FilePosition, loops: Loops)
    requires
        sound(g),
        built(g, starts),
        loops_ok(g, starts, loops),
    ensures
        g.push_global(name, pos) matches Ok(h) ==> pushed(g, h, starts, loops),
        g.push_member(name, pos) matches Ok(h) ==> pushed(g, h, starts, loops),
        g.push_local(name, pos) matches Ok(h) ==> pushed(g, h, starts, loops),
        g.push_name(name, pos) matches Ok(h) ==> pushed(g, h, starts, loops),
        g.push_string(name, pos) matches Ok(h) ==> pushed(g, h, starts, loops),
        g.push_number(name, pos) matches Ok(h) ==> pushed(g, h, starts, loops),
{
    if let Some((table, id)) = interned(g.global_names, name) {
        lemma_emit_short(g, GeneratorView { global_names: table, ..g }, starts, OpCode::PushGlobal, id, pos, loops);
    }
    if let Some((table, id)) = interned(g.member_names, name) {
        lemma_emit_short(g, GeneratorView { member_names: table, ..g }, starts, OpCode::PushMember, id, pos, loops);
    }
    if let Some((table, id)) = interned(g.local_names, name) {
        lemma_emit_short(g, GeneratorView { local_names: table, ..g }, starts, OpCode::PushLocal, id, pos, loops);
    }
    if let Some((table, id)) = interned(g.strings, name) {
        lemma_interned(g.strings, name);
        lemma_emit_short(g, GeneratorView { strings: table, ..g }, starts, OpCode::PushString, id, pos, loops);
    }
    if g.numbers.len() < TABLE_LIMIT {
        lemma_emit_short(
            g,
            GeneratorView { numbers: g.numbers.push(name), ..g },
            starts,
            OpCode::PushNumber,
            g.numbers.len() as u16,
            pos,
            loops,
        );
    }
}

/// What a push leaves: good code with one instruction more, which begins
/// where the code ended.
pub open spec fn pushed(g: GeneratorView, h: GeneratorView, starts: Set<int>, loops: Loops) -> bool {
    &&& built(h, starts.insert(g.instructions.len() as int))
    &&& loops_ok(h, starts.insert(g.instructions.len() as int), loops)
    &&& h.instructions.len() == g.instructions.len() + 3
    &&& h.classes == g.classes
    &&& h.instructions.len() <= usize::MAX ==> forall|at: int|
        starts.contains(at) ==> code_op(h.instructions, at) == code_op(g.instructions, at)
}

/// What a piece of a function body leaves: good code that is longer, with
/// an instruction where the code ended, and none of the instructions that
/// there were gone.
pub open spec fn extended(
    g: GeneratorView,
    h: GeneratorView,
    starts: Set<int>,
    more: Set<int>,
    open: Loops,
) -> bool {
    &&& built(h, more)
    &&& loops_ok(h, more, open)
    &&& starts.subset_of(more)
    &&& h.instructions.len() > g.instructions.len()
    &&& h.classes == g.classes
    &&& h.instructions.len() <= usize::MAX ==> more.contains(g.instructions.len() as int)
}

/// The head of a loop keeps the code good, and the loop that it opens
/// stands as the others do.
proof fn lemma_loop_head_layout(g: GeneratorView, starts: Set<int>, name: Seq<u8>, pos: FilePosition, loops: Loops) -> (more:
    Set<int>)
    requires
        sound(g),
        built(g, starts),
        loops_ok(g, starts, loops),
        g.push_name(name, pos) is Ok,
    ensures
        ({
            let head = g.push_name(name, pos)->Ok_0.emit(OpCode::Load, pos).jump_if_not(pos);
            extended(g, head, starts, more, loops.push((name, head.here())))
        }),
{
    let named = g.push_name(name, pos)->Ok_0;
    lemma_push_layout(g, starts, name, pos, loops);
    let first = starts.insert(g.instructions.len() as int);
    lemma_emit(named, first, OpCode::Load, pos, loops);
    let loaded = named.emit(OpCode::Load, pos);
    let second = first.insert(named.instructions.len() as int);
    lemma_emit_short(loaded, loaded, second, OpCode::JumpIfNot, 0, pos, loops);
    let head = loaded.jump_if_not(pos);
    assert(head == loaded.emit(OpCode::JumpIfNot, pos).short(0));
    let third = second.insert(loaded.instructions.len() as int);
    let open = loops.push((name, head.here()));
    if head.instructions.len() <= usize::MAX {
        assert forall|i: int| 0 <= i < open.len() implies ({
            let body = (#[trigger] open[i]).1 as int;
            &&& 3 <= body <= head.instructions.len()
            &&& third.contains(body - 3)
            &&& code_op(head.instructions, body - 3) == Some(OpCode::JumpIfNot)
            &&& body == head.instructions.len() || third.contains(body)
        }) by {
            if i < loops.len() {
                assert(open[i] == loops[i]);
            }
        }
    }
    third
}

/// The backward jump at the foot of a loop keeps the code good: it leads
/// to the loop's body, and the forward jump at the loop's head now leads
/// behind it. The loops that stay open stand as they did.
#[verifier::rlimit(60)]
proof fn lemma_jump_if_layout(g: GeneratorView, starts: Set<int>, pos: FilePosition, loops: Loops)
    requires
        built(g, starts),
        loops_ok(g, starts, loops),
        loops.len() > 0,
        g.instructions.len() <= usize::MAX ==> starts.contains(loops.last().1 as int),
        g.jump_if(loops.last().1, pos) is Ok,
    ensures
        built(g.jump_if(loops.last().1, pos)->Ok_0, starts.insert(g.instructions.len() as int)),
        loops_ok(
            g.jump_if(loops.last().1, pos)->Ok_0,
            starts.insert(g.instructions.len() as int),
            loops.drop_last(),
        ),
        g.jump_if(loops.last().1, pos)->Ok_0.instructions.len() == g.instructions.len() + 3,
        g.jump_if(loops.last().1, pos)->Ok_0.classes == g.classes,
{
    let body = loops.last().1;
    let foot = g.instructions.len() as int;
    let amount = loop_amount(body as int, foot);
    let more = starts.insert(foot);
    let h = g.jump_if(body, pos)->Ok_0;
    let jump = g.emit(OpCode::JumpIf, pos).short(amount as u16);
    let hi = (amount / 256) as u8;
    let lo = (amount % 256) as u8;
    assert(jump.instructions =~= g.instructions.push(OpCode::JumpIf.spec_code()).push(
        (amount as u16 / 256) as u8,
    ).push((amount as u16 % 256) as u8));
    assert(jump.instructions.len() == g.instructions.len() + 3);
    assert(h.instructions == patched(patched(jump.instructions, body - 2, hi), body - 1, lo));
    assert(h.instructions.len() == jump.instructions.len());
    if h.instructions.len() <= usize::MAX {
        assert(loops[loops.len() - 1] == loops.last());
        assert(3 <= body <= g.instructions.len());
        assert(starts.contains(body - 3));
        assert(code_op(g.instructions, body - 3) == Some(OpCode::JumpIfNot));
        lemma_emit_short(g, g, starts, OpCode::JumpIf, amount as u16, pos, loops);
        assert(spec_short(hi, lo) == amount);
        assert(code_op(jump.instructions, body - 3) == Some(OpCode::JumpIfNot));
        assert(code_op(jump.instructions, foot) == Some(OpCode::JumpIf));
        assert(code_ok(jump.instructions, jump.numbers.len(), jump.strings.len(), more));
        lemma_code_patch(jump.instructions, jump.numbers.len(), jump.strings.len(), more, body - 3, hi, lo);
        assert(h.instructions == patched(patched(jump.instructions, body - 3 + 1, hi), body - 3 + 2, lo));
        assert(code_ok(h.instructions, h.numbers.len(), h.strings.len(), more));
        assert forall|i: int| 0 <= i < h.classes.len() implies class_ok(#[trigger] h.classes[i], more) by {
            assert(class_ok(jump.classes[i], more));
        }
        let open = loops.drop_last();
        assert forall|i: int| 0 <= i < open.len() implies ({
            let other = (#[trigger] open[i]).1 as int;
            &&& 3 <= other <= h.instructions.len()
            &&& more.contains(other - 3)
            &&& code_op(h.instructions, other - 3) == Some(OpCode::JumpIfNot)
            &&& other == h.instructions.len() || more.contains(other)
        }) by {
            assert(open[i] == loops[i]);
            let other = loops[i].1 as int;
            assert(starts.contains(other - 3));
            assert(more.contains(other - 3));
            assert(code_op(jump.instructions, other - 3) == code_op(g.instructions, other - 3));
        }
    }
}

/// The foot of a loop keeps the code good, and the loops that stay open
/// stand as they did.
proof fn lemma_loop_foot_layout(g: GeneratorView, starts: Set<int>, pos: FilePosition, loops: Loops) -> (more:
    Set<int>)
    requires
        sound(g),
        built(g, starts),
        loops_ok(g, starts, loops),
        loops.len() > 0,
        g.push_name(loops.last().0, pos) is Ok,
        g.push_name(loops.last().0, pos)->Ok_0.emit(OpCode::Load, pos).jump_if(loops.last().1, pos) is Ok,
    ensures
        extended(
            g,
            g.push_name(loops.last().0, pos)->Ok_0.emit(OpCode::Load, pos).jump_if(loops.last().1, pos)->Ok_0,
            starts,
            more,
            loops.drop_last(),
        ),
{
    let name = loops.last().0;
    let body = loops.last().1;
    let named = g.push_name(name, pos)->Ok_0;
    lemma_push_layout(g, starts, name, pos, loops);
    let first = starts.insert(g.instructions.len() as int);
    lemma_emit(named, first, OpCode::Load, pos, loops);
    let loaded = named.emit(OpCode::Load, pos);
    let second = first.insert(named.instructions.len() as int);
    if loaded.instructions.len() <= usize::MAX {
        assert(loops[loops.len() - 1] == loops.last());
        assert(body as int == g.instructions.len() || starts.contains(body as int));
        assert(second.contains(body as int));
    }
    lemma_jump_if_layout(loaded, second, pos, loops);
    second.insert(loaded.instructions.len() as int)
}

/// One instruction without operands is a piece that keeps the code good.
proof fn lemma_emit_extended(g: GeneratorView, starts: Set<int>, op: OpCode, pos: FilePosition, loops: Loops)
    requires
        built(g, starts),
        loops_ok(g, starts, loops),
        op.spec_operands() == 0,
    ensures
        extended(g, g.emit(op, pos), starts, starts.insert(g.instructions.len() as int), loops),
{
    lemma_emit(g, starts, op, pos, loops);
}

/// `Duplicate` is a piece that keeps the code good.
proof fn lemma_duplicate_extended(g: GeneratorView, starts: Set<int>, depth: u8, pos: FilePosition, loops: Loops)
    requires
        built(g, starts),
        loops_ok(g, starts, loops),
    ensures
        extended(
            g,
            g.emit(OpCode::Duplicate, pos).byte(depth),
            starts,
            starts.insert(g.instructions.len() as int),
            loops,
        ),
{
    lemma_emit_duplicate(g, starts, depth, pos, loops);
}

/// A push is a piece that keeps the code good.
proof fn lemma_push_extended(g: GeneratorView, starts: Set<int>, name: Seq<u8>, pos: FilePosition, loops: Loops)
    requires
        sound(g),
        built(g, starts),
        loops_ok(g, starts, loops),
    ensures
        g.push_global(name, pos) matches Ok(h) ==> extended(
            g,
            h,
            starts,
            starts.insert(g.instructions.len() as int),
            loops,
        ),
        g.push_member(name, pos) matches Ok(h) ==> extended(
            g,
            h,
            starts,
            starts.insert(g.instructions.len() as int),
            loops,
        ),
        g.push_name(name, pos) matches Ok(h) ==> extended(
            g,
            h,
            starts,
            starts.insert(g.instructions.len() as int),
            loops,
        ),
        g.push_string(name, pos) matches Ok(h) ==> extended(
            g,
            h,
            starts,
            starts.insert(g.instructions.len() as int),
            loops,
        ),
        g.push_number(name, pos) matches Ok(h) ==> extended(
            g,
            h,
            starts,
            starts.insert(g.instructions.len() as int),
            loops,
        ),
{
    lemma_push_layout(g, starts, name, pos, loops);
}

/// `$` is a piece that keeps the code good.
proof fn lemma_dollar_extended(g: GeneratorView, starts: Set<int>, pos: FilePosition, loops: Loops)
    requires
        built(g, starts),
        loops_ok(g, starts, loops),
    ensures
        extended(
            g,
            g.emit(OpCode::PushSelf, pos).emit(OpCode::Store, pos),
            starts,
            starts.insert(g.instructions.len() as int).insert(g.instructions.len() + 1 as int),
            loops,
        ),
{
    lemma_emit(g, starts, OpCode::PushSelf, pos, loops);
    lemma_emit(
        g.emit(OpCode::PushSelf, pos),
        starts.insert(g.instructions.len() as int),
        OpCode::Store,
        pos,
        loops,
    );
}

/// `!` is a piece that keeps the code good.
proof fn lemma_bang_extended(g: GeneratorView, starts: Set<int>, pos: FilePosition, loops: Loops)
    requires
        built(g, starts),
        loops_ok(g, starts, loops),
    ensures
        extended(
            g,
            g.emit(OpCode::Load, pos).emit(OpCode::Instantiate, pos).emit(OpCode::StoreKeep, pos).emit(
                OpCode::Construct,
                pos,
            ),
            starts,
            starts.insert(g.instructions.len() as int).insert(g.instructions.len() + 1 as int).insert(
                g.instructions.len() + 2 as int,
            ).insert(g.instructions.len() + 3 as int),
            loops,
        ),
{
    let here = g.instructions.len() as int;
    let first = starts.insert(here);
    let loaded = g.emit(OpCode::Load, pos);
    let made = loaded.emit(OpCode::Instantiate, pos);
    let kept = made.emit(OpCode::StoreKeep, pos);
    lemma_emit(g, starts, OpCode::Load, pos, loops);
    lemma_emit(loaded, first, OpCode::Instantiate, pos, loops);
    lemma_emit(made, first.insert(here + 1), OpCode::StoreKeep, pos, loops);
    lemma_emit(kept, first.insert(here + 1).insert(here + 2), OpCode::Construct, pos, loops);
}

/// Every piece of a function body keeps the code good.
#[verifier::rlimit(60)]
proof fn lemma_piece_layout(src: Seq<u8>, start: nat, g: GeneratorView, loops: Loops, starts: Set<int>) -> (more:
    Set<int>)
    requires
        sound(g),
        built(g, starts),
        loops_ok(g, starts, loops),
    ensures
        piece(src, start, g, loops) matches Ok((_, h, open)) ==> extended(g, h, starts, more, open),
{
    let pos = position_at(src, start);
    let c = src[start as int];
    let here = g.instructions.len() as int;
    let first = starts.insert(here);
    if piece(src, start, g, loops) is Err {
        starts
    } else if c == ',' as u8 {
        lemma_emit_extended(g, starts, OpCode::Pop, pos, loops);
        first
    } else if c == '^' as u8 {
        lemma_emit_extended(g, starts, OpCode::Return, pos, loops);
        first
    } else if c == '*' as u8 {
        lemma_emit_extended(g, starts, OpCode::Load, pos, loops);
        first
    } else if c == '=' as u8 {
        lemma_emit_extended(g, starts, OpCode::Store, pos, loops);
        first
    } else if c == '?' as u8 {
        lemma_emit_extended(g, starts, OpCode::Call, pos, loops);
        first
    } else if c == '.' as u8 {
        lemma_emit_extended(g, starts, OpCode::LoadFrom, pos, loops);
        first
    } else if is_lower(c) || is_upper(c) {
        lemma_push_extended(g, starts, seq![c], pos, loops);
        first
    } else if is_digit(c) {
        lemma_duplicate_extended(g, starts, (c - '0' as u8) as u8, pos, loops);
        first
    } else if c == '$' as u8 {
        lemma_dollar_extended(g, starts, pos, loops);
        first.insert(here + 1)
    } else if c == '!' as u8 {
        lemma_bang_extended(g, starts, pos, loops);
        first.insert(here + 1).insert(here + 2).insert(here + 3)
    } else if c == '/' as u8 {
        let name = name_at(src, start + 1)->Some_0.0;
        lemma_loop_head_layout(g, starts, name, pos, loops)
    } else if c == '\\' as u8 {
        lemma_loop_foot_layout(g, starts, pos, loops)
    } else if c == '(' as u8 {
        let close = find(src, start + 1, ')' as u8);
        let content = src.subrange(start + 1 as int, close as int);
        if is_valid_name(content) {
            lemma_push_extended(g, starts, content, pos, loops);
        } else {
            lemma_duplicate_extended(g, starts, integer_of(content)->Ok_0, pos, loops);
        }
        first
    } else if c == '"' as u8 {
        let bytes = string_at(src, start + 1, Seq::empty())->Some_0.0;
        lemma_push_extended(g, starts, bytes, pos, loops);
        first
    } else if c == '<' as u8 {
        let close = find(src, start + 1, '>' as u8);
        lemma_push_extended(g, starts, src.subrange(start + 1 as int, close as int), pos, loops);
        first
    } else {
        starts
    }
}

/// What a complete function leaves: good code that ends with a return.
pub open spec fn closed(g: GeneratorView, h: GeneratorView, starts: Set<int>, more: Set<int>) -> bool {
    &&& built(h, more)
    &&& starts.subset_of(more)
    &&& h.classes == g.classes
    &&& h.instructions.len() > g.instructions.len()
    &&& h.instructions.len() <= usize::MAX ==> more.contains(g.instructions.len() as int) && sealed(
        h.instructions,
        more,
    )
}

/// The return at the end of a function leaves code that ends with a
/// return.
proof fn lemma_return_closes(g: GeneratorView, starts: Set<int>, pos: FilePosition)
    requires
        built(g, starts),
    ensures
        closed(g, g.emit(OpCode::Return, pos), starts, starts.insert(g.instructions.len() as int)),
{
    lemma_emit(g, starts, OpCode::Return, pos, Seq::empty());
    let h = g.emit(OpCode::Return, pos);
    let more = starts.insert(g.instructions.len() as int);
    if h.instructions.len() <= usize::MAX {
        assert forall|at: int| more.contains(at) && code_end(h.instructions, at) == h.instructions.len() implies #[trigger] code_op(
            h.instructions,
            at,
        ) == Some(OpCode::Return) by {
            if starts.contains(at) {
                assert(code_op(g.instructions, at) is Some);
                assert(code_op(h.instructions, at) == code_op(g.instructions, at));
            }
        }
    }
}

/// Every function body keeps the code good, and ends it with a return.
proof fn lemma_body_layout(src: Seq<u8>, at: nat, g: GeneratorView, loops: Loops, starts: Set<int>) -> (more:
    Set<int>)
    requires
        sound(g),
        built(g, starts),
        loops_ok(g, starts, loops),
        at <= src.len(),
    ensures
        body(src, at, g, loops) matches Ok((_, h)) ==> closed(g, h, starts, more),
    decreases src.len() - at,
{
    lemma_skip_bounds(src, at, false);
    let start = skip(src, at, false);
    if start >= src.len() {
        starts
    } else if src[start as int] == ']' as u8 {
        lemma_return_closes(g, starts, position_at(src, start));
        starts.insert(g.instructions.len() as int)
    } else {
        lemma_piece_advances(src, start, g, loops);
        lemma_piece_sound(src, start, g, loops);
        let first = lemma_piece_layout(src, start, g, loops, starts);
        match piece(src, start, g, loops) {
            Err(_) => starts,
            Ok((next, generator, open)) => {
                let more = lemma_body_layout(src, next, generator, open, first);
                more
            },
        }
    }
}

/// Every function keeps the code good, and begins at an instruction.
proof fn lemma_function_layout(src: Seq<u8>, at: nat, g: GeneratorView, class: ClassView, starts: Set<int>) -> (more:
    Set<int>)
    requires
        sound(g),
        built(g, starts),
        g.instructions.len() <= usize::MAX ==> class_ok(class, starts),
        at <= src.len(),
    ensures
        function(src, at, g, class) matches Ok((_, h, changed)) ==> closed(g, h, starts, more) && (
        h.instructions.len() <= usize::MAX ==> class_ok(changed, more)),
{
    lemma_name_bounds(src, at);
    match name_at(src, at) {
        None => starts,
        Some((name, next)) => {
            lemma_with_func(g, class, name);
            match g.add_func(class, name) {
                Err(_) => starts,
                Ok((named, changed)) => {
                    assert(built(named, starts));
                    let more = lemma_body_layout(src, next, named, Seq::empty(), starts);
                    more
                },
            }
        },
    }
}

/// What a complete class, or several, leave: good code that ends with a
/// return, no shorter than it was.
pub open spec fn tidy(g: GeneratorView, starts: Set<int>) -> bool {
    &&& built(g, starts)
    &&& g.instructions.len() <= usize::MAX ==> sealed(g.instructions, starts)
}

/// Every class keeps the code good.
proof fn lemma_class_body_layout(
    src: Seq<u8>,
    at: nat,
    g: GeneratorView,
    class: ClassView,
    name: Seq<u8>,
    starts: Set<int>,
) -> (more: Set<int>)
    requires
        sound(g),
        tidy(g, starts),
        g.instructions.len() <= usize::MAX ==> class_ok(class, starts),
        at <= src.len(),
    ensures
        class_body(src, at, g, class, name) matches Ok((_, h)) ==> tidy(h, more) && h.instructions.len()
            >= g.instructions.len(),
    decreases src.len() - at,
{
    lemma_skip_bounds(src, at, false);
    let start = skip(src, at, false);
    if start >= src.len() {
        starts
    } else if src[start as int] == '[' as u8 {
        lemma_function_advances(src, start + 1, g, class);
        lemma_function_sound(src, start + 1, g, class);
        let first = lemma_function_layout(src, start + 1, g, class, starts);
        match function(src, start + 1, g, class) {
            Err(_) => starts,
            Ok((next, generator, changed)) => {
                let more = lemma_class_body_layout(src, next, generator, changed, name, first);
                more
            },
        }
    } else if src[start as int] == '}' as u8 {
        if let Ok(h) = g.add_class(class, name) {
            if h.instructions.len() <= usize::MAX {
                assert forall|i: int| 0 <= i < h.classes.len() implies class_ok(
                    #[trigger] h.classes[i],
                    starts,
                ) by {
                    if i < g.classes.len() {
                        assert(class_ok(g.classes[i], starts));
                    }
                }
            }
        }
        starts
    } else {
        starts
    }
}

/// Every source file keeps the code good.
proof fn lemma_classes_layout(src: Seq<u8>, at: nat, g: GeneratorView, starts: Set<int>) -> (more: Set<int>)
    requires
        sound(g),
        tidy(g, starts),
        at <= src.len(),
    ensures
        classes_from(src, at, g) matches Ok(h) ==> tidy(h, more) && h.instructions.len()
            >= g.instructions.len(),
    decreases src.len() - at,
{
    lemma_skip_bounds(src, at, false);
    let start = skip(src, at, false);
    if start < src.len() && src[start as int] == '{' as u8 {
        lemma_class_advances(src, start + 1, g);
        lemma_name_bounds(src, start + 1);
        match name_at(src, start + 1) {
            None => starts,
            Some((name, next)) => {
                let empty = ClassView { funcs: Map::empty(), constructor: None };
                lemma_class_body_sound(src, next, g, empty, name);
                let first = lemma_class_body_layout(src, next, g, empty, name, starts);
                match class_body(src, next, g, empty, name) {
                    Err(_) => starts,
                    Ok((end, generator)) => {
                        let more = lemma_classes_layout(src, end, generator, first);
                        more
                    },
                }
            },
        }
    } else {
        starts
    }
}

/// All source files together keep the code good.
proof fn lemma_files_layout(files: Seq<(Seq<char>, Seq<u8>)>, from: nat, g: GeneratorView, starts: Set<int>) -> (more:
    Set<int>)
    requires
        sound(g),
        tidy(g, starts),
    ensures
        files_from(files, from, g) matches Ok(h) ==> tidy(h, more) && h.instructions.len()
            >= g.instructions.len(),
    decreases files.len() - from,
{
    if from < files.len() {
        let named = g.file(files[from as int].0);
        lemma_same_tables(g, named);
        assert(tidy(named, starts));
        lemma_classes_sound(files[from as int].1, 0, named);
        let first = lemma_classes_layout(files[from as int].1, 0, named, starts);
        match classes_from(files[from as int].1, 0, named) {
            Err(_) => starts,
            Ok(generator) => {
                let more = lemma_files_layout(files, from + 1, generator, first);
                more
            },
        }
    } else {
        starts
    }
}

/// The functions of a built-in class keep the code good.
proof fn lemma_builtin_funcs_layout(
    g: GeneratorView,
    class: ClassView,
    funcs: Seq<(Seq<u8>, OpCode)>,
    count: nat,
    starts: Set<int>,
) -> (more: Set<int>)
    requires
        sound(g),
        tidy(g, starts),
        g.instructions.len() <= usize::MAX ==> class_ok(class, starts),
        count <= funcs.len(),
        plain(funcs),
    ensures
        sound(builtin_funcs(g, class, funcs, count).0),
        tidy(builtin_funcs(g, class, funcs, count).0, more),
        builtin_funcs(g, class, funcs, count).0.instructions.len() >= g.instructions.len(),
        builtin_funcs(g, class, funcs, count).0.instructions.len() <= usize::MAX ==> class_ok(
            builtin_funcs(g, class, funcs, count).1,
            more,
        ),
        builtin_funcs(g, class, funcs, count).0.classes == g.classes,
    decreases count,
{
    if count == 0 {
        starts
    } else {
        let first = lemma_builtin_funcs_layout(g, class, funcs, (count - 1) as nat, starts);
        let (before, growing) = builtin_funcs(g, class, funcs, (count - 1) as nat);
        let name = funcs[count - 1].0;
        let op = funcs[count - 1].1;
        let pos = builtin_position();
        lemma_with_func(before, growing, name);
        let (named, changed) = before.with_func(growing, name);
        assert(built(named, first));
        lemma_emit(named, first, op, pos, Seq::empty());
        let emitted = named.emit(op, pos);
        let second = first.insert(named.instructions.len() as int);
        lemma_same_tables(named, emitted);
        lemma_return_closes(emitted, second, pos);
        let h = emitted.emit(OpCode::Return, pos);
        lemma_same_tables(emitted, h);
        second.insert(emitted.instructions.len() as int)
    }
}

/// A built-in class keeps the code good.
proof fn lemma_builtin_class_layout(g: GeneratorView, name: u8, funcs: Seq<(Seq<u8>, OpCode)>, starts: Set<int>) -> (more:
    Set<int>)
    requires
        sound(g),
        tidy(g, starts),
        plain(funcs),
    ensures
        sound(builtin_class(g, name, funcs)),
        tidy(builtin_class(g, name, funcs), more),
        builtin_class(g, name, funcs).instructions.len() >= g.instructions.len(),
{
    let empty = ClassView { funcs: Map::empty(), constructor: None };
    let more = lemma_builtin_funcs_layout(g, empty, funcs, funcs.len(), starts);
    let (compiled, class) = builtin_funcs(g, empty, funcs, funcs.len());
    lemma_with_class(compiled, class, seq![name]);
    let h = compiled.with_class(class, seq![name]);
    if h.instructions.len() <= usize::MAX {
        assert forall|i: int| 0 <= i < h.classes.len() implies class_ok(#[trigger] h.classes[i], more) by {
            if i < compiled.classes.len() {
                assert(class_ok(compiled.classes[i], more));
            }
        }
    }
    more
}

/// No instruction of a built-in function has operands.
pub open spec fn plain(funcs: Seq<(Seq<u8>, OpCode)>) -> bool {
    forall|i: int| 0 <= i < funcs.len() ==> (#[trigger] funcs[i]).1.spec_operands() == 0
}

proof fn lemma_arithmetic_plain()
    ensures
        plain(arithmetic_funcs()),
{
    let funcs = arithmetic_funcs();
    assert(funcs.len() == 12);
    assert(funcs[0].1.spec_operands() == 0);
    assert(funcs[1].1.spec_operands() == 0);
    assert(funcs[2].1.spec_operands() == 0);
    assert(funcs[3].1.spec_operands() == 0);
    assert(funcs[4].1.spec_operands() == 0);
    assert(funcs[5].1.spec_operands() == 0);
    assert(funcs[6].1.spec_operands() == 0);
    assert(funcs[7].1.spec_operands() == 0);
    assert(funcs[8].1.spec_operands() == 0);
    assert(funcs[9].1.spec_operands() == 0);
    assert(funcs[10].1.spec_operands() == 0);
    assert(funcs[11].1.spec_operands() == 0);
}

proof fn lemma_input_plain()
    ensures
        plain(input_funcs()),
{
    let funcs = input_funcs();
    assert(funcs.len() == 3);
    assert(funcs[0].1.spec_operands() == 0);
    assert(funcs[1].1.spec_operands() == 0);
    assert(funcs[2].1.spec_operands() == 0);
}

proof fn lemma_output_plain()
    ensures
        plain(output_funcs()),
{
    let funcs = output_funcs();
    assert(funcs.len() == 2);
    assert(funcs[0].1.spec_operands() == 0);
    assert(funcs[1].1.spec_operands() == 0);
}

proof fn lemma_string_plain()
    ensures
        plain(string_funcs()),
{
    let funcs = string_funcs();
    assert(funcs.len() == 8);
    assert(funcs[0].1.spec_operands() == 0);
    assert(funcs[1].1.spec_operands() == 0);
    assert(funcs[2].1.spec_operands() == 0);
    assert(funcs[3].1.spec_operands() == 0);
    assert(funcs[4].1.spec_operands() == 0);
    assert(funcs[5].1.spec_operands() == 0);
    assert(funcs[6].1.spec_operands() == 0);
    assert(funcs[7].1.spec_operands() == 0);
}

proof fn lemma_variable_plain()
    ensures
        plain(variable_funcs()),
{
    let funcs = variable_funcs();
    assert(funcs.len() == 2);
    assert(funcs[0].1.spec_operands() == 0);
    assert(funcs[1].1.spec_operands() == 0);
}

/// The built-in classes are good code.
proof fn lemma_builtins_layout() -> (more: Set<int>)
    ensures
        sound(builtins()),
        tidy(builtins(), more),
{
    lemma_arithmetic_plain();
    lemma_input_plain();
    lemma_output_plain();
    lemma_string_plain();
    lemma_variable_plain();
    let start = empty_generator().file("<builtin>"@);
    assert(sound(start));
    assert(tidy(start, Set::empty()));
    let first = lemma_builtin_class_layout(start, 'A' as u8, arithmetic_funcs(), Set::empty());
    let a = builtin_class(start, 'A' as u8, arithmetic_funcs());
    let second = lemma_builtin_class_layout(a, 'I' as u8, input_funcs(), first);
    let i = builtin_class(a, 'I' as u8, input_funcs());
    let third = lemma_builtin_class_layout(i, 'O' as u8, output_funcs(), second);
    let o = builtin_class(i, 'O' as u8, output_funcs());
    let fourth = lemma_builtin_class_layout(o, 'S' as u8, string_funcs(), third);
    let s = builtin_class(o, 'S' as u8, string_funcs());
    let fifth = lemma_builtin_class_layout(s, 'V' as u8, variable_funcs(), fourth);
    fifth
}

/// Good code that ends with a return is the code of a well-formed program.
proof fn lemma_program_laid_out(g: GeneratorView, starts: Set<int>, p: ProgramView)
    requires
        g.wf(),
        tidy(g, starts),
        g.instructions.len() <= usize::MAX,
        p.instructions == g.instructions,
        p.classes == g.classes,
        p.class_names == g.class_names,
        p.numbers == g.numbers,
        p.strings == g.strings,
    ensures
        laid_out(p, starts),
{
    let code = g.instructions;
    assert forall|at: int| starts.contains(at) implies instruction_ok(p, starts, at) by {
        assert(code_op(code, at) is Some);
        let op = code_op(code, at)->Some_0;
        assert(op_at(p, at) == Some(op));
        assert(code_end(code, at) == at + 1 + op.spec_operands());
        if op != OpCode::Return {
            assert(code_end(code, at) != code.len());
        }
        if op == OpCode::JumpIf {
            assert(operand_at(p, at) == code_operand(code, at));
        }
        if op == OpCode::JumpIfNot {
            assert(operand_at(p, at) == code_operand(code, at));
            let target = at + 3 + code_operand(code, at);
            if target != at + 3 {
                let foot = target - 3;
                assert(code_op(code, foot) is Some);
                assert(code_end(code, foot) == target);
                assert(target != code.len());
            }
        }
        if op == OpCode::PushNumber || op == OpCode::PushString {
            assert(operand_at(p, at) == code_operand(code, at));
        }
    }
    assert forall|class: int, name: u16|
        0 <= class < p.classes.len() && p.classes[class].funcs.contains_key(name) implies starts.contains(
        #[trigger] p.classes[class].funcs[name] as int,
    ) by {
        assert(class_ok(g.classes[class], starts));
    }
    assert forall|class: int|
        0 <= class < p.classes.len() && (#[trigger] p.classes[class]).constructor is Some
        implies starts.contains(p.classes[class].constructor->Some_0 as int) by {
        assert(class_ok(g.classes[class], starts));
    }
}

/// A compiled program is well formed: its instructions follow one another
/// without gap, its jumps and its functions lead to instructions, and its
/// constants are there.
pub proof fn law_compiled_is_well_formed(files: Seq<(Seq<char>, Seq<u8>)>)
    requires
        program_of(files) is Ok,
        program_of(files)->Ok_0.instructions.len() <= usize::MAX,
    ensures
        well_formed(program_of(files)->Ok_0),
{
    let first = lemma_builtins_layout();
    lemma_files_sound(files, 0, builtins());
    let more = lemma_files_layout(files, 0, builtins(), first);
    let g = files_from(files, 0, builtins())->Ok_0;
    lemma_program_laid_out(g, more, program_of(files)->Ok_0);
}

} // verus!
