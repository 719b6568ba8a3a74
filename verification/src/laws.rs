//! What holds of every program and every machine state.
//!
//! Each law is a theorem about `semantics::step`, the function that
//! `Machine::step` computes, or about what the generator emits.

use vstd::prelude::*;
use crate::bytecode::{FilePosition, OpCode, ProgramView, spec_short};
use crate::generator::{GeneratorView, loop_amount};
use crate::number::{Number, lemma_exact_is_whole};
use crate::semantics::{
    FrameView, InstanceView, MachineView, backward_target, demand, forward_target, num_to_string, step,
    string_to_num,
};
use crate::value::{ActionView, ReplyView, RuntimeError, Value};

verus! {

/// Whether the program has the instruction `op` at `index`, with all its
/// operands.
pub open spec fn has_instruction(p: ProgramView, index: int, op: OpCode) -> bool {
    &&& 0 <= index
    &&& index + op.spec_operands() < p.instructions.len()
    &&& p.instructions[index] == op.spec_code()
}

/// The instruction that a state is about to execute.
pub open spec fn about_to(s: MachineView, p: ProgramView, op: OpCode) -> bool {
    has_instruction(p, s.index as int, op)
}

/// Round trip: `NumToString` on a whole number from 0 to 255 gives a string
/// on which `StringToNum` gives that number again.
pub proof fn law_byte_round_trip(s: MachineView, n: Number, byte: u8)
    requires
        s.stack.len() >= 1,
        s.top(0) == Value::Number(n),
        n.whole() == Some(byte as int),
        s.index + 2 <= usize::MAX,
        s.strings.len() < usize::MAX,
    ensures
        num_to_string(s).result == Ok::<ActionView, RuntimeError>(ActionView::Continue),
        num_to_string(s).state.text(num_to_string(s).state.top(0)) == Ok::<Seq<u8>, RuntimeError>(seq![byte]),
        string_to_num(num_to_string(s).state).result == Ok::<ActionView, RuntimeError>(ActionView::Continue),
        string_to_num(num_to_string(s).state).state.top(0) matches Value::Number(back) && back.whole()
            == Some(byte as int),
        string_to_num(num_to_string(s).state).state.stack.len() == s.stack.len(),
{
    lemma_exact_is_whole(byte as nat);
    let made = num_to_string(s).state;
    assert(made.top(0) == Value::String(s.strings.len() as usize));
    assert(made.strings[s.strings.len() as int] == seq![byte]);
}

/// Byte-exact output: `OutputString` asks for exactly the bytes of the
/// string on the stack, whatever they are, and nothing is written unasked.
pub proof fn law_output_is_exact(s: MachineView, p: ProgramView, bytes: Seq<u8>)
    requires
        about_to(s, p, OpCode::OutputString),
        s.stack.len() >= 1,
        s.text(s.top(0)) == Ok::<Seq<u8>, RuntimeError>(bytes),
    ensures
        step(s, p, ReplyView::Nothing) == s.ask(ActionView::WriteString(bytes)),
        forall|reply: ReplyView|
            (#[trigger] step(s, p, reply)).result matches Ok(ActionView::WriteString(asked)) ==> asked
                == bytes,
{
    OpCode::OutputString.lemma_code_round_trip();
}

/// Handles stay good: a step removes no object and no string, changes the
/// class of no object and the bytes of no string. So the handle of an
/// object or of a string is good in every later state.
pub proof fn law_handles_persist(s: MachineView, p: ProgramView, reply: ReplyView)
    ensures
        s.instances.len() <= step(s, p, reply).state.instances.len(),
        forall|i: int|
            0 <= i < s.instances.len() ==> (#[trigger] step(s, p, reply).state.instances[i]).class
                == s.instances[i].class,
        s.strings.len() <= step(s, p, reply).state.strings.len(),
        forall|i: int| 0 <= i < s.strings.len() ==> #[trigger] step(s, p, reply).state.strings[i] == s.strings[i],
{
    if s.index < p.instructions.len() {
        match OpCode::spec_from_code(p.instructions[s.index as int]) {
            None => {},
            Some(op) => {},
        }
    }
}

/// Empty-stack detection: an instruction that finds fewer values on the
/// stack than it takes fails with `EmptyStack`, and changes nothing.
pub proof fn law_empty_stack(s: MachineView, p: ProgramView, op: OpCode, reply: ReplyView)
    requires
        about_to(s, p, op),
        s.stack.len() < demand(op, p.instructions[s.index + 1]),
    ensures
        step(s, p, reply) == s.fail(RuntimeError::EmptyStack),
{
    op.lemma_code_round_trip();
}

/// The two jumps of a loop are of one length, and that length takes the
/// forward jump at the loop's head to just behind the backward jump at its
/// foot, and the backward jump to the first instruction of the body.
pub proof fn law_loop_jumps(head: int, foot: int)
    ensures
        forward_target(head, loop_amount(head + 3, foot)) == foot + 3,
        backward_target(foot, loop_amount(head + 3, foot)) == head + 3,
{
}

/// What the generator emits for the foot of a loop: a `JumpIf` where the
/// instructions ended, with the loop's length as its operand, and the same
/// length as the operand of the `JumpIfNot` at the loop's head.
pub proof fn law_loop_lengths(g: GeneratorView, loop_start: usize, pos: FilePosition)
    requires
        3 <= loop_start <= g.instructions.len(),
        g.jump_if(loop_start, pos) is Ok,
    ensures
        ({
            let done = g.jump_if(loop_start, pos)->Ok_0;
            let foot = g.instructions.len() as int;
            let amount = loop_amount(loop_start as int, foot);
            &&& done.instructions.len() == foot + 3
            &&& done.instructions[foot] == OpCode::JumpIf.spec_code()
            &&& spec_short(done.instructions[foot + 1], done.instructions[foot + 2]) == amount
            &&& spec_short(done.instructions[loop_start - 2], done.instructions[loop_start - 1]) == amount
            &&& forall|i: int|
                0 <= i < foot && i != loop_start - 2 && i != loop_start - 1 ==> done.instructions[i]
                    == g.instructions[i]
        }),
{
}

/// Loop skip: at the head of a loop whose name holds nothing that counts
/// as true, the machine goes on just behind the loop's foot. It executes
/// nothing of the body, whatever the body is.
pub proof fn law_loop_skip(s: MachineView, p: ProgramView, foot: int, reply: ReplyView)
    requires
        about_to(s, p, OpCode::JumpIfNot),
        s.index + 3 <= foot,
        foot + 3 <= usize::MAX,
        spec_short(p.instructions[s.index + 1], p.instructions[s.index + 2]) == loop_amount(s.index + 3, foot),
        s.stack.len() >= 1,
        s.truth(s.top(0)) == Ok::<bool, RuntimeError>(false),
    ensures
        step(s, p, reply) == s.popped(1).at(foot + 3).done(),
{
    OpCode::JumpIfNot.lemma_code_round_trip();
}

/// Loop repeat: at the foot of a loop whose name holds something that
/// counts as true, the machine goes on with the first instruction of the
/// body; and where it holds nothing such, behind the foot.
pub proof fn law_loop_repeat(s: MachineView, p: ProgramView, loop_start: int, reply: ReplyView)
    requires
        about_to(s, p, OpCode::JumpIf),
        3 <= loop_start <= s.index,
        spec_short(p.instructions[s.index + 1], p.instructions[s.index + 2]) == loop_amount(
            loop_start,
            s.index as int,
        ),
        s.stack.len() >= 1,
        s.truth(s.top(0)) is Ok,
    ensures
        s.truth(s.top(0)) == Ok::<bool, RuntimeError>(true) ==> step(s, p, reply) == s.popped(1).at(
            loop_start,
        ).done(),
        s.truth(s.top(0)) == Ok::<bool, RuntimeError>(false) ==> step(s, p, reply) == s.popped(1).at(
            s.index + 3,
        ).done(),
{
    OpCode::JumpIf.lemma_code_round_trip();
}

/// The state after the first three of the four instructions that `!`
/// stands for: `Load`, `Instantiate`, `StoreKeep`.
pub open spec fn made(s: MachineView, p: ProgramView) -> MachineView {
    step(step(step(s, p, ReplyView::Nothing).state, p, ReplyView::Nothing).state, p, ReplyView::Nothing).state
}

/// Constructor ordering: `!` first makes the object, then gives it to the
/// target name, and only then runs the constructor, once. So when the
/// constructor begins, the object exists and a global target name holds it.
///
/// `s` is a state at a `!`, with the name of a class on the stack and the
/// target name below it.
pub proof fn law_construction_order(s: MachineView, p: ProgramView, class: usize, target: Value)
    requires
        has_instruction(p, s.index as int, OpCode::Load),
        has_instruction(p, s.index + 1, OpCode::Instantiate),
        has_instruction(p, s.index + 2, OpCode::StoreKeep),
        has_instruction(p, s.index + 3, OpCode::Construct),
        s.stack.len() >= 2,
        s.lookup(s.top(0)) == Ok::<Value, RuntimeError>(Value::Class(class)),
        class < p.classes.len(),
        s.top(1) == target,
        target.is_name(),
        s.bind(target, Value::Instance(0)) is Ok,
        s.instances.len() < usize::MAX,
        p.instructions.len() <= usize::MAX,
    ensures
        ({
            let object = s.instances.len() as usize;
            let bound = made(s, p);
            let begun = step(bound, p, ReplyView::Nothing);
            // The object is made: it is the newest, of the class named, with
            // no variables yet.
            &&& bound.instances.len() == s.instances.len() + 1
            &&& target !is MemberName ==> bound.instances[object as int] == (InstanceView {
                class,
                variables: Map::empty(),
            })
            &&& bound.instances[object as int].class == class
            // The target name holds it before the constructor begins.
            &&& bound.lookup(target) == Ok::<Value, RuntimeError>(Value::Instance(object))
            &&& bound.index == s.index + 3
            &&& bound.frames == s.frames
            // The constructor is entered, once, as a function of the object.
            &&& begun.result == Ok::<ActionView, RuntimeError>(ActionView::Continue)
            &&& match p.classes[class as int].constructor {
                Some(start) => {
                    &&& begun.state.index == start
                    &&& begun.state.current == object
                    &&& begun.state.frames == s.frames.push(
                        FrameView { caller: s.current, index: (s.index + 3) as usize, locals: bound.locals },
                    )
                    &&& target is GlobalName ==> begun.state.lookup(target) == Ok::<Value, RuntimeError>(
                        Value::Instance(object),
                    )
                },
                None => begun.state.index == s.index + 4 && begun.state.frames == s.frames,
            }
            &&& begun.state.stack == s.stack.take(s.stack.len() - 2)
        }),
{
    OpCode::Load.lemma_code_round_trip();
    OpCode::Instantiate.lemma_code_round_trip();
    OpCode::StoreKeep.lemma_code_round_trip();
    OpCode::Construct.lemma_code_round_trip();
    let object = s.instances.len() as usize;
    let loaded = step(s, p, ReplyView::Nothing).state;
    assert(loaded == s.popped(1).pushed(Value::Class(class)).at(s.index + 1));
    assert(loaded.top(0) == Value::Class(class));
    assert(loaded.top(1) == target);
    let created = step(loaded, p, ReplyView::Nothing).state;
    assert(created.top(0) == Value::Instance(object));
    assert(created.top(1) == target);
    assert(created.index == s.index + 2);
    assert(created.instances == s.instances.push(InstanceView { class, variables: Map::empty() }));
    assert(created.bind(target, Value::Instance(object)) is Ok);
    let bound = step(created, p, ReplyView::Nothing).state;
    assert(bound == made(s, p));
    assert(bound.top(0) == Value::Instance(object));
    assert(bound.stack =~= s.stack.take(s.stack.len() - 2).push(Value::Instance(object)));
    let begun = step(bound, p, ReplyView::Nothing);
    assert(bound.popped(1).stack =~= s.stack.take(s.stack.len() - 2));
}

} // verus!
