//! Programs that cannot go wrong by their bytecode.
//!
//! `RuntimeError::InvalidProgram` tells of bytecode that points nowhere. A
//! program is `well_formed` if its instructions follow one another without
//! gap, every jump and every function leads to an instruction, and every
//! constant is there. A machine state is `safe` for such a program if it
//! stands at an instruction and every handle in it is good. A step from a
//! safe state never fails with `InvalidProgram`, and leaves a safe state.

use vstd::prelude::*;
use crate::bytecode::{OpCode, ProgramView, spec_short};
use crate::invariants::lemma_first_named;
use crate::number::Number;
use crate::semantics::{
    FrameView, MachineView, Outcome, call, compare, compute, concat, construct, demand, execute,
    finish, first_named, floor, gave_string, index, input_char, input_eof, input_line, instantiate,
    jump_if, jump_if_not, length, load, load_from, num_to_string, operand, output_number,
    output_string, push_number, registered, start, step, store, string_equal, string_replace,
    string_split, string_to_num, var_delete, var_new,
};
use crate::value::{ActionView, Arithmetic, Comparison, ReplyView, RuntimeError, Value};

verus! {

/// The instruction at an offset, if the byte there stands for one.
pub open spec fn op_at(p: ProgramView, at: int) -> Option<OpCode> {
    if 0 <= at < p.instructions.len() {
        OpCode::spec_from_code(p.instructions[at])
    } else {
        None
    }
}

/// The two-byte operand of the instruction at an offset.
pub open spec fn operand_at(p: ProgramView, at: int) -> int {
    spec_short(p.instructions[at + 1], p.instructions[at + 2]) as int
}

/// The instruction at `at` is whole, and what it points to is there: the
/// instruction behind it unless it is a return, the target of a jump, the
/// constant of a push. `starts` are the offsets at which instructions begin.
pub open spec fn instruction_ok(p: ProgramView, starts: Set<int>, at: int) -> bool {
    match op_at(p, at) {
        None => false,
        Some(op) => {
            &&& at + 1 + op.spec_operands() <= p.instructions.len()
            &&& op != OpCode::Return ==> starts.contains(at + 1 + op.spec_operands())
            &&& op == OpCode::JumpIf ==> operand_at(p, at) <= at + 2 && starts.contains(
                at + 3 - operand_at(p, at),
            )
            &&& op == OpCode::JumpIfNot ==> starts.contains(at + 3 + operand_at(p, at))
            &&& op == OpCode::PushNumber ==> operand_at(p, at) < p.numbers.len()
            &&& op == OpCode::PushString ==> operand_at(p, at) < p.strings.len()
        },
    }
}

/// The program is laid out in instructions that begin at `starts`, and all
/// of its functions begin at one of them.
pub open spec fn laid_out(p: ProgramView, starts: Set<int>) -> bool {
    &&& p.class_names.len() == p.classes.len()
    &&& p.instructions.len() <= usize::MAX
    &&& forall|at: int| starts.contains(at) ==> #[trigger] instruction_ok(p, starts, at)
    &&& forall|class: int, name: u16|
        0 <= class < p.classes.len() && p.classes[class].funcs.contains_key(name) ==> starts.contains(
            #[trigger] p.classes[class].funcs[name] as int,
        )
    &&& forall|class: int|
        0 <= class < p.classes.len() && (#[trigger] p.classes[class]).constructor is Some
            ==> starts.contains(p.classes[class].constructor->Some_0 as int)
}

/// The program's bytecode points nowhere wrong.
pub open spec fn well_formed(p: ProgramView) -> bool {
    exists|starts: Set<int>| laid_out(p, starts)
}

/// How many strings, objects and variables a machine has: what a handle
/// has to stay below.
pub struct Sizes {
    pub strings: nat,
    pub instances: nat,
    pub variables: nat,
}

impl MachineView {
    /// The sizes of the machine's tables.
    pub open spec fn sizes(self) -> Sizes {
        Sizes { strings: self.strings.len(), instances: self.instances.len(), variables: self.variables.len() }
    }
}

/// The value points to something that is there.
pub open spec fn good(v: Value, p: ProgramView, starts: Set<int>, sizes: Sizes) -> bool {
    match v {
        Value::String(handle) => handle < sizes.strings,
        Value::Instance(object) => object < sizes.instances,
        Value::Class(class) => class < p.classes.len(),
        Value::Function(object, target) => object < sizes.instances && starts.contains(target as int),
        Value::Variable(slot) => slot < sizes.variables,
        _ => true,
    }
}

/// Every value that the map holds is good.
pub open spec fn good_map(m: Map<u16, Value>, p: ProgramView, starts: Set<int>, sizes: Sizes) -> bool {
    forall|name: u16| m.contains_key(name) ==> good(#[trigger] m[name], p, starts, sizes)
}

/// The suspended call was made by an object that is there, from a call
/// instruction, with locals that are good.
pub open spec fn good_frame(f: FrameView, p: ProgramView, starts: Set<int>, sizes: Sizes) -> bool {
    &&& f.caller < sizes.instances
    &&& starts.contains(f.index as int)
    &&& (op_at(p, f.index as int) == Some(OpCode::Call) || op_at(p, f.index as int) == Some(
        OpCode::Construct,
    ))
    &&& good_map(f.locals, p, starts, sizes)
}

/// Everything that the machine holds is good, wherever it stands.
pub open spec fn good_stores(s: MachineView, p: ProgramView, starts: Set<int>, sizes: Sizes) -> bool {
    &&& s.current < sizes.instances
    &&& forall|i: int| 0 <= i < s.stack.len() ==> good(#[trigger] s.stack[i], p, starts, sizes)
    &&& good_map(s.globals, p, starts, sizes)
    &&& good_map(s.locals, p, starts, sizes)
    &&& forall|i: int|
        0 <= i < s.instances.len() ==> (#[trigger] s.instances[i]).class < p.classes.len() && good_map(
            s.instances[i].variables,
            p,
            starts,
            sizes,
        )
    &&& forall|i: int| 0 <= i < s.frames.len() ==> good_frame(#[trigger] s.frames[i], p, starts, sizes)
    &&& forall|i: int|
        0 <= i < s.variables.len() ==> ((#[trigger] s.variables[i]) matches Some(v) ==> good(
            v,
            p,
            starts,
            sizes,
        ))
}

/// The machine's tables are no longer than a handle can tell.
pub open spec fn fits(s: MachineView) -> bool {
    &&& s.strings.len() <= usize::MAX
    &&& s.instances.len() <= usize::MAX
    &&& s.variables.len() <= usize::MAX
}

/// The state is safe for a program laid out in `starts`.
pub open spec fn safe_in(s: MachineView, p: ProgramView, starts: Set<int>) -> bool {
    &&& laid_out(p, starts)
    &&& starts.contains(s.index as int)
    &&& fits(s)
    &&& p.strings.len() <= s.strings.len()
    &&& good_stores(s, p, starts, s.sizes())
}

/// The state is safe for the program.
pub open spec fn safe(s: MachineView, p: ProgramView) -> bool {
    exists|starts: Set<int>| safe_in(s, p, starts)
}

/// What is good stays good when more strings, objects or variables come.
pub proof fn lemma_good_grows(s: MachineView, p: ProgramView, starts: Set<int>, sizes: Sizes, more: Sizes)
    requires
        good_stores(s, p, starts, sizes),
        sizes.strings <= more.strings,
        sizes.instances <= more.instances,
        sizes.variables <= more.variables,
    ensures
        good_stores(s, p, starts, more),
        forall|v: Value| good(v, p, starts, sizes) ==> good(v, p, starts, more),
{
    assert forall|i: int| 0 <= i < s.instances.len() implies (#[trigger] s.instances[i]).class
        < p.classes.len() && good_map(s.instances[i].variables, p, starts, more) by {
        assert(good_map(s.instances[i].variables, p, starts, sizes));
    }
    assert forall|i: int| 0 <= i < s.frames.len() implies good_frame(#[trigger] s.frames[i], p, starts, more) by {
        assert(good_frame(s.frames[i], p, starts, sizes));
    }
}

/// What a name holds is good.
pub proof fn lemma_lookup_good(s: MachineView, p: ProgramView, starts: Set<int>, name: Value)
    requires
        good_stores(s, p, starts, s.sizes()),
    ensures
        s.lookup(name) matches Ok(v) ==> good(v, p, starts, s.sizes()),
        s.lookup(name) != Err::<Value, RuntimeError>(RuntimeError::InvalidProgram) || !good(
            name,
            p,
            starts,
            s.sizes(),
        ),
{
    if let Value::MemberName(id) = name {
        assert(good_map(s.instances[s.current as int].variables, p, starts, s.sizes()));
    }
}

/// Giving a name a good value leaves everything good.
pub proof fn lemma_bind_good(s: MachineView, p: ProgramView, starts: Set<int>, name: Value, v: Value)
    requires
        good_stores(s, p, starts, s.sizes()),
        good(v, p, starts, s.sizes()),
        good(name, p, starts, s.sizes()),
    ensures
        s.bind(name, v) matches Ok(t) ==> good_stores(t, p, starts, s.sizes()) && t.sizes() == s.sizes()
            && t.stack == s.stack && t.index == s.index && t.frames == s.frames && t.strings == s.strings,
        s.bind(name, v) != Err::<MachineView, RuntimeError>(RuntimeError::InvalidProgram),
{
    if let Ok(t) = s.bind(name, v) {
        match name {
            Value::MemberName(id) => {
                assert forall|i: int| 0 <= i < t.instances.len() implies (#[trigger] t.instances[i]).class
                    < p.classes.len() && good_map(t.instances[i].variables, p, starts, s.sizes()) by {
                    assert(good_map(s.instances[i].variables, p, starts, s.sizes()));
                }
            },
            _ => {},
        }
    }
}

/// A state that differs from a safe one in its stack and in where it
/// stands is safe, if the stack holds good values and it stands at an
/// instruction.
pub proof fn lemma_moved(s: MachineView, t: MachineView, p: ProgramView, starts: Set<int>)
    requires
        safe_in(s, p, starts),
        starts.contains(t.index as int),
        t.instances == s.instances,
        t.strings == s.strings,
        t.frames == s.frames,
        t.globals == s.globals,
        t.locals == s.locals,
        t.variables == s.variables,
        t.current == s.current,
        forall|i: int| 0 <= i < t.stack.len() ==> good(#[trigger] t.stack[i], p, starts, s.sizes()),
    ensures
        safe_in(t, p, starts),
{
}

/// The instruction behind one that is no return is an instruction.
pub proof fn lemma_next(s: MachineView, p: ProgramView, starts: Set<int>, op: OpCode)
    requires
        safe_in(s, p, starts),
        op_at(p, s.index as int) == Some(op),
        op != OpCode::Return,
    ensures
        starts.contains(s.index + 1 + op.spec_operands()),
        s.index + 1 + op.spec_operands() < p.instructions.len(),
        s.index + 1 + op.spec_operands() <= usize::MAX,
{
    assert(instruction_ok(p, starts, s.index as int));
    assert(instruction_ok(p, starts, s.index + 1 + op.spec_operands()));
}

/// What a step is to keep: no failure by the bytecode, and a safe state.
pub open spec fn kept(o: Outcome, p: ProgramView, starts: Set<int>) -> bool {
    &&& o.result != Err::<ActionView, RuntimeError>(RuntimeError::InvalidProgram)
    &&& fits(o.state) ==> safe_in(o.state, p, starts)
}

/// An instruction that takes values and gives one keeps the state safe.
proof fn lemma_give(s: MachineView, p: ProgramView, starts: Set<int>, count: int, v: Value, next: int)
    requires
        safe_in(s, p, starts),
        0 <= count <= s.stack.len(),
        good(v, p, starts, s.sizes()),
        starts.contains(next),
        0 <= next <= usize::MAX,
    ensures
        kept(s.popped(count).pushed(v).at(next).done(), p, starts),
{
    lemma_moved(s, s.popped(count).pushed(v).at(next), p, starts);
}

/// An instruction that takes values and gives none keeps the state safe.
proof fn lemma_take(s: MachineView, p: ProgramView, starts: Set<int>, count: int, next: int)
    requires
        safe_in(s, p, starts),
        0 <= count <= s.stack.len(),
        starts.contains(next),
        0 <= next <= usize::MAX,
    ensures
        kept(s.popped(count).at(next).done(), p, starts),
{
    lemma_moved(s, s.popped(count).at(next), p, starts);
}

/// An instruction that takes values and gives a new string keeps the state
/// safe.
proof fn lemma_gave_string(s: MachineView, p: ProgramView, starts: Set<int>, count: int, bytes: Seq<u8>)
    requires
        safe_in(s, p, starts),
        0 <= count <= s.stack.len(),
        starts.contains(s.index + 1),
    ensures
        kept(gave_string(s, count, bytes), p, starts),
{
    let t = gave_string(s, count, bytes).state;
    if fits(t) {
        lemma_good_grows(s, p, starts, s.sizes(), t.sizes());
        assert(instruction_ok(p, starts, s.index + 1));
    }
}

/// The values on the stack are good.
proof fn lemma_top(s: MachineView, p: ProgramView, starts: Set<int>, depth: int)
    requires
        safe_in(s, p, starts),
        0 <= depth < s.stack.len(),
    ensures
        good(s.top(depth), p, starts, s.sizes()),
{
}

/// Entering a function of an object that is there, from a call instruction,
/// keeps the state safe.
proof fn lemma_enter(s: MachineView, p: ProgramView, starts: Set<int>, object: usize, target: usize)
    requires
        safe_in(s, p, starts),
        s.stack.len() >= 1,
        object < s.instances.len(),
        starts.contains(target as int),
        op_at(p, s.index as int) == Some(OpCode::Call) || op_at(p, s.index as int) == Some(
            OpCode::Construct,
        ),
    ensures
        kept(s.popped(1).entered(object, target).done(), p, starts),
{
    let t = s.popped(1).entered(object, target);
    assert forall|i: int| 0 <= i < t.frames.len() implies good_frame(
        #[trigger] t.frames[i],
        p,
        starts,
        t.sizes(),
    ) by {
        if i < s.frames.len() {
            assert(good_frame(s.frames[i], p, starts, s.sizes()));
        }
    }
}

proof fn lemma_call(s: MachineView, p: ProgramView, starts: Set<int>)
    requires
        safe_in(s, p, starts),
        op_at(p, s.index as int) == Some(OpCode::Call),
        s.stack.len() >= 1,
    ensures
        kept(call(s), p, starts),
{
    lemma_top(s, p, starts, 0);
    if let Value::Function(object, target) = s.top(0) {
        lemma_enter(s, p, starts, object, target);
    }
}

proof fn lemma_construct(s: MachineView, p: ProgramView, starts: Set<int>)
    requires
        safe_in(s, p, starts),
        op_at(p, s.index as int) == Some(OpCode::Construct),
        s.stack.len() >= 1,
    ensures
        kept(construct(s, p), p, starts),
{
    lemma_top(s, p, starts, 0);
    lemma_next(s, p, starts, OpCode::Construct);
    if let Value::Instance(object) = s.top(0) {
        assert(s.instances[object as int].class < p.classes.len());
        match p.classes[s.instances[object as int].class as int].constructor {
            None => {
                lemma_take(s, p, starts, 1, s.index + 1);
            },
            Some(target) => {
                lemma_enter(s, p, starts, object, target);
            },
        }
    }
}

proof fn lemma_finish(s: MachineView, p: ProgramView, starts: Set<int>)
    requires
        safe_in(s, p, starts),
    ensures
        kept(finish(s, p), p, starts),
{
    if s.frames.len() > 0 {
        let frame = s.frames.last();
        assert(good_frame(s.frames[s.frames.len() - 1], p, starts, s.sizes()));
        assert(instruction_ok(p, starts, frame.index as int));
        let t = finish(s, p).state;
        assert(t.sizes() == s.sizes());
        assert(starts.contains(t.index as int));
        assert forall|i: int| 0 <= i < t.frames.len() implies good_frame(
            #[trigger] t.frames[i],
            p,
            starts,
            t.sizes(),
        ) by {
            assert(t.frames[i] == s.frames[i]);
            assert(good_frame(s.frames[i], p, starts, s.sizes()));
        }
        assert(good_stores(t, p, starts, t.sizes()));
    }
}

proof fn lemma_jumps(s: MachineView, p: ProgramView, starts: Set<int>, op: OpCode)
    requires
        safe_in(s, p, starts),
        op_at(p, s.index as int) == Some(op),
        op == OpCode::JumpIf || op == OpCode::JumpIfNot,
        s.stack.len() >= 1,
    ensures
        op == OpCode::JumpIf ==> kept(jump_if(s, operand_at(p, s.index as int)), p, starts),
        op == OpCode::JumpIfNot ==> kept(jump_if_not(s, operand_at(p, s.index as int)), p, starts),
{
    assert(instruction_ok(p, starts, s.index as int));
    lemma_top(s, p, starts, 0);
    lemma_next(s, p, starts, op);
    let amount = operand_at(p, s.index as int);
    lemma_take(s, p, starts, 1, s.index + 3);
    if op == OpCode::JumpIf {
        lemma_take(s, p, starts, 1, s.index + 3 - amount);
    } else {
        assert(instruction_ok(p, starts, s.index + 3 + amount));
        lemma_take(s, p, starts, 1, s.index + 3 + amount);
    }
}

proof fn lemma_names(s: MachineView, p: ProgramView, starts: Set<int>, op: OpCode)
    requires
        safe_in(s, p, starts),
        op_at(p, s.index as int) == Some(op),
        op != OpCode::Return,
    ensures
        op == OpCode::Load && s.stack.len() >= 1 ==> kept(load(s), p, starts),
        op == OpCode::LoadFrom && s.stack.len() >= 2 ==> kept(load_from(s, p), p, starts),
        op == OpCode::Store && s.stack.len() >= 2 ==> kept(store(s, false), p, starts),
        op == OpCode::StoreKeep && s.stack.len() >= 2 ==> kept(store(s, true), p, starts),
        op == OpCode::Instantiate && s.stack.len() >= 1 ==> kept(instantiate(s, p), p, starts),
        op == OpCode::VarNew ==> kept(var_new(s), p, starts),
        op == OpCode::VarDelete && s.stack.len() >= 1 ==> kept(var_delete(s), p, starts),
{
    lemma_next(s, p, starts, op);
    if op == OpCode::Load && s.stack.len() >= 1 {
        lemma_top(s, p, starts, 0);
        lemma_lookup_good(s, p, starts, s.top(0));
        if let Ok(v) = s.lookup(s.top(0)) {
            lemma_give(s, p, starts, 1, v, s.index + 1);
        }
    }
    if op == OpCode::LoadFrom && s.stack.len() >= 2 {
        lemma_top(s, p, starts, 1);
        lemma_lookup_good(s, p, starts, s.top(1));
        if let Value::MemberName(member) = s.top(0) {
            if let Ok(Value::Instance(object)) = s.lookup(s.top(1)) {
                assert(good_map(s.instances[object as int].variables, p, starts, s.sizes()));
                if s.instances[object as int].variables.contains_key(member) {
                    lemma_give(s, p, starts, 2, s.instances[object as int].variables[member], s.index + 1);
                } else {
                    let class = s.instances[object as int].class as int;
                    if p.classes[class].funcs.contains_key(member) {
                        lemma_give(
                            s,
                            p,
                            starts,
                            2,
                            Value::Function(object, p.classes[class].funcs[member]),
                            s.index + 1,
                        );
                    }
                }
            }
        }
    }
    if (op == OpCode::Store || op == OpCode::StoreKeep) && s.stack.len() >= 2 {
        lemma_top(s, p, starts, 0);
        lemma_top(s, p, starts, 1);
        lemma_bind_good(s, p, starts, s.top(1), s.top(0));
        if let Ok(bound) = s.bind(s.top(1), s.top(0)) {
            assert(safe_in(bound, p, starts));
            lemma_give(bound, p, starts, 2, s.top(0), s.index + 1);
            lemma_take(bound, p, starts, 2, s.index + 1);
        }
    }
    if op == OpCode::Instantiate && s.stack.len() >= 1 {
        lemma_top(s, p, starts, 0);
        if let Value::Class(class) = s.top(0) {
            let t = instantiate(s, p).state;
            if fits(t) {
                lemma_good_grows(s, p, starts, s.sizes(), t.sizes());
                assert forall|i: int| 0 <= i < t.instances.len() implies (#[trigger] t.instances[i]).class
                    < p.classes.len() && good_map(t.instances[i].variables, p, starts, t.sizes()) by {
                    if i < s.instances.len() {
                        assert(good_map(s.instances[i].variables, p, starts, t.sizes()));
                    }
                }
            }
        }
    }
    if op == OpCode::VarNew {
        let t = var_new(s).state;
        if fits(t) {
            lemma_good_grows(s, p, starts, s.sizes(), t.sizes());
        }
    }
    if op == OpCode::VarDelete && s.stack.len() >= 1 {
        lemma_top(s, p, starts, 0);
        if let Value::Variable(slot) = s.top(0) {
            let t = var_delete(s).state;
            assert(t.sizes() == s.sizes());
        }
    }
}

proof fn lemma_arithmetic(
    s: MachineView,
    p: ProgramView,
    starts: Set<int>,
    op: OpCode,
    reply: ReplyView,
    a: Arithmetic,
    c: Comparison,
)
    requires
        safe_in(s, p, starts),
        op_at(p, s.index as int) == Some(op),
        op.spec_operands() == 0,
        op != OpCode::Return,
    ensures
        s.stack.len() >= 2 ==> kept(compute(s, a, reply), p, starts),
        s.stack.len() >= 2 ==> kept(compare(s, c, reply), p, starts),
        s.stack.len() >= 1 ==> kept(floor(s, reply), p, starts),
{
    lemma_next(s, p, starts, op);
    if let ReplyView::Number(n) = reply {
        if s.stack.len() >= 2 {
            lemma_give(s, p, starts, 2, Value::Number(n), s.index + 1);
        }
        if s.stack.len() >= 1 {
            lemma_give(s, p, starts, 1, Value::Number(n), s.index + 1);
        }
    }
    if let ReplyView::Flag(flag) = reply {
        if s.stack.len() >= 2 {
            lemma_give(s, p, starts, 2, Value::Number(Number::spec_flag(flag)), s.index + 1);
        }
    }
}

proof fn lemma_output(s: MachineView, p: ProgramView, starts: Set<int>, op: OpCode, reply: ReplyView)
    requires
        safe_in(s, p, starts),
        op_at(p, s.index as int) == Some(op),
        op.spec_operands() == 0,
        op != OpCode::Return,
        s.stack.len() >= 1,
    ensures
        kept(output_number(s, reply), p, starts),
        kept(output_string(s, reply), p, starts),
{
    lemma_next(s, p, starts, op);
    lemma_top(s, p, starts, 0);
    lemma_take(s, p, starts, 1, s.index + 1);
}

proof fn lemma_input(s: MachineView, p: ProgramView, starts: Set<int>, op: OpCode, reply: ReplyView)
    requires
        safe_in(s, p, starts),
        op_at(p, s.index as int) == Some(op),
        op.spec_operands() == 0,
        op != OpCode::Return,
    ensures
        kept(input_eof(s, reply), p, starts),
        kept(input_char(s, reply), p, starts),
        kept(input_line(s, reply), p, starts),
{
    lemma_next(s, p, starts, op);
    assert(s.popped(0) == s) by {
        assert(s.stack.take(s.stack.len() as int) =~= s.stack);
    }
    if let ReplyView::Flag(flag) = reply {
        lemma_give(s, p, starts, 0, Value::Number(Number::spec_flag(flag)), s.index + 1);
    }
    lemma_gave_string(s, p, starts, 0, seq![0u8]);
    if let ReplyView::Byte(Some(byte)) = reply {
        lemma_gave_string(s, p, starts, 0, seq![byte]);
    }
    if let ReplyView::Line(bytes) = reply {
        lemma_gave_string(s, p, starts, 0, bytes);
    }
}

proof fn lemma_push_number(s: MachineView, p: ProgramView, starts: Set<int>, reply: ReplyView)
    requires
        safe_in(s, p, starts),
        op_at(p, s.index as int) == Some(OpCode::PushNumber),
    ensures
        kept(push_number(s, p, reply), p, starts),
{
    lemma_next(s, p, starts, OpCode::PushNumber);
    assert(instruction_ok(p, starts, s.index as int));
    assert(s.popped(0) == s) by {
        assert(s.stack.take(s.stack.len() as int) =~= s.stack);
    }
    if let ReplyView::Number(n) = reply {
        lemma_give(s, p, starts, 0, Value::Number(n), s.index + 3);
    }
}

proof fn lemma_strings(s: MachineView, p: ProgramView, starts: Set<int>, op: OpCode)
    requires
        safe_in(s, p, starts),
        op_at(p, s.index as int) == Some(op),
        op.spec_operands() == 0,
        op != OpCode::Return,
    ensures
        s.stack.len() >= 2 ==> kept(concat(s), p, starts) && kept(index(s), p, starts) && kept(
            string_equal(s),
            p,
            starts,
        ) && kept(string_split(s), p, starts),
        s.stack.len() >= 1 ==> kept(length(s), p, starts) && kept(num_to_string(s), p, starts) && kept(
            string_to_num(s),
            p,
            starts,
        ),
        s.stack.len() >= 3 ==> kept(string_replace(s), p, starts),
{
    lemma_next(s, p, starts, op);
    if s.stack.len() >= 1 {
        lemma_top(s, p, starts, 0);
        if let Ok(text) = s.text(s.top(0)) {
            lemma_give(
                s,
                p,
                starts,
                1,
                Value::Number(Number::spec_from_len(text.len())),
                s.index + 1,
            );
            if text.len() == 1 {
                lemma_give(
                    s,
                    p,
                    starts,
                    1,
                    Value::Number(Number::spec_exact(text[0] as nat)),
                    s.index + 1,
                );
            }
        }
        if let Value::Number(n) = s.top(0) {
            if let Some(byte) = n.spec_byte() {
                lemma_gave_string(s, p, starts, 1, seq![byte]);
            }
        }
    }
    if s.stack.len() >= 2 {
        lemma_top(s, p, starts, 1);
        if let Ok(tail) = s.text(s.top(0)) {
            if let Ok(head) = s.text(s.top(1)) {
                lemma_gave_string(s, p, starts, 2, head + tail);
                lemma_give(
                    s,
                    p,
                    starts,
                    2,
                    Value::Number(Number::spec_flag(head == tail)),
                    s.index + 1,
                );
            }
        }
        if let Value::Number(n) = s.top(0) {
            if let Ok(text) = s.text(s.top(1)) {
                if let Some(i) = n.spec_index(text.len(), false) {
                    lemma_gave_string(s, p, starts, 2, seq![text[i as int]]);
                }
                if let Some(i) = n.spec_index(text.len(), true) {
                    let t = string_split(s).state;
                    if fits(t) {
                        lemma_good_grows(s, p, starts, s.sizes(), t.sizes());
                    }
                }
            }
        }
    }
    if s.stack.len() >= 3 {
        lemma_top(s, p, starts, 2);
        if let Ok(replacement) = s.text(s.top(0)) {
            if let Value::Number(n) = s.top(1) {
                if let Ok(text) = s.text(s.top(2)) {
                    if let Some(i) = n.spec_index(text.len(), false) {
                        lemma_gave_string(s, p, starts, 3, text.update(i as int, replacement[0]));
                    }
                }
            }
        }
    }
}

/// A step from a state that is safe for a program laid out in `starts`
/// does not fail by the bytecode, and leaves such a state.
pub proof fn lemma_step_safe(s: MachineView, p: ProgramView, starts: Set<int>, reply: ReplyView)
    requires
        safe_in(s, p, starts),
    ensures
        kept(step(s, p, reply), p, starts),
{
    assert(instruction_ok(p, starts, s.index as int));
    let op = op_at(p, s.index as int)->Some_0;
    if s.stack.len() >= demand(op, p.instructions[s.index + 1]) {
        assert(step(s, p, reply) == execute(s, p, op, reply));
        assert(s.popped(0) == s) by {
            assert(s.stack.take(s.stack.len() as int) =~= s.stack);
        }
        if op == OpCode::Return {
            lemma_finish(s, p, starts);
        } else {
            lemma_next(s, p, starts, op);
            let next = s.index + 1 + op.spec_operands();
            match op {
                OpCode::Call => {
                    lemma_call(s, p, starts);
                },
                OpCode::Construct => {
                    lemma_construct(s, p, starts);
                },
                OpCode::JumpIf | OpCode::JumpIfNot => {
                    lemma_jumps(s, p, starts, op);
                },
                OpCode::Load
                | OpCode::LoadFrom
                | OpCode::Store
                | OpCode::StoreKeep
                | OpCode::Instantiate
                | OpCode::VarNew
                | OpCode::VarDelete => {
                    lemma_names(s, p, starts, op);
                },
                OpCode::Duplicate => {
                    lemma_top(s, p, starts, p.instructions[s.index + 1] as int);
                    lemma_give(s, p, starts, 0, s.top(p.instructions[s.index + 1] as int), next);
                },
                OpCode::Pop => {
                    lemma_take(s, p, starts, 1, next);
                },
                OpCode::PushGlobal => {
                    lemma_give(s, p, starts, 0, Value::GlobalName(operand(s, p)), next);
                },
                OpCode::PushLocal => {
                    lemma_give(s, p, starts, 0, Value::LocalName(operand(s, p)), next);
                },
                OpCode::PushMember => {
                    lemma_give(s, p, starts, 0, Value::MemberName(operand(s, p)), next);
                },
                OpCode::PushSelf => {
                    lemma_give(s, p, starts, 0, Value::Instance(s.current), next);
                },
                OpCode::PushString => {
                    lemma_give(
                        s,
                        p,
                        starts,
                        0,
                        Value::String(operand(s, p) as usize),
                        next,
                    );
                },
                OpCode::Concat
                | OpCode::Index
                | OpCode::Length
                | OpCode::NumToString
                | OpCode::StringEqual
                | OpCode::StringReplace
                | OpCode::StringSplit
                | OpCode::StringToNum => {
                    lemma_strings(s, p, starts, op);
                },
                OpCode::PushNumber => {
                    lemma_push_number(s, p, starts, reply);
                },
                OpCode::Add => {
                    lemma_arithmetic(s, p, starts, op, reply, Arithmetic::Add, Comparison::Equal);
                },
                OpCode::Subtract => {
                    lemma_arithmetic(s, p, starts, op, reply, Arithmetic::Subtract, Comparison::Equal);
                },
                OpCode::Multiply => {
                    lemma_arithmetic(s, p, starts, op, reply, Arithmetic::Multiply, Comparison::Equal);
                },
                OpCode::Divide => {
                    lemma_arithmetic(s, p, starts, op, reply, Arithmetic::Divide, Comparison::Equal);
                },
                OpCode::Modulo => {
                    lemma_arithmetic(s, p, starts, op, reply, Arithmetic::Modulo, Comparison::Equal);
                },
                OpCode::Floor | OpCode::Equal => {
                    lemma_arithmetic(s, p, starts, op, reply, Arithmetic::Add, Comparison::Equal);
                },
                OpCode::NotEqual => {
                    lemma_arithmetic(s, p, starts, op, reply, Arithmetic::Add, Comparison::NotEqual);
                },
                OpCode::LessThan => {
                    lemma_arithmetic(s, p, starts, op, reply, Arithmetic::Add, Comparison::LessThan);
                },
                OpCode::GreaterThan => {
                    lemma_arithmetic(s, p, starts, op, reply, Arithmetic::Add, Comparison::GreaterThan);
                },
                OpCode::LessEqual => {
                    lemma_arithmetic(s, p, starts, op, reply, Arithmetic::Add, Comparison::LessEqual);
                },
                OpCode::GreaterEqual => {
                    lemma_arithmetic(s, p, starts, op, reply, Arithmetic::Add, Comparison::GreaterEqual);
                },
                OpCode::OutputNumber | OpCode::OutputString => {
                    lemma_output(s, p, starts, op, reply);
                },
                OpCode::InputChar | OpCode::InputEof | OpCode::InputLine => {
                    lemma_input(s, p, starts, op, reply);
                },
                OpCode::Return => {},
            }
        }
    }
}

/// A step from a safe state never fails with `InvalidProgram`, and the
/// state that it leaves is safe again.
pub proof fn law_safe_steps(s: MachineView, p: ProgramView, reply: ReplyView)
    requires
        safe(s, p),
        fits(step(s, p, reply).state),
    ensures
        step(s, p, reply).result != Err::<ActionView, RuntimeError>(RuntimeError::InvalidProgram),
        safe(step(s, p, reply).state, p),
{
    let starts = choose|starts: Set<int>| safe_in(s, p, starts);
    lemma_step_safe(s, p, starts, reply);
}

/// The classes that are registered are classes of the program.
proof fn lemma_registered(p: ProgramView, starts: Set<int>, sizes: Sizes, count: nat)
    requires
        count <= p.class_names.len(),
        p.class_names.len() == p.classes.len(),
        p.classes.len() <= usize::MAX,
    ensures
        good_map(registered(p.class_names, count), p, starts, sizes),
    decreases count,
{
    if count > 0 {
        lemma_registered(p, starts, sizes, (count - 1) as nat);
    }
}

/// The state in which a well-formed program starts is safe.
pub proof fn law_start_is_safe(p: ProgramView)
    requires
        well_formed(p),
        start(p) is Ok,
        p.strings.len() <= usize::MAX,
        p.classes.len() <= usize::MAX,
    ensures
        safe(start(p)->Ok_0, p),
{
    let starts = choose|starts: Set<int>| laid_out(p, starts);
    let s = start(p)->Ok_0;
    lemma_first_named(p.class_names, p.main_class, 0);
    lemma_registered(p, starts, s.sizes(), p.class_names.len());
    assert(safe_in(s, p, starts));
}

} // verus!
