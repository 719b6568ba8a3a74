//! What one step of the machine does, as mathematics.
//!
//! A machine state and a program are plain values here; `step` maps a state,
//! a program and the caller's reply to the next state and to what the machine
//! returns. `Machine::step` in `interpreter` is proved to compute exactly
//! this function.

use vstd::prelude::*;
use crate::bytecode::{OpCode, ProgramView, spec_short};
use crate::number::Number;
use crate::value::{ActionView, Arithmetic, Comparison, ReplyView, RuntimeError, Value};

verus! {

/// An object: its class, as an index into the program's classes, and its
/// member variables.
pub struct InstanceView {
    pub class: usize,
    pub variables: Map<u16, Value>,
}

/// A suspended call: the object that made it, the offset of the calling
/// instruction, and the caller's local variables.
pub struct FrameView {
    pub caller: usize,
    pub index: usize,
    pub locals: Map<u16, Value>,
}

/// The state of a machine.
pub struct MachineView {
    /// Every object made so far. Objects are never removed.
    pub instances: Seq<InstanceView>,
    /// The program's string constants, followed by every string made so far.
    pub strings: Seq<Seq<u8>>,
    /// The suspended calls, the latest last.
    pub frames: Seq<FrameView>,
    /// The value stack, the top last.
    pub stack: Seq<Value>,
    pub globals: Map<u16, Value>,
    /// The local variables of the running function.
    pub locals: Map<u16, Value>,
    /// The variables made at run time: `Value::Variable(i)` names the `i`th.
    pub variables: Seq<Option<Value>>,
    /// The object whose function is running.
    pub current: usize,
    /// The offset of the instruction to execute next.
    pub index: usize,
}

/// A state after a step, and what the step returns.
pub struct Outcome {
    pub state: MachineView,
    pub result: Result<ActionView, RuntimeError>,
}

impl MachineView {
    /// The step fails, and leaves the machine as it was.
    pub open spec fn fail(self, error: RuntimeError) -> Outcome {
        Outcome { state: self, result: Err(error) }
    }

    /// The step asks the caller for something, and leaves the machine as it
    /// was: the same instruction runs again, with the answer.
    pub open spec fn ask(self, action: ActionView) -> Outcome {
        Outcome { state: self, result: Ok(action) }
    }

    /// The instruction is done.
    pub open spec fn done(self) -> Outcome {
        Outcome { state: self, result: Ok(ActionView::Continue) }
    }

    /// The value `depth` places below the top of the stack.
    pub open spec fn top(self, depth: int) -> Value {
        self.stack[self.stack.len() - 1 - depth]
    }

    /// The machine without the top `count` values of its stack.
    pub open spec fn popped(self, count: int) -> MachineView {
        MachineView { stack: self.stack.take(self.stack.len() - count), ..self }
    }

    /// The machine with one value more on its stack.
    pub open spec fn pushed(self, value: Value) -> MachineView {
        MachineView { stack: self.stack.push(value), ..self }
    }

    /// The machine at another instruction.
    pub open spec fn at(self, index: int) -> MachineView {
        MachineView { index: index as usize, ..self }
    }

    /// The machine with one more string, which has the handle
    /// `self.strings.len()`.
    pub open spec fn with_string(self, bytes: Seq<u8>) -> MachineView {
        MachineView { strings: self.strings.push(bytes), ..self }
    }

    /// The value that a name holds.
    pub open spec fn lookup(self, name: Value) -> Result<Value, RuntimeError> {
        match name {
            Value::GlobalName(id) => if self.globals.contains_key(id) {
                Ok(self.globals[id])
            } else {
                Err(RuntimeError::UnsetName)
            },
            Value::LocalName(id) => if self.locals.contains_key(id) {
                Ok(self.locals[id])
            } else {
                Err(RuntimeError::UnsetName)
            },
            Value::MemberName(id) => if self.current >= self.instances.len() {
                Err(RuntimeError::InvalidProgram)
            } else if self.instances[self.current as int].variables.contains_key(id) {
                Ok(self.instances[self.current as int].variables[id])
            } else {
                Err(RuntimeError::UnsetName)
            },
            Value::Variable(slot) => if slot >= self.variables.len() {
                Err(RuntimeError::InvalidProgram)
            } else {
                match self.variables[slot as int] {
                    Some(value) => Ok(value),
                    None => Err(RuntimeError::UnsetName),
                }
            },
            _ => Err(RuntimeError::WrongType),
        }
    }

    /// The machine after a name was given a value.
    pub open spec fn bind(self, name: Value, value: Value) -> Result<MachineView, RuntimeError> {
        match name {
            Value::GlobalName(id) => Ok(MachineView { globals: self.globals.insert(id, value), ..self }),
            Value::LocalName(id) => Ok(MachineView { locals: self.locals.insert(id, value), ..self }),
            Value::MemberName(id) => if self.current >= self.instances.len() {
                Err(RuntimeError::InvalidProgram)
            } else {
                let object = self.instances[self.current as int];
                Ok(
                    MachineView {
                        instances: self.instances.update(
                            self.current as int,
                            InstanceView { variables: object.variables.insert(id, value), ..object },
                        ),
                        ..self
                    },
                )
            },
            Value::Variable(slot) => if slot >= self.variables.len() {
                Err(RuntimeError::InvalidProgram)
            } else {
                Ok(MachineView { variables: self.variables.update(slot as int, Some(value)), ..self })
            },
            _ => Err(RuntimeError::WrongType),
        }
    }

    /// The bytes of a string value.
    pub open spec fn text(self, value: Value) -> Result<Seq<u8>, RuntimeError> {
        match value {
            Value::String(handle) => if handle < self.strings.len() {
                Ok(self.strings[handle as int])
            } else {
                Err(RuntimeError::InvalidProgram)
            },
            _ => Err(RuntimeError::WrongType),
        }
    }

    /// Whether a value counts as true: a number that is not zero, or a string
    /// that is not empty.
    pub open spec fn truth(self, value: Value) -> Result<bool, RuntimeError> {
        match value {
            Value::Number(n) => Ok(!n.is_zero()),
            Value::String(handle) => if handle < self.strings.len() {
                Ok(self.strings[handle as int].len() > 0)
            } else {
                Err(RuntimeError::InvalidProgram)
            },
            _ => Ok(false),
        }
    }

    /// The machine inside a function of `object` that begins at `target`,
    /// called by the instruction at `self.index`.
    pub open spec fn entered(self, object: usize, target: usize) -> MachineView {
        MachineView {
            frames: self.frames.push(
                FrameView { caller: self.current, index: self.index, locals: self.locals },
            ),
            locals: Map::empty(),
            current: object,
            index: target,
            ..self
        }
    }

    /// The offsets of the running instruction and of the calls that led to
    /// it, the innermost first.
    pub open spec fn trace(self) -> Seq<usize> {
        Seq::new(
            self.frames.len() + 1,
            |i: int| if i == 0 { self.index } else { self.frames[self.frames.len() - i].index },
        )
    }
}

/// How many values an instruction takes from the stack or reads on it.
/// `operand` is the byte after the instruction's code, which counts for
/// `Duplicate` alone.
pub open spec fn demand(op: OpCode, operand: u8) -> nat {
    match op {
        OpCode::Duplicate => (operand + 1) as nat,
        OpCode::PushGlobal
        | OpCode::PushLocal
        | OpCode::PushMember
        | OpCode::PushNumber
        | OpCode::PushSelf
        | OpCode::PushString
        | OpCode::Return
        | OpCode::InputChar
        | OpCode::InputEof
        | OpCode::InputLine
        | OpCode::VarNew => 0,
        OpCode::Call
        | OpCode::Construct
        | OpCode::Instantiate
        | OpCode::JumpIf
        | OpCode::JumpIfNot
        | OpCode::Load
        | OpCode::Pop
        | OpCode::Floor
        | OpCode::Length
        | OpCode::NumToString
        | OpCode::OutputNumber
        | OpCode::OutputString
        | OpCode::StringToNum
        | OpCode::VarDelete => 1,
        OpCode::StringReplace => 3,
        _ => 2,
    }
}

/// Where a backward jump of `amount` from the `JumpIf` at `index` lands.
pub open spec fn backward_target(index: int, amount: int) -> int {
    index + 3 - amount
}

/// Where a forward jump of `amount` from the `JumpIfNot` at `index` lands.
pub open spec fn forward_target(index: int, amount: int) -> int {
    index + 3 + amount
}

/// The globals of a machine that has registered the first `count` classes:
/// each class stands under its name.
pub open spec fn registered(names: Seq<u16>, count: nat) -> Map<u16, Value>
    decreases count,
{
    if count == 0 {
        Map::empty()
    } else {
        registered(names, (count - 1) as nat).insert(names[count - 1], Value::Class((count - 1) as usize))
    }
}

/// The index of the first of `names[from..]` that is `name`, or
/// `names.len()`.
pub open spec fn first_named(names: Seq<u16>, name: u16, from: nat) -> nat
    decreases names.len() - from,
{
    if from >= names.len() {
        names.len()
    } else if names[from as int] == name {
        from
    } else {
        first_named(names, name, from + 1)
    }
}

/// The state in which a program starts: every class registered, one object
/// of the main class, no constructor run, and the main function about to
/// begin. A program without its main class or main function cannot start.
pub open spec fn start(p: ProgramView) -> Result<MachineView, RuntimeError> {
    let main = first_named(p.class_names, p.main_class, 0);
    if p.class_names.len() != p.classes.len() || main >= p.classes.len() {
        Err(RuntimeError::InvalidProgram)
    } else if !p.classes[main as int].funcs.contains_key(p.main_func) {
        Err(RuntimeError::InvalidProgram)
    } else {
        Ok(
            MachineView {
                instances: seq![InstanceView { class: main as usize, variables: Map::empty() }],
                strings: p.strings,
                frames: Seq::empty(),
                stack: Seq::empty(),
                globals: registered(p.class_names, p.class_names.len()),
                locals: Map::empty(),
                variables: Seq::empty(),
                current: 0,
                index: p.classes[main as int].funcs[p.main_func],
            },
        )
    }
}

/// One step: the instruction at `s.index`, if the program has one there, its
/// operands are all there, and the stack is deep enough for it.
pub open spec fn step(s: MachineView, p: ProgramView, reply: ReplyView) -> Outcome {
    if s.index >= p.instructions.len() {
        s.fail(RuntimeError::InvalidProgram)
    } else {
        match OpCode::spec_from_code(p.instructions[s.index as int]) {
            None => s.fail(RuntimeError::InvalidProgram),
            Some(op) => {
                if s.index + op.spec_operands() >= p.instructions.len() {
                    s.fail(RuntimeError::InvalidProgram)
                } else if s.stack.len() < demand(op, p.instructions[s.index + 1]) {
                    s.fail(RuntimeError::EmptyStack)
                } else {
                    execute(s, p, op, reply)
                }
            },
        }
    }
}

/// The two-byte operand of the instruction at `s.index`.
pub open spec fn operand(s: MachineView, p: ProgramView) -> u16 {
    spec_short(p.instructions[s.index + 1], p.instructions[s.index + 2])
}

/// What an instruction does, given that it is whole and the stack is deep
/// enough.
pub open spec fn execute(s: MachineView, p: ProgramView, op: OpCode, reply: ReplyView) -> Outcome {
    let next = s.index + 1 + op.spec_operands();
    match op {
        OpCode::Call => call(s),
        OpCode::Construct => construct(s, p),
        OpCode::Duplicate => s.pushed(s.top(p.instructions[s.index + 1] as int)).at(next).done(),
        OpCode::Instantiate => instantiate(s, p),
        OpCode::JumpIf => jump_if(s, operand(s, p) as int),
        OpCode::JumpIfNot => jump_if_not(s, operand(s, p) as int),
        OpCode::Load => load(s),
        OpCode::LoadFrom => load_from(s, p),
        OpCode::Pop => s.popped(1).at(next).done(),
        OpCode::PushGlobal => s.pushed(Value::GlobalName(operand(s, p))).at(next).done(),
        OpCode::PushLocal => s.pushed(Value::LocalName(operand(s, p))).at(next).done(),
        OpCode::PushMember => s.pushed(Value::MemberName(operand(s, p))).at(next).done(),
        OpCode::PushNumber => push_number(s, p, reply),
        OpCode::PushSelf => s.pushed(Value::Instance(s.current)).at(next).done(),
        OpCode::PushString => s.pushed(Value::String(operand(s, p) as usize)).at(next).done(),
        OpCode::Return => finish(s, p),
        OpCode::Store => store(s, false),
        OpCode::StoreKeep => store(s, true),
        OpCode::Add => compute(s, Arithmetic::Add, reply),
        OpCode::Subtract => compute(s, Arithmetic::Subtract, reply),
        OpCode::Multiply => compute(s, Arithmetic::Multiply, reply),
        OpCode::Divide => compute(s, Arithmetic::Divide, reply),
        OpCode::Modulo => compute(s, Arithmetic::Modulo, reply),
        OpCode::Floor => floor(s, reply),
        OpCode::Equal => compare(s, Comparison::Equal, reply),
        OpCode::NotEqual => compare(s, Comparison::NotEqual, reply),
        OpCode::LessThan => compare(s, Comparison::LessThan, reply),
        OpCode::GreaterThan => compare(s, Comparison::GreaterThan, reply),
        OpCode::LessEqual => compare(s, Comparison::LessEqual, reply),
        OpCode::GreaterEqual => compare(s, Comparison::GreaterEqual, reply),
        OpCode::Concat => concat(s),
        OpCode::Index => index(s),
        OpCode::Length => length(s),
        OpCode::NumToString => num_to_string(s),
        OpCode::StringEqual => string_equal(s),
        OpCode::StringReplace => string_replace(s),
        OpCode::StringSplit => string_split(s),
        OpCode::StringToNum => string_to_num(s),
        OpCode::InputChar => input_char(s, reply),
        OpCode::InputEof => input_eof(s, reply),
        OpCode::InputLine => input_line(s, reply),
        OpCode::OutputNumber => output_number(s, reply),
        OpCode::OutputString => output_string(s, reply),
        OpCode::VarDelete => var_delete(s),
        OpCode::VarNew => var_new(s),
    }
}

/// `Call`: takes a function and enters it. The caller's locals are put
/// aside; the function starts without any.
pub open spec fn call(s: MachineView) -> Outcome {
    match s.top(0) {
        Value::Function(object, target) => if object >= s.instances.len() {
            s.fail(RuntimeError::InvalidProgram)
        } else {
            s.popped(1).entered(object, target).done()
        },
        _ => s.fail(RuntimeError::WrongType),
    }
}

/// `Construct`: takes an object and enters the constructor of its class, if
/// the class has one.
pub open spec fn construct(s: MachineView, p: ProgramView) -> Outcome {
    match s.top(0) {
        Value::Instance(object) => if object >= s.instances.len() || s.instances[object as int].class
            >= p.classes.len() {
            s.fail(RuntimeError::InvalidProgram)
        } else {
            match p.classes[s.instances[object as int].class as int].constructor {
                None => s.popped(1).at(s.index + 1).done(),
                Some(target) => s.popped(1).entered(object, target).done(),
            }
        },
        _ => s.fail(RuntimeError::WrongType),
    }
}

/// `Return`: resumes the latest suspended call after its calling
/// instruction, or halts if there is none.
pub open spec fn finish(s: MachineView, p: ProgramView) -> Outcome {
    if s.frames.len() == 0 {
        s.ask(ActionView::Halt)
    } else {
        let frame = s.frames.last();
        if frame.index >= p.instructions.len() {
            s.fail(RuntimeError::InvalidProgram)
        } else {
            MachineView {
                frames: s.frames.drop_last(),
                locals: frame.locals,
                current: frame.caller,
                index: (frame.index + 1) as usize,
                ..s
            }.done()
        }
    }
}

/// `Instantiate`: takes a class and gives a new object of it. The object is
/// added after all others, so every handle given before stays good.
pub open spec fn instantiate(s: MachineView, p: ProgramView) -> Outcome {
    match s.top(0) {
        Value::Class(class) => if class >= p.classes.len() {
            s.fail(RuntimeError::InvalidProgram)
        } else {
            MachineView {
                instances: s.instances.push(InstanceView { class, variables: Map::empty() }),
                ..s
            }.popped(1).pushed(Value::Instance(s.instances.len() as usize)).at(s.index + 1).done()
        },
        _ => s.fail(RuntimeError::WrongType),
    }
}

/// `JumpIf`: takes a value and, if it counts as true, jumps backward.
pub open spec fn jump_if(s: MachineView, amount: int) -> Outcome {
    match s.truth(s.top(0)) {
        Err(error) => s.fail(error),
        Ok(true) => if amount > s.index + 2 {
            s.fail(RuntimeError::InvalidProgram)
        } else {
            s.popped(1).at(backward_target(s.index as int, amount)).done()
        },
        Ok(false) => s.popped(1).at(s.index + 3).done(),
    }
}

/// `JumpIfNot`: takes a value and, unless it counts as true, jumps forward.
pub open spec fn jump_if_not(s: MachineView, amount: int) -> Outcome {
    match s.truth(s.top(0)) {
        Err(error) => s.fail(error),
        Ok(true) => s.popped(1).at(s.index + 3).done(),
        Ok(false) => if forward_target(s.index as int, amount) > usize::MAX {
            s.fail(RuntimeError::InvalidProgram)
        } else {
            s.popped(1).at(forward_target(s.index as int, amount)).done()
        },
    }
}

/// `Load`: takes a name and gives the value it holds.
pub open spec fn load(s: MachineView) -> Outcome {
    match s.lookup(s.top(0)) {
        Err(error) => s.fail(error),
        Ok(value) => s.popped(1).pushed(value).at(s.index + 1).done(),
    }
}

/// `LoadFrom`: takes a member name and, below it, a name that holds an
/// object. Gives that object's variable of the member name, or else the
/// function of that name of the object's class.
pub open spec fn load_from(s: MachineView, p: ProgramView) -> Outcome {
    match s.top(0) {
        Value::MemberName(member) => match s.lookup(s.top(1)) {
            Err(error) => s.fail(error),
            Ok(Value::Instance(object)) => if object >= s.instances.len() {
                s.fail(RuntimeError::InvalidProgram)
            } else if s.instances[object as int].variables.contains_key(member) {
                s.popped(2).pushed(s.instances[object as int].variables[member]).at(s.index + 1).done()
            } else if s.instances[object as int].class >= p.classes.len() {
                s.fail(RuntimeError::InvalidProgram)
            } else if p.classes[s.instances[object as int].class as int].funcs.contains_key(member) {
                s.popped(2).pushed(
                    Value::Function(
                        object,
                        p.classes[s.instances[object as int].class as int].funcs[member],
                    ),
                ).at(s.index + 1).done()
            } else {
                s.fail(RuntimeError::UnsetName)
            },
            Ok(_) => s.fail(RuntimeError::WrongType),
        },
        _ => s.fail(RuntimeError::WrongType),
    }
}

/// `Store` and `StoreKeep`: take a value and, below it, a name, and give the
/// name the value. `StoreKeep` puts the value back on the stack.
pub open spec fn store(s: MachineView, keep: bool) -> Outcome {
    match s.bind(s.top(1), s.top(0)) {
        Err(error) => s.fail(error),
        Ok(bound) => if keep {
            bound.popped(2).pushed(s.top(0)).at(s.index + 1).done()
        } else {
            bound.popped(2).at(s.index + 1).done()
        },
    }
}

/// `PushNumber`: gives the number that a literal of the program spells. The
/// caller reads the literal.
pub open spec fn push_number(s: MachineView, p: ProgramView, reply: ReplyView) -> Outcome {
    if operand(s, p) >= p.numbers.len() {
        s.fail(RuntimeError::InvalidProgram)
    } else {
        match reply {
            ReplyView::Number(n) => s.pushed(Value::Number(n)).at(s.index + 3).done(),
            _ => s.ask(ActionView::Evaluate(p.numbers[operand(s, p) as int])),
        }
    }
}

/// The arithmetic instructions: take two numbers and give `below op top`.
/// The caller computes.
pub open spec fn compute(s: MachineView, op: Arithmetic, reply: ReplyView) -> Outcome {
    match (s.top(0), s.top(1)) {
        (Value::Number(right), Value::Number(left)) => match reply {
            ReplyView::Number(n) => s.popped(2).pushed(Value::Number(n)).at(s.index + 1).done(),
            _ => s.ask(ActionView::Compute(op, left, right)),
        },
        _ => s.fail(RuntimeError::WrongType),
    }
}

/// `Floor`: takes a number and gives it rounded down. The caller computes.
pub open spec fn floor(s: MachineView, reply: ReplyView) -> Outcome {
    match s.top(0) {
        Value::Number(n) => match reply {
            ReplyView::Number(rounded) => s.popped(1).pushed(Value::Number(rounded)).at(s.index + 1).done(),
            _ => s.ask(ActionView::Floor(n)),
        },
        _ => s.fail(RuntimeError::WrongType),
    }
}

/// The comparing instructions: take two numbers and give one if
/// `below op top` holds and zero if not. The caller compares.
pub open spec fn compare(s: MachineView, op: Comparison, reply: ReplyView) -> Outcome {
    match (s.top(0), s.top(1)) {
        (Value::Number(right), Value::Number(left)) => match reply {
            ReplyView::Flag(flag) => s.popped(2).pushed(Value::Number(Number::spec_flag(flag))).at(
                s.index + 1,
            ).done(),
            _ => s.ask(ActionView::Compare(op, left, right)),
        },
        _ => s.fail(RuntimeError::WrongType),
    }
}

/// The machine after an instruction that took `count` values and gave a new
/// string.
pub open spec fn gave_string(s: MachineView, count: int, bytes: Seq<u8>) -> Outcome {
    s.popped(count).with_string(bytes).pushed(Value::String(s.strings.len() as usize)).at(
        s.index + 1,
    ).done()
}

/// `Concat`: takes two strings and gives the lower one followed by the top
/// one.
pub open spec fn concat(s: MachineView) -> Outcome {
    match s.text(s.top(0)) {
        Err(error) => s.fail(error),
        Ok(tail) => match s.text(s.top(1)) {
            Err(error) => s.fail(error),
            Ok(head) => gave_string(s, 2, head + tail),
        },
    }
}

/// `Index`: takes a number and, below it, a string, and gives the string of
/// the one byte at that index.
pub open spec fn index(s: MachineView) -> Outcome {
    match s.top(0) {
        Value::Number(n) => match s.text(s.top(1)) {
            Err(error) => s.fail(error),
            Ok(text) => match n.spec_index(text.len(), false) {
                None => s.fail(RuntimeError::InvalidIndex),
                Some(i) => gave_string(s, 2, seq![text[i as int]]),
            },
        },
        _ => s.fail(RuntimeError::WrongType),
    }
}

/// `Length`: takes a string and gives the number of its bytes.
pub open spec fn length(s: MachineView) -> Outcome {
    match s.text(s.top(0)) {
        Err(error) => s.fail(error),
        Ok(text) => s.popped(1).pushed(Value::Number(Number::spec_from_len(text.len()))).at(
            s.index + 1,
        ).done(),
    }
}

/// `NumToString`: takes a whole number from 0 to 255 and gives the string of
/// that one byte.
pub open spec fn num_to_string(s: MachineView) -> Outcome {
    match s.top(0) {
        Value::Number(n) => match n.spec_byte() {
            None => s.fail(RuntimeError::WrongType),
            Some(byte) => gave_string(s, 1, seq![byte]),
        },
        _ => s.fail(RuntimeError::WrongType),
    }
}

/// `StringToNum`: takes a string of one byte and gives the number of the
/// byte.
pub open spec fn string_to_num(s: MachineView) -> Outcome {
    match s.text(s.top(0)) {
        Err(error) => s.fail(error),
        Ok(text) => if text.len() != 1 {
            s.fail(RuntimeError::WrongType)
        } else {
            s.popped(1).pushed(Value::Number(Number::spec_exact(text[0] as nat))).at(s.index + 1).done()
        },
    }
}

/// `StringEqual`: takes two strings and gives one if they hold the same
/// bytes and zero if not.
pub open spec fn string_equal(s: MachineView) -> Outcome {
    match s.text(s.top(0)) {
        Err(error) => s.fail(error),
        Ok(second) => match s.text(s.top(1)) {
            Err(error) => s.fail(error),
            Ok(first) => s.popped(2).pushed(Value::Number(Number::spec_flag(first == second))).at(
                s.index + 1,
            ).done(),
        },
    }
}

/// `StringSplit`: takes a number and, below it, a string, and gives the
/// string's bytes before that index and, on top, those from it on. The
/// index may be the string's length.
pub open spec fn string_split(s: MachineView) -> Outcome {
    match s.top(0) {
        Value::Number(n) => match s.text(s.top(1)) {
            Err(error) => s.fail(error),
            Ok(text) => match n.spec_index(text.len(), true) {
                None => s.fail(RuntimeError::InvalidIndex),
                Some(i) => s.popped(2).with_string(text.take(i as int)).with_string(
                    text.skip(i as int),
                ).pushed(Value::String(s.strings.len() as usize)).pushed(
                    Value::String((s.strings.len() + 1) as usize),
                ).at(s.index + 1).done(),
            },
        },
        _ => s.fail(RuntimeError::WrongType),
    }
}

/// `StringReplace`: takes a string of one byte, below it a number and below
/// that a string, and gives the lower string with the byte at that index
/// replaced.
pub open spec fn string_replace(s: MachineView) -> Outcome {
    match s.text(s.top(0)) {
        Err(error) => s.fail(error),
        Ok(replacement) => match s.top(1) {
            Value::Number(n) => match s.text(s.top(2)) {
                Err(error) => s.fail(error),
                Ok(text) => if replacement.len() != 1 {
                    s.fail(RuntimeError::WrongType)
                } else {
                    match n.spec_index(text.len(), false) {
                        None => s.fail(RuntimeError::InvalidIndex),
                        Some(i) => gave_string(s, 3, text.update(i as int, replacement[0])),
                    }
                },
            },
            _ => s.fail(RuntimeError::WrongType),
        },
    }
}

/// `InputChar`: gives the string of the next byte of input, or of the byte
/// zero at the end of the input. The caller reads.
pub open spec fn input_char(s: MachineView, reply: ReplyView) -> Outcome {
    match reply {
        ReplyView::Byte(Some(byte)) => gave_string(s, 0, seq![byte]),
        ReplyView::Byte(None) => gave_string(s, 0, seq![0u8]),
        _ => s.ask(ActionView::ReadChar),
    }
}

/// `InputLine`: gives the next line of input. The caller reads.
pub open spec fn input_line(s: MachineView, reply: ReplyView) -> Outcome {
    match reply {
        ReplyView::Line(bytes) => gave_string(s, 0, bytes),
        _ => s.ask(ActionView::ReadLine),
    }
}

/// `InputEof`: gives one at the end of the input and zero before it. The
/// caller looks.
pub open spec fn input_eof(s: MachineView, reply: ReplyView) -> Outcome {
    match reply {
        ReplyView::Flag(flag) => s.pushed(Value::Number(Number::spec_flag(flag))).at(s.index + 1).done(),
        _ => s.ask(ActionView::TestEof),
    }
}

/// `OutputString`: takes a string and has the caller write exactly its
/// bytes.
pub open spec fn output_string(s: MachineView, reply: ReplyView) -> Outcome {
    match s.text(s.top(0)) {
        Err(error) => s.fail(error),
        Ok(text) => match reply {
            ReplyView::Written(true) => s.popped(1).at(s.index + 1).done(),
            ReplyView::Written(false) => s.fail(RuntimeError::OutputError),
            _ => s.ask(ActionView::WriteString(text)),
        },
    }
}

/// `OutputNumber`: takes a number and has the caller write it.
pub open spec fn output_number(s: MachineView, reply: ReplyView) -> Outcome {
    match s.top(0) {
        Value::Number(n) => match reply {
            ReplyView::Written(true) => s.popped(1).at(s.index + 1).done(),
            ReplyView::Written(false) => s.fail(RuntimeError::OutputError),
            _ => s.ask(ActionView::WriteNumber(n)),
        },
        _ => s.fail(RuntimeError::WrongType),
    }
}

/// `VarNew`: makes a variable without a value and gives its name, which no
/// other variable has.
pub open spec fn var_new(s: MachineView) -> Outcome {
    MachineView { variables: s.variables.push(None), ..s }.pushed(
        Value::Variable(s.variables.len() as usize),
    ).at(s.index + 1).done()
}

/// `VarDelete`: takes the name of a variable made at run time and leaves it
/// without a value.
pub open spec fn var_delete(s: MachineView) -> Outcome {
    match s.top(0) {
        Value::Variable(slot) => if slot >= s.variables.len() {
            s.fail(RuntimeError::InvalidProgram)
        } else {
            MachineView { variables: s.variables.update(slot as int, None), ..s }.popped(1).at(
                s.index + 1,
            ).done()
        },
        _ => s.fail(RuntimeError::WrongType),
    }
}

} // verus!
