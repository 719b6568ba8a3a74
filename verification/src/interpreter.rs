//! The stack machine.
//!
//! A `Machine` holds everything a running program has: its objects, strings,
//! stacks and variables. `Machine::step` executes one instruction. Where an
//! instruction needs arithmetic on numbers, input or output, the step changes
//! nothing and returns the request as an `Action`; the caller does the work
//! and steps again with the `Reply`, and only that step completes the
//! instruction.

use vstd::prelude::*;
use std::collections::HashMap;
use byte_string::ByteString;
use crate::bytecode::{BytecodeProgram, LocalName, MemberName, OpCode, OpcodeIndex, spec_short};
use crate::bytes::{as_bytes, new_byte_string, bytes_of, copy_bytes, duplicate, pool_of, same_bytes};
use crate::number::Number;
use crate::safety::{law_safe_steps, law_start_is_safe, safe, well_formed};
use crate::semantics;
use crate::semantics::{FrameView, InstanceView, MachineView, Outcome};
use crate::value::{Action, Arithmetic, Comparison, Reply, RuntimeError, Value, result_view};

verus! {

/// An object.
pub struct Instance {
    /// The object's class, as an index into the program's classes.
    pub class: usize,
    pub variables: HashMap<MemberName, Value>,
}

impl View for Instance {
    type V = InstanceView;

    open spec fn view(&self) -> InstanceView {
        InstanceView { class: self.class, variables: self.variables@ }
    }
}

/// A suspended call.
pub struct Frame {
    pub caller: usize,
    pub index: OpcodeIndex,
    pub locals: HashMap<LocalName, Value>,
}

impl View for Frame {
    type V = FrameView;

    open spec fn view(&self) -> FrameView {
        FrameView { caller: self.caller, index: self.index, locals: self.locals@ }
    }
}

/// A running program.
pub struct Machine {
    pub instances: Vec<Instance>,
    pub strings: Vec<ByteString>,
    pub frames: Vec<Frame>,
    pub stack: Vec<Value>,
    pub globals: HashMap<u16, Value>,
    pub locals: HashMap<LocalName, Value>,
    pub variables: Vec<Option<Value>>,
    pub current: usize,
    pub index: OpcodeIndex,
}

/// What a list of objects holds.
pub open spec fn instances_of(instances: Seq<Instance>) -> Seq<InstanceView> {
    Seq::new(instances.len(), |i: int| instances[i]@)
}

/// What a list of suspended calls holds.
pub open spec fn frames_of(frames: Seq<Frame>) -> Seq<FrameView> {
    Seq::new(frames.len(), |i: int| frames[i]@)
}

impl View for Machine {
    type V = MachineView;

    open spec fn view(&self) -> MachineView {
        MachineView {
            instances: instances_of(self.instances@),
            strings: pool_of(self.strings@),
            frames: frames_of(self.frames@),
            stack: self.stack@,
            globals: self.globals@,
            locals: self.locals@,
            variables: self.variables@,
            current: self.current,
            index: self.index,
        }
    }
}

/// A machine state and a returned value are what a step is to give.
pub open spec fn is_outcome(
    state: MachineView,
    result: Result<Action, RuntimeError>,
    outcome: Outcome,
) -> bool {
    state == outcome.state && result_view(result) == outcome.result
}

/// How many values an instruction takes from the stack or reads on it.
pub fn demand(op: OpCode, operand: u8) -> (count: usize)
    ensures
        count == semantics::demand(op, operand),
{
    match op {
        OpCode::Duplicate => operand as usize + 1,
        OpCode::PushGlobal
        | OpCode::PushLocal
        | OpCode::PushMember
        | OpCode::PushNumber
        | OpCode::PushSelf
        | OpCode::PushString
        | OpCode::Return
        | OpCode::InputChar
        | OpCode::InputEof
        | OpCode::InputLine
        | OpCode::VarNew => 0,
        OpCode::Call
        | OpCode::Construct
        | OpCode::Instantiate
        | OpCode::JumpIf
        | OpCode::JumpIfNot
        | OpCode::Load
        | OpCode::Pop
        | OpCode::Floor
        | OpCode::Length
        | OpCode::NumToString
        | OpCode::OutputNumber
        | OpCode::OutputString
        | OpCode::StringToNum
        | OpCode::VarDelete => 1,
        OpCode::StringReplace => 3,
        _ => 2,
    }
}

/// The two-byte operand of the instruction at `index`.
pub fn read_short(instructions: &Vec<u8>, index: usize) -> (value: u16)
    requires
        index + 2 < instructions.len(),
    ensures
        value == spec_short(instructions[index + 1], instructions[index + 2]),
{
    let hi: u16 = instructions[index + 1] as u16;
    let lo: u16 = instructions[index + 2] as u16;
    hi * 256 + lo
}

impl Machine {
    /// A machine about to run the program's main function.
    pub fn new(program: &BytecodeProgram) -> (r: Result<Machine, RuntimeError>)
        ensures
            match semantics::start(program@) {
                Ok(state) => r is Ok && r->Ok_0@ == state,
                Err(error) => r is Err && r->Err_0 == error,
            },
            well_formed(program@) ==> (r matches Ok(machine) ==> safe(machine@, program@)),
    {
        let count: usize = program.class_names.len();
        if count != program.classes.len() {
            return Err(RuntimeError::InvalidProgram);
        }
        let mut main: usize = 0;
        while main < count && program.class_names[main] != program.main_class
            invariant
                main <= count,
                count == program.class_names.len(),
                semantics::first_named(program.class_names@, program.main_class, 0)
                    == semantics::first_named(program.class_names@, program.main_class, main as nat),
            decreases count - main,
        {
            main += 1;
        }
        if main >= count {
            return Err(RuntimeError::InvalidProgram);
        }
        let index: usize = match program.classes[main].funcs.get(&program.main_func) {
            Some(index) => *index,
            None => {
                return Err(RuntimeError::InvalidProgram);
            },
        };
        let mut globals: HashMap<u16, Value> = HashMap::new();
        let mut i: usize = 0;
        while i < count
            invariant
                i <= count,
                count == program.class_names.len(),
                globals@ == semantics::registered(program.class_names@, i as nat),
            decreases count - i,
        {
            globals.insert(program.class_names[i], Value::Class(i));
            i += 1;
        }
        let mut strings: Vec<ByteString> = Vec::new();
        let mut j: usize = 0;
        while j < program.strings.len()
            invariant
                j <= program.strings.len(),
                pool_of(strings@) == pool_of(program.strings@).take(j as int),
            decreases program.strings.len() - j,
        {
            let ghost before = strings@;
            strings.push(duplicate(&program.strings[j]));
            assert(pool_of(strings@) =~= pool_of(before).push(bytes_of(program.strings[j as int])));
            assert(pool_of(program.strings@).take(j + 1) =~= pool_of(program.strings@).take(j as int).push(
                bytes_of(program.strings[j as int]),
            ));
            j += 1;
        }
        assert(pool_of(program.strings@).take(j as int) =~= pool_of(program.strings@));
        let mut instances: Vec<Instance> = Vec::new();
        instances.push(Instance { class: main, variables: HashMap::new() });
        let machine = Machine {
            instances,
            strings,
            frames: Vec::new(),
            stack: Vec::new(),
            globals,
            locals: HashMap::new(),
            variables: Vec::new(),
            current: 0,
            index,
        };
        assert(machine@.instances =~= seq![InstanceView { class: main, variables: Map::empty() }]);
        assert(machine@.frames =~= Seq::empty());
        proof {
            if well_formed(program@) {
                assert(program@.strings.len() == program.strings.len());
                assert(program@.classes.len() == program.classes.len());
                law_start_is_safe(program@);
            }
        }
        Ok(machine)
    }

    /// The offsets of the running instruction and of the calls that led to
    /// it, the innermost first.
    pub fn stack_trace(&self) -> (trace: Vec<OpcodeIndex>)
        ensures
            trace@ == self@.trace(),
    {
        let mut trace: Vec<OpcodeIndex> = Vec::new();
        trace.push(self.index);
        let mut i: usize = self.frames.len();
        while i > 0
            invariant
                i <= self.frames.len(),
                trace@ == self@.trace().take(self.frames.len() - i + 1),
            decreases i,
        {
            i -= 1;
            trace.push(self.frames[i].index);
            assert(trace@ =~= self@.trace().take(self.frames.len() - i + 1));
        }
        assert(self@.trace().take(self.frames.len() + 1) =~= self@.trace());
        trace
    }

    fn top(&self, depth: usize) -> (value: Value)
        requires
            depth < self.stack.len(),
        ensures
            value == self@.top(depth as int),
    {
        self.stack[self.stack.len() - 1 - depth]
    }

    fn pop(&mut self, count: usize)
        requires
            count <= old(self).stack.len(),
        ensures
            final(self)@ == old(self)@.popped(count as int),
            count == 0 ==> final(self)@ == old(self)@,
    {
        let keep: usize = self.stack.len() - count;
        self.stack.truncate(keep);
        assert(count == 0 ==> self.stack@ =~= old(self).stack@);
    }

    fn push(&mut self, value: Value)
        ensures
            final(self)@ == old(self)@.pushed(value),
    {
        self.stack.push(value);
    }

    fn go(&mut self, index: usize)
        ensures
            final(self)@ == old(self)@.at(index as int),
    {
        self.index = index;
    }

    fn add_string(&mut self, bytes: Vec<u8>)
        ensures
            final(self)@ == old(self)@.with_string(bytes@),
            final(self).strings.len() == old(self).strings.len() + 1,
    {
        self.strings.push(new_byte_string(bytes));
        assert(pool_of(self.strings@) =~= pool_of(old(self).strings@).push(bytes@));
    }

    fn lookup(&self, name: Value) -> (r: Result<Value, RuntimeError>)
        ensures
            r == self@.lookup(name),
    {
        match name {
            Value::GlobalName(id) => match self.globals.get(&id) {
                Some(value) => Ok(*value),
                None => Err(RuntimeError::UnsetName),
            },
            Value::LocalName(id) => match self.locals.get(&id) {
                Some(value) => Ok(*value),
                None => Err(RuntimeError::UnsetName),
            },
            Value::MemberName(id) => {
                if self.current >= self.instances.len() {
                    Err(RuntimeError::InvalidProgram)
                } else {
                    match self.instances[self.current].variables.get(&id) {
                        Some(value) => Ok(*value),
                        None => Err(RuntimeError::UnsetName),
                    }
                }
            },
            Value::Variable(slot) => {
                if slot >= self.variables.len() {
                    Err(RuntimeError::InvalidProgram)
                } else {
                    match self.variables[slot] {
                        Some(value) => Ok(value),
                        None => Err(RuntimeError::UnsetName),
                    }
                }
            },
            _ => Err(RuntimeError::WrongType),
        }
    }

    fn bind(&mut self, name: Value, value: Value) -> (r: Result<(), RuntimeError>)
        ensures
            match old(self)@.bind(name, value) {
                Ok(state) => r is Ok && final(self)@ == state,
                Err(error) => r == Err::<(), RuntimeError>(error) && final(self)@ == old(self)@,
            },
    {
        match name {
            Value::GlobalName(id) => {
                self.globals.insert(id, value);
                Ok(())
            },
            Value::LocalName(id) => {
                self.locals.insert(id, value);
                Ok(())
            },
            Value::MemberName(id) => {
                if self.current >= self.instances.len() {
                    Err(RuntimeError::InvalidProgram)
                } else {
                    let current: usize = self.current;
                    self.instances[current].variables.insert(id, value);
                    assert(instances_of(self.instances@) =~= instances_of(old(self).instances@).update(
                        current as int,
                        InstanceView {
                            class: old(self).instances[current as int].class,
                            variables: old(self).instances[current as int].variables@.insert(id, value),
                        },
                    ));
                    Ok(())
                }
            },
            Value::Variable(slot) => {
                if slot >= self.variables.len() {
                    Err(RuntimeError::InvalidProgram)
                } else {
                    self.variables[slot] = Some(value);
                    Ok(())
                }
            },
            _ => Err(RuntimeError::WrongType),
        }
    }

    fn text(&self, value: Value) -> (r: Result<&Vec<u8>, RuntimeError>)
        ensures
            match self@.text(value) {
                Ok(bytes) => r is Ok && r->Ok_0@ == bytes,
                Err(error) => r is Err && r->Err_0 == error,
            },
    {
        match value {
            Value::String(handle) => {
                if handle < self.strings.len() {
                    Ok(as_bytes(&self.strings[handle]))
                } else {
                    Err(RuntimeError::InvalidProgram)
                }
            },
            _ => Err(RuntimeError::WrongType),
        }
    }

    fn truth(&self, value: Value) -> (r: Result<bool, RuntimeError>)
        ensures
            r == self@.truth(value),
    {
        match value {
            Value::Number(n) => Ok(n.is_nonzero()),
            Value::String(handle) => {
                if handle < self.strings.len() {
                    Ok(as_bytes(&self.strings[handle]).len() > 0)
                } else {
                    Err(RuntimeError::InvalidProgram)
                }
            },
            _ => Ok(false),
        }
    }

    fn enter(&mut self, object: usize, target: usize)
        ensures
            final(self)@ == old(self)@.entered(object, target),
    {
        let mut locals: HashMap<LocalName, Value> = HashMap::new();
        std::mem::swap(&mut self.locals, &mut locals);
        self.frames.push(Frame { caller: self.current, index: self.index, locals });
        self.current = object;
        self.index = target;
        assert(frames_of(self.frames@) =~= frames_of(old(self).frames@).push(
            FrameView { caller: old(self).current, index: old(self).index, locals: old(self).locals@ },
        ));
    }

    /// Ends an instruction that took `count` values and gave a new string.
    fn give_string(&mut self, count: usize, bytes: Vec<u8>) -> (r: Result<Action, RuntimeError>)
        requires
            count <= old(self).stack.len(),
            old(self).index < usize::MAX,
        ensures
            is_outcome(final(self)@, r, semantics::gave_string(old(self)@, count as int, bytes@)),
            count == 0 ==> old(self)@.popped(0) == old(self)@,
    {
        let handle: usize = self.strings.len();
        self.pop(count);
        self.add_string(bytes);
        self.push(Value::String(handle));
        self.go(self.index + 1);
        Ok(Action::Continue)
    }

    /// Ends an instruction that took `count` values and gave `value`.
    fn give(&mut self, count: usize, value: Value, width: usize) -> (r: Result<Action, RuntimeError>)
        requires
            count <= old(self).stack.len(),
            old(self).index + width <= usize::MAX,
        ensures
            is_outcome(
                final(self)@,
                r,
                old(self)@.popped(count as int).pushed(value).at(old(self).index + width).done(),
            ),
            count == 0 ==> old(self)@.popped(0) == old(self)@,
    {
        self.pop(count);
        self.push(value);
        self.go(self.index + width);
        Ok(Action::Continue)
    }

    /// Ends an instruction that took `count` values and gave none.
    fn take(&mut self, count: usize, target: usize) -> (r: Result<Action, RuntimeError>)
        requires
            count <= old(self).stack.len(),
        ensures
            is_outcome(final(self)@, r, old(self)@.popped(count as int).at(target as int).done()),
            count == 0 ==> old(self)@.popped(0) == old(self)@,
    {
        self.pop(count);
        self.go(target);
        Ok(Action::Continue)
    }

    fn call(&mut self) -> (r: Result<Action, RuntimeError>)
        requires
            old(self).stack.len() >= 1,
        ensures
            is_outcome(final(self)@, r, semantics::call(old(self)@)),
    {
        match self.top(0) {
            Value::Function(object, target) => {
                if object >= self.instances.len() {
                    Err(RuntimeError::InvalidProgram)
                } else {
                    self.pop(1);
                    self.enter(object, target);
                    Ok(Action::Continue)
                }
            },
            _ => Err(RuntimeError::WrongType),
        }
    }

    fn construct(&mut self, program: &BytecodeProgram) -> (r: Result<Action, RuntimeError>)
        requires
            old(self).stack.len() >= 1,
            old(self).index < usize::MAX,
        ensures
            is_outcome(final(self)@, r, semantics::construct(old(self)@, program@)),
    {
        match self.top(0) {
            Value::Instance(object) => {
                if object >= self.instances.len() || self.instances[object].class
                    >= program.classes.len() {
                    Err(RuntimeError::InvalidProgram)
                } else {
                    match program.classes[self.instances[object].class].constructor {
                        None => self.take(1, self.index + 1),
                        Some(target) => {
                            self.pop(1);
                            self.enter(object, target);
                            Ok(Action::Continue)
                        },
                    }
                }
            },
            _ => Err(RuntimeError::WrongType),
        }
    }

    fn finish(&mut self, program: &BytecodeProgram) -> (r: Result<Action, RuntimeError>)
        ensures
            is_outcome(final(self)@, r, semantics::finish(old(self)@, program@)),
    {
        if self.frames.len() == 0 {
            return Ok(Action::Halt);
        }
        if self.frames[self.frames.len() - 1].index >= program.instructions.len() {
            return Err(RuntimeError::InvalidProgram);
        }
        match self.frames.pop() {
            Some(frame) => {
                self.locals = frame.locals;
                self.current = frame.caller;
                self.index = frame.index + 1;
                assert(frames_of(self.frames@) =~= frames_of(old(self).frames@).drop_last());
                Ok(Action::Continue)
            },
            None => Err(RuntimeError::InvalidProgram),
        }
    }

    fn instantiate(&mut self, program: &BytecodeProgram) -> (r: Result<Action, RuntimeError>)
        requires
            old(self).stack.len() >= 1,
            old(self).index < usize::MAX,
        ensures
            is_outcome(final(self)@, r, semantics::instantiate(old(self)@, program@)),
    {
        match self.top(0) {
            Value::Class(class) => {
                if class >= program.classes.len() {
                    Err(RuntimeError::InvalidProgram)
                } else {
                    let handle: usize = self.instances.len();
                    self.instances.push(Instance { class, variables: HashMap::new() });
                    assert(instances_of(self.instances@) =~= instances_of(old(self).instances@).push(
                        InstanceView { class, variables: Map::empty() },
                    ));
                    self.give(1, Value::Instance(handle), 1)
                }
            },
            _ => Err(RuntimeError::WrongType),
        }
    }

    fn jump_if(&mut self, amount: u16) -> (r: Result<Action, RuntimeError>)
        requires
            old(self).stack.len() >= 1,
            old(self).index + 3 <= usize::MAX,
        ensures
            is_outcome(final(self)@, r, semantics::jump_if(old(self)@, amount as int)),
    {
        match self.truth(self.top(0)) {
            Err(error) => Err(error),
            Ok(true) => {
                if amount as usize > self.index + 2 {
                    Err(RuntimeError::InvalidProgram)
                } else {
                    self.take(1, self.index + 3 - amount as usize)
                }
            },
            Ok(false) => self.take(1, self.index + 3),
        }
    }

    fn jump_if_not(&mut self, amount: u16) -> (r: Result<Action, RuntimeError>)
        requires
            old(self).stack.len() >= 1,
            old(self).index + 3 <= usize::MAX,
        ensures
            is_outcome(final(self)@, r, semantics::jump_if_not(old(self)@, amount as int)),
    {
        match self.truth(self.top(0)) {
            Err(error) => Err(error),
            Ok(true) => self.take(1, self.index + 3),
            Ok(false) => {
                if amount as usize > usize::MAX - (self.index + 3) {
                    Err(RuntimeError::InvalidProgram)
                } else {
                    self.take(1, self.index + 3 + amount as usize)
                }
            },
        }
    }

    fn load(&mut self) -> (r: Result<Action, RuntimeError>)
        requires
            old(self).stack.len() >= 1,
            old(self).index < usize::MAX,
        ensures
            is_outcome(final(self)@, r, semantics::load(old(self)@)),
    {
        match self.lookup(self.top(0)) {
            Err(error) => Err(error),
            Ok(value) => self.give(1, value, 1),
        }
    }

    fn load_from(&mut self, program: &BytecodeProgram) -> (r: Result<Action, RuntimeError>)
        requires
            old(self).stack.len() >= 2,
            old(self).index < usize::MAX,
        ensures
            is_outcome(final(self)@, r, semantics::load_from(old(self)@, program@)),
    {
        match self.top(0) {
            Value::MemberName(member) => match self.lookup(self.top(1)) {
                Err(error) => Err(error),
                Ok(Value::Instance(object)) => {
                    if object >= self.instances.len() {
                        return Err(RuntimeError::InvalidProgram);
                    }
                    let found: Option<Value> = match self.instances[object].variables.get(&member) {
                        Some(value) => Some(*value),
                        None => None,
                    };
                    match found {
                        Some(value) => self.give(2, value, 1),
                        None => {
                            let class: usize = self.instances[object].class;
                            if class >= program.classes.len() {
                                return Err(RuntimeError::InvalidProgram);
                            }
                            match program.classes[class].funcs.get(&member) {
                                Some(target) => self.give(2, Value::Function(object, *target), 1),
                                None => Err(RuntimeError::UnsetName),
                            }
                        },
                    }
                },
                Ok(_) => Err(RuntimeError::WrongType),
            },
            _ => Err(RuntimeError::WrongType),
        }
    }

    fn store(&mut self, keep: bool) -> (r: Result<Action, RuntimeError>)
        requires
            old(self).stack.len() >= 2,
            old(self).index < usize::MAX,
        ensures
            is_outcome(final(self)@, r, semantics::store(old(self)@, keep)),
    {
        let value: Value = self.top(0);
        let name: Value = self.top(1);
        match self.bind(name, value) {
            Err(error) => Err(error),
            Ok(()) => {
                if keep {
                    self.give(2, value, 1)
                } else {
                    self.take(2, self.index + 1)
                }
            },
        }
    }

    fn push_number(&mut self, program: &BytecodeProgram, reply: Reply) -> (r: Result<Action, RuntimeError>)
        requires
            old(self).index + 2 < program.instructions.len(),
        ensures
            is_outcome(final(self)@, r, semantics::push_number(old(self)@, program@, reply@)),
    {
        let constant: usize = read_short(&program.instructions, self.index) as usize;
        if constant >= program.numbers.len() {
            return Err(RuntimeError::InvalidProgram);
        }
        match reply {
            Reply::Number(n) => self.give(0, Value::Number(n), 3),
            _ => Ok(Action::Evaluate(copy_bytes(&program.numbers[constant]))),
        }
    }

    fn compute(&mut self, op: Arithmetic, reply: Reply) -> (r: Result<Action, RuntimeError>)
        requires
            old(self).stack.len() >= 2,
            old(self).index < usize::MAX,
        ensures
            is_outcome(final(self)@, r, semantics::compute(old(self)@, op, reply@)),
    {
        match (self.top(0), self.top(1)) {
            (Value::Number(right), Value::Number(left)) => match reply {
                Reply::Number(n) => self.give(2, Value::Number(n), 1),
                _ => Ok(Action::Compute(op, left, right)),
            },
            _ => Err(RuntimeError::WrongType),
        }
    }

    fn floor(&mut self, reply: Reply) -> (r: Result<Action, RuntimeError>)
        requires
            old(self).stack.len() >= 1,
            old(self).index < usize::MAX,
        ensures
            is_outcome(final(self)@, r, semantics::floor(old(self)@, reply@)),
    {
        match self.top(0) {
            Value::Number(n) => match reply {
                Reply::Number(rounded) => self.give(1, Value::Number(rounded), 1),
                _ => Ok(Action::Floor(n)),
            },
            _ => Err(RuntimeError::WrongType),
        }
    }

    fn compare(&mut self, op: Comparison, reply: Reply) -> (r: Result<Action, RuntimeError>)
        requires
            old(self).stack.len() >= 2,
            old(self).index < usize::MAX,
        ensures
            is_outcome(final(self)@, r, semantics::compare(old(self)@, op, reply@)),
    {
        match (self.top(0), self.top(1)) {
            (Value::Number(right), Value::Number(left)) => match reply {
                Reply::Flag(flag) => self.give(2, Value::Number(Number::from_flag(flag)), 1),
                _ => Ok(Action::Compare(op, left, right)),
            },
            _ => Err(RuntimeError::WrongType),
        }
    }

    fn concat(&mut self) -> (r: Result<Action, RuntimeError>)
        requires
            old(self).stack.len() >= 2,
            old(self).index < usize::MAX,
        ensures
            is_outcome(final(self)@, r, semantics::concat(old(self)@)),
    {
        let tail: &Vec<u8> = match self.text(self.top(0)) {
            Err(error) => {
                return Err(error);
            },
            Ok(bytes) => bytes,
        };
        let head: &Vec<u8> = match self.text(self.top(1)) {
            Err(error) => {
                return Err(error);
            },
            Ok(bytes) => bytes,
        };
        let mut joined: Vec<u8> = copy_bytes(head);
        let mut i: usize = 0;
        while i < tail.len()
            invariant
                i <= tail.len(),
                joined@ == head@ + tail@.take(i as int),
            decreases tail.len() - i,
        {
            joined.push(tail[i]);
            assert(joined@ =~= head@ + tail@.take(i + 1));
            i += 1;
        }
        assert(tail@.take(tail.len() as int) =~= tail@);
        self.give_string(2, joined)
    }

    fn index(&mut self) -> (r: Result<Action, RuntimeError>)
        requires
            old(self).stack.len() >= 2,
            old(self).index < usize::MAX,
        ensures
            is_outcome(final(self)@, r, semantics::index(old(self)@)),
    {
        match self.top(0) {
            Value::Number(n) => {
                let text: &Vec<u8> = match self.text(self.top(1)) {
                    Err(error) => {
                        return Err(error);
                    },
                    Ok(bytes) => bytes,
                };
                match n.to_index(text.len(), false) {
                    None => Err(RuntimeError::InvalidIndex),
                    Some(i) => {
                        let mut one: Vec<u8> = Vec::new();
                        one.push(text[i]);
                        assert(one@ =~= seq![text@[i as int]]);
                        self.give_string(2, one)
                    },
                }
            },
            _ => Err(RuntimeError::WrongType),
        }
    }

    fn length(&mut self) -> (r: Result<Action, RuntimeError>)
        requires
            old(self).stack.len() >= 1,
            old(self).index < usize::MAX,
        ensures
            is_outcome(final(self)@, r, semantics::length(old(self)@)),
    {
        let len: usize = match self.text(self.top(0)) {
            Err(error) => {
                return Err(error);
            },
            Ok(bytes) => bytes.len(),
        };
        self.give(1, Value::Number(Number::from_len(len)), 1)
    }

    fn num_to_string(&mut self) -> (r: Result<Action, RuntimeError>)
        requires
            old(self).stack.len() >= 1,
            old(self).index < usize::MAX,
        ensures
            is_outcome(final(self)@, r, semantics::num_to_string(old(self)@)),
    {
        match self.top(0) {
            Value::Number(n) => match n.to_byte() {
                None => Err(RuntimeError::WrongType),
                Some(byte) => {
                    let mut one: Vec<u8> = Vec::new();
                    one.push(byte);
                    assert(one@ =~= seq![byte]);
                    self.give_string(1, one)
                },
            },
            _ => Err(RuntimeError::WrongType),
        }
    }

    fn string_to_num(&mut self) -> (r: Result<Action, RuntimeError>)
        requires
            old(self).stack.len() >= 1,
            old(self).index < usize::MAX,
        ensures
            is_outcome(final(self)@, r, semantics::string_to_num(old(self)@)),
    {
        let text: &Vec<u8> = match self.text(self.top(0)) {
            Err(error) => {
                return Err(error);
            },
            Ok(bytes) => bytes,
        };
        if text.len() != 1 {
            return Err(RuntimeError::WrongType);
        }
        let n: Number = Number::from_byte(text[0]);
        self.give(1, Value::Number(n), 1)
    }

    fn string_equal(&mut self) -> (r: Result<Action, RuntimeError>)
        requires
            old(self).stack.len() >= 2,
            old(self).index < usize::MAX,
        ensures
            is_outcome(final(self)@, r, semantics::string_equal(old(self)@)),
    {
        let second: &Vec<u8> = match self.text(self.top(0)) {
            Err(error) => {
                return Err(error);
            },
            Ok(bytes) => bytes,
        };
        let first: &Vec<u8> = match self.text(self.top(1)) {
            Err(error) => {
                return Err(error);
            },
            Ok(bytes) => bytes,
        };
        let same: bool = same_bytes(first, second);
        self.give(2, Value::Number(Number::from_flag(same)), 1)
    }

    fn string_split(&mut self) -> (r: Result<Action, RuntimeError>)
        requires
            old(self).stack.len() >= 2,
            old(self).index < usize::MAX,
        ensures
            is_outcome(final(self)@, r, semantics::string_split(old(self)@)),
    {
        match self.top(0) {
            Value::Number(n) => {
                let text: &Vec<u8> = match self.text(self.top(1)) {
                    Err(error) => {
                        return Err(error);
                    },
                    Ok(bytes) => bytes,
                };
                match n.to_index(text.len(), true) {
                    None => Err(RuntimeError::InvalidIndex),
                    Some(at) => {
                        let mut before: Vec<u8> = Vec::new();
                        let mut after: Vec<u8> = Vec::new();
                        let mut i: usize = 0;
                        while i < text.len()
                            invariant
                                i <= text.len(),
                                at <= text.len(),
                                before@ == text@.take(if i < at { i as int } else { at as int }),
                                after@ == text@.subrange(at as int, if i < at { at as int } else { i as int }),
                            decreases text.len() - i,
                        {
                            if i < at {
                                before.push(text[i]);
                                assert(before@ =~= text@.take(i + 1));
                            } else {
                                after.push(text[i]);
                                assert(after@ =~= text@.subrange(at as int, i + 1));
                            }
                            i += 1;
                        }
                        assert(after@ =~= text@.skip(at as int));
                        let handle: usize = self.strings.len();
                        self.pop(2);
                        self.add_string(before);
                        self.add_string(after);
                        let second: usize = self.strings.len() - 1;
                        self.push(Value::String(handle));
                        self.push(Value::String(second));
                        self.go(self.index + 1);
                        Ok(Action::Continue)
                    },
                }
            },
            _ => Err(RuntimeError::WrongType),
        }
    }

    fn string_replace(&mut self) -> (r: Result<Action, RuntimeError>)
        requires
            old(self).stack.len() >= 3,
            old(self).index < usize::MAX,
        ensures
            is_outcome(final(self)@, r, semantics::string_replace(old(self)@)),
    {
        let replacement: &Vec<u8> = match self.text(self.top(0)) {
            Err(error) => {
                return Err(error);
            },
            Ok(bytes) => bytes,
        };
        match self.top(1) {
            Value::Number(n) => {
                let text: &Vec<u8> = match self.text(self.top(2)) {
                    Err(error) => {
                        return Err(error);
                    },
                    Ok(bytes) => bytes,
                };
                if replacement.len() != 1 {
                    return Err(RuntimeError::WrongType);
                }
                match n.to_index(text.len(), false) {
                    None => Err(RuntimeError::InvalidIndex),
                    Some(at) => {
                        let byte: u8 = replacement[0];
                        let mut changed: Vec<u8> = copy_bytes(text);
                        changed[at] = byte;
                        self.give_string(3, changed)
                    },
                }
            },
            _ => Err(RuntimeError::WrongType),
        }
    }

    fn input_char(&mut self, reply: Reply) -> (r: Result<Action, RuntimeError>)
        requires
            old(self).index < usize::MAX,
        ensures
            is_outcome(final(self)@, r, semantics::input_char(old(self)@, reply@)),
    {
        match reply {
            Reply::Byte(read) => {
                let byte: u8 = match read {
                    Some(byte) => byte,
                    None => 0,
                };
                let mut one: Vec<u8> = Vec::new();
                one.push(byte);
                assert(one@ =~= seq![byte]);
                self.give_string(0, one)
            },
            _ => Ok(Action::ReadChar),
        }
    }

    fn input_line(&mut self, reply: Reply) -> (r: Result<Action, RuntimeError>)
        requires
            old(self).index < usize::MAX,
        ensures
            is_outcome(final(self)@, r, semantics::input_line(old(self)@, reply@)),
    {
        match reply {
            Reply::Line(bytes) => self.give_string(0, bytes),
            _ => Ok(Action::ReadLine),
        }
    }

    fn input_eof(&mut self, reply: Reply) -> (r: Result<Action, RuntimeError>)
        requires
            old(self).index < usize::MAX,
        ensures
            is_outcome(final(self)@, r, semantics::input_eof(old(self)@, reply@)),
    {
        match reply {
            Reply::Flag(flag) => self.give(0, Value::Number(Number::from_flag(flag)), 1),
            _ => Ok(Action::TestEof),
        }
    }

    fn output_string(&mut self, reply: Reply) -> (r: Result<Action, RuntimeError>)
        requires
            old(self).stack.len() >= 1,
            old(self).index < usize::MAX,
        ensures
            is_outcome(final(self)@, r, semantics::output_string(old(self)@, reply@)),
    {
        let text: &Vec<u8> = match self.text(self.top(0)) {
            Err(error) => {
                return Err(error);
            },
            Ok(bytes) => bytes,
        };
        match reply {
            Reply::Written(true) => self.take(1, self.index + 1),
            Reply::Written(false) => Err(RuntimeError::OutputError),
            _ => Ok(Action::WriteString(copy_bytes(text))),
        }
    }

    fn output_number(&mut self, reply: Reply) -> (r: Result<Action, RuntimeError>)
        requires
            old(self).stack.len() >= 1,
            old(self).index < usize::MAX,
        ensures
            is_outcome(final(self)@, r, semantics::output_number(old(self)@, reply@)),
    {
        match self.top(0) {
            Value::Number(n) => match reply {
                Reply::Written(true) => self.take(1, self.index + 1),
                Reply::Written(false) => Err(RuntimeError::OutputError),
                _ => Ok(Action::WriteNumber(n)),
            },
            _ => Err(RuntimeError::WrongType),
        }
    }

    fn var_delete(&mut self) -> (r: Result<Action, RuntimeError>)
        requires
            old(self).stack.len() >= 1,
            old(self).index < usize::MAX,
        ensures
            is_outcome(final(self)@, r, semantics::var_delete(old(self)@)),
    {
        match self.top(0) {
            Value::Variable(slot) => {
                if slot >= self.variables.len() {
                    Err(RuntimeError::InvalidProgram)
                } else {
                    self.variables[slot] = None;
                    self.take(1, self.index + 1)
                }
            },
            _ => Err(RuntimeError::WrongType),
        }
    }

    fn var_new(&mut self) -> (r: Result<Action, RuntimeError>)
        requires
            old(self).index < usize::MAX,
        ensures
            is_outcome(final(self)@, r, semantics::var_new(old(self)@)),
    {
        let slot: usize = self.variables.len();
        self.variables.push(None);
        self.give(0, Value::Variable(slot), 1)
    }

    /// Executes the instruction at `self.index`.
    ///
    /// An instruction that needs the caller is executed in two steps. The
    /// first, with a reply that does not answer it, changes nothing and
    /// returns what is asked; the second, with the answer, completes it.
    /// A failing step changes nothing either, so that `stack_trace` then tells
    /// where the program failed. A machine that is safe for the program, as
    /// one made by `new` for a compiled program is, stays safe and never
    /// fails with `InvalidProgram`.
    pub fn step(&mut self, program: &BytecodeProgram, reply: Reply) -> (r: Result<Action, RuntimeError>)
        ensures
            is_outcome(final(self)@, r, semantics::step(old(self)@, program@, reply@)),
            safe(old(self)@, program@) ==> safe(final(self)@, program@) && r != Err::<Action, RuntimeError>(
                RuntimeError::InvalidProgram,
            ),
    {
        let r = self.execute(program, reply);
        proof {
            if safe(old(self)@, program@) {
                assert(self@.strings.len() == self.strings.len());
                assert(self@.instances.len() == self.instances.len());
                assert(self@.variables.len() == self.variables.len());
                law_safe_steps(old(self)@, program@, reply@);
            }
        }
        r
    }

    /// The instruction at `self.index`, executed.
    fn execute(&mut self, program: &BytecodeProgram, reply: Reply) -> (r: Result<Action, RuntimeError>)
        ensures
            is_outcome(final(self)@, r, semantics::step(old(self)@, program@, reply@)),
    {
        let code: &Vec<u8> = &program.instructions;
        if self.index >= code.len() {
            return Err(RuntimeError::InvalidProgram);
        }
        let op: OpCode = match OpCode::from_code(code[self.index]) {
            None => {
                return Err(RuntimeError::InvalidProgram);
            },
            Some(op) => op,
        };
        if code.len() - self.index <= op.operands() {
            return Err(RuntimeError::InvalidProgram);
        }
        let first: u8 = if op.operands() > 0 {
            code[self.index + 1]
        } else {
            0
        };
        if self.stack.len() < demand(op, first) {
            return Err(RuntimeError::EmptyStack);
        }
        match op {
            OpCode::Call => self.call(),
            OpCode::Construct => self.construct(program),
            OpCode::Duplicate => {
                let value: Value = self.top(first as usize);
                self.give(0, value, 2)
            },
            OpCode::Instantiate => self.instantiate(program),
            OpCode::JumpIf => {
                let amount: u16 = read_short(code, self.index);
                self.jump_if(amount)
            },
            OpCode::JumpIfNot => {
                let amount: u16 = read_short(code, self.index);
                self.jump_if_not(amount)
            },
            OpCode::Load => self.load(),
            OpCode::LoadFrom => self.load_from(program),
            OpCode::Pop => self.take(1, self.index + 1),
            OpCode::PushGlobal => {
                let name: u16 = read_short(code, self.index);
                self.give(0, Value::GlobalName(name), 3)
            },
            OpCode::PushLocal => {
                let name: u16 = read_short(code, self.index);
                self.give(0, Value::LocalName(name), 3)
            },
            OpCode::PushMember => {
                let name: u16 = read_short(code, self.index);
                self.give(0, Value::MemberName(name), 3)
            },
            OpCode::PushNumber => self.push_number(program, reply),
            OpCode::PushSelf => {
                let object: usize = self.current;
                self.give(0, Value::Instance(object), 1)
            },
            OpCode::PushString => {
                let constant: u16 = read_short(code, self.index);
                self.give(0, Value::String(constant as usize), 3)
            },
            OpCode::Return => self.finish(program),
            OpCode::Store => self.store(false),
            OpCode::StoreKeep => self.store(true),
            OpCode::Add => self.compute(Arithmetic::Add, reply),
            OpCode::Subtract => self.compute(Arithmetic::Subtract, reply),
            OpCode::Multiply => self.compute(Arithmetic::Multiply, reply),
            OpCode::Divide => self.compute(Arithmetic::Divide, reply),
            OpCode::Modulo => self.compute(Arithmetic::Modulo, reply),
            OpCode::Floor => self.floor(reply),
            OpCode::Equal => self.compare(Comparison::Equal, reply),
            OpCode::NotEqual => self.compare(Comparison::NotEqual, reply),
            OpCode::LessThan => self.compare(Comparison::LessThan, reply),
            OpCode::GreaterThan => self.compare(Comparison::GreaterThan, reply),
            OpCode::LessEqual => self.compare(Comparison::LessEqual, reply),
            OpCode::GreaterEqual => self.compare(Comparison::GreaterEqual, reply),
            OpCode::Concat => self.concat(),
            OpCode::Index => self.index(),
            OpCode::Length => self.length(),
            OpCode::NumToString => self.num_to_string(),
            OpCode::StringEqual => self.string_equal(),
            OpCode::StringReplace => self.string_replace(),
            OpCode::StringSplit => self.string_split(),
            OpCode::StringToNum => self.string_to_num(),
            OpCode::InputChar => self.input_char(reply),
            OpCode::InputEof => self.input_eof(reply),
            OpCode::InputLine => self.input_line(reply),
            OpCode::OutputNumber => self.output_number(reply),
            OpCode::OutputString => self.output_string(reply),
            OpCode::VarDelete => self.var_delete(),
            OpCode::VarNew => self.var_new(),
        }
    }
}

} // verus!
