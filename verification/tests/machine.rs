//! The machine, step by step.

use byte_string::ByteString;
use glass::bytecode::{BytecodeProgram, ClassDefinition, FilePosition, OpCode};
use glass::interpreter::{demand, read_short, Machine};
use glass::number::Number;
use glass::parser::parse_program;
use glass::trace::{get_stacktrace_line, StackTraceLine};
use glass::value::{Action, Arithmetic, Comparison, Reply, RuntimeError, Value};

fn number(value: f64) -> Number {
    Number { bits: value.to_bits() }
}

fn compile(source: &str) -> BytecodeProgram {
    parse_program(&vec![("test.glass".to_string(), source.as_bytes().to_vec())]).ok().unwrap()
}

/// A program of one class `M` whose function `m` is `code`.
fn program_of(code: Vec<u8>) -> BytecodeProgram {
    let mut main = ClassDefinition::new();
    main.funcs.insert(0, 0);
    BytecodeProgram {
        class_names: vec![0],
        classes: vec![main],
        strings: vec![ByteString::new("first".as_bytes().to_vec()), ByteString::new(Vec::new())],
        numbers: vec!["1.5".as_bytes().to_vec()],
        instructions: code,
        main_class: 0,
        main_func: 0,
        files: vec![(0, "hand".to_string())],
        positions: vec![(0, FilePosition { line: 1, col: 1 })],
    }
}

/// Steps with no reply until the machine asks for something, halts or
/// fails.
fn run_to_request(machine: &mut Machine, program: &BytecodeProgram) -> Result<Action, RuntimeError> {
    loop {
        match machine.step(program, Reply::Nothing) {
            Ok(Action::Continue) => {}
            other => return other,
        }
    }
}

fn error_of(code: Vec<u8>) -> RuntimeError {
    let program = program_of(code);
    let mut machine = Machine::new(&program).ok().unwrap();
    run_to_request(&mut machine, &program).err().unwrap()
}

const CALL: u8 = 0;
const CONSTRUCT: u8 = 1;
const DUPLICATE: u8 = 2;
const INSTANTIATE: u8 = 3;
const JUMP_IF: u8 = 4;
const JUMP_IF_NOT: u8 = 5;
const LOAD: u8 = 6;
const LOAD_FROM: u8 = 7;
const POP: u8 = 8;
const PUSH_GLOBAL: u8 = 9;
const PUSH_LOCAL: u8 = 10;
const PUSH_MEMBER: u8 = 11;
const PUSH_NUMBER: u8 = 12;
const PUSH_SELF: u8 = 13;
const PUSH_STRING: u8 = 14;
const RETURN: u8 = 15;
const STORE: u8 = 16;
const STORE_KEEP: u8 = 17;
const ADD: u8 = 18;
const CONCAT: u8 = 19;
const FLOOR: u8 = 22;
const INDEX: u8 = 25;
const INPUT_CHAR: u8 = 26;
const INPUT_EOF: u8 = 27;
const INPUT_LINE: u8 = 28;
const LENGTH: u8 = 29;
const LESS_THAN: u8 = 31;
const NUM_TO_STRING: u8 = 35;
const OUTPUT_NUMBER: u8 = 36;
const OUTPUT_STRING: u8 = 37;
const STRING_EQUAL: u8 = 38;
const STRING_REPLACE: u8 = 39;
const STRING_SPLIT: u8 = 40;
const STRING_TO_NUM: u8 = 41;
const SUBTRACT: u8 = 42;
const VAR_DELETE: u8 = 43;
const VAR_NEW: u8 = 44;

#[test]
fn a_new_machine_stands_at_the_main_function() {
    let program = compile("{M[x][m]}");
    let machine = Machine::new(&program).ok().unwrap();
    assert_eq!(machine.index, 55);
    assert_eq!(machine.current, 0);
    assert_eq!(machine.instances.len(), 1);
    assert_eq!(machine.instances[0].class, 5);
    assert_eq!(machine.instances[0].variables.len(), 0);
    assert_eq!(machine.stack.len(), 0);
    assert_eq!(machine.frames.len(), 0);
    assert_eq!(machine.locals.len(), 0);
    assert_eq!(machine.variables.len(), 0);
    assert_eq!(machine.globals.len(), 6);
    for class in 0u16..6 {
        assert_eq!(machine.globals[&class], Value::Class(class as usize));
    }
    assert_eq!(machine.stack_trace(), vec![55]);
}

#[test]
fn a_machine_starts_with_the_strings_of_the_program() {
    let program = program_of(vec![RETURN]);
    let machine = Machine::new(&program).ok().unwrap();
    assert_eq!(machine.strings.len(), 2);
    assert_eq!(machine.strings[0].0, "first".as_bytes());
    assert_eq!(machine.strings[1].0, "".as_bytes());
}

#[test]
fn a_program_without_its_main_cannot_start() {
    let mut program = program_of(vec![RETURN]);
    program.main_class = 1;
    assert_eq!(Machine::new(&program).err(), Some(RuntimeError::InvalidProgram));
    let mut program = program_of(vec![RETURN]);
    program.main_func = 1;
    assert_eq!(Machine::new(&program).err(), Some(RuntimeError::InvalidProgram));
    let mut program = program_of(vec![RETURN]);
    program.class_names.push(1);
    assert_eq!(Machine::new(&program).err(), Some(RuntimeError::InvalidProgram));
}

#[test]
fn return_from_main_halts() {
    let program = program_of(vec![RETURN]);
    let mut machine = Machine::new(&program).ok().unwrap();
    assert_eq!(machine.step(&program, Reply::Nothing), Ok(Action::Halt));
    assert_eq!(machine.index, 0);
    assert_eq!(machine.step(&program, Reply::Nothing), Ok(Action::Halt));
}

#[test]
fn arithmetic_is_asked_of_the_caller() {
    let program = compile("{M[m(_a)A!<11><24>(_a)s.?]}");
    let mut machine = Machine::new(&program).ok().unwrap();
    assert_eq!(run_to_request(&mut machine, &program), Ok(Action::Evaluate("11".as_bytes().to_vec())));
    assert_eq!(machine.step(&program, Reply::Number(number(11.0))), Ok(Action::Continue));
    assert_eq!(run_to_request(&mut machine, &program), Ok(Action::Evaluate("24".as_bytes().to_vec())));
    assert_eq!(machine.step(&program, Reply::Number(number(24.0))), Ok(Action::Continue));
    // The value below is the left operand, the top the right.
    let asked = run_to_request(&mut machine, &program);
    assert_eq!(asked, Ok(Action::Compute(Arithmetic::Subtract, number(11.0), number(24.0))));
    // Asking changes nothing: the operands are still there, and the machine
    // asks again until it is answered.
    let index: usize = machine.index;
    assert_eq!(machine.stack.len(), 2);
    assert_eq!(machine.step(&program, Reply::Nothing), asked);
    assert_eq!(machine.step(&program, Reply::Flag(true)), asked);
    assert_eq!(machine.step(&program, Reply::Written(true)), asked);
    assert_eq!(machine.index, index);
    assert_eq!(machine.stack.len(), 2);
    assert_eq!(machine.step(&program, Reply::Number(number(-13.0))), Ok(Action::Continue));
    assert_eq!(machine.stack, vec![Value::Number(number(-13.0))]);
    assert_eq!(machine.index, index + 1);
}

#[test]
fn each_operation_is_asked_under_its_name() {
    let cases = [
        ("a", Arithmetic::Add),
        ("s", Arithmetic::Subtract),
        ("m", Arithmetic::Multiply),
        ("d", Arithmetic::Divide),
        ("(mod)", Arithmetic::Modulo),
    ];
    for (name, op) in cases {
        let program = compile(&format!("{{M[m(_a)A!<1><2>(_a){}.?]}}", name));
        let mut machine = Machine::new(&program).ok().unwrap();
        run_to_request(&mut machine, &program).unwrap();
        machine.step(&program, Reply::Number(number(1.0))).unwrap();
        run_to_request(&mut machine, &program).unwrap();
        machine.step(&program, Reply::Number(number(2.0))).unwrap();
        assert_eq!(
            run_to_request(&mut machine, &program),
            Ok(Action::Compute(op, number(1.0), number(2.0)))
        );
    }
    let cases = [
        ("e", Comparison::Equal),
        ("(ne)", Comparison::NotEqual),
        ("(lt)", Comparison::LessThan),
        ("(gt)", Comparison::GreaterThan),
        ("(le)", Comparison::LessEqual),
        ("(ge)", Comparison::GreaterEqual),
    ];
    for (name, op) in cases {
        let program = compile(&format!("{{M[m(_a)A!<1><2>(_a){}.?]}}", name));
        let mut machine = Machine::new(&program).ok().unwrap();
        run_to_request(&mut machine, &program).unwrap();
        machine.step(&program, Reply::Number(number(1.0))).unwrap();
        run_to_request(&mut machine, &program).unwrap();
        machine.step(&program, Reply::Number(number(2.0))).unwrap();
        assert_eq!(
            run_to_request(&mut machine, &program),
            Ok(Action::Compare(op, number(1.0), number(2.0)))
        );
        assert_eq!(machine.step(&program, Reply::Flag(true)), Ok(Action::Continue));
        assert_eq!(machine.stack, vec![Value::Number(number(1.0))]);
    }
}

#[test]
fn floor_is_asked_of_the_caller() {
    let program = program_of(vec![PUSH_NUMBER, 0, 0, FLOOR, RETURN]);
    let mut machine = Machine::new(&program).ok().unwrap();
    assert_eq!(machine.step(&program, Reply::Nothing), Ok(Action::Evaluate("1.5".as_bytes().to_vec())));
    assert_eq!(machine.step(&program, Reply::Number(number(1.5))), Ok(Action::Continue));
    assert_eq!(machine.step(&program, Reply::Nothing), Ok(Action::Floor(number(1.5))));
    assert_eq!(machine.step(&program, Reply::Number(number(1.0))), Ok(Action::Continue));
    assert_eq!(machine.stack, vec![Value::Number(number(1.0))]);
    assert_eq!(machine.step(&program, Reply::Nothing), Ok(Action::Halt));
}

#[test]
fn output_is_asked_of_the_caller() {
    let program = program_of(vec![PUSH_STRING, 0, 0, OUTPUT_STRING, RETURN]);
    let mut machine = Machine::new(&program).ok().unwrap();
    machine.step(&program, Reply::Nothing).unwrap();
    let asked = machine.step(&program, Reply::Nothing);
    assert_eq!(asked, Ok(Action::WriteString("first".as_bytes().to_vec())));
    assert_eq!(machine.stack.len(), 1);
    assert_eq!(machine.step(&program, Reply::Written(true)), Ok(Action::Continue));
    assert_eq!(machine.stack.len(), 0);
    assert_eq!(machine.index, 4);
}

#[test]
fn output_error() {
    let program = program_of(vec![PUSH_STRING, 0, 0, OUTPUT_STRING, RETURN]);
    let mut machine = Machine::new(&program).ok().unwrap();
    machine.step(&program, Reply::Nothing).unwrap();
    machine.step(&program, Reply::Nothing).unwrap();
    assert_eq!(machine.step(&program, Reply::Written(false)), Err(RuntimeError::OutputError));
    // The failed instruction is where the machine still stands.
    assert_eq!(machine.stack_trace(), vec![3]);
    assert_eq!(machine.stack.len(), 1);

    let program = program_of(vec![PUSH_NUMBER, 0, 0, OUTPUT_NUMBER, RETURN]);
    let mut machine = Machine::new(&program).ok().unwrap();
    machine.step(&program, Reply::Number(number(2.0))).unwrap();
    assert_eq!(machine.step(&program, Reply::Nothing), Ok(Action::WriteNumber(number(2.0))));
    assert_eq!(machine.step(&program, Reply::Written(false)), Err(RuntimeError::OutputError));
}

#[test]
fn input_is_asked_of_the_caller() {
    let program = program_of(vec![INPUT_CHAR, INPUT_CHAR, INPUT_LINE, INPUT_EOF, INPUT_EOF, RETURN]);
    let mut machine = Machine::new(&program).ok().unwrap();
    assert_eq!(machine.step(&program, Reply::Nothing), Ok(Action::ReadChar));
    assert_eq!(machine.step(&program, Reply::Byte(Some(7))), Ok(Action::Continue));
    assert_eq!(machine.step(&program, Reply::Nothing), Ok(Action::ReadChar));
    assert_eq!(machine.step(&program, Reply::Byte(None)), Ok(Action::Continue));
    assert_eq!(machine.step(&program, Reply::Nothing), Ok(Action::ReadLine));
    assert_eq!(machine.step(&program, Reply::Line("line\n".as_bytes().to_vec())), Ok(Action::Continue));
    assert_eq!(machine.step(&program, Reply::Nothing), Ok(Action::TestEof));
    assert_eq!(machine.step(&program, Reply::Flag(true)), Ok(Action::Continue));
    assert_eq!(machine.step(&program, Reply::Nothing), Ok(Action::TestEof));
    assert_eq!(machine.step(&program, Reply::Flag(false)), Ok(Action::Continue));
    assert_eq!(
        machine.stack,
        vec![
            Value::String(2),
            Value::String(3),
            Value::String(4),
            Value::Number(number(1.0)),
            Value::Number(number(0.0)),
        ]
    );
    assert_eq!(machine.strings[2].0, vec![7]);
    assert_eq!(machine.strings[3].0, vec![0]);
    assert_eq!(machine.strings[4].0, "line\n".as_bytes());
    assert_eq!(machine.step(&program, Reply::Nothing), Ok(Action::Halt));
}

#[test]
fn strings_are_made_behind_the_constants() {
    let program = program_of(vec![
        PUSH_STRING, 0, 0, PUSH_STRING, 0, 0, CONCAT, DUPLICATE, 0, LENGTH, PUSH_STRING, 0, 0,
        PUSH_STRING, 0, 0, STRING_EQUAL, RETURN,
    ]);
    let mut machine = Machine::new(&program).ok().unwrap();
    assert_eq!(run_to_request(&mut machine, &program), Ok(Action::Halt));
    assert_eq!(
        machine.stack,
        vec![Value::String(2), Value::Number(number(10.0)), Value::Number(number(1.0))]
    );
    assert_eq!(machine.strings.len(), 3);
    assert_eq!(machine.strings[2].0, "firstfirst".as_bytes());
    assert_eq!(machine.strings[0].0, "first".as_bytes());
}

#[test]
fn split_gives_two_strings() {
    let program = program_of(vec![PUSH_STRING, 0, 0, PUSH_NUMBER, 0, 0, STRING_SPLIT, RETURN]);
    let mut machine = Machine::new(&program).ok().unwrap();
    machine.step(&program, Reply::Nothing).unwrap();
    machine.step(&program, Reply::Number(number(2.0))).unwrap();
    assert_eq!(machine.step(&program, Reply::Nothing), Ok(Action::Continue));
    assert_eq!(machine.stack, vec![Value::String(2), Value::String(3)]);
    assert_eq!(machine.strings[2].0, "fi".as_bytes());
    assert_eq!(machine.strings[3].0, "rst".as_bytes());
}

#[test]
fn replace_index_and_the_byte_of_a_number() {
    let program = program_of(vec![
        PUSH_STRING, 0, 0, PUSH_NUMBER, 0, 0, PUSH_NUMBER, 0, 0, NUM_TO_STRING, STRING_REPLACE,
        PUSH_NUMBER, 0, 0, INDEX, STRING_TO_NUM, RETURN,
    ]);
    let mut machine = Machine::new(&program).ok().unwrap();
    machine.step(&program, Reply::Nothing).unwrap();
    machine.step(&program, Reply::Number(number(4.0))).unwrap();
    machine.step(&program, Reply::Number(number(33.0))).unwrap();
    assert_eq!(machine.step(&program, Reply::Nothing), Ok(Action::Continue));
    assert_eq!(machine.strings[2].0, "!".as_bytes());
    assert_eq!(machine.step(&program, Reply::Nothing), Ok(Action::Continue));
    assert_eq!(machine.strings[3].0, "firs!".as_bytes());
    machine.step(&program, Reply::Number(number(4.0))).unwrap();
    assert_eq!(machine.step(&program, Reply::Nothing), Ok(Action::Continue));
    assert_eq!(machine.strings[4].0, "!".as_bytes());
    assert_eq!(machine.step(&program, Reply::Nothing), Ok(Action::Continue));
    assert_eq!(machine.stack, vec![Value::Number(number(33.0))]);
}

#[test]
fn empty_stack() {
    for op in [
        CALL, CONSTRUCT, INSTANTIATE, LOAD, POP, FLOOR, LENGTH, NUM_TO_STRING, OUTPUT_NUMBER,
        OUTPUT_STRING, STRING_TO_NUM, VAR_DELETE, LOAD_FROM, STORE, STORE_KEEP, ADD, SUBTRACT,
        LESS_THAN, CONCAT, INDEX, STRING_EQUAL, STRING_SPLIT, STRING_REPLACE,
    ] {
        assert_eq!(error_of(vec![op, RETURN]), RuntimeError::EmptyStack, "{}", op);
    }
    assert_eq!(error_of(vec![JUMP_IF, 0, 0, RETURN]), RuntimeError::EmptyStack);
    assert_eq!(error_of(vec![JUMP_IF_NOT, 0, 0, RETURN]), RuntimeError::EmptyStack);
    assert_eq!(error_of(vec![DUPLICATE, 0, RETURN]), RuntimeError::EmptyStack);
    assert_eq!(error_of(vec![PUSH_SELF, DUPLICATE, 1, RETURN]), RuntimeError::EmptyStack);
}

#[test]
fn a_stack_that_is_too_short_is_empty_whatever_lies_on_it() {
    // One value where two are taken; it is of a kind that none of the
    // instructions takes.
    for op in [
        LOAD_FROM, STORE, STORE_KEEP, ADD, SUBTRACT, LESS_THAN, CONCAT, INDEX, STRING_EQUAL,
        STRING_SPLIT, STRING_REPLACE,
    ] {
        assert_eq!(error_of(vec![PUSH_SELF, op, RETURN]), RuntimeError::EmptyStack, "{}", op);
    }
    assert_eq!(error_of(vec![PUSH_SELF, PUSH_SELF, STRING_REPLACE, RETURN]), RuntimeError::EmptyStack);
}

#[test]
fn a_failing_step_changes_nothing() {
    let program = program_of(vec![PUSH_SELF, ADD, RETURN]);
    let mut machine = Machine::new(&program).ok().unwrap();
    machine.step(&program, Reply::Nothing).unwrap();
    assert_eq!(machine.step(&program, Reply::Nothing), Err(RuntimeError::EmptyStack));
    assert_eq!(machine.index, 1);
    assert_eq!(machine.stack, vec![Value::Instance(0)]);
    assert_eq!(machine.step(&program, Reply::Number(number(1.0))), Err(RuntimeError::EmptyStack));
}

#[test]
fn wrong_type() {
    for op in [
        CALL, INSTANTIATE, LOAD, FLOOR, LENGTH, NUM_TO_STRING, OUTPUT_NUMBER, OUTPUT_STRING,
        STRING_TO_NUM, VAR_DELETE,
    ] {
        assert_eq!(error_of(vec![PUSH_SELF, op, RETURN]), RuntimeError::WrongType, "{}", op);
    }
    assert_eq!(error_of(vec![PUSH_STRING, 0, 0, CONSTRUCT, RETURN]), RuntimeError::WrongType);
    for op in [
        LOAD_FROM, STORE, STORE_KEEP, ADD, SUBTRACT, LESS_THAN, CONCAT, INDEX, STRING_EQUAL,
        STRING_SPLIT,
    ] {
        assert_eq!(error_of(vec![PUSH_SELF, PUSH_SELF, op, RETURN]), RuntimeError::WrongType, "{}", op);
    }
    assert_eq!(
        error_of(vec![PUSH_SELF, PUSH_SELF, PUSH_SELF, STRING_REPLACE, RETURN]),
        RuntimeError::WrongType
    );
    // A string of five bytes is no byte.
    assert_eq!(error_of(vec![PUSH_STRING, 0, 0, STRING_TO_NUM, RETURN]), RuntimeError::WrongType);
    assert_eq!(error_of(vec![PUSH_STRING, 0, 1, STRING_TO_NUM, RETURN]), RuntimeError::WrongType);
    // A member name that holds a string is no object to load from.
    assert_eq!(
        error_of(vec![
            PUSH_MEMBER, 0, 0, PUSH_STRING, 0, 0, STORE, PUSH_MEMBER, 0, 0, PUSH_MEMBER, 0, 0, LOAD_FROM,
            RETURN,
        ]),
        RuntimeError::WrongType
    );
}

#[test]
fn num_to_string_refuses_what_is_no_byte() {
    for value in [256.0, -1.0, 0.5, f64::NAN, f64::INFINITY] {
        let program = program_of(vec![PUSH_NUMBER, 0, 0, NUM_TO_STRING, RETURN]);
        let mut machine = Machine::new(&program).ok().unwrap();
        machine.step(&program, Reply::Number(number(value))).unwrap();
        assert_eq!(machine.step(&program, Reply::Nothing), Err(RuntimeError::WrongType));
    }
}

#[test]
fn invalid_index() {
    for (op, value) in [
        (INDEX, 5.0), (INDEX, -1.0), (INDEX, 1.5), (INDEX, f64::NAN), (INDEX, f64::INFINITY),
        (STRING_SPLIT, 6.0), (STRING_SPLIT, -1.0), (STRING_SPLIT, 0.5),
    ] {
        let program = program_of(vec![PUSH_STRING, 0, 0, PUSH_NUMBER, 0, 0, op, RETURN]);
        let mut machine = Machine::new(&program).ok().unwrap();
        machine.step(&program, Reply::Nothing).unwrap();
        machine.step(&program, Reply::Number(number(value))).unwrap();
        assert_eq!(machine.step(&program, Reply::Nothing), Err(RuntimeError::InvalidIndex));
    }
    for value in [5.0, -1.0, 2.5] {
        let program = program_of(vec![
            PUSH_STRING, 0, 0, PUSH_NUMBER, 0, 0, PUSH_NUMBER, 0, 0, NUM_TO_STRING, STRING_REPLACE,
            RETURN,
        ]);
        let mut machine = Machine::new(&program).ok().unwrap();
        machine.step(&program, Reply::Nothing).unwrap();
        machine.step(&program, Reply::Number(number(value))).unwrap();
        machine.step(&program, Reply::Number(number(65.0))).unwrap();
        machine.step(&program, Reply::Nothing).unwrap();
        assert_eq!(machine.step(&program, Reply::Nothing), Err(RuntimeError::InvalidIndex));
    }
    // An empty string has no byte to give, and only one place to split.
    let program = program_of(vec![PUSH_STRING, 0, 1, PUSH_NUMBER, 0, 0, INDEX, RETURN]);
    let mut machine = Machine::new(&program).ok().unwrap();
    machine.step(&program, Reply::Nothing).unwrap();
    machine.step(&program, Reply::Number(number(0.0))).unwrap();
    assert_eq!(machine.step(&program, Reply::Nothing), Err(RuntimeError::InvalidIndex));
    let program = program_of(vec![PUSH_STRING, 0, 1, PUSH_NUMBER, 0, 0, STRING_SPLIT, RETURN]);
    let mut machine = Machine::new(&program).ok().unwrap();
    machine.step(&program, Reply::Nothing).unwrap();
    machine.step(&program, Reply::Number(number(0.0))).unwrap();
    assert_eq!(machine.step(&program, Reply::Nothing), Ok(Action::Continue));
}

#[test]
fn unset_name() {
    assert_eq!(error_of(vec![PUSH_GLOBAL, 0, 9, LOAD, RETURN]), RuntimeError::UnsetName);
    assert_eq!(error_of(vec![PUSH_LOCAL, 0, 0, LOAD, RETURN]), RuntimeError::UnsetName);
    assert_eq!(error_of(vec![PUSH_MEMBER, 0, 0, LOAD, RETURN]), RuntimeError::UnsetName);
    assert_eq!(error_of(vec![VAR_NEW, LOAD, RETURN]), RuntimeError::UnsetName);
    assert_eq!(
        error_of(vec![PUSH_LOCAL, 0, 0, PUSH_MEMBER, 0, 0, LOAD_FROM, RETURN]),
        RuntimeError::UnsetName
    );
    // The object has neither a variable nor a function of the name.
    assert_eq!(
        error_of(vec![
            PUSH_LOCAL, 0, 0, PUSH_SELF, STORE, PUSH_LOCAL, 0, 0, PUSH_MEMBER, 0, 5, LOAD_FROM, RETURN,
        ]),
        RuntimeError::UnsetName
    );
}

#[test]
fn invalid_program() {
    // No instruction at all, a byte that is none, and operands cut off.
    assert_eq!(error_of(vec![]), RuntimeError::InvalidProgram);
    assert_eq!(error_of(vec![45]), RuntimeError::InvalidProgram);
    assert_eq!(error_of(vec![255]), RuntimeError::InvalidProgram);
    assert_eq!(error_of(vec![PUSH_STRING, 0]), RuntimeError::InvalidProgram);
    assert_eq!(error_of(vec![DUPLICATE]), RuntimeError::InvalidProgram);
    // Running off the end.
    assert_eq!(error_of(vec![PUSH_SELF]), RuntimeError::InvalidProgram);
    // Constants and handles that are not there.
    assert_eq!(error_of(vec![PUSH_NUMBER, 0, 1, RETURN]), RuntimeError::InvalidProgram);
    assert_eq!(error_of(vec![PUSH_STRING, 0, 2, OUTPUT_STRING, RETURN]), RuntimeError::InvalidProgram);
    assert_eq!(error_of(vec![PUSH_STRING, 0, 2, LENGTH, RETURN]), RuntimeError::InvalidProgram);
    // A backward jump to before the program, or to its very begin.
    assert_eq!(error_of(vec![PUSH_STRING, 0, 0, JUMP_IF, 0, 7, RETURN]), RuntimeError::InvalidProgram);
    assert_eq!(error_of(vec![PUSH_STRING, 0, 0, JUMP_IF, 0, 6, RETURN]), RuntimeError::InvalidProgram);
    // A forward jump to behind it.
    assert_eq!(error_of(vec![PUSH_STRING, 0, 1, JUMP_IF_NOT, 0, 7, RETURN]), RuntimeError::InvalidProgram);
}

#[test]
fn jumps_land_where_their_operand_tells() {
    // Backward by 6 from the jump at 4: to 4 + 3 - 6 = 1.
    let program = program_of(vec![PUSH_SELF, PUSH_STRING, 0, 0, JUMP_IF, 0, 6, RETURN]);
    let mut machine = Machine::new(&program).ok().unwrap();
    machine.step(&program, Reply::Nothing).unwrap();
    machine.step(&program, Reply::Nothing).unwrap();
    assert_eq!(machine.step(&program, Reply::Nothing), Ok(Action::Continue));
    assert_eq!(machine.index, 1);
    assert_eq!(machine.stack, vec![Value::Instance(0)]);
    // An empty string does not jump.
    let program = program_of(vec![PUSH_STRING, 0, 1, JUMP_IF, 0, 6, RETURN]);
    let mut machine = Machine::new(&program).ok().unwrap();
    machine.step(&program, Reply::Nothing).unwrap();
    assert_eq!(machine.step(&program, Reply::Nothing), Ok(Action::Continue));
    assert_eq!(machine.index, 6);
    // Forward by 2 from the jump at 3: to 3 + 3 + 2 = 8.
    let program = program_of(vec![PUSH_STRING, 0, 1, JUMP_IF_NOT, 0, 2, POP, POP, RETURN]);
    let mut machine = Machine::new(&program).ok().unwrap();
    machine.step(&program, Reply::Nothing).unwrap();
    assert_eq!(machine.step(&program, Reply::Nothing), Ok(Action::Continue));
    assert_eq!(machine.index, 8);
    assert_eq!(machine.step(&program, Reply::Nothing), Ok(Action::Halt));
    let program = program_of(vec![PUSH_STRING, 0, 0, JUMP_IF_NOT, 0, 2, POP, POP, RETURN]);
    let mut machine = Machine::new(&program).ok().unwrap();
    machine.step(&program, Reply::Nothing).unwrap();
    assert_eq!(machine.step(&program, Reply::Nothing), Ok(Action::Continue));
    assert_eq!(machine.index, 6);
    // A value that is neither number nor string counts as false.
    let program = program_of(vec![PUSH_SELF, JUMP_IF, 0, 1, PUSH_SELF, JUMP_IF_NOT, 0, 0, RETURN]);
    let mut machine = Machine::new(&program).ok().unwrap();
    assert_eq!(run_to_request(&mut machine, &program), Ok(Action::Halt));
    assert_eq!(machine.index, 8);
}

#[test]
fn names_hold_values_in_their_scope() {
    let program = program_of(vec![
        PUSH_GLOBAL, 0, 7, PUSH_STRING, 0, 0, STORE, PUSH_LOCAL, 0, 7, PUSH_STRING, 0, 1, STORE_KEEP,
        PUSH_MEMBER, 0, 7, PUSH_SELF, STORE, VAR_NEW, DUPLICATE, 0, PUSH_GLOBAL, 0, 7, LOAD, STORE,
        RETURN,
    ]);
    let mut machine = Machine::new(&program).ok().unwrap();
    assert_eq!(run_to_request(&mut machine, &program), Ok(Action::Halt));
    assert_eq!(machine.globals[&7], Value::String(0));
    assert_eq!(machine.locals[&7], Value::String(1));
    assert_eq!(machine.instances[0].variables[&7], Value::Instance(0));
    assert_eq!(machine.variables, vec![Some(Value::String(0))]);
    assert_eq!(machine.stack, vec![Value::String(1), Value::Variable(0)]);
}

#[test]
fn variables_are_made_and_deleted() {
    let program = program_of(vec![
        VAR_NEW, VAR_NEW, DUPLICATE, 0, PUSH_SELF, STORE, DUPLICATE, 0, LOAD, POP, VAR_DELETE, RETURN,
    ]);
    let mut machine = Machine::new(&program).ok().unwrap();
    machine.step(&program, Reply::Nothing).unwrap();
    machine.step(&program, Reply::Nothing).unwrap();
    assert_eq!(machine.stack, vec![Value::Variable(0), Value::Variable(1)]);
    assert_eq!(machine.variables, vec![None, None]);
    for _ in 0u32..3 {
        machine.step(&program, Reply::Nothing).unwrap();
    }
    assert_eq!(machine.variables, vec![None, Some(Value::Instance(0))]);
    assert_eq!(run_to_request(&mut machine, &program), Ok(Action::Halt));
    assert_eq!(machine.variables, vec![None, None]);
    assert_eq!(machine.stack, vec![Value::Variable(0)]);
}

#[test]
fn calls_put_the_locals_aside() {
    let program = compile("{M[m(_x)\"main\"=(_t)$(_t)f.?(_x)*][f(_x)\"f\"=]}");
    let mut machine = Machine::new(&program).ok().unwrap();
    let mut deepest: usize = 0;
    loop {
        match machine.step(&program, Reply::Nothing) {
            Ok(Action::Halt) => break,
            Ok(_) => {
                if machine.frames.len() > deepest {
                    deepest = machine.frames.len();
                    assert_eq!(machine.locals.len(), 0);
                    assert_eq!(machine.frames[0].locals.len(), 2);
                    assert_eq!(machine.frames[0].caller, 0);
                }
            }
            Err(error) => panic!("{:?}", error),
        }
    }
    assert_eq!(deepest, 1);
    assert_eq!(machine.frames.len(), 0);
    assert_eq!(machine.locals.len(), 2);
    assert_eq!(machine.stack, vec![Value::String(0)]);
    assert_eq!(machine.strings[0].0, "main".as_bytes());
}

#[test]
fn instantiate_adds_an_object_and_construct_enters_its_constructor() {
    let program = compile("{M[m(_c)C!]}{C[(c__)x<1>=]}");
    let mut machine = Machine::new(&program).ok().unwrap();
    // PushLocal, PushGlobal, Load, Instantiate.
    for _ in 0u32..4 {
        assert_eq!(machine.step(&program, Reply::Nothing), Ok(Action::Continue));
    }
    assert_eq!(machine.instances.len(), 2);
    assert_eq!(machine.instances[1].class, 6);
    assert_eq!(machine.stack, vec![Value::LocalName(0), Value::Instance(1)]);
    assert_eq!(machine.locals.len(), 0);
    // StoreKeep.
    assert_eq!(machine.step(&program, Reply::Nothing), Ok(Action::Continue));
    assert_eq!(machine.locals[&0], Value::Instance(1));
    assert_eq!(machine.stack, vec![Value::Instance(1)]);
    assert_eq!(machine.frames.len(), 0);
    // Construct.
    let call: usize = machine.index;
    assert_eq!(machine.step(&program, Reply::Nothing), Ok(Action::Continue));
    assert_eq!(machine.frames.len(), 1);
    assert_eq!(machine.frames[0].index, call);
    assert_eq!(machine.current, 1);
    assert_eq!(machine.index, program.classes[6].constructor.unwrap());
    assert_eq!(machine.stack.len(), 0);
    assert_eq!(machine.stack_trace(), vec![machine.index, call]);
}

#[test]
fn the_trace_names_every_open_call() {
    let program = compile("{M[m(_t)$(_t)f.?][f(_t)$(_t)g.?][g*]}");
    let mut machine = Machine::new(&program).ok().unwrap();
    assert_eq!(run_to_request(&mut machine, &program), Err(RuntimeError::EmptyStack));
    let trace = machine.stack_trace();
    assert_eq!(trace.len(), 3);
    assert_eq!(trace[0], machine.index);
    assert_eq!(trace[1], machine.frames[1].index);
    assert_eq!(trace[2], machine.frames[0].index);
    // g begins behind f, and f behind m: the calls lie in m and in f.
    let m: usize = program.classes[5].funcs[&program.main_func];
    assert!(m < trace[2] && trace[2] < trace[1] && trace[1] < trace[0]);
    assert_eq!(program.instructions[trace[2]], CALL);
    assert_eq!(program.instructions[trace[1]], CALL);
    assert_eq!(program.instructions[trace[0]], LOAD);
}

#[test]
fn trace_lines_lead_back_to_the_source() {
    let files = vec![
        ("one.glass".to_string(), "{M[m\n (_t)$(_t)f.?]}".as_bytes().to_vec()),
        ("two.glass".to_string(), "{(Other)[f]}\n\n  {(Third)[f\n*]}".as_bytes().to_vec()),
    ];
    let program = parse_program(&files).ok().unwrap();
    assert_eq!(
        get_stacktrace_line(&program, 0),
        Some(StackTraceLine { file: 0, position: FilePosition { line: 0, col: 0 } })
    );
    assert_eq!(
        get_stacktrace_line(&program, 53),
        Some(StackTraceLine { file: 0, position: FilePosition { line: 0, col: 0 } })
    );
    // (_t) at 54..57, $ at 57..59, (_t) at 59..62, f at 62..65, `.` at 65,
    // `?` at 66, `]` at 67.
    assert_eq!(
        get_stacktrace_line(&program, 54),
        Some(StackTraceLine { file: 1, position: FilePosition { line: 2, col: 2 } })
    );
    assert_eq!(
        get_stacktrace_line(&program, 56),
        Some(StackTraceLine { file: 1, position: FilePosition { line: 2, col: 2 } })
    );
    assert_eq!(
        get_stacktrace_line(&program, 58),
        Some(StackTraceLine { file: 1, position: FilePosition { line: 2, col: 6 } })
    );
    assert_eq!(
        get_stacktrace_line(&program, 66),
        Some(StackTraceLine { file: 1, position: FilePosition { line: 2, col: 13 } })
    );
    assert_eq!(
        get_stacktrace_line(&program, 67),
        Some(StackTraceLine { file: 1, position: FilePosition { line: 2, col: 14 } })
    );
    // The second file begins at 68: the `]` of Other's f, then Third's f.
    assert_eq!(
        get_stacktrace_line(&program, 68),
        Some(StackTraceLine { file: 2, position: FilePosition { line: 1, col: 11 } })
    );
    assert_eq!(
        get_stacktrace_line(&program, 69),
        Some(StackTraceLine { file: 2, position: FilePosition { line: 4, col: 1 } })
    );
    assert_eq!(
        get_stacktrace_line(&program, 70),
        Some(StackTraceLine { file: 2, position: FilePosition { line: 4, col: 2 } })
    );
    assert_eq!(
        get_stacktrace_line(&program, 1000),
        Some(StackTraceLine { file: 2, position: FilePosition { line: 4, col: 2 } })
    );
}

#[test]
fn trace_line_of_a_program_without_tables() {
    let mut program = program_of(vec![RETURN]);
    program.files.clear();
    assert_eq!(get_stacktrace_line(&program, 0), None);
    let mut program = program_of(vec![RETURN]);
    program.positions.clear();
    assert_eq!(get_stacktrace_line(&program, 0), None);
    // An entry that begins behind the instruction is passed over, but for
    // the first.
    let mut program = program_of(vec![RETURN]);
    program.files = vec![(5, "a".to_string()), (7, "b".to_string())];
    program.positions = vec![
        (5, FilePosition { line: 1, col: 1 }),
        (6, FilePosition { line: 1, col: 2 }),
        (9, FilePosition { line: 1, col: 3 }),
    ];
    assert_eq!(
        get_stacktrace_line(&program, 0),
        Some(StackTraceLine { file: 0, position: FilePosition { line: 1, col: 1 } })
    );
    assert_eq!(
        get_stacktrace_line(&program, 8),
        Some(StackTraceLine { file: 1, position: FilePosition { line: 1, col: 2 } })
    );
}

#[test]
fn demand_counts_what_an_instruction_takes() {
    assert_eq!(demand(OpCode::Duplicate, 0), 1);
    assert_eq!(demand(OpCode::Duplicate, 255), 256);
    assert_eq!(demand(OpCode::PushSelf, 9), 0);
    assert_eq!(demand(OpCode::Return, 9), 0);
    assert_eq!(demand(OpCode::VarNew, 9), 0);
    assert_eq!(demand(OpCode::Call, 9), 1);
    assert_eq!(demand(OpCode::Floor, 9), 1);
    assert_eq!(demand(OpCode::Store, 9), 2);
    assert_eq!(demand(OpCode::LoadFrom, 9), 2);
    assert_eq!(demand(OpCode::Add, 9), 2);
    assert_eq!(demand(OpCode::StringReplace, 9), 3);
}

#[test]
fn operands_are_read_high_byte_first() {
    let code: Vec<u8> = vec![9, 1, 2, 9, 255, 255, 0, 0];
    assert_eq!(read_short(&code, 0), 258);
    assert_eq!(read_short(&code, 3), 65535);
    assert_eq!(read_short(&code, 5), 0);
}
