//! The class `V`, and programs of several files.

use glass::number::Number;
use glass::parser::{parse_program, ParseError};
use glass::interpreter::Machine;
use glass::value::{Action, Arithmetic, Comparison, Reply, RuntimeError};

#[derive(Debug, PartialEq)]
#[allow(dead_code)]
enum Failure {
    Parse(ParseError),
    Runtime(RuntimeError),
}

struct Run {
    result: Result<(), Failure>,
    stdout: Vec<u8>,
}

fn float(n: Number) -> f64 {
    f64::from_bits(n.bits)
}

fn number(value: f64) -> Number {
    Number { bits: value.to_bits() }
}

/// Compiles the sources as one program and runs it with `stdin` as its
/// input, doing the machine's arithmetic, input and output for it.
fn run_files(sources: &[&str], stdin: &str) -> Run {
    let mut files = Vec::new();
    for (i, source) in sources.iter().enumerate() {
        files.push((format!("glass{}.txt", i), source.as_bytes().to_vec()));
    }
    let mut stdout = Vec::new();
    let program = match parse_program(&files) {
        Ok(program) => program,
        Err(error) => return Run { result: Err(Failure::Parse(error)), stdout },
    };
    let mut machine = match Machine::new(&program) {
        Ok(machine) => machine,
        Err(error) => return Run { result: Err(Failure::Runtime(error)), stdout },
    };
    let input = stdin.as_bytes();
    let mut read: usize = 0;
    let mut at_end = false;
    let mut reply = Reply::Nothing;
    loop {
        let action = match machine.step(&program, reply) {
            Ok(action) => action,
            Err(error) => return Run { result: Err(Failure::Runtime(error)), stdout },
        };
        reply = match action {
            Action::Continue => Reply::Nothing,
            Action::Halt => return Run { result: Ok(()), stdout },
            Action::Evaluate(text) => {
                Reply::Number(number(String::from_utf8(text).unwrap().parse::<f64>().unwrap()))
            }
            Action::Compute(op, left, right) => {
                let (a, b) = (float(left), float(right));
                Reply::Number(number(match op {
                    Arithmetic::Add => a + b,
                    Arithmetic::Subtract => a - b,
                    Arithmetic::Multiply => a * b,
                    Arithmetic::Divide => a / b,
                    Arithmetic::Modulo => a % b,
                }))
            }
            Action::Floor(n) => Reply::Number(number(float(n).floor())),
            Action::Compare(op, left, right) => {
                let (a, b) = (float(left), float(right));
                Reply::Flag(match op {
                    Comparison::Equal => a == b,
                    Comparison::NotEqual => a != b,
                    Comparison::LessThan => a < b,
                    Comparison::GreaterThan => a > b,
                    Comparison::LessEqual => a <= b,
                    Comparison::GreaterEqual => a >= b,
                })
            }
            Action::WriteString(bytes) => {
                stdout.extend_from_slice(&bytes);
                Reply::Written(true)
            }
            Action::WriteNumber(n) => {
                stdout.extend_from_slice(format!("{}", float(n)).as_bytes());
                Reply::Written(true)
            }
            Action::ReadChar => {
                if read < input.len() {
                    read += 1;
                    Reply::Byte(Some(input[read - 1]))
                } else {
                    at_end = true;
                    Reply::Byte(None)
                }
            }
            Action::ReadLine => {
                let start: usize = read;
                while read < input.len() && input[read] != b'\n' {
                    read += 1;
                }
                if read < input.len() {
                    read += 1;
                }
                if read == start {
                    at_end = true;
                }
                Reply::Line(input[start..read].to_vec())
            }
            Action::TestEof => Reply::Flag(at_end),
        };
    }
}

/// A program whose main function makes one object of each built-in class
/// and then runs `code`.
#[allow(dead_code)]
fn expression(code: &str) -> String {
    format!("{{M[m(_a)A!(_i)I!(_o)O!(_s)S!(_v)V!{}]}}", code)
}

#[test]
fn auto_vars_success() {
    let file: String = r#"
        {M[moO!vV!vn.?000000Z!z.?*oo.?vn.?X!*oo.?vd.?]}
        {Z[(c__)oO!"a"oo.?][z"b"oo.?x.?][x"c"oo.?"d"=]}
        {X[(c__)oO!"e"oo.?]}
    "#.to_owned();
    let run = run_files(&[&file], "");
    assert_eq!(run.result, Ok(()));
    assert_eq!(run.stdout, "abcded".as_bytes());
}

#[test]
fn auto_var_delete_wrong_type() {
    let file: String = expression("(_x)(_v)d.?");
    let run = run_files(&[&file], "");
    assert!(run.result.is_err());
}

#[test]
fn auto_var_delete_empty_stack() {
    let file: String = expression("(_v)d.?");
    let run = run_files(&[&file], "");
    assert!(run.result.is_err());
}

#[test]
fn auto_var_unset_var() {
    let file: String = expression("(_v)n.?*");
    let run = run_files(&[&file], "");
    assert!(run.result.is_err());
}

#[test]
fn multiple_files_test() {
    let main_file: String = "{M[m(_c2)(C2)!]}".to_owned();
    let file2: String = "{(C2)[(c__)(_c3)(C3)!]}".to_owned();
    let file3: String = "{(C3)[(c__)(_c4)(C4)!]}".to_owned();
    let file4: String = "{(C4)[(c__)(_c5)(C5)!]}".to_owned();
    let file5: String = "{(C5)[(c__)(_o)O!<42>(_o)(on).?]}".to_owned();
    let run = run_files(&[&main_file, &file2, &file3, &file4, &file5], "");
    assert_eq!(run.result, Ok(()));
    assert_eq!(run.stdout, "42".as_bytes());
}
