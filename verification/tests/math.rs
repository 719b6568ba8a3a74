//! The class `A`: arithmetic and comparison.

use glass::number::Number;
use glass::parser::{parse_program, ParseError};
use glass::interpreter::Machine;
use glass::value::{Action, Arithmetic, Comparison, Reply, RuntimeError};

#[derive(Debug, PartialEq)]
#[allow(dead_code)]
enum Failure {
    Parse(ParseError),
    Runtime(RuntimeError),
}

struct Run {
    result: Result<(), Failure>,
    stdout: Vec<u8>,
}

fn float(n: Number) -> f64 {
    f64::from_bits(n.bits)
}

fn number(value: f64) -> Number {
    Number { bits: value.to_bits() }
}

/// Compiles the sources as one program and runs it with `stdin` as its
/// input, doing the machine's arithmetic, input and output for it.
fn run_files(sources: &[&str], stdin: &str) -> Run {
    let mut files = Vec::new();
    for (i, source) in sources.iter().enumerate() {
        files.push((format!("glass{}.txt", i), source.as_bytes().to_vec()));
    }
    let mut stdout = Vec::new();
    let program = match parse_program(&files) {
        Ok(program) => program,
        Err(error) => return Run { result: Err(Failure::Parse(error)), stdout },
    };
    let mut machine = match Machine::new(&program) {
        Ok(machine) => machine,
        Err(error) => return Run { result: Err(Failure::Runtime(error)), stdout },
    };
    let input = stdin.as_bytes();
    let mut read: usize = 0;
    let mut at_end = false;
    let mut reply = Reply::Nothing;
    loop {
        let action = match machine.step(&program, reply) {
            Ok(action) => action,
            Err(error) => return Run { result: Err(Failure::Runtime(error)), stdout },
        };
        reply = match action {
            Action::Continue => Reply::Nothing,
            Action::Halt => return Run { result: Ok(()), stdout },
            Action::Evaluate(text) => {
                Reply::Number(number(String::from_utf8(text).unwrap().parse::<f64>().unwrap()))
            }
            Action::Compute(op, left, right) => {
                let (a, b) = (float(left), float(right));
                Reply::Number(number(match op {
                    Arithmetic::Add => a + b,
                    Arithmetic::Subtract => a - b,
                    Arithmetic::Multiply => a * b,
                    Arithmetic::Divide => a / b,
                    Arithmetic::Modulo => a % b,
                }))
            }
            Action::Floor(n) => Reply::Number(number(float(n).floor())),
            Action::Compare(op, left, right) => {
                let (a, b) = (float(left), float(right));
                Reply::Flag(match op {
                    Comparison::Equal => a == b,
                    Comparison::NotEqual => a != b,
                    Comparison::LessThan => a < b,
                    Comparison::GreaterThan => a > b,
                    Comparison::LessEqual => a <= b,
                    Comparison::GreaterEqual => a >= b,
                })
            }
            Action::WriteString(bytes) => {
                stdout.extend_from_slice(&bytes);
                Reply::Written(true)
            }
            Action::WriteNumber(n) => {
                stdout.extend_from_slice(format!("{}", float(n)).as_bytes());
                Reply::Written(true)
            }
            Action::ReadChar => {
                if read < input.len() {
                    read += 1;
                    Reply::Byte(Some(input[read - 1]))
                } else {
                    at_end = true;
                    Reply::Byte(None)
                }
            }
            Action::ReadLine => {
                let start: usize = read;
                while read < input.len() && input[read] != b'\n' {
                    read += 1;
                }
                if read < input.len() {
                    read += 1;
                }
                if read == start {
                    at_end = true;
                }
                Reply::Line(input[start..read].to_vec())
            }
            Action::TestEof => Reply::Flag(at_end),
        };
    }
}

/// A program whose main function makes one object of each built-in class
/// and then runs `code`.
#[allow(dead_code)]
fn expression(code: &str) -> String {
    format!("{{M[m(_a)A!(_i)I!(_o)O!(_s)S!(_v)V!{}]}}", code)
}

#[test]
fn math_add_success() {
    let file: String = expression("<11><24>(_a)a.?(_o)(on).?");
    let run = run_files(&[&file], "");
    assert_eq!(run.result, Ok(()));
    assert_eq!(run.stdout, "35".as_bytes());
}

#[test]
fn math_add_wrong_types() {
    let file: String = expression("<11>\"12\"(_a)a.?");
    let run = run_files(&[&file], "");
    assert!(run.result.is_err());

    let file: String = expression("(name)<11>(_a)a.?");
    let run = run_files(&[&file], "");
    assert!(run.result.is_err());
}

#[test]
fn math_add_empty_stack() {
    let file: String = expression("<11>(_a)a.?");
    let run = run_files(&[&file], "");
    assert!(run.result.is_err());

    let file: String = expression("(_a)a.?");
    let run = run_files(&[&file], "");
    assert!(run.result.is_err());
}

#[test]
fn math_equal_success() {
    let file: String = expression("<11><24>(_a)e.?(_o)(on).?");
    let run = run_files(&[&file], "");
    assert_eq!(run.result, Ok(()));
    assert_eq!(run.stdout, "0".as_bytes());

    let file: String = expression("<11><11>(_a)e.?(_o)(on).?");
    let run = run_files(&[&file], "");
    assert_eq!(run.result, Ok(()));
    assert_eq!(run.stdout, "1".as_bytes());

    let file: String = expression("<200><24>(_a)e.?(_o)(on).?");
    let run = run_files(&[&file], "");
    assert_eq!(run.result, Ok(()));
    assert_eq!(run.stdout, "0".as_bytes());
}

#[test]
fn math_equal_wrong_types() {
    let file: String = expression("<11>\"12\"(_a)e.?");
    let run = run_files(&[&file], "");
    assert!(run.result.is_err());

    let file: String = expression("(name)<11>(_a)e.?");
    let run = run_files(&[&file], "");
    assert!(run.result.is_err());
}

#[test]
fn math_equal_empty_stack() {
    let file: String = expression("<11>(_a)e.?");
    let run = run_files(&[&file], "");
    assert!(run.result.is_err());

    let file: String = expression("(_a)e.?");
    let run = run_files(&[&file], "");
    assert!(run.result.is_err());
}

#[test]
fn math_floor_success() {
    let file: String = expression("<12.1>(_a)f.?(_o)(on).?");
    let run = run_files(&[&file], "");
    assert_eq!(run.result, Ok(()));
    assert_eq!(run.stdout, "12".as_bytes());

    let file: String = expression("<-12.1>(_a)f.?(_o)(on).?");
    let run = run_files(&[&file], "");
    assert_eq!(run.result, Ok(()));
    assert_eq!(run.stdout, "-13".as_bytes());

    let file: String = expression("<100>(_a)f.?(_o)(on).?");
    let run = run_files(&[&file], "");
    assert_eq!(run.result, Ok(()));
    assert_eq!(run.stdout, "100".as_bytes());
}

#[test]
fn math_floor_wrong_types() {
    let file: String = expression("\"12\"(_a)f.?");
    let run = run_files(&[&file], "");
    assert!(run.result.is_err());
}

#[test]
fn math_floor_empty_stack() {
    let file: String = expression("(_a)f.?");
    let run = run_files(&[&file], "");
    assert!(run.result.is_err());
}

#[test]
fn math_greater_than_success() {
    let file: String = expression("<11><24>(_a)(gt).?(_o)(on).?");
    let run = run_files(&[&file], "");
    assert_eq!(run.result, Ok(()));
    assert_eq!(run.stdout, "0".as_bytes());

    let file: String = expression("<11><11>(_a)(gt).?(_o)(on).?");
    let run = run_files(&[&file], "");
    assert_eq!(run.result, Ok(()));
    assert_eq!(run.stdout, "0".as_bytes());

    let file: String = expression("<200><24>(_a)(gt).?(_o)(on).?");
    let run = run_files(&[&file], "");
    assert_eq!(run.result, Ok(()));
    assert_eq!(run.stdout, "1".as_bytes());
}

#[test]
fn math_greater_than_wrong_types() {
    let file: String = expression("<11>\"12\"(_a)(gt).?");
    let run = run_files(&[&file], "");
    assert!(run.result.is_err());

    let file: String = expression("(name)<11>(_a)(gt).?");
    let run = run_files(&[&file], "");
    assert!(run.result.is_err());
}

#[test]
fn math_greater_than_empty_stack() {
    let file: String = expression("<11>(_a)(gt).?");
    let run = run_files(&[&file], "");
    assert!(run.result.is_err());

    let file: String = expression("(_a)(gt).?");
    let run = run_files(&[&file], "");
    assert!(run.result.is_err());
}

#[test]
fn math_less_than_success() {
    let file: String = expression("<11><24>(_a)(lt).?(_o)(on).?");
    let run = run_files(&[&file], "");
    assert_eq!(run.result, Ok(()));
    assert_eq!(run.stdout, "1".as_bytes());

    let file: String = expression("<11><11>(_a)(lt).?(_o)(on).?");
    let run = run_files(&[&file], "");
    assert_eq!(run.result, Ok(()));
    assert_eq!(run.stdout, "0".as_bytes());

    let file: String = expression("<200><24>(_a)(lt).?(_o)(on).?");
    let run = run_files(&[&file], "");
    assert_eq!(run.result, Ok(()));
    assert_eq!(run.stdout, "0".as_bytes());
}

#[test]
fn math_less_than_wrong_types() {
    let file: String = expression("<11>\"12\"(_a)(lt).?");
    let run = run_files(&[&file], "");
    assert!(run.result.is_err());

    let file: String = expression("(name)<11>(_a)(lt).?");
    let run = run_files(&[&file], "");
    assert!(run.result.is_err());
}

#[test]
fn math_less_than_empty_stack() {
    let file: String = expression("<11>(_a)(lt).?");
    let run = run_files(&[&file], "");
    assert!(run.result.is_err());

    let file: String = expression("(_a)(lt).?");
    let run = run_files(&[&file], "");
    assert!(run.result.is_err());
}

#[test]
fn math_modulo_success() {
    let file: String = expression("<24><11>(_a)(mod).?(_o)(on).?");
    let run = run_files(&[&file], "");
    assert_eq!(run.result, Ok(()));
    assert_eq!(run.stdout, "2".as_bytes());
}

#[test]
fn math_modulo_wrong_types() {
    let file: String = expression("<11>\"12\"(_a)(mod).?");
    let run = run_files(&[&file], "");
    assert!(run.result.is_err());

    let file: String = expression("(name)<11>(_a)(mod).?");
    let run = run_files(&[&file], "");
    assert!(run.result.is_err());
}

#[test]
fn math_modulo_empty_stack() {
    let file: String = expression("<11>(_a)(mod).?");
    let run = run_files(&[&file], "");
    assert!(run.result.is_err());

    let file: String = expression("(_a)(mod).?");
    let run = run_files(&[&file], "");
    assert!(run.result.is_err());
}

#[test]
fn math_multiply_success() {
    let file: String = expression("<11><24>(_a)m.?(_o)(on).?");
    let run = run_files(&[&file], "");
    assert_eq!(run.result, Ok(()));
    assert_eq!(run.stdout, "264".as_bytes());
}

#[test]
fn math_multiply_wrong_types() {
    let file: String = expression("<11>\"12\"(_a)m.?");
    let run = run_files(&[&file], "");
    assert!(run.result.is_err());

    let file: String = expression("(name)<11>(_a)m.?");
    let run = run_files(&[&file], "");
    assert!(run.result.is_err());
}

#[test]
fn math_multiply_empty_stack() {
    let file: String = expression("<11>(_a)m.?");
    let run = run_files(&[&file], "");
    assert!(run.result.is_err());

    let file: String = expression("(_a)m.?");
    let run = run_files(&[&file], "");
    assert!(run.result.is_err());
}

#[test]
fn math_not_equal_success() {
    let file: String = expression("<11><24>(_a)(ne).?(_o)(on).?");
    let run = run_files(&[&file], "");
    assert_eq!(run.result, Ok(()));
    assert_eq!(run.stdout, "1".as_bytes());

    let file: String = expression("<11><11>(_a)(ne).?(_o)(on).?");
    let run = run_files(&[&file], "");
    assert_eq!(run.result, Ok(()));
    assert_eq!(run.stdout, "0".as_bytes());

    let file: String = expression("<200><24>(_a)(ne).?(_o)(on).?");
    let run = run_files(&[&file], "");
    assert_eq!(run.result, Ok(()));
    assert_eq!(run.stdout, "1".as_bytes());
}

#[test]
fn math_not_equal_wrong_types() {
    let file: String = expression("<11>\"12\"(_a)(ne).?");
    let run = run_files(&[&file], "");
    assert!(run.result.is_err());

    let file: String = expression("(name)<11>(_a)(ne).?");
    let run = run_files(&[&file], "");
    assert!(run.result.is_err());
}

#[test]
fn math_not_equal_empty_stack() {
    let file: String = expression("<11>(_a)(ne).?");
    let run = run_files(&[&file], "");
    assert!(run.result.is_err());

    let file: String = expression("(_a)(ne).?");
    let run = run_files(&[&file], "");
    assert!(run.result.is_err());
}

#[test]
fn math_subtract_success() {
    let file: String = expression("<11><24>(_a)s.?(_o)(on).?");
    let run = run_files(&[&file], "");
    assert_eq!(run.result, Ok(()));
    assert_eq!(run.stdout, "-13".as_bytes());
}

#[test]
fn math_subtract_wrong_types() {
    let file: String = expression("<11>\"12\"(_a)s.?");
    let run = run_files(&[&file], "");
    assert!(run.result.is_err());

    let file: String = expression("(name)<11>(_a)s.?");
    let run = run_files(&[&file], "");
    assert!(run.result.is_err());
}

#[test]
fn math_subtract_empty_stack() {
    let file: String = expression("<11>(_a)s.?");
    let run = run_files(&[&file], "");
    assert!(run.result.is_err());

    let file: String = expression("(_a)s.?");
    let run = run_files(&[&file], "");
    assert!(run.result.is_err());
}
