//! The sigils of the language.

use glass::number::Number;
use glass::parser::{parse_program, ParseError};
use glass::interpreter::Machine;
use glass::value::{Action, Arithmetic, Comparison, Reply, RuntimeError};

#[derive(Debug, PartialEq)]
#[allow(dead_code)]
enum Failure {
    Parse(ParseError),
    Runtime(RuntimeError),
}

struct Run {
    result: Result<(), Failure>,
    stdout: Vec<u8>,
}

fn float(n: Number) -> f64 {
    f64::from_bits(n.bits)
}

fn number(value: f64) -> Number {
    Number { bits: value.to_bits() }
}

/// Compiles the sources as one program and runs it with `stdin` as its
/// input, doing the machine's arithmetic, input and output for it.
fn run_files(sources: &[&str], stdin: &str) -> Run {
    let mut files = Vec::new();
    for (i, source) in sources.iter().enumerate() {
        files.push((format!("glass{}.txt", i), source.as_bytes().to_vec()));
    }
    let mut stdout = Vec::new();
    let program = match parse_program(&files) {
        Ok(program) => program,
        Err(error) => return Run { result: Err(Failure::Parse(error)), stdout },
    };
    let mut machine = match Machine::new(&program) {
        Ok(machine) => machine,
        Err(error) => return Run { result: Err(Failure::Runtime(error)), stdout },
    };
    let input = stdin.as_bytes();
    let mut read: usize = 0;
    let mut at_end = false;
    let mut reply = Reply::Nothing;
    loop {
        let action = match machine.step(&program, reply) {
            Ok(action) => action,
            Err(error) => return Run { result: Err(Failure::Runtime(error)), stdout },
        };
        reply = match action {
            Action::Continue => Reply::Nothing,
            Action::Halt => return Run { result: Ok(()), stdout },
            Action::Evaluate(text) => {
                Reply::Number(number(String::from_utf8(text).unwrap().parse::<f64>().unwrap()))
            }
            Action::Compute(op, left, right) => {
                let (a, b) = (float(left), float(right));
                Reply::Number(number(match op {
                    Arithmetic::Add => a + b,
                    Arithmetic::Subtract => a - b,
                    Arithmetic::Multiply => a * b,
                    Arithmetic::Divide => a / b,
                    Arithmetic::Modulo => a % b,
                }))
            }
            Action::Floor(n) => Reply::Number(number(float(n).floor())),
            Action::Compare(op, left, right) => {
                let (a, b) = (float(left), float(right));
                Reply::Flag(match op {
                    Comparison::Equal => a == b,
                    Comparison::NotEqual => a != b,
                    Comparison::LessThan => a < b,
                    Comparison::GreaterThan => a > b,
                    Comparison::LessEqual => a <= b,
                    Comparison::GreaterEqual => a >= b,
                })
            }
            Action::WriteString(bytes) => {
                stdout.extend_from_slice(&bytes);
                Reply::Written(true)
            }
            Action::WriteNumber(n) => {
                stdout.extend_from_slice(format!("{}", float(n)).as_bytes());
                Reply::Written(true)
            }
            Action::ReadChar => {
                if read < input.len() {
                    read += 1;
                    Reply::Byte(Some(input[read - 1]))
                } else {
                    at_end = true;
                    Reply::Byte(None)
                }
            }
            Action::ReadLine => {
                let start: usize = read;
                while read < input.len() && input[read] != b'\n' {
                    read += 1;
                }
                if read < input.len() {
                    read += 1;
                }
                if read == start {
                    at_end = true;
                }
                Reply::Line(input[start..read].to_vec())
            }
            Action::TestEof => Reply::Flag(at_end),
        };
    }
}

/// A program whose main function makes one object of each built-in class
/// and then runs `code`.
#[allow(dead_code)]
fn expression(code: &str) -> String {
    format!("{{M[m(_a)A!(_i)I!(_o)O!(_s)S!(_v)V!{}]}}", code)
}

#[test]
fn local_asterisk() {
    let file: String = "{M[m(_t)<1>=(_t)*(_o)O!(_o)(on).?]}".to_owned();
    let run = run_files(&[&file], "");
    assert_eq!(run.result, Ok(()));
    assert_eq!(run.stdout, "1".as_bytes());
}

#[test]
fn member_asterisk() {
    let file: String = "{M[ma\"2\"=(_t)$(_t)x.?][x(_o)O!a*(_o)o.?]}".to_owned();
    let run = run_files(&[&file], "");
    assert_eq!(run.result, Ok(()));
    assert_eq!(run.stdout, "2".as_bytes());
}

#[test]
fn global_asterisk() {
    let file: String = "{M[mA\"3\"=(_t)T!(_t)o.?]}{T[o(_o)O!A*(_o)o.?]}".to_owned();
    let run = run_files(&[&file], "");
    assert_eq!(run.result, Ok(()));
    assert_eq!(run.stdout, "3".as_bytes());
}

#[test]
fn asterisk_wrong_type() {
    let file: String = expression("<1>*");
    let run = run_files(&[&file], "");
    assert!(run.result.is_err());
}

#[test]
fn asterisk_empty_stack() {
    let file: String = expression("*");
    let run = run_files(&[&file], "");
    assert!(run.result.is_err());
}

#[test]
fn asterisk_unset_global() {
    let file: String = expression("X*");
    let run = run_files(&[&file], "");
    assert!(run.result.is_err());
}

#[test]
fn asterisk_unset_member() {
    let file: String = "{M[ma<1>=zM!zz.?][za*]}".to_owned();
    let run = run_files(&[&file], "");
    assert!(run.result.is_err());
}

#[test]
fn asterisk_unset_local() {
    let file: String = "{M[m/A(_a)*\\(_a)<1>=A<1>=(_t)$(_t)m.?]}".to_owned();
    let run = run_files(&[&file], "");
    assert!(run.result.is_err());
}

#[test]
fn caret_test() {
    let file: String = expression("<1>(_o)(on).?^<2>(_o)(on).?");
    let run = run_files(&[&file], "");
    assert_eq!(run.result, Ok(()));
    assert_eq!(run.stdout, "1".as_bytes());
}

#[test]
fn comma_test() {
    let file: String = expression("<1><2>,(_o)(on).?");
    let run = run_files(&[&file], "");
    assert_eq!(run.result, Ok(()));
    assert_eq!(run.stdout, "1".as_bytes());
}

#[test]
fn builtin_comma_dollar_sign_wrong_type() {
    let file: String = expression(",");
    let run = run_files(&[&file], "");
    assert!(run.result.is_err());
}

#[test]
fn comment_test() {
    let file: String = "'comment'{'comment'M'comment'''['comment'm(_o)'c'O!<8>(_o)'X'(on).'48'?/'X'(_o)''\\]}".to_owned();
    let run = run_files(&[&file], "");
    assert_eq!(run.result, Ok(()));
    assert_eq!(run.stdout, "8".as_bytes());
}

#[test]
fn local_dollar_sign() {
    let file: String = "{M[m(_t)$(_t)a.?][a(_o)O!<1>(_o)(on).?]}".to_owned();
    let run = run_files(&[&file], "");
    assert_eq!(run.result, Ok(()));
    assert_eq!(run.stdout, "1".as_bytes());
}

#[test]
fn member_dollar_sign() {
    let file: String = "{M[mt$(_t)$(_t)a.?][atx.?][x(_o)O!<2>(_o)(on).?]}".to_owned();
    let run = run_files(&[&file], "");
    assert_eq!(run.result, Ok(()));
    assert_eq!(run.stdout, "2".as_bytes());
}

#[test]
fn global_dollar_sign() {
    let file: String = "{M[mX$(_n)N!(_n)a.?][a(_o)O!<3>(_o)(on).?]}{N[aXa.?]}".to_owned();
    let run = run_files(&[&file], "");
    assert_eq!(run.result, Ok(()));
    assert_eq!(run.stdout, "3".as_bytes());
}

#[test]
fn builtin_dollar_sign_dollar_sign_wrong_type() {
    let file: String = expression("<1>$");
    let run = run_files(&[&file], "");
    assert!(run.result.is_err());
}

#[test]
fn dollar_sign_empty_stack() {
    let file: String = expression("$");
    let run = run_files(&[&file], "");
    assert!(run.result.is_err());
}

#[test]
fn duplicate() {
    let file: String = expression("\"2\"\"1\"\"0\"2(_o)o.?1(_o)o.?0(_o)o.?");
    let run = run_files(&[&file], "");
    assert_eq!(run.result, Ok(()));
    assert_eq!(run.stdout, "210".as_bytes());
}

#[test]
fn duplicate_out_of_range() {
    let file: String = expression("<1><2><3><4><5><6><7><8>9");
    let run = run_files(&[&file], "");
    assert!(run.result.is_err());
}

#[test]
fn local_equal() {
    let file: String = "{M[m(_t)<1>=(_t)*(_o)O!(_o)(on).?]}".to_owned();
    let run = run_files(&[&file], "");
    assert_eq!(run.result, Ok(()));
    assert_eq!(run.stdout, "1".as_bytes());
}

#[test]
fn member_equal() {
    let file: String = "{M[ma\"2\"=(_t)$(_t)x.?][x(_o)O!a*(_o)o.?]}".to_owned();
    let run = run_files(&[&file], "");
    assert_eq!(run.result, Ok(()));
    assert_eq!(run.stdout, "2".as_bytes());
}

#[test]
fn global_equal() {
    let file: String = "{M[mA\"3\"=(_t)T!(_t)o.?]}{T[o(_o)O!A*(_o)o.?]}".to_owned();
    let run = run_files(&[&file], "");
    assert_eq!(run.result, Ok(()));
    assert_eq!(run.stdout, "3".as_bytes());
}

#[test]
fn equal_wrong_type() {
    let file: String = expression("<2><3>=");
    let run = run_files(&[&file], "");
    assert!(run.result.is_err());
}

#[test]
fn equal_empty_stack() {
    let file: String = expression("<3>=");
    let run = run_files(&[&file], "");
    assert!(run.result.is_err());

    let file: String = expression("=");
    let run = run_files(&[&file], "");
    assert!(run.result.is_err());
}

#[test]
fn local_exclamation() {
    let file: String = "{M[m(_t)M!(_t)a.?][a(_o)O!<1>(_o)(on).?]}".to_owned();
    let run = run_files(&[&file], "");
    assert_eq!(run.result, Ok(()));
    assert_eq!(run.stdout, "1".as_bytes());
}

#[test]
fn member_exclamation() {
    let file: String = "{M[mxM!(_t)$(_t)a.?][axy.?][y(_o)O!<2>(_o)(on).?]}".to_owned();
    let run = run_files(&[&file], "");
    assert_eq!(run.result, Ok(()));
    assert_eq!(run.stdout, "2".as_bytes());
}

#[test]
fn global_exclamation() {
    let file: String = "{M[mZX!aY!ay.?]}{Y[yZy.?]}{X[y(_o)O!<3>(_o)(on).?]}".to_owned();
    let run = run_files(&[&file], "");
    assert_eq!(run.result, Ok(()));
    assert_eq!(run.stdout, "3".as_bytes());
}

#[test]
fn exclamation_wrong_types() {
    let file: String = expression("<1>A!");
    let run = run_files(&[&file], "");
    assert!(run.result.is_err());

    let file: String = expression("(_name)\"A\"!");
    let run = run_files(&[&file], "");
    assert!(run.result.is_err());
}

#[test]
fn exclamation_not_a_class() {
    let file: String = expression("(_a)X!");
    let run = run_files(&[&file], "");
    assert!(run.result.is_err());

    let file: String = expression("A\"not a class\"=(_a)A!");
    let run = run_files(&[&file], "");
    assert!(run.result.is_err());
}

#[test]
fn exclamation_empty_stack() {
    let file: String = expression("A!");
    let run = run_files(&[&file], "");
    assert!(run.result.is_err());

    let file: String = expression("!");
    let run = run_files(&[&file], "");
    assert!(run.result.is_err());
}

#[test]
fn loop_test() {
    let file: String = expression("(_x)\"\"=(_n)<1>=/(_n)(_x)*(_o)o.?/(_x)(_n)<0>=(_x)A!\\(_x)\"a\"=(_n)*(_o)(on).?\\");
    let run = run_files(&[&file], "");
    assert_eq!(run.result, Ok(()));
    assert_eq!(run.stdout, "1a0".as_bytes());
}

#[test]
fn loop_unset_local() {
    let file: String = expression("/(_z)\\");
    let run = run_files(&[&file], "");
    assert!(run.result.is_err());
}

#[test]
fn loop_unset_member() {
    let file: String = expression("/z\\");
    let run = run_files(&[&file], "");
    assert!(run.result.is_err());
}

#[test]
fn loop_unset_global() {
    let file: String = expression("/(GLOBAL)\\");
    let run = run_files(&[&file], "");
    assert!(run.result.is_err());
}
