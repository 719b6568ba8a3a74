//! Whole programs, from source text to output.

use glass::number::Number;
use glass::parser::{parse_program, ParseError};
use glass::interpreter::Machine;
use glass::value::{Action, Arithmetic, Comparison, Reply, RuntimeError};

#[derive(Debug, PartialEq)]
#[allow(dead_code)]
enum Failure {
    Parse(ParseError),
    Runtime(RuntimeError),
}

struct Run {
    result: Result<(), Failure>,
    stdout: Vec<u8>,
}

fn float(n: Number) -> f64 {
    f64::from_bits(n.bits)
}

fn number(value: f64) -> Number {
    Number { bits: value.to_bits() }
}

/// Compiles the sources as one program and runs it with `stdin` as its
/// input, doing the machine's arithmetic, input and output for it.
fn run_files(sources: &[&str], stdin: &str) -> Run {
    let mut files = Vec::new();
    for (i, source) in sources.iter().enumerate() {
        files.push((format!("glass{}.txt", i), source.as_bytes().to_vec()));
    }
    let mut stdout = Vec::new();
    let program = match parse_program(&files) {
        Ok(program) => program,
        Err(error) => return Run { result: Err(Failure::Parse(error)), stdout },
    };
    let mut machine = match Machine::new(&program) {
        Ok(machine) => machine,
        Err(error) => return Run { result: Err(Failure::Runtime(error)), stdout },
    };
    let input = stdin.as_bytes();
    let mut read: usize = 0;
    let mut at_end = false;
    let mut reply = Reply::Nothing;
    loop {
        let action = match machine.step(&program, reply) {
            Ok(action) => action,
            Err(error) => return Run { result: Err(Failure::Runtime(error)), stdout },
        };
        reply = match action {
            Action::Continue => Reply::Nothing,
            Action::Halt => return Run { result: Ok(()), stdout },
            Action::Evaluate(text) => {
                Reply::Number(number(String::from_utf8(text).unwrap().parse::<f64>().unwrap()))
            }
            Action::Compute(op, left, right) => {
                let (a, b) = (float(left), float(right));
                Reply::Number(number(match op {
                    Arithmetic::Add => a + b,
                    Arithmetic::Subtract => a - b,
                    Arithmetic::Multiply => a * b,
                    Arithmetic::Divide => a / b,
                    Arithmetic::Modulo => a % b,
                }))
            }
            Action::Floor(n) => Reply::Number(number(float(n).floor())),
            Action::Compare(op, left, right) => {
                let (a, b) = (float(left), float(right));
                Reply::Flag(match op {
                    Comparison::Equal => a == b,
                    Comparison::NotEqual => a != b,
                    Comparison::LessThan => a < b,
                    Comparison::GreaterThan => a > b,
                    Comparison::LessEqual => a <= b,
                    Comparison::GreaterEqual => a >= b,
                })
            }
            Action::WriteString(bytes) => {
                stdout.extend_from_slice(&bytes);
                Reply::Written(true)
            }
            Action::WriteNumber(n) => {
                stdout.extend_from_slice(format!("{}", float(n)).as_bytes());
                Reply::Written(true)
            }
            Action::ReadChar => {
                if read < input.len() {
                    read += 1;
                    Reply::Byte(Some(input[read - 1]))
                } else {
                    at_end = true;
                    Reply::Byte(None)
                }
            }
            Action::ReadLine => {
                let start: usize = read;
                while read < input.len() && input[read] != b'\n' {
                    read += 1;
                }
                if read < input.len() {
                    read += 1;
                }
                if read == start {
                    at_end = true;
                }
                Reply::Line(input[start..read].to_vec())
            }
            Action::TestEof => Reply::Flag(at_end),
        };
    }
}

/// A program whose main function makes one object of each built-in class
/// and then runs `code`.
#[allow(dead_code)]
fn expression(code: &str) -> String {
    format!("{{M[m(_a)A!(_i)I!(_o)O!(_s)S!(_v)V!{}]}}", code)
}

fn output_of(source: &str) -> String {
    let run = run_files(&[source], "");
    assert_eq!(run.result, Ok(()));
    String::from_utf8(run.stdout).unwrap()
}

#[test]
fn hello_world() {
    assert_eq!(output_of("{M[m(_o)O!\"Hello, world!\"(_o)o.?]}"), "Hello, world!");
}

#[test]
fn add_gives_the_sum() {
    assert_eq!(output_of("{M[m(_a)A!<11><24>(_a)a.?(_o)O!(_o)(on).?]}"), "35");
}

#[test]
fn subtract_takes_the_top_from_the_value_below() {
    assert_eq!(output_of("{M[m(_a)A!<11><24>(_a)s.?(_o)O!(_o)(on).?]}"), "-13");
}

#[test]
fn floor_rounds_down() {
    assert_eq!(
        output_of("{M[m(_a)A!(_o)O!<12.1>(_a)f.?(_o)(on).?<-12.1>(_a)f.?(_o)(on).?]}"),
        "12-13"
    );
}

#[test]
fn index_gives_one_byte() {
    assert_eq!(
        output_of("{M[m(_o)O!(_s)S!\"blah\"<3>(_s)i.?(_o)o.?\"blah\"<0>(_s)i.?(_o)o.?]}"),
        "hb"
    );
}

#[test]
fn loop_runs_until_its_name_is_empty() {
    assert_eq!(output_of("{M[m(_o)O!(_a)A!(_x)\"a\"=/(_x)(_x)*(_o)o.?(_x)\"\"=\\]}"), "a");
}

#[test]
fn two_files_are_one_program() {
    let run = run_files(&["{M[m(_c)(C2)!]}", "{(C2)[(c__)(_o)O!<42>(_o)(on).?]}"], "");
    assert_eq!(run.result, Ok(()));
    assert_eq!(run.stdout, "42".as_bytes());
}

#[test]
fn divide_and_modulo_take_the_top_as_divisor() {
    assert_eq!(output_of(&expression("<7><2>(_a)d.?(_o)(on).?")), "3.5");
    assert_eq!(output_of(&expression("<7><2>(_a)(mod).?(_o)(on).?")), "1");
    assert_eq!(output_of(&expression("<3><4>(_a)m.?(_o)(on).?")), "12");
}

#[test]
fn comparisons_give_one_or_zero() {
    assert_eq!(output_of(&expression("<1><2>(_a)(lt).?(_o)(on).?")), "1");
    assert_eq!(output_of(&expression("<1><2>(_a)(gt).?(_o)(on).?")), "0");
    assert_eq!(output_of(&expression("<2><2>(_a)(le).?(_o)(on).?")), "1");
    assert_eq!(output_of(&expression("<2><2>(_a)(ge).?(_o)(on).?")), "1");
    assert_eq!(output_of(&expression("<2><2>(_a)e.?(_o)(on).?")), "1");
    assert_eq!(output_of(&expression("<2><2>(_a)(ne).?(_o)(on).?")), "0");
}

#[test]
fn every_byte_survives_the_way_to_a_string_and_back() {
    for n in 0u32..=255 {
        let code = format!("<{}>(_s)(ns).?(_s)(sn).?(_o)(on).?", n);
        assert_eq!(output_of(&expression(&code)), format!("{}", n));
    }
}

#[test]
fn num_to_string_gives_the_byte_itself() {
    for n in 0u32..=255 {
        let code = format!("<{}>(_s)(ns).?(_o)o.?", n);
        let run = run_files(&[&expression(&code)], "");
        assert_eq!(run.result, Ok(()));
        assert_eq!(run.stdout, vec![n as u8]);
    }
}

#[test]
fn output_keeps_nul_and_newline() {
    let run = run_files(&[&expression("\"a\\nb\"(_o)o.?<0>(_s)(ns).?(_o)o.?\"\\\\\\\"\"(_o)o.?")], "");
    assert_eq!(run.result, Ok(()));
    assert_eq!(run.stdout, "a\nb\0\\\"".as_bytes());
}

#[test]
fn output_keeps_bytes_that_are_no_text() {
    let mut source = "{M[m(_o)O!\"".as_bytes().to_vec();
    source.extend_from_slice(&[0u8, 255, 128, 10, 13, 27]);
    source.extend_from_slice("\"(_o)o.?]}".as_bytes());
    let files = vec![("bytes".to_string(), source)];
    let program = parse_program(&files).ok().unwrap();
    let mut machine = Machine::new(&program).ok().unwrap();
    let mut reply = Reply::Nothing;
    let mut written: Vec<u8> = Vec::new();
    loop {
        reply = match machine.step(&program, reply).unwrap() {
            Action::Halt => break,
            Action::WriteString(bytes) => {
                written.extend_from_slice(&bytes);
                Reply::Written(true)
            }
            _ => Reply::Nothing,
        };
    }
    assert_eq!(written, vec![0u8, 255, 128, 10, 13, 27]);
}

#[test]
fn loop_with_a_zero_name_skips_its_body() {
    assert_eq!(output_of(&expression("(_n)<0>=/(_n)\"never\"(_o)o.?\\\"done\"(_o)o.?")), "done");
}

#[test]
fn loop_with_an_unset_body_name_is_skipped_all_the_same() {
    // The body would fail if it ran: it loads a name that holds nothing.
    assert_eq!(output_of(&expression("(_n)\"\"=/(_n)(_nothing)*\\\"ok\"(_o)o.?")), "ok");
}

#[test]
fn loop_counts_down() {
    assert_eq!(
        output_of(&expression("(_n)<3>=/(_n)(_n)*(_o)(on).?(_n)(_n)*<1>(_a)s.?=\\")),
        "321"
    );
}

#[test]
fn nested_loops() {
    assert_eq!(
        output_of(&expression(
            "(_i)<2>=/(_i)(_j)<2>=/(_j)\"x\"(_o)o.?(_j)(_j)*<1>(_a)s.?=\\\"|\"(_o)o.?(_i)(_i)*<1>(_a)s.?=\\"
        )),
        "xx|xx|"
    );
}

#[test]
fn constructor_finds_its_object_under_the_target_name() {
    // The constructor calls a function through the global name that the
    // object is being given to.
    assert_eq!(
        output_of("{M[mGC!]}{C[(c__)x\"set\"=Gp.?][p(_o)O!x*(_o)o.?]}"),
        "set"
    );
}

#[test]
fn constructor_runs_once_for_each_object() {
    assert_eq!(output_of("{M[m(_a)C!(_b)C!(_a)f.?]}{C[(c__)(_o)O!\"c\"(_o)o.?][f(_o)O!\"f\"(_o)o.?]}"), "ccf");
}

#[test]
fn constructor_may_be_the_first_function() {
    assert_eq!(output_of("{C[(c__)(_o)O!\"made\"(_o)o.?]}{M[m(_c)C!]}"), "made");
}

#[test]
fn main_object_is_made_without_its_constructor() {
    assert_eq!(output_of("{M[(c__)(_o)O!\"no\"(_o)o.?][m(_o)O!\"yes\"(_o)o.?]}"), "yes");
}

#[test]
fn early_objects_stay_what_they_were() {
    // The first object is used after two hundred more were made.
    let mut code = String::from("(_first)C!");
    for _ in 0u32..200 {
        code.push_str("(_more)C!");
    }
    code.push_str("(_first)f.?");
    let source = format!("{{M[m{}]}}{{C[f(_o)O!\"first\"(_o)o.?]}}", code);
    assert_eq!(output_of(&source), "first");
}

#[test]
fn objects_may_hold_each_other() {
    assert_eq!(
        output_of("{M[m(_a)C!(_b)C!(_b)*(_a)s.?(_a)*(_b)s.?(_a)p.?(_b)p.?]}{C[sx1=,][pxq.?][q(_o)O!\"q\"(_o)o.?]}"),
        "qq"
    );
}

#[test]
fn duplicate_needs_its_depth_on_the_stack() {
    let run = run_files(&[&expression("\"a\"\"b\"(2)")], "");
    assert_eq!(run.result, Err(Failure::Runtime(RuntimeError::EmptyStack)));
    let run = run_files(&[&expression("\"a\"\"b\"(1)")], "");
    assert_eq!(run.result, Ok(()));
}

#[test]
fn duplicate_zero_copies_the_top() {
    assert_eq!(output_of(&expression("\"a\"\"b\"0(_o)o.?(_o)o.?(_o)o.?")), "bba");
    assert_eq!(output_of(&expression("\"a\"\"b\"1(_o)o.?(_o)o.?(_o)o.?")), "aba");
    assert_eq!(output_of(&expression("\"a\"\"b\"(1)(_o)o.?(_o)o.?(_o)o.?")), "aba");
}

#[test]
fn return_ends_a_function_early() {
    assert_eq!(output_of(&expression("\"a\"(_o)o.?^\"b\"(_o)o.?")), "a");
}

#[test]
fn comments_and_blanks_are_skipped() {
    assert_eq!(output_of("  'a\ncomment' { M\t[ m 'x' (_o) O ! \"hi\" (_o) o . ? ] }\r\n"), "hi");
}

#[test]
fn equal_strings_are_one_constant() {
    let files = vec![("a".to_string(), "{M[m\"x\"\"y\"\"x\"]}".as_bytes().to_vec())];
    let program = parse_program(&files).ok().unwrap();
    assert_eq!(program.strings.len(), 2);
    assert_eq!(program.strings[0].0, "x".as_bytes());
    assert_eq!(program.strings[1].0, "y".as_bytes());
}

#[test]
fn equal_numbers_are_two_constants() {
    let files = vec![("a".to_string(), "{M[m<1><1>]}".as_bytes().to_vec())];
    let program = parse_program(&files).ok().unwrap();
    assert_eq!(program.numbers, vec!["1".as_bytes().to_vec(), "1".as_bytes().to_vec()]);
}

#[test]
fn string_functions() {
    assert_eq!(output_of(&expression("\"ab\"\"cd\"(_s)a.?(_o)o.?")), "abcd");
    assert_eq!(output_of(&expression("\"abc\"(_s)l.?(_o)(on).?")), "3");
    assert_eq!(output_of(&expression("\"\"(_s)l.?(_o)(on).?")), "0");
    assert_eq!(output_of(&expression("\"ab\"\"ab\"(_s)e.?(_o)(on).?")), "1");
    assert_eq!(output_of(&expression("\"ab\"\"ba\"(_s)e.?(_o)(on).?")), "0");
    assert_eq!(output_of(&expression("\"A\"(_s)(sn).?(_o)(on).?")), "65");
    assert_eq!(output_of(&expression("\"abc\"<1>\"X\"(_s)(si).?(_o)o.?")), "aXc");
    assert_eq!(output_of(&expression("\"abc\"<1>(_s)d.?(_o)o.?\"|\"(_o)o.?(_o)o.?")), "bc|a");
    assert_eq!(output_of(&expression("\"abc\"<3>(_s)d.?(_o)o.?\"|\"(_o)o.?(_o)o.?")), "|abc");
}

#[test]
fn special_numbers() {
    assert_eq!(output_of(&expression("<inf>(_o)(on).?")), "inf");
    assert_eq!(output_of(&expression("<-Infinity>(_o)(on).?")), "-inf");
    assert_eq!(output_of(&expression("<NaN>(_o)(on).?")), "NaN");
    assert_eq!(output_of(&expression("<1e3>(_o)(on).?")), "1000");
    assert_eq!(output_of(&expression("<.5>(_o)(on).?")), "0.5");
    assert_eq!(output_of(&expression("<5.>(_o)(on).?")), "5");
    assert_eq!(output_of(&expression("<+1.5E+2>(_o)(on).?")), "150");
}

#[test]
fn a_number_that_is_not_zero_counts_as_true() {
    assert_eq!(output_of(&expression("(_n)<nan>=/(_n)\"in\"(_o)o.?(_n)<-0.0>=\\")), "in");
    assert_eq!(output_of(&expression("(_n)<-0>=/(_n)\"in\"(_o)o.?\\\"out\"(_o)o.?")), "out");
}

#[test]
fn a_name_that_holds_an_object_counts_as_false() {
    assert_eq!(output_of(&expression("/(_o)\"in\"(_o)o.?\\\"out\"(_o)o.?")), "out");
}

#[test]
fn variables_made_at_run_time_are_seen_in_every_function() {
    assert_eq!(
        output_of("{M[moO!vV!vn.?0\"kept\"=0xM!xs.?*oo.?][soO!*oo.?]}"),
        "keptkept"
    );
}

#[test]
fn deleted_variable_holds_nothing() {
    let run = run_files(&[&expression("(_v)n.?0\"x\"=0(_v)d.?*")], "");
    assert_eq!(run.result, Err(Failure::Runtime(RuntimeError::UnsetName)));
}

#[test]
fn input_is_read_line_by_line_and_byte_by_byte() {
    let run = run_files(&[&expression("(_i)l.?(_o)o.?(_i)c.?(_o)o.?(_i)l.?(_o)o.?(_i)l.?(_s)l.?(_o)(on).?")], "one\ntwo\n");
    assert_eq!(run.result, Ok(()));
    assert_eq!(run.stdout, "one\ntwo\n0".as_bytes());
}
