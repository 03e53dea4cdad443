use stuck::error::{Error, ErrorKind};
use stuck::interpreter::{Action, Event, Interpreter, Request};
use stuck::object::{Boolean, Function, Number, Object};
use stuck::operation::{Operation, OperationType};

fn double(number: &Number) -> f64 {
    match number {
        Number::Numeral(text) => text.parse::<f64>().unwrap(),
        Number::Bits(bits) => f64::from_bits(*bits),
    }
}

fn number(value: f64) -> Number {
    Number::Bits(value.to_bits())
}

fn compute(op: OperationType, left: &Number, right: &Number) -> Event {
    let (left, right) = (double(left), double(right));
    match op {
        OperationType::Plus => Event::Number(number(left + right)),
        OperationType::Minus => Event::Number(number(left - right)),
        OperationType::Multiplication => Event::Number(number(left * right)),
        OperationType::Division => Event::Number(number(left / right)),
        OperationType::Modulus => Event::Number(number(left % right)),
        OperationType::Equal => Event::Truth(left == right),
        OperationType::Greater => Event::Truth(left > right),
        OperationType::Less => Event::Truth(left < right),
        _ => unreachable!(),
    }
}

fn drive(interpreter: &mut Interpreter, input: &[&str]) -> Result<String, Error> {
    let mut output = String::new();
    let mut lines = input.iter();
    let mut event = Event::Nothing;
    let mut steps = 0;
    loop {
        steps += 1;
        assert!(steps < 100_000);
        match interpreter.step(event)? {
            Action::Continue => event = Event::Nothing,
            Action::Halt => return Ok(output),
            Action::Print { text, newline } => {
                output.push_str(&text);
                if newline {
                    output.push('\n');
                }
                event = Event::Nothing;
            }
            Action::PrintNumber { number, newline } => {
                output.push_str(&format!("{}", double(&number)));
                if newline {
                    output.push('\n');
                }
                event = Event::Nothing;
            }
            Action::Ask(Request::Compute { op, left, right }) => {
                event = compute(op, &left, &right);
            }
            Action::Ask(Request::Line) => {
                event = Event::Line { text: lines.next().unwrap().to_string() };
            }
        }
    }
}

fn run(source: &str) -> Result<String, Error> {
    run_with(source, &[])
}

fn run_with(source: &str, input: &[&str]) -> Result<String, Error> {
    let mut interpreter = Interpreter::new();
    interpreter.run(source)?;
    drive(&mut interpreter, input)
}

fn failure(source: &str) -> Error {
    run(source).unwrap_err()
}

fn plain(kind: OperationType) -> Operation {
    Operation::new(kind, None, 1)
}

fn literal(value: f64) -> Operation {
    Operation::new(OperationType::Number, Some(Object::Number(number(value))), 1)
}

fn loaded(program: Vec<Operation>) -> Interpreter {
    let mut interpreter = Interpreter::new();
    interpreter.load(program);
    interpreter
}

fn steps(interpreter: &mut Interpreter, count: usize) {
    for _ in 0..count {
        assert_eq!(interpreter.step(Event::Nothing), Ok(Action::Continue));
    }
}

#[test]
fn sum_is_written() {
    assert_eq!(run("2 3 + writeln"), Ok("5\n".to_string()));
}

#[test]
fn empty_program_halts_with_empty_stack() {
    let mut interpreter = Interpreter::new();
    interpreter.run("").unwrap();
    assert_eq!(interpreter.step(Event::Nothing), Ok(Action::Halt));
    assert!(interpreter.stack().is_empty());
    assert_eq!(run(""), Ok(String::new()));
}

#[test]
fn bind_then_read() {
    let x = || Object::Identifier("x".to_string());
    let program = vec![
        Operation::new(OperationType::Number, Some(Object::Number(number(5.0))), 1),
        Operation::new(OperationType::Assignment, None, 1),
        Operation::new(OperationType::Identifier, Some(x()), 1),
        Operation::new(OperationType::Identifier, Some(x()), 2),
        Operation::new(OperationType::Identifier, Some(x()), 2),
        Operation::new(OperationType::Multiplication, None, 2),
        Operation::new(OperationType::Writeln, None, 2),
    ];
    let mut interpreter = Interpreter::new();
    interpreter.load(program);
    assert_eq!(drive(&mut interpreter, &[]), Ok("25\n".to_string()));
    assert_eq!(interpreter.variable("x"), Some(&Object::Number(number(5.0))));
}

#[test]
fn while_counts_to_four() {
    let source = "0 @ i\nwhile i 5 < do\n  i writeln\n  i 1 + @ i\nend\n";
    assert_eq!(run(source), Ok("0\n1\n2\n3\n4\n".to_string()));
}

#[test]
fn undefined_variable_is_named() {
    let error = run("1 writeln\ny").unwrap_err();
    assert_eq!(error.kind, ErrorKind::UndefinedVariable);
    assert_eq!(error.message, "variable 'y' does not exist");
    assert_eq!(error.line, 2);
}

#[test]
fn a_new_interpreter_is_empty() {
    let interpreter = Interpreter::new();
    assert!(interpreter.program().is_empty());
    assert!(interpreter.stack().is_empty());
    assert_eq!(interpreter.pointer(), 0);
    assert_eq!(interpreter.variable("x"), None);
}

#[test]
fn a_program_that_has_ended_stays_ended() {
    let mut interpreter = loaded(vec![plain(OperationType::True)]);
    steps(&mut interpreter, 1);
    assert_eq!(interpreter.step(Event::Nothing), Ok(Action::Halt));
    assert_eq!(interpreter.step(Event::Truth(true)), Ok(Action::Halt));
    assert_eq!(interpreter.stack(), &vec![Object::Boolean(Boolean::True)]);
    assert_eq!(interpreter.pointer(), 1);
}

#[test]
fn literals_are_pushed() {
    let mut interpreter = Interpreter::new();
    interpreter.run("1.5 \"text\" true false").unwrap();
    steps(&mut interpreter, 4);
    assert_eq!(
        interpreter.stack(),
        &vec![
            Object::Number(Number::Numeral("1.5".to_string())),
            Object::String("text".to_string()),
            Object::Boolean(Boolean::True),
            Object::Boolean(Boolean::False),
        ]
    );
    assert_eq!(interpreter.pointer(), 4);
}

#[test]
fn a_literal_without_operand_pushes_nothing() {
    let mut interpreter =
        loaded(vec![plain(OperationType::Number), plain(OperationType::String)]);
    steps(&mut interpreter, 2);
    assert!(interpreter.stack().is_empty());
    assert_eq!(interpreter.pointer(), 2);
}

#[test]
fn a_literal_with_the_wrong_operand_fails() {
    let mut interpreter = loaded(vec![Operation::new(
        OperationType::Number,
        Some(Object::String("1".to_string())),
        4,
    )]);
    assert_eq!(
        interpreter.step(Event::Nothing),
        Err(Error { kind: ErrorKind::InvalidType, message: "expected number".to_string(), line: 4 })
    );
    let mut interpreter =
        loaded(vec![Operation::new(OperationType::String, Some(Object::Reference(1)), 5)]);
    assert_eq!(
        interpreter.step(Event::Nothing),
        Err(Error { kind: ErrorKind::InvalidType, message: "expected string".to_string(), line: 5 })
    );
}

#[test]
fn arithmetic_asks_with_the_first_pushed_on_the_left() {
    for kind in [
        OperationType::Plus,
        OperationType::Minus,
        OperationType::Multiplication,
        OperationType::Division,
        OperationType::Modulus,
    ] {
        let mut interpreter = loaded(vec![literal(7.0), literal(2.0), plain(kind)]);
        steps(&mut interpreter, 2);
        let asked = Ok(Action::Ask(Request::Compute {
            op: kind,
            left: number(7.0),
            right: number(2.0),
        }));
        assert_eq!(interpreter.step(Event::Nothing), asked);
        assert_eq!(interpreter.step(Event::Truth(true)), asked);
        assert_eq!(interpreter.pointer(), 2);
        assert_eq!(interpreter.stack().len(), 2);
        assert_eq!(interpreter.step(Event::Number(number(99.0))), Ok(Action::Continue));
        assert_eq!(interpreter.stack(), &vec![Object::Number(number(99.0))]);
        assert_eq!(interpreter.pointer(), 3);
    }
}

#[test]
fn arithmetic_computes_first_pushed_op_second_pushed() {
    assert_eq!(run("2 3 + write"), Ok("5".to_string()));
    assert_eq!(run("7 2 - write"), Ok("5".to_string()));
    assert_eq!(run("2 7 - write"), Ok("-5".to_string()));
    assert_eq!(run("2 3 * write"), Ok("6".to_string()));
    assert_eq!(run("7 2 / write"), Ok("3.5".to_string()));
    assert_eq!(run("7 2 % write"), Ok("1".to_string()));
    assert_eq!(run("1 2 3 + + write"), Ok("6".to_string()));
    assert_eq!(run("1 3 / write"), Ok("0.3333333333333333".to_string()));
}

#[test]
fn division_by_zero_is_no_failure() {
    assert_eq!(run("1 0 / write"), Ok("inf".to_string()));
    assert_eq!(run("0 0 / write"), Ok("NaN".to_string()));
    assert_eq!(run("1 0 % write"), Ok("NaN".to_string()));
}

#[test]
fn numbers_are_written_in_their_shortest_form() {
    assert_eq!(run("2.50 writeln 7. writeln 0.1 0.2 + writeln"), Ok("2.5\n7\n0.30000000000000004\n".to_string()));
}

#[test]
fn comparisons_give_truth_values() {
    assert_eq!(run("1 2 < write"), Ok("true".to_string()));
    assert_eq!(run("2 1 < write"), Ok("false".to_string()));
    assert_eq!(run("1 2 > write"), Ok("false".to_string()));
    assert_eq!(run("2 1 > write"), Ok("true".to_string()));
    assert_eq!(run("2 2.0 = write"), Ok("true".to_string()));
    assert_eq!(run("2 3 = write"), Ok("false".to_string()));
}

#[test]
fn comparisons_ask_the_host() {
    let mut interpreter = loaded(vec![literal(1.0), literal(2.0), plain(OperationType::Less)]);
    steps(&mut interpreter, 2);
    assert_eq!(
        interpreter.step(Event::Number(number(0.0))),
        Ok(Action::Ask(Request::Compute {
            op: OperationType::Less,
            left: number(1.0),
            right: number(2.0)
        }))
    );
    assert_eq!(interpreter.step(Event::Truth(true)), Ok(Action::Continue));
    assert_eq!(interpreter.stack(), &vec![Object::Boolean(Boolean::True)]);
}

#[test]
fn equality_compares_any_two_values() {
    assert_eq!(run("\"a\" \"a\" = write"), Ok("true".to_string()));
    assert_eq!(run("\"a\" \"b\" = write"), Ok("false".to_string()));
    assert_eq!(run("true true = write"), Ok("true".to_string()));
    assert_eq!(run("true false = write"), Ok("false".to_string()));
    assert_eq!(run("1 \"1\" = write"), Ok("false".to_string()));
    assert_eq!(run("true 1 = write"), Ok("false".to_string()));
}

#[test]
fn boolean_algebra() {
    assert_eq!(run("true ! write"), Ok("false".to_string()));
    assert_eq!(run("false ! write"), Ok("true".to_string()));
    assert_eq!(run("true true & write"), Ok("true".to_string()));
    assert_eq!(run("true false & write"), Ok("false".to_string()));
    assert_eq!(run("false true & write"), Ok("false".to_string()));
    assert_eq!(run("false false & write"), Ok("false".to_string()));
    assert_eq!(run("true true | write"), Ok("true".to_string()));
    assert_eq!(run("true false | write"), Ok("true".to_string()));
    assert_eq!(run("false true | write"), Ok("true".to_string()));
    assert_eq!(run("false false | write"), Ok("false".to_string()));
}

#[test]
fn write_and_writeln() {
    assert_eq!(run("\"a\" write \"b\" writeln true write"), Ok("ab\ntrue".to_string()));
    let mut interpreter = Interpreter::new();
    interpreter.run("\"a\" writeln").unwrap();
    steps(&mut interpreter, 1);
    assert_eq!(
        interpreter.step(Event::Nothing),
        Ok(Action::Print { text: "a".to_string(), newline: true })
    );
    assert!(interpreter.stack().is_empty());
    let mut interpreter = Interpreter::new();
    interpreter.run("4 write").unwrap();
    steps(&mut interpreter, 1);
    assert_eq!(
        interpreter.step(Event::Nothing),
        Ok(Action::PrintNumber { number: Number::Numeral("4".to_string()), newline: false })
    );
}

#[test]
fn conditionals_take_one_branch() {
    assert_eq!(run("if true then 1 write else 2 write end 3 write"), Ok("13".to_string()));
    assert_eq!(run("if false then 1 write else 2 write end 3 write"), Ok("23".to_string()));
    assert_eq!(run("if true then 1 write end 3 write"), Ok("13".to_string()));
    assert_eq!(run("if false then 1 write end 3 write"), Ok("3".to_string()));
}

#[test]
fn blocks_nest_at_run_time() {
    let source = "0 @ i
while i 6 < do
    if i 2 % 0 = then i write else \"-\" write end
    i 1 + @ i
end
\"!\" write";
    assert_eq!(run(source), Ok("0-2-4-!".to_string()));
}

#[test]
fn a_loop_that_never_runs() {
    assert_eq!(run("while false do 1 write end 2 write"), Ok("2".to_string()));
}

#[test]
fn binding_overwrites() {
    let mut interpreter = Interpreter::new();
    interpreter.run("1 @ x \"two\" @ x x").unwrap();
    assert_eq!(drive(&mut interpreter, &[]), Ok(String::new()));
    assert_eq!(interpreter.variable("x"), Some(&Object::String("two".to_string())));
    assert_eq!(interpreter.stack(), &vec![Object::String("two".to_string())]);
}

#[test]
fn the_state_outlives_the_program() {
    let mut interpreter = Interpreter::new();
    interpreter.run("5 @ x 1").unwrap();
    assert_eq!(drive(&mut interpreter, &[]), Ok(String::new()));
    interpreter.run("x x * writeln writeln").unwrap();
    assert_eq!(interpreter.pointer(), 0);
    assert_eq!(drive(&mut interpreter, &[]), Ok("25\n1\n".to_string()));
}

#[test]
fn a_source_that_is_no_program_leaves_the_interpreter_alone() {
    let mut interpreter = Interpreter::new();
    interpreter.run("1 2").unwrap();
    steps(&mut interpreter, 1);
    let error = interpreter.run("3 $").unwrap_err();
    assert_eq!(error.kind, ErrorKind::InvalidToken);
    let error = interpreter.run("3 end").unwrap_err();
    assert_eq!(error.kind, ErrorKind::UnexpectedBlockClose);
    assert_eq!(interpreter.program().len(), 2);
    assert_eq!(interpreter.pointer(), 1);
    assert_eq!(interpreter.stack().len(), 1);
}

#[test]
fn read_pushes_numbers_and_strings() {
    assert_eq!(run_with("read read + write", &["  2 ", "3\n"]), Ok("5".to_string()));
    assert_eq!(run_with("read write", &["  hello world \t\n"]), Ok("hello world".to_string()));
    assert_eq!(run_with("read write", &["\n"]), Ok(String::new()));
    let mut interpreter = Interpreter::new();
    interpreter.run("read").unwrap();
    assert_eq!(interpreter.step(Event::Nothing), Ok(Action::Ask(Request::Line)));
    assert_eq!(interpreter.step(Event::Number(number(1.0))), Ok(Action::Ask(Request::Line)));
    assert!(interpreter.stack().is_empty());
    assert_eq!(
        interpreter.step(Event::Line { text: "\u{a0} x y\u{3000}\r\n".to_string() }),
        Ok(Action::Continue)
    );
    assert_eq!(interpreter.stack(), &vec![Object::String("x y".to_string())]);
    interpreter.run("read read read").unwrap();
    for line in [" -1.5e3\n", "1 2\n", "nan"] {
        assert_eq!(interpreter.step(Event::Line { text: line.to_string() }), Ok(Action::Continue));
    }
    assert_eq!(
        interpreter.stack()[1..],
        vec![
            Object::Number(Number::Numeral("-1.5e3".to_string())),
            Object::String("1 2".to_string()),
            Object::Number(Number::Numeral("nan".to_string())),
        ]
    );
}

#[test]
fn an_event_that_nothing_asked_for_is_passed_over() {
    let mut interpreter = loaded(vec![plain(OperationType::True)]);
    assert_eq!(interpreter.step(Event::Number(number(3.0))), Ok(Action::Continue));
    assert_eq!(interpreter.stack(), &vec![Object::Boolean(Boolean::True)]);
}

#[test]
fn functions_are_defined_called_and_left() {
    let f = || Object::Identifier("f".to_string());
    let program = vec![
        Operation::new(OperationType::Function, Some(Object::Reference(3)), 1),
        Operation::new(OperationType::String, Some(Object::String("hi".to_string())), 2),
        Operation::new(OperationType::Writeln, None, 2),
        Operation::new(OperationType::Function, None, 3),
        Operation::new(OperationType::Assignment, None, 3),
        Operation::new(OperationType::Identifier, Some(f()), 3),
        Operation::new(OperationType::Identifier, Some(f()), 4),
        Operation::new(OperationType::Identifier, Some(f()), 5),
    ];
    let mut interpreter = loaded(program);
    steps(&mut interpreter, 1);
    assert_eq!(interpreter.pointer(), 3);
    steps(&mut interpreter, 1);
    assert_eq!(interpreter.stack(), &vec![Object::Function(Function::new(0))]);
    steps(&mut interpreter, 2);
    assert_eq!(interpreter.variable("f"), Some(&Object::Function(Function::new(0))));
    assert!(interpreter.stack().is_empty());
    steps(&mut interpreter, 1);
    assert_eq!(interpreter.pointer(), 1);
    assert_eq!(
        interpreter.stack(),
        &vec![Object::Function(Function::assign_called_from(0, 7))]
    );
    assert_eq!(drive(&mut interpreter, &[]), Ok("hi\nhi\n".to_string()));
    assert!(interpreter.stack().is_empty());
    assert_eq!(interpreter.pointer(), 8);
}

#[test]
fn a_function_marker_needs_a_jump_target_or_a_function() {
    let mut interpreter =
        loaded(vec![Operation::new(OperationType::Function, Some(Object::Boolean(Boolean::True)), 2)]);
    assert_eq!(
        interpreter.step(Event::Nothing),
        Err(Error {
            kind: ErrorKind::InvalidReference,
            message: "invalid reference for 'function' (expected integer)".to_string(),
            line: 2
        })
    );
    let mut interpreter = loaded(vec![literal(1.0), Operation::new(OperationType::Function, None, 3)]);
    steps(&mut interpreter, 1);
    assert_eq!(
        interpreter.step(Event::Nothing),
        Err(Error {
            kind: ErrorKind::InvalidReference,
            message: "could not figure out where the is being called from".to_string(),
            line: 3
        })
    );
    let mut interpreter = loaded(vec![Operation::new(OperationType::Function, None, 3)]);
    let error = interpreter.step(Event::Nothing).unwrap_err();
    assert_eq!(error.kind, ErrorKind::StackUnderflow);
    assert_eq!(error.line, 3);
}

#[test]
fn an_identifier_without_a_name_is_passed_over() {
    let mut interpreter = loaded(vec![
        plain(OperationType::Identifier),
        Operation::new(OperationType::Identifier, Some(Object::Reference(1)), 1),
    ]);
    steps(&mut interpreter, 2);
    assert_eq!(interpreter.step(Event::Nothing), Ok(Action::Halt));
    assert!(interpreter.stack().is_empty());
}

#[test]
fn too_few_operands() {
    let cases = [
        ("+", "'+' operation requires two operand"),
        ("1 -", "'-' operation requires two operand"),
        ("*", "'*' operation requires two operand"),
        ("1 /", "'/' operation requires two operand"),
        ("1 %", "'/' operation requires two operand"),
        ("1 =", "'=' operation requires two operand"),
        ("1 >", "'>' operation requires two operand"),
        ("1 <", "'>' operation requires two operand"),
        ("!", "'!' operator requires one operand"),
        ("true &", "'&' operation requires two operand"),
        ("true |", "'|' operation requires two operand"),
        ("@ x", "can not declare variable without a value"),
        ("if then 1 end", "'then' operation requires one operand"),
        ("while do 1 end", "'do' operation requires one operand"),
        ("write", "'write' operation requires one operand"),
        ("writeln", "'writeln' operation requires one operand"),
    ];
    for (source, message) in cases {
        let error = failure(&format!("\n{}", source));
        assert_eq!(error.kind, ErrorKind::StackUnderflow, "{}", source);
        assert_eq!(error.message, message);
        assert_eq!(error.line, 2);
    }
}

#[test]
fn operands_of_the_wrong_kind() {
    let cases = [
        ("1 true +", "'+' is only usable with number"),
        ("true 1 -", "'-' is only usable with number"),
        ("\"a\" 1 *", "'*' is only usable with number"),
        ("1 \"a\" /", "'/' is only usable with number"),
        ("true true %", "'/' is only usable with number"),
        ("1 true >", "'>' is only usable with number"),
        ("\"a\" \"b\" <", "'<' is only usable with number"),
        ("1 !", "'!' is only usable with boolean"),
        ("1 true &", "'&' is only usable with boolean"),
        ("true \"a\" |", "'|' is only usable with boolean"),
        ("if 1 then 2 end", "'then' doesn't have a reference associated with it"),
        ("while 1 do 2 end", "'then' doesn't have a reference associated with it"),
    ];
    for (source, message) in cases {
        let error = failure(&format!("\n\n{}", source));
        assert_eq!(error.kind, ErrorKind::InvalidType, "{}", source);
        assert_eq!(error.message, message);
        assert_eq!(error.line, 3);
    }
}

#[test]
fn only_numbers_strings_and_booleans_are_written() {
    for (kind, message) in [
        (OperationType::Write, "'write' can use with only number, string and boolean"),
        (OperationType::Writeln, "'writeln' can use with only number, string and boolean"),
    ] {
        let mut interpreter = loaded(vec![
            Operation::new(OperationType::Function, Some(Object::Reference(1)), 1),
            Operation::new(OperationType::Function, None, 1),
            Operation::new(kind, None, 6),
        ]);
        steps(&mut interpreter, 2);
        assert_eq!(
            interpreter.step(Event::Nothing),
            Err(Error { kind: ErrorKind::InvalidType, message: message.to_string(), line: 6 })
        );
    }
}

#[test]
fn markers_without_jump_targets() {
    let error = failure("true then 1");
    assert_eq!(error.kind, ErrorKind::InvalidReference);
    assert_eq!(error.message, "'then' does not have reference to it's 'end' or 'else' block");
    let error = failure("while true do 1");
    assert_eq!(error.kind, ErrorKind::InvalidReference);
    assert_eq!(error.message, "'do' does not have reference to it's 'end' block");
    let mut interpreter = loaded(vec![Operation::new(OperationType::Else, None, 9)]);
    assert_eq!(
        interpreter.step(Event::Nothing),
        Err(Error {
            kind: ErrorKind::InvalidReference,
            message: "'else' does not have reference to it's 'end' block".to_string(),
            line: 9
        })
    );
}

#[test]
fn markers_with_operands_that_are_no_jump_targets() {
    let wrong = || Some(Object::String("end".to_string()));
    for (kind, message) in [
        (OperationType::Then, "invalid reference for 'then' (expected integer)"),
        (OperationType::Do, "invalid reference for 'do' (expected integer)"),
    ] {
        let mut interpreter =
            loaded(vec![plain(OperationType::True), Operation::new(kind, wrong(), 1)]);
        steps(&mut interpreter, 1);
        let error = interpreter.step(Event::Nothing).unwrap_err();
        assert_eq!(error.kind, ErrorKind::InvalidReference);
        assert_eq!(error.message, message);
    }
    let mut interpreter = loaded(vec![Operation::new(OperationType::Else, wrong(), 1)]);
    let error = interpreter.step(Event::Nothing).unwrap_err();
    assert_eq!(error.kind, ErrorKind::InvalidReference);
    assert_eq!(error.message, "invalid reference for 'else' (expected integer)");
    let mut interpreter = loaded(vec![Operation::new(OperationType::End, wrong(), 1)]);
    let error = interpreter.step(Event::Nothing).unwrap_err();
    assert_eq!(error.kind, ErrorKind::InvalidType);
    assert_eq!(error.message, "can not use the operand with 'end' (expected integer)");
}

#[test]
fn an_end_without_jump_target_is_passed_over() {
    let mut interpreter = loaded(vec![plain(OperationType::End), plain(OperationType::True)]);
    steps(&mut interpreter, 2);
    assert_eq!(interpreter.stack().len(), 1);
}

#[test]
fn a_step_that_fails_changes_nothing() {
    let mut interpreter = Interpreter::new();
    interpreter.run("1 true +").unwrap();
    steps(&mut interpreter, 2);
    let before = interpreter.stack().clone();
    assert!(interpreter.step(Event::Nothing).is_err());
    assert_eq!(interpreter.stack(), &before);
    assert_eq!(interpreter.pointer(), 2);
    assert!(interpreter.step(Event::Number(number(1.0))).is_err());
}

#[test]
fn execution_stops_at_the_first_failure() {
    let mut interpreter = Interpreter::new();
    interpreter.run("1 writeln\n+\n2 writeln").unwrap();
    let mut event = Event::Nothing;
    let mut written = 0;
    let error = loop {
        match interpreter.step(event) {
            Ok(Action::PrintNumber { .. }) => written += 1,
            Ok(Action::Halt) => unreachable!(),
            Ok(_) => {}
            Err(error) => break error,
        }
        event = Event::Nothing;
    };
    assert_eq!(written, 1);
    assert_eq!(error.kind, ErrorKind::StackUnderflow);
    assert_eq!(error.line, 2);
}
