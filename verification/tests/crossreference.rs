use stuck::crossreference::crossreference_operations;
use stuck::error::{Error, ErrorKind};
use stuck::object::{Number, Object};
use stuck::operation::{Operation, OperationType};
use stuck::tokenizer::Tokenizer;

fn resolve(source: &str) -> Result<Vec<Operation>, Error> {
    let operations = Tokenizer::new(source).scan().unwrap();
    crossreference_operations(&operations)
}

fn targets(source: &str) -> Vec<Option<usize>> {
    resolve(source)
        .unwrap()
        .iter()
        .map(|operation| match operation.operand {
            Some(Object::Reference(index)) => Some(index),
            _ => None,
        })
        .collect()
}

fn failure(kind: ErrorKind, message: &str, line: usize) -> Error {
    Error { kind, message: message.to_string(), line }
}

#[test]
fn a_program_without_blocks_is_unchanged() {
    let operations = Tokenizer::new("1 2 + \"text\" x @ y writeln true !").scan().unwrap();
    assert_eq!(crossreference_operations(&operations), Ok(operations.clone()));
    assert_eq!(crossreference_operations(&vec![]), Ok(vec![]));
}

#[test]
fn the_operations_are_not_consumed() {
    let operations = Tokenizer::new("if true then 1 end").scan().unwrap();
    let before = operations.clone();
    let _ = crossreference_operations(&operations);
    assert_eq!(operations, before);
}

#[test]
fn then_jumps_behind_end() {
    //        0  1    2    3 4
    assert_eq!(targets("if true then 1 end"), vec![None, None, Some(5), None, None]);
}

#[test]
fn then_jumps_behind_else_and_else_behind_end() {
    //        0  1    2    3 4    5 6
    assert_eq!(
        targets("if true then 1 else 2 end"),
        vec![None, None, Some(5), None, Some(7), None, None]
    );
}

#[test]
fn do_jumps_behind_end_and_end_back_to_while() {
    //        0 1     2    3  4 5
    assert_eq!(
        targets("1 while true do 2 end 3"),
        vec![None, None, None, Some(6), None, Some(1), None]
    );
}

#[test]
fn blocks_nest() {
    //   0     1 2  3  4 5    6 7    8 9   10 11
    let source = "while a do if b then 1 else 2 end end c";
    assert_eq!(
        targets(source),
        vec![
            None,
            None,
            Some(11),
            None,
            None,
            Some(8),
            None,
            Some(10),
            None,
            None,
            Some(0),
            None,
        ]
    );
}

#[test]
fn blocks_nest_in_conditions_and_branches() {
    //   0  1  2 3    4 5   6    7     8 9  10 11  12
    let source = "if if a then b end then while c do d end end";
    assert_eq!(
        targets(source),
        vec![
            None,
            None,
            None,
            Some(6),
            None,
            None,
            Some(13),
            None,
            None,
            Some(12),
            None,
            Some(7),
            None,
        ]
    );
}

#[test]
fn blocks_follow_each_other() {
    //   0  1 2    3 4   5  6 7    8 9
    let source = "if a then b end if c then d end";
    assert_eq!(
        targets(source),
        vec![None, None, Some(5), None, None, None, None, Some(10), None, None]
    );
}

#[test]
fn kinds_lines_and_other_operands_stay() {
    let operations = Tokenizer::new("if x\nthen 1.5\nelse \"s\"\nend").scan().unwrap();
    let resolved = crossreference_operations(&operations).unwrap();
    assert_eq!(resolved.len(), operations.len());
    for (before, after) in operations.iter().zip(resolved.iter()) {
        assert_eq!(before.op_type, after.op_type);
        assert_eq!(before.line, after.line);
    }
    assert_eq!(resolved[1].operand, Some(Object::Identifier("x".to_string())));
    assert_eq!(resolved[3].operand, Some(Object::Number(Number::Numeral("1.5".to_string()))));
    assert_eq!(resolved[5].operand, Some(Object::String("s".to_string())));
}

#[test]
fn a_then_without_if_is_closed_all_the_same() {
    //        0    1    2 3
    assert_eq!(targets("true then 1 end"), vec![None, Some(4), None, None]);
}

#[test]
fn an_open_block_at_the_end_is_no_failure() {
    assert_eq!(targets("if true then 1"), vec![None, None, None, None]);
    assert_eq!(targets("while true do"), vec![None, None, None]);
}

#[test]
fn else_without_open_block_fails() {
    assert_eq!(
        resolve("1\nelse"),
        Err(failure(ErrorKind::UnexpectedBlockClose, "invalid `else`", 2))
    );
}

#[test]
fn end_without_open_block_fails() {
    assert_eq!(
        resolve("1 2\n\nend"),
        Err(failure(ErrorKind::UnexpectedBlockClose, "unexpexted `end`", 3))
    );
    assert_eq!(
        resolve("if a then b end end"),
        Err(failure(ErrorKind::UnexpectedBlockClose, "unexpexted `end`", 1))
    );
}

#[test]
fn else_closes_only_then() {
    assert_eq!(
        resolve("while true else"),
        Err(failure(ErrorKind::PendingBlock, "can't end `else` with `While`", 1))
    );
    assert_eq!(
        resolve("if else"),
        Err(failure(ErrorKind::PendingBlock, "can't end `else` with `If`", 1))
    );
    assert_eq!(
        resolve("if a then b else c else d end"),
        Err(failure(ErrorKind::PendingBlock, "can't end `else` with `Else`", 1))
    );
}

#[test]
fn end_closes_only_then_else_and_do() {
    assert_eq!(
        resolve("if\nend"),
        Err(failure(ErrorKind::PendingBlock, "can't end `end` with `If`", 2))
    );
    assert_eq!(
        resolve("while end"),
        Err(failure(ErrorKind::PendingBlock, "can't end `end` with `While`", 1))
    );
}

#[test]
fn do_needs_its_while() {
    assert_eq!(
        resolve("true do 1 end"),
        Err(failure(ErrorKind::UnexpectedBlockClose, "unexpected `do`", 1))
    );
    assert_eq!(
        resolve("if true do 1 end"),
        Err(failure(ErrorKind::PendingBlock, "can't end `end` with `If`", 1))
    );
}

#[test]
fn the_first_failure_is_reported() {
    assert_eq!(
        resolve("end\nelse"),
        Err(failure(ErrorKind::UnexpectedBlockClose, "unexpexted `end`", 1))
    );
}

#[test]
fn hand_built_operations_are_resolved_too() {
    let operations = vec![
        Operation::new(OperationType::While, None, 7),
        Operation::new(OperationType::Do, Some(Object::Boolean(stuck::object::Boolean::True)), 7),
        Operation::new(OperationType::End, None, 8),
    ];
    let resolved = crossreference_operations(&operations).unwrap();
    assert_eq!(
        resolved,
        vec![
            Operation::new(OperationType::While, None, 7),
            Operation::new(OperationType::Do, Some(Object::Reference(3)), 7),
            Operation::new(OperationType::End, Some(Object::Reference(0)), 8),
        ]
    );
}
