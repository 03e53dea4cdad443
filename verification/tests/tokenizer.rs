use stuck::error::{Error, ErrorKind};
use stuck::object::{Number, Object};
use stuck::operation::{Operation, OperationType};
use stuck::tokenizer::Tokenizer;

fn scan(source: &str) -> Result<Vec<Operation>, Error> {
    Tokenizer::new(source).scan()
}

fn kinds(source: &str) -> Vec<OperationType> {
    scan(source).unwrap().iter().map(|operation| operation.op_type).collect()
}

fn plain(kind: OperationType, line: usize) -> Operation {
    Operation::new(kind, None, line)
}

fn numeral(text: &str, line: usize) -> Operation {
    Operation::new(
        OperationType::Number,
        Some(Object::Number(Number::Numeral(text.to_string()))),
        line,
    )
}

fn name(text: &str, line: usize) -> Operation {
    Operation::new(OperationType::Identifier, Some(Object::Identifier(text.to_string())), line)
}

fn string(text: &str, line: usize) -> Operation {
    Operation::new(OperationType::String, Some(Object::String(text.to_string())), line)
}

#[test]
fn empty_source_has_no_operations() {
    assert_eq!(scan(""), Ok(vec![]));
    assert_eq!(scan(" \t\r\n\n  "), Ok(vec![]));
}

#[test]
fn operators_are_single_characters() {
    assert_eq!(
        kinds("+ - * / % = > < ! & | @"),
        vec![
            OperationType::Plus,
            OperationType::Minus,
            OperationType::Multiplication,
            OperationType::Division,
            OperationType::Modulus,
            OperationType::Equal,
            OperationType::Greater,
            OperationType::Less,
            OperationType::Not,
            OperationType::And,
            OperationType::Or,
            OperationType::Assignment,
        ]
    );
}

#[test]
fn operators_need_no_space_between_them() {
    assert_eq!(
        scan("1+2"),
        Ok(vec![numeral("1", 1), plain(OperationType::Plus, 1), numeral("2", 1)])
    );
}

#[test]
fn keywords_are_recognised() {
    assert_eq!(
        kinds("true false read write writeln if then else while do end"),
        vec![
            OperationType::True,
            OperationType::False,
            OperationType::Read,
            OperationType::Write,
            OperationType::Writeln,
            OperationType::If,
            OperationType::Then,
            OperationType::Else,
            OperationType::While,
            OperationType::Do,
            OperationType::End,
        ]
    );
}

#[test]
fn keywords_carry_no_operand() {
    assert_eq!(scan("writeln"), Ok(vec![plain(OperationType::Writeln, 1)]));
}

#[test]
fn a_word_that_only_begins_like_a_keyword_is_a_name() {
    assert_eq!(scan("endless iff"), Ok(vec![name("endless", 1), name("iff", 1)]));
}

#[test]
fn names_hold_letters_digits_and_underscores() {
    assert_eq!(
        scan("counter_2 x _tmp"),
        Ok(vec![name("counter_2", 1), name("x", 1), name("_tmp", 1)])
    );
}

#[test]
fn names_may_hold_letters_of_any_script() {
    assert_eq!(scan("größe"), Ok(vec![name("größe", 1)]));
}

#[test]
fn a_numeral_ends_where_a_letter_begins() {
    assert_eq!(scan("12abc"), Ok(vec![numeral("12", 1), name("abc", 1)]));
}

#[test]
fn numerals_keep_their_text() {
    assert_eq!(
        scan("0 42 3.14 7."),
        Ok(vec![numeral("0", 1), numeral("42", 1), numeral("3.14", 1), numeral("7.", 1)])
    );
}

#[test]
fn a_numeral_with_two_points_is_no_number() {
    let error = scan("1 2\n1.2.3").unwrap_err();
    assert_eq!(error.kind, ErrorKind::InvalidNumber);
    assert_eq!(error.message, "Can't convert `1.2.3` to a number");
    assert_eq!(error.line, 2);
}

#[test]
fn strings_run_to_the_next_quote() {
    assert_eq!(
        scan("\"hello world\" \"\""),
        Ok(vec![string("hello world", 1), string("", 1)])
    );
}

#[test]
fn strings_know_two_escapes() {
    assert_eq!(scan(r#""a\nb\tc""#), Ok(vec![string("a\nb\tc", 1)]));
    assert_eq!(scan(r#""a\qb\""#), Ok(vec![string("a\\qb\\", 1)]));
    assert_eq!(scan(r#""\\n""#), Ok(vec![string("\\\n", 1)]));
}

#[test]
fn a_string_that_the_text_does_not_close_fails() {
    let error = scan("1\n\n\"abc").unwrap_err();
    assert_eq!(
        error,
        Error {
            kind: ErrorKind::UnterminatedString,
            message: "untermated string".to_string(),
            line: 3
        }
    );
}

#[test]
fn a_string_that_its_line_does_not_close_fails() {
    let error = scan("\"abc\ndef\"").unwrap_err();
    assert_eq!(error.kind, ErrorKind::UnterminatedString);
    assert_eq!(error.line, 1);
}

#[test]
fn comments_run_to_the_end_of_the_line() {
    assert_eq!(
        scan("1 # one + two\n2 # the end"),
        Ok(vec![numeral("1", 1), numeral("2", 2)])
    );
    assert_eq!(scan("# nothing here"), Ok(vec![]));
}

#[test]
fn lines_are_counted_from_one() {
    assert_eq!(
        scan("a\nb\n\n# c\nd"),
        Ok(vec![name("a", 1), name("b", 2), name("d", 5)])
    );
}

#[test]
fn the_last_token_needs_no_line_end() {
    assert_eq!(
        scan("2 3 + writeln"),
        Ok(vec![
            numeral("2", 1),
            numeral("3", 1),
            plain(OperationType::Plus, 1),
            plain(OperationType::Writeln, 1),
        ])
    );
}

#[test]
fn a_character_that_begins_no_token_fails() {
    let error = scan("$").unwrap_err();
    assert_eq!(
        error,
        Error { kind: ErrorKind::InvalidToken, message: "invalid token `$`".to_string(), line: 1 }
    );
}

#[test]
fn an_invalid_character_is_charged_to_its_line() {
    let error = scan("\n \t\n\r\n  ?").unwrap_err();
    assert_eq!(error.kind, ErrorKind::InvalidToken);
    assert_eq!(error.message, "invalid token `?`");
    assert_eq!(error.line, 4);
}

#[test]
fn an_invalid_character_behind_tokens_fails() {
    let error = scan("1 2 +\nx ~ y").unwrap_err();
    assert_eq!(error.kind, ErrorKind::InvalidToken);
    assert_eq!(error.message, "invalid token `~`");
    assert_eq!(error.line, 2);
}

#[test]
fn brackets_are_no_tokens() {
    for source in ["[", "]", "(", ")", "{", "}", ",", ";", ":", "'", "^", "\\", "."] {
        let error = scan(source).unwrap_err();
        assert_eq!(error.kind, ErrorKind::InvalidToken);
        assert_eq!(error.message, format!("invalid token `{}`", source));
    }
}

#[test]
fn scanning_twice_gives_the_same() {
    let mut tokenizer = Tokenizer::new("1 if 2 then 3 end");
    let first = tokenizer.scan_tokens();
    let second = tokenizer.scan_tokens();
    assert!(first.is_ok());
    assert_eq!(first, second);
}

#[test]
fn scan_tokens_resolves_blocks() {
    let program = Tokenizer::new("if true then 1 end").scan_tokens().unwrap();
    assert_eq!(program[2].op_type, OperationType::Then);
    assert_eq!(program[2].operand, Some(Object::Reference(5)));
}

#[test]
fn scan_tokens_reports_the_scan_failure_first() {
    let error = Tokenizer::new("end $").scan_tokens().unwrap_err();
    assert_eq!(error.kind, ErrorKind::InvalidToken);
    let error = Tokenizer::new("1\nend").scan_tokens().unwrap_err();
    assert_eq!(error.kind, ErrorKind::UnexpectedBlockClose);
    assert_eq!(error.line, 2);
}

#[test]
fn escapes_are_replaced_from_left_to_right() {
    let alphabet = ['\\', 'n', 't', 'a'];
    let mut texts = vec![String::new()];
    let mut from = 0;
    for _ in 0..6 {
        let to = texts.len();
        for index in from..to {
            for c in alphabet {
                let mut text = texts[index].clone();
                text.push(c);
                texts.push(text);
            }
        }
        from = to;
    }
    for text in &texts {
        let expected = text.replace("\\n", "\n").replace("\\t", "\t");
        assert_eq!(scan(&format!("\"{}\"", text)), Ok(vec![string(&expected, 1)]), "{:?}", text);
    }
}
