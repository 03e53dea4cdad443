use stuck::error::{Error, ErrorKind};

fn report(kind: ErrorKind, message: &str, line: usize) -> String {
    Error::new(kind, message, line).report()
}

#[test]
fn a_failure_is_reported_in_one_line() {
    assert_eq!(
        report(ErrorKind::StackUnderflow, "'+' operation requires two operand", 3),
        "StackUnderflow: '+' operation requires two operand in line 3."
    );
    assert_eq!(
        report(ErrorKind::UndefinedVariable, "variable 'y' does not exist", 12),
        "UndefinedVariable: variable 'y' does not exist in line 12."
    );
}

#[test]
fn lines_are_written_in_decimal() {
    assert_eq!(report(ErrorKind::InvalidType, "m", 0), "InvalidType: m in line 0.");
    assert_eq!(report(ErrorKind::InvalidType, "m", 9), "InvalidType: m in line 9.");
    assert_eq!(report(ErrorKind::InvalidType, "m", 10), "InvalidType: m in line 10.");
    assert_eq!(report(ErrorKind::InvalidType, "m", 1234567890), "InvalidType: m in line 1234567890.");
    assert_eq!(
        report(ErrorKind::InvalidType, "m", usize::MAX),
        format!("InvalidType: m in line {}.", usize::MAX)
    );
}

#[test]
fn every_kind_has_its_name() {
    let kinds = [
        (ErrorKind::StackUnderflow, "StackUnderflow"),
        (ErrorKind::InvalidType, "InvalidType"),
        (ErrorKind::InvalidReference, "InvalidReference"),
        (ErrorKind::UndefinedVariable, "UndefinedVariable"),
        (ErrorKind::InvalidVariableType, "InvalidVariableType"),
        (ErrorKind::UnterminatedString, "UnterminatedString"),
        (ErrorKind::InvalidNumber, "InvalidNumber"),
        (ErrorKind::InvalidToken, "InvalidToken"),
        (ErrorKind::PendingBlock, "PendingBlock"),
        (ErrorKind::UnexpectedBlockClose, "UnexpectedBlockClose"),
    ];
    for (kind, name) in kinds {
        assert_eq!(kind.to_name(), name);
        assert_eq!(report(kind, "", 1), format!("{}:  in line 1.", name));
    }
}

#[test]
fn an_error_holds_what_it_was_made_with() {
    let error = Error::new(ErrorKind::PendingBlock, "message", 7);
    assert_eq!(error.kind, ErrorKind::PendingBlock);
    assert_eq!(error.message, "message");
    assert_eq!(error.line, 7);
}
