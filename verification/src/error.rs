use vstd::prelude::*;

verus! {

/// The ways in which reading or running a program fails.
#[derive(Debug, Clone, Copy, PartialEq, Eq, Structural)]
pub enum ErrorKind {
    /// An operation needs more values than the stack holds.
    StackUnderflow,
    /// A value is not of the kind that the operation works on.
    InvalidType,
    /// A marker has no jump target, or its operand is not one.
    InvalidReference,
    /// A name is read before anything was bound to it.
    UndefinedVariable,
    /// A variable holds a value that cannot be put on the stack.
    InvalidVariableType,
    /// A string literal is not closed on its line.
    UnterminatedString,
    /// A numeral that is not a number.
    InvalidNumber,
    /// A character that begins no token.
    InvalidToken,
    /// A block is closed by a marker that does not fit the one that opened it.
    PendingBlock,
    /// A block is closed where none is open.
    UnexpectedBlockClose,
}

impl ErrorKind {
    /// The name of the kind, as it is written at the head of a report.
    pub open spec fn name(self) -> Seq<char> {
        match self {
            ErrorKind::StackUnderflow => "StackUnderflow"@,
            ErrorKind::InvalidType => "InvalidType"@,
            ErrorKind::InvalidReference => "InvalidReference"@,
            ErrorKind::UndefinedVariable => "UndefinedVariable"@,
            ErrorKind::InvalidVariableType => "InvalidVariableType"@,
            ErrorKind::UnterminatedString => "UnterminatedString"@,
            ErrorKind::InvalidNumber => "InvalidNumber"@,
            ErrorKind::InvalidToken => "InvalidToken"@,
            ErrorKind::PendingBlock => "PendingBlock"@,
            ErrorKind::UnexpectedBlockClose => "UnexpectedBlockClose"@,
        }
    }

    /// The name of the kind as a string.
    pub fn to_name(&self) -> (name: String)
        ensures
            name@ == self.name(),
    {
        match self {
            ErrorKind::StackUnderflow => String::from_str("StackUnderflow"),
            ErrorKind::InvalidType => String::from_str("InvalidType"),
            ErrorKind::InvalidReference => String::from_str("InvalidReference"),
            ErrorKind::UndefinedVariable => String::from_str("UndefinedVariable"),
            ErrorKind::InvalidVariableType => String::from_str("InvalidVariableType"),
            ErrorKind::UnterminatedString => String::from_str("UnterminatedString"),
            ErrorKind::InvalidNumber => String::from_str("InvalidNumber"),
            ErrorKind::InvalidToken => String::from_str("InvalidToken"),
            ErrorKind::PendingBlock => String::from_str("PendingBlock"),
            ErrorKind::UnexpectedBlockClose => String::from_str("UnexpectedBlockClose"),
        }
    }
}

/// A failure: its kind, what went wrong, and the line of the source text
/// that it is charged to (lines are counted from one).
#[derive(Debug, PartialEq)]
pub struct Error {
    pub kind: ErrorKind,
    pub message: String,
    pub line: usize,
}

/// The mathematical model of an [`Error`].
pub ghost struct ErrorView {
    pub kind: ErrorKind,
    pub message: Seq<char>,
    pub line: usize,
}

impl View for Error {
    type V = ErrorView;

    open spec fn view(&self) -> ErrorView {
        ErrorView { kind: self.kind, message: self.message@, line: self.line }
    }
}

/// The decimal digit for a number under ten.
pub open spec fn digit(n: nat) -> char {
    if n == 0 {
        '0'
    } else if n == 1 {
        '1'
    } else if n == 2 {
        '2'
    } else if n == 3 {
        '3'
    } else if n == 4 {
        '4'
    } else if n == 5 {
        '5'
    } else if n == 6 {
        '6'
    } else if n == 7 {
        '7'
    } else if n == 8 {
        '8'
    } else {
        '9'
    }
}

/// A number in decimal digits, without leading zeros.
pub open spec fn decimal(n: nat) -> Seq<char>
    decreases n,
{
    if n < 10 {
        seq![digit(n)]
    } else {
        decimal(n / 10).push(digit(n % 10))
    }
}

impl ErrorView {
    /// The one line in which a failure is reported: its kind, a colon, what
    /// went wrong, and the line that it is charged to.
    pub open spec fn report(self) -> Seq<char> {
        self.kind.name() + ": "@ + self.message + " in line "@ + decimal(self.line as nat) + "."@
    }
}

/// Appends a number in decimal digits.
fn push_decimal(text: &mut String, n: usize)
    ensures
        final(text)@ == old(text)@ + decimal(n as nat),
    decreases n,
{
    if n >= 10 {
        push_decimal(text, n / 10);
    }
    let last = match n % 10 {
        0 => '0',
        1 => '1',
        2 => '2',
        3 => '3',
        4 => '4',
        5 => '5',
        6 => '6',
        7 => '7',
        8 => '8',
        _ => '9',
    };
    text.push(last);
    assert(text@ =~= old(text)@ + decimal(n as nat));
}

impl Error {
    /// A failure of the given kind, message and line.
    pub fn new(kind: ErrorKind, message: &str, line: usize) -> (error: Self)
        ensures
            error@ == (ErrorView { kind, message: message@, line }),
    {
        Error { kind, message: String::from_str(message), line }
    }

    /// The one line in which the failure is reported, as in
    /// `StackUnderflow: '+' operation requires two operand in line 3.`
    pub fn report(&self) -> (text: String)
        ensures
            text@ == self@.report(),
    {
        let mut text = self.kind.to_name();
        text.append(": ");
        text.append(self.message.as_str());
        text.append(" in line ");
        push_decimal(&mut text, self.line);
        text.append(".");
        text
    }
}

} // verus!
