use vstd::prelude::*;
use crate::crossreference::{crossreference, crossreference_operations, program_result_view};
use crate::error::{Error, ErrorKind, ErrorView};
use crate::machine::is_legible;
use crate::nesting::lemma_fills_targets_only;
use crate::object::{Number, NumberView, Object, ObjectView};
use crate::operation::{program_view, Operation, OperationType, OperationView};
use crate::text::{
    alphanumeric, characters, digit_run, is_alphanumeric, is_digit, reads_as_number,
};

verus! {

/// Space, tab and carriage return: what may stand between tokens on a line.
pub open spec fn is_blank(c: char) -> bool {
    c == ' ' || c == '\t' || c == '\r'
}

/// What a numeral is made of: digits and points.
pub open spec fn is_numeral_char(c: char) -> bool {
    is_digit(c) || c == '.'
}

/// What a name is made of: letters, digits and the underscore.
pub open spec fn is_identifier_char(c: char) -> bool {
    alphanumeric(c) || c == '_'
}

/// The operation that a one-character operator stands for.
pub open spec fn operator_kind(c: char) -> Option<OperationType> {
    if c == '+' {
        Some(OperationType::Plus)
    } else if c == '-' {
        Some(OperationType::Minus)
    } else if c == '*' {
        Some(OperationType::Multiplication)
    } else if c == '/' {
        Some(OperationType::Division)
    } else if c == '%' {
        Some(OperationType::Modulus)
    } else if c == '=' {
        Some(OperationType::Equal)
    } else if c == '>' {
        Some(OperationType::Greater)
    } else if c == '<' {
        Some(OperationType::Less)
    } else if c == '!' {
        Some(OperationType::Not)
    } else if c == '&' {
        Some(OperationType::And)
    } else if c == '|' {
        Some(OperationType::Or)
    } else if c == '@' {
        Some(OperationType::Assignment)
    } else {
        None
    }
}

/// The operation that a keyword stands for.
pub open spec fn keyword_kind(word: Seq<char>) -> Option<OperationType> {
    if word == "true"@ {
        Some(OperationType::True)
    } else if word == "false"@ {
        Some(OperationType::False)
    } else if word == "read"@ {
        Some(OperationType::Read)
    } else if word == "write"@ {
        Some(OperationType::Write)
    } else if word == "writeln"@ {
        Some(OperationType::Writeln)
    } else if word == "if"@ {
        Some(OperationType::If)
    } else if word == "then"@ {
        Some(OperationType::Then)
    } else if word == "else"@ {
        Some(OperationType::Else)
    } else if word == "while"@ {
        Some(OperationType::While)
    } else if word == "do"@ {
        Some(OperationType::Do)
    } else if word == "end"@ {
        Some(OperationType::End)
    } else {
        None
    }
}

/// Whether a character begins no token and may not stand between tokens.
pub open spec fn begins_nothing(c: char) -> bool {
    &&& !is_blank(c)
    &&& c != '\n'
    &&& c != '#'
    &&& c != '"'
    &&& operator_kind(c) is None
    &&& !is_digit(c)
    &&& !is_identifier_char(c)
}

/// How many numeral characters stand in a row from `at` on.
pub open spec fn numeral_run(source: Seq<char>, at: int) -> nat
    decreases source.len() - at,
{
    if 0 <= at < source.len() && is_numeral_char(source[at]) {
        1 + numeral_run(source, at + 1)
    } else {
        0
    }
}

/// How many identifier characters stand in a row from `at` on.
pub open spec fn identifier_run(source: Seq<char>, at: int) -> nat
    decreases source.len() - at,
{
    if 0 <= at < source.len() && is_identifier_char(source[at]) {
        1 + identifier_run(source, at + 1)
    } else {
        0
    }
}

/// How many characters stand from `at` on before the line ends.
pub open spec fn line_rest(source: Seq<char>, at: int) -> nat
    decreases source.len() - at,
{
    if 0 <= at < source.len() && source[at] != '\n' {
        1 + line_rest(source, at + 1)
    } else {
        0
    }
}

/// How many characters stand from `at` on before a double quote or the end
/// of the line.
pub open spec fn string_rest(source: Seq<char>, at: int) -> nat
    decreases source.len() - at,
{
    if 0 <= at < source.len() && source[at] != '\n' && source[at] != '"' {
        1 + string_rest(source, at + 1)
    } else {
        0
    }
}

/// How many points stand in the characters from `from` up to `to`.
pub open spec fn points(source: Seq<char>, from: int, to: int) -> nat
    decreases to - from,
{
    if from >= to {
        0
    } else if source[to - 1] == '.' {
        1 + points(source, from, to - 1)
    } else {
        points(source, from, to - 1)
    }
}

/// The text of a string literal whose characters stand from `from` up to
/// `to`: a backslash with `n` is a line feed, a backslash with `t` is a tab,
/// and every other character is itself.
pub open spec fn unescaped(source: Seq<char>, from: int, to: int) -> Seq<char>
    decreases to - from,
{
    if from >= to {
        Seq::empty()
    } else if from + 1 < to && source[from] == '\\' && source[from + 1] == 'n' {
        seq!['\n'] + unescaped(source, from + 2, to)
    } else if from + 1 < to && source[from] == '\\' && source[from + 1] == 't' {
        seq!['\t'] + unescaped(source, from + 2, to)
    } else {
        seq![source[from]] + unescaped(source, from + 1, to)
    }
}

/// What is said of a character that begins no token.
pub open spec fn token_message(c: char) -> Seq<char> {
    "invalid token `"@.push(c) + "`"@
}

/// What is said of a numeral that is no number.
pub open spec fn number_message(numeral: Seq<char>) -> Seq<char> {
    "Can't convert `"@ + numeral + "` to a number"@
}

/// What is said of a string literal that its line does not close.
pub open spec fn string_message() -> Seq<char> {
    "untermated string"@
}

/// An operation on the line that follows `newlines` line ends.
pub open spec fn token(kind: OperationType, operand: Option<ObjectView>, newlines: int) -> OperationView {
    OperationView { op_type: kind, operand, line: (newlines + 1) as usize }
}

/// A failure on the line that follows `newlines` line ends.
pub open spec fn failure(kind: ErrorKind, message: Seq<char>, newlines: int) -> ErrorView {
    ErrorView { kind, message, line: (newlines + 1) as usize }
}

/// The operation that a word stands for: that of the keyword, or the
/// reading or binding of a name.
pub open spec fn word_token(word: Seq<char>, newlines: int) -> OperationView {
    match keyword_kind(word) {
        Some(kind) => token(kind, None, newlines),
        None => token(OperationType::Identifier, Some(ObjectView::Identifier(word)), newlines),
    }
}

/// The operations that the source text stands for from `at` on, behind
/// those that stand before it, where `newlines` lines have ended before
/// `at`; or the first failure.
///
/// Blanks and line ends separate tokens, and `#` lets the rest of its line
/// be passed over. An operator is one character. A string literal runs from
/// a double quote to the next one on the same line. A numeral is a row of
/// digits and points that begins with a digit, and is a number if it holds
/// at most one point. A word is a row of letters, digits and underscores,
/// and is a keyword or a name. Any other character is a failure.
pub open spec fn scan_from(
    source: Seq<char>,
    at: int,
    newlines: int,
    done: Seq<OperationView>,
) -> Result<Seq<OperationView>, ErrorView>
    decreases
        if at < source.len() {
            source.len() - at
        } else {
            0
        },
{
    if at < 0 || at >= source.len() {
        Ok(done)
    } else {
        let c = source[at];
        if is_blank(c) {
            scan_from(source, at + 1, newlines, done)
        } else if c == '\n' {
            scan_from(source, at + 1, newlines + 1, done)
        } else if c == '#' {
            scan_from(source, at + 1 + line_rest(source, at + 1) + 1, newlines + 1, done)
        } else if operator_kind(c) is Some {
            scan_from(source, at + 1, newlines, done.push(token(operator_kind(c)->0, None, newlines)))
        } else if c == '"' {
            let close = at + 1 + string_rest(source, at + 1);
            if close < source.len() && source[close] == '"' {
                scan_from(
                    source,
                    close + 1,
                    newlines,
                    done.push(
                        token(
                            OperationType::String,
                            Some(ObjectView::String(unescaped(source, at + 1, close))),
                            newlines,
                        ),
                    ),
                )
            } else {
                Err(failure(ErrorKind::UnterminatedString, string_message(), newlines))
            }
        } else if is_digit(c) {
            let end = at + 1 + numeral_run(source, at + 1);
            let numeral = source.subrange(at, end);
            if points(source, at, end) > 1 {
                Err(failure(ErrorKind::InvalidNumber, number_message(numeral), newlines))
            } else {
                scan_from(
                    source,
                    end,
                    newlines,
                    done.push(
                        token(
                            OperationType::Number,
                            Some(ObjectView::Number(NumberView::Numeral(numeral))),
                            newlines,
                        ),
                    ),
                )
            }
        } else if is_identifier_char(c) {
            let end = at + 1 + identifier_run(source, at + 1);
            scan_from(
                source,
                end,
                newlines,
                done.push(word_token(source.subrange(at, end), newlines)),
            )
        } else {
            Err(failure(ErrorKind::InvalidToken, token_message(c), newlines))
        }
    }
}

/// The operations that a source text stands for, without jump targets.
pub open spec fn tokens(source: Seq<char>) -> Result<Seq<OperationView>, ErrorView> {
    scan_from(source, 0, 0, Seq::empty())
}

/// The program that a source text stands for: its operations, with the
/// jump targets of their block markers.
pub open spec fn program_of(source: Seq<char>) -> Result<Seq<OperationView>, ErrorView> {
    match tokens(source) {
        Ok(operations) => crossreference(operations),
        Err(error) => Err(error),
    }
}

/// The operation that a one-character operator stands for.
fn operator_of(c: char) -> (kind: Option<OperationType>)
    ensures
        kind == operator_kind(c),
{
    match c {
        '+' => Some(OperationType::Plus),
        '-' => Some(OperationType::Minus),
        '*' => Some(OperationType::Multiplication),
        '/' => Some(OperationType::Division),
        '%' => Some(OperationType::Modulus),
        '=' => Some(OperationType::Equal),
        '>' => Some(OperationType::Greater),
        '<' => Some(OperationType::Less),
        '!' => Some(OperationType::Not),
        '&' => Some(OperationType::And),
        '|' => Some(OperationType::Or),
        '@' => Some(OperationType::Assignment),
        _ => None,
    }
}

/// Whether a text is a given word.
fn is_word(text: &String, word: &str) -> (equal: bool)
    ensures
        equal == (text@ == word@),
{
    let other = String::from_str(word);
    *text == other
}

/// The operation that a keyword stands for.
fn keyword_of(word: &String) -> (kind: Option<OperationType>)
    ensures
        kind == keyword_kind(word@),
{
    if is_word(word, "true") {
        Some(OperationType::True)
    } else if is_word(word, "false") {
        Some(OperationType::False)
    } else if is_word(word, "read") {
        Some(OperationType::Read)
    } else if is_word(word, "write") {
        Some(OperationType::Write)
    } else if is_word(word, "writeln") {
        Some(OperationType::Writeln)
    } else if is_word(word, "if") {
        Some(OperationType::If)
    } else if is_word(word, "then") {
        Some(OperationType::Then)
    } else if is_word(word, "else") {
        Some(OperationType::Else)
    } else if is_word(word, "while") {
        Some(OperationType::While)
    } else if is_word(word, "do") {
        Some(OperationType::Do)
    } else if is_word(word, "end") {
        Some(OperationType::End)
    } else {
        None
    }
}

/// Puts an operation behind the others.
fn push_operation(operations: &mut Vec<Operation>, operation: Operation)
    ensures
        program_view(final(operations)@) == program_view(old(operations)@).push(operation@),
{
    operations.push(operation);
    assert(program_view(operations@) =~= program_view(old(operations)@).push(operation@));
}

/// The index at which the line ends that `at` stands on.
fn make_comment(source: &Vec<char>, at: usize) -> (end: usize)
    requires
        at <= source.len(),
    ensures
        end == at + line_rest(source@, at as int),
        end <= source.len(),
{
    let mut index = at;
    while index < source.len() && source[index] != '\n'
        invariant
            at <= index <= source.len(),
            index + line_rest(source@, index as int) == at + line_rest(source@, at as int),
        decreases source.len() - index,
    {
        index += 1;
    }
    index
}

/// The numeral that begins at `at`: where it ends, its text, and how many
/// points it holds.
fn make_number(source: &Vec<char>, at: usize) -> (found: (usize, String, usize))
    requires
        at < source.len(),
    ensures
        found.0 == at + 1 + numeral_run(source@, at + 1),
        found.0 <= source.len(),
        found.1@ == source@.subrange(at as int, found.0 as int),
        found.2 == points(source@, at as int, found.0 as int),
{
    let mut numeral = String::new();
    numeral.push(source[at]);
    let mut count: usize = if source[at] == '.' {
        1
    } else {
        0
    };
    let mut index = at + 1;
    assert(numeral@ =~= source@.subrange(at as int, index as int));
    assert(points(source@, at as int, at as int) == 0);
    while index < source.len() && (source[index] == '.' || (source[index] >= '0' && source[index]
        <= '9'))
        invariant
            at < index <= source.len(),
            index + numeral_run(source@, index as int) == at + 1 + numeral_run(source@, at + 1),
            numeral@ == source@.subrange(at as int, index as int),
            count == points(source@, at as int, index as int),
            count <= index - at,
        decreases source.len() - index,
    {
        numeral.push(source[index]);
        if source[index] == '.' {
            count += 1;
        }
        index += 1;
        assert(numeral@ =~= source@.subrange(at as int, index as int));
    }
    (index, numeral, count)
}

/// The word that begins at `at`: where it ends, and its text.
fn make_identifier(source: &Vec<char>, at: usize) -> (found: (usize, String))
    requires
        at < source.len(),
    ensures
        found.0 == at + 1 + identifier_run(source@, at + 1),
        found.0 <= source.len(),
        found.1@ == source@.subrange(at as int, found.0 as int),
{
    let mut word = String::new();
    word.push(source[at]);
    let mut index = at + 1;
    assert(word@ =~= source@.subrange(at as int, index as int));
    while index < source.len() && (source[index] == '_' || is_alphanumeric(source[index]))
        invariant
            at < index <= source.len(),
            index + identifier_run(source@, index as int) == at + 1 + identifier_run(
                source@,
                at + 1,
            ),
            word@ == source@.subrange(at as int, index as int),
        decreases source.len() - index,
    {
        word.push(source[index]);
        index += 1;
        assert(word@ =~= source@.subrange(at as int, index as int));
    }
    (index, word)
}

/// The string literal whose text begins at `at`, behind the opening quote:
/// where the text ends, and the text without its escapes.
fn make_string(source: &Vec<char>, at: usize) -> (found: (usize, String))
    requires
        at <= source.len(),
    ensures
        found.0 == at + string_rest(source@, at as int),
        found.0 <= source.len(),
        found.1@ == unescaped(source@, at as int, found.0 as int),
{
    let mut close = at;
    while close < source.len() && source[close] != '\n' && source[close] != '"'
        invariant
            at <= close <= source.len(),
            close + string_rest(source@, close as int) == at + string_rest(source@, at as int),
        decreases source.len() - close,
    {
        close += 1;
    }
    let mut text = String::new();
    let mut index = at;
    while index < close
        invariant
            at <= index <= close <= source.len(),
            unescaped(source@, at as int, close as int) == text@ + unescaped(
                source@,
                index as int,
                close as int,
            ),
        decreases close - index,
    {
        let ghost before = text@;
        let ghost rest = unescaped(source@, index as int, close as int);
        if source[index] == '\\' && index + 1 < close && source[index + 1] == 'n' {
            text.push('\n');
            index += 2;
            assert(before + rest =~= text@ + unescaped(source@, index as int, close as int));
        } else if source[index] == '\\' && index + 1 < close && source[index + 1] == 't' {
            text.push('\t');
            index += 2;
            assert(before + rest =~= text@ + unescaped(source@, index as int, close as int));
        } else {
            text.push(source[index]);
            index += 1;
            assert(before + rest =~= text@ + unescaped(source@, index as int, close as int));
        }
    }
    assert(text@ + Seq::<char>::empty() =~= text@);
    (close, text)
}

/// A scanner of source text.
pub struct Tokenizer {
    source: Vec<char>,
}

impl View for Tokenizer {
    type V = Seq<char>;

    closed spec fn view(&self) -> Seq<char> {
        self.source@
    }
}

impl Tokenizer {
    /// A scanner of `source`.
    pub fn new(source: &str) -> (tokenizer: Self)
        ensures
            tokenizer@ == source@,
    {
        Tokenizer { source: characters(source) }
    }

    /// The operations that the source text stands for, in order and each
    /// with its line, as yet without jump targets; or the first failure,
    /// with the line on which it stands.
    pub fn scan(&self) -> (result: Result<Vec<Operation>, Error>)
        ensures
            program_result_view(result) == tokens(self@),
    {
        let source = &self.source;
        let mut operations: Vec<Operation> = Vec::new();
        let mut index: usize = 0;
        let mut newlines: usize = 0;
        assert(program_view(operations@) =~= Seq::empty());
        while index < source.len()
            invariant
                index <= source.len(),
                newlines <= index,
                source@ == self@,
                tokens(self@) == scan_from(
                    source@,
                    index as int,
                    newlines as int,
                    program_view(operations@),
                ),
            decreases source.len() - index,
        {
            let c = source[index];
            let line = newlines + 1;
            if c == ' ' || c == '\t' || c == '\r' {
                index += 1;
            } else if c == '\n' {
                index += 1;
                newlines += 1;
            } else if c == '#' {
                let end = make_comment(source, index + 1);
                if end < source.len() {
                    index = end + 1;
                    newlines += 1;
                } else {
                    proof {
                        let done = program_view(operations@);
                        assert(scan_from(source@, end + 1, newlines + 1, done) == Ok::<
                            Seq<OperationView>,
                            ErrorView,
                        >(done));
                        assert(scan_from(source@, end as int, newlines as int, done) == Ok::<
                            Seq<OperationView>,
                            ErrorView,
                        >(done));
                    }
                    index = end;
                }
            } else if let Some(kind) = operator_of(c) {
                push_operation(&mut operations, Operation::new(kind, None, line));
                index += 1;
            } else if c == '"' {
                let (close, text) = make_string(source, index + 1);
                if close < source.len() && source[close] == '"' {
                    push_operation(
                        &mut operations,
                        Operation::new(OperationType::String, Some(Object::String(text)), line),
                    );
                    index = close + 1;
                } else {
                    return Err(Error::new(ErrorKind::UnterminatedString, "untermated string", line));
                }
            } else if c >= '0' && c <= '9' {
                let (end, numeral, count) = make_number(source, index);
                if count > 1 {
                    let mut message = String::from_str("Can't convert `");
                    message.append(numeral.as_str());
                    message.append("` to a number");
                    return Err(Error { kind: ErrorKind::InvalidNumber, message, line });
                }
                push_operation(
                    &mut operations,
                    Operation::new(
                        OperationType::Number,
                        Some(Object::Number(Number::Numeral(numeral))),
                        line,
                    ),
                );
                index = end;
            } else if c == '_' || is_alphanumeric(c) {
                let (end, word) = make_identifier(source, index);
                let operation = match keyword_of(&word) {
                    Some(kind) => Operation::new(kind, None, line),
                    None => Operation::new(
                        OperationType::Identifier,
                        Some(Object::Identifier(word)),
                        line,
                    ),
                };
                push_operation(&mut operations, operation);
                index = end;
            } else {
                let mut message = String::from_str("invalid token `");
                message.push(c);
                message.append("`");
                return Err(Error { kind: ErrorKind::InvalidToken, message, line });
            }
        }
        Ok(operations)
    }

    /// The program that the source text stands for: its operations, with
    /// the jump targets of their block markers; or the first failure.
    pub fn scan_tokens(&mut self) -> (result: Result<Vec<Operation>, Error>)
        ensures
            final(self)@ == old(self)@,
            program_result_view(result) == program_of(old(self)@),
    {
        match self.scan() {
            Ok(operations) => crossreference_operations(&operations),
            Err(error) => Err(error),
        }
    }
}

/// How many lines end in the characters before `at`.
pub open spec fn line_ends(source: Seq<char>, at: int) -> nat
    decreases at,
{
    if at <= 0 {
        0
    } else if source[at - 1] == '\n' {
        1 + line_ends(source, at - 1)
    } else {
        line_ends(source, at - 1)
    }
}

/// Where the scan comes to a character that begins no token, it fails with
/// `InvalidToken`, names the character, and gives the line that the
/// character stands on.
pub proof fn lemma_invalid_token(source: Seq<char>, at: int, newlines: int, done: Seq<OperationView>)
    requires
        0 <= at < source.len(),
        begins_nothing(source[at]),
    ensures
        scan_from(source, at, newlines, done) == Err::<Seq<OperationView>, ErrorView>(
            failure(ErrorKind::InvalidToken, token_message(source[at]), newlines),
        ),
{
}

/// A source text in which only blanks and line ends stand before a
/// character that begins no token fails with `InvalidToken` on the line of
/// that character: the line after as many lines as end before it.
pub proof fn lemma_invalid_token_after_blanks(source: Seq<char>, at: int)
    requires
        0 <= at < source.len(),
        begins_nothing(source[at]),
        forall|k: int| 0 <= k < at ==> is_blank(#[trigger] source[k]) || source[k] == '\n',
    ensures
        tokens(source) == Err::<Seq<OperationView>, ErrorView>(
            failure(
                ErrorKind::InvalidToken,
                token_message(source[at]),
                line_ends(source, at) as int,
            ),
        ),
{
    lemma_blanks_skipped(source, 0, at);
    lemma_invalid_token(source, at, line_ends(source, at) as int, Seq::empty());
}

/// The scan passes over blanks and counts the lines that end.
proof fn lemma_blanks_skipped(source: Seq<char>, from: int, at: int)
    requires
        0 <= from <= at <= source.len(),
        forall|k: int| from <= k < at ==> is_blank(#[trigger] source[k]) || source[k] == '\n',
    ensures
        scan_from(source, from, line_ends(source, from) as int, Seq::empty()) == scan_from(
            source,
            at,
            line_ends(source, at) as int,
            Seq::empty(),
        ),
    decreases at - from,
{
    if from < at {
        assert(is_blank(source[from]) || source[from] == '\n');
        assert(line_ends(source, from + 1) == if source[from] == '\n' {
            1 + line_ends(source, from)
        } else {
            line_ends(source, from)
        });
        lemma_blanks_skipped(source, from + 1, at);
    }
}

/// Whether a text is a numeral that is a number: it begins with a digit,
/// holds nothing but digits and points, and at most one point.
pub open spec fn is_numeral(text: Seq<char>) -> bool {
    &&& text.len() > 0
    &&& is_digit(text[0])
    &&& forall|i: int| 0 <= i < text.len() ==> is_numeral_char(#[trigger] text[i])
    &&& points(text, 0, text.len() as int) <= 1
}

/// Whether every number that the operations carry is a numeral that is a
/// number.
pub open spec fn numerals_are_numbers(operations: Seq<OperationView>) -> bool {
    forall|i: int|
        0 <= i < operations.len() ==> ((#[trigger] operations[i]).operand matches Some(
            ObjectView::Number(number),
        ) ==> number matches NumberView::Numeral(text) && is_numeral(text))
}

/// Every number that the scan finds is a numeral that is a number.
pub proof fn lemma_scanned_numerals(source: Seq<char>)
    ensures
        tokens(source) matches Ok(operations) ==> numerals_are_numbers(operations),
{
    lemma_scan_numerals(source, 0, 0, Seq::empty());
}

/// The same of the program with its jump targets. The host that computes
/// with the numbers of the program can read each of them.
pub proof fn lemma_program_numerals(source: Seq<char>)
    requires
        source.len() <= usize::MAX,
    ensures
        program_of(source) matches Ok(program) ==> numerals_are_numbers(program) && forall|i: int|
            0 <= i < program.len() ==> ((#[trigger] program[i]).operand matches Some(value)
                ==> is_legible(value)),
{
    lemma_scanned_numerals(source);
    if let Ok(operations) = tokens(source) {
        lemma_scan_length(source, 0, 0, Seq::empty());
        lemma_fills_targets_only(operations);
        if let Ok(program) = crossreference(operations) {
            assert forall|i: int| 0 <= i < program.len() implies ((#[trigger] program[i]).operand
                matches Some(ObjectView::Number(number)) ==> number matches NumberView::Numeral(
                text,
            ) && is_numeral(text)) by {
                assert(operations[i].op_type == program[i].op_type);
            }
            assert forall|i: int| 0 <= i < program.len() implies ((#[trigger] program[i]).operand
                matches Some(value) ==> is_legible(value)) by {
                if let Some(ObjectView::Number(NumberView::Numeral(text))) = program[i].operand {
                    lemma_numeral_reads_as_number(text);
                }
            }
        }
    }
}

/// A scan finds at most one operation for each character.
proof fn lemma_scan_length(source: Seq<char>, at: int, newlines: int, done: Seq<OperationView>)
    requires
        0 <= at,
    ensures
        scan_from(source, at, newlines, done) matches Ok(operations) ==> operations.len()
            <= done.len() + if at < source.len() {
            source.len() - at
        } else {
            0
        },
    decreases
        if at < source.len() {
            source.len() - at
        } else {
            0
        },
{
    if at < source.len() {
        let c = source[at];
        if is_blank(c) {
            lemma_scan_length(source, at + 1, newlines, done);
        } else if c == '\n' {
            lemma_scan_length(source, at + 1, newlines + 1, done);
        } else if c == '#' {
            lemma_scan_length(
                source,
                at + 1 + line_rest(source, at + 1) + 1,
                newlines + 1,
                done,
            );
        } else if operator_kind(c) is Some {
            lemma_scan_length(
                source,
                at + 1,
                newlines,
                done.push(token(operator_kind(c)->0, None, newlines)),
            );
        } else if c == '"' {
            let close = at + 1 + string_rest(source, at + 1);
            if close < source.len() && source[close] == '"' {
                lemma_scan_length(
                    source,
                    close + 1,
                    newlines,
                    done.push(
                        token(
                            OperationType::String,
                            Some(ObjectView::String(unescaped(source, at + 1, close))),
                            newlines,
                        ),
                    ),
                );
            }
        } else if is_digit(c) {
            let end = at + 1 + numeral_run(source, at + 1);
            let numeral = source.subrange(at, end);
            if points(source, at, end) <= 1 {
                lemma_scan_length(
                    source,
                    end,
                    newlines,
                    done.push(
                        token(
                            OperationType::Number,
                            Some(ObjectView::Number(NumberView::Numeral(numeral))),
                            newlines,
                        ),
                    ),
                );
            }
        } else if is_identifier_char(c) {
            let end = at + 1 + identifier_run(source, at + 1);
            lemma_scan_length(
                source,
                end,
                newlines,
                done.push(word_token(source.subrange(at, end), newlines)),
            );
        }
    }
}

/// A row of numeral characters holds nothing else and ends within the text.
proof fn lemma_numeral_run(source: Seq<char>, at: int)
    requires
        0 <= at <= source.len(),
    ensures
        at + numeral_run(source, at) <= source.len(),
        forall|k: int| at <= k < at + numeral_run(source, at) ==> is_numeral_char(#[trigger] source[k]),
    decreases source.len() - at,
{
    if at < source.len() && is_numeral_char(source[at]) {
        lemma_numeral_run(source, at + 1);
    }
}

/// A stretch of a text holds as many points as the stretch taken by itself.
proof fn lemma_points_of_stretch(source: Seq<char>, from: int, to: int)
    requires
        0 <= from <= to <= source.len(),
    ensures
        points(source.subrange(from, to), 0, to - from) == points(source, from, to),
    decreases to - from,
{
    if from < to {
        lemma_points_of_stretch(source, from, to - 1);
        lemma_points_of_prefix(source.subrange(from, to), source.subrange(from, to - 1), to - 1 - from);
    }
}

/// Two texts that agree up to `to` hold the same points up to there.
proof fn lemma_points_of_prefix(long: Seq<char>, short: Seq<char>, to: int)
    requires
        0 <= to <= short.len() <= long.len(),
        forall|k: int| 0 <= k < to ==> long[k] == short[k],
    ensures
        points(long, 0, to) == points(short, 0, to),
    decreases to,
{
    if to > 0 {
        lemma_points_of_prefix(long, short, to - 1);
    }
}

/// The scan adds no number that is not a numeral that is a number.
proof fn lemma_scan_numerals(source: Seq<char>, at: int, newlines: int, done: Seq<OperationView>)
    requires
        0 <= at,
        numerals_are_numbers(done),
    ensures
        scan_from(source, at, newlines, done) matches Ok(operations) ==> numerals_are_numbers(
            operations,
        ),
    decreases
        if at < source.len() {
            source.len() - at
        } else {
            0
        },
{
    if at < source.len() {
        let c = source[at];
        if is_blank(c) {
            lemma_scan_numerals(source, at + 1, newlines, done);
        } else if c == '\n' {
            lemma_scan_numerals(source, at + 1, newlines + 1, done);
        } else if c == '#' {
            lemma_scan_numerals(
                source,
                at + 1 + line_rest(source, at + 1) + 1,
                newlines + 1,
                done,
            );
        } else if operator_kind(c) is Some {
            let next = done.push(token(operator_kind(c)->0, None, newlines));
            assert(numerals_are_numbers(next));
            lemma_scan_numerals(source, at + 1, newlines, next);
        } else if c == '"' {
            let close = at + 1 + string_rest(source, at + 1);
            if close < source.len() && source[close] == '"' {
                let next = done.push(
                    token(
                        OperationType::String,
                        Some(ObjectView::String(unescaped(source, at + 1, close))),
                        newlines,
                    ),
                );
                assert(numerals_are_numbers(next));
                lemma_scan_numerals(source, close + 1, newlines, next);
            }
        } else if is_digit(c) {
            let end = at + 1 + numeral_run(source, at + 1);
            let numeral = source.subrange(at, end);
            if points(source, at, end) <= 1 {
                lemma_numeral_run(source, at + 1);
                lemma_points_of_stretch(source, at, end);
                assert(is_numeral(numeral));
                let next = done.push(
                    token(
                        OperationType::Number,
                        Some(ObjectView::Number(NumberView::Numeral(numeral))),
                        newlines,
                    ),
                );
                assert(numerals_are_numbers(next));
                lemma_scan_numerals(source, end, newlines, next);
            }
        } else if is_identifier_char(c) {
            let end = at + 1 + identifier_run(source, at + 1);
            let next = done.push(word_token(source.subrange(at, end), newlines));
            assert(numerals_are_numbers(next));
            lemma_scan_numerals(source, end, newlines, next);
        }
    }
}

/// A stretch of numeral characters without a point is a row of digits.
proof fn lemma_digits_without_points(text: Seq<char>, from: int)
    requires
        0 <= from <= text.len(),
        forall|i: int| from <= i < text.len() ==> is_numeral_char(#[trigger] text[i]),
        points(text, from, text.len() as int) == 0,
    ensures
        from + digit_run(text, from) == text.len(),
    decreases text.len() - from,
{
    if from < text.len() {
        lemma_points_split(text, from, from + 1, text.len() as int);
        assert(points(text, from, from) == 0);
        assert(is_numeral_char(text[from]));
        lemma_digits_without_points(text, from + 1);
    }
}

/// The points of two adjoining stretches are those of the whole.
proof fn lemma_points_split(text: Seq<char>, from: int, middle: int, to: int)
    requires
        from <= middle <= to,
    ensures
        points(text, from, to) == points(text, from, middle) + points(text, middle, to),
    decreases to - middle,
{
    if middle < to {
        lemma_points_split(text, from, middle, to - 1);
    }
}

/// A row of digits holds nothing but numeral characters and no point.
proof fn lemma_digit_run(text: Seq<char>, from: int)
    requires
        0 <= from <= text.len(),
    ensures
        from + digit_run(text, from) <= text.len(),
        points(text, from, from + digit_run(text, from)) == 0,
        from + digit_run(text, from) < text.len() ==> !is_digit(
            text[from + digit_run(text, from)],
        ),
    decreases text.len() - from,
{
    if from < text.len() && is_digit(text[from]) {
        lemma_digit_run(text, from + 1);
        lemma_points_split(text, from, from + 1, from + digit_run(text, from));
        assert(points(text, from, from) == 0);
    }
}

/// A numeral that the scan takes for a number reads as a number.
pub proof fn lemma_numeral_reads_as_number(text: Seq<char>)
    requires
        is_numeral(text),
    ensures
        reads_as_number(text),
{
    let length = text.len() as int;
    let whole = digit_run(text, 0) as int;
    lemma_digit_run(text, 0);
    if whole < length {
        assert(is_numeral_char(text[whole]));
        lemma_points_split(text, 0, whole, length);
        lemma_points_split(text, whole, whole + 1, length);
        assert(points(text, whole, whole) == 0);
        lemma_digits_without_points(text, whole + 1);
    }
}

} // verus!
