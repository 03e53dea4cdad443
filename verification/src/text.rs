use vstd::prelude::*;
use vstd::std_specs::iter::IteratorSpec;

verus! {

/// Whether a character is a letter or a digit of any script: what
/// `char::is_alphanumeric` answers.
pub uninterp spec fn alphanumeric(c: char) -> bool;

/// `char::is_alphanumeric`: true exactly for the characters that the
/// standard library counts as alphabetic or numeric. The model calls that
/// set [`alphanumeric`] and claims nothing more of it.
#[verifier::external_body]
pub(crate) fn is_alphanumeric(c: char) -> (answer: bool)
    ensures
        answer == alphanumeric(c),
{
    c.is_alphanumeric()
}

/// `String::push`: the character is appended to the end of the string.
pub assume_specification[ std::string::String::push ](text: &mut std::string::String, c: char)
    ensures
        final(text)@ == old(text)@.push(c),
;

/// The characters of a text, in order.
pub fn characters(text: &str) -> (list: Vec<char>)
    ensures
        list@ == text@,
{
    let mut list: Vec<char> = Vec::new();
    for c in iterator: text.chars()
        invariant
            iterator.seq() == text@,
            list@ == text@.take(iterator.index() as int),
    {
        list.push(c);
    }
    list
}

/// The characters that count as white space: the tab, the line feed, the
/// vertical tab, the form feed, the carriage return, the space, and the
/// spaces and separators beyond the first 128 characters.
pub open spec fn is_white_space(c: char) -> bool {
    ||| '\u{9}' <= c <= '\u{d}'
    ||| c == ' '
    ||| c == '\u{85}'
    ||| c == '\u{a0}'
    ||| c == '\u{1680}'
    ||| '\u{2000}' <= c <= '\u{200a}'
    ||| c == '\u{2028}'
    ||| c == '\u{2029}'
    ||| c == '\u{202f}'
    ||| c == '\u{205f}'
    ||| c == '\u{3000}'
}

/// How many white-space characters stand in a row from `at` on.
pub open spec fn white_run(text: Seq<char>, at: int) -> nat
    decreases text.len() - at,
{
    if 0 <= at < text.len() && is_white_space(text[at]) {
        1 + white_run(text, at + 1)
    } else {
        0
    }
}

/// How many white-space characters stand in a row before `at`, from `floor`
/// on.
pub open spec fn white_run_back(text: Seq<char>, floor: int, at: int) -> nat
    decreases at - floor,
{
    if floor < at <= text.len() && is_white_space(text[at - 1]) {
        1 + white_run_back(text, floor, at - 1)
    } else {
        0
    }
}

/// A text without the white space at its beginning and at its end.
pub open spec fn trimmed(text: Seq<char>) -> Seq<char> {
    let start = white_run(text, 0) as int;
    let end = text.len() - white_run_back(text, start, text.len() as int);
    text.subrange(start, end)
}

/// Whether a character counts as white space.
fn white(c: char) -> (answer: bool)
    ensures
        answer == is_white_space(c),
{
    (c >= '\u{9}' && c <= '\u{d}') || c == ' ' || c == '\u{85}' || c == '\u{a0}' || c == '\u{1680}'
        || (c >= '\u{2000}' && c <= '\u{200a}') || c == '\u{2028}' || c == '\u{2029}' || c
        == '\u{202f}' || c == '\u{205f}' || c == '\u{3000}'
}

/// The text without the white space at its beginning and at its end.
pub fn trim(text: &str) -> (result: String)
    ensures
        result@ == trimmed(text@),
{
    let list = characters(text);
    let mut start: usize = 0;
    while start < list.len() && white(list[start])
        invariant
            start <= list.len(),
            start + white_run(list@, start as int) == white_run(list@, 0),
        decreases list.len() - start,
    {
        start += 1;
    }
    let mut end: usize = list.len();
    while end > start && white(list[end - 1])
        invariant
            start <= end <= list.len(),
            list.len() - end + white_run_back(list@, start as int, end as int) == white_run_back(
                list@,
                start as int,
                list.len() as int,
            ),
        decreases end - start,
    {
        end -= 1;
    }
    let mut result = String::new();
    let mut index = start;
    assert(result@ =~= list@.subrange(start as int, index as int));
    while index < end
        invariant
            start <= index <= end <= list.len(),
            result@ == list@.subrange(start as int, index as int),
        decreases end - index,
    {
        result.push(list[index]);
        index += 1;
        assert(result@ =~= list@.subrange(start as int, index as int));
    }
    result
}

/// The decimal digits.
pub open spec fn is_digit(c: char) -> bool {
    '0' <= c <= '9'
}

/// The two signs.
pub open spec fn is_sign(c: char) -> bool {
    c == '+' || c == '-'
}

/// Whether `c` is the letter that is written `small` or `capital`.
pub open spec fn is_letter(c: char, small: char, capital: char) -> bool {
    c == small || c == capital
}

/// How many digits stand in a row from `at` on.
pub open spec fn digit_run(text: Seq<char>, at: int) -> nat
    decreases text.len() - at,
{
    if 0 <= at < text.len() && is_digit(text[at]) {
        1 + digit_run(text, at + 1)
    } else {
        0
    }
}

/// Whether the text from `at` to its end is `inf`, `infinity` or `nan`, in
/// small or capital letters.
pub open spec fn is_special(text: Seq<char>, at: int) -> bool {
    ||| {
        &&& text.len() == at + 3
        &&& is_letter(text[at], 'i', 'I')
        &&& is_letter(text[at + 1], 'n', 'N')
        &&& is_letter(text[at + 2], 'f', 'F')
    }
    ||| {
        &&& text.len() == at + 8
        &&& is_letter(text[at], 'i', 'I')
        &&& is_letter(text[at + 1], 'n', 'N')
        &&& is_letter(text[at + 2], 'f', 'F')
        &&& is_letter(text[at + 3], 'i', 'I')
        &&& is_letter(text[at + 4], 'n', 'N')
        &&& is_letter(text[at + 5], 'i', 'I')
        &&& is_letter(text[at + 6], 't', 'T')
        &&& is_letter(text[at + 7], 'y', 'Y')
    }
    ||| {
        &&& text.len() == at + 3
        &&& is_letter(text[at], 'n', 'N')
        &&& is_letter(text[at + 1], 'a', 'A')
        &&& is_letter(text[at + 2], 'n', 'N')
    }
}

/// Whether the text from `at` to its end is empty or an exponent: `e` or
/// `E`, a sign or none, and digits.
pub open spec fn is_exponent(text: Seq<char>, at: int) -> bool {
    ||| at == text.len()
    ||| {
        let digits = if at + 1 < text.len() && is_sign(text[at + 1]) {
            at + 2
        } else {
            at + 1
        };
        &&& at < text.len()
        &&& is_letter(text[at], 'e', 'E')
        &&& digit_run(text, digits) > 0
        &&& digits + digit_run(text, digits) == text.len()
    }
}

/// Whether the text from `at` to its end is a decimal number: digits, with
/// a point among, before or behind them or with none, and an exponent or
/// none.
pub open spec fn is_decimal(text: Seq<char>, at: int) -> bool {
    let whole = digit_run(text, at);
    let point = at + whole;
    if point < text.len() && text[point] == '.' {
        let fraction = digit_run(text, point + 1);
        whole + fraction > 0 && is_exponent(text, point + 1 + fraction)
    } else {
        whole > 0 && is_exponent(text, point)
    }
}

/// Whether a text reads as a number: a sign or none, and then a decimal
/// number, `inf`, `infinity` or `nan`.
pub open spec fn reads_as_number(text: Seq<char>) -> bool {
    let start: int = if text.len() > 0 && is_sign(text[0]) {
        1
    } else {
        0
    };
    is_special(text, start) || is_decimal(text, start)
}

/// Whether `c` is the letter that is written `small` or `capital`.
fn letter(c: char, small: char, capital: char) -> (answer: bool)
    ensures
        answer == is_letter(c, small, capital),
{
    c == small || c == capital
}

/// Whether the text from `at` on is `inf`, `infinity` or `nan`.
fn special(text: &Vec<char>, at: usize) -> (answer: bool)
    requires
        at <= text.len(),
    ensures
        answer == is_special(text@, at as int),
{
    let rest = text.len() - at;
    if rest == 3 {
        (letter(text[at], 'i', 'I') && letter(text[at + 1], 'n', 'N') && letter(
            text[at + 2],
            'f',
            'F',
        )) || (letter(text[at], 'n', 'N') && letter(text[at + 1], 'a', 'A') && letter(
            text[at + 2],
            'n',
            'N',
        ))
    } else if rest == 8 {
        letter(text[at], 'i', 'I') && letter(text[at + 1], 'n', 'N') && letter(
            text[at + 2],
            'f',
            'F',
        ) && letter(text[at + 3], 'i', 'I') && letter(text[at + 4], 'n', 'N') && letter(
            text[at + 5],
            'i',
            'I',
        ) && letter(text[at + 6], 't', 'T') && letter(text[at + 7], 'y', 'Y')
    } else {
        false
    }
}

/// The index behind the digits that stand in a row from `at` on.
fn skip_digits(text: &Vec<char>, at: usize) -> (end: usize)
    requires
        at <= text.len(),
    ensures
        end == at + digit_run(text@, at as int),
        end <= text.len(),
{
    let mut index = at;
    while index < text.len() && text[index] >= '0' && text[index] <= '9'
        invariant
            at <= index <= text.len(),
            index + digit_run(text@, index as int) == at + digit_run(text@, at as int),
        decreases text.len() - index,
    {
        index += 1;
    }
    index
}

/// Whether the text from `at` on is empty or an exponent.
fn exponent(text: &Vec<char>, at: usize) -> (answer: bool)
    requires
        at <= text.len(),
    ensures
        answer == is_exponent(text@, at as int),
{
    if at == text.len() {
        return true;
    }
    if !letter(text[at], 'e', 'E') {
        return false;
    }
    let digits = if at + 1 < text.len() && (text[at + 1] == '+' || text[at + 1] == '-') {
        at + 2
    } else {
        at + 1
    };
    let end = skip_digits(text, digits);
    end > digits && end == text.len()
}

/// Whether the text from `at` on is a decimal number.
fn decimal(text: &Vec<char>, at: usize) -> (answer: bool)
    requires
        at <= text.len(),
    ensures
        answer == is_decimal(text@, at as int),
{
    let point = skip_digits(text, at);
    if point < text.len() && text[point] == '.' {
        let end = skip_digits(text, point + 1);
        (point > at || end > point + 1) && exponent(text, end)
    } else {
        point > at && exponent(text, point)
    }
}

/// Whether the text reads as a number.
pub fn reads_number(text: &str) -> (answer: bool)
    ensures
        answer == reads_as_number(text@),
{
    let list = characters(text);
    let start: usize = if list.len() > 0 && (list[0] == '+' || list[0] == '-') {
        1
    } else {
        0
    };
    special(&list, start) || decimal(&list, start)
}

} // verus!
