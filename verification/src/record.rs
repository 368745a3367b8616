//! The records that a search prints, one per line, as `git grep -z` writes
//! them: the fields of a record are parted by the character NUL.
//!
//! A line record holds a path, a line number and the text of the line. A
//! span record, as `git grep -z -o --column` writes it, holds a path, a line
//! number, the column where a match starts, counted from one, and the text
//! of the match.

use crate::git::{MatchLine, MatchedColumn, first_index};
use crate::text::{chars_of, decimal, span_string};
use vstd::prelude::*;

verus! {

/// The character that parts the fields of a record.
pub const FIELD_END: char = '\0';

/// Whether `c` is a decimal digit.
pub open spec fn is_digit(c: char) -> bool {
    '0' <= c <= '9'
}

/// The value of the decimal digit `c`.
pub open spec fn digit_value(c: char) -> nat
    recommends
        is_digit(c),
{
    (c as u32 - '0' as u32) as nat
}

/// Whether `text` is a decimal numeral: one digit or more, and nothing else.
pub open spec fn is_numeral(text: Seq<char>) -> bool {
    text.len() > 0 && forall|i: int| 0 <= i < text.len() ==> is_digit(#[trigger] text[i])
}

/// The number that the first `upto` digits of `text` stand for.
pub open spec fn numeral_value(text: Seq<char>, upto: int) -> nat
    decreases upto,
{
    if upto <= 0 {
        0
    } else {
        numeral_value(text, upto - 1) * 10 + digit_value(text[upto - 1])
    }
}

/// The number that `text` stands for, where `text` is a decimal numeral of
/// a number that a `usize` can hold.
pub open spec fn number_of(text: Seq<char>) -> Option<usize> {
    if is_numeral(text) && numeral_value(text, text.len() as int) <= usize::MAX {
        Some(numeral_value(text, text.len() as int) as usize)
    } else {
        None
    }
}

/// More digits never stand for a smaller number.
proof fn lemma_numeral_grows(text: Seq<char>, shorter: int, longer: int)
    requires
        0 <= shorter <= longer,
    ensures
        numeral_value(text, shorter) <= numeral_value(text, longer),
    decreases longer - shorter,
{
    if shorter < longer {
        lemma_numeral_grows(text, shorter, longer - 1);
    }
}

/// Two texts with the same first `upto` characters have the same number in
/// them.
proof fn lemma_numeral_same(a: Seq<char>, b: Seq<char>, upto: int)
    requires
        0 <= upto <= a.len(),
        upto <= b.len(),
        forall|i: int| 0 <= i < upto ==> a[i] == b[i],
    ensures
        numeral_value(a, upto) == numeral_value(b, upto),
    decreases upto,
{
    if upto > 0 {
        lemma_numeral_same(a, b, upto - 1);
    }
}

/// The number that the characters of `text` from `from` up to `to` stand
/// for.
fn parse_part(text: &Vec<char>, from: usize, to: usize) -> (number: Option<usize>)
    requires
        from <= to <= text.len(),
    ensures
        number == number_of(text@.subrange(from as int, to as int)),
{
    let ghost part = text@.subrange(from as int, to as int);
    if from == to {
        return None;
    }
    let mut value: usize = 0;
    let mut i: usize = from;
    while i < to
        invariant
            from <= i <= to <= text.len(),
            part == text@.subrange(from as int, to as int),
            forall|j: int| 0 <= j < i - from ==> is_digit(#[trigger] part[j]),
            value == numeral_value(part, i - from),
        decreases to - i,
    {
        let c = text[i];
        assert(c == part[i - from]);
        if c < '0' || c > '9' {
            return None;
        }
        let digit = (c as u32 - '0' as u32) as usize;
        proof {
            lemma_numeral_grows(part, i - from + 1, part.len() as int);
        }
        if value > (usize::MAX - digit) / 10 {
            assert(value * 10 + digit > usize::MAX);
            return None;
        }
        value = value * 10 + digit;
        i += 1;
    }
    Some(value)
}

/// The number that `text` stands for, where `text` is a decimal numeral of
/// a number that a `usize` can hold; `None` for any other text.
pub fn parse_number(text: &str) -> (number: Option<usize>)
    ensures
        number == number_of(text@),
{
    let chars = chars_of(text);
    assert(chars@.subrange(0, chars@.len() as int) =~= text@);
    parse_part(&chars, 0, chars.len())
}

/// The mathematical value of a line record.
pub ghost struct LineRecord {
    pub path: Seq<char>,
    pub number: usize,
    pub text: Seq<char>,
}

/// The mathematical value of a span record.
pub ghost struct SpanRecord {
    pub path: Seq<char>,
    pub number: usize,
    pub span: MatchedColumn,
}

/// What a line record holds: a line and the path of its file.
#[derive(Debug)]
pub struct ParsedLine {
    pub file: String,
    pub line: MatchLine,
}

impl View for ParsedLine {
    type V = LineRecord;

    open spec fn view(&self) -> LineRecord {
        LineRecord { path: self.file@, number: self.line.number, text: self.line.text@ }
    }
}

/// What a span record holds: a matched span, the number of its line and
/// the path of its file.
#[derive(Debug)]
pub struct ParsedSpan {
    pub file: String,
    pub number: usize,
    pub span: MatchedColumn,
}

impl View for ParsedSpan {
    type V = SpanRecord;

    open spec fn view(&self) -> SpanRecord {
        SpanRecord { path: self.file@, number: self.number, span: self.span }
    }
}

/// Where the field that starts at `from` ends: at the first NUL at or after
/// `from`, or at the end of the record.
pub open spec fn field_end(record: Seq<char>, from: int) -> int {
    first_index(record, FIELD_END, from)
}

/// The line record that `record` holds: the path up to the first NUL, the
/// line number between the first and the second NUL, and the text behind
/// the second NUL. `None` where the record has fewer than two NULs or the
/// second field is no number.
pub open spec fn line_record(record: Seq<char>) -> Option<LineRecord> {
    let path_end = field_end(record, 0);
    let number_end = field_end(record, path_end + 1);
    if number_end < record.len() {
        match number_of(record.subrange(path_end + 1, number_end)) {
            Some(number) => Some(
                LineRecord {
                    path: record.subrange(0, path_end),
                    number,
                    text: record.subrange(number_end + 1, record.len() as int),
                },
            ),
            None => None,
        }
    } else {
        None
    }
}

/// The span record that `record` holds: the path up to the first NUL, the
/// line number up to the second, the column up to the third, and the text
/// of the match behind it. The span starts one character before the column
/// and is as long as the text of the match. `None` where the record has
/// fewer than three NULs or the second or third field is no number.
pub open spec fn span_record(record: Seq<char>) -> Option<SpanRecord> {
    let path_end = field_end(record, 0);
    let number_end = field_end(record, path_end + 1);
    let column_end = field_end(record, number_end + 1);
    if column_end < record.len() {
        match (
            number_of(record.subrange(path_end + 1, number_end)),
            number_of(record.subrange(number_end + 1, column_end)),
        ) {
            (Some(number), Some(column)) => Some(
                SpanRecord {
                    path: record.subrange(0, path_end),
                    number,
                    span: MatchedColumn {
                        column_offset: if column > 0 {
                            (column - 1) as usize
                        } else {
                            0
                        },
                        text_chars: (record.len() - column_end - 1) as usize,
                    },
                },
            ),
            _ => None,
        }
    } else {
        None
    }
}

/// Where the field that starts at `from` ends.
fn find_field_end(record: &Vec<char>, from: usize) -> (end: usize)
    requires
        from <= record.len(),
    ensures
        end == field_end(record@, from as int),
        from <= end <= record.len(),
        end < record.len() ==> record[end as int] == FIELD_END,
{
    let mut i: usize = from;
    while i < record.len()
        invariant
            from <= i <= record.len(),
            field_end(record@, from as int) == field_end(record@, i as int),
        decreases record.len() - i,
    {
        if record[i] == FIELD_END {
            return i;
        }
        i += 1;
    }
    i
}

/// Reads a line record: the path, and the line with its number and text.
pub fn parse_line_record(record: &str) -> (parsed: Option<ParsedLine>)
    ensures
        match parsed {
            Some(found) => line_record(record@) == Some(found@),
            None => line_record(record@) is None,
        },
{
    let chars = chars_of(record);
    let len = chars.len();
    let path_end = find_field_end(&chars, 0);
    if path_end >= len {
        return None;
    }
    let number_end = find_field_end(&chars, path_end + 1);
    if number_end >= len {
        return None;
    }
    match parse_part(&chars, path_end + 1, number_end) {
        Some(number) => {
            let path = span_string(&chars, 0, path_end);
            let text = span_string(&chars, number_end + 1, len - number_end - 1);
            assert(path@ =~= chars@.subrange(0, path_end as int));
            assert(text@ =~= chars@.subrange(number_end + 1, len as int));
            Some(ParsedLine { file: path, line: MatchLine { number, text } })
        },
        None => None,
    }
}

/// Reads a span record: the path, the line number, and the span.
pub fn parse_span_record(record: &str) -> (parsed: Option<ParsedSpan>)
    ensures
        match parsed {
            Some(found) => span_record(record@) == Some(found@),
            None => span_record(record@) is None,
        },
{
    let chars = chars_of(record);
    let len = chars.len();
    let path_end = find_field_end(&chars, 0);
    if path_end >= len {
        return None;
    }
    let number_end = find_field_end(&chars, path_end + 1);
    if number_end >= len {
        return None;
    }
    let column_end = find_field_end(&chars, number_end + 1);
    if column_end >= len {
        return None;
    }
    let number = parse_part(&chars, path_end + 1, number_end);
    let column = parse_part(&chars, number_end + 1, column_end);
    match (number, column) {
        (Some(number), Some(column)) => {
            let path = span_string(&chars, 0, path_end);
            assert(path@ =~= chars@.subrange(0, path_end as int));
            let column_offset = if column > 0 {
                column - 1
            } else {
                0
            };
            Some(
                ParsedSpan {
                    file: path,
                    number,
                    span: MatchedColumn { column_offset, text_chars: len - column_end - 1 },
                },
            )
        },
        _ => None,
    }
}

/// The decimal numeral of a number stands for that number: reading what
/// was written gives the number back.
pub proof fn law_numeral_round_trip(n: usize)
    ensures
        number_of(decimal(n as nat)) == Some(n),
{
    lemma_decimal_value(n as nat);
}

/// The decimal numeral of `n` is a numeral, and its value is `n`.
proof fn lemma_decimal_value(n: nat)
    ensures
        is_numeral(decimal(n)),
        numeral_value(decimal(n), decimal(n).len() as int) == n,
    decreases n,
{
    reveal_with_fuel(numeral_value, 2);
    if n >= 10 {
        lemma_decimal_value(n / 10);
        let shorter = decimal(n / 10);
        lemma_numeral_same(decimal(n), shorter, shorter.len() as int);
    }
}

} // verus!
