use grepview::git::MatchedColumn;
use grepview::record::{parse_line_record, parse_number, parse_span_record, FIELD_END};
use grepview::text::push_decimal;

#[test]
fn fields_end_with_nul() {
    assert_eq!(FIELD_END, '\0');
}

#[test]
fn numbers_are_decimal_numerals() {
    assert_eq!(parse_number("0"), Some(0));
    assert_eq!(parse_number("7"), Some(7));
    assert_eq!(parse_number("42"), Some(42));
    assert_eq!(parse_number("007"), Some(7));
    assert_eq!(parse_number("1234567890"), Some(1234567890));
}

#[test]
fn other_texts_are_no_numbers() {
    assert_eq!(parse_number(""), None);
    assert_eq!(parse_number(" 1"), None);
    assert_eq!(parse_number("1 "), None);
    assert_eq!(parse_number("+1"), None);
    assert_eq!(parse_number("-1"), None);
    assert_eq!(parse_number("1a"), None);
    assert_eq!(parse_number("a1"), None);
    assert_eq!(parse_number("1.5"), None);
    assert_eq!(parse_number("/"), None);
    assert_eq!(parse_number(":"), None);
    assert_eq!(parse_number("١٢"), None);
}

#[test]
fn numbers_stop_at_the_largest() {
    let largest = usize::MAX.to_string();
    assert_eq!(parse_number(&largest), Some(usize::MAX));
    assert_eq!(parse_number(&format!("000{}", largest)), Some(usize::MAX));
    let mut digits: Vec<u8> = largest.clone().into_bytes();
    let last = digits.len() - 1;
    digits[last] += 1;
    assert_eq!(parse_number(&String::from_utf8(digits).unwrap()), None);
    assert_eq!(parse_number(&format!("{}0", largest)), None);
    assert_eq!(parse_number("99999999999999999999999999999999999999999"), None);
}

#[test]
fn written_numbers_read_back() {
    for n in [0usize, 1, 9, 10, 99, 100, 12345, usize::MAX - 1, usize::MAX] {
        let mut text = String::new();
        push_decimal(&mut text, n as u128);
        assert_eq!(parse_number(&text), Some(n));
    }
}

#[test]
fn line_record_has_path_number_and_text() {
    let found = parse_line_record("src/main.c\u{0}12\u{0}int main() {").unwrap();
    assert_eq!(found.file, "src/main.c");
    assert_eq!(found.line.number, 12);
    assert_eq!(found.line.text, "int main() {");
}

#[test]
fn line_record_text_may_be_empty_or_hold_nul() {
    let found = parse_line_record("a\u{0}1\u{0}").unwrap();
    assert_eq!(found.file, "a");
    assert_eq!(found.line.number, 1);
    assert_eq!(found.line.text, "");
    let found = parse_line_record("a b:c\u{0}3\u{0}x\u{0}y:2:").unwrap();
    assert_eq!(found.file, "a b:c");
    assert_eq!(found.line.number, 3);
    assert_eq!(found.line.text, "x\u{0}y:2:");
    let found = parse_line_record("\u{0}5\u{0}日本語").unwrap();
    assert_eq!(found.file, "");
    assert_eq!(found.line.text, "日本語");
}

#[test]
fn broken_line_records_are_refused() {
    assert!(parse_line_record("").is_none());
    assert!(parse_line_record("--").is_none());
    assert!(parse_line_record("a:1:text").is_none());
    assert!(parse_line_record("a\u{0}1").is_none());
    assert!(parse_line_record("a\u{0}").is_none());
    assert!(parse_line_record("a\u{0}\u{0}text").is_none());
    assert!(parse_line_record("a\u{0}x\u{0}text").is_none());
    assert!(parse_line_record("a\u{0}1x\u{0}text").is_none());
    assert!(parse_line_record("a\u{0}99999999999999999999999\u{0}text").is_none());
}

#[test]
fn span_record_has_path_number_and_span() {
    let found = parse_span_record("src/main.c\u{0}12\u{0}5\u{0}main").unwrap();
    assert_eq!(found.file, "src/main.c");
    assert_eq!(found.number, 12);
    assert_eq!(found.span, MatchedColumn { column_offset: 4, text_chars: 4 });
}

#[test]
fn span_counts_characters_of_the_match() {
    let found = parse_span_record("f\u{0}1\u{0}1\u{0}日本語").unwrap();
    assert_eq!(found.span, MatchedColumn { column_offset: 0, text_chars: 3 });
    let found = parse_span_record("f\u{0}1\u{0}0\u{0}").unwrap();
    assert_eq!(found.span, MatchedColumn { column_offset: 0, text_chars: 0 });
    let found = parse_span_record("f\u{0}1\u{0}3\u{0}a\u{0}b").unwrap();
    assert_eq!(found.span, MatchedColumn { column_offset: 2, text_chars: 3 });
}

#[test]
fn broken_span_records_are_refused() {
    assert!(parse_span_record("").is_none());
    assert!(parse_span_record("--").is_none());
    assert!(parse_span_record("f").is_none());
    assert!(parse_span_record("f\u{0}").is_none());
    assert!(parse_span_record("f\u{0}1").is_none());
    assert!(parse_span_record("f\u{0}1\u{0}").is_none());
    assert!(parse_span_record("f\u{0}1\u{0}2").is_none());
    assert!(parse_span_record("f\u{0}1\u{0}text").is_none());
    assert!(parse_span_record("f\u{0}x\u{0}2\u{0}text").is_none());
    assert!(parse_span_record("f\u{0}1\u{0}x\u{0}text").is_none());
    assert!(parse_span_record("f\u{0}1\u{0}\u{0}text").is_none());
    assert!(parse_span_record("f\u{0}\u{0}1\u{0}text").is_none());
}
