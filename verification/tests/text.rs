use grepview::text::{
    chars_of, decimal_width, is_control, push_decimal, push_repeated, push_right_justified,
    span_string,
};

fn decimal(n: u128) -> String {
    let mut out = String::new();
    push_decimal(&mut out, n);
    out
}

fn justified(n: u128, width: usize) -> String {
    let mut out = String::new();
    push_right_justified(&mut out, n, width);
    out
}

fn span(text: &str, offset: usize, count: usize) -> String {
    span_string(&chars_of(text), offset, count)
}

#[test]
fn decimal_of_small_numbers() {
    assert_eq!(decimal(0), "0");
    assert_eq!(decimal(7), "7");
    assert_eq!(decimal(10), "10");
    assert_eq!(decimal(12345), "12345");
    assert_eq!(decimal(1000000), "1000000");
}

#[test]
fn decimal_of_largest_number() {
    assert_eq!(decimal(u128::MAX), "340282366920938463463374607431768211455");
    assert_eq!(decimal(u64::MAX as u128), u64::MAX.to_string());
}

#[test]
fn decimal_is_appended() {
    let mut out = String::from("n=");
    push_decimal(&mut out, 42);
    assert_eq!(out, "n=42");
}

#[test]
fn repeated_character() {
    let mut out = String::from("<");
    push_repeated(&mut out, '-', 4);
    assert_eq!(out, "<----");
    push_repeated(&mut out, 'x', 0);
    assert_eq!(out, "<----");
}

#[test]
fn right_justified_pads_with_spaces() {
    assert_eq!(justified(7, 3), "  7");
    assert_eq!(justified(123, 3), "123");
    assert_eq!(justified(1234, 3), "1234");
    assert_eq!(justified(5, 0), "5");
    assert_eq!(justified(0, 2), " 0");
}

#[test]
fn right_justified_agrees_with_formatting() {
    for n in [0u128, 9, 10, 99, 100, 54321] {
        for width in 0..8 {
            assert_eq!(justified(n, width), format!("{:>width$}", n, width = width));
        }
    }
}

#[test]
fn span_skips_then_takes() {
    assert_eq!(span("hello world", 6, 5), "world");
    assert_eq!(span("hello", 0, 2), "he");
    assert_eq!(span("hello", 1, 0), "");
}

#[test]
fn span_stops_at_the_end() {
    assert_eq!(span("hello", 3, 10), "lo");
    assert_eq!(span("hello", 5, 1), "");
    assert_eq!(span("hello", 9, 1), "");
    assert_eq!(span("hello", usize::MAX, usize::MAX), "");
    assert_eq!(span("hello", 1, usize::MAX), "ello");
    assert_eq!(span("", 0, 3), "");
}

#[test]
fn span_counts_characters() {
    assert_eq!(span("añb€c", 1, 3), "ñb€");
}

#[test]
fn span_agrees_with_skip_and_take() {
    let text = "abcdef";
    for offset in 0..9 {
        for count in 0..9 {
            let expected: String = text.chars().skip(offset).take(count).collect();
            assert_eq!(span(text, offset, count), expected);
        }
    }
}

#[test]
fn chars_of_text() {
    assert_eq!(chars_of("aé"), vec!['a', 'é']);
    assert_eq!(chars_of(""), Vec::<char>::new());
}

#[test]
fn control_codes() {
    assert!(is_control('\u{0}'));
    assert!(is_control('\n'));
    assert!(is_control('\u{1f}'));
    assert!(!is_control(' '));
    assert!(!is_control('q'));
    assert!(!is_control('~'));
    assert!(is_control('\u{7f}'));
    assert!(is_control('\u{9c}'));
    assert!(is_control('\u{9f}'));
    assert!(!is_control('\u{a0}'));
    assert!(!is_control('日'));
}

#[test]
fn control_codes_are_those_of_the_standard_library() {
    for code in 0..=0x10ffffu32 {
        if let Some(c) = char::from_u32(code) {
            assert_eq!(is_control(c), c.is_control(), "U+{:04X}", code);
        }
    }
}

#[test]
fn decimal_width_counts_digits() {
    assert_eq!(decimal_width(0), 1);
    assert_eq!(decimal_width(9), 1);
    assert_eq!(decimal_width(10), 2);
    assert_eq!(decimal_width(99), 2);
    assert_eq!(decimal_width(100), 3);
    assert_eq!(decimal_width(usize::MAX), usize::MAX.to_string().len());
    for n in 0..2000usize {
        assert_eq!(decimal_width(n), n.to_string().len());
    }
}
