//! Building the pieces of text that the screens show: decimal numbers,
//! padding, runs of one character and parts of a line.

use vstd::prelude::*;

verus! {

/// Taken on trust of `String::push` of the standard library: it appends the
/// character to the end of the string.
pub assume_specification[ String::push ](s: &mut String, c: char)
    ensures
        final(s)@ == old(s)@.push(c),
;

/// Taken on trust of `String::pop` of the standard library: it removes the
/// last character and returns it, or returns `None` and leaves the string as
/// it is where the string is empty.
pub assume_specification[ String::pop ](s: &mut String) -> (last: Option<char>)
    ensures
        old(s)@.len() == 0 ==> last is None && final(s)@ == old(s)@,
        old(s)@.len() > 0 ==> last == Some(old(s)@.last()) && final(s)@ == old(s)@.drop_last(),
;

/// The character of the decimal digit `d`.
pub open spec fn digit_char(d: int) -> char
    recommends
        0 <= d < 10,
{
    ((48 + d) as u8) as char
}

/// The decimal numeral of `n`, without leading zeros.
pub open spec fn decimal(n: nat) -> Seq<char>
    decreases n,
{
    if n < 10 {
        seq![digit_char(n as int)]
    } else {
        decimal(n / 10).push(digit_char((n % 10) as int))
    }
}

/// `count` times the character `c`.
pub open spec fn repeated(c: char, count: nat) -> Seq<char> {
    Seq::new(count, |i: int| c)
}

/// `text` with spaces put before it until it has `width` characters; a text
/// that is as long or longer stays as it is.
pub open spec fn right_justified(text: Seq<char>, width: nat) -> Seq<char> {
    if text.len() >= width {
        text
    } else {
        repeated(' ', (width - text.len()) as nat) + text
    }
}

/// The part of `text` that skipping `offset` characters and then taking
/// `count` characters leaves; both stop at the end of the text.
pub open spec fn span_of(text: Seq<char>, offset: nat, count: nat) -> Seq<char> {
    let start = if offset < text.len() { offset } else { text.len() };
    let end = if start + count < text.len() { start + count } else { text.len() };
    text.subrange(start as int, end as int)
}

/// Whether `c` is a control code: a code point of the general category Cc,
/// which is U+0000 to U+001F and U+007F to U+009F.
pub open spec fn is_control_code(c: char) -> bool {
    (c as u32) <= 0x1f || (0x7f <= (c as u32) <= 0x9f)
}

/// Whether `c` is a control code.
pub fn is_control(c: char) -> (control: bool)
    ensures
        control == is_control_code(c),
{
    let code = c as u32;
    code <= 0x1f || (0x7f <= code && code <= 0x9f)
}

/// The characters of `text`, one by one.
pub fn chars_of(text: &str) -> (chars: Vec<char>)
    ensures
        chars@ == text@,
{
    let mut chars: Vec<char> = Vec::new();
    for c in it: text.chars()
        invariant
            it.seq() == text@,
            chars@ == it.seq().take(it.index() as int),
    {
        chars.push(c);
    }
    assert(chars@ =~= text@);
    chars
}

/// Appends the decimal numeral of `n` to `out`.
pub fn push_decimal(out: &mut String, n: u128)
    ensures
        final(out)@ == old(out)@ + decimal(n as nat),
    decreases n,
{
    if n >= 10 {
        push_decimal(out, n / 10);
    }
    let digit = (n % 10) as u8;
    out.push((48 + digit) as char);
    assert(out@ =~= old(out)@ + decimal(n as nat));
}

/// The number of digits of the decimal numeral of `n`.
pub fn decimal_width(n: usize) -> (width: usize)
    ensures
        width == decimal(n as nat).len(),
        1 <= width <= n + 1,
    decreases n,
{
    if n < 10 {
        1
    } else {
        decimal_width(n / 10) + 1
    }
}

/// Appends `count` times the character `c` to `out`.
pub fn push_repeated(out: &mut String, c: char, count: usize)
    ensures
        final(out)@ == old(out)@ + repeated(c, count as nat),
{
    let mut i: usize = 0;
    while i < count
        invariant
            i <= count,
            out@ == old(out)@ + repeated(c, i as nat),
        decreases count - i,
    {
        out.push(c);
        i += 1;
        assert(out@ =~= old(out)@ + repeated(c, i as nat));
    }
}

/// Appends the decimal numeral of `n` to `out`, with spaces before it so that
/// it takes at least `width` characters.
pub fn push_right_justified(out: &mut String, n: u128, width: usize)
    ensures
        final(out)@ == old(out)@ + right_justified(decimal(n as nat), width as nat),
{
    let mut numeral = String::new();
    push_decimal(&mut numeral, n);
    let len = numeral.as_str().unicode_len();
    if len < width {
        push_repeated(out, ' ', width - len);
    }
    out.append(numeral.as_str());
    assert(final(out)@ =~= old(out)@ + right_justified(decimal(n as nat), width as nat));
}

/// The characters of `text` from `offset` on, at most `count` of them.
pub fn span_string(text: &Vec<char>, offset: usize, count: usize) -> (span: String)
    ensures
        span@ == span_of(text@, offset as nat, count as nat),
{
    let len = text.len();
    let start = if offset < len { offset } else { len };
    let end = if count < len - start { start + count } else { len };
    let mut span = String::new();
    let mut i: usize = start;
    while i < end
        invariant
            start <= i <= end <= len,
            len == text.len(),
            span@ == text@.subrange(start as int, i as int),
        decreases end - i,
    {
        span.push(text[i]);
        i += 1;
        assert(span@ =~= text@.subrange(start as int, i as int));
    }
    span
}

} // verus!
