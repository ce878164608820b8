//! Decimal numbers in a text: reading one, writing one, and adding to one in place.

use crate::chars::is_digit;
use vstd::prelude::*;
use vstd::string::*;

verus! {

/// `String::push` appends one character.
pub assume_specification[ String::push ](text: &mut String, c: char)
    ensures
        final(text)@ == old(text)@.push(c),
;

/// The number that a sequence of digits writes.
pub open spec fn digits_value(digits: Seq<char>) -> int
    decreases digits.len(),
{
    if digits.len() == 0 {
        0
    } else {
        digits_value(digits.drop_last()) * 10 + (digits.last() as int - '0' as int)
    }
}

/// `text` is a decimal number: at least one digit, with or without a minus sign before them.
pub open spec fn is_number(text: Seq<char>) -> bool {
    let digits = digits_of(text);
    digits.len() > 0 && forall|i: int| 0 <= i < digits.len() ==> is_digit(#[trigger] digits[i])
}

/// The digits of a number, without its sign.
pub open spec fn digits_of(text: Seq<char>) -> Seq<char> {
    if text.len() > 0 && text[0] == '-' {
        text.skip(1)
    } else {
        text
    }
}

/// The value of a number.
pub open spec fn number_value(text: Seq<char>) -> int {
    if text.len() > 0 && text[0] == '-' {
        -digits_value(text.skip(1))
    } else {
        digits_value(text)
    }
}

/// The digit that stands for `d`.
pub open spec fn digit(d: int) -> char {
    ('0' as int + d) as char
}

/// The shortest sequence of digits that writes `n`.
pub open spec fn decimal(n: int) -> Seq<char>
    decreases n,
{
    if n < 10 {
        seq![digit(n)]
    } else {
        decimal(n / 10).push(digit(n % 10))
    }
}

/// `count` times the digit zero, none where `count` is negative.
pub open spec fn zeros(count: int) -> Seq<char> {
    Seq::new(
        (if count > 0 {
            count
        } else {
            0
        }) as nat,
        |i: int| '0',
    )
}

/// The distance of `value` from zero.
pub open spec fn magnitude(value: int) -> int {
    if value < 0 {
        -value
    } else {
        value
    }
}

/// The number `value`, with zeros before its digits that fill them up to `width`.
pub open spec fn number_text(value: int, width: int) -> Seq<char> {
    let digits = decimal(magnitude(value));
    let sign = if value < 0 {
        seq!['-']
    } else {
        Seq::empty()
    };
    sign + zeros(width - digits.len()) + digits
}

/// `value`, moved into the range of an `i64`.
pub open spec fn saturated(value: int) -> int {
    if value > i64::MAX {
        i64::MAX as int
    } else if value < i64::MIN {
        i64::MIN as int
    } else {
        value
    }
}

/// The width that a number is filled up to: that of a number written with leading zeros.
pub open spec fn fill_width(text: Seq<char>) -> int {
    let digits = digits_of(text);
    if digits.len() > 1 && digits[0] == '0' {
        digits.len() as int
    } else {
        0
    }
}

/// The number `text` with `delta` added, `None` where its value is outside the range of an `i64`.
pub open spec fn bumped(text: Seq<char>, delta: int) -> Option<Seq<char>> {
    if i64::MIN <= number_value(text) <= i64::MAX {
        Some(number_text(saturated(number_value(text) + delta), fill_width(text)))
    } else {
        None
    }
}

/// A longer sequence of digits writes no smaller number.
proof fn lemma_value_grows(digits: Seq<char>, end: int)
    requires
        0 <= end <= digits.len(),
        forall|i: int| 0 <= i < digits.len() ==> is_digit(#[trigger] digits[i]),
    ensures
        0 <= digits_value(digits.take(end)) <= digits_value(digits),
    decreases digits.len(),
{
    if digits.len() == 0 {
        assert(digits.take(end) =~= digits);
    } else if end == digits.len() {
        assert(digits.take(end) =~= digits);
        lemma_value_grows(digits.drop_last(), digits.len() - 1);
        assert(digits.drop_last().take(digits.len() - 1) =~= digits.drop_last());
        assert(is_digit(digits.last()));
    } else {
        lemma_value_grows(digits.drop_last(), end);
        assert(digits.drop_last().take(end) =~= digits.take(end));
        assert(is_digit(digits.last()));
    }
}

/// Reads the number `text`, `None` where its value is outside the range of an `i64`.
pub fn parse_number(text: &[char]) -> (value: Option<i64>)
    requires
        is_number(text@),
    ensures
        match value {
            Some(v) => v == number_value(text@),
            None => !(i64::MIN <= number_value(text@) <= i64::MAX),
        },
{
    let negative: bool = text.len() > 0 && text[0] == '-';
    let from: usize = if negative {
        1
    } else {
        0
    };
    let ghost digits = digits_of(text@);
    let mut magnitude: u128 = 0;
    let mut i: usize = from;
    while i < text.len()
        invariant
            from <= i <= text@.len(),
            digits == text@.skip(from as int),
            forall|j: int| 0 <= j < digits.len() ==> is_digit(#[trigger] digits[j]),
            magnitude == digits_value(digits.take(i - from)),
            magnitude <= 0x8000_0000_0000_0000,
            negative ==> number_value(text@) == -digits_value(digits),
            !negative ==> number_value(text@) == digits_value(digits),
        decreases text@.len() - i,
    {
        proof {
            assert(digits[i - from] == text@[i as int]);
            assert(digits.take(i - from + 1).drop_last() =~= digits.take(i - from));
            assert(digits.take(i - from + 1).last() == digits[i - from]);
            lemma_value_grows(digits, i - from + 1);
        }
        magnitude = magnitude * 10 + (text[i] as u128 - '0' as u128);
        if magnitude > 0x8000_0000_0000_0000 {
            return None;
        }
        i += 1;
    }
    assert(digits.take(i - from) =~= digits);
    if negative {
        Some((-(magnitude as i128)) as i64)
    } else if magnitude <= 0x7fff_ffff_ffff_ffff {
        Some(magnitude as i64)
    } else {
        None
    }
}

/// Appends the digits of `n`.
fn push_decimal(text: &mut String, n: u64)
    ensures
        final(text)@ == old(text)@ + decimal(n as int),
    decreases n,
{
    if n >= 10 {
        push_decimal(text, n / 10);
    }
    let d: u8 = 48 + (n % 10) as u8;
    text.push(d as char);
}

/// Writes `value`, its digits filled up with zeros to `width`.
pub fn write_number(value: i64, width: usize) -> (text: String)
    ensures
        text@ == number_text(value as int, width as int),
{
    let mut text: String = String::new();
    let distance: u64 = if value < 0 {
        text.push('-');
        (-(value as i128)) as u64
    } else {
        value as u64
    };
    let ghost sign = text@;
    let mut digits: String = String::new();
    push_decimal(&mut digits, distance);
    let len: usize = digits.as_str().unicode_len();
    let mut filled: usize = len;
    assert(text@ =~= sign + zeros(0));
    while filled < width
        invariant
            len <= filled,
            filled <= width || filled == len,
            text@ == sign + zeros(filled - len),
        decreases width - filled,
    {
        text.push('0');
        filled += 1;
        assert(zeros(filled - len) =~= zeros(filled - len - 1).push('0'));
        assert(text@ =~= sign + zeros(filled - len));
    }
    text.append(digits.as_str());
    proof {
        assert(zeros(filled - len) =~= zeros(width - len));
        assert(text@ =~= number_text(value as int, width as int));
    }
    text
}

/// Adds `delta` to the number `text`, keeping the width of one written with leading zeros (`007`
/// becomes `008`). `None` where its value is outside the range of an `i64`.
pub fn bump_number(text: &[char], delta: i64) -> (bump: Option<String>)
    requires
        is_number(text@),
    ensures
        match bump {
            Some(new) => bumped(text@, delta as int) == Some(new@),
            None => bumped(text@, delta as int) is None,
        },
{
    let value: i64 = match parse_number(text) {
        Some(value) => value,
        None => return None,
    };
    let new_value: i64 = match value.checked_add(delta) {
        Some(sum) => sum,
        None => if delta > 0 {
            i64::MAX
        } else {
            i64::MIN
        },
    };
    let digit_start: usize = if text[0] == '-' {
        1
    } else {
        0
    };
    let width: usize = text.len() - digit_start;
    let has_leading_zero: bool = width > 1 && text[digit_start] == '0';
    Some(write_number(new_value, if has_leading_zero { width } else { 0 }))
}

} // verus!
