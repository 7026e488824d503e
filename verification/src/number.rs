//! Decimal numbers as they are written in port and status fields.

use vstd::prelude::*;
use vstd::string::*;
use crate::text::chars_of;

verus! {

/// Why a text is not the decimal form of a number in range.
#[derive(Clone, Copy, Debug, PartialEq, Eq, Structural)]
pub enum NumberError {
    /// The text is empty.
    Empty,
    /// A character is not a decimal digit, or a sign stands alone.
    InvalidDigit,
    /// The digits read so far already exceed the largest value.
    Overflow,
}

/// True for the ten decimal digits of ASCII.
pub open spec fn is_digit(c: char) -> bool {
    '0' <= c && c <= '9'
}

/// The value of a decimal digit.
pub open spec fn digit_value(c: char) -> int {
    c as int - '0' as int
}

/// Reads `digits` from the left onto `acc`. The first character that is not a
/// digit, or the first digit that carries the value over `max`, ends the
/// reading with the matching error.
pub open spec fn accumulate(digits: Seq<char>, acc: int, max: int) -> Result<int, NumberError>
    decreases digits.len(),
{
    if digits.len() == 0 {
        Ok(acc)
    } else if !is_digit(digits[0]) {
        Err(NumberError::InvalidDigit)
    } else if acc * 10 + digit_value(digits[0]) > max {
        Err(NumberError::Overflow)
    } else {
        accumulate(digits.drop_first(), acc * 10 + digit_value(digits[0]), max)
    }
}

/// The digits of `text`: what follows one leading `+`, or the whole text.
pub open spec fn unsigned_digits(text: Seq<char>) -> Seq<char> {
    if text.len() > 0 && text[0] == '+' {
        text.drop_first()
    } else {
        text
    }
}

/// The number that `text` denotes: an optional `+`, then one or more decimal
/// digits whose value is at most `max`.
pub open spec fn decimal(text: Seq<char>, max: int) -> Result<int, NumberError> {
    if text.len() == 0 {
        Err(NumberError::Empty)
    } else if unsigned_digits(text).len() == 0 {
        Err(NumberError::InvalidDigit)
    } else {
        accumulate(unsigned_digits(text), 0, max)
    }
}

/// The 16-bit number that `text` denotes.
pub open spec fn decimal_u16(text: Seq<char>) -> Result<u16, NumberError> {
    match decimal(text, u16::MAX as int) {
        Ok(n) => Ok(n as u16),
        Err(e) => Err(e),
    }
}

/// Parses the characters `text[from..to]` as a 16-bit decimal number.
pub fn parse_u16_range(text: &Vec<char>, from: usize, to: usize) -> (r: Result<u16, NumberError>)
    requires
        from <= to <= text.len(),
    ensures
        r == decimal_u16(text@.subrange(from as int, to as int)),
{
    let ghost field = text@.subrange(from as int, to as int);
    if from == to {
        return Err(NumberError::Empty);
    }
    let mut i: usize = from;
    if text[from] == '+' {
        i = from + 1;
        if i == to {
            return Err(NumberError::InvalidDigit);
        }
    }
    assert(unsigned_digits(field) =~= text@.subrange(i as int, to as int));
    let mut acc: u16 = 0;
    while i < to
        invariant
            from <= i <= to <= text.len(),
            field == text@.subrange(from as int, to as int),
            accumulate(text@.subrange(i as int, to as int), acc as int, u16::MAX as int)
                == decimal(field, u16::MAX as int),
        decreases to - i,
    {
        let c = text[i];
        let ghost rest = text@.subrange(i as int, to as int);
        assert(rest[0] == c);
        assert(rest.drop_first() =~= text@.subrange(i + 1, to as int));
        if c < '0' || c > '9' {
            return Err(NumberError::InvalidDigit);
        }
        let d: u16 = (c as u32 - '0' as u32) as u16;
        if acc > 6553 || (acc == 6553 && d > 5) {
            return Err(NumberError::Overflow);
        }
        acc = acc * 10 + d;
        i = i + 1;
    }
    Ok(acc)
}

/// Parses `text` as a 16-bit decimal number.
pub fn parse_u16(text: &str) -> (r: Result<u16, NumberError>)
    ensures
        r == decimal_u16(text@),
{
    let chars = chars_of(text);
    assert(chars@.subrange(0, chars@.len() as int) =~= chars@);
    parse_u16_range(&chars, 0, chars.len())
}

/// The digit that stands for `d`, for `d` below ten.
pub open spec fn digit_char(d: int) -> char {
    (d + 48) as u8 as char
}

/// The decimal form of `n`: its digits, the highest first, with no sign and
/// no leading zero.
pub open spec fn decimal_text(n: nat) -> Seq<char>
    decreases n,
{
    if n < 10 {
        seq![digit_char(n as int)]
    } else {
        decimal_text(n / 10).push(digit_char((n % 10) as int))
    }
}

fn digit_str(d: u16) -> (text: &'static str)
    requires
        d < 10,
    ensures
        text@ == seq![digit_char(d as int)],
{
    let text = match d {
        0 => "0",
        1 => "1",
        2 => "2",
        3 => "3",
        4 => "4",
        5 => "5",
        6 => "6",
        7 => "7",
        8 => "8",
        _ => "9",
    };
    proof {
        reveal_strlit("0");
        reveal_strlit("1");
        reveal_strlit("2");
        reveal_strlit("3");
        reveal_strlit("4");
        reveal_strlit("5");
        reveal_strlit("6");
        reveal_strlit("7");
        reveal_strlit("8");
        reveal_strlit("9");
        assert(text@ =~= seq![digit_char(d as int)]);
    }
    text
}

/// Writes `n` in decimal.
pub fn format_u16(n: u16) -> (text: String)
    ensures
        text@ == decimal_text(n as nat),
    decreases n,
{
    if n < 10 {
        String::from_str(digit_str(n))
    } else {
        let mut text = format_u16(n / 10);
        text.append(digit_str(n % 10));
        assert(text@ =~= decimal_text(n as nat));
        text
    }
}

/// Reading one more digit at the end multiplies what was read by ten and adds
/// the digit.
proof fn lemma_accumulate_push(digits: Seq<char>, c: char, acc: int, max: int)
    requires
        is_digit(c),
    ensures
        accumulate(digits.push(c), acc, max) == match accumulate(digits, acc, max) {
            Err(e) => Err::<int, NumberError>(e),
            Ok(v) => if v * 10 + digit_value(c) > max {
                Err(NumberError::Overflow)
            } else {
                Ok(v * 10 + digit_value(c))
            },
        },
    decreases digits.len(),
{
    let longer = digits.push(c);
    if digits.len() == 0 {
        assert(longer.drop_first() =~= Seq::<char>::empty());
        assert(accumulate(longer.drop_first(), acc * 10 + digit_value(c), max) == Ok::<
            int,
            NumberError,
        >(acc * 10 + digit_value(c)));
    } else {
        assert(longer[0] == digits[0]);
        assert(longer.drop_first() =~= digits.drop_first().push(c));
        if is_digit(digits[0]) && acc * 10 + digit_value(digits[0]) <= max {
            lemma_accumulate_push(
                digits.drop_first(),
                c,
                acc * 10 + digit_value(digits[0]),
                max,
            );
        }
    }
}

/// What `format_u16` writes, `parse_u16_range` reads back: the decimal form
/// of a number up to `max` denotes that number.
pub proof fn lemma_decimal_round_trip(n: nat, max: int)
    requires
        n <= max,
    ensures
        decimal(decimal_text(n), max) == Ok::<int, NumberError>(n as int),
        decimal_text(n).len() > 0,
        is_digit(decimal_text(n)[0]),
    decreases n,
{
    if n < 10 {
        let text = seq![digit_char(n as int)];
        assert(text.drop_first() =~= Seq::<char>::empty());
        assert(accumulate(text.drop_first(), n as int, max) == Ok::<int, NumberError>(n as int));
    } else {
        lemma_decimal_round_trip(n / 10, max);
        lemma_accumulate_push(decimal_text(n / 10), digit_char((n % 10) as int), 0, max);
    }
}

/// True when every character is a decimal digit.
pub open spec fn all_digits(digits: Seq<char>) -> bool {
    forall|i: int| 0 <= i < digits.len() ==> is_digit(#[trigger] digits[i])
}

/// The number that a row of digits is read as: each digit counts ten times
/// what the digit after it counts.
pub open spec fn digits_value(digits: Seq<char>) -> int
    decreases digits.len(),
{
    if digits.len() == 0 {
        0
    } else {
        digits_value(digits.drop_last()) * 10 + digit_value(digits.last())
    }
}

/// A character that is no digit makes the reading fail, wherever it stands.
proof fn lemma_accumulate_not_digit(digits: Seq<char>, c: char, acc: int, max: int)
    requires
        !is_digit(c),
    ensures
        accumulate(digits.push(c), acc, max) is Err,
    decreases digits.len(),
{
    let longer = digits.push(c);
    if digits.len() > 0 {
        assert(longer[0] == digits[0]);
        assert(longer.drop_first() =~= digits.drop_first().push(c));
        if is_digit(digits[0]) && acc * 10 + digit_value(digits[0]) <= max {
            lemma_accumulate_not_digit(
                digits.drop_first(),
                c,
                acc * 10 + digit_value(digits[0]),
                max,
            );
        }
    }
}

/// Reading from the left gives the value of the digits, and fails exactly
/// when a character is no digit or the value is over `max`.
proof fn lemma_accumulate_value(digits: Seq<char>, max: int)
    requires
        0 <= max,
    ensures
        match accumulate(digits, 0, max) {
            Ok(v) => all_digits(digits) && v == digits_value(digits) && 0 <= v <= max,
            Err(_) => !all_digits(digits) || digits_value(digits) > max,
        },
    decreases digits.len(),
{
    if digits.len() > 0 {
        let init = digits.drop_last();
        let c = digits.last();
        assert(digits =~= init.push(c));
        lemma_accumulate_value(init, max);
        if is_digit(c) {
            lemma_accumulate_push(init, c, 0, max);
            match accumulate(init, 0, max) {
                Ok(v) => {
                    assert forall|i: int| 0 <= i < digits.len() implies is_digit(
                        #[trigger] digits[i],
                    ) by {
                        if i < init.len() {
                            assert(digits[i] == init[i]);
                        }
                    }
                },
                Err(_) => {
                    if all_digits(digits) {
                        assert forall|i: int| 0 <= i < init.len() implies is_digit(
                            #[trigger] init[i],
                        ) by {
                            assert(init[i] == digits[i]);
                        }
                    }
                },
            }
        } else {
            lemma_accumulate_not_digit(init, c, 0, max);
            assert(!is_digit(digits[digits.len() - 1]));
        }
    }
}

/// A text denotes a number exactly when, after one leading `+` at most, it
/// is a row of one or more digits whose value is in range; the number is that
/// value.
pub proof fn lemma_decimal_value(text: Seq<char>, max: int)
    requires
        0 <= max,
    ensures
        decimal(text, max) is Ok <==> unsigned_digits(text).len() > 0 && all_digits(
            unsigned_digits(text),
        ) && digits_value(unsigned_digits(text)) <= max,
        decimal(text, max) matches Ok(v) ==> v == digits_value(unsigned_digits(text)),
{
    lemma_accumulate_value(unsigned_digits(text), max);
}

} // verus!
