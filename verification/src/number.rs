//! Base-10 integers and literal booleans, as the fields of a record write
//! them.
//!
//! A numeral is an optional sign and at least one decimal digit, with
//! nothing before or after: no white space, no separators. Unsigned fields
//! take `+` only. A value outside the range of its field is an error, like
//! a malformed numeral.
use crate::parser::ParserError;
use vstd::prelude::*;
use vstd::string::*;
use vstd::utf8::*;

verus! {

/// Whether `c` is one of `0` to `9`.
pub open spec fn is_digit(c: char) -> bool {
    '0' <= c <= '9'
}

/// The value of the digit `c`.
pub open spec fn digit(c: char) -> int {
    c as int - '0' as int
}

/// Whether `text` holds decimal digits only.
pub open spec fn all_digits(text: Seq<char>) -> bool {
    forall|i: int| 0 <= i < text.len() ==> is_digit(#[trigger] text[i])
}

/// The number that a run of decimal digits writes, most significant first.
pub open spec fn digits_value(digits: Seq<char>) -> int
    decreases digits.len(),
{
    if digits.len() == 0 {
        0
    } else {
        digits_value(digits.drop_last()) * 10 + digit(digits.last())
    }
}

/// The number that a numeral without sign writes, if it is one.
pub open spec fn magnitude(digits: Seq<char>) -> Option<int> {
    if digits.len() > 0 && all_digits(digits) {
        Some(digits_value(digits))
    } else {
        None
    }
}

/// The number that `text` writes, if it is a numeral. A leading `-` is
/// taken only where `signed` holds.
pub open spec fn decimal(text: Seq<char>, signed: bool) -> Option<int> {
    if text.len() > 0 && text[0] == '+' {
        magnitude(text.drop_first())
    } else if signed && text.len() > 0 && text[0] == '-' {
        match magnitude(text.drop_first()) {
            Some(value) => Some(-value),
            None => None,
        }
    } else {
        magnitude(text)
    }
}

/// The number that `text` writes, if it is a numeral between `min` and
/// `max`.
pub open spec fn integer(text: Seq<char>, signed: bool, min: int, max: int) -> Result<
    int,
    ParserError,
> {
    match decimal(text, signed) {
        Some(value) => if min <= value <= max {
            Ok(value)
        } else {
            Err(ParserError::ParseInt)
        },
        None => Err(ParserError::ParseInt),
    }
}

/// The `u32` that `text` writes.
pub open spec fn u32_of(text: Seq<char>) -> Result<u32, ParserError> {
    match integer(text, false, 0, u32::MAX as int) {
        Ok(value) => Ok(value as u32),
        Err(error) => Err(error),
    }
}

/// The `u16` that `text` writes.
pub open spec fn u16_of(text: Seq<char>) -> Result<u16, ParserError> {
    match integer(text, false, 0, u16::MAX as int) {
        Ok(value) => Ok(value as u16),
        Err(error) => Err(error),
    }
}

/// The `u8` that `text` writes.
pub open spec fn u8_of(text: Seq<char>) -> Result<u8, ParserError> {
    match integer(text, false, 0, u8::MAX as int) {
        Ok(value) => Ok(value as u8),
        Err(error) => Err(error),
    }
}

/// The `i16` that `text` writes.
pub open spec fn i16_of(text: Seq<char>) -> Result<i16, ParserError> {
    match integer(text, true, i16::MIN as int, i16::MAX as int) {
        Ok(value) => Ok(value as i16),
        Err(error) => Err(error),
    }
}

/// The boolean that `text` writes: `true` or `false`, letter for letter.
pub open spec fn bool_of(text: Seq<char>) -> Result<bool, ParserError> {
    if text == "true"@ {
        Ok(true)
    } else if text == "false"@ {
        Ok(false)
    } else {
        Err(ParserError::ParseBool)
    }
}

/// A run of digits writes a number that is not negative.
pub proof fn lemma_digits_value_nonnegative(digits: Seq<char>)
    requires
        all_digits(digits),
    ensures
        digits_value(digits) >= 0,
    decreases digits.len(),
{
    if digits.len() > 0 {
        assert(is_digit(digits[digits.len() - 1]));
        lemma_digits_value_nonnegative(digits.drop_last());
    }
}

/// A run of digits writes at least what any of its prefixes writes.
pub proof fn lemma_digits_value_prefix(digits: Seq<char>, len: int)
    requires
        all_digits(digits),
        0 <= len <= digits.len(),
    ensures
        digits_value(digits.take(len)) <= digits_value(digits),
    decreases digits.len(),
{
    if len == digits.len() {
        assert(digits.take(len) =~= digits);
    } else {
        let shorter = digits.drop_last();
        assert(is_digit(digits[digits.len() - 1]));
        lemma_digits_value_prefix(shorter, len);
        lemma_digits_value_nonnegative(shorter);
        assert(shorter.take(len) =~= digits.take(len));
    }
}

/// A text with a character beyond ASCII is no numeral.
pub proof fn lemma_numeral_is_ascii(text: Seq<char>, signed: bool)
    requires
        decimal(text, signed) is Some,
    ensures
        is_ascii_chars(text),
{
    assert forall|i: int| 0 <= i < text.len() implies '\0' <= #[trigger] text[i] <= '\u{7f}' by {
        if text[0] == '+' || (signed && text[0] == '-') {
            if i > 0 {
                assert(is_digit(text.drop_first()[i - 1]));
            }
        } else {
            assert(is_digit(text[i]));
        }
    }
}

/// The integer that `text` writes, where it lies between `min` and `max`.
#[verifier::loop_isolation(false)]
fn parse_integer(text: &str, signed: bool, min: i64, max: i64) -> (result: Result<
    i64,
    ParserError,
>)
    requires
        -0x1_0000_0000 <= min <= 0 <= max <= 0x1_0000_0000,
    ensures
        match integer(text@, signed, min as int, max as int) {
            Ok(value) => result == Ok::<i64, ParserError>(value as i64),
            Err(error) => result == Err::<i64, ParserError>(error),
        },
{
    broadcast use is_ascii_spec_bytes;

    if !text.is_ascii() {
        proof {
            if decimal(text@, signed) is Some {
                lemma_numeral_is_ascii(text@, signed);
            }
        }
        return Err(ParserError::ParseInt);
    }
    let bytes = text.as_bytes();
    let len = bytes.len();
    assert(len == text@.len());
    assert(forall|k: int| 0 <= k < len ==> bytes[k] == #[trigger] text@[k] as u8);
    let negative = signed && len > 0 && bytes[0] == 45u8;
    let start: usize = if len > 0 && (bytes[0] == 43u8 || negative) {
        1
    } else {
        0
    };
    let ghost body = text@.subrange(start as int, len as int);
    proof {
        if start == 1 {
            assert(body =~= text@.drop_first());
        } else {
            assert(body =~= text@);
        }
        assert(decimal(text@, signed) == match magnitude(body) {
            Some(value) => Some(
                if negative {
                    -value
                } else {
                    value
                },
            ),
            None => None,
        });
    }
    if start == len {
        return Err(ParserError::ParseInt);
    }
    let mut value: i64 = 0;
    let mut i: usize = start;
    while i < len
        invariant
            start <= i <= len,
            len == bytes.len(),
            len == text@.len(),
            body == text@.subrange(start as int, len as int),
            is_ascii_chars(text@),
            forall|k: int| 0 <= k < len ==> bytes[k] == #[trigger] text@[k] as u8,
            all_digits(body.take(i - start)),
            value == digits_value(body.take(i - start)),
            0 <= value <= 0x1_0000_0000,
        decreases len - i,
    {
        let byte = bytes[i];
        let ghost c = text@[i as int];
        assert(c == body[i - start]);
        assert('\0' <= c <= '\u{7f}');
        if byte < 48u8 || byte > 57u8 {
            assert(!is_digit(c));
            return Err(ParserError::ParseInt);
        }
        assert(is_digit(c));
        assert(digit(c) == byte - 48);
        let ghost seen = body.take(i - start + 1);
        proof {
            assert(seen.drop_last() =~= body.take(i - start));
            assert(seen.last() == c);
            assert forall|k: int| 0 <= k < seen.len() implies is_digit(#[trigger] seen[k]) by {
                if k < i - start {
                    assert(seen[k] == body.take(i - start)[k]);
                }
            }
        }
        value = value * 10 + (byte - 48u8) as i64;
        assert(value == digits_value(seen));
        if value > 0x1_0000_0000 {
            proof {
                if all_digits(body) {
                    lemma_digits_value_prefix(body, i - start + 1);
                }
            }
            return Err(ParserError::ParseInt);
        }
        i += 1;
    }
    assert(body.take(i - start) =~= body);
    let signed_value: i64 = if negative {
        -value
    } else {
        value
    };
    if signed_value < min || signed_value > max {
        Err(ParserError::ParseInt)
    } else {
        Ok(signed_value)
    }
}

/// Reads a `u32` field.
pub fn parse_u32(text: &str) -> (result: Result<u32, ParserError>)
    ensures
        result == u32_of(text@),
{
    match parse_integer(text, false, 0, 0xffff_ffff) {
        Ok(value) => Ok(value as u32),
        Err(error) => Err(error),
    }
}

/// Reads a `u16` field.
pub fn parse_u16(text: &str) -> (result: Result<u16, ParserError>)
    ensures
        result == u16_of(text@),
{
    match parse_integer(text, false, 0, 0xffff) {
        Ok(value) => Ok(value as u16),
        Err(error) => Err(error),
    }
}

/// Reads a `u8` field.
pub fn parse_u8(text: &str) -> (result: Result<u8, ParserError>)
    ensures
        result == u8_of(text@),
{
    match parse_integer(text, false, 0, 0xff) {
        Ok(value) => Ok(value as u8),
        Err(error) => Err(error),
    }
}

/// Reads an `i16` field.
pub fn parse_i16(text: &str) -> (result: Result<i16, ParserError>)
    ensures
        result == i16_of(text@),
{
    match parse_integer(text, true, -0x8000, 0x7fff) {
        Ok(value) => Ok(value as i16),
        Err(error) => Err(error),
    }
}

/// Reads a boolean field.
pub fn parse_bool(text: &str) -> (result: Result<bool, ParserError>)
    ensures
        result == bool_of(text@),
{
    if crate::token::str_eq(text, "true") {
        Ok(true)
    } else if crate::token::str_eq(text, "false") {
        Ok(false)
    } else {
        Err(ParserError::ParseBool)
    }
}

} // verus!
