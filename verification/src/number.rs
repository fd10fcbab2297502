//! Decimal integers written as text, and the standard parsers that read
//! them.

use core::num::ParseIntError;
use vstd::prelude::*;
use vstd::string::*;

verus! {

/// `+`, which may lead a number.
pub const PLUS: u8 = 0x2b;

/// `-`, which may lead a number of a signed type.
pub const MINUS: u8 = 0x2d;

/// Whether `b` is one of the digits `0` to `9`.
pub open spec fn is_digit(b: u8) -> bool {
    0x30 <= b <= 0x39
}

/// Whether `text` holds digits only.
pub open spec fn all_digits(text: Seq<u8>) -> bool {
    forall|i: int| 0 <= i < text.len() ==> is_digit(#[trigger] text[i])
}

/// The number that a run of decimal digits denotes.
pub open spec fn digits_value(digits: Seq<u8>) -> nat
    decreases digits.len(),
{
    if digits.len() == 0 {
        0
    } else {
        digits_value(digits.drop_last()) * 10 + (digits.last() - 0x30) as nat
    }
}

/// The integer that `text` denotes: an optional sign, `+` or for a signed
/// type `-`, and then one digit or more, with nothing before, between or
/// after them. `None` for any other text.
pub open spec fn integer_of(text: Seq<u8>, signed: bool) -> Option<int> {
    let negative = signed && text.len() > 0 && text[0] == MINUS;
    let digits = if text.len() > 0 && (text[0] == PLUS || negative) {
        text.skip(1)
    } else {
        text
    };
    if digits.len() > 0 && all_digits(digits) {
        Some(
            if negative {
                -(digits_value(digits) as int)
            } else {
                digits_value(digits) as int
            },
        )
    } else {
        None
    }
}

/// The integer that `text` denotes, if it lies between `min` and `max`.
pub open spec fn integer_within(text: Seq<u8>, signed: bool, min: int, max: int) -> Option<int> {
    match integer_of(text, signed) {
        Some(n) if min <= n <= max => Some(n),
        _ => None,
    }
}

/// The error of the standard integer parsers. Nothing is known of a value
/// of it but that a parser returned it.
#[verifier::external_type_specification]
#[verifier::external_body]
pub struct ExParseIntError(ParseIntError);

/// `str::parse::<usize>`: succeeds exactly on a decimal number, with an
/// optional `+` before it, that fits the type, and returns that number.
#[verifier::external_body]
pub(crate) fn parse_usize(s: &str) -> (r: Result<usize, ParseIntError>)
    ensures
        match r {
            Ok(n) => integer_within(s.spec_bytes(), false, 0, usize::MAX as int) == Some(n as int),
            Err(_) => integer_within(s.spec_bytes(), false, 0, usize::MAX as int) is None,
        },
{
    s.parse::<usize>()
}

/// `str::parse::<u8>`: succeeds exactly on a decimal number, with an
/// optional `+` before it, that fits the type, and returns that number.
#[verifier::external_body]
pub(crate) fn parse_u8(s: &str) -> (r: Result<u8, ParseIntError>)
    ensures
        match r {
            Ok(n) => integer_within(s.spec_bytes(), false, 0, u8::MAX as int) == Some(n as int),
            Err(_) => integer_within(s.spec_bytes(), false, 0, u8::MAX as int) is None,
        },
{
    s.parse::<u8>()
}

/// `str::parse::<u16>`: succeeds exactly on a decimal number, with an
/// optional `+` before it, that fits the type, and returns that number.
#[verifier::external_body]
pub(crate) fn parse_u16(s: &str) -> (r: Result<u16, ParseIntError>)
    ensures
        match r {
            Ok(n) => integer_within(s.spec_bytes(), false, 0, u16::MAX as int) == Some(n as int),
            Err(_) => integer_within(s.spec_bytes(), false, 0, u16::MAX as int) is None,
        },
{
    s.parse::<u16>()
}

/// `str::parse::<u32>`: succeeds exactly on a decimal number, with an
/// optional `+` before it, that fits the type, and returns that number.
#[verifier::external_body]
pub(crate) fn parse_u32(s: &str) -> (r: Result<u32, ParseIntError>)
    ensures
        match r {
            Ok(n) => integer_within(s.spec_bytes(), false, 0, u32::MAX as int) == Some(n as int),
            Err(_) => integer_within(s.spec_bytes(), false, 0, u32::MAX as int) is None,
        },
{
    s.parse::<u32>()
}

/// `str::parse::<u64>`: succeeds exactly on a decimal number, with an
/// optional `+` before it, that fits the type, and returns that number.
#[verifier::external_body]
pub(crate) fn parse_u64(s: &str) -> (r: Result<u64, ParseIntError>)
    ensures
        match r {
            Ok(n) => integer_within(s.spec_bytes(), false, 0, u64::MAX as int) == Some(n as int),
            Err(_) => integer_within(s.spec_bytes(), false, 0, u64::MAX as int) is None,
        },
{
    s.parse::<u64>()
}

/// `str::parse::<i8>`: succeeds exactly on a decimal number, with an
/// optional `+` or `-` before it, that fits the type, and returns that
/// number.
#[verifier::external_body]
pub(crate) fn parse_i8(s: &str) -> (r: Result<i8, ParseIntError>)
    ensures
        match r {
            Ok(n) => integer_within(s.spec_bytes(), true, i8::MIN as int, i8::MAX as int) == Some(
                n as int,
            ),
            Err(_) => integer_within(s.spec_bytes(), true, i8::MIN as int, i8::MAX as int) is None,
        },
{
    s.parse::<i8>()
}

/// `str::parse::<i16>`: succeeds exactly on a decimal number, with an
/// optional `+` or `-` before it, that fits the type, and returns that
/// number.
#[verifier::external_body]
pub(crate) fn parse_i16(s: &str) -> (r: Result<i16, ParseIntError>)
    ensures
        match r {
            Ok(n) => integer_within(s.spec_bytes(), true, i16::MIN as int, i16::MAX as int)
                == Some(n as int),
            Err(_) => integer_within(s.spec_bytes(), true, i16::MIN as int, i16::MAX as int)
                is None,
        },
{
    s.parse::<i16>()
}

/// `str::parse::<i32>`: succeeds exactly on a decimal number, with an
/// optional `+` or `-` before it, that fits the type, and returns that
/// number.
#[verifier::external_body]
pub(crate) fn parse_i32(s: &str) -> (r: Result<i32, ParseIntError>)
    ensures
        match r {
            Ok(n) => integer_within(s.spec_bytes(), true, i32::MIN as int, i32::MAX as int)
                == Some(n as int),
            Err(_) => integer_within(s.spec_bytes(), true, i32::MIN as int, i32::MAX as int)
                is None,
        },
{
    s.parse::<i32>()
}

/// `str::parse::<i64>`: succeeds exactly on a decimal number, with an
/// optional `+` or `-` before it, that fits the type, and returns that
/// number.
#[verifier::external_body]
pub(crate) fn parse_i64(s: &str) -> (r: Result<i64, ParseIntError>)
    ensures
        match r {
            Ok(n) => integer_within(s.spec_bytes(), true, i64::MIN as int, i64::MAX as int)
                == Some(n as int),
            Err(_) => integer_within(s.spec_bytes(), true, i64::MIN as int, i64::MAX as int)
                is None,
        },
{
    s.parse::<i64>()
}

} // verus!
