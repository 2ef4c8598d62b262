//! Reading the value of a command-line flag.
use crate::error::{AppError, AppErrorView};
use crate::text::{IntErrorKind, int_error_str, int_error_text, parse_signed, parse_unsigned, read_signed, read_unsigned, texts};
use vstd::prelude::*;
use vstd::string::*;

verus! {

/// The value after a flag: `values[index]`, or an error naming the flag.
pub open spec fn next_value_spec(values: Seq<Seq<char>>, index: int, flag: Seq<char>) -> Result<
    Seq<char>,
    AppErrorView,
> {
    if 0 <= index < values.len() {
        Ok(values[index])
    } else {
        Err(AppErrorView::Config(flag + " requires a value"@))
    }
}

/// Reading a positive integer no larger than `hi`.
pub open spec fn positive_spec(value: Seq<char>, hi: int) -> Result<int, AppErrorView> {
    match parse_unsigned(value, hi) {
        Err(k) => Err(
            AppErrorView::Config("invalid positive integer "@ + value + ": "@ + int_error_text(k)),
        ),
        Ok(v) => if v == 0 {
            Err(AppErrorView::Config("value must be positive"@))
        } else {
            Ok(v)
        },
    }
}

/// Reading a `u32`.
pub open spec fn non_negative_u32_spec(value: Seq<char>) -> Result<int, AppErrorView> {
    match parse_unsigned(value, u32::MAX as int) {
        Err(k) => Err(
            AppErrorView::Config(
                "invalid non-negative integer "@ + value + ": "@ + int_error_text(k),
            ),
        ),
        Ok(v) => Ok(v),
    }
}

/// Reading a timestamp: an `i64` that is not negative.
pub open spec fn non_negative_i64_spec(value: Seq<char>) -> Result<int, AppErrorView> {
    match parse_signed(value, i64::MIN as int, i64::MAX as int) {
        Err(k) => Err(AppErrorView::Config("invalid timestamp "@ + value + ": "@ + int_error_text(k))),
        Ok(v) => if v < 0 {
            Err(AppErrorView::Config("timestamp must be non-negative"@))
        } else {
            Ok(v)
        },
    }
}

/// The value that follows a flag.
pub fn next_value(values: &[String], index: usize, flag: &str) -> (r: Result<String, AppError>)
    ensures
        match next_value_spec(texts(values@), index as int, flag@) {
            Ok(v) => r matches Ok(s) && s@ == v,
            Err(e) => r matches Err(x) && x@ == e,
        },
{
    if index < values.len() {
        Ok(values[index].clone())
    } else {
        let mut msg = String::from_str(flag);
        msg.append(" requires a value");
        Err(AppError::Config(msg))
    }
}

fn invalid_integer(intro: &str, value: &str, k: IntErrorKind) -> (e: AppError)
    ensures
        e@ == AppErrorView::Config(intro@ + value@ + ": "@ + int_error_text(k)),
{
    let mut msg = String::from_str(intro);
    msg.append(value);
    msg.append(": ");
    msg.append(int_error_str(k));
    AppError::Config(msg)
}

/// Reads a positive `u64`.
pub fn parse_positive_u64(value: &str) -> (r: Result<u64, AppError>)
    ensures
        match positive_spec(value@, u64::MAX as int) {
            Ok(v) => r == Ok::<u64, AppError>(v as u64),
            Err(e) => r matches Err(x) && x@ == e,
        },
{
    match read_unsigned(value, u64::MAX) {
        Err(k) => Err(invalid_integer("invalid positive integer ", value, k)),
        Ok(v) => {
            if v == 0 {
                Err(AppError::Config(String::from_str("value must be positive")))
            } else {
                Ok(v)
            }
        },
    }
}

/// Reads a positive `usize`.
pub fn parse_positive_usize(value: &str) -> (r: Result<usize, AppError>)
    ensures
        match positive_spec(value@, usize::MAX as int) {
            Ok(v) => r == Ok::<usize, AppError>(v as usize),
            Err(e) => r matches Err(x) && x@ == e,
        },
{
    match read_unsigned(value, usize::MAX as u64) {
        Err(k) => Err(invalid_integer("invalid positive integer ", value, k)),
        Ok(v) => {
            if v == 0 {
                Err(AppError::Config(String::from_str("value must be positive")))
            } else {
                Ok(v as usize)
            }
        },
    }
}

/// Reads a `u32`.
pub fn parse_non_negative_u32(value: &str) -> (r: Result<u32, AppError>)
    ensures
        match non_negative_u32_spec(value@) {
            Ok(v) => r == Ok::<u32, AppError>(v as u32),
            Err(e) => r matches Err(x) && x@ == e,
        },
{
    match read_unsigned(value, u32::MAX as u64) {
        Err(k) => Err(invalid_integer("invalid non-negative integer ", value, k)),
        Ok(v) => Ok(v as u32),
    }
}

/// Reads a timestamp in milliseconds: an `i64` that is not negative.
pub fn parse_non_negative_i64(value: &str) -> (r: Result<i64, AppError>)
    ensures
        match non_negative_i64_spec(value@) {
            Ok(v) => r == Ok::<i64, AppError>(v as i64),
            Err(e) => r matches Err(x) && x@ == e,
        },
{
    match read_signed(value, i64::MIN, i64::MAX) {
        Err(k) => Err(invalid_integer("invalid timestamp ", value, k)),
        Ok(v) => {
            if v < 0 {
                Err(AppError::Config(String::from_str("timestamp must be non-negative")))
            } else {
                Ok(v)
            }
        },
    }
}

} // verus!
