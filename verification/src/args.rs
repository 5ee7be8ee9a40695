//! Positional arguments of commands: a command carries its arguments as a
//! list of words, and a handler reads them by position.
use vstd::prelude::*;
use crate::error::ApiError;
use crate::numbers::{parse_i32, spec_parse_i32, IntErrorKind};
use crate::text::views;

verus! {

/// The integer at position `i`: `None` when there is no such argument,
/// else what `parse::<i32>` gives for it.
pub open spec fn arg_int(args: Seq<Seq<char>>, i: int) -> Option<Result<int, IntErrorKind>> {
    if 0 <= i < args.len() {
        Some(spec_parse_i32(args[i]))
    } else {
        None
    }
}

/// The error of reading an integer at position `i`, if reading fails:
/// a missing argument names `what`, a bad one keeps the parse error.
pub open spec fn int_arg_error(args: Seq<Seq<char>>, i: int, what: &'static str) -> Option<ApiError> {
    match arg_int(args, i) {
        None => Some(ApiError::NoneValue(what)),
        Some(Err(k)) => Some(ApiError::ParseIntError(k)),
        Some(Ok(_)) => None,
    }
}

/// The argument at position `i`, or `NoneValue(what)` when there is none
/// (`args.get(i).ok_or(ApiError::NoneValue(what))`).
pub fn required_arg(args: &Vec<String>, i: usize, what: &'static str) -> (r: Result<String, ApiError>)
    ensures
        i < args@.len() ==> (r matches Ok(s) && s@ == args@[i as int]@),
        i >= args@.len() ==> r == Err::<String, ApiError>(ApiError::NoneValue(what)),
{
    if i < args.len() {
        Ok(args[i].clone())
    } else {
        Err(ApiError::NoneValue(what))
    }
}

/// The integer argument at position `i`: `NoneValue(what)` when missing,
/// `ParseIntError` when it is not an `i32`.
pub fn int_arg(args: &Vec<String>, i: usize, what: &'static str) -> (r: Result<i32, ApiError>)
    ensures
        match r {
            Ok(v) => arg_int(views(args@), i as int) == Some(Ok::<int, IntErrorKind>(v as int)),
            Err(e) => int_arg_error(views(args@), i as int, what) == Some(e),
        },
{
    if i < args.len() {
        match parse_i32(args[i].as_str()) {
            Ok(v) => Ok(v),
            Err(k) => Err(ApiError::ParseIntError(k)),
        }
    } else {
        Err(ApiError::NoneValue(what))
    }
}

} // verus!
