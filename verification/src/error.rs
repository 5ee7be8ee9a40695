//! The errors that requests end in, with the HTTP status and the message
//! that a client is answered with.
use vstd::prelude::*;
use crate::numbers::IntErrorKind;

verus! {

/// Why a request failed. Each variant keeps the message of the failure
/// that caused it, as its `Display` text.
#[derive(Debug)]
pub enum ApiError {
    DbError(String),
    IoError(String),
    UuidError(String),
    SerdeError(String),
    CraftpingError(String),
    ParseIntError(IntErrorKind),
    ParseFloatError(String),
    PoisonError(),
    ChronoParseError(String),
    NoneValue(&'static str),
}

/// The HTTP status of an error: 404 for a missing value, 500 otherwise.
pub open spec fn spec_code(e: ApiError) -> u16 {
    match e {
        ApiError::NoneValue(_) => 404,
        _ => 500,
    }
}

/// The message of `std::num::ParseIntError` for each kind.
pub open spec fn int_error_text(k: IntErrorKind) -> Seq<char> {
    match k {
        IntErrorKind::Empty => "cannot parse integer from empty string"@,
        IntErrorKind::InvalidDigit => "invalid digit found in string"@,
        IntErrorKind::PosOverflow => "number too large to fit in target type"@,
        IntErrorKind::NegOverflow => "number too small to fit in target type"@,
    }
}

/// The message a client reads for an error.
pub open spec fn spec_message(e: ApiError) -> Seq<char> {
    match e {
        ApiError::DbError(m) => "DbError: "@ + m@,
        ApiError::IoError(m) => "IoError: "@ + m@,
        ApiError::UuidError(m) => "UuidError: "@ + m@,
        ApiError::SerdeError(m) => "SerdeError: "@ + m@,
        ApiError::CraftpingError(m) => "CraftpingError: "@ + m@,
        ApiError::ParseIntError(k) => "ParseIntError: "@ + int_error_text(k),
        ApiError::ParseFloatError(m) => "ParseFloatError: "@ + m@,
        ApiError::PoisonError() => "Poison Error"@,
        ApiError::ChronoParseError(m) => "ChronoParseError: "@ + m@,
        ApiError::NoneValue(what) => what@ + " returned None"@,
    }
}

/// The message of a `ParseIntError` of the given kind.
pub fn int_error_message(k: IntErrorKind) -> (s: String)
    ensures
        s@ == int_error_text(k),
{
    match k {
        IntErrorKind::Empty => String::from_str("cannot parse integer from empty string"),
        IntErrorKind::InvalidDigit => String::from_str("invalid digit found in string"),
        IntErrorKind::PosOverflow => String::from_str("number too large to fit in target type"),
        IntErrorKind::NegOverflow => String::from_str("number too small to fit in target type"),
    }
}

fn prefixed(prefix: &str, rest: &str) -> (s: String)
    ensures
        s@ == prefix@ + rest@,
{
    let mut s = String::from_str(prefix);
    s.append(rest);
    s
}

impl ApiError {
    /// The HTTP status code of this error.
    pub fn code(&self) -> (c: u16)
        ensures
            c == spec_code(*self),
    {
        match self {
            ApiError::NoneValue(_) => 404,
            _ => 500,
        }
    }

    /// The message of this error (its `Display` text).
    pub fn message(&self) -> (s: String)
        ensures
            s@ == spec_message(*self),
    {
        match self {
            ApiError::DbError(m) => prefixed("DbError: ", m.as_str()),
            ApiError::IoError(m) => prefixed("IoError: ", m.as_str()),
            ApiError::UuidError(m) => prefixed("UuidError: ", m.as_str()),
            ApiError::SerdeError(m) => prefixed("SerdeError: ", m.as_str()),
            ApiError::CraftpingError(m) => prefixed("CraftpingError: ", m.as_str()),
            ApiError::ParseIntError(k) => {
                let text = int_error_message(*k);
                prefixed("ParseIntError: ", text.as_str())
            },
            ApiError::ParseFloatError(m) => prefixed("ParseFloatError: ", m.as_str()),
            ApiError::PoisonError() => String::from_str("Poison Error"),
            ApiError::ChronoParseError(m) => prefixed("ChronoParseError: ", m.as_str()),
            ApiError::NoneValue(what) => prefixed(what, " returned None"),
        }
    }
}

} // verus!
