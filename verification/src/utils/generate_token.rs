//! Random tokens for new accounts.
use vstd::prelude::*;
use crate::utils::token::{create, is_token};

verus! {

/// A random token of `length` characters drawn from letters and digits,
/// plus punctuation when `use_special_chars` is `Some(true)`.
pub fn make_token(length: i32, use_special_chars: Option<bool>) -> (t: String)
    ensures
        is_token(t@, length, use_special_chars),
{
    create(length, use_special_chars)
}

} // verus!
