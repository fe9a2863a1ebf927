//! Errors answered to API requests.

use vstd::prelude::*;
use vstd::string::StringExecFns;

verus! {

broadcast use vstd::string::group_string_axioms;

/// An error answered to a request: a machine-readable code and a message.
#[derive(Clone, Debug, PartialEq, Eq)]
pub struct ApiError {
    pub code: String,
    pub message: String,
}

/// An error with the given code and message.
pub open spec fn api_error(e: ApiError, code: Seq<char>, message: Seq<char>) -> bool {
    e.code@ == code && e.message@ == message
}

/// `r` is the error with the given code and message.
pub open spec fn fails_with<T>(r: Result<T, ApiError>, code: Seq<char>, message: Seq<char>) -> bool {
    r matches Err(e) && api_error(e, code, message)
}

/// Build an error from its code and message.
pub fn error_of(code: &str, message: String) -> (e: ApiError)
    ensures
        api_error(e, code@, message@),
{
    ApiError { code: String::from_str(code), message }
}

} // verus!
