use vstd::prelude::*;
use vstd::string::StringExecFns;

verus! {

/// The catalog service's error taxonomy: a store-level failure, a missing
/// row, and a rejected input.
#[derive(Debug, PartialEq)]
pub enum AppError {
    InternalServerError,
    NotFound(String),
    Invalid(String),
}

impl AppError {
    /// The HTTP status code and message body that the error surfaces as:
    /// a persistence failure maps to 500, a missing row to 404, a rejected
    /// input to 400.
    pub fn response_parts(self) -> (r: (u16, String))
        ensures
            self matches AppError::InternalServerError ==> r.0 == 500u16 && r.1@
                == "Internal Server Error"@,
            self matches AppError::NotFound(m) ==> r.0 == 404u16 && r.1@ == m@,
            self matches AppError::Invalid(m) ==> r.0 == 400u16 && r.1@ == m@,
    {
        match self {
            AppError::InternalServerError => (500, String::from_str("Internal Server Error")),
            AppError::NotFound(msg) => (404, msg),
            AppError::Invalid(msg) => (400, msg),
        }
    }
}

} // verus!
