use vstd::prelude::*;
use vstd::string::StringExecFns;

verus! {

/// The directory service's error taxonomy, one variant per failure the
/// handlers report.
#[derive(Debug, PartialEq)]
pub enum AppError {
    DatabaseConnectionFailure,
    NoUsersFound,
    UserNotFound,
    RequestPayloadNotValid(String),
    UserCouldNotBeCreated,
    UserCouldNotBeUpdated,
    UserCouldNotBeDeleted,
}

impl Default for AppError {
    fn default() -> (r: Self)
        ensures
            r is DatabaseConnectionFailure,
    {
        AppError::DatabaseConnectionFailure
    }
}

/// The JSON error body: a stable code, a human-readable cause, and an
/// optional stack trace that the service never fills.
#[derive(Debug)]
pub struct AppErrorResponse {
    pub code: String,
    pub cause: String,
    pub stacktrace: Option<String>,
}

impl Default for AppErrorResponse {
    fn default() -> (r: Self)
        ensures
            r.code@.len() == 0,
            r.cause@.len() == 0,
            r.stacktrace is None,
    {
        AppErrorResponse { code: String::new(), cause: String::new(), stacktrace: None }
    }
}

pub type CustomResult<T> = Result<T, AppError>;

impl AppError {
    /// The HTTP status code and JSON body each error surfaces as: a
    /// missing user maps to 404, a rejected payload to 422, everything
    /// else to 500.
    pub fn response_parts(self) -> (r: (u16, AppErrorResponse))
        ensures
            r.1.stacktrace is None,
            self is UserNotFound ==> r.0 == 404u16 && r.1.code@ == "UserNotFound"@ && r.1.cause@
                == "User not found"@,
            self is NoUsersFound ==> r.0 == 500u16 && r.1.code@ == "NoUsersFound"@ && r.1.cause@
                == "No users found in database"@,
            self is UserCouldNotBeCreated ==> r.0 == 500u16 && r.1.code@
                == "UserCouldNotBeCreated"@ && r.1.cause@ == "User could not be created"@,
            self is UserCouldNotBeUpdated ==> r.0 == 500u16 && r.1.code@
                == "UserCouldNotBeUpdated"@ && r.1.cause@ == "User could not be updated"@,
            self is UserCouldNotBeDeleted ==> r.0 == 500u16 && r.1.code@
                == "UserCouldNotBeDeleted"@ && r.1.cause@ == "User could not be deleted"@,
            self matches AppError::RequestPayloadNotValid(err_string) ==> r.0 == 422u16
                && r.1.code@ == "RequestPayloadNotValidUnprocessableEntity"@ && r.1.cause@
                == err_string@,
            self is DatabaseConnectionFailure ==> r.0 == 500u16 && r.1.code@
                == "DatabaseConnectionFailure"@ && r.1.cause@ == "Could not connect to database"@,
    {
        match self {
            AppError::UserNotFound => (
                404,
                AppErrorResponse {
                    code: String::from_str("UserNotFound"),
                    cause: String::from_str("User not found"),
                    stacktrace: None,
                },
            ),
            AppError::NoUsersFound => (
                500,
                AppErrorResponse {
                    code: String::from_str("NoUsersFound"),
                    cause: String::from_str("No users found in database"),
                    stacktrace: None,
                },
            ),
            AppError::UserCouldNotBeCreated => (
                500,
                AppErrorResponse {
                    code: String::from_str("UserCouldNotBeCreated"),
                    cause: String::from_str("User could not be created"),
                    stacktrace: None,
                },
            ),
            AppError::UserCouldNotBeUpdated => (
                500,
                AppErrorResponse {
                    code: String::from_str("UserCouldNotBeUpdated"),
                    cause: String::from_str("User could not be updated"),
                    stacktrace: None,
                },
            ),
            AppError::UserCouldNotBeDeleted => (
                500,
                AppErrorResponse {
                    code: String::from_str("UserCouldNotBeDeleted"),
                    cause: String::from_str("User could not be deleted"),
                    stacktrace: None,
                },
            ),
            AppError::RequestPayloadNotValid(err_string) => (
                422,
                AppErrorResponse {
                    code: String::from_str("RequestPayloadNotValidUnprocessableEntity"),
                    cause: err_string,
                    stacktrace: None,
                },
            ),
            AppError::DatabaseConnectionFailure => (
                500,
                AppErrorResponse {
                    code: String::from_str("DatabaseConnectionFailure"),
                    cause: String::from_str("Could not connect to database"),
                    stacktrace: None,
                },
            ),
        }
    }

    /// The one-line description the error displays.
    pub fn description(&self) -> (r: String)
        ensures
            r@ == "something went wrong"@,
    {
        String::from_str("something went wrong")
    }
}

} // verus!
