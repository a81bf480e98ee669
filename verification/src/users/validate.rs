use crate::users::errors::AppError;
use crate::users::user::CreateUserDto;
use vstd::prelude::*;
use vstd::string::StringExecFns;

verus! {

/// A request body that passed validation on its way into a handler; the
/// transport layer deserializes, the library validates.
#[derive(Debug, Clone, Copy, Default)]
pub struct ValidatedJson<T>(pub T);

impl<T> ValidatedJson<T> {
    /// The validated value itself.
    pub fn into_inner(self) -> (r: T)
        ensures
            r == self.0,
    {
        self.0
    }
}

/// What the e-mail check accepts: the HTML5 e-mail address shape.
pub uninterp spec fn is_email(s: Seq<char>) -> bool;

/// Relies on validator's `ValidateEmail` for `&str`: the HTML5 e-mail
/// address check, a function of the characters alone. Its source rejects
/// the empty string and any string without an '@' outright.
#[verifier::external_body]
fn email_format_ok(s: &str) -> (r: bool)
    ensures
        r == is_email(s@),
        s@.len() == 0 ==> !r,
        !s@.contains('@') ==> !r,
{
    validator::ValidateEmail::validate_email(&s)
}

/// What a creation payload must satisfy: non-empty username, role and
/// password hash, and a well-formed e-mail address.
pub open spec fn create_user_valid(
    username: Seq<char>,
    email: Seq<char>,
    role: Seq<char>,
    password_hash: Seq<char>,
) -> bool {
    username.len() >= 1 && is_email(email) && role.len() >= 1 && password_hash.len() >= 1
}

/// Validate a creation payload, exactly as the request path does before a
/// row is built from it: acceptable payloads pass through unchanged,
/// anything else is rejected as an unprocessable payload.
pub fn validate_create_user(dto: CreateUserDto) -> (r: Result<
    ValidatedJson<CreateUserDto>,
    AppError,
>)
    ensures
        r is Ok <==> create_user_valid(dto.username@, dto.email@, dto.role@, dto.password_hash@),
        r matches Ok(v) ==> v.0.username@ == dto.username@ && v.0.email@ == dto.email@
            && v.0.role@ == dto.role@ && v.0.password_hash@ == dto.password_hash@,
        r matches Err(e) ==> e matches AppError::RequestPayloadNotValid(m) && m@
            == "request payload failed validation"@,
{
    let username_ok = !dto.username.as_str().is_empty();
    let email_ok = email_format_ok(dto.email.as_str());
    let role_ok = !dto.role.as_str().is_empty();
    let password_ok = !dto.password_hash.as_str().is_empty();
    if username_ok && email_ok && role_ok && password_ok {
        Ok(ValidatedJson(dto))
    } else {
        Err(
            AppError::RequestPayloadNotValid(
                String::from_str("request payload failed validation"),
            ),
        )
    }
}

} // verus!
