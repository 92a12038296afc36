//! Request-level checks: the API-key header rule and identifier syntax.

use vstd::prelude::*;
use vstd::string::StrSliceExecFns;

verus! {

/// An error found while validating the identity of a request.
#[derive(Clone, Copy, Debug, PartialEq, Eq, Structural)]
pub enum UserValidationError {
    /// No API key was sent.
    Missing,
    /// The API key is malformed, or more than one was sent.
    Invalid,
    /// The API key matches no user.
    Unauthorized,
    /// The user lacks the permissions the request needs.
    Forbidden,
    /// The service was not wired up.
    SetupFailed,
}

impl UserValidationError {
    /// A short description of the error.
    pub fn message(&self) -> (m: &'static str)
        ensures
            *self is Missing ==> m@ == "Missing API key"@,
            *self is Invalid ==> m@ == "Invalid API key"@,
            *self is Unauthorized ==> m@ == "Unauthorized request"@,
            *self is Forbidden ==> m@ == "Lacks the permissions to perform request"@,
            *self is SetupFailed ==> m@ == "Setup failed"@,
    {
        match self {
            UserValidationError::Missing => "Missing API key",
            UserValidationError::Invalid => "Invalid API key",
            UserValidationError::Unauthorized => "Unauthorized request",
            UserValidationError::Forbidden => "Lacks the permissions to perform request",
            UserValidationError::SetupFailed => "Setup failed",
        }
    }
}

/// The length of an API key, in characters.
pub const API_KEY_LENGTH: usize = 32;

/// Checks the `x-api-key` header values of a request: exactly one key must
/// be sent and it must have the expected length. Nothing here decides
/// whether the key matches a user.
pub fn check_api_key_header(keys: &Vec<String>) -> (r: Result<(), UserValidationError>)
    ensures
        keys@.len() == 0 ==> r == Err::<(), UserValidationError>(UserValidationError::Missing),
        keys@.len() > 1 ==> r == Err::<(), UserValidationError>(UserValidationError::Invalid),
        keys@.len() == 1 && keys@[0]@.len() != API_KEY_LENGTH ==> r == Err::<
            (),
            UserValidationError,
        >(UserValidationError::Invalid),
        keys@.len() == 1 && keys@[0]@.len() == API_KEY_LENGTH ==> r == Ok::<
            (),
            UserValidationError,
        >(()),
{
    if keys.len() == 0 {
        Err(UserValidationError::Missing)
    } else if keys.len() > 1 {
        Err(UserValidationError::Invalid)
    } else if keys[0].as_str().unicode_len() != API_KEY_LENGTH {
        Err(UserValidationError::Invalid)
    } else {
        Ok(())
    }
}

/// Admits only administrators: the rule behind the admin-guarded routes.
pub fn require_admin(user: &crate::user_model::User) -> (r: Result<(), UserValidationError>)
    ensures
        user.role is Admin <==> r is Ok,
        r is Err ==> r == Err::<(), UserValidationError>(UserValidationError::Forbidden),
{
    if matches!(user.role, crate::user_model::UserRole::Admin) {
        Ok(())
    } else {
        Err(UserValidationError::Forbidden)
    }
}

/// Whether a text is a parseable UUID.
pub uninterp spec fn is_uuid_text(s: Seq<char>) -> bool;

/// Relies on uuid::Uuid::parse_str: whether the text parses as a UUID. The
/// result depends on the characters alone.
#[verifier::external_body]
pub(crate) fn valid_uuid(s: &str) -> (r: bool)
    ensures
        r == is_uuid_text(s@),
{
    uuid::Uuid::parse_str(s).is_ok()
}

} // verus!
