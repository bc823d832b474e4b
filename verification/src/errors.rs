use vstd::prelude::*;

verus! {

/// The classification that every failing operation reports.
///
/// Each variant corresponds to one class of user-visible failure; an
/// unclassified store or transport failure is downgraded to `Internal`
/// and its detail is never carried along, so nothing of the storage
/// internals can leak to a client.
#[derive(Clone, Copy, Debug, PartialEq, Eq, Structural)]
pub enum ApiError {
    /// Malformed input: a non-numeric path id, a caller-supplied id on
    /// create, or mismatched path/body ids on update.
    BadRequest,
    /// Bad credentials, or a missing, invalid or revoked session token.
    Unauthorized,
    /// A missing resource, or a missing foreign-key dependency.
    NotFound,
    /// A duplicate unique name, or a delete blocked by a dependent row.
    Conflict,
    /// Any unclassified failure; details are stripped.
    Internal,
}

/// The HTTP status code that stands for each failure class.
pub open spec fn spec_status_code(e: ApiError) -> u16 {
    match e {
        ApiError::BadRequest => 400u16,
        ApiError::Unauthorized => 403u16,
        ApiError::NotFound => 404u16,
        ApiError::Conflict => 409u16,
        ApiError::Internal => 500u16,
    }
}

/// Maps a classified failure to the status code reported to clients.
pub fn status_code(e: &ApiError) -> (r: u16)
    ensures
        r == spec_status_code(*e),
{
    match e {
        ApiError::BadRequest => 400,
        ApiError::Unauthorized => 403,
        ApiError::NotFound => 404,
        ApiError::Conflict => 409,
        ApiError::Internal => 500,
    }
}

/// A short, stable, human-readable label for each failure class.
pub fn error_label(e: &ApiError) -> (r: &'static str)
    ensures
        e == ApiError::BadRequest ==> r@ == "bad request"@,
        e == ApiError::Unauthorized ==> r@ == "unauthorized"@,
        e == ApiError::NotFound ==> r@ == "not found"@,
        e == ApiError::Conflict ==> r@ == "conflict"@,
        e == ApiError::Internal ==> r@ == "internal error"@,
{
    match e {
        ApiError::BadRequest => "bad request",
        ApiError::Unauthorized => "unauthorized",
        ApiError::NotFound => "not found",
        ApiError::Conflict => "conflict",
        ApiError::Internal => "internal error",
    }
}

} // verus!
