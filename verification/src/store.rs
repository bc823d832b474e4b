use vstd::prelude::*;

use crate::errors::ApiError;

verus! {

/// How a failed call into the relational store presents itself to the
/// caller of a query. The driver around the store hands these in; the
/// classification below is what turns them into the service's failure
/// taxonomy.
pub enum StoreError {
    /// The query matched no row.
    RowNotFound,
    /// The store rejected a statement; carries the store's own message.
    Database(String),
    /// Any other failure (connection, protocol, decoding, ...).
    Other,
}

/// `p` is a prefix of `s`.
pub open spec fn starts_with(s: Seq<char>, p: Seq<char>) -> bool {
    p.len() <= s.len() && forall|i: int| 0 <= i < p.len() ==> s[i] == p[i]
}

/// The signature a duplicate-key rejection's message starts with.
pub open spec fn duplicate_entry_prefix() -> Seq<char> {
    "Duplicate entry"@
}

/// The signature a foreign-key rejection's message starts with.
pub open spec fn foreign_key_prefix() -> Seq<char> {
    "Cannot add or update a child row: a foreign key constraint fails"@
}

/// Does `s` start with `p`?
pub fn str_starts_with(s: &str, p: &str) -> (r: bool)
    ensures
        r == starts_with(s@, p@),
{
    let np = p.unicode_len();
    let ns = s.unicode_len();
    if np > ns {
        return false;
    }
    let mut i: usize = 0;
    while i < np
        invariant
            i <= np,
            np == p@.len(),
            ns == s@.len(),
            np <= ns,
            forall|k: int| 0 <= k < i ==> s@[k] == p@[k],
        decreases np - i,
    {
        if s.get_char(i) != p.get_char(i) {
            return false;
        }
        i = i + 1;
    }
    true
}

/// What a failed insert or update means.
pub open spec fn spec_classify_write_error(e: StoreError, kind_has_foreign_key: bool) -> ApiError {
    match e {
        StoreError::Database(msg) => if starts_with(msg@, duplicate_entry_prefix()) {
            ApiError::Conflict
        } else if kind_has_foreign_key && starts_with(msg@, foreign_key_prefix()) {
            ApiError::NotFound
        } else {
            ApiError::Internal
        },
        _ => ApiError::Internal,
    }
}

/// Classifies a failed insert or update against the store's known
/// rejection signatures: a duplicate key is a name `Conflict`; a
/// foreign-key rejection is a missing dependency (`NotFound`) where the
/// kind declares a foreign key; anything unrecognized is downgraded to
/// `Internal` and its detail is dropped here, never surfaced.
pub fn classify_write_error(e: &StoreError, kind_has_foreign_key: bool) -> (r: ApiError)
    ensures
        r == spec_classify_write_error(*e, kind_has_foreign_key),
{
    match e {
        StoreError::Database(msg) => {
            if str_starts_with(msg.as_str(), "Duplicate entry") {
                ApiError::Conflict
            } else if kind_has_foreign_key && str_starts_with(
                msg.as_str(),
                "Cannot add or update a child row: a foreign key constraint fails",
            ) {
                ApiError::NotFound
            } else {
                ApiError::Internal
            }
        },
        _ => ApiError::Internal,
    }
}

/// Classifies a failed single-row read: no row is `NotFound`, anything
/// else is `Internal` with its detail dropped.
pub fn classify_fetch_error(e: &StoreError) -> (r: ApiError)
    ensures
        r == (if e is RowNotFound {
            ApiError::NotFound
        } else {
            ApiError::Internal
        }),
{
    match e {
        StoreError::RowNotFound => ApiError::NotFound,
        _ => ApiError::Internal,
    }
}

/// Classifies a failed credential lookup: no matching row means the
/// credentials are bad (`Unauthorized`), anything else is `Internal`.
pub fn classify_credential_error(e: &StoreError) -> (r: ApiError)
    ensures
        r == (if e is RowNotFound {
            ApiError::Unauthorized
        } else {
            ApiError::Internal
        }),
{
    match e {
        StoreError::RowNotFound => ApiError::Unauthorized,
        _ => ApiError::Internal,
    }
}

/// What the token-issuing loop does after one attempted session insert.
#[derive(Clone, Copy, Debug, PartialEq, Eq, Structural)]
pub enum SessionInsertStep {
    /// The insert went through; the drawn token is the session's.
    Committed,
    /// The token collided with a live one; draw again.
    Retry,
    /// Any other persistence failure is fatal to the call.
    Fatal,
}

/// What one attempted session insert means.
pub open spec fn spec_session_insert_step(outcome: Result<(), StoreError>) -> SessionInsertStep {
    match outcome {
        Result::Ok(()) => SessionInsertStep::Committed,
        Result::Err(e) => match e {
            StoreError::Database(msg) => if starts_with(msg@, duplicate_entry_prefix()) {
                SessionInsertStep::Retry
            } else {
                SessionInsertStep::Fatal
            },
            _ => SessionInsertStep::Fatal,
        },
    }
}

/// Decides the next step of the token-issuing loop from the outcome of
/// one session insert: only a duplicate-key rejection is retried; any
/// other failure is fatal to the call.
pub fn session_insert_step(outcome: &Result<(), StoreError>) -> (r: SessionInsertStep)
    ensures
        r == spec_session_insert_step(*outcome),
{
    match outcome {
        Result::Ok(()) => SessionInsertStep::Committed,
        Result::Err(e) => match e {
            StoreError::Database(msg) => {
                if str_starts_with(msg.as_str(), "Duplicate entry") {
                    SessionInsertStep::Retry
                } else {
                    SessionInsertStep::Fatal
                }
            },
            _ => SessionInsertStep::Fatal,
        },
    }
}

/// Turns the row count an update or delete reports into its outcome:
/// zero rows affected means the row never existed (`NotFound`).
pub fn rows_affected_outcome(rows_affected: u64) -> (r: Result<(), ApiError>)
    ensures
        r == (if rows_affected == 0 {
            Result::<(), ApiError>::Err(ApiError::NotFound)
        } else {
            Result::<(), ApiError>::Ok(())
        }),
{
    if rows_affected == 0 {
        Result::Err(ApiError::NotFound)
    } else {
        Result::Ok(())
    }
}

/// Ids are server-assigned only: a creation payload carrying a non-zero
/// id is rejected before anything is written.
pub fn check_server_assigned_id(id: u64) -> (r: Result<(), ApiError>)
    ensures
        r == (if id != 0 {
            Result::<(), ApiError>::Err(ApiError::BadRequest)
        } else {
            Result::<(), ApiError>::Ok(())
        }),
{
    if id != 0 {
        Result::Err(ApiError::BadRequest)
    } else {
        Result::Ok(())
    }
}

/// An update's path id and payload id must agree before anything is
/// written.
pub fn check_ids_match(path_id: u64, body_id: u64) -> (r: Result<(), ApiError>)
    ensures
        r == (if path_id != body_id {
            Result::<(), ApiError>::Err(ApiError::BadRequest)
        } else {
            Result::<(), ApiError>::Ok(())
        }),
{
    if path_id != body_id {
        Result::Err(ApiError::BadRequest)
    } else {
        Result::Ok(())
    }
}

} // verus!
