use store_core::catalog::Catalog;
use store_core::errors::ApiError;

fn with_user() -> Catalog {
    let mut c = Catalog::new();
    c.add_user(String::from("alice"), String::from("SECRET-REDACTED")).unwrap();
    c
}

#[test]
fn authenticate_with_bad_credentials_is_unauthorized() {
    let mut c = with_user();
    let r = c.authenticate(&String::from("alice"), &String::from("wrong"));
    assert!(matches!(r, Err(ApiError::Unauthorized)));
    let r = c.authenticate(&String::from("nobody"), &String::from("SECRET-REDACTED"));
    assert!(matches!(r, Err(ApiError::Unauthorized)));
}

#[test]
fn issued_tokens_are_eight_alphanumeric_characters() {
    let mut c = with_user();
    let token = c.authenticate(&String::from("alice"), &String::from("SECRET-REDACTED")).unwrap();
    assert_eq!(token.len(), 8);
    assert!(token.chars().all(|ch| ch.is_ascii_alphanumeric()));
}

#[test]
fn two_issuances_never_share_a_token() {
    let mut c = with_user();
    let first = c.authenticate(&String::from("alice"), &String::from("SECRET-REDACTED")).unwrap();
    let second = c.authenticate(&String::from("alice"), &String::from("SECRET-REDACTED")).unwrap();
    assert_ne!(first, second);
    assert!(c.validate(&first).is_ok());
    assert!(c.validate(&second).is_ok());
}

#[test]
fn issuing_a_colliding_token_is_refused() {
    let mut c = with_user();
    // the deterministic insert step under authenticate: a forced collision
    assert!(c.try_issue_session(1, String::from("AAAAAAAA")));
    assert!(!c.try_issue_session(1, String::from("AAAAAAAA")));
    assert!(c.validate(&String::from("AAAAAAAA")).is_ok());
}

#[test]
fn malformed_tokens_are_rejected_before_any_lookup() {
    let mut c = with_user();
    assert!(matches!(c.validate(&String::from("short")), Err(ApiError::BadRequest)));
    assert!(matches!(c.validate(&String::from("ninechars")), Err(ApiError::BadRequest)));
    assert!(matches!(c.validate(&String::from("with spc!")), Err(ApiError::BadRequest)));
    assert!(matches!(c.validate(&String::from("abcd-123")), Err(ApiError::BadRequest)));
    assert!(matches!(c.validate(&String::from("t\u{00f6}kens1")), Err(ApiError::BadRequest)));
    assert!(matches!(c.revoke(&String::from("bad tok")), Err(ApiError::BadRequest)));
    assert!(!c.try_issue_session(1, String::from("no")));
}

#[test]
fn validate_returns_the_session_owner() {
    let mut c = with_user();
    let token = c.authenticate(&String::from("alice"), &String::from("SECRET-REDACTED")).unwrap();
    let session = c.validate(&token).unwrap();
    assert_eq!(session.token, token);
    assert_ne!(session.user, 0);
}

#[test]
fn revoked_token_no_longer_validates() {
    let mut c = with_user();
    let token = c.authenticate(&String::from("alice"), &String::from("SECRET-REDACTED")).unwrap();
    assert!(c.validate(&token).is_ok());
    assert!(c.revoke(&token).is_ok());
    assert!(matches!(c.validate(&token), Err(ApiError::Unauthorized)));
}

#[test]
fn revoking_twice_or_revoking_unknown_fails_without_mutation() {
    let mut c = with_user();
    let token = c.authenticate(&String::from("alice"), &String::from("SECRET-REDACTED")).unwrap();
    let other = c.authenticate(&String::from("alice"), &String::from("SECRET-REDACTED")).unwrap();
    assert!(c.revoke(&token).is_ok());
    assert!(matches!(c.revoke(&token), Err(ApiError::Unauthorized)));
    assert!(matches!(c.revoke(&String::from("AAAAAAAA")), Err(ApiError::Unauthorized)));
    // the other session is untouched by the failed revocations
    assert!(c.validate(&other).is_ok());
}

#[test]
fn duplicate_usernames_conflict() {
    let mut c = with_user();
    let r = c.add_user(String::from("alice"), String::from("again"));
    assert!(matches!(r, Err(ApiError::Conflict)));
}
